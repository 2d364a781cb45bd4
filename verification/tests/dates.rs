use gmi::dates::{find_export_date, parse_day, parse_first};
use gmi::processors::{GhostExporter, MarkdownProcessor};
use gmi::timestamp::Timestamp;

const MIDNIGHT: i64 = 1_705_276_800; // 2024-01-15T00:00:00Z
const AFTERNOON: i64 = 1_705_329_000; // 2024-01-15T14:30:00Z

fn at(seconds: i64) -> Timestamp {
    Timestamp::new(seconds, 0).unwrap()
}

#[test]
fn export_dates_in_every_layout() {
    let fallback = at(7);
    for (text, seconds) in [
        ("2024-01-15", MIDNIGHT),
        ("2024-01-15 14:30:00", AFTERNOON),
        ("2024-01-15 14:30", AFTERNOON),
        ("2024-01-15T14:30:00", AFTERNOON),
        ("2024-01-15T14:30:00Z", AFTERNOON),
        ("2024-01-15T14:30:00+0000", AFTERNOON),
        ("2024-01-15T16:30:00+0200", AFTERNOON),
        ("2024-01-15T16:30:00+02:00", AFTERNOON),
        ("2024-01-15T09:00:00-0530", AFTERNOON),
        ("2024/01/15 14:30:00", AFTERNOON),
        ("2024/01/15", MIDNIGHT),
        ("January 15, 2024", MIDNIGHT),
        ("Jan 15, 2024", MIDNIGHT),
        ("1970-01-01", 0),
        ("1969-12-31 23:59:59", -1),
    ] {
        assert_eq!(GhostExporter::parse_date_or(text, fallback), at(seconds), "for {:?}", text);
        assert_eq!(find_export_date(text), Some(at(seconds)), "for {:?}", text);
        assert_eq!(GhostExporter::parse_date(text), at(seconds), "for {:?}", text);
    }
}

#[test]
fn export_dates_that_no_layout_parses() {
    let fallback = Timestamp::new(1_700_000_000, 123).unwrap();
    let texts =
        ["", "yesterday", "2024-13-01", "2024-02-30", "15.01.2024", "2024-01-15T14:30", "14:30"];
    for text in texts {
        assert_eq!(GhostExporter::parse_date_or(text, fallback), fallback, "for {:?}", text);
        assert_eq!(find_export_date(text), None, "for {:?}", text);
    }
}

#[test]
fn unparseable_date_reads_the_clock() {
    let before = chrono::Utc::now().timestamp();
    let read = GhostExporter::parse_date("not a date");
    let after = chrono::Utc::now().timestamp();
    assert!(before <= read.seconds() && read.seconds() <= after);
    let read = MarkdownProcessor::parse_date("not a date");
    assert!(before <= read.seconds());
}

#[test]
fn document_dates_in_every_layout() {
    let fallback = at(7);
    for (text, seconds) in [
        ("2024-01-15", MIDNIGHT),
        ("2024-01-15 14:30:00", AFTERNOON),
        ("2024-01-15 14:30", AFTERNOON),
        ("2024-01-15T14:30:00", AFTERNOON),
        ("2024-01-15T14:30:00Z", AFTERNOON),
        ("2024-01-15T16:30:00+0200", AFTERNOON),
        ("2024/01/15 14:30:00", AFTERNOON),
        ("2024/01/15", MIDNIGHT),
        ("January 15, 2024", MIDNIGHT),
        ("Jan 15, 2024", MIDNIGHT),
    ] {
        assert_eq!(MarkdownProcessor::parse_date_or(text, fallback), at(seconds), "for {:?}", text);
        assert_eq!(MarkdownProcessor::parse_date(text), at(seconds), "for {:?}", text);
        assert_eq!(
            MarkdownProcessor::parse_date_or(text, fallback),
            GhostExporter::parse_date_or(text, fallback)
        );
    }
}

#[test]
fn document_dates_that_no_layout_parses() {
    let fallback = at(7);
    for text in ["", "soon", "2024-13-01", "15.01.2024", "2024-01-15T14:30"] {
        assert_eq!(MarkdownProcessor::parse_date_or(text, fallback), fallback, "for {:?}", text);
    }
}

#[test]
fn layouts_are_tried_in_order() {
    let layouts = vec!["%Y", "%Y-%m-%d %H:%M", "%d.%m.%Y %H:%M", "%Y-%m-%d %H:%M"];
    assert_eq!(parse_first("2024-01-15 14:30", &layouts), Some(at(AFTERNOON)));
    assert_eq!(parse_first("15.01.2024 14:30", &layouts), Some(at(AFTERNOON)));
    assert_eq!(parse_first("2024", &layouts), None);
    assert_eq!(parse_first("2024-01-15 14:30", &Vec::new()), None);
}

#[test]
fn a_day_begins_at_midnight() {
    assert_eq!(parse_day("2024-01-15", "%Y-%m-%d"), Some(at(MIDNIGHT)));
    assert_eq!(parse_day("15.01.2024", "%d.%m.%Y"), Some(at(MIDNIGHT)));
    assert_eq!(parse_day("2024-01-15", "%Y/%m/%d"), None);
    assert_eq!(Timestamp::from_epoch_days(19_737), at(MIDNIGHT));
    assert_eq!(Timestamp::from_epoch_days(-1), at(-86_400));
}

#[test]
fn a_leap_second_keeps_its_nanoseconds() {
    let parsed = GhostExporter::parse_date_or("2016-12-31 23:59:60", at(7));
    assert_eq!(parsed.seconds(), 1_483_228_799);
    assert_eq!(parsed.nanos(), 1_000_000_000);
}
