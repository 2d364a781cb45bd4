//! Date normalisation: a loosely written date is tried against a list of
//! layouts in order, and the first that parses decides the instant.

use crate::timestamp::{
    naive_date_epoch_days, naive_datetime_instant, offset_datetime_instant, parse_naive_date,
    parse_naive_datetime, parse_offset_datetime, Timestamp,
};
use vstd::prelude::*;

verus! {

/// The instant that a text encodes under one layout: read with a UTC offset
/// where the layout carries one, else as a date and time in UTC.
pub open spec fn layout_instant(text: Seq<char>, layout: Seq<char>) -> Option<Timestamp> {
    match offset_datetime_instant(text, layout) {
        Some(instant) => Some(instant),
        None => naive_datetime_instant(text, layout),
    }
}

/// The instant under the first layout, from position `from` on, that parses
/// the text.
pub open spec fn first_instant_from(
    text: Seq<char>,
    layouts: Seq<Seq<char>>,
    from: int,
) -> Option<Timestamp>
    decreases layouts.len() - from,
{
    if from < 0 || from >= layouts.len() {
        None
    } else {
        match layout_instant(text, layouts[from]) {
            Some(instant) => Some(instant),
            None => first_instant_from(text, layouts, from + 1),
        }
    }
}

/// The instant under the first layout of the list that parses the text.
pub open spec fn first_instant(text: Seq<char>, layouts: Seq<Seq<char>>) -> Option<Timestamp> {
    first_instant_from(text, layouts, 0)
}

/// The first layout that parses a text decides its instant: where a layout
/// parses the text and none before it does, the instant is the one under that
/// layout.
pub proof fn law_first_layout_decides(text: Seq<char>, layouts: Seq<Seq<char>>, at: int)
    requires
        0 <= at < layouts.len(),
        layout_instant(text, layouts[at]) is Some,
        forall|j: int| 0 <= j < at ==> layout_instant(text, #[trigger] layouts[j]) is None,
    ensures
        first_instant(text, layouts) == layout_instant(text, layouts[at]),
{
    lemma_first_instant_skips(text, layouts, 0, at);
}

/// Where no layout parses a text, it has no instant.
pub proof fn law_no_layout_no_instant(text: Seq<char>, layouts: Seq<Seq<char>>)
    requires
        forall|j: int|
            0 <= j < layouts.len() ==> layout_instant(text, #[trigger] layouts[j]) is None,
    ensures
        first_instant(text, layouts) is None,
{
    lemma_first_instant_skips(text, layouts, 0, layouts.len() as int);
}

/// Layouts that do not parse a text are passed over.
pub proof fn lemma_first_instant_skips(
    text: Seq<char>,
    layouts: Seq<Seq<char>>,
    from: int,
    to: int,
)
    requires
        0 <= from <= to <= layouts.len(),
        forall|j: int| from <= j < to ==> layout_instant(text, #[trigger] layouts[j]) is None,
    ensures
        first_instant_from(text, layouts, from) == first_instant_from(text, layouts, to),
    decreases to - from,
{
    if from < to {
        lemma_first_instant_skips(text, layouts, from + 1, to);
    }
}

/// Midnight UTC of the day that a text encodes under a date-only layout.
pub open spec fn date_instant(text: Seq<char>, layout: Seq<char>) -> Option<Timestamp> {
    match naive_date_epoch_days(text, layout) {
        Some(days) => Some(Timestamp::midnight(days)),
        None => None,
    }
}

/// The instant of a day is its midnight: a whole number of days from the
/// epoch, with no nanoseconds.
pub proof fn law_day_begins_at_midnight(text: Seq<char>, layout: Seq<char>)
    ensures
        date_instant(text, layout) is Some <==> naive_date_epoch_days(text, layout) is Some,
        date_instant(text, layout) matches Some(instant) ==> instant.secs()
            == naive_date_epoch_days(text, layout)->0 * 86_400 && instant.subsec_nanos() == 0,
{
    match naive_date_epoch_days(text, layout) {
        Some(days) => {
            Timestamp::lemma_midnight(days);
        },
        None => {},
    }
}

/// The first of two optional instants that is present.
pub open spec fn or_else(first: Option<Timestamp>, second: Option<Timestamp>) -> Option<
    Timestamp,
> {
    match first {
        Some(instant) => Some(instant),
        None => second,
    }
}

/// Tries the layouts in order, each with and then without a UTC offset, and
/// returns the instant of the first that parses.
pub fn parse_first(text: &str, layouts: &Vec<&'static str>) -> (r: Option<Timestamp>)
    ensures
        r == first_instant(text@, layouts.deep_view()),
{
    let ghost all = layouts.deep_view();
    let mut i: usize = 0;
    while i < layouts.len()
        invariant
            i <= layouts.len(),
            all == layouts.deep_view(),
            first_instant(text@, all) == first_instant_from(text@, all, i as int),
        decreases layouts.len() - i,
    {
        let layout: &str = layouts[i];
        assert(layout@ == all[i as int]);
        if let Some(instant) = parse_offset_datetime(text, layout) {
            return Some(instant);
        }
        if let Some(instant) = parse_naive_datetime(text, layout) {
            return Some(instant);
        }
        i += 1;
    }
    None
}

/// Midnight UTC of the day that the text encodes under a date-only layout.
pub fn parse_day(text: &str, layout: &str) -> (r: Option<Timestamp>)
    ensures
        r == date_instant(text@, layout@),
{
    match parse_naive_date(text, layout) {
        Some(days) => Some(Timestamp::from_epoch_days(days)),
        None => None,
    }
}

/// The layouts of a date and time, in order of priority.
pub open spec fn export_layouts() -> Seq<Seq<char>> {
    seq![
        "%Y-%m-%d"@,
        "%Y-%m-%d %H:%M:%S"@,
        "%Y-%m-%d %H:%M"@,
        "%Y-%m-%dT%H:%M:%S"@,
        "%Y-%m-%dT%H:%M:%SZ"@,
        "%Y-%m-%dT%H:%M:%S%z"@,
        "%Y/%m/%d %H:%M:%S"@,
        "%Y/%m/%d"@,
        "%B %d, %Y"@,
        "%b %d, %Y"@,
    ]
}

/// The instant that a date string encodes: that of the first layout that
/// parses it as a date and time, else midnight UTC of the day it names: with
/// hyphens, else with slashes, else with the name of the month in full, else
/// with the name of the month cut short.
pub open spec fn export_date(text: Seq<char>) -> Option<Timestamp> {
    or_else(
        first_instant(text, export_layouts()),
        or_else(
            date_instant(text, "%Y-%m-%d"@),
            or_else(
                date_instant(text, "%Y/%m/%d"@),
                or_else(date_instant(text, "%B %d, %Y"@), date_instant(text, "%b %d, %Y"@)),
            ),
        ),
    )
}

/// A date string normalised: the instant it encodes, or the fallback where no
/// layout parses it.
pub open spec fn instant_or(parsed: Option<Timestamp>, fallback: Timestamp) -> Timestamp {
    match parsed {
        Some(instant) => instant,
        None => fallback,
    }
}

/// The instant that a date string encodes, or `None` where no layout parses
/// it.
pub fn find_export_date(text: &str) -> (r: Option<Timestamp>)
    ensures
        r == export_date(text@),
{
    let layouts: Vec<&'static str> = vec![
        "%Y-%m-%d",
        "%Y-%m-%d %H:%M:%S",
        "%Y-%m-%d %H:%M",
        "%Y-%m-%dT%H:%M:%S",
        "%Y-%m-%dT%H:%M:%SZ",
        "%Y-%m-%dT%H:%M:%S%z",
        "%Y/%m/%d %H:%M:%S",
        "%Y/%m/%d",
        "%B %d, %Y",
        "%b %d, %Y",
    ];
    assert(layouts.deep_view() =~= export_layouts());
    if let Some(instant) = parse_first(text, &layouts) {
        return Some(instant);
    }
    if let Some(instant) = parse_day(text, "%Y-%m-%d") {
        return Some(instant);
    }
    if let Some(instant) = parse_day(text, "%Y/%m/%d") {
        return Some(instant);
    }
    if let Some(instant) = parse_day(text, "%B %d, %Y") {
        return Some(instant);
    }
    parse_day(text, "%b %d, %Y")
}

} // verus!
