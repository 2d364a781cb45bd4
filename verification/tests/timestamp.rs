use gmi::models::{Meta, Post, Tag, User};
use gmi::timestamp::{Timestamp, NANOS_LIMIT, SECONDS_LIMIT};

#[test]
fn timestamp_parts_and_milliseconds() {
    let stamp = Timestamp::new(1_705_276_800, 123_456_789).unwrap();
    assert_eq!(stamp.seconds(), 1_705_276_800);
    assert_eq!(stamp.nanos(), 123_456_789);
    assert_eq!(stamp.millis(), 1_705_276_800_123);
    let before_epoch = Timestamp::new(-1, 999_000_000).unwrap();
    assert_eq!(before_epoch.millis(), -1);
    let leap = Timestamp::new(0, 1_500_000_000).unwrap();
    assert_eq!(leap.millis(), 1_500);
}

#[test]
fn timestamp_range() {
    assert!(Timestamp::new(SECONDS_LIMIT, NANOS_LIMIT - 1).is_some());
    assert!(Timestamp::new(-SECONDS_LIMIT, 0).is_some());
    assert!(Timestamp::new(SECONDS_LIMIT + 1, 0).is_none());
    assert!(Timestamp::new(-SECONDS_LIMIT - 1, 0).is_none());
    assert!(Timestamp::new(0, NANOS_LIMIT).is_none());
    assert_eq!(
        Timestamp::new(SECONDS_LIMIT, 999_999_999).unwrap().millis(),
        200_000_000_000_000_999
    );
}

#[test]
fn every_instant_of_the_date_library_is_in_range() {
    for instant in [chrono::DateTime::<chrono::Utc>::MIN_UTC, chrono::DateTime::<chrono::Utc>::MAX_UTC] {
        let stamp = Timestamp::new(instant.timestamp(), instant.timestamp_subsec_nanos()).unwrap();
        assert_eq!(stamp.millis(), instant.timestamp_millis());
    }
    assert!(Timestamp::new(Timestamp::from_epoch_days(i32::MAX).seconds(), 0).is_some());
    assert!(Timestamp::new(Timestamp::from_epoch_days(i32::MIN).seconds(), 0).is_some());
}

#[test]
fn blank_entities() {
    let now = Timestamp::new(1_700_000_000, 5_000_000).unwrap();
    let meta = Meta::at(now);
    assert_eq!(meta.exported_on, 1_700_000_000_005);
    assert_eq!(meta.version, "5.75.1");

    let post = Post::blank(now);
    assert_eq!(post.id, 1);
    assert_eq!(post.title, "");
    assert_eq!(post.slug, "");
    assert_eq!(post.html, None);
    assert_eq!(post.feature_image, None);
    assert_eq!(post.featured, Some(0));
    assert_eq!(post.status, "published");
    assert_eq!(post.post_type, "post");
    assert_eq!(post.published_at, Some(now));
    assert_eq!(post.created_at, now);
    assert_eq!(post.updated_at, now);
    assert_eq!(post.visibility, "public");
    assert_eq!(post.show_title_and_feature_image, Some(1));
    assert_eq!(post.email_only, Some(0));

    let tag = Tag::named(4, "Rust".to_string(), "rust".to_string(), now);
    assert_eq!((tag.id, tag.name.as_str(), tag.slug.as_str()), (4, "Rust", "rust"));
    assert_eq!((tag.created_at, tag.updated_at), (now, now));
    assert_eq!(tag.description, None);

    let user = User::named(5, "Ann".to_string(), "ann".to_string(), "ann@example.com".to_string(), now);
    assert_eq!((user.id, user.name.as_str(), user.email.as_str()), (5, "Ann", "ann@example.com"));
    assert_eq!((user.created_at, user.updated_at), (now, now));
    assert_eq!(user.bio, None);
}

#[test]
fn default_entities_read_the_clock() {
    let before = chrono::Utc::now().timestamp_millis();
    let meta = Meta::default();
    assert!(meta.exported_on >= before);
    assert_eq!(meta.version, "5.75.1");
    let post = Post::default();
    assert_eq!(post.created_at, post.updated_at);
    assert_eq!(post.published_at, Some(post.created_at));
    assert_eq!(post.status, "published");
    let tag = Tag::default();
    assert_eq!((tag.id, tag.name.as_str()), (1, ""));
    assert_eq!(tag.created_at, tag.updated_at);
    let user = User::default();
    assert_eq!((user.id, user.email.as_str()), (1, ""));
    assert_eq!(user.created_at, user.updated_at);
}
