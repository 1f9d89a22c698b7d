use vt_render::change::Change;
use vt_render::change::ChangeCategory;
use vt_render::change::u64_to_decimal;
use vt_render::pool::ObjectPool;

fn record_at(timestamp_secs: u64) -> Change {
    Change::new(
        String::from("edited the mask"),
        ObjectPool { objects: Vec::new(), palette: Vec::new() },
        ChangeCategory::ObjectModified,
        timestamp_secs,
    )
}

#[test]
fn decimal_rendering_of_numbers() {
    assert_eq!(u64_to_decimal(0), "0");
    assert_eq!(u64_to_decimal(7), "7");
    assert_eq!(u64_to_decimal(42), "42");
    assert_eq!(u64_to_decimal(1009), "1009");
    assert_eq!(u64_to_decimal(u64::MAX), "18446744073709551615");
}

#[test]
fn formatted_time_in_seconds_band() {
    let c = record_at(1000);
    assert_eq!(c.formatted_time(1000), "0s ago");
    assert_eq!(c.formatted_time(1059), "59s ago");
}

#[test]
fn formatted_time_in_minutes_band() {
    let c = record_at(1000);
    assert_eq!(c.formatted_time(1060), "1m ago");
    assert_eq!(c.formatted_time(1000 + 3599), "59m ago");
}

#[test]
fn formatted_time_in_hours_band() {
    let c = record_at(0);
    assert_eq!(c.formatted_time(3600), "1h ago");
    assert_eq!(c.formatted_time(86399), "23h ago");
}

#[test]
fn formatted_time_in_days_band() {
    let c = record_at(0);
    assert_eq!(c.formatted_time(86400), "1d ago");
    assert_eq!(c.formatted_time(86400 * 3 + 5), "3d ago");
}

#[test]
fn formatted_time_with_clock_gone_backwards() {
    let c = record_at(500);
    assert_eq!(c.formatted_time(499), "just now");
}

#[test]
fn change_record_keeps_its_fields() {
    let c = record_at(77);
    assert_eq!(c.description, "edited the mask");
    assert_eq!(c.timestamp_secs, 77);
    assert_eq!(c.category, ChangeCategory::ObjectModified);
    assert!(c.pool_state.objects.is_empty());
}

#[test]
fn category_icons_are_distinct() {
    let cats = [
        ChangeCategory::ObjectAdded,
        ChangeCategory::ObjectDeleted,
        ChangeCategory::ObjectModified,
        ChangeCategory::ObjectRenamed,
        ChangeCategory::BulkChange,
        ChangeCategory::Other,
    ];
    let icons: Vec<&str> = cats
        .iter()
        .map(|c| {
            Change::new(String::new(), ObjectPool { objects: Vec::new(), palette: Vec::new() }, *c, 0)
                .category_icon()
        })
        .collect();
    assert_eq!(icons, vec!["âž•", "ðŸ—‘", "âœ", "ðŸ“", "ðŸ“¦", "â€¢"]);
    for i in 0..icons.len() {
        for j in 0..i {
            assert_ne!(icons[i], icons[j]);
        }
    }
}

#[test]
fn category_colors_match_their_hints() {
    let pairs = [
        (ChangeCategory::ObjectAdded, [0u8, 200, 0]),
        (ChangeCategory::ObjectDeleted, [200, 0, 0]),
        (ChangeCategory::ObjectModified, [0, 100, 200]),
        (ChangeCategory::ObjectRenamed, [150, 100, 200]),
        (ChangeCategory::BulkChange, [200, 150, 0]),
        (ChangeCategory::Other, [128, 128, 128]),
    ];
    for (cat, rgb) in pairs {
        let c = Change::new(
            String::new(),
            ObjectPool { objects: Vec::new(), palette: Vec::new() },
            cat,
            0,
        );
        assert_eq!(c.category_color(), rgb);
    }
}
