use coin_monitor::period::{DateParts, TimePeriod};

#[test]
fn time_period_listing_is_complete() {
    assert_eq!(
        TimePeriod::all(),
        vec![
            TimePeriod::Daily,
            TimePeriod::Weekly,
            TimePeriod::Monthly,
            TimePeriod::Yearly,
            TimePeriod::All,
            TimePeriod::Custom,
        ]
    );
    assert_eq!(TimePeriod::default(), TimePeriod::Weekly);
}

#[test]
fn time_period_labels() {
    assert_eq!(TimePeriod::Daily.label(), "Daily");
    assert_eq!(TimePeriod::Weekly.label(), "Weekly");
    assert_eq!(TimePeriod::Monthly.label(), "Monthly");
    assert_eq!(TimePeriod::Yearly.label(), "Yearly");
    assert_eq!(TimePeriod::All.label(), "All");
    assert_eq!(TimePeriod::Custom.label(), "Custom");
}

#[test]
fn ranges_round_to_each_periods_granularity() {
    let current: u64 = 1_600_000_000;
    assert_eq!(
        TimePeriod::Daily.get_from_to(current, 7, 9),
        (1_599_913_560, 1_599_999_960)
    );
    assert_eq!(
        TimePeriod::Weekly.get_from_to(current, 7, 9),
        (1_599_393_600, 1_599_998_400)
    );
    assert_eq!(
        TimePeriod::Monthly.get_from_to(current, 7, 9),
        (1_597_363_200, 1_599_955_200)
    );
    assert_eq!(
        TimePeriod::Yearly.get_from_to(current, 7, 9),
        (1_568_419_200, 1_599_955_200)
    );
    assert_eq!(TimePeriod::All.get_from_to(current, 7, 9), (0, 1_599_955_200));
    assert_eq!(TimePeriod::Custom.get_from_to(current, 7, 9), (7, 9));
}

#[test]
fn short_histories_need_only_their_own_span() {
    // A week and a half after the epoch is enough for a weekly range,
    // though not for a yearly one.
    assert_eq!(
        TimePeriod::Weekly.get_from_to(1_000_000, 0, 0),
        (392_400, 997_200)
    );
    assert_eq!(TimePeriod::Daily.get_from_to(86_460, 0, 0), (60, 86_460));
    assert_eq!(TimePeriod::All.get_from_to(0, 0, 0), (0, 0));
}

#[test]
fn date_part_setters_replace_one_field() {
    let d = DateParts { year: 2017, month: 1, day: 1 };
    assert_eq!(d.with_year(2018), DateParts { year: 2018, month: 1, day: 1 });
    assert_eq!(d.with_month(6), DateParts { year: 2017, month: 6, day: 1 });
    assert_eq!(d.with_day(15), DateParts { year: 2017, month: 1, day: 15 });
}

#[test]
fn timestamps_of_known_dates() {
    assert_eq!(
        DateParts { year: 1970, month: 1, day: 1 }.as_timestamp(),
        Some(0)
    );
    assert_eq!(
        DateParts { year: 2017, month: 1, day: 1 }.as_timestamp(),
        Some(1_483_228_800)
    );
    assert_eq!(
        DateParts { year: 2018, month: 1, day: 1 }.as_timestamp(),
        Some(1_514_764_800)
    );
    assert_eq!(
        DateParts { year: 2016, month: 2, day: 29 }.as_timestamp(),
        Some(1_456_704_000)
    );
    assert_eq!(
        DateParts { year: 9999, month: 12, day: 31 }.as_timestamp(),
        Some(253_402_214_400)
    );
    assert_eq!(
        DateParts { year: 10_000, month: 1, day: 1 }.as_timestamp(),
        Some(253_402_300_800)
    );
}

#[test]
fn invalid_dates_have_no_timestamp() {
    assert_eq!(DateParts { year: 2017, month: 2, day: 29 }.as_timestamp(), None);
    assert_eq!(DateParts { year: 2017, month: 13, day: 1 }.as_timestamp(), None);
    assert_eq!(DateParts { year: 2017, month: 0, day: 1 }.as_timestamp(), None);
    assert_eq!(DateParts { year: 2017, month: 4, day: 31 }.as_timestamp(), None);
    assert_eq!(DateParts { year: 1969, month: 12, day: 31 }.as_timestamp(), None);
}
