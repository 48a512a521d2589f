use jbot::words::{
    date, describe_usage, in_tenths, pick_unit, unit_fits, unit_label, unit_ratio, whole_seconds,
    WordEntry, Words, LONGEST_SPAN, UNITS,
};

const T0: u64 = 1_700_000_000; // 2023-11-14

fn words(list: &[&str]) -> Vec<String> {
    list.iter().map(|w| w.to_string()).collect()
}

fn entry_of(ledger: &Words, term: &str) -> Option<WordEntry> {
    (0..ledger.len()).find(|&i| ledger.term(i) == term).map(|i| ledger.entry(i))
}

#[test]
fn count_equals_number_of_observations() {
    let mut ledger = Words::new();
    assert!(ledger.seen_at(&words(&["the", "quick", "the"]), T0));
    assert!(ledger.seen_at(&words(&["the"]), T0 + 10));
    assert_eq!(ledger.len(), 2);
    assert_eq!(
        entry_of(&ledger, "the"),
        Some(WordEntry { first_use: T0, last_use: T0 + 10, num_uses: 3 })
    );
    assert_eq!(
        entry_of(&ledger, "quick"),
        Some(WordEntry { first_use: T0, last_use: T0, num_uses: 1 })
    );
    assert_eq!(entry_of(&ledger, "fox"), None);
}

#[test]
fn first_use_stays_and_last_use_moves() {
    let mut ledger = Words::new();
    for (i, at) in [T0, T0 + 5, T0 + 5, T0 + 90].iter().enumerate() {
        assert!(ledger.seen_at(&words(&["fox"]), *at));
        let entry = entry_of(&ledger, "fox").unwrap();
        assert_eq!(entry.first_use, T0);
        assert_eq!(entry.last_use, *at);
        assert_eq!(entry.num_uses, i as u64 + 1);
    }
}

#[test]
fn record_takes_valid_observations() {
    let mut ledger = Words::new();
    ledger.record(&words(&["a", "b", "a"]), T0);
    ledger.record(&words(&[]), T0 + 5);
    ledger.record(&words(&["b"]), T0 + 2);
    assert_eq!(entry_of(&ledger, "a"), Some(WordEntry { first_use: T0, last_use: T0, num_uses: 2 }));
    assert_eq!(
        entry_of(&ledger, "b"),
        Some(WordEntry { first_use: T0, last_use: T0 + 2, num_uses: 2 })
    );
}

#[test]
fn terms_are_kept_in_lower_case() {
    let mut ledger = Words::new();
    assert!(ledger.seen_at(&words(&["Fox", "FOX", "fox", "ÄRGER"]), T0));
    assert_eq!(ledger.len(), 2);
    assert_eq!(entry_of(&ledger, "fox").unwrap().num_uses, 3);
    assert_eq!(entry_of(&ledger, "ärger").unwrap().num_uses, 1);
    assert!(ledger.describe("FoX", T0).is_some());
    assert!(ledger.describe("Ärger", T0).is_some());
}

#[test]
fn clock_that_runs_backwards_is_recorded_all_the_same() {
    let mut ledger = Words::new();
    assert!(ledger.seen_at(&words(&["fox"]), T0));
    assert!(ledger.seen_at(&words(&[]), T0 + 10));
    assert!(ledger.seen_at(&words(&["fox", "dog"]), T0 - 1));
    assert_eq!(ledger.len(), 2);
    assert_eq!(
        entry_of(&ledger, "fox"),
        Some(WordEntry { first_use: T0, last_use: T0 - 1, num_uses: 2 })
    );
    assert_eq!(
        entry_of(&ledger, "dog"),
        Some(WordEntry { first_use: T0 - 1, last_use: T0 - 1, num_uses: 1 })
    );
    // a word last used in the future is told as used just now
    assert_eq!(
        ledger.describe("fox", T0 - 1).unwrap(),
        "fox was used twice: anno 2023 and anno 2023"
    );
}

#[test]
fn time_beyond_the_calendar_records_nothing() {
    let mut ledger = Words::new();
    assert!(!ledger.seen_at(&words(&["fox"]), u64::MAX));
    assert!(!ledger.seen_at(&words(&["fox"]), i64::MAX as u64));
    assert!(!ledger.seen_at(&words(&["fox"]), 9_000_000_000_000));
    assert_eq!(ledger.len(), 0);
    // the last second of the year 9999
    assert!(ledger.seen_at(&words(&["fox"]), 253_402_300_799));
    assert_eq!(
        ledger.describe("fox", 253_402_300_799).unwrap(),
        "fox was used once anno 9999"
    );
}

#[test]
fn unknown_term_has_no_description() {
    let mut ledger = Words::new();
    assert_eq!(ledger.describe("fox", T0), None);
    assert!(ledger.seen_at(&words(&["fox"]), T0));
    assert_eq!(ledger.describe("dog", T0), None);
    assert_eq!(ledger.describe("", T0), None);
}

#[test]
fn description_of_a_single_use() {
    let mut ledger = Words::new();
    assert!(ledger.seen_at(&words(&["fox"]), T0));
    assert_eq!(
        ledger.describe("fox", T0 + 100).unwrap(),
        "fox was used once 37600.0 atoms ago"
    );
    assert_eq!(ledger.describe("fox", T0).unwrap(), "fox was used once anno 2023");
    assert_eq!(
        ledger.describe("Fox", T0 + 1).unwrap(),
        "Fox was used once 376.0 atoms ago"
    );
}

#[test]
fn description_of_two_uses() {
    let mut ledger = Words::new();
    assert!(ledger.seen_at(&words(&["fox"]), T0));
    assert!(ledger.seen_at(&words(&["fox"]), T0 + 50));
    assert_eq!(
        ledger.describe("fox", T0 + 100).unwrap(),
        "fox was used twice: 37600.0 atoms ago and 18800.0 atoms ago"
    );
}

#[test]
fn description_of_many_uses() {
    let mut ledger = Words::new();
    assert!(ledger.seen_at(&words(&["fox"]), T0));
    assert!(ledger.seen_at(&words(&["fox", "fox"]), T0 + 50));
    assert_eq!(
        ledger.describe("fox", T0 + 100).unwrap(),
        "fox was used 3 times between 37600.0 atoms ago and 18800.0 atoms ago"
    );
    let many: Vec<String> = (0..1200).map(|_| "dog".to_string()).collect();
    assert!(ledger.seen_at(&many, T0 + 60));
    assert_eq!(
        ledger.describe("dog", T0 + 61).unwrap(),
        "dog was used 1200 times between 376.0 atoms ago and 376.0 atoms ago"
    );
}

#[test]
fn description_falls_back_to_the_year() {
    let mut ledger = Words::new();
    assert!(ledger.seen_at(&words(&["old"]), 0));
    assert!(ledger.seen_at(&words(&["old"]), T0));
    assert_eq!(
        ledger.describe("old", T0 + 10).unwrap(),
        "old was used twice: anno 1970 and 3760.0 atoms ago"
    );
    assert_eq!(
        ledger.describe("old", T0 + 200_000_000).unwrap(),
        "old was used twice: anno 1970 and anno 2023"
    );
}

#[test]
fn describe_usage_states_each_tier() {
    let once = WordEntry { first_use: 10, last_use: 10, num_uses: 1 };
    let twice = WordEntry { first_use: 10, last_use: 20, num_uses: 2 };
    let often = WordEntry { first_use: 10, last_use: 20, num_uses: 41 };
    assert_eq!(describe_usage("w", &once, 30, 1970, 1970), "w was used once 7520.0 atoms ago");
    assert_eq!(
        describe_usage("w", &twice, 30, 1970, 1970),
        "w was used twice: 7520.0 atoms ago and 3760.0 atoms ago"
    );
    assert_eq!(
        describe_usage("w", &often, 30, 1970, 1970),
        "w was used 41 times between 7520.0 atoms ago and 3760.0 atoms ago"
    );
    assert_eq!(
        describe_usage("w", &twice, 20, 1969, 1971),
        "w was used twice: 3760.0 atoms ago and anno 1971"
    );
}

#[test]
fn date_tells_spans_in_the_smallest_fitting_unit() {
    assert_eq!(date(1000, 1001, 1970), "376.0 atoms ago");
    assert_eq!(date(0, 3600, 1970), "1353600.0 atoms ago");
    assert_eq!(date(0, LONGEST_SPAN, 1970), "59328288000.0 atoms ago");
}

#[test]
fn date_tells_the_year_outside_the_table() {
    assert_eq!(date(5, 5, 2024), "anno 2024");
    assert_eq!(date(10, 5, 1999), "anno 1999");
    assert_eq!(date(0, LONGEST_SPAN + 1, 1970), "anno 1970");
    assert_eq!(date(0, u64::MAX, 1970), "anno 1970");
    assert_eq!(date(0, u64::MAX, -44), "anno -44");
    assert_eq!(date(0, u64::MAX, 0), "anno 0");
    assert_eq!(date(0, u64::MAX, i32::MIN), "anno -2147483648");
    assert_eq!(date(0, u64::MAX, i32::MAX), "anno 2147483647");
}

#[test]
fn unit_is_picked_from_the_table() {
    assert_eq!(pick_unit(0), None);
    assert_eq!(pick_unit(1), Some(0));
    assert_eq!(pick_unit(86_400), Some(0));
    assert_eq!(pick_unit(LONGEST_SPAN), Some(0));
    assert_eq!(pick_unit(LONGEST_SPAN + 1), None);
    assert_eq!(pick_unit(u64::MAX), None);
}

#[test]
fn units_fit_spans_no_shorter_than_themselves() {
    assert!(unit_fits(0, 1));
    assert!(!unit_fits(0, 0));
    assert!(!unit_fits(1, 1)); // 1.2096 s
    assert!(unit_fits(1, 2));
    assert!(!unit_fits(2, 89));
    assert!(unit_fits(2, 90));
    assert!(!unit_fits(11, LONGEST_SPAN - 1));
    assert!(unit_fits(11, LONGEST_SPAN));
}

#[test]
fn spans_are_rounded_to_the_nearest_tenth() {
    assert_eq!(in_tenths(1, 0), 3760);
    assert_eq!(in_tenths(3600, 2), 400);
    assert_eq!(in_tenths(1, 1), 8); // 0.8267
    assert_eq!(in_tenths(100, 1), 827); // 82.67
    assert_eq!(in_tenths(86_400, 7), 10);
    assert_eq!(in_tenths(100_000, 7), 12); // 1.157
    assert_eq!(in_tenths(LONGEST_SPAN, 11), 10);
    assert_eq!(in_tenths(LONGEST_SPAN, 1), 1_304_464_286); // 130446428.57
    // equally near two tenths: the even one
    assert_eq!(in_tenths(45, 4), 0); // 0.05
    assert_eq!(in_tenths(135, 4), 2); // 0.15
    assert_eq!(in_tenths(225, 4), 2); // 0.25
}

#[test]
fn table_of_units_ascends() {
    let expected: [(&str, u64, u64); 12] = [
        ("atoms", 1, 376),
        ("microfortnight", 756, 625),
        ("moments", 90, 1),
        ("European swallow-hours per mile", 150, 1),
        ("punct", 900, 1),
        ("ghurry", 1440, 1),
        ("quadrants", 21_600, 1),
        ("nycthemeron", 86_400, 1),
        ("quinzième", 1_296_000, 1),
        ("dog years", 4_492_800, 1),
        ("seasons", 7_889_400, 1),
        ("mileways", 157_788_000, 1),
    ];
    assert_eq!(UNITS, expected.len());
    for (i, (name, num, den)) in expected.iter().enumerate() {
        assert_eq!(unit_label(i), *name);
        assert_eq!(unit_ratio(i), (*num, *den));
        if i > 0 {
            let (pn, pd) = unit_ratio(i - 1);
            assert!(pn * den < num * pd);
        }
    }
    assert_eq!(unit_ratio(UNITS - 1), (LONGEST_SPAN, 1));
}

#[test]
fn whole_seconds_drops_the_fraction() {
    assert_eq!(whole_seconds(0), 0);
    assert_eq!(whole_seconds(999_999_999), 0);
    assert_eq!(whole_seconds(1_000_000_000), 1);
    assert_eq!(whole_seconds(1_700_000_000_999_999_999), 1_700_000_000);
    assert_eq!(whole_seconds(u64::MAX as u128 * 1_000_000_000), u64::MAX);
    assert_eq!(whole_seconds(u128::MAX), u64::MAX);
}

#[test]
fn seen_reads_the_clock() {
    let mut ledger = Words::new();
    let before = std::time::SystemTime::now()
        .duration_since(std::time::UNIX_EPOCH)
        .unwrap()
        .as_secs();
    ledger.seen(&words(&["Hello", "hello"]));
    let after = std::time::SystemTime::now()
        .duration_since(std::time::UNIX_EPOCH)
        .unwrap()
        .as_secs();
    let entry = entry_of(&ledger, "hello").unwrap();
    assert_eq!(entry.num_uses, 2);
    assert_eq!(entry.first_use, entry.last_use);
    assert!(before <= entry.first_use && entry.first_use <= after);
}

#[test]
fn last_seen_reads_the_clock() {
    let mut ledger = Words::new();
    assert_eq!(ledger.last_seen("hello"), None);
    assert!(ledger.seen_at(&words(&["hello"]), 86_400));
    assert_eq!(ledger.last_seen("hello").unwrap(), "hello was used once anno 1970");
    assert!(ledger.seen_at(&words(&["now"]), 86_400));
    ledger.seen(&words(&["now"]));
    let text = ledger.last_seen("NOW").unwrap();
    assert!(text.starts_with("NOW was used twice: anno 1970 and "), "{}", text);
}

#[test]
fn ledger_can_be_read_out_and_put_back() {
    let mut ledger = Words::new();
    assert!(ledger.seen_at(&words(&["the", "quick", "the"]), T0));
    assert!(ledger.seen_at(&words(&["fox", "the"]), T0 + 7));

    let mut copy = Words::new();
    for i in 0..ledger.len() {
        assert!(copy.restore(ledger.term(i).to_string(), ledger.entry(i)));
    }
    assert_eq!(copy.len(), 3);
    assert_eq!(copy.term(0), "the");
    assert_eq!(copy.term(1), "quick");
    assert_eq!(copy.term(2), "fox");
    assert_eq!(
        entry_of(&copy, "the"),
        Some(WordEntry { first_use: T0, last_use: T0 + 7, num_uses: 3 })
    );
    assert!(copy.seen_at(&words(&["fox"]), T0 + 6));
    assert_eq!(
        entry_of(&copy, "fox"),
        Some(WordEntry { first_use: T0 + 7, last_use: T0 + 6, num_uses: 2 })
    );
}

#[test]
fn restore_refuses_what_would_break_the_ledger() {
    let mut ledger = Words::new();
    let good = WordEntry { first_use: 5, last_use: 9, num_uses: 2 };
    assert!(!ledger.restore("a".to_string(), WordEntry { num_uses: 0, ..good }));
    assert!(!ledger.restore("a".to_string(), WordEntry { last_use: u64::MAX, ..good }));
    assert!(!ledger.restore("a".to_string(), WordEntry { first_use: u64::MAX, ..good }));
    assert!(!ledger.restore("a".to_string(), WordEntry { last_use: 9_000_000_000_000, ..good }));
    assert!(!ledger.restore("a".to_string(), WordEntry { first_use: 9_000_000_000_000, ..good }));
    assert_eq!(ledger.len(), 0);
    assert!(ledger.restore("a".to_string(), good));
    assert!(!ledger.restore("a".to_string(), good));
    // what a clock that ran backwards left behind is put back as it was
    assert!(ledger.restore("b".to_string(), WordEntry { first_use: 10, ..good }));
    assert_eq!(ledger.len(), 2);
    assert_eq!(entry_of(&ledger, "b"), Some(WordEntry { first_use: 10, last_use: 9, num_uses: 2 }));
}

#[test]
fn count_stops_at_the_largest_number() {
    let mut ledger = Words::new();
    let full = WordEntry { first_use: 5, last_use: 9, num_uses: u64::MAX - 1 };
    assert!(ledger.restore("a".to_string(), full));
    assert!(ledger.seen_at(&words(&["a", "b", "a", "a"]), 100));
    assert_eq!(
        entry_of(&ledger, "a"),
        Some(WordEntry { first_use: 5, last_use: 100, num_uses: u64::MAX })
    );
    assert_eq!(entry_of(&ledger, "b"), Some(WordEntry { first_use: 100, last_use: 100, num_uses: 1 }));
}

#[test]
fn default_ledger_is_empty() {
    let mut ledger = Words::default();
    assert_eq!(ledger.len(), 0);
    assert_eq!(ledger.describe("fox", T0), None);
    assert!(ledger.seen_at(&words(&["fox"]), 0));
    assert_eq!(ledger.len(), 1);
}
