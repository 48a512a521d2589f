use jbot::urbandict::{
    entry, failure, lookup_reply, lookup_url, pick, term, total_votes, Def, MAX_LEN,
};

fn def(thumbs_up: u64, definition: &str) -> Def {
    Def { thumbs_up, definition: definition.to_string() }
}

#[test]
fn no_candidates_give_no_results() {
    assert_eq!(term("xyzzy", &vec![]), "no results for 'xyzzy'");
    assert_eq!(lookup_reply("xyzzy", &vec![], 17), "no results for 'xyzzy'");
    assert_eq!(term("", &vec![]), "no results for ''");
    assert_eq!(term("two words", &vec![]), "no results for 'two words'");
}

#[test]
fn single_candidate_is_used_unmodified() {
    let defs = vec![def(0, "A magic word, spoken in caves.")];
    assert_eq!(term("xyzzy", &defs), "xyzzy: A magic word, spoken in caves.");
    assert_eq!(lookup_reply("xyzzy", &defs, 99), "xyzzy: A magic word, spoken in caves.");
    assert_eq!(term("x", &vec![def(7, "")]), "x: ");
}

#[test]
fn only_the_first_line_is_used() {
    assert_eq!(term("w", &vec![def(1, "summary\nand a lot more\nand more")]), "w: summary");
    assert_eq!(term("w", &vec![def(1, "summary\r\nmore")]), "w: summary");
    assert_eq!(term("w", &vec![def(1, "\nonly later")]), "w: ");
    assert_eq!(term("w", &vec![def(1, "no line feed\r")]), "w: no line feed\r");
}

#[test]
fn definition_that_fits_is_kept_whole() {
    let line = "x".repeat(MAX_LEN - 3);
    assert_eq!(entry("w", &line), format!("w: {}", line));
    assert_eq!(entry("w", &line).chars().count(), MAX_LEN);
    let spaced = format!("{} {}", "x".repeat(200), "y".repeat(MAX_LEN - 3 - 201));
    assert_eq!(entry("w", &spaced), format!("w: {}", spaced));
}

#[test]
fn long_definition_is_cut_at_the_last_space_that_fits() {
    let line = format!("{} {} {}", "x".repeat(300), "y".repeat(89), "z".repeat(20));
    // 412 characters: the space at 390 is the last within the room of 397
    assert_eq!(entry("w", &line), format!("w: {} {} ...", "x".repeat(300), "y".repeat(89)));

    // a space right at the end of the room still counts
    let line = format!("{} {}", "x".repeat(397), "y".repeat(10));
    let cut = entry("w", &line);
    assert_eq!(cut, format!("w: {} ...", "x".repeat(397)));
    assert_eq!(cut.chars().count(), MAX_LEN + 4);

    // one character more and the word no longer fits
    let line = format!("ab {} {}", "x".repeat(395), "y".repeat(10));
    assert_eq!(entry("w", &line), "w: ab ...");
}

#[test]
fn cut_never_splits_a_word() {
    assert_eq!(entry("w", &"x".repeat(398)), "w:  ...");
    assert_eq!(entry("w", &"x".repeat(5000)), "w:  ...");
    let line = format!(" {}", "x".repeat(400));
    assert_eq!(entry("w", &line), "w:  ...");
    let line = format!("{} tail", "x".repeat(398));
    assert_eq!(entry("w", &line), "w:  ...");
}

#[test]
fn budget_counts_characters() {
    let line = format!("{} {}", "ä".repeat(300), "ö".repeat(100));
    assert_eq!(entry("ü", &line), format!("ü: {} ...", "ä".repeat(300)));
    let line = "ä".repeat(MAX_LEN - 3);
    assert_eq!(entry("ü", &line), format!("ü: {}", line));
}

#[test]
fn long_word_leaves_no_room() {
    let word = "w".repeat(MAX_LEN - 2);
    assert_eq!(entry(&word, ""), format!("{}: ", word));
    assert_eq!(entry(&word, "a b"), format!("{}:  ...", word));
    let word = "w".repeat(MAX_LEN + 50);
    assert_eq!(entry(&word, ""), format!("{}:  ...", word));
    assert_eq!(entry(&word, "a b"), format!("{}:  ...", word));
    let word = "w".repeat(MAX_LEN - 4);
    assert_eq!(entry(&word, "ab"), format!("{}: ab", word));
    assert_eq!(entry(&word, "a b c"), format!("{}: a ...", word));
}

#[test]
fn roll_falls_to_candidates_by_their_votes() {
    let defs = vec![def(3, "a"), def(0, "b"), def(2, "c")];
    assert_eq!(total_votes(&defs), 5);
    assert_eq!(pick(&defs, 0), 0);
    assert_eq!(pick(&defs, 1), 0);
    assert_eq!(pick(&defs, 2), 0);
    assert_eq!(pick(&defs, 3), 2);
    assert_eq!(pick(&defs, 4), 2);
    assert_eq!(lookup_reply("w", &defs, 2), "w: a");
    assert_eq!(lookup_reply("w", &defs, 3), "w: c");

    let defs = vec![def(0, "a"), def(1, "b"), def(0, "c"), def(0, "d"), def(1, "e")];
    assert_eq!(pick(&defs, 0), 1);
    assert_eq!(pick(&defs, 1), 4);
}

#[test]
fn roll_picks_evenly_when_nobody_voted() {
    let defs = vec![def(0, "a"), def(0, "b"), def(0, "c")];
    assert_eq!(total_votes(&defs), 0);
    assert_eq!(pick(&defs, 0), 0);
    assert_eq!(pick(&defs, 1), 1);
    assert_eq!(pick(&defs, 2), 2);
    assert_eq!(lookup_reply("w", &defs, 1), "w: b");
}

#[test]
fn votes_add_up_beyond_64_bits() {
    let defs = vec![def(u64::MAX, "a"), def(u64::MAX, "b"), def(1, "c")];
    assert_eq!(total_votes(&defs), 2 * (u64::MAX as u128) + 1);
    assert_eq!(pick(&defs, u64::MAX as u128 - 1), 0);
    assert_eq!(pick(&defs, u64::MAX as u128), 1);
    assert_eq!(pick(&defs, 2 * (u64::MAX as u128) - 1), 1);
    assert_eq!(pick(&defs, 2 * (u64::MAX as u128)), 2);
}

#[test]
fn term_draws_among_several_candidates() {
    let defs = vec![def(5, "first"), def(0, "never"), def(5, "third\nmore")];
    let mut seen_first = false;
    let mut seen_third = false;
    for _ in 0..400 {
        let text = term("w", &defs);
        match text.as_str() {
            "w: first" => seen_first = true,
            "w: third" => seen_third = true,
            other => panic!("unexpected {:?}", other),
        }
    }
    assert!(seen_first && seen_third);
}

#[test]
fn term_draws_among_candidates_without_votes() {
    let defs = vec![def(0, "a"), def(0, "b")];
    let mut seen = [false, false];
    for _ in 0..400 {
        match term("w", &defs).as_str() {
            "w: a" => seen[0] = true,
            "w: b" => seen[1] = true,
            other => panic!("unexpected {:?}", other),
        }
    }
    assert_eq!(seen, [true, true]);
}

#[test]
fn failure_is_told_in_words() {
    assert_eq!(failure("timed out"), "something went wrong: timed out");
    assert_eq!(failure(""), "something went wrong: ");
}

#[test]
fn lookup_url_carries_the_word_as_a_query() {
    assert_eq!(
        lookup_url("xyzzy").unwrap(),
        "https://api.urbandictionary.com/v0/define?term=xyzzy"
    );
    assert_eq!(
        lookup_url("hello world & more").unwrap(),
        "https://api.urbandictionary.com/v0/define?term=hello+world+%26+more"
    );
    assert_eq!(
        lookup_url("").unwrap(),
        "https://api.urbandictionary.com/v0/define?term="
    );
}
