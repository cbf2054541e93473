use aria::text::{clean_text, compose_utterance, focus_text};

fn clean(s: &str) -> String {
    clean_text(s)
}

#[test]
fn whitespace_runs_collapse_to_one_space() {
    assert_eq!(clean("  hello \t\n world  "), " hello world ");
}

#[test]
fn noisy_hex_run_becomes_hash_token() {
    assert_eq!(clean("commit 3f2a9b1c7d8e done"), "commit hash 3f2a9b done");
}

#[test]
fn hex_run_without_mixed_tail_is_kept() {
    assert_eq!(clean("abcdef1234"), "abcdef1234");
    assert_eq!(clean("111111a"), "111111a");
    assert_eq!(clean("deadbeef"), "deadbeef");
}

#[test]
fn hash_run_inside_word_is_masked_from_its_start() {
    assert_eq!(clean("id:0a1b2c3d4e5f"), "id:hash 0a1b2c");
}

#[test]
fn upper_case_hex_is_not_masked() {
    assert_eq!(clean("3F2A9B1C7D8E"), "3F2A9B1C7D8E");
}

#[test]
fn empty_text_stays_empty() {
    assert_eq!(clean(""), "");
}

#[test]
fn cleaning_twice_changes_nothing() {
    let samples = [
        "",
        "  a  b  ",
        "x 3f2a9b1c7d8e y",
        "hash 3f2a9b",
        "zz0a1b2c3d4e5f6a7b\u{00A0}\u{00A0}tail",
        "\t\t",
        "abc123abc123abc123 abc",
    ];
    for s in samples.iter() {
        let once = clean(s);
        let twice = clean(&once);
        assert_eq!(once, twice);
    }
}

#[test]
fn composite_joins_non_empty_parts() {
    let r: String = compose_utterance("Search", "", "Edit").into_iter().collect();
    assert_eq!(r, "Search, Edit");
    let r: String = compose_utterance("  OK ", " Press to confirm ", "Button").into_iter().collect();
    assert_eq!(r, "OK, Press to confirm, Button");
    let r: String = compose_utterance("", "", "").into_iter().collect();
    assert_eq!(r, "");
    let r: String = compose_utterance("", "  ", "Pane").into_iter().collect();
    assert_eq!(r, "Pane");
}

#[test]
fn focus_text_is_cleaned() {
    assert_eq!(focus_text("Build  3f2a9b1c7d8e", "", "Text"), "Build hash 3f2a9b, Text");
}

#[test]
fn unicode_whitespace_collapses_too() {
    assert_eq!(clean("a\u{00A0}\u{2003}b\u{3000}c"), "a b c");
}
