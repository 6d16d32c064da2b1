use beacon::ui::fuzzy::{rank_scores, score_all, Searcher};

#[test]
fn a_pattern_matches_out_of_order_gaps() {
    let mut searcher = Searcher::new();
    assert!(searcher.score("cfgmap", "ConfigMap").is_some());
    assert!(searcher.score("zzzz", "ConfigMap").is_none());
    assert!(searcher.score("dep", "Deployment") > searcher.score("dep", "DaemonSet private"));
}

/// The same pattern on the same text gives the same score, however the matcher
/// was used before.
#[test]
fn scores_do_not_depend_on_what_was_matched_before() {
    let mut used = Searcher::new();
    for text in ["Pod", "a long text with many characters", "κόσμος"] {
        used.score("po", text);
    }
    assert_eq!(used.score("po", "Pod"), Searcher::new().score("po", "Pod"));
}

#[test]
fn scores_are_ranked_best_first() {
    let labels: Vec<String> = ["bb", "a", "cccc"].map(String::from).to_vec();
    assert_eq!(rank_scores(&labels, &vec![Some(1), Some(9), None]), [1, 0]);
    let mut searcher = Searcher::new();
    let scores = score_all("a", &labels, &mut searcher);
    assert_eq!(scores.len(), 3);
    assert!(scores[1].is_some() && scores[0].is_none());
}

/// The matcher sums a word's score in sixteen bits, so words are bounded.
#[test]
fn an_overlong_pattern_matches_nothing() {
    let mut searcher = Searcher::new();
    let word = "a".repeat(2046);
    assert_eq!(searcher.score(&format!("^{word}$"), &word), Some(36 + 26 * 2045));
    let word = "a".repeat(2521);
    assert_eq!(searcher.score(&word, &word), None);
    // A backslash may count twice.
    let slashes = format!("\u{e9}{}", "\\".repeat(1023));
    assert!(searcher.score(&slashes, &slashes.repeat(2)).is_some());
    assert_eq!(searcher.score(&"\\".repeat(1025), &"\\".repeat(4000)), None);
}

/// Spaces part words and are none, however many they are.
#[test]
fn spaces_alone_match_everything() {
    let mut searcher = Searcher::new();
    assert_eq!(searcher.score(&" ".repeat(70_000), "anything"), Some(0));
    let apart = format!("a{}b", " ".repeat(70_000));
    assert_eq!(searcher.score(&apart, "ab"), searcher.score("a b", "ab"));
}

/// Only a single word is bounded: several may be longer together.
#[test]
fn several_words_may_be_long_together() {
    let mut searcher = Searcher::new();
    let (a, b) = ("a".repeat(1500), "b".repeat(1500));
    let text = format!("{a}{b}");
    let both = searcher.score(&format!("{a} {b}"), &text).expect("it matches");
    let one = searcher.score(&a, &text).expect("it matches");
    let other = searcher.score(&b, &text).expect("it matches");
    assert_eq!(both, one + other);
}
