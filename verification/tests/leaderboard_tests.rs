use code_invaders::high_scores::{HighScoreEntry, HighScores};

fn table_with(scores: &[i32]) -> HighScores {
    let mut hs = HighScores::new();
    for (i, s) in scores.iter().enumerate() {
        hs.add_score(format!("p{}", i), *s);
    }
    hs
}

#[test]
fn empty_table_qualifies_any_score() {
    let hs = HighScores::new();
    assert!(hs.qualifies(0));
    assert!(hs.qualifies(-100));
}

#[test]
fn eleven_distinct_scores_keep_top_ten_strictly_descending() {
    let hs = table_with(&[3, 7, 1, 9, 11, 5, 2, 8, 10, 4, 6]);
    assert_eq!(hs.entries.len(), 10);
    let kept: Vec<i32> = hs.entries.iter().map(|e| e.score).collect();
    assert_eq!(kept, vec![11, 10, 9, 8, 7, 6, 5, 4, 3, 2]);
    for w in kept.windows(2) {
        assert!(w[0] > w[1]);
    }
}

#[test]
fn equal_to_tenth_score_does_not_qualify_once_full() {
    let hs = table_with(&[3, 7, 1, 9, 11, 5, 2, 8, 10, 4, 6]);
    // lowest kept score is 2
    assert!(!hs.qualifies(2));
    assert!(hs.qualifies(3));
}

#[test]
fn equal_scores_keep_insertion_order() {
    let mut hs = HighScores::new();
    hs.add_score("first".to_string(), 5);
    hs.add_score("second".to_string(), 5);
    hs.add_score("third".to_string(), 9);
    assert_eq!(hs.entries[0].name, "third");
    assert_eq!(hs.entries[1].name, "first");
    assert_eq!(hs.entries[2].name, "second");
}

#[test]
fn names_are_trimmed_and_stripped() {
    let mut hs = HighScores::new();
    hs.add_score("  Bob!@# the 3rd  ".to_string(), 1);
    assert_eq!(hs.entries[0].name, "Bob the 3rd");
}

#[test]
fn display_formats_rank_name_and_score() {
    let mut hs = HighScores::new();
    hs.add_score("Bob".to_string(), 10);
    hs.add_score("Ann".to_string(), -3);
    let lines = hs.display();
    assert_eq!(lines, vec!["1: Bob - 10".to_string(), "2: Ann - -3".to_string()]);
}

#[test]
fn from_entries_restores_a_stored_table() {
    let stored = vec![
        HighScoreEntry { name: "a".to_string(), score: 9 },
        HighScoreEntry { name: "b".to_string(), score: 4 },
        HighScoreEntry { name: "c".to_string(), score: 1 },
    ];
    let hs = HighScores::from_entries(stored);
    let kept: Vec<i32> = hs.entries.iter().map(|e| e.score).collect();
    assert_eq!(kept, vec![9, 4, 1]);
    assert_eq!(hs.entries[0].name, "a");
}

#[test]
fn from_entries_normalizes_disorder_and_overflow() {
    let mut stored = Vec::new();
    for s in [1, 12, 3, 8, 5, 2, 11, 7, 9, 4, 6, 10] {
        stored.push(HighScoreEntry { name: format!("n{}", s), score: s });
    }
    let hs = HighScores::from_entries(stored);
    assert_eq!(hs.entries.len(), 10);
    let kept: Vec<i32> = hs.entries.iter().map(|e| e.score).collect();
    assert_eq!(kept, vec![12, 11, 10, 9, 8, 7, 6, 5, 4, 3]);
}
