use snake::difficulty::Difficulty;
use snake::scores::{insert_high_score, rank_scores, ScoreEntry};

fn entry(name: &str, score: u32, difficulty: Difficulty, timestamp: i64) -> ScoreEntry {
    ScoreEntry { player_name: name.to_string(), score, difficulty, timestamp }
}

fn scores_of(table: &[ScoreEntry], difficulty: Difficulty) -> Vec<u32> {
    table.iter().filter(|e| e.difficulty == difficulty).map(|e| e.score).collect()
}

#[test]
fn sixth_low_easy_score_leaves_table_unchanged() {
    let table = rank_scores(vec![
        entry("ann", 90, Difficulty::Easy, 1),
        entry("bob", 80, Difficulty::Easy, 2),
        entry("cy", 70, Difficulty::Easy, 3),
        entry("dee", 60, Difficulty::Easy, 4),
        entry("eve", 50, Difficulty::Easy, 5),
    ]);
    let before = table.clone();
    let after = insert_high_score(table, entry("fay", 10, Difficulty::Easy, 6));
    assert_eq!(after, before);
}

#[test]
fn sixth_high_easy_score_pushes_out_the_lowest() {
    let table = rank_scores(vec![
        entry("ann", 90, Difficulty::Easy, 1),
        entry("bob", 80, Difficulty::Easy, 2),
        entry("cy", 70, Difficulty::Easy, 3),
        entry("dee", 60, Difficulty::Easy, 4),
        entry("eve", 50, Difficulty::Easy, 5),
    ]);
    let after = insert_high_score(table, entry("fay", 75, Difficulty::Easy, 6));
    let names: Vec<&str> = after.iter().map(|e| e.player_name.as_str()).collect();
    assert_eq!(names, vec!["ann", "bob", "fay", "cy", "dee"]);
}

#[test]
fn table_is_grouped_by_difficulty_and_sorted() {
    let table = rank_scores(vec![
        entry("a", 5, Difficulty::Hard, 1),
        entry("b", 40, Difficulty::Easy, 2),
        entry("c", 7, Difficulty::Expert, 3),
        entry("d", 60, Difficulty::Hard, 4),
        entry("e", 10, Difficulty::Easy, 5),
        entry("f", 30, Difficulty::Medium, 6),
    ]);
    let order: Vec<(&str, u32)> = table.iter().map(|e| (e.player_name.as_str(), e.score)).collect();
    assert_eq!(order, vec![("b", 40), ("e", 10), ("f", 30), ("d", 60), ("a", 5), ("c", 7)]);
}

#[test]
fn equal_scores_keep_their_order() {
    let table = rank_scores(vec![
        entry("first", 20, Difficulty::Medium, 1),
        entry("second", 20, Difficulty::Medium, 2),
    ]);
    let table = insert_high_score(table, entry("third", 20, Difficulty::Medium, 3));
    let names: Vec<&str> = table.iter().map(|e| e.player_name.as_str()).collect();
    assert_eq!(names, vec!["first", "second", "third"]);
}

#[test]
fn at_most_five_per_difficulty_sorted_descending() {
    let mut table = Vec::new();
    let levels = [Difficulty::Easy, Difficulty::Medium, Difficulty::Hard, Difficulty::Expert];
    for i in 0..40u32 {
        let level = levels[(i * 7 % 4) as usize];
        table = insert_high_score(table, entry("p", (i * 37) % 101, level, i as i64));
        for level in levels {
            let scores = scores_of(&table, level);
            assert!(scores.len() <= 5);
            assert!(scores.windows(2).all(|w| w[0] >= w[1]));
        }
    }
    assert_eq!(table.len(), 20);
}

#[test]
fn ranking_an_empty_list_gives_an_empty_table() {
    assert!(rank_scores(Vec::new()).is_empty());
}

#[test]
fn ranking_trims_an_oversized_stored_list() {
    let stored: Vec<ScoreEntry> =
        (0..8u32).map(|i| entry("x", i * 10, Difficulty::Expert, i as i64)).collect();
    let table = rank_scores(stored);
    assert_eq!(scores_of(&table, Difficulty::Expert), vec![70, 60, 50, 40, 30]);
}
