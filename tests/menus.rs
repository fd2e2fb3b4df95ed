use snake::difficulty::Difficulty;
use snake::game::{Action, Game, GameState, Key, MenuState, StepEvent};
use snake::grid::Position;
use snake::scores::ScoreEntry;

fn crash(g: &mut Game) {
    assert!(g.place_food(Position { x: 0, y: 0 }));
    while g.step() != StepEvent::Crashed {}
    assert_eq!(g.state, GameState::GameOver);
}

#[test]
fn main_menu_selection_wraps_both_ways() {
    let mut g = Game::new(Vec::new());
    assert_eq!(g.menu_selection, 0);
    g.key_down_event(Key::Up);
    assert_eq!(g.menu_selection, 3);
    g.key_down_event(Key::Down);
    assert_eq!(g.menu_selection, 0);
    g.key_down_event(Key::Down);
    g.key_down_event(Key::Down);
    assert_eq!(g.menu_selection, 2);
}

#[test]
fn exit_entry_asks_the_host_to_leave() {
    let mut g = Game::new(Vec::new());
    g.key_down_event(Key::Up);
    assert_eq!(g.key_down_event(Key::Return), Action::Exit);
    assert_eq!(g.state, GameState::Menu);
}

#[test]
fn difficulty_menu_changes_level_and_speed() {
    let mut g = Game::new(Vec::new());
    g.key_down_event(Key::Down);
    g.key_down_event(Key::Return);
    assert_eq!(g.menu_state, MenuState::Difficulty);
    g.key_down_event(Key::Up);
    assert_eq!(g.difficulty, Difficulty::Easy);
    assert_eq!(g.initial_cooldown, 200_000);
    g.key_down_event(Key::Up);
    assert_eq!(g.difficulty, Difficulty::Expert);
    assert_eq!(g.initial_cooldown, 70_000);
    g.key_down_event(Key::Escape);
    assert_eq!(g.menu_state, MenuState::Main);
}

#[test]
fn high_score_view_returns_on_escape() {
    let mut g = Game::new(Vec::new());
    g.key_down_event(Key::Down);
    g.key_down_event(Key::Down);
    g.key_down_event(Key::Return);
    assert_eq!(g.menu_state, MenuState::HighScores);
    g.key_down_event(Key::Return);
    assert_eq!(g.menu_state, MenuState::HighScores);
    g.key_down_event(Key::Escape);
    assert_eq!(g.menu_state, MenuState::Main);
}

#[test]
fn pause_resume_and_leave_to_menu() {
    let mut g = Game::new(Vec::new());
    g.key_down_event(Key::Return);
    g.key_down_event(Key::Escape);
    assert_eq!(g.state, GameState::Paused);
    g.key_down_event(Key::Escape);
    assert_eq!(g.state, GameState::Playing);
    g.key_down_event(Key::Escape);
    g.key_down_event(Key::M);
    assert_eq!(g.state, GameState::Menu);
}

#[test]
fn game_over_r_restarts_and_return_opens_the_prompt() {
    let mut g = Game::new(Vec::new());
    g.key_down_event(Key::Return);
    crash(&mut g);
    assert_eq!(g.key_down_event(Key::R), Action::Nothing);
    assert_eq!(g.state, GameState::Playing);
    assert_eq!(g.score, 0);
    assert_eq!(g.snake.body, vec![
        Position { x: 15, y: 15 },
        Position { x: 14, y: 15 },
        Position { x: 13, y: 15 },
    ]);
    assert!(g.high_scores.is_empty());
    crash(&mut g);
    assert_eq!(g.key_down_event(Key::Return), Action::Nothing);
    assert_eq!(g.state, GameState::Menu);
    assert_eq!(g.menu_state, MenuState::EnteringName);
    assert!(g.name_input_active);
}

#[test]
fn name_entry_records_the_score() {
    let mut g = Game::new(Vec::new());
    g.key_down_event(Key::Return);
    g.score = 45;
    crash(&mut g);
    g.key_down_event(Key::Return);
    assert_eq!(g.state, GameState::Menu);
    assert_eq!(g.menu_state, MenuState::EnteringName);
    assert_eq!(g.key_down_event(Key::Return), Action::Nothing);
    assert_eq!(g.menu_state, MenuState::EnteringName);
    for c in "Zoe".chars() {
        g.text_input_event(c);
    }
    assert_eq!(g.player_name, "Zoe");
    assert_eq!(g.key_down_event(Key::Return), Action::SaveHighScores);
    assert_eq!(g.menu_state, MenuState::HighScores);
    assert!(!g.name_input_active);
    assert_eq!(g.high_scores.len(), 1);
    assert_eq!(g.high_scores[0].player_name, "Zoe");
    assert_eq!(g.high_scores[0].score, 45);
    assert_eq!(g.high_scores[0].difficulty, Difficulty::Medium);
}

#[test]
fn escape_leaves_the_name_prompt() {
    let mut g = Game::new(Vec::new());
    g.key_down_event(Key::Return);
    crash(&mut g);
    g.key_down_event(Key::Return);
    g.key_down_event(Key::Escape);
    assert_eq!(g.menu_state, MenuState::Main);
    assert!(!g.name_input_active);
    g.text_input_event('a');
    assert_eq!(g.player_name, "");
}

#[test]
fn name_takes_alphanumerics_up_to_eight() {
    let mut g = Game::new(Vec::new());
    g.name_input_active = true;
    for c in "ab !c-D9é".chars() {
        g.text_input_event(c);
    }
    assert_eq!(g.player_name, "abcD9é");
    for c in "xyzw".chars() {
        g.text_input_event(c);
    }
    assert_eq!(g.player_name, "abcD9éxy");
    assert_eq!(g.player_name.chars().count(), 8);
}

#[test]
fn typing_is_ignored_without_the_prompt() {
    let mut g = Game::new(Vec::new());
    g.text_input_event('a');
    assert_eq!(g.player_name, "");
}

#[test]
fn enter_char_follows_the_given_test() {
    let mut g = Game::new(Vec::new());
    g.name_input_active = true;
    g.enter_char('!', true);
    g.enter_char('a', false);
    assert_eq!(g.player_name, "!");
}

#[test]
fn backspace_removes_the_last_character() {
    let mut g = Game::new(Vec::new());
    g.name_input_active = true;
    g.menu_state = MenuState::EnteringName;
    g.text_input_event('a');
    g.text_input_event('b');
    g.key_down_event(Key::Back);
    assert_eq!(g.player_name, "a");
    g.key_down_event(Key::Back);
    g.key_down_event(Key::Back);
    assert_eq!(g.player_name, "");
}

#[test]
fn known_player_restarts_with_r_and_saves_with_return() {
    let mut g = Game::new(Vec::new());
    g.player_name = "Kim".to_string();
    g.key_down_event(Key::Return);
    g.score = 30;
    crash(&mut g);
    g.high_score = 30;
    assert_eq!(g.key_down_event(Key::R), Action::Nothing);
    assert_eq!(g.state, GameState::Playing);
    assert_eq!(g.score, 0);
    assert_eq!(g.snake.head(), Position { x: 15, y: 15 });
    assert_eq!(g.direction, snake::grid::Direction::Right);
    assert_eq!(g.high_score, 30);
    assert!(g.high_scores.is_empty());
    g.score = 60;
    crash(&mut g);
    assert_eq!(g.key_down_event(Key::Return), Action::SaveHighScores);
    assert_eq!(g.state, GameState::Menu);
    assert_eq!(g.menu_state, MenuState::HighScores);
    assert_eq!(g.high_scores.len(), 1);
    assert_eq!(g.high_scores[0].score, 60);
    assert_eq!(g.high_scores[0].player_name, "Kim");
}

#[test]
fn add_high_score_at_stamps_the_entry() {
    let mut g = Game::new(Vec::new());
    g.player_name = "Lu".to_string();
    g.difficulty = Difficulty::Hard;
    assert_eq!(g.add_high_score_at(70, 1_700_000_000), Action::SaveHighScores);
    assert_eq!(
        g.high_scores,
        vec![ScoreEntry {
            player_name: "Lu".to_string(),
            score: 70,
            difficulty: Difficulty::Hard,
            timestamp: 1_700_000_000,
        }]
    );
}

#[test]
fn new_session_orders_stored_scores() {
    let stored = vec![
        ScoreEntry { player_name: "a".to_string(), score: 1, difficulty: Difficulty::Easy, timestamp: 0 },
        ScoreEntry { player_name: "b".to_string(), score: 9, difficulty: Difficulty::Easy, timestamp: 0 },
    ];
    let g = Game::new(stored);
    assert_eq!(g.high_scores[0].player_name, "b");
    assert_eq!(g.high_scores[1].player_name, "a");
    assert_eq!(g.state, GameState::Menu);
    assert_eq!(g.difficulty, Difficulty::Medium);
}

#[test]
fn new_session_has_no_snake_until_play() {
    let mut g = Game::new(Vec::new());
    assert!(g.snake.body.is_empty());
    assert_eq!(g.snake.len(), 0);
    assert_eq!(g.food, Position { x: 0, y: 0 });
    assert_eq!(g.score, 0);
    assert_eq!(g.high_score, 0);
    assert_eq!(g.movement_cooldown, 150_000);
    assert_eq!(g.initial_cooldown, 150_000);
    assert_eq!(g.menu_state, MenuState::Main);
    assert_eq!(g.key_down_event(Key::Return), Action::Nothing);
    assert_eq!(g.state, GameState::Playing);
    assert_eq!(g.snake.len(), 3);
    assert!(!g.snake.occupies(g.food));
}
