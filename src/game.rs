use vstd::prelude::*;
use vstd::string::StrSliceExecFns;
use rand::Rng;
use crate::difficulty::{
    at_least_floor, cooldown_after, food_points, level_after, level_before, next_cooldown, start_interval,
    Difficulty, SpeedPolicy, MAX_FOOD_POINTS, MIN_COOLDOWN_US,
};
use crate::grid::{
    board_full, in_bounds, in_grid, lemma_distinct_cells_fit, neighbour, next_cell, reverse,
    Direction, Position, GRID_SIZE,
};
use crate::scores::{insert_high_score, pruned, rank_scores, table_ok, ScoreEntry};
use crate::snake::{start_cells, Snake};
use crate::text::{alphanumeric, is_alphanumeric_char, pop_char, push_char};

verus! {

/// Entries of the main menu: play, difficulty, high scores, exit.
pub const MENU_ITEMS: usize = 4;

/// Longest player name, in characters.
pub const MAX_NAME_CHARS: usize = 8;

/// Random cells tried for the food before the field is scanned for a free one.
pub const RANDOM_FOOD_DRAWS: usize = 64;

/// The top-level mode of the game.
#[derive(Clone, Copy, Debug, PartialEq, Eq, Structural)]
pub enum GameState {
    Menu,
    Playing,
    Paused,
    GameOver,
}

/// The screen shown while the game is in its menu.
#[derive(Clone, Copy, Debug, PartialEq, Eq, Structural)]
pub enum MenuState {
    Main,
    Difficulty,
    HighScores,
    EnteringName,
}

/// The keys the game reacts to.
#[derive(Clone, Copy, Debug, PartialEq, Eq, Structural)]
pub enum Key {
    Up,
    Down,
    Left,
    Right,
    Return,
    Escape,
    Back,
    R,
    M,
    Other,
}

/// What the host has to do after a key press.
#[derive(Clone, Copy, Debug, PartialEq, Eq, Structural)]
pub enum Action {
    Nothing,
    /// The high-score table changed and should be stored.
    SaveHighScores,
    /// The player chose to leave the game.
    Exit,
}

/// What one call of the step engine did, for sound and effects.
#[derive(Clone, Copy, Debug, PartialEq, Eq, Structural)]
pub enum StepEvent {
    /// No step was due.
    Idle,
    /// The snake moved one cell.
    Moved,
    /// The snake ate the food at this cell and new food was placed.
    Ate(Position),
    /// The snake ran into a wall or itself; the game is over.
    Crashed,
    /// The snake ate the food at this cell and now covers the whole field;
    /// the game is over.
    Filled(Position),
}

/// The whole state of one game session.
#[derive(Debug)]
pub struct Game {
    pub state: GameState,
    pub snake: Snake,
    /// The heading of the last step.
    pub direction: Direction,
    /// The heading asked for by the last direction key, taken at the next step.
    pub next_direction: Direction,
    pub food: Position,
    /// Microseconds between steps.
    pub movement_cooldown: u64,
    /// Microseconds between steps at the start of a game.
    pub initial_cooldown: u64,
    /// Time of the last step, in microseconds.
    pub last_update: u64,
    pub score: u32,
    pub difficulty: Difficulty,
    /// The best score of this session.
    pub high_score: u32,
    pub speed_policy: SpeedPolicy,
    pub menu_selection: usize,
    pub menu_state: MenuState,
    pub high_scores: Vec<ScoreEntry>,
    pub player_name: String,
    pub name_input_active: bool,
}

pub open spec fn larger(a: u32, b: u32) -> u32 {
    if a >= b {
        a
    } else {
        b
    }
}

/// Relies on rand's `thread_rng().gen_range(0..n)`, which returns a value in
/// the half-open range and panics only on an empty one.
#[verifier::external_body]
fn random_below(n: i16) -> (r: i16)
    requires
        n > 0,
    ensures
        0 <= r < n,
{
    rand::thread_rng().gen_range(0..n)
}

/// Relies on chrono's `Utc::now().timestamp()`: the time now, in seconds
/// since the Unix epoch. It panics only when the system clock reads a time
/// before the epoch.
#[verifier::external_body]
fn now_timestamp() -> (r: i64) {
    chrono::Utc::now().timestamp()
}

/// A cell drawn at random.
fn random_cell() -> (r: Position)
    ensures
        in_grid(r),
{
    let x = random_below(GRID_SIZE);
    let y = random_below(GRID_SIZE);
    Position { x, y }
}

impl Game {
    /// What holds of the snake, the food and the score once a round has been
    /// set up.
    pub open spec fn round_ok(&self) -> bool {
        &&& self.snake.wf()
        &&& in_grid(self.food)
        &&& !self.snake@.contains(self.food) || board_full(self.snake@)
        &&& self.score <= MAX_FOOD_POINTS * self.snake@.len()
    }

    /// The invariant of a session. Outside the menu a round exists; in the
    /// menu the snake may be empty (before the first round) or left from an
    /// abandoned round.
    pub open spec fn wf(&self) -> bool {
        &&& self.state != GameState::Menu ==> self.round_ok()
        &&& self.state == GameState::Playing || self.state == GameState::Paused ==> !self.snake@.contains(
            self.food,
        )
        &&& self.movement_cooldown >= MIN_COOLDOWN_US
        &&& self.initial_cooldown >= MIN_COOLDOWN_US
        &&& table_ok(self.high_scores@)
        &&& self.player_name@.len() <= MAX_NAME_CHARS
        &&& self.menu_selection < MENU_ITEMS
    }

    /// The heading the next step takes: the one asked for, unless it points
    /// straight back.
    pub open spec fn latched(&self) -> Direction {
        if self.next_direction == reverse(self.direction) {
            self.direction
        } else {
            self.next_direction
        }
    }

    /// The cell the head moves to at the next step.
    pub open spec fn target(&self) -> Position {
        next_cell(self.snake@[0], self.latched())
    }

    /// Whether a step is due at time `now`.
    pub open spec fn step_due(&self, now: u64) -> bool {
        &&& self.state == GameState::Playing
        &&& now >= self.last_update
        &&& now - self.last_update >= self.movement_cooldown
    }

    /// One step of the game from `self` gives `next` and reports `ev`.
    pub open spec fn stepped(self, next: Game, ev: StepEvent) -> bool {
        let t = self.target();
        let grown = seq![t] + self.snake@;
        let points = self.score + food_points(self.difficulty);
        if !in_grid(t) || self.snake@.contains(t) {
            &&& ev == StepEvent::Crashed
            &&& next == Game {
                state: GameState::GameOver,
                direction: self.latched(),
                high_score: larger(self.high_score, self.score),
                ..self
            }
        } else if t != self.food {
            &&& ev == StepEvent::Moved
            &&& next.snake@ == seq![t] + self.snake@.drop_last()
            &&& next == Game { snake: next.snake, direction: self.latched(), ..self }
        } else {
            &&& next.snake@ == grown
            &&& next.score == points
            &&& next.movement_cooldown == cooldown_after(
                self.speed_policy,
                self.initial_cooldown,
                self.movement_cooldown,
                points,
            )
            &&& if board_full(grown) {
                &&& ev == StepEvent::Filled(t)
                &&& next == Game {
                    state: GameState::GameOver,
                    snake: next.snake,
                    direction: self.latched(),
                    score: next.score,
                    movement_cooldown: next.movement_cooldown,
                    high_score: larger(self.high_score, next.score),
                    ..self
                }
            } else {
                &&& ev == StepEvent::Ate(t)
                &&& in_grid(next.food)
                &&& !grown.contains(next.food)
                &&& next == Game {
                    snake: next.snake,
                    food: next.food,
                    direction: self.latched(),
                    score: next.score,
                    movement_cooldown: next.movement_cooldown,
                    ..self
                }
            }
        }
    }

    /// `next` is `self` with a new round set up: the starting snake heading
    /// right, food on a free cell, no score, the starting speed.
    pub open spec fn restarted(self, next: Game) -> bool {
        &&& next.snake@ == start_cells()
        &&& in_grid(next.food)
        &&& !start_cells().contains(next.food)
        &&& next == Game {
            snake: next.snake,
            food: next.food,
            direction: Direction::Right,
            next_direction: Direction::Right,
            score: 0,
            movement_cooldown: self.initial_cooldown,
            ..self
        }
    }

    /// The high-score line for `score` by the current player, made at `timestamp`.
    pub open spec fn entry_for(self, score: u32, timestamp: i64) -> ScoreEntry {
        ScoreEntry {
            player_name: self.player_name,
            score,
            difficulty: self.difficulty,
            timestamp,
        }
    }

    /// `next` holds `self`'s high-score table with an entry for `score` added,
    /// made at some time.
    pub open spec fn recorded(self, next: Game, score: u32) -> bool {
        exists|t: i64|
            next.high_scores@ == pruned(#[trigger] self.high_scores@.push(self.entry_for(score, t)))
    }

    /// `next` is `self` after typing `c`, with `alnum` telling whether `c` is
    /// alphanumeric: while a name is being entered, an alphanumeric character
    /// is added to it if it is shorter than `MAX_NAME_CHARS`.
    pub open spec fn typed(self, next: Game, c: char, alnum: bool) -> bool {
        if self.name_input_active && self.player_name@.len() < MAX_NAME_CHARS && alnum {
            &&& next.player_name@ == self.player_name@.push(c)
            &&& next == Game { player_name: next.player_name, ..self }
        } else {
            next == self
        }
    }

    /// `next` and `act` follow from `self` when `key` is pressed.
    pub open spec fn key_effect(self, next: Game, key: Key, act: Action) -> bool {
        let unchanged = act == Action::Nothing && next == self;
        match self.state {
            GameState::Menu => match self.menu_state {
                MenuState::Main => match key {
                    Key::Up => act == Action::Nothing && next == Game {
                        menu_selection: if self.menu_selection == 0 {
                            (MENU_ITEMS - 1) as usize
                        } else {
                            (self.menu_selection - 1) as usize
                        },
                        ..self
                    },
                    Key::Down => act == Action::Nothing && next == Game {
                        menu_selection: ((self.menu_selection + 1) % (MENU_ITEMS as int)) as usize,
                        ..self
                    },
                    Key::Return => if self.menu_selection == 0 {
                        act == Action::Nothing && (Game { state: GameState::Playing, ..self }).restarted(next)
                    } else if self.menu_selection == 1 {
                        act == Action::Nothing && next == Game { menu_state: MenuState::Difficulty, ..self }
                    } else if self.menu_selection == 2 {
                        act == Action::Nothing && next == Game { menu_state: MenuState::HighScores, ..self }
                    } else {
                        act == Action::Exit && next == self
                    },
                    _ => unchanged,
                },
                MenuState::Difficulty => match key {
                    Key::Up => act == Action::Nothing && next == Game {
                        difficulty: level_before(self.difficulty),
                        initial_cooldown: start_interval(level_before(self.difficulty)),
                        ..self
                    },
                    Key::Down => act == Action::Nothing && next == Game {
                        difficulty: level_after(self.difficulty),
                        initial_cooldown: start_interval(level_after(self.difficulty)),
                        ..self
                    },
                    Key::Escape => act == Action::Nothing && next == Game { menu_state: MenuState::Main, ..self },
                    _ => unchanged,
                },
                MenuState::HighScores => if key == Key::Escape {
                    act == Action::Nothing && next == Game { menu_state: MenuState::Main, ..self }
                } else {
                    unchanged
                },
                MenuState::EnteringName => match key {
                    Key::Return => if self.player_name@.len() > 0 {
                        &&& act == Action::SaveHighScores
                        &&& self.recorded(next, self.score)
                        &&& next == Game {
                            high_scores: next.high_scores,
                            menu_state: MenuState::HighScores,
                            name_input_active: false,
                            ..self
                        }
                    } else {
                        unchanged
                    },
                    Key::Back => {
                        &&& act == Action::Nothing
                        &&& next.player_name@ == if self.player_name@.len() > 0 {
                            self.player_name@.drop_last()
                        } else {
                            self.player_name@
                        }
                        &&& next == Game { player_name: next.player_name, ..self }
                    },
                    Key::Escape => act == Action::Nothing && next == Game {
                        menu_state: MenuState::Main,
                        name_input_active: false,
                        ..self
                    },
                    _ => unchanged,
                },
            },
            GameState::Playing => match key {
                Key::Up => act == Action::Nothing && next == Game { next_direction: Direction::Up, ..self },
                Key::Down => act == Action::Nothing && next == Game { next_direction: Direction::Down, ..self },
                Key::Left => act == Action::Nothing && next == Game { next_direction: Direction::Left, ..self },
                Key::Right => act == Action::Nothing && next == Game { next_direction: Direction::Right, ..self },
                Key::Escape => act == Action::Nothing && next == Game { state: GameState::Paused, ..self },
                _ => unchanged,
            },
            GameState::Paused => match key {
                Key::Escape => act == Action::Nothing && next == Game { state: GameState::Playing, ..self },
                Key::M => act == Action::Nothing && next == Game { state: GameState::Menu, ..self },
                _ => unchanged,
            },
            GameState::GameOver => match key {
                Key::R => act == Action::Nothing && (Game { state: GameState::Playing, ..self }).restarted(
                    next,
                ),
                Key::Return => if self.player_name@.len() == 0 {
                    act == Action::Nothing && next == Game {
                        state: GameState::Menu,
                        menu_state: MenuState::EnteringName,
                        name_input_active: true,
                        ..self
                    }
                } else {
                    &&& act == Action::SaveHighScores
                    &&& self.recorded(next, self.score)
                    &&& next == Game {
                        high_scores: next.high_scores,
                        state: GameState::Menu,
                        menu_state: MenuState::HighScores,
                        ..self
                    }
                },
                Key::M => act == Action::Nothing && next == Game { state: GameState::Menu, ..self },
                _ => unchanged,
            },
        }
    }

    /// `next` and `act` follow from `self` when `score` is offered to the
    /// high-score table: without a player name the name prompt opens;
    /// otherwise the table gains an entry and is to be stored.
    pub open spec fn added_score(self, next: Game, score: u32, act: Action) -> bool {
        if self.player_name@.len() == 0 {
            &&& act == Action::Nothing
            &&& next == Game { menu_state: MenuState::EnteringName, name_input_active: true, ..self }
        } else {
            &&& act == Action::SaveHighScores
            &&& self.recorded(next, score)
            &&& next == Game { high_scores: next.high_scores, ..self }
        }
    }

    /// A new session, showing the main menu, with `high_scores` (as stored by an
    /// earlier session) ordered into a table. There is no snake until a round
    /// is set up by `reset`.
    pub fn new(high_scores: Vec<ScoreEntry>) -> (g: Game)
        ensures
            g.wf(),
            g.state == GameState::Menu,
            g.menu_state == MenuState::Main,
            g.menu_selection == 0,
            g.snake@.len() == 0,
            g.food == (Position { x: 0, y: 0 }),
            g.direction == Direction::Right,
            g.next_direction == Direction::Right,
            g.difficulty == Difficulty::Medium,
            g.initial_cooldown == start_interval(Difficulty::Medium),
            g.movement_cooldown == g.initial_cooldown,
            g.last_update == 0,
            g.score == 0,
            g.high_score == 0,
            g.speed_policy == SpeedPolicy::Decay,
            g.high_scores@ == pruned(high_scores@),
            g.player_name@.len() == 0,
            !g.name_input_active,
    {
        let interval = Difficulty::Medium.get_info().step_interval_us;
        let g = Game {
            state: GameState::Menu,
            snake: Snake { body: Vec::new() },
            direction: Direction::Right,
            next_direction: Direction::Right,
            food: Position { x: 0, y: 0 },
            movement_cooldown: interval,
            initial_cooldown: interval,
            last_update: 0,
            score: 0,
            difficulty: Difficulty::Medium,
            high_score: 0,
            speed_policy: SpeedPolicy::Decay,
            menu_selection: 0,
            menu_state: MenuState::Main,
            high_scores: rank_scores(high_scores),
            player_name: String::new(),
            name_input_active: false,
        };
        g
    }

    /// Puts the food on `cell` if that cell is on the field and free of the snake.
    pub fn place_food(&mut self, cell: Position) -> (placed: bool)
        requires
            old(self).snake.wf(),
        ensures
            placed == (in_grid(cell) && !old(self).snake@.contains(cell)),
            placed ==> *final(self) == (Game { food: cell, ..*old(self) }),
            !placed ==> *final(self) == *old(self),
            old(self).wf() ==> final(self).wf(),
    {
        if in_bounds(cell) && !self.snake.occupies(cell) {
            self.food = cell;
            true
        } else {
            false
        }
    }

    /// Moves the food to a cell the snake leaves free: a random one, or after
    /// `RANDOM_FOOD_DRAWS` occupied draws the first free cell in row-major order.
    /// Returns false, changing nothing, when the snake covers the whole field.
    pub fn spawn_food(&mut self) -> (placed: bool)
        requires
            old(self).snake.wf(),
        ensures
            placed == !board_full(old(self).snake@),
            placed ==> in_grid(final(self).food) && !final(self).snake@.contains(final(self).food)
                && *final(self) == (Game { food: final(self).food, ..*old(self) }),
            !placed ==> *final(self) == *old(self),
    {
        let mut draws: usize = 0;
        while draws < RANDOM_FOOD_DRAWS
            invariant
                *self == *old(self),
                self.snake.wf(),
            decreases RANDOM_FOOD_DRAWS - draws,
        {
            let cell = random_cell();
            if self.place_food(cell) {
                return true;
            }
            draws = draws + 1;
        }
        match self.snake.first_free_cell() {
            Some(cell) => {
                self.food = cell;
                true
            },
            None => false,
        }
    }

    /// Sets up a new round: the starting snake heading right, new food, no
    /// score and the starting speed.
    pub fn reset(&mut self)
        requires
            old(self).wf(),
        ensures
            final(self).wf(),
            final(self).round_ok(),
            old(self).restarted(*final(self)),
    {
        self.snake = Snake::start();
        proof {
            let corner = Position { x: 0, y: 0 };
            assert(self.snake@ =~= start_cells());
            assert(!self.snake@.contains(corner)) by {
                if self.snake@.contains(corner) {
                    let i = choose|i: int| 0 <= i < self.snake@.len() && self.snake@[i] == corner;
                }
            }
        }
        self.spawn_food();
        self.direction = Direction::Right;
        self.next_direction = Direction::Right;
        self.score = 0;
        self.movement_cooldown = self.initial_cooldown;
    }

    fn note_high_score(&mut self)
        ensures
            *final(self) == (Game { high_score: larger(old(self).high_score, old(self).score), ..*old(self) }),
    {
        if self.score > self.high_score {
            self.high_score = self.score;
        }
    }

    /// One discrete step: take the asked-for heading unless it points straight
    /// back, then move the head one cell. Running into a wall or any segment of
    /// the snake (its tail included) ends the game and leaves the snake where
    /// it is. On the food the snake grows, scores, speeds up and new food is
    /// placed; elsewhere its tail follows.
    pub fn step(&mut self) -> (ev: StepEvent)
        requires
            old(self).wf(),
            old(self).state == GameState::Playing,
        ensures
            final(self).wf(),
            old(self).stepped(*final(self), ev),
            final(self).direction != reverse(old(self).direction),
            final(self).score >= old(self).score,
            (final(self).score > old(self).score) == (ev is Ate || ev is Filled),
    {
        let ghost start = *self;
        if !self.next_direction.is_opposite(self.direction) {
            self.direction = self.next_direction;
        }
        let head = self.snake.head();
        let new_head = neighbour(head, self.direction);
        if !in_bounds(new_head) || self.snake.occupies(new_head) {
            self.state = GameState::GameOver;
            self.note_high_score();
            return StepEvent::Crashed;
        }
        if new_head == self.food {
            proof {
                lemma_distinct_cells_fit(start.snake@);
            }
            self.snake.advance(new_head, true);
            assert(self.snake@ =~= seq![new_head] + start.snake@);
            self.score = self.score + self.difficulty.food_points();
            self.movement_cooldown = next_cooldown(
                self.speed_policy,
                self.initial_cooldown,
                self.movement_cooldown,
                self.score,
            );
            if self.spawn_food() {
                StepEvent::Ate(new_head)
            } else {
                self.state = GameState::GameOver;
                self.note_high_score();
                StepEvent::Filled(new_head)
            }
        } else {
            self.snake.advance(new_head, false);
            proof {
                assert forall|i: int| 0 <= i < self.snake@.len() implies self.snake@[i] != self.food by {
                    if i > 0 {
                        assert(self.snake@[i] == start.snake@[i - 1]);
                    }
                }
            }
            StepEvent::Moved
        }
    }

    /// The per-frame entry point: while playing, takes one step once
    /// `movement_cooldown` microseconds have passed since the last step.
    /// `now_us` is the time since the session started, in microseconds.
    pub fn update(&mut self, now_us: u64) -> (ev: StepEvent)
        requires
            old(self).wf(),
        ensures
            final(self).wf(),
            old(self).step_due(now_us) ==> (Game { last_update: now_us, ..*old(self) }).stepped(
                *final(self),
                ev,
            ),
            !old(self).step_due(now_us) ==> *final(self) == *old(self) && ev == StepEvent::Idle,
    {
        if self.state == GameState::Playing && now_us >= self.last_update && now_us
            - self.last_update >= self.movement_cooldown {
            self.last_update = now_us;
            self.step()
        } else {
            StepEvent::Idle
        }
    }
    /// Offers `score` to the high-score table, for the current player and
    /// difficulty, stamped with the time now. Without a player name, opens the
    /// name prompt instead.
    pub fn add_high_score(&mut self, score: u32) -> (act: Action)
        requires
            old(self).wf(),
        ensures
            final(self).wf(),
            old(self).added_score(*final(self), score, act),
    {
        if self.player_name.as_str().is_empty() {
            self.menu_state = MenuState::EnteringName;
            self.name_input_active = true;
            return Action::Nothing;
        }
        let timestamp = now_timestamp();
        self.add_high_score_at(score, timestamp)
    }

    /// As `add_high_score`, with the entry stamped `timestamp`.
    pub fn add_high_score_at(&mut self, score: u32, timestamp: i64) -> (act: Action)
        requires
            old(self).wf(),
        ensures
            final(self).wf(),
            old(self).player_name@.len() == 0 ==> act == Action::Nothing && *final(self) == (Game {
                menu_state: MenuState::EnteringName,
                name_input_active: true,
                ..*old(self)
            }),
            old(self).player_name@.len() > 0 ==> act == Action::SaveHighScores
                && final(self).high_scores@ == pruned(
                old(self).high_scores@.push(old(self).entry_for(score, timestamp)),
            ) && *final(self) == (Game { high_scores: final(self).high_scores, ..*old(self) }),
    {
        if self.player_name.as_str().is_empty() {
            self.menu_state = MenuState::EnteringName;
            self.name_input_active = true;
            return Action::Nothing;
        }
        let entry = ScoreEntry {
            player_name: self.player_name.clone(),
            score,
            difficulty: self.difficulty,
            timestamp,
        };
        let mut table: Vec<ScoreEntry> = Vec::new();
        std::mem::swap(&mut table, &mut self.high_scores);
        self.high_scores = insert_high_score(table, entry);
        Action::SaveHighScores
    }

    /// A character typed on the keyboard, for the player's name.
    pub fn text_input_event(&mut self, character: char)
        requires
            old(self).wf(),
        ensures
            final(self).wf(),
            old(self).typed(*final(self), character, is_alphanumeric_char(character)),
    {
        let alnum = alphanumeric(character);
        self.enter_char(character, alnum);
    }

    /// As `text_input_event`, with `alnum` telling whether `character` is
    /// alphanumeric.
    pub fn enter_char(&mut self, character: char, alnum: bool)
        requires
            old(self).wf(),
        ensures
            final(self).wf(),
            old(self).typed(*final(self), character, alnum),
    {
        if self.name_input_active && self.player_name.as_str().unicode_len() < MAX_NAME_CHARS
            && alnum {
            push_char(&mut self.player_name, character);
        }
    }

    /// A key press: menu navigation, difficulty choice, name entry, steering,
    /// pause and restart. Returns what the host has to do.
    ///
    /// After a game over, R starts a new round and Return offers the score to
    /// the high-score table: a known player's entry is added and the table
    /// shown; otherwise the menu's name prompt opens, and Return there adds it.
    ///
    /// While playing, a direction key replaces the queued heading (the last
    /// press before a step wins); a heading that points straight back is
    /// refused when the step takes it, see `latched`.
    pub fn key_down_event(&mut self, key: Key) -> (act: Action)
        requires
            old(self).wf(),
        ensures
            final(self).wf(),
            old(self).key_effect(*final(self), key, act),
    {
        match self.state {
            GameState::Menu => match self.menu_state {
                MenuState::Main => self.main_menu_key(key),
                MenuState::Difficulty => {
                    match key {
                        Key::Up => {
                            self.difficulty = self.difficulty.previous();
                            self.initial_cooldown = self.difficulty.get_info().step_interval_us;
                        },
                        Key::Down => {
                            self.difficulty = self.difficulty.next();
                            self.initial_cooldown = self.difficulty.get_info().step_interval_us;
                        },
                        Key::Escape => self.menu_state = MenuState::Main,
                        _ => {},
                    }
                    Action::Nothing
                },
                MenuState::HighScores => {
                    if key == Key::Escape {
                        self.menu_state = MenuState::Main;
                    }
                    Action::Nothing
                },
                MenuState::EnteringName => match key {
                    Key::Return => {
                        if !self.player_name.as_str().is_empty() {
                            let act = self.add_high_score(self.score);
                            self.menu_state = MenuState::HighScores;
                            self.name_input_active = false;
                            act
                        } else {
                            Action::Nothing
                        }
                    },
                    Key::Back => {
                        pop_char(&mut self.player_name);
                        Action::Nothing
                    },
                    Key::Escape => {
                        self.menu_state = MenuState::Main;
                        self.name_input_active = false;
                        Action::Nothing
                    },
                    _ => Action::Nothing,
                },
            },
            GameState::Playing => {
                match key {
                    Key::Up => self.next_direction = Direction::Up,
                    Key::Down => self.next_direction = Direction::Down,
                    Key::Left => self.next_direction = Direction::Left,
                    Key::Right => self.next_direction = Direction::Right,
                    Key::Escape => self.state = GameState::Paused,
                    _ => {},
                }
                Action::Nothing
            },
            GameState::Paused => {
                match key {
                    Key::Escape => self.state = GameState::Playing,
                    Key::M => self.state = GameState::Menu,
                    _ => {},
                }
                Action::Nothing
            },
            GameState::GameOver => match key {
                Key::R => {
                    self.reset();
                    self.state = GameState::Playing;
                    Action::Nothing
                },
                Key::Return => {
                    let act = self.add_high_score(self.score);
                    self.state = GameState::Menu;
                    if act == Action::SaveHighScores {
                        self.menu_state = MenuState::HighScores;
                    }
                    act
                },
                Key::M => {
                    self.state = GameState::Menu;
                    Action::Nothing
                },
                _ => Action::Nothing,
            },
        }
    }

    fn main_menu_key(&mut self, key: Key) -> (act: Action)
        requires
            old(self).wf(),
            old(self).state == GameState::Menu,
            old(self).menu_state == MenuState::Main,
        ensures
            final(self).wf(),
            old(self).key_effect(*final(self), key, act),
    {
        match key {
            Key::Up => {
                self.menu_selection = if self.menu_selection == 0 {
                    MENU_ITEMS - 1
                } else {
                    self.menu_selection - 1
                };
                Action::Nothing
            },
            Key::Down => {
                self.menu_selection = (self.menu_selection + 1) % MENU_ITEMS;
                Action::Nothing
            },
            Key::Return => {
                if self.menu_selection == 0 {
                    self.reset();
                    self.state = GameState::Playing;
                    Action::Nothing
                } else if self.menu_selection == 1 {
                    self.menu_state = MenuState::Difficulty;
                    Action::Nothing
                } else if self.menu_selection == 2 {
                    self.menu_state = MenuState::HighScores;
                    Action::Nothing
                } else {
                    Action::Exit
                }
            },
            _ => Action::Nothing,
        }
    }

    /// Chooses how the step interval shrinks as the snake eats.
    pub fn set_speed_policy(&mut self, policy: SpeedPolicy)
        requires
            old(self).wf(),
        ensures
            final(self).wf(),
            *final(self) == (Game { speed_policy: policy, ..*old(self) }),
    {
        self.speed_policy = policy;
    }
}

/// Once a round has been set up (by `reset`, on Play or restart), the snake
/// has a head in every state that follows: playing, paused, game over.
pub proof fn lemma_head_defined(g: Game)
    requires
        g.wf(),
        g.state != GameState::Menu,
    ensures
        g.snake@.len() >= 1,
{
}

/// During a round the food lies off the snake whenever the snake leaves any
/// cell free.
pub proof fn lemma_food_off_snake(g: Game)
    requires
        g.wf(),
        g.state != GameState::Menu,
        !board_full(g.snake@),
    ensures
        in_grid(g.food),
        !g.snake@.contains(g.food),
{
}

/// A step never turns the snake straight back on itself.
pub proof fn lemma_no_reversal(g: Game, next: Game, ev: StepEvent)
    requires
        g.stepped(next, ev),
    ensures
        next.direction != reverse(g.direction),
{
}

/// A step never lowers the score, and raises it exactly when the head moves
/// onto the food.
pub proof fn lemma_score_monotone(g: Game, next: Game, ev: StepEvent)
    requires
        g.wf(),
        g.state == GameState::Playing,
        g.stepped(next, ev),
    ensures
        next.score >= g.score,
        (next.score > g.score) == (in_grid(g.target()) && !g.snake@.contains(g.target())
            && g.target() == g.food),
{
}

/// The step interval of a session is never below the floor.
pub proof fn lemma_cooldown_floor(g: Game)
    requires
        g.wf(),
    ensures
        g.movement_cooldown >= MIN_COOLDOWN_US,
{
}

/// Under the decay policy a step keeps the step interval, or after a food
/// multiplies it by 0.95 (rounded down to whole microseconds) without going
/// below the floor.
pub proof fn lemma_decay_step(g: Game, next: Game, ev: StepEvent)
    requires
        g.wf(),
        g.speed_policy == SpeedPolicy::Decay,
        g.stepped(next, ev),
    ensures
        next.movement_cooldown >= MIN_COOLDOWN_US,
        (ev is Ate || ev is Filled) ==> next.movement_cooldown == at_least_floor(
            g.movement_cooldown * 95 / 100,
        ),
        !(ev is Ate || ev is Filled) ==> next.movement_cooldown == g.movement_cooldown,
{
}

/// After a step that does not fill the whole field, the food lies on the
/// field and off the snake.
pub proof fn lemma_food_off_snake_after_step(g: Game, next: Game, ev: StepEvent)
    requires
        g.wf(),
        g.state == GameState::Playing,
        g.stepped(next, ev),
        !(ev is Filled),
    ensures
        in_grid(next.food),
        !next.snake@.contains(next.food),
{
    let t = g.target();
    if !(!in_grid(t) || g.snake@.contains(t)) && t != g.food {
        assert forall|i: int| 0 <= i < next.snake@.len() implies next.snake@[i] != next.food by {
            if i > 0 {
                assert(next.snake@[i] == g.snake@[i - 1]);
            }
        }
    }
}

} // verus!
