use tile_breaker::block::{Block, Color};
use tile_breaker::game::{advance, update_game_state, Effect, FrameInput, Game, Menu};
use tile_breaker::screen::{overlay, Backdrop};
use tile_breaker::types::{Axis, Direction, GameState, Movement};

fn idle() -> FrameInput {
    FrameInput {
        space_pressed: false,
        key_p_pressed: false,
        key_r_pressed: false,
        clicked: None,
        toggle_clicked: false,
    }
}

fn click(k: usize) -> FrameInput {
    FrameInput { clicked: Some(k), ..idle() }
}

fn space() -> FrameInput {
    FrameInput { space_pressed: true, ..idle() }
}

/// A game whose tower has its base block and whose next block slides.
fn sliding_game() -> Game {
    let mut g = Game::new();
    g.state = GameState::Init;
    assert_eq!(advance(&mut g, &idle(), 1), vec![Effect::PlaceBaseBlock]);
    assert_eq!(advance(&mut g, &idle(), 1), vec![Effect::SpawnBlock]);
    g
}

#[test]
fn new_game_waits_at_the_main_menu() {
    let g = Game::new();
    assert!(g.running);
    assert_eq!(g.state, GameState::Main);
    assert!(g.blocks.is_empty());
    assert!(g.current_block.is_none());
    assert_eq!((g.score, g.high_score), (0, 0));
    assert_eq!(g.buttons, None);
    assert_eq!(g.toggle_buttons, None);
    assert!(!g.settings.rotation);
    assert!(!g.over);
}

#[test]
fn menus_have_their_buttons() {
    assert_eq!(Menu::Playing.len(), 1);
    assert_eq!(Menu::GameOver.len(), 2);
    assert_eq!(Menu::Main.len(), 3);
    assert_eq!(Menu::Pause.len(), 4);
    assert_eq!(Menu::Settings.len(), 2);
}

#[test]
fn main_menu_play_starts_a_new_tower() {
    let mut g = Game::new();
    assert!(advance(&mut g, &idle(), 1).is_empty());
    assert_eq!(g.buttons, Some(Menu::Main));
    assert!(advance(&mut g, &idle(), 1).is_empty());
    assert_eq!(advance(&mut g, &click(0), 1), vec![Effect::Reset]);
    assert_eq!(g.state, GameState::Init);
    assert_eq!(g.buttons, None);
    assert_eq!(advance(&mut g, &idle(), 1), vec![Effect::PlaceBaseBlock]);
    assert_eq!(g.state, GameState::Ready);
    assert_eq!(
        g.blocks,
        vec![Block {
            color: Color::new(138, 43, 226, 255),
            movement: Movement { direction: Direction::Forward, axis: Axis::XAxis },
        }]
    );
}

#[test]
fn main_menu_load_reads_the_high_score_first() {
    let mut g = Game::new();
    advance(&mut g, &idle(), 1);
    assert_eq!(advance(&mut g, &click(1), 1), vec![Effect::Reset]);
    assert_eq!(g.state, GameState::Load);
    assert_eq!(advance(&mut g, &idle(), 1), vec![Effect::LoadUserData]);
    assert_eq!(g.state, GameState::Load);
    g.finish_load(15);
    assert_eq!(g.state, GameState::Init);
    assert_eq!(g.high_score, 15);
}

#[test]
fn main_menu_quit_stops_the_game() {
    let mut g = Game::new();
    advance(&mut g, &idle(), 1);
    assert_eq!(advance(&mut g, &click(2), 1), vec![Effect::Reset]);
    assert!(!g.running);
}

#[test]
fn next_block_turns_and_changes_colour() {
    let mut g = Game::new();
    g.state = GameState::Init;
    advance(&mut g, &idle(), 1);
    assert_eq!(advance(&mut g, &idle(), 0), vec![Effect::SpawnBlock]);
    assert_eq!(g.state, GameState::Update);
    assert_eq!(
        g.current_block,
        Some(Block {
            color: Color::new(147, 52, 235, 255),
            movement: Movement { direction: Direction::Backward, axis: Axis::ZAxis },
        })
    );
    let mut g = Game::new();
    g.state = GameState::Init;
    advance(&mut g, &idle(), 1);
    advance(&mut g, &idle(), 1);
    assert_eq!(g.current_block.unwrap().movement.direction, Direction::Forward);
}

#[test]
fn random_start_directions_take_both_values() {
    let mut seen_forward = false;
    let mut seen_backward = false;
    for _ in 0..200 {
        let mut g = Game::new();
        g.state = GameState::Init;
        update_game_state(&mut g, &idle());
        assert_eq!(update_game_state(&mut g, &idle()), vec![Effect::SpawnBlock]);
        let b = g.current_block.unwrap();
        assert_eq!(b.movement.axis, Axis::ZAxis);
        assert_eq!(b.color, Color::new(147, 52, 235, 255));
        match b.movement.direction {
            Direction::Forward => seen_forward = true,
            Direction::Backward => seen_backward = true,
        }
    }
    assert!(seen_forward && seen_backward);
}

#[test]
fn sliding_shows_pause_and_moves() {
    let mut g = sliding_game();
    assert_eq!(advance(&mut g, &idle(), 1), vec![Effect::MoveBlock]);
    assert_eq!(g.buttons, Some(Menu::Playing));
    assert_eq!(g.state, GameState::Update);
    assert_eq!(advance(&mut g, &space(), 1), vec![Effect::MoveBlock]);
    assert_eq!(g.state, GameState::Playing);
    assert_eq!(advance(&mut g, &idle(), 1), vec![Effect::TrimBlock]);
    assert_eq!(g.state, GameState::Playing);
}

#[test]
fn a_block_that_fits_scores() {
    let mut g = sliding_game();
    advance(&mut g, &space(), 1);
    let dropped = g.current_block.unwrap();
    advance(&mut g, &idle(), 1);
    g.finish_trim(true);
    assert_eq!(g.score, 1);
    assert_eq!(g.blocks.len(), 2);
    assert_eq!(g.blocks[1], dropped);
    assert_eq!(g.current_block, None);
    assert_eq!(g.state, GameState::Ready);
    advance(&mut g, &idle(), 1);
    let next = g.current_block.unwrap();
    assert_eq!(next.movement.axis, Axis::XAxis);
    assert_eq!(next.color, Color::new(156, 61, 244, 255));
}

#[test]
fn a_missed_block_ends_the_game_and_saves() {
    let mut g = sliding_game();
    g.high_score = 0;
    advance(&mut g, &space(), 1);
    g.finish_trim(false);
    assert_eq!(g.state, GameState::Save);
    assert_eq!(g.current_block, None);
    assert_eq!(g.buttons, None);
    assert_eq!(advance(&mut g, &idle(), 1), vec![Effect::SaveUserData(0), Effect::SaveSettings]);
    assert_eq!(g.state, GameState::GameOver);
    assert_eq!(g.high_score, 0);
}

#[test]
fn saving_below_the_high_score_keeps_it() {
    let mut g = sliding_game();
    g.high_score = 9;
    advance(&mut g, &space(), 1);
    g.finish_trim(false);
    assert_eq!(advance(&mut g, &idle(), 1), vec![Effect::SaveSettings]);
    assert_eq!(g.high_score, 9);
}

#[test]
fn game_over_menu_restarts_or_returns() {
    let mut g = sliding_game();
    advance(&mut g, &space(), 1);
    g.finish_trim(false);
    advance(&mut g, &idle(), 1);
    assert!(advance(&mut g, &idle(), 1).is_empty());
    assert!(g.over);
    assert_eq!(g.buttons, Some(Menu::GameOver));
    let mut restart = Game::new();
    restart.state = g.state;
    restart.buttons = g.buttons;
    restart.blocks = g.blocks.clone();
    restart.high_score = 4;
    assert_eq!(advance(&mut restart, &click(1), 1), vec![Effect::Reset]);
    assert_eq!(restart.state, GameState::Init);
    assert!(restart.blocks.is_empty());
    assert!(!restart.over);
    assert_eq!(restart.high_score, 4);
    assert!(advance(&mut g, &click(0), 1).is_empty());
    assert_eq!(g.state, GameState::Main);
    assert_eq!(g.buttons, None);
}

#[test]
fn pause_and_resume_keep_the_game() {
    let mut g = sliding_game();
    advance(&mut g, &idle(), 1);
    let (blocks, current, score) = (g.blocks.clone(), g.current_block, g.score);
    assert_eq!(advance(&mut g, &click(0), 1), vec![Effect::CaptureBlur, Effect::MoveBlock]);
    assert_eq!(g.state, GameState::Pause);
    assert!(advance(&mut g, &idle(), 1).is_empty());
    assert_eq!(g.buttons, Some(Menu::Pause));
    assert_eq!(advance(&mut g, &click(0), 1), vec![Effect::ClearBlur]);
    assert_eq!(g.state, GameState::Update);
    assert_eq!(g.blocks, blocks);
    assert_eq!(g.current_block, current);
    assert_eq!(g.score, score);
}

#[test]
fn pause_menu_choices() {
    let paused = || {
        let mut g = sliding_game();
        advance(&mut g, &idle(), 1);
        advance(&mut g, &click(0), 1);
        advance(&mut g, &idle(), 1);
        g
    };
    let mut g = paused();
    assert!(advance(&mut g, &click(1), 1).is_empty());
    assert_eq!(g.state, GameState::Settings);
    let mut g = paused();
    assert_eq!(advance(&mut g, &click(2), 1), vec![Effect::ClearBlur]);
    assert_eq!(g.state, GameState::Main);
    let mut g = paused();
    assert!(advance(&mut g, &click(3), 1).is_empty());
    assert!(!g.running);
    assert_eq!(g.state, GameState::Pause);
}

fn settings_game() -> Game {
    let mut g = sliding_game();
    advance(&mut g, &idle(), 1);
    advance(&mut g, &click(0), 1);
    advance(&mut g, &idle(), 1);
    advance(&mut g, &click(1), 1);
    assert_eq!(g.state, GameState::Settings);
    g
}

#[test]
fn toggle_follows_rotation_and_flips_it() {
    let mut g = settings_game();
    assert!(advance(&mut g, &idle(), 1).is_empty());
    assert_eq!(g.toggle_buttons, Some(false));
    assert_eq!(g.buttons, Some(Menu::Settings));
    let flip = FrameInput { toggle_clicked: true, ..idle() };
    advance(&mut g, &flip, 1);
    assert!(g.settings.rotation);
    assert_eq!(g.toggle_buttons, Some(true));
    advance(&mut g, &flip, 1);
    assert!(!g.settings.rotation);
    assert_eq!(g.toggle_buttons, Some(false));
}

#[test]
fn settings_resume_quit_and_keys() {
    let mut g = settings_game();
    advance(&mut g, &idle(), 1);
    let mut resumed = Game::new();
    resumed.state = g.state;
    resumed.buttons = g.buttons;
    resumed.toggle_buttons = g.toggle_buttons;
    resumed.blocks = g.blocks.clone();
    resumed.score = g.score;
    assert!(advance(&mut resumed, &click(0), 1).is_empty());
    assert_eq!(resumed.state, GameState::Update);
    assert_eq!((resumed.buttons, resumed.toggle_buttons), (None, None));

    let mut p = settings_game();
    advance(&mut p, &idle(), 1);
    assert!(advance(&mut p, &FrameInput { key_p_pressed: true, ..idle() }, 1).is_empty());
    assert_eq!(p.state, GameState::Update);
    assert_eq!(p.toggle_buttons, None);
    assert_eq!(p.buttons, Some(Menu::Settings));

    let mut r = settings_game();
    r.high_score = 3;
    advance(&mut r, &idle(), 1);
    assert_eq!(advance(&mut r, &FrameInput { key_r_pressed: true, ..idle() }, 1), vec![Effect::Reset]);
    assert_eq!(r.state, GameState::Init);
    assert!(r.blocks.is_empty());
    assert_eq!(r.high_score, 3);

    let mut q = settings_game();
    advance(&mut q, &idle(), 1);
    assert!(advance(&mut q, &click(1), 1).is_empty());
    assert!(!q.running);
}

#[test]
fn update_without_block_prepares_one() {
    let mut g = sliding_game();
    g.current_block = None;
    assert!(advance(&mut g, &space(), 1).is_empty());
    assert_eq!(g.state, GameState::Ready);
}

#[test]
fn playing_without_block_waits() {
    let mut g = sliding_game();
    g.state = GameState::Playing;
    g.current_block = None;
    assert!(advance(&mut g, &idle(), 1).is_empty());
    assert_eq!(g.state, GameState::Playing);
}

#[test]
fn reset_keeps_quit_flag_high_score_and_settings() {
    let mut g = sliding_game();
    g.high_score = 8;
    g.settings.rotation = true;
    g.running = false;
    g.score = 3;
    g.reset();
    assert_eq!(g.state, GameState::Init);
    assert!(g.blocks.is_empty());
    assert_eq!(g.current_block, None);
    assert_eq!((g.score, g.high_score), (0, 8));
    assert!(g.settings.rotation);
    assert!(!g.running);
}

#[test]
fn push_adds_on_top() {
    let mut g = Game::new();
    let b = Block {
        color: Color::new(1, 2, 3, 4),
        movement: Movement { direction: Direction::Backward, axis: Axis::ZAxis },
    };
    g.push(b);
    g.push(b);
    assert_eq!(g.blocks, vec![b, b]);
}

#[test]
fn a_full_game_scores_each_placed_block() {
    let mut g = Game::new();
    advance(&mut g, &idle(), 1);
    advance(&mut g, &click(0), 1);
    for placed in 0..5 {
        while g.state != GameState::Playing {
            advance(&mut g, &space(), 1);
        }
        let fx = advance(&mut g, &idle(), 1);
        assert_eq!(fx, vec![Effect::TrimBlock]);
        g.finish_trim(placed < 4);
    }
    assert_eq!(g.score, 4);
    assert_eq!(g.blocks.len(), 5);
    assert_eq!(advance(&mut g, &idle(), 1), vec![Effect::SaveUserData(4), Effect::SaveSettings]);
    assert_eq!(g.high_score, 4);
}

#[test]
fn overlay_texts_follow_the_state() {
    let mut g = Game::new();
    let o = overlay(&g);
    assert_eq!(o.backdrop, Backdrop::MenuImage);
    assert!(!o.veiled);
    assert_eq!(o.title.as_deref(), Some("TILE BREAKER"));
    assert_eq!((o.score_line, o.high_score_line, o.running_score), (None, None, None));

    g.state = GameState::GameOver;
    g.score = 7;
    g.high_score = -12;
    let o = overlay(&g);
    assert_eq!(o.backdrop, Backdrop::Scene);
    assert!(o.veiled);
    assert_eq!(o.title.as_deref(), Some("GAME OVER"));
    assert_eq!(o.score_line.as_deref(), Some("SCORE: 7"));
    assert_eq!(o.high_score_line.as_deref(), Some("HIGH SCORE: -12"));
    assert_eq!(o.running_score, None);

    for (state, title) in [(GameState::Pause, "PAUSED"), (GameState::Settings, "SETTINGS")] {
        g.state = state;
        let o = overlay(&g);
        assert_eq!(o.backdrop, Backdrop::Blur);
        assert!(o.veiled);
        assert_eq!(o.title.as_deref(), Some(title));
        assert_eq!(o.running_score, None);
    }

    for state in [GameState::Init, GameState::Ready, GameState::Update, GameState::Playing, GameState::Save, GameState::Load] {
        g.state = state;
        g.score = 1234;
        let o = overlay(&g);
        assert_eq!(o.backdrop, Backdrop::Scene);
        assert!(!o.veiled);
        assert_eq!(o.title, None);
        assert_eq!(o.running_score.as_deref(), Some("1234"));
    }
}
