//! What the 2D layer of a frame shows over the tower, by game state.
use vstd::prelude::*;
use crate::game::Game;
use crate::types::GameState;
use crate::user_data::{int_text, push_i32};

verus! {

/// What lies under the 2D layer.
#[derive(Clone, Copy, PartialEq, Eq, Structural, Debug)]
pub enum Backdrop {
    /// The 3D scene.
    Scene,
    /// The main menu picture.
    MenuImage,
    /// The blurred picture taken when the game was paused.
    Blur,
}

/// The texts and layers of the 2D layer; the buttons come on top.
pub struct Overlay {
    pub backdrop: Backdrop,
    /// A translucent white veil over the backdrop.
    pub veiled: bool,
    /// The large heading in the middle of the screen.
    pub title: Option<String>,
    /// `SCORE: <score>` under the heading.
    pub score_line: Option<String>,
    /// `HIGH SCORE: <high score>` under that.
    pub high_score_line: Option<String>,
    /// The score alone, at the top of the screen during play.
    pub running_score: Option<String>,
}

pub open spec fn game_over_word() -> Seq<char> {
    seq!['G', 'A', 'M', 'E', ' ', 'O', 'V', 'E', 'R']
}

pub open spec fn title_word() -> Seq<char> {
    seq!['T', 'I', 'L', 'E', ' ', 'B', 'R', 'E', 'A', 'K', 'E', 'R']
}

pub open spec fn paused_word() -> Seq<char> {
    seq!['P', 'A', 'U', 'S', 'E', 'D']
}

pub open spec fn settings_word() -> Seq<char> {
    seq!['S', 'E', 'T', 'T', 'I', 'N', 'G', 'S']
}

pub open spec fn score_prefix() -> Seq<char> {
    seq!['S', 'C', 'O', 'R', 'E', ':', ' ']
}

pub open spec fn high_score_prefix() -> Seq<char> {
    seq!['H', 'I', 'G', 'H', ' ', 'S', 'C', 'O', 'R', 'E', ':', ' ']
}

/// The heading each state shows.
pub open spec fn title_of(s: GameState) -> Option<Seq<char>> {
    match s {
        GameState::GameOver => Some(game_over_word()),
        GameState::Main => Some(title_word()),
        GameState::Pause => Some(paused_word()),
        GameState::Settings => Some(settings_word()),
        _ => None,
    }
}

pub open spec fn text_of(t: Option<String>) -> Option<Seq<char>> {
    match t {
        Some(s) => Some(s@),
        None => None,
    }
}

fn text(s: &str) -> (r: Option<String>)
    ensures
        text_of(r) == Some(s@),
{
    Some(String::from_str(s))
}

/// What the 2D layer shows for the game: at game over, a veil, the heading
/// and the score and high score; at the main menu, the menu picture and the
/// game's name; when paused and in the settings, the blurred picture, a veil
/// and the heading; otherwise the running score.
pub fn overlay(game: &Game) -> (o: Overlay)
    ensures
        o.backdrop == match game.state {
            GameState::Main => Backdrop::MenuImage,
            GameState::Pause | GameState::Settings => Backdrop::Blur,
            _ => Backdrop::Scene,
        },
        o.veiled == (game.state == GameState::GameOver || game.state == GameState::Pause
            || game.state == GameState::Settings),
        text_of(o.title) == title_of(game.state),
        text_of(o.score_line) == if game.state == GameState::GameOver {
            Some(score_prefix() + int_text(game.score as int))
        } else {
            None::<Seq<char>>
        },
        text_of(o.high_score_line) == if game.state == GameState::GameOver {
            Some(high_score_prefix() + int_text(game.high_score as int))
        } else {
            None::<Seq<char>>
        },
        text_of(o.running_score) == match game.state {
            GameState::GameOver | GameState::Main | GameState::Pause | GameState::Settings => None::<
                Seq<char>,
            >,
            _ => Some(int_text(game.score as int)),
        },
{
    match game.state {
        GameState::GameOver => {
            let mut score = String::from_str("SCORE: ");
            let mut high = String::from_str("HIGH SCORE: ");
            proof {
                reveal_strlit("GAME OVER");
                reveal_strlit("SCORE: ");
                reveal_strlit("HIGH SCORE: ");
                assert("GAME OVER"@ =~= game_over_word());
                assert("SCORE: "@ =~= score_prefix());
                assert("HIGH SCORE: "@ =~= high_score_prefix());
            }
            push_i32(&mut score, game.score);
            push_i32(&mut high, game.high_score);
            Overlay {
                backdrop: Backdrop::Scene,
                veiled: true,
                title: text("GAME OVER"),
                score_line: Some(score),
                high_score_line: Some(high),
                running_score: None,
            }
        },
        GameState::Main => {
            proof {
                reveal_strlit("TILE BREAKER");
                assert("TILE BREAKER"@ =~= title_word());
            }
            Overlay {
                backdrop: Backdrop::MenuImage,
                veiled: false,
                title: text("TILE BREAKER"),
                score_line: None,
                high_score_line: None,
                running_score: None,
            }
        },
        GameState::Pause => {
            proof {
                reveal_strlit("PAUSED");
                assert("PAUSED"@ =~= paused_word());
            }
            Overlay {
                backdrop: Backdrop::Blur,
                veiled: true,
                title: text("PAUSED"),
                score_line: None,
                high_score_line: None,
                running_score: None,
            }
        },
        GameState::Settings => {
            proof {
                reveal_strlit("SETTINGS");
                assert("SETTINGS"@ =~= settings_word());
            }
            Overlay {
                backdrop: Backdrop::Blur,
                veiled: true,
                title: text("SETTINGS"),
                score_line: None,
                high_score_line: None,
                running_score: None,
            }
        },
        _ => {
            let mut score = String::new();
            push_i32(&mut score, game.score);
            assert(score@ =~= int_text(game.score as int));
            Overlay {
                backdrop: Backdrop::Scene,
                veiled: false,
                title: None,
                score_line: None,
                high_score_line: None,
                running_score: Some(score),
            }
        },
    }
}

} // verus!
