//! The game's rules: one frame of the state machine, from the game and the
//! frame's input to the new game and the effects the frontend carries out
//! (geometry, textures, files).
use vstd::prelude::*;
use rand::RngExt;
use crate::block::{Block, Color};
use crate::types::{Axis, Direction, GameState, Movement};
use crate::utils::{Settings, lemma_safe_u8_add_bounces, reflect_u8, safe_u8_add};

verus! {

/// The button sets the game shows, in the order their buttons are checked.
#[derive(Clone, Copy, PartialEq, Eq, Structural, Debug)]
pub enum Menu {
    /// While a block slides: Pause.
    Playing,
    /// Main Menu, Restart.
    GameOver,
    /// Play, Load, Quit.
    Main,
    /// Resume, Settings, Main Menu, Quit.
    Pause,
    /// Resume, Quit.
    Settings,
}

impl Menu {
    pub open spec fn spec_len(self) -> nat {
        match self {
            Menu::Playing => 1,
            Menu::GameOver => 2,
            Menu::Main => 3,
            Menu::Pause => 4,
            Menu::Settings => 2,
        }
    }

    /// How many buttons the set has.
    pub fn len(&self) -> (n: usize)
        ensures
            n == self.spec_len(),
    {
        match self {
            Menu::Playing => 1,
            Menu::GameOver => 2,
            Menu::Main => 3,
            Menu::Pause => 4,
            Menu::Settings => 2,
        }
    }
}

/// What the player did during a frame.
#[derive(Clone, Copy, PartialEq, Eq, Structural, Debug)]
pub struct FrameInput {
    /// Space was pressed.
    pub space_pressed: bool,
    /// P was pressed.
    pub key_p_pressed: bool,
    /// R was pressed.
    pub key_r_pressed: bool,
    /// The first button, in the order of the shown set, under a left click.
    pub clicked: Option<usize>,
    /// The rotation toggle was under a left click.
    pub toggle_clicked: bool,
}

/// Work the frontend does for the rules, in the order given.
#[derive(Clone, Copy, PartialEq, Eq, Structural, Debug)]
pub enum Effect {
    /// Lay the first block of the tower at the origin.
    PlaceBaseBlock,
    /// Put the new current block above the top of the tower and restart the
    /// slide clock.
    SpawnBlock,
    /// Advance the slide clock and move the current block.
    MoveBlock,
    /// Cut the current block against the top of the tower and report whether
    /// anything was left (`Game::finish_trim`).
    TrimBlock,
    /// Keep a blurred picture of the screen as the pause background.
    CaptureBlur,
    /// Drop the pause background.
    ClearBlur,
    /// Forget the tower's geometry, the falling pieces and the background.
    Reset,
    /// Save this high score to the user-data file.
    SaveUserData(i32),
    /// Save the settings to the settings file.
    SaveSettings,
    /// Read the user-data file and report its high score
    /// (`Game::finish_load`).
    LoadUserData,
}

/// The state of a game, as the rules see it.
pub struct Game {
    /// False once the player chose to quit.
    pub running: bool,
    /// The tower, bottom first.
    pub blocks: Vec<Block>,
    /// The block that slides above the tower.
    pub current_block: Option<Block>,
    pub state: GameState,
    pub over: bool,
    pub score: i32,
    pub high_score: i32,
    /// The button set on screen.
    pub buttons: Option<Menu>,
    /// The rotation toggle on screen, and whether it is on.
    pub toggle_buttons: Option<bool>,
    pub settings: Settings,
}

/// `Game` with its tower as a sequence.
pub struct GameView {
    pub running: bool,
    pub blocks: Seq<Block>,
    pub current_block: Option<Block>,
    pub state: GameState,
    pub over: bool,
    pub score: i32,
    pub high_score: i32,
    pub buttons: Option<Menu>,
    pub toggle_buttons: Option<bool>,
    pub settings: Settings,
}

impl View for Game {
    type V = GameView;

    open spec fn view(&self) -> GameView {
        GameView {
            running: self.running,
            blocks: self.blocks@,
            current_block: self.current_block,
            state: self.state,
            over: self.over,
            score: self.score,
            high_score: self.high_score,
            buttons: self.buttons,
            toggle_buttons: self.toggle_buttons,
            settings: self.settings,
        }
    }
}

/// The first block of every tower: blueviolet, sliding forward along x.
pub open spec fn base_block() -> Block {
    Block {
        color: Color { r: 138, g: 43, b: 226, a: 255 },
        movement: Movement { direction: Direction::Forward, axis: Axis::XAxis },
    }
}

/// The colour of the block laid on a tower of `n` blocks: each channel of the
/// base colour moved by `9 n`, bouncing within `0..=255`, opaque.
pub open spec fn layer_color(base: Color, n: int) -> Color {
    Color {
        r: reflect_u8(base.r as int, 9 * n) as u8,
        g: reflect_u8(base.g as int, 9 * n) as u8,
        b: reflect_u8(base.b as int, 9 * n) as u8,
        a: 255,
    }
}

pub open spec fn other_axis(a: Axis) -> Axis {
    match a {
        Axis::XAxis => Axis::ZAxis,
        Axis::ZAxis => Axis::XAxis,
    }
}

/// The start direction a coin flip gives.
pub open spec fn coin_direction(coin: int) -> Direction {
    if coin == 0 {
        Direction::Backward
    } else {
        Direction::Forward
    }
}

/// The largest tower the colour rule is defined for: the frontend turns the
/// height into an `f32`, which is exact up to 2^24.
pub open spec fn max_tower() -> nat {
    16777216
}

/// What `Game::reset` leaves: an empty tower about to be laid, with the
/// quit flag, the high score and the settings kept.
pub open spec fn reset_view(g: GameView) -> GameView {
    GameView {
        blocks: Seq::empty(),
        current_block: None,
        state: GameState::Init,
        over: false,
        score: 0,
        buttons: None,
        toggle_buttons: None,
        ..g
    }
}

/// How many buttons of the shown set a state looks at.
pub open spec fn checked_buttons(s: GameState) -> nat {
    match s {
        GameState::Update => 1,
        GameState::GameOver => 2,
        GameState::Main => 3,
        GameState::Pause => 4,
        GameState::Settings => 2,
        _ => 0,
    }
}

/// The frame's input fits the screen: a clicked button is one on screen,
/// and when nothing is clicked the shown set has every button the state looks
/// at.
pub open spec fn input_fits(g: GameView, input: FrameInput) -> bool {
    &&& input.clicked matches Some(k) ==> (g.buttons matches Some(m) && k < m.spec_len())
    &&& g.buttons matches Some(m) ==> (input.clicked is None ==> checked_buttons(g.state)
        <= m.spec_len())
}

/// One frame of the rules on screens with buttons: the chosen button's
/// effect, or showing the set when none is shown.
pub open spec fn frame_spec(g: GameView, input: FrameInput, coin: int) -> (GameView, Seq<Effect>) {
    match g.state {
        GameState::Init => (
            GameView { blocks: g.blocks.push(base_block()), state: GameState::Ready, ..g },
            seq![Effect::PlaceBaseBlock],
        ),
        GameState::Ready => {
            let n = g.blocks.len() as int;
            let b = Block {
                color: layer_color(g.blocks[0].color, n),
                movement: Movement {
                    direction: coin_direction(coin),
                    axis: other_axis(g.blocks.last().movement.axis),
                },
            };
            (
                GameView { current_block: Some(b), state: GameState::Update, ..g },
                seq![Effect::SpawnBlock],
            )
        },
        GameState::Update => {
            let (g1, fx) = if g.buttons is None {
                (GameView { buttons: Some(Menu::Playing), ..g }, Seq::<Effect>::empty())
            } else if input.clicked == Some(0usize) {
                (
                    GameView { buttons: None, state: GameState::Pause, ..g },
                    seq![Effect::CaptureBlur],
                )
            } else {
                (g, Seq::<Effect>::empty())
            };
            if g1.current_block is Some {
                (
                    GameView {
                        state: if input.space_pressed {
                            GameState::Playing
                        } else {
                            g1.state
                        },
                        ..g1
                    },
                    fx.push(Effect::MoveBlock),
                )
            } else {
                (GameView { state: GameState::Ready, ..g1 }, fx)
            }
        },
        GameState::Playing => if g.current_block is Some {
            (g, seq![Effect::TrimBlock])
        } else {
            (g, Seq::empty())
        },
        GameState::GameOver => {
            let g0 = GameView { over: true, ..g };
            if g.buttons is None {
                (GameView { buttons: Some(Menu::GameOver), ..g0 }, Seq::empty())
            } else if input.clicked == Some(0usize) {
                (GameView { buttons: None, state: GameState::Main, ..g0 }, Seq::empty())
            } else if input.clicked == Some(1usize) {
                (reset_view(g0), seq![Effect::Reset])
            } else {
                (g0, Seq::empty())
            }
        },
        GameState::Save => {
            let beaten = g.score >= g.high_score;
            (
                GameView {
                    high_score: if beaten {
                        g.score
                    } else {
                        g.high_score
                    },
                    state: GameState::GameOver,
                    ..g
                },
                if beaten {
                    seq![Effect::SaveUserData(g.score), Effect::SaveSettings]
                } else {
                    seq![Effect::SaveSettings]
                },
            )
        },
        GameState::Load => (g, seq![Effect::LoadUserData]),
        GameState::Main => {
            if g.buttons is None {
                (GameView { buttons: Some(Menu::Main), ..g }, Seq::empty())
            } else if input.clicked == Some(0usize) {
                (reset_view(g), seq![Effect::Reset])
            } else if input.clicked == Some(1usize) {
                (GameView { state: GameState::Load, ..reset_view(g) }, seq![Effect::Reset])
            } else if input.clicked == Some(2usize) {
                (GameView { running: false, ..reset_view(g) }, seq![Effect::Reset])
            } else {
                (g, Seq::empty())
            }
        },
        GameState::Pause => {
            if g.buttons is None {
                (GameView { buttons: Some(Menu::Pause), ..g }, Seq::empty())
            } else if input.clicked == Some(0usize) {
                (
                    GameView { buttons: None, state: GameState::Update, ..g },
                    seq![Effect::ClearBlur],
                )
            } else if input.clicked == Some(1usize) {
                (GameView { buttons: None, state: GameState::Settings, ..g }, Seq::empty())
            } else if input.clicked == Some(2usize) {
                (
                    GameView { buttons: None, state: GameState::Main, ..g },
                    seq![Effect::ClearBlur],
                )
            } else if input.clicked == Some(3usize) {
                (GameView { running: false, ..g }, Seq::empty())
            } else {
                (g, Seq::empty())
            }
        },
        GameState::Settings => {
            let g1 = match g.toggle_buttons {
                None => GameView { toggle_buttons: Some(g.settings.rotation), ..g },
                Some(on) => if input.toggle_clicked {
                    GameView {
                        toggle_buttons: Some(!on),
                        settings: Settings { rotation: !on },
                        ..g
                    }
                } else {
                    g
                },
            };
            let g2 = if g1.buttons is None {
                GameView { buttons: Some(Menu::Settings), ..g1 }
            } else if input.clicked == Some(0usize) {
                GameView {
                    buttons: None,
                    toggle_buttons: None,
                    state: GameState::Update,
                    ..g1
                }
            } else if input.clicked == Some(1usize) {
                GameView { running: false, ..g1 }
            } else {
                g1
            };
            if input.key_p_pressed {
                (GameView { toggle_buttons: None, state: GameState::Update, ..g2 }, Seq::empty())
            } else if input.key_r_pressed {
                (reset_view(g2), seq![Effect::Reset])
            } else {
                (g2, Seq::empty())
            }
        },
    }
}

/// `rand::rng().random_range(0..=1)`: a coin flip from the thread-local
/// generator. Which side comes up is not stated; it is 0 or 1.
#[verifier::external_body]
fn flip_coin() -> (c: i32)
    ensures
        0 <= c <= 1,
{
    rand::rng().random_range(0..=1)
}

impl Game {
    /// A game at the main menu, running, with no tower and default settings.
    pub fn new() -> (g: Game)
        ensures
            g@ == (GameView {
                running: true,
                blocks: Seq::empty(),
                current_block: None,
                state: GameState::Main,
                over: false,
                score: 0,
                high_score: 0,
                buttons: None,
                toggle_buttons: None,
                settings: Settings { rotation: false },
            }),
            wf(g@),
    {
        proof {
            lemma_new_wf();
        }
        Game {
            running: true,
            blocks: Vec::new(),
            current_block: None,
            state: GameState::Main,
            over: false,
            score: 0,
            high_score: 0,
            buttons: None,
            toggle_buttons: None,
            settings: Settings::new(),
        }
    }

    /// Clears the tower and the score and sets the game up to lay a new tower;
    /// the quit flag, the high score and the settings stay.
    pub fn reset(&mut self)
        ensures
            final(self)@ == reset_view(old(self)@),
            wf(final(self)@),
            final(self).blocks@.len() == 0,
            final(self).current_block is None,
            final(self).state == GameState::Init,
            !final(self).over,
            final(self).score == 0,
            final(self).buttons is None,
            final(self).toggle_buttons is None,
            final(self).running == old(self).running,
            final(self).high_score == old(self).high_score,
            final(self).settings == old(self).settings,
    {
        proof {
            lemma_reset_wf(old(self)@);
        }
        self.blocks = Vec::new();
        self.current_block = None;
        self.state = GameState::Init;
        self.over = false;
        self.score = 0;
        self.buttons = None;
        self.toggle_buttons = None;
    }

    /// Adds a block on top of the tower.
    pub fn push(&mut self, block: Block)
        ensures
            final(self)@ == (GameView { blocks: old(self)@.blocks.push(block), ..old(self)@ }),
    {
        self.blocks.push(block);
    }
}

/// The game after `Game::finish_trim`: a block with something left joins the
/// tower and scores; a block that missed the tower ends the game.
pub open spec fn trim_spec(g: GameView, fits: bool) -> GameView {
    if fits {
        GameView {
            blocks: g.blocks.push(g.current_block->0),
            score: (g.score + 1) as i32,
            current_block: None,
            state: GameState::Ready,
            ..g
        }
    } else {
        GameView { buttons: None, state: GameState::Save, current_block: None, ..g }
    }
}

/// The conditions under which a frame runs without failing: a tower to build
/// on, small enough for the colour rule, when the next block is prepared; and
/// input that fits the screen.
pub open spec fn frame_ok(g: GameView, input: FrameInput) -> bool {
    &&& g.state == GameState::Ready ==> 1 <= g.blocks.len() <= max_tower()
    &&& input_fits(g, input)
}

/// The colour of the block laid on a tower of `n` blocks over `base`.
pub fn layer_color_exec(base: Color, n: usize) -> (c: Color)
    requires
        n <= max_tower(),
    ensures
        c == layer_color(base, n as int),
{
    let offset: i32 = (n as i32) * 9;
    Color {
        r: safe_u8_add(base.r, offset),
        g: safe_u8_add(base.g, offset),
        b: safe_u8_add(base.b, offset),
        a: 255,
    }
}

/// One frame of the rules, with the coin flip that decides a new block's
/// start direction given.
pub fn advance(game: &mut Game, input: &FrameInput, coin: i32) -> (fx: Vec<Effect>)
    requires
        frame_ok(old(game)@, *input),
        0 <= coin <= 1,
    ensures
        (final(game)@, fx@) == frame_spec(old(game)@, *input, coin as int),
        wf(old(game)@) ==> wf(final(game)@),
{
    proof {
        if wf(old(game)@) {
            lemma_frame_keeps_wf(old(game)@, *input, coin as int);
        }
    }
    let mut fx: Vec<Effect> = Vec::new();
    match game.state {
        GameState::Init => {
            game.push(
                Block {
                    color: Color::blueviolet(),
                    movement: Movement { direction: Direction::Forward, axis: Axis::XAxis },
                },
            );
            game.state = GameState::Ready;
            fx.push(Effect::PlaceBaseBlock);
        },
        GameState::Ready => {
            let n = game.blocks.len();
            let color = layer_color_exec(game.blocks[0].color, n);
            let axis = match game.blocks[n - 1].movement.axis {
                Axis::XAxis => Axis::ZAxis,
                Axis::ZAxis => Axis::XAxis,
            };
            let direction = if coin == 0 {
                Direction::Backward
            } else {
                Direction::Forward
            };
            game.current_block = Some(Block { color, movement: Movement { direction, axis } });
            game.state = GameState::Update;
            fx.push(Effect::SpawnBlock);
        },
        GameState::Update => {
            match game.buttons {
                None => {
                    game.buttons = Some(Menu::Playing);
                },
                Some(_) => {
                    if input.clicked == Some(0usize) {
                        game.buttons = None;
                        game.state = GameState::Pause;
                        fx.push(Effect::CaptureBlur);
                    }
                },
            }
            if game.current_block.is_some() {
                fx.push(Effect::MoveBlock);
                if input.space_pressed {
                    game.state = GameState::Playing;
                }
            } else {
                game.state = GameState::Ready;
            }
        },
        GameState::Playing => {
            if game.current_block.is_some() {
                fx.push(Effect::TrimBlock);
            }
        },
        GameState::GameOver => {
            game.over = true;
            match game.buttons {
                None => {
                    game.buttons = Some(Menu::GameOver);
                },
                Some(_) => {
                    if input.clicked == Some(0usize) {
                        game.buttons = None;
                        game.state = GameState::Main;
                    } else if input.clicked == Some(1usize) {
                        game.buttons = None;
                        game.reset();
                        fx.push(Effect::Reset);
                    }
                },
            }
        },
        GameState::Save => {
            let beaten = game.score >= game.high_score;
            if beaten {
                game.high_score = game.score;
                fx.push(Effect::SaveUserData(game.score));
            }
            fx.push(Effect::SaveSettings);
            game.state = GameState::GameOver;
        },
        GameState::Load => {
            fx.push(Effect::LoadUserData);
        },
        GameState::Main => {
            match game.buttons {
                None => {
                    game.buttons = Some(Menu::Main);
                },
                Some(_) => {
                    if input.clicked == Some(0usize) {
                        game.reset();
                        game.buttons = None;
                        game.state = GameState::Init;
                        fx.push(Effect::Reset);
                    } else if input.clicked == Some(1usize) {
                        game.reset();
                        game.buttons = None;
                        game.state = GameState::Load;
                        fx.push(Effect::Reset);
                    } else if input.clicked == Some(2usize) {
                        game.reset();
                        game.running = false;
                        fx.push(Effect::Reset);
                    }
                },
            }
        },
        GameState::Pause => {
            match game.buttons {
                None => {
                    game.buttons = Some(Menu::Pause);
                },
                Some(_) => {
                    if input.clicked == Some(0usize) {
                        game.buttons = None;
                        game.state = GameState::Update;
                        fx.push(Effect::ClearBlur);
                    } else if input.clicked == Some(1usize) {
                        game.buttons = None;
                        game.state = GameState::Settings;
                    } else if input.clicked == Some(2usize) {
                        game.buttons = None;
                        game.state = GameState::Main;
                        fx.push(Effect::ClearBlur);
                    } else if input.clicked == Some(3usize) {
                        game.running = false;
                    }
                },
            }
        },
        GameState::Settings => {
            match game.toggle_buttons {
                None => {
                    game.toggle_buttons = Some(game.settings.rotation);
                },
                Some(on) => {
                    if input.toggle_clicked {
                        game.toggle_buttons = Some(!on);
                        game.settings.rotation = !on;
                    }
                },
            }
            match game.buttons {
                None => {
                    game.buttons = Some(Menu::Settings);
                },
                Some(_) => {
                    if input.clicked == Some(0usize) {
                        game.buttons = None;
                        game.toggle_buttons = None;
                        game.state = GameState::Update;
                    } else if input.clicked == Some(1usize) {
                        game.running = false;
                    }
                },
            }
            if input.key_p_pressed {
                game.toggle_buttons = None;
                game.state = GameState::Update;
            } else if input.key_r_pressed {
                game.reset();
                fx.push(Effect::Reset);
            }
        },
    }
    proof {
        let (post, effects) = frame_spec(old(game)@, *input, coin as int);
        assert(fx@ =~= effects);
    }
    fx
}

/// One frame of the rules: when the next block is prepared, a coin flip from
/// the random number generator picks its start direction.
pub fn update_game_state(game: &mut Game, input: &FrameInput) -> (fx: Vec<Effect>)
    requires
        frame_ok(old(game)@, *input),
    ensures
        exists|coin: int|
            0 <= coin <= 1 && (final(game)@, fx@) == #[trigger] frame_spec(
                old(game)@,
                *input,
                coin,
            ),
        wf(old(game)@) ==> wf(final(game)@),
{
    let coin = if game.state == GameState::Ready {
        flip_coin()
    } else {
        1
    };
    advance(game, input, coin)
}

impl Game {
    /// Takes the result of `Effect::TrimBlock`: whether the dropped block
    /// overlapped the top of the tower.
    pub fn finish_trim(&mut self, fits: bool)
        requires
            old(self).state == GameState::Playing,
            old(self).current_block is Some,
            old(self).score < i32::MAX,
        ensures
            final(self)@ == trim_spec(old(self)@, fits),
            wf(old(self)@) ==> wf(final(self)@),
    {
        proof {
            if wf(old(self)@) {
                lemma_trim_keeps_wf(old(self)@, fits);
            }
        }
        let block = self.current_block.take();
        if let Some(b) = block {
            if fits {
                self.push(b);
                self.score = self.score + 1;
                self.current_block = None;
                self.state = GameState::Ready;
            } else {
                self.buttons = None;
                self.state = GameState::Save;
            }
        }
    }

    /// Takes the result of `Effect::LoadUserData`: the saved high score.
    pub fn finish_load(&mut self, high_score: i32)
        ensures
            final(self)@ == (GameView {
                high_score,
                state: GameState::Init,
                ..old(self)@
            }),
            wf(old(self)@) && old(self).state == GameState::Load ==> wf(final(self)@),
    {
        proof {
            if wf(old(self)@) && old(self).state == GameState::Load {
                lemma_load_keeps_wf(old(self)@, high_score);
            }
        }
        self.high_score = high_score;
        self.state = GameState::Init;
    }
}

/// The invariant every game keeps between frames: the score counts the
/// blocks laid on the base block; a new tower is about to be laid exactly in
/// `Init` and `Load`; the states of a running tower have one; each menu state
/// shows its own buttons or none; saving starts with no buttons; and at game
/// over the high score is at least the score.
pub open spec fn wf(g: GameView) -> bool {
    &&& g.score >= 0
    &&& g.blocks.len() == g.score + 1 || (g.blocks.len() == 0 && g.score == 0)
    &&& (g.state == GameState::Init || g.state == GameState::Load) ==> g.blocks.len() == 0
    &&& (g.state != GameState::Init && g.state != GameState::Load && g.state != GameState::Main)
        ==> g.blocks.len() >= 1
    &&& g.state == GameState::Main ==> (g.buttons is None || g.buttons == Some(Menu::Main))
    &&& g.state == GameState::GameOver ==> (g.buttons is None || g.buttons == Some(
        Menu::GameOver,
    ))
    &&& g.state == GameState::Pause ==> (g.buttons is None || g.buttons == Some(Menu::Pause))
    &&& g.state == GameState::Settings ==> (g.buttons is None || g.buttons == Some(
        Menu::Settings,
    ))
    &&& g.state == GameState::Save ==> g.buttons is None
    &&& g.state == GameState::GameOver ==> g.high_score >= g.score
}

/// A new game keeps the invariant.
pub proof fn lemma_new_wf()
    ensures
        wf(
            GameView {
                running: true,
                blocks: Seq::empty(),
                current_block: None,
                state: GameState::Main,
                over: false,
                score: 0,
                high_score: 0,
                buttons: None,
                toggle_buttons: None,
                settings: Settings { rotation: false },
            },
        ),
{
}

/// A reset game keeps the invariant, whatever it was before.
pub proof fn lemma_reset_wf(g: GameView)
    ensures
        wf(reset_view(g)),
{
}

/// Under the invariant, a frame whose click (if any) is on a shown button
/// runs without failing, as long as the tower is within the colour rule's
/// range.
pub proof fn lemma_wf_frame_ok(g: GameView, input: FrameInput)
    requires
        wf(g),
        g.blocks.len() <= max_tower(),
        input.clicked matches Some(k) ==> (g.buttons matches Some(m) && k < m.spec_len()),
    ensures
        frame_ok(g, input),
{
}

/// Every frame keeps the invariant.
pub proof fn lemma_frame_keeps_wf(g: GameView, input: FrameInput, coin: int)
    requires
        wf(g),
        frame_ok(g, input),
        0 <= coin <= 1,
    ensures
        wf(frame_spec(g, input, coin).0),
{
    let post = frame_spec(g, input, coin).0;
    match g.state {
        GameState::Init => {},
        GameState::Ready => {},
        GameState::Update => {},
        GameState::Playing => {},
        GameState::GameOver => {
            lemma_reset_wf(GameView { over: true, ..g });
        },
        GameState::Save => {},
        GameState::Load => {},
        GameState::Main => {
            lemma_reset_wf(g);
        },
        GameState::Pause => {},
        GameState::Settings => {
            let g1 = match g.toggle_buttons {
                None => GameView { toggle_buttons: Some(g.settings.rotation), ..g },
                Some(on) => if input.toggle_clicked {
                    GameView {
                        toggle_buttons: Some(!on),
                        settings: Settings { rotation: !on },
                        ..g
                    }
                } else {
                    g
                },
            };
            let g2 = if g1.buttons is None {
                GameView { buttons: Some(Menu::Settings), ..g1 }
            } else if input.clicked == Some(0usize) {
                GameView {
                    buttons: None,
                    toggle_buttons: None,
                    state: GameState::Update,
                    ..g1
                }
            } else if input.clicked == Some(1usize) {
                GameView { running: false, ..g1 }
            } else {
                g1
            };
            lemma_reset_wf(g2);
        },
    }
}

/// Reporting a trim keeps the invariant.
pub proof fn lemma_trim_keeps_wf(g: GameView, fits: bool)
    requires
        wf(g),
        g.state == GameState::Playing,
        g.current_block is Some,
        g.score < i32::MAX,
    ensures
        wf(trim_spec(g, fits)),
{
}

/// Reporting the loaded high score keeps the invariant.
pub proof fn lemma_load_keeps_wf(g: GameView, high_score: i32)
    requires
        wf(g),
        g.state == GameState::Load,
    ensures
        wf(GameView { high_score, state: GameState::Init, ..g }),
{
}

/// Pausing and resuming changes nothing of the game in play: from a sliding
/// block, a click on the first button pauses, the next frame shows the pause
/// menu, and a click on Resume returns to the slide with the same tower,
/// block, score, high score and settings. The blur background is captured
/// on the way in and dropped on the way out.
pub proof fn lemma_pause_resume(g: GameView, pause: FrameInput, show: FrameInput, resume: FrameInput)
    requires
        g.state == GameState::Update,
        g.buttons is Some,
        g.current_block is Some,
        pause.clicked == Some(0usize),
        !pause.space_pressed,
        show.clicked is None,
        resume.clicked == Some(0usize),
    ensures
        ({
            let (g1, fx1) = frame_spec(g, pause, 1);
            let (g2, fx2) = frame_spec(g1, show, 1);
            let (g3, fx3) = frame_spec(g2, resume, 1);
            &&& g1.state == GameState::Pause
            &&& fx1 == seq![Effect::CaptureBlur, Effect::MoveBlock]
            &&& g2.buttons == Some(Menu::Pause)
            &&& fx3 == seq![Effect::ClearBlur]
            &&& g3.state == GameState::Update
            &&& g3.blocks == g.blocks
            &&& g3.current_block == g.current_block
            &&& g3.score == g.score
            &&& g3.high_score == g.high_score
            &&& g3.settings == g.settings
            &&& g3.running == g.running
        }),
{
    let (g1, fx1) = frame_spec(g, pause, 1);
    assert(fx1 =~= seq![Effect::CaptureBlur, Effect::MoveBlock]);
}

/// Clicking the rotation toggle twice leaves the rotation setting as it was.
pub proof fn lemma_toggle_twice(g: GameView, click: FrameInput)
    requires
        g.state == GameState::Settings,
        g.toggle_buttons is Some,
        g.toggle_buttons->0 == g.settings.rotation,
        click.toggle_clicked,
        click.clicked is None,
        !click.key_p_pressed,
        !click.key_r_pressed,
    ensures
        ({
            let (g1, _) = frame_spec(g, click, 1);
            let (g2, _) = frame_spec(g1, click, 1);
            &&& g1.settings.rotation == !g.settings.rotation
            &&& g2.settings == g.settings
            &&& g2.toggle_buttons == g.toggle_buttons
        }),
{
}

/// After saving, the high score is the better of the old high score and the
/// score, and the user-data file is written exactly when the score is at
/// least the old high score.
pub proof fn lemma_save_keeps_best(g: GameView, input: FrameInput)
    requires
        g.state == GameState::Save,
    ensures
        ({
            let (g1, fx) = frame_spec(g, input, 1);
            &&& g1.state == GameState::GameOver
            &&& g1.high_score >= g.score
            &&& g1.high_score >= g.high_score
            &&& (g1.high_score == g.score || g1.high_score == g.high_score)
            &&& fx.contains(Effect::SaveUserData(g.score)) <==> g.score >= g.high_score
            &&& fx.last() == Effect::SaveSettings
        }),
{
    let (g1, fx) = frame_spec(g, input, 1);
    if g.score >= g.high_score {
        assert(fx[0] == Effect::SaveUserData(g.score));
    } else {
        assert(fx =~= seq![Effect::SaveSettings]);
    }
}

/// The block prepared in a `Ready` frame: its colour is the base block's
/// colour with each channel moved by 9 per block of the tower, bouncing
/// within `0..=255` as `safe_u8_add` does, whatever the colours of the blocks
/// above the base; it is opaque; it slides along the other axis than the top
/// block; it starts backward exactly when the coin shows 0. The tower and
/// the score stay, and the block slides next.
pub proof fn lemma_ready_spawns_next_block(g: GameView, input: FrameInput, coin: int)
    requires
        g.state == GameState::Ready,
        g.blocks.len() >= 1,
        0 <= coin <= 1,
    ensures
        ({
            let (post, fx) = frame_spec(g, input, coin);
            let n = g.blocks.len() as int;
            let base = g.blocks[0].color;
            &&& post.current_block is Some
            &&& post.current_block->0.color.r as int == reflect_u8(base.r as int, 9 * n)
            &&& post.current_block->0.color.g as int == reflect_u8(base.g as int, 9 * n)
            &&& post.current_block->0.color.b as int == reflect_u8(base.b as int, 9 * n)
            &&& post.current_block->0.color.a == 255
            &&& post.current_block->0.movement.axis != g.blocks.last().movement.axis
            &&& (post.current_block->0.movement.direction == Direction::Backward <==> coin == 0)
            &&& post.blocks == g.blocks
            &&& post.score == g.score
            &&& post.high_score == g.high_score
            &&& post.state == GameState::Update
            &&& fx == seq![Effect::SpawnBlock]
        }),
{
    let n = g.blocks.len() as int;
    let base = g.blocks[0].color;
    lemma_safe_u8_add_bounces(base.r as int, 9 * n);
    lemma_safe_u8_add_bounces(base.g as int, 9 * n);
    lemma_safe_u8_add_bounces(base.b as int, 9 * n);
}

/// The rotation toggle on screen always shows the rotation setting: if it
/// does before a frame, it does after it.
pub proof fn lemma_toggle_shows_rotation(g: GameView, input: FrameInput, coin: int)
    requires
        g.toggle_buttons matches Some(on) ==> on == g.settings.rotation,
    ensures
        ({
            let post = frame_spec(g, input, coin).0;
            post.toggle_buttons matches Some(on) ==> on == post.settings.rotation
        }),
{
}

/// Opening the settings screen shows the toggle set to the rotation setting
/// and changes no setting; afterwards one click on the toggle flips the
/// setting.
pub proof fn lemma_settings_toggle(g: GameView, input: FrameInput, coin: int)
    requires
        g.state == GameState::Settings,
        input.clicked is None,
        !input.key_p_pressed,
        !input.key_r_pressed,
    ensures
        ({
            let post = frame_spec(g, input, coin).0;
            &&& g.toggle_buttons is None ==> post.toggle_buttons == Some(g.settings.rotation)
                && post.settings == g.settings
            &&& (g.toggle_buttons == Some(g.settings.rotation) && input.toggle_clicked)
                ==> post.settings.rotation == !g.settings.rotation
            &&& (g.toggle_buttons is Some && !input.toggle_clicked) ==> post.settings
                == g.settings
        }),
{
}

/// Only saving changes the high score: every frame in any other state keeps
/// it, and so do `finish_trim` and a reset.
pub proof fn lemma_high_score_kept(g: GameView, input: FrameInput, coin: int, fits: bool)
    ensures
        g.state != GameState::Save ==> frame_spec(g, input, coin).0.high_score == g.high_score,
        g.current_block is Some ==> trim_spec(g, fits).high_score == g.high_score,
{
}

/// A frame that resets the game ends with a fresh game: no tower, no block,
/// score 0, no buttons and no toggle on screen, about to lay or load a new
/// tower, with the high score kept.
pub proof fn lemma_reset_frames_start_fresh(g: GameView, input: FrameInput, coin: int)
    ensures
        ({
            let (post, fx) = frame_spec(g, input, coin);
            fx.contains(Effect::Reset) ==> {
                &&& post.blocks.len() == 0
                &&& post.current_block is None
                &&& post.score == 0
                &&& !post.over
                &&& post.buttons is None
                &&& post.toggle_buttons is None
                &&& post.high_score == g.high_score
                &&& (post.state == GameState::Init || post.state == GameState::Load)
            }
        }),
{
    let (post, fx) = frame_spec(g, input, coin);
    if fx.contains(Effect::Reset) {
        let k = choose|k: int| 0 <= k < fx.len() && fx[k] == Effect::Reset;
        assert(fx[k] == Effect::Reset);
    }
}

/// What a frame never changes on its own: the score (it grows only through
/// `finish_trim` and drops to 0 only on a reset), the tower (it grows only by
/// the base block in `Init`), the settings (they change only by a click on
/// the toggle), and a game that has quit does not start running again.
pub proof fn lemma_frame_keeps_progress(g: GameView, input: FrameInput, coin: int)
    ensures
        ({
            let (post, fx) = frame_spec(g, input, coin);
            &&& !fx.contains(Effect::Reset) ==> post.score == g.score
            &&& (!fx.contains(Effect::Reset) && g.state != GameState::Init) ==> post.blocks
                == g.blocks
            &&& g.state == GameState::Init ==> post.blocks == g.blocks.push(base_block())
            &&& (g.state != GameState::Settings || !input.toggle_clicked) ==> post.settings
                == g.settings
            &&& post.running ==> g.running
        }),
{
    let (post, fx) = frame_spec(g, input, coin);
    if fx.contains(Effect::Reset) {
        let k = choose|k: int| 0 <= k < fx.len() && fx[k] == Effect::Reset;
        assert(fx[k] == Effect::Reset);
    }
    if fx.len() > 0 && fx[fx.len() - 1] == Effect::Reset {
        assert(fx.contains(Effect::Reset));
    }
}

} // verus!
