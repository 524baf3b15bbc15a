use vstd::prelude::*;

verus! {

/// The screens and modes the game moves between.
#[derive(Clone, Copy, PartialEq, Eq, Structural, Debug, Hash)]
pub enum GameState {
    Loading,
    MainMenu,
    InGame,
    Paused,
    Options,
    Instructions,
}

impl Default for GameState {
    /// The game starts out loading.
    fn default() -> (s: GameState)
        ensures
            s == GameState::Loading,
    {
        GameState::Loading
    }
}

/// Buttons on the menu screens.
#[derive(Clone, Copy, PartialEq, Eq, Structural, Debug)]
pub enum MenuButton {
    NewWorld,
    LoadWorld,
    Instructions,
    Options,
    Resume,
    SaveWorld,
    QuitToMenu,
    OptionsBack,
    InstructionsBack,
}

/// What pressing a button leads to: the state to switch to, if any, whether
/// the world should be saved, and whether the options screen should return
/// to the main menu when left.
#[derive(Clone, Copy, PartialEq, Eq, Structural, Debug)]
pub struct MenuOutcome {
    pub next: Option<GameState>,
    pub save_requested: bool,
    pub options_return_to_menu: bool,
}

/// The outcome of pressing `button` while in `state`; a button that does not
/// belong to the current screen does nothing.
pub open spec fn spec_press(state: GameState, button: MenuButton, has_save: bool, options_from: GameState) -> MenuOutcome {
    let none = MenuOutcome { next: None, save_requested: false, options_return_to_menu: false };
    match state {
        GameState::MainMenu => match button {
            MenuButton::NewWorld => MenuOutcome { next: Some(GameState::InGame), ..none },
            MenuButton::LoadWorld => if has_save { MenuOutcome { next: Some(GameState::InGame), ..none } } else { none },
            MenuButton::Instructions => MenuOutcome { next: Some(GameState::Instructions), ..none },
            MenuButton::Options => MenuOutcome { next: Some(GameState::Options), options_return_to_menu: true, ..none },
            _ => none,
        },
        GameState::Paused => match button {
            MenuButton::Resume => MenuOutcome { next: Some(GameState::InGame), ..none },
            MenuButton::SaveWorld => MenuOutcome { save_requested: true, ..none },
            MenuButton::QuitToMenu => MenuOutcome { next: Some(GameState::MainMenu), save_requested: true, ..none },
            _ => none,
        },
        GameState::Options => match button {
            MenuButton::OptionsBack => MenuOutcome { next: Some(options_from), ..none },
            _ => none,
        },
        GameState::Instructions => match button {
            MenuButton::InstructionsBack => MenuOutcome { next: Some(GameState::MainMenu), ..none },
            _ => none,
        },
        _ => none,
    }
}

/// Handle a pressed menu button: the main menu starts or loads a world (the
/// latter only when a save exists) or opens the instructions or options; the
/// pause menu resumes, saves, or saves and quits to the main menu; the back
/// buttons leave the options (to where they were opened from) and the
/// instructions (to the main menu).
pub fn press_button(state: GameState, button: MenuButton, has_save: bool, options_from: GameState) -> (o: MenuOutcome)
    ensures
        o == spec_press(state, button, has_save, options_from),
{
    let none = MenuOutcome { next: None, save_requested: false, options_return_to_menu: false };
    match state {
        GameState::MainMenu => match button {
            MenuButton::NewWorld => MenuOutcome { next: Some(GameState::InGame), ..none },
            MenuButton::LoadWorld => if has_save { MenuOutcome { next: Some(GameState::InGame), ..none } } else { none },
            MenuButton::Instructions => MenuOutcome { next: Some(GameState::Instructions), ..none },
            MenuButton::Options => MenuOutcome { next: Some(GameState::Options), options_return_to_menu: true, ..none },
            _ => none,
        },
        GameState::Paused => match button {
            MenuButton::Resume => MenuOutcome { next: Some(GameState::InGame), ..none },
            MenuButton::SaveWorld => MenuOutcome { save_requested: true, ..none },
            MenuButton::QuitToMenu => MenuOutcome { next: Some(GameState::MainMenu), save_requested: true, ..none },
            _ => none,
        },
        GameState::Options => match button {
            MenuButton::OptionsBack => MenuOutcome { next: Some(options_from), ..none },
            _ => none,
        },
        GameState::Instructions => match button {
            MenuButton::InstructionsBack => MenuOutcome { next: Some(GameState::MainMenu), ..none },
            _ => none,
        },
        _ => none,
    }
}

/// The state the escape key leads to: playing and paused swap, elsewhere it
/// does nothing.
pub open spec fn spec_on_escape(state: GameState) -> Option<GameState> {
    match state {
        GameState::InGame => Some(GameState::Paused),
        GameState::Paused => Some(GameState::InGame),
        _ => None,
    }
}

/// Where the escape key leads from `state`.
pub fn on_escape(state: GameState) -> (r: Option<GameState>)
    ensures
        r == spec_on_escape(state),
{
    match state {
        GameState::InGame => Some(GameState::Paused),
        GameState::Paused => Some(GameState::InGame),
        _ => None,
    }
}

/// Pressing escape twice from the game or the pause menu comes back to the
/// same state.
pub proof fn lemma_escape_twice(state: GameState)
    requires
        state == GameState::InGame || state == GameState::Paused,
    ensures
        spec_on_escape(state) matches Some(s) && spec_on_escape(s) == Some(state),
{
}

/// Leaving the options screen opened from the main menu returns to the main menu.
pub proof fn lemma_options_round_trip(has_save: bool)
    ensures
        spec_press(GameState::MainMenu, MenuButton::Options, has_save, GameState::MainMenu).next == Some(GameState::Options),
        spec_press(GameState::Options, MenuButton::OptionsBack, has_save, GameState::MainMenu).next == Some(GameState::MainMenu),
{
}

/// Pausing with escape and then pressing Resume returns to the game, with
/// nothing saved, whatever else holds.
pub proof fn lemma_pause_then_resume(has_save: bool, options_from: GameState)
    ensures
        spec_on_escape(GameState::InGame) == Some(GameState::Paused),
        spec_press(GameState::Paused, MenuButton::Resume, has_save, options_from).next == Some(GameState::InGame),
        !spec_press(GameState::Paused, MenuButton::Resume, has_save, options_from).save_requested,
{
}

/// The game is entered only by starting a new world, by loading one when a
/// save exists, or by resuming from the pause menu; and each of these does
/// enter it.
pub proof fn lemma_entering_the_game(state: GameState, button: MenuButton, has_save: bool, options_from: GameState)
    requires
        options_from != GameState::InGame,
    ensures
        spec_press(state, button, has_save, options_from).next == Some(GameState::InGame) <==> (
            (state == GameState::MainMenu && button == MenuButton::NewWorld)
            || (state == GameState::MainMenu && button == MenuButton::LoadWorld && has_save)
            || (state == GameState::Paused && button == MenuButton::Resume)
        ),
{
}

/// A save is requested exactly by the pause menu's Save World and Quit to
/// Menu buttons, and quitting also goes back to the main menu.
pub proof fn lemma_saving(state: GameState, button: MenuButton, has_save: bool, options_from: GameState)
    ensures
        spec_press(state, button, has_save, options_from).save_requested <==> (
            state == GameState::Paused && (button == MenuButton::SaveWorld || button == MenuButton::QuitToMenu)
        ),
        state == GameState::Paused && button == MenuButton::QuitToMenu
            ==> spec_press(state, button, has_save, options_from).next == Some(GameState::MainMenu),
        state == GameState::Paused && button == MenuButton::SaveWorld
            ==> spec_press(state, button, has_save, options_from).next is None,
{
}

/// The main menu's Instructions and Options buttons open those screens (the
/// options remembering to come back to the menu), and their Back buttons
/// leave them: the instructions to the main menu, the options to where they
/// were opened from.
pub proof fn lemma_side_screens(has_save: bool, options_from: GameState)
    ensures
        spec_press(GameState::MainMenu, MenuButton::Instructions, has_save, options_from).next == Some(GameState::Instructions),
        spec_press(GameState::Instructions, MenuButton::InstructionsBack, has_save, options_from).next == Some(GameState::MainMenu),
        spec_press(GameState::MainMenu, MenuButton::Options, has_save, options_from).next == Some(GameState::Options),
        spec_press(GameState::MainMenu, MenuButton::Options, has_save, options_from).options_return_to_menu,
        spec_press(GameState::Options, MenuButton::OptionsBack, has_save, options_from).next == Some(options_from),
{
}

/// A button that belongs to another screen does nothing, and in the game
/// itself and while loading no button does anything.
pub proof fn lemma_foreign_buttons(state: GameState, button: MenuButton, has_save: bool, options_from: GameState)
    requires
        state == GameState::InGame || state == GameState::Loading
            || (state == GameState::MainMenu && !(button == MenuButton::NewWorld || button == MenuButton::LoadWorld
                || button == MenuButton::Instructions || button == MenuButton::Options))
            || (state == GameState::Paused && !(button == MenuButton::Resume || button == MenuButton::SaveWorld
                || button == MenuButton::QuitToMenu))
            || (state == GameState::Options && button != MenuButton::OptionsBack)
            || (state == GameState::Instructions && button != MenuButton::InstructionsBack),
    ensures
        spec_press(state, button, has_save, options_from) == (MenuOutcome { next: None, save_requested: false, options_return_to_menu: false }),
{
}

/// First- or third-person view.
#[derive(Clone, Copy, PartialEq, Eq, Structural, Debug)]
pub enum CameraMode {
    FirstPerson,
    ThirdPerson,
}

impl Default for CameraMode {
    /// The view starts in first person.
    fn default() -> (m: CameraMode)
        ensures
            m == CameraMode::FirstPerson,
    {
        CameraMode::FirstPerson
    }
}

impl CameraMode {
    /// The other view; the toggle key switches to it.
    pub fn toggled(self) -> (m: CameraMode)
        ensures
            m != self,
            m == (if self == CameraMode::FirstPerson { CameraMode::ThirdPerson } else { CameraMode::FirstPerson }),
    {
        match self {
            CameraMode::FirstPerson => CameraMode::ThirdPerson,
            CameraMode::ThirdPerson => CameraMode::FirstPerson,
        }
    }

    /// Whether the player's own body model is shown: only in third person.
    pub fn shows_character(self) -> (r: bool)
        ensures
            r == (self == CameraMode::ThirdPerson),
    {
        matches!(self, CameraMode::ThirdPerson)
    }
}

} // verus!
