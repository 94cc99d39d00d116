use vstd::prelude::*;

verus! {

/// The screens the game moves between.
#[derive(Clone, Copy, Debug, PartialEq, Eq, Hash, Structural)]
pub enum AppState {
    MainMenu,
    PauseMenu,
    LoadLevel,
    Game,
    GameOver,
}

/// A button of the menus.
#[derive(Clone, Copy, Debug, PartialEq, Eq, Structural)]
pub enum MenuChoice {
    Start,
    Resume,
    Retry,
    MainMenu,
    Exit,
}

impl AppState {
    pub fn initial() -> (r: AppState)
        ensures
            r == AppState::MainMenu,
    {
        AppState::MainMenu
    }
}

/// The state to move to when the menu key is pressed: only a running game
/// pauses.
pub fn pause_unpause_game(state: AppState, menu_pressed: bool) -> (r: Option<AppState>)
    ensures
        r == (if state == AppState::Game && menu_pressed {
            Some(AppState::PauseMenu)
        } else {
            None
        }),
{
    if state == AppState::Game && menu_pressed {
        Some(AppState::PauseMenu)
    } else {
        None
    }
}

/// The state a menu button leads to; `None` for leaving the program.
pub fn menu_target(choice: MenuChoice) -> (r: Option<AppState>)
    ensures
        r == match choice {
            MenuChoice::Start => Some(AppState::LoadLevel),
            MenuChoice::Resume => Some(AppState::Game),
            MenuChoice::Retry => Some(AppState::LoadLevel),
            MenuChoice::MainMenu => Some(AppState::MainMenu),
            MenuChoice::Exit => None,
        },
{
    match choice {
        MenuChoice::Start => Some(AppState::LoadLevel),
        MenuChoice::Resume => Some(AppState::Game),
        MenuChoice::Retry => Some(AppState::LoadLevel),
        MenuChoice::MainMenu => Some(AppState::MainMenu),
        MenuChoice::Exit => None,
    }
}

/// Whether physics and cursor capture must be switched, given whether they
/// were last set for a game in progress (`None`: never set). Returns the
/// setting to apply, once per change.
pub fn enable_disable_when_in_game_or_not(already_in_game: Option<bool>, state: AppState) -> (r:
    Option<bool>)
    ensures
        r == (if already_in_game == Some(state == AppState::Game) {
            None
        } else {
            Some(state == AppState::Game)
        }),
{
    let in_game = state == AppState::Game;
    match already_in_game {
        Some(v) => if v == in_game {
            None
        } else {
            Some(in_game)
        },
        None => Some(in_game),
    }
}

} // verus!
