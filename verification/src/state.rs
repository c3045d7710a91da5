//! The top-level game mode.

use vstd::prelude::*;

verus! {

/// The mode the game is in, driving which per-frame systems are active.
#[derive(Clone, Copy, Debug, PartialEq, Eq, Hash, Structural)]
pub enum GameState {
    /// The entry mode; immediately advances to scene loading.
    Menu,
    /// The scene (ground, ball, light, camera, sensors) is being spawned.
    SceneLoading,
    /// The gameplay systems run.
    InGame,
}

impl Default for GameState {
    /// A fresh game starts in the menu.
    fn default() -> (s: GameState)
        ensures
            s == GameState::Menu,
    {
        GameState::Menu
    }
}

/// Entering the menu starts the game at once: there is no idle menu, the
/// state advances straight to scene loading.
pub fn auto_start_game_on_menu() -> (s: GameState)
    ensures
        s == GameState::SceneLoading,
{
    GameState::SceneLoading
}

/// Once scene loading has completed its spawns, play begins.
pub fn move_to_in_game() -> (s: GameState)
    ensures
        s == GameState::InGame,
{
    GameState::InGame
}

} // verus!
