use vstd::prelude::*;

verus! {

/// The states the game moves through.
#[derive(Clone, Copy, Debug, PartialEq, Eq, Hash, Structural)]
pub enum GameState {
    MainMenu,
    Playing,
}

/// How the pointer is interacting with a button this frame.
#[derive(Clone, Copy, Debug, PartialEq, Eq, Structural)]
pub enum ButtonInteraction {
    Clicked,
    Hovered,
    Idle,
}

/// Which of the three button materials a button is drawn with.
#[derive(Clone, Copy, Debug, PartialEq, Eq, Structural)]
pub enum ButtonLook {
    Normal,
    Hovered,
    Pressed,
}

/// What a button of the main menu does when its interaction changes: the
/// look to draw it with, and the state to move the game to, if any.
#[derive(Clone, Copy, Debug, PartialEq, Eq, Structural)]
pub struct ButtonResponse {
    pub look: ButtonLook,
    pub next_state: Option<GameState>,
}

/// A click presses the button and starts the game; hovering highlights it;
/// otherwise it is drawn as normal.
pub fn button_response(interaction: ButtonInteraction) -> (response: ButtonResponse)
    ensures
        interaction == ButtonInteraction::Clicked ==> response == (ButtonResponse {
            look: ButtonLook::Pressed,
            next_state: Some(GameState::Playing),
        }),
        interaction == ButtonInteraction::Hovered ==> response == (ButtonResponse {
            look: ButtonLook::Hovered,
            next_state: None,
        }),
        interaction == ButtonInteraction::Idle ==> response == (ButtonResponse {
            look: ButtonLook::Normal,
            next_state: None,
        }),
{
    match interaction {
        ButtonInteraction::Clicked => ButtonResponse {
            look: ButtonLook::Pressed,
            next_state: Some(GameState::Playing),
        },
        ButtonInteraction::Hovered => ButtonResponse { look: ButtonLook::Hovered, next_state: None },
        ButtonInteraction::Idle => ButtonResponse { look: ButtonLook::Normal, next_state: None },
    }
}

} // verus!
