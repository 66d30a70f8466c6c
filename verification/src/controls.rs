//! The player's controls: which keys steer the ship, and what pressing and
//! releasing a key or an on-screen button does to a game.
use vstd::prelude::*;
use crate::game::GameState;
use crate::model::GameModel;

verus! {

/// What a key does.
#[derive(Clone, Copy, Debug, PartialEq, Eq, Structural)]
pub enum Control {
    Left,
    Right,
    Fire,
    Restart,
}

/// An on-screen button, held down to act.
#[derive(Clone, Copy, Debug, PartialEq, Eq, Structural)]
pub enum Button {
    Left,
    Fire,
    Right,
}

/// What the key of a given name does: the arrows or A and D steer, the space
/// bar fires, Enter or R restarts.
pub open spec fn key_control(key: Seq<char>) -> Option<Control> {
    if key == "ArrowLeft"@ || key == "a"@ || key == "A"@ {
        Some(Control::Left)
    } else if key == "ArrowRight"@ || key == "d"@ || key == "D"@ {
        Some(Control::Right)
    } else if key == " "@ || key == "Spacebar"@ {
        Some(Control::Fire)
    } else if key == "Enter"@ || key == "r"@ || key == "R"@ {
        Some(Control::Restart)
    } else {
        None
    }
}

/// Whether two strings are equal.
fn same_text(a: &str, b: &str) -> (r: bool)
    ensures
        r == (a@ == b@),
{
    let x = a.to_owned();
    let y = b.to_owned();
    x == y
}

/// What the key of a given name does, if anything.
pub fn control_for_key(key: &str) -> (c: Option<Control>)
    ensures
        c == key_control(key@),
{
    if same_text(key, "ArrowLeft") || same_text(key, "a") || same_text(key, "A") {
        Some(Control::Left)
    } else if same_text(key, "ArrowRight") || same_text(key, "d") || same_text(key, "D") {
        Some(Control::Right)
    } else if same_text(key, " ") || same_text(key, "Spacebar") {
        Some(Control::Fire)
    } else if same_text(key, "Enter") || same_text(key, "r") || same_text(key, "R") {
        Some(Control::Restart)
    } else {
        None
    }
}

impl GameModel {
    /// The game after a key is pressed: a direction or the trigger is held;
    /// restarting starts a new game once the game is over.
    pub open spec fn press(self, c: Option<Control>) -> GameModel {
        match c {
            Some(Control::Left) => GameModel { left: true, ..self },
            Some(Control::Right) => GameModel { right: true, ..self },
            Some(Control::Fire) => GameModel { fire: true, ..self },
            Some(Control::Restart) => if self.over {
                self.reset()
            } else {
                self
            },
            None => self,
        }
    }

    /// The game after a key is released: the direction or trigger is let go.
    pub open spec fn release(self, c: Option<Control>) -> GameModel {
        match c {
            Some(Control::Left) => GameModel { left: false, ..self },
            Some(Control::Right) => GameModel { right: false, ..self },
            Some(Control::Fire) => GameModel { fire: false, ..self },
            _ => self,
        }
    }

    /// The game after a button is pressed: the steering buttons hold a
    /// direction; the fire button holds the trigger, or starts a new game
    /// once the game is over.
    pub open spec fn button_down(self, b: Button) -> GameModel {
        match b {
            Button::Left => GameModel { left: true, ..self },
            Button::Right => GameModel { right: true, ..self },
            Button::Fire => if self.over {
                self.reset()
            } else {
                GameModel { fire: true, ..self }
            },
        }
    }

    /// The game after a button is let go, or the pointer leaves it.
    pub open spec fn button_up(self, b: Button) -> GameModel {
        match b {
            Button::Left => GameModel { left: false, ..self },
            Button::Right => GameModel { right: false, ..self },
            Button::Fire => GameModel { fire: false, ..self },
        }
    }
}

impl GameState {
    /// Handles a key going down; tells whether the key is one of the game's.
    pub fn key_down(&mut self, key: &str) -> (handled: bool)
        ensures
            handled == key_control(key@) is Some,
            final(self)@ == old(self)@.press(key_control(key@)),
            old(self).wf() ==> final(self).wf(),
    {
        match control_for_key(key) {
            Some(Control::Left) => {
                self.left = true;
                proof { assert(self@ =~= old(self)@.press(key_control(key@))); }
                true
            },
            Some(Control::Right) => {
                self.right = true;
                proof { assert(self@ =~= old(self)@.press(key_control(key@))); }
                true
            },
            Some(Control::Fire) => {
                self.fire = true;
                proof { assert(self@ =~= old(self)@.press(key_control(key@))); }
                true
            },
            Some(Control::Restart) => {
                if self.over {
                    self.reset();
                }
                true
            },
            None => false,
        }
    }

    /// Handles a key going up.
    pub fn key_up(&mut self, key: &str)
        ensures
            final(self)@ == old(self)@.release(key_control(key@)),
            old(self).wf() ==> final(self).wf(),
    {
        match control_for_key(key) {
            Some(Control::Left) => self.left = false,
            Some(Control::Right) => self.right = false,
            Some(Control::Fire) => self.fire = false,
            _ => {},
        }
        proof { assert(self@ =~= old(self)@.release(key_control(key@))); }
    }

    /// Handles a pointer going down on a button.
    pub fn pointer_down(&mut self, button: Button)
        ensures
            final(self)@ == old(self)@.button_down(button),
            old(self).wf() ==> final(self).wf(),
    {
        match button {
            Button::Left => self.left = true,
            Button::Right => self.right = true,
            Button::Fire => {
                if self.over {
                    self.reset();
                } else {
                    self.fire = true;
                }
            },
        }
        proof { assert(self@ =~= old(self)@.button_down(button)); }
    }

    /// Handles a pointer going up on a button, being cancelled, or leaving it.
    pub fn pointer_up(&mut self, button: Button)
        ensures
            final(self)@ == old(self)@.button_up(button),
            old(self).wf() ==> final(self).wf(),
    {
        match button {
            Button::Left => self.left = false,
            Button::Right => self.right = false,
            Button::Fire => self.fire = false,
        }
        proof { assert(self@ =~= old(self)@.button_up(button)); }
    }
}

} // verus!
