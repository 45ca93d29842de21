//! Which movement keys of the camera are held down.
use vstd::prelude::*;

verus! {

/// A key of the keyboard, as far as the camera cares.
#[derive(Clone, Copy, PartialEq, Eq, Structural, Debug)]
pub enum Key {
    W,
    S,
    A,
    D,
    Other,
}

/// The keys that move the camera: forward and backward, left and right.
#[derive(Clone, Copy, PartialEq, Eq, Debug)]
pub struct CameraController {
    /// Forward, backward.
    pub is_y_pressed: (bool, bool),
    /// Left, right.
    pub is_x_pressed: (bool, bool),
}

impl CameraController {
    /// A controller with no key held down.
    pub fn new() -> (r: CameraController)
        ensures
            r == (CameraController { is_y_pressed: (false, false), is_x_pressed: (false, false) }),
    {
        CameraController { is_y_pressed: (false, false), is_x_pressed: (false, false) }
    }

    /// The controller after `key` went down (`is_pressed`) or up.
    pub open spec fn after(self, key: Key, is_pressed: bool) -> CameraController {
        match key {
            Key::W => CameraController { is_y_pressed: (is_pressed, self.is_y_pressed.1), ..self },
            Key::S => CameraController { is_y_pressed: (self.is_y_pressed.0, is_pressed), ..self },
            Key::A => CameraController { is_x_pressed: (is_pressed, self.is_x_pressed.1), ..self },
            Key::D => CameraController { is_x_pressed: (self.is_x_pressed.0, is_pressed), ..self },
            Key::Other => self,
        }
    }

    /// Takes note of a key that went down or up, and says whether the key is one
    /// of the camera's.
    pub fn process_events(&mut self, key: Key, is_pressed: bool) -> (handled: bool)
        ensures
            *final(self) == old(self).after(key, is_pressed),
            handled == (key != Key::Other),
    {
        match key {
            Key::W => {
                self.is_y_pressed.0 = is_pressed;
                true
            },
            Key::S => {
                self.is_y_pressed.1 = is_pressed;
                true
            },
            Key::A => {
                self.is_x_pressed.0 = is_pressed;
                true
            },
            Key::D => {
                self.is_x_pressed.1 = is_pressed;
                true
            },
            Key::Other => false,
        }
    }
}

} // verus!
