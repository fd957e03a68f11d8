use vstd::prelude::*;

verus! {

/// Packed button state of one controller for one frame.
#[derive(Clone, Copy, Debug, Default, PartialEq, Eq, Structural)]
pub struct Buttons {
    pub bits: u32,
}

/// Input snapshot delivered to the console once per frame.
#[derive(Clone, Copy, Debug, Default, PartialEq, Eq, Structural)]
pub struct InputState {
    pub buttons: Buttons,
}

/// Rolling record of one player's input: the snapshot of the current frame
/// and the button state of the frame before it.
#[derive(Clone, Copy, Debug, Default, PartialEq, Eq, Structural)]
pub struct PlayerInputEntry {
    pub previous: Buttons,
    pub current: InputState,
}

impl PlayerInputEntry {
    /// Advances the record by one frame: the buttons of the current snapshot
    /// become the previous state, and the new snapshot becomes current.
    pub fn push_input_state(&mut self, next_state: InputState)
        ensures
            final(self).previous == old(self).current.buttons,
            final(self).current == next_state,
    {
        self.previous = self.current.buttons;
        self.current = next_state;
    }
}

} // verus!
