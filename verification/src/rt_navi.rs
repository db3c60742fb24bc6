//! Interactive application state: the few keys the receiver's front end
//! reacts to.

use vstd::prelude::*;

verus! {

/// State of the interactive session around the engine.
#[derive(Clone, Copy, PartialEq, Eq, Structural, Debug)]
pub struct RtNavi {
    pub should_quit: bool,
}

impl RtNavi {
    pub fn new() -> (r: RtNavi)
        ensures
            r.should_quit == false,
    {
        RtNavi { should_quit: false }
    }

    pub fn on_right_key_press(&mut self)
        ensures
            *final(self) == *old(self),
    {
    }

    pub fn on_left_key_press(&mut self)
        ensures
            *final(self) == *old(self),
    {
    }

    /// A quit key raises the quit flag; every other key leaves the state
    /// alone.
    pub fn on_key_press(&mut self, c: char)
        ensures
            final(self).should_quit == (if c == 'Q' || c == 'q' {
                true
            } else {
                old(self).should_quit
            }),
    {
        match c {
            'Q' | 'q' => {
                self.should_quit = true;
            },
            _ => {},
        }
    }
}

} // verus!
