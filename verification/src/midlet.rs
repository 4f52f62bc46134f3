//! `Container/GameMIDlet` — the application's lifecycle. Booting wires the
//! host's display and clock to the game and is the host's part; quitting is
//! the game's.
use crate::canvas_m::run::m_stop;
use crate::game::{Lifecycle, M};
use vstd::prelude::*;

verus! {

/// `GameMIDlet.quit()` — stop the game loop (`m.b()`): raise the quit flag
/// and enter state 100. Telling the application manager is the host's part.
pub fn quit(m: &mut M)
    ensures
        *final(m) == (M {
            lifecycle: Lifecycle { quit_flag: true, g: 100, ..old(m).lifecycle },
            ..*old(m)
        }),
{
    m_stop(m);
}

} // verus!
