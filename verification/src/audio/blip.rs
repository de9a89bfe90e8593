//! The interface's own voice: which sounds there are.
//!
//! Five sounds cut from one shape. Closing your microphone and closing your ears are
//! the same gesture an octave apart; up always means open and down always means
//! closed. The arrival chime sits above both. The waveforms are synthesised outside
//! the library.
use vstd::prelude::*;

verus! {

/// What the interface has to say.
#[derive(Debug, Clone, Copy, PartialEq, Eq, Structural)]
pub enum Blip {
    /// Someone arrived, or you moved between screens.
    Chime,
    /// Your microphone just closed.
    MicOff,
    /// Your microphone just opened.
    MicOn,
    /// You just stopped hearing the room.
    EarsOff,
    /// You can hear the room again.
    EarsOn,
}

} // verus!
