use vstd::prelude::*;

pub mod audio;
pub mod auth;
pub mod cli;
pub mod invite;
pub mod logo;
pub mod net;
pub mod proto;
pub mod room;
pub mod text;
pub mod ui;

verus! {

} // verus!
