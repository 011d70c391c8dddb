use vstd::prelude::*;

pub mod cli;
pub mod crypto;
pub mod digits;
pub mod display;
pub mod encoding;
pub mod gui;
pub mod entropy;
pub mod p2p;
pub mod protocol;
pub mod session;
pub mod storage;
pub mod tui;

verus! {
} // verus!
