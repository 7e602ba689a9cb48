//! The per-chat dialogue states: idle, or waiting for the user to send an
//! account address for one of the three address-taking commands.

use vstd::prelude::*;

verus! {

/// The idle state: the next message is expected to be a command.
#[derive(Debug, PartialEq, Eq, Structural, Clone, Copy)]
pub struct StartState;

/// Which command the awaited address is for.
#[derive(Debug, PartialEq, Eq, Structural, Clone, Copy)]
pub enum ReceiveAddressState {
    Balance,
    Subscribe,
    Unsubscribe,
}

/// One chat's dialogue position.
#[derive(Debug, PartialEq, Eq, Structural, Clone, Copy)]
pub enum Dialogue {
    Start(StartState),
    ReceiveAddress(ReceiveAddressState),
}

impl Default for Dialogue {
    /// A fresh dialogue is idle.
    fn default() -> (r: Self)
        ensures
            r == Dialogue::Start(StartState),
    {
        Dialogue::Start(StartState)
    }
}

} // verus!
