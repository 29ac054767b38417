use vstd::prelude::*;

verus! {

/// The application state that a connection's send loop runs under: always
/// initialized and never shutting down.
pub struct TcpConnectionStates {}

impl TcpConnectionStates {
    pub fn is_initialized(&self) -> (r: bool)
        ensures
            r,
    {
        true
    }

    pub fn is_shutting_down(&self) -> (r: bool)
        ensures
            !r,
    {
        false
    }
}

impl Default for TcpConnectionStates {
    fn default() -> (result: Self) {
        TcpConnectionStates {}
    }
}

} // verus!
