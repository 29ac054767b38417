use vstd::prelude::*;

verus! {

/// A message of the application's protocol; the keep-alive loop needs to
/// tell pong replies apart.
pub trait TcpContract {
    fn is_pong(&self) -> bool;
}

} // verus!
