use vstd::prelude::*;

verus! {

/// Per-connection state that some incoming contracts update.
pub trait TcpSerializerState<TContract> {
    /// Whether `contract` updates the state, so the caller knows to take the
    /// connection's lock before applying it.
    fn is_tcp_contract_related_to_metadata(&self, contract: &TContract) -> bool;

    fn apply_tcp_contract(&mut self, contract: &TContract);
}

/// Per-connection metadata that some incoming contracts update.
pub trait TcpSerializerMetadata<TContract> {
    fn is_tcp_contract_related_to_metadata(&self, contract: &TContract) -> bool;

    fn apply_tcp_contract(&mut self, contract: &TContract);
}

} // verus!
