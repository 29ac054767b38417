use vstd::prelude::*;

verus! {

/// How a client secures its connection.
#[derive(Debug, Clone)]
pub struct TlsSettings {
    pub server_name: String,
    /// DANGER: when `true` the client accepts ANY server certificate (self-signed, expired,
    /// hostname mismatch) and does not verify handshake signatures, so a MITM is not detected.
    /// Use only for endpoints trusted out-of-band. [`TlsSettings::new`] sets it to `false`.
    pub accept_invalid_certs: bool,
}

impl TlsSettings {
    /// Settings that verify the server's certificate for `server_name`.
    pub fn new(server_name: String) -> (result: Self)
        ensures
            result.server_name@ == server_name@,
            !result.accept_invalid_certs,
    {
        Self { server_name, accept_invalid_certs: false }
    }
}

} // verus!
