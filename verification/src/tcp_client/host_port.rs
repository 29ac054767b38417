use vstd::prelude::*;
use vstd::string::StringSliceAdditionalSpecFns;

verus! {

pub const LOG_PROCESS: &'static str = "Tcp Client Connect";

/// The address names a Unix domain socket: it starts with `/` or `~`.
pub open spec fn names_unix_socket(host_port: Seq<u8>) -> bool {
    host_port.len() > 0 && (host_port[0] == 0x2fu8 || host_port[0] == 0x7eu8)
}

/// Whether a client connects to `host_port` through a Unix domain socket
/// rather than TCP.
pub fn is_unix_socket_address(host_port: &str) -> (r: bool)
    ensures
        r == names_unix_socket(host_port.spec_bytes()),
        r == (host_port.spec_bytes().len() > 0 && (host_port.spec_bytes()[0] == 0x2fu8
            || host_port.spec_bytes()[0] == 0x7eu8)),
{
    let bytes = host_port.as_bytes();
    bytes.len() > 0 && (bytes[0] == 0x2fu8 || bytes[0] == 0x7eu8)
}

/// The id of the next connection attempt of a client.
pub fn next_connection_id(connection_id: i32) -> (r: i32)
    requires
        connection_id < i32::MAX,
    ensures
        r == connection_id + 1,
{
    connection_id + 1
}

/// An address is reached through a Unix domain socket exactly when its
/// first byte is `/` (0x2f) or `~` (0x7e); any other address, such as one that
/// starts with a letter or a digit ("localhost:8080", "10.0.0.1:80"), and
/// the empty one, are reached over TCP.
pub proof fn law_unix_socket_address_is_a_path(host_port: Seq<u8>)
    ensures
        names_unix_socket(host_port) <==> (host_port.len() > 0 && (host_port[0] == 0x2fu8
            || host_port[0] == 0x7eu8)),
        host_port.len() > 0 && (0x30u8 <= host_port[0] <= 0x39u8 || 0x41u8 <= host_port[0] <= 0x5au8
            || 0x61u8 <= host_port[0] <= 0x7au8) ==> !names_unix_socket(host_port),
{
}

} // verus!
