pub mod host_port;
pub use host_port::{is_unix_socket_address, next_connection_id};
