mod byte_vec;
pub mod encoding;
pub mod socket_reader;
pub mod tcp_client;
pub mod tcp_connection;
pub mod tcp_contract;
pub mod tcp_socket_serializer;
pub mod tcp_sockets_settings;
pub mod tcp_write_buffer;
pub mod threads_statistics;

pub use tcp_contract::TcpContract;
pub use tcp_socket_serializer::{TcpSerializerMetadata, TcpSerializerState};
pub use tcp_sockets_settings::TlsSettings;
pub use tcp_write_buffer::TcpWriteBuffer;
pub use threads_statistics::{ThreadAmount, ThreadsStatistics};

use vstd::prelude::*;

verus! {

/// The id of a connection, unique within the process.
pub type ConnectionId = i32;

} // verus!
