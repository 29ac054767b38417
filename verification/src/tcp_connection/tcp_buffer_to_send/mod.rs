pub mod buffer_in_stack;
pub mod tcp_buffer_chunk;
pub mod tcp_buffer_to_send;
pub use buffer_in_stack::BufferInStack;
pub use tcp_buffer_chunk::TcpBufferChunk;
pub use tcp_buffer_to_send::TcpBufferToSend;
