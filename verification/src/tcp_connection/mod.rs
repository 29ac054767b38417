pub mod buffer_to_send_wrapper;
pub mod connection_statistics;
pub mod keep_alive;
pub mod one_second_metric;
pub mod tcp_buffer_to_send;
pub mod tcp_connection_states;
pub mod tcp_payloads;
pub mod tcp_thread_status;
pub use buffer_to_send_wrapper::BufferToSendWrapper;
pub use connection_statistics::ConnectionStatistics;
pub use keep_alive::{
    any_thread_finished, check_connection, client_keep_alive_tick, DeadConnectionVerdict,
    KeepAliveAction, PingCountdown,
};
pub use one_second_metric::OneSecondMetric;
pub use tcp_buffer_to_send::{
    BufferInStack, TcpBufferChunk, TcpBufferToSend,
};
pub use tcp_connection_states::TcpConnectionStates;
pub use tcp_payloads::TcpPayloads;
pub use tcp_thread_status::TcpThreadStatus;
