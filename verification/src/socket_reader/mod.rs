pub mod error;
pub mod my_read_buffer;
pub mod packet_search;
pub mod read_buffer;
pub mod socket_reader_mock;
pub use error::ReadingTcpContractFail;
pub use my_read_buffer::MyReadBuffer;
pub use packet_search::{commit_read_and_search, search_end_marker};
pub use read_buffer::{arrays_are_equal, ReadBuffer};
pub use socket_reader_mock::SocketReaderMock;
