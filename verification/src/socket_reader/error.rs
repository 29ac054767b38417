use vstd::prelude::*;

verus! {

#[verifier::external_type_specification]
#[verifier::external_body]
pub struct ExIoError(std::io::Error);

#[verifier::external_type_specification]
#[verifier::external_body]
pub struct ExFromUtf8Error(std::string::FromUtf8Error);

/// Why a contract could not be read from a socket.
#[derive(Debug)]
pub enum ReadingTcpContractFail {
    SocketDisconnected,
    ErrorReadingSize,
    InvalidPacketId(u8),
    ParsingUtf8StringError(std::string::FromUtf8Error),
    IoError(std::io::Error),
    Timeout,
}

impl From<std::io::Error> for ReadingTcpContractFail {
    fn from(src: std::io::Error) -> (r: Self) {
        Self::IoError(src)
    }
}

impl vstd::std_specs::convert::FromSpecImpl<std::io::Error> for ReadingTcpContractFail {
    open spec fn obeys_from_spec() -> bool {
        true
    }

    open spec fn from_spec(src: std::io::Error) -> Self {
        ReadingTcpContractFail::IoError(src)
    }
}

impl From<std::string::FromUtf8Error> for ReadingTcpContractFail {
    fn from(src: std::string::FromUtf8Error) -> (r: Self) {
        Self::ParsingUtf8StringError(src)
    }
}

impl vstd::std_specs::convert::FromSpecImpl<std::string::FromUtf8Error> for ReadingTcpContractFail {
    open spec fn obeys_from_spec() -> bool {
        true
    }

    open spec fn from_spec(src: std::string::FromUtf8Error) -> Self {
        ReadingTcpContractFail::ParsingUtf8StringError(src)
    }
}

} // verus!
