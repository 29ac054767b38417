use vstd::prelude::*;

verus! {

/// The life stage of a connection's read or write thread.
#[derive(Debug, Clone, Copy, PartialEq, Eq, Structural)]
pub enum TcpThreadStatus {
    NotStarted,
    Started,
    Finished,
}

impl TcpThreadStatus {
    /// The number that stands for the status in an atomic cell.
    pub open spec fn code(&self) -> i32 {
        match self {
            TcpThreadStatus::NotStarted => 0,
            TcpThreadStatus::Started => 1,
            TcpThreadStatus::Finished => 2,
        }
    }

    pub fn as_i32(&self) -> (r: i32)
        ensures
            r == self.code(),
    {
        match self {
            TcpThreadStatus::NotStarted => 0,
            TcpThreadStatus::Started => 1,
            TcpThreadStatus::Finished => 2,
        }
    }

    pub fn is_finished(&self) -> (r: bool)
        ensures
            r == (*self == TcpThreadStatus::Finished),
    {
        matches!(self, TcpThreadStatus::Finished)
    }

    /// The status that `val` stands for.
    pub fn from_i32(val: i32) -> (status: Self)
        requires
            0 <= val <= 2,
        ensures
            status.code() == val,
    {
        if val == 0 {
            TcpThreadStatus::NotStarted
        } else if val == 1 {
            TcpThreadStatus::Started
        } else {
            TcpThreadStatus::Finished
        }
    }
}

/// Reading back the number of a status gives the status.
pub proof fn law_thread_status_round_trip(status: TcpThreadStatus)
    ensures
        0 <= status.code() <= 2,
        forall|other: TcpThreadStatus| other.code() == status.code() ==> other == status,
{
}

} // verus!
