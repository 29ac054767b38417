use vstd::prelude::*;

use super::connection_statistics::ConnectionStatistics;
use super::tcp_thread_status::TcpThreadStatus;

verus! {

/// Counts the seconds down to the next ping that a client sends.
pub struct PingCountdown {
    seconds_to_ping: usize,
    seconds_remains_to_ping: usize,
}

impl PingCountdown {
    pub closed spec fn period(&self) -> nat {
        self.seconds_to_ping as nat
    }

    pub closed spec fn remains(&self) -> nat {
        self.seconds_remains_to_ping as nat
    }

    /// A countdown that pings every `seconds_to_ping` seconds.
    pub fn new(seconds_to_ping: usize) -> (result: Self)
        ensures
            result.period() == seconds_to_ping,
            result.remains() == seconds_to_ping,
    {
        Self { seconds_to_ping, seconds_remains_to_ping: seconds_to_ping }
    }

    /// One second passed; says whether a ping is due now, in which case the
    /// countdown starts over.
    pub fn tick(&mut self) -> (ping_now: bool)
        requires
            old(self).remains() > 0,
        ensures
            final(self).period() == old(self).period(),
            ping_now == (old(self).remains() == 1),
            ping_now ==> final(self).remains() == old(self).period(),
            !ping_now ==> final(self).remains() == old(self).remains() - 1,
    {
        self.seconds_remains_to_ping = self.seconds_remains_to_ping - 1;
        if self.seconds_remains_to_ping == 0 {
            self.seconds_remains_to_ping = self.seconds_to_ping;
            return true;
        }
        false
    }
}

/// Started afresh, a countdown over `period` seconds has `period - k % period`
/// seconds left after `k` ticks, and pings on exactly the ticks whose number
/// is a multiple of `period`.
pub proof fn law_ping_every_period(period: nat, k: nat, remains: nat)
    requires
        period > 0,
        remains == period - k % period,
    ensures
        remains > 0,
        (remains == 1) == ((k + 1) % period == 0),
        (if remains == 1 {
            period
        } else {
            (remains - 1) as nat
        }) == period - (k + 1) % period,
{
    vstd::arithmetic::div_mod::lemma_mod_bound(k as int, period as int);
    vstd::arithmetic::div_mod::lemma_add_mod_noop(k as int, 1, period as int);
    vstd::arithmetic::div_mod::lemma_mod_bound((k + 1) as int, period as int);
    if period == 1 {
        vstd::arithmetic::div_mod::lemma_mod_self_0(1);
    } else {
        vstd::arithmetic::div_mod::lemma_small_mod(1, period);
        if k % period + 1 < period {
            vstd::arithmetic::div_mod::lemma_small_mod((k % period + 1) as nat, period);
        } else {
            vstd::arithmetic::div_mod::lemma_mod_self_0(period as int);
        }
    }
}

/// What a client's keep-alive does after one second.
#[derive(Debug, Clone, Copy, PartialEq, Eq, Structural)]
pub enum KeepAliveAction {
    /// A read or write thread finished: end the connection.
    Disconnect,
    /// A ping is due: send it, then check for silence.
    SendPing,
    /// Check for silence.
    Wait,
}

/// One second of a client's keep-alive: a finished thread ends the
/// connection and nothing else happens; otherwise the per-second counters
/// close their second, the countdown ticks, and when a ping is due its start
/// is recorded at `now`.
pub fn client_keep_alive_tick(
    countdown: &mut PingCountdown,
    read: &TcpThreadStatus,
    write: &TcpThreadStatus,
    statistics: &mut ConnectionStatistics,
    now: i64,
) -> (action: KeepAliveAction)
    requires
        old(countdown).remains() > 0 || *read == TcpThreadStatus::Finished || *write
            == TcpThreadStatus::Finished,
    ensures
        (*read == TcpThreadStatus::Finished || *write == TcpThreadStatus::Finished) ==> {
            &&& action == KeepAliveAction::Disconnect
            &&& *final(countdown) == *old(countdown)
            &&& *final(statistics) == *old(statistics)
        },
        !(*read == TcpThreadStatus::Finished || *write == TcpThreadStatus::Finished) ==> {
            let ping = old(countdown).remains() == 1;
            &&& action == if ping {
                KeepAliveAction::SendPing
            } else {
                KeepAliveAction::Wait
            }
            &&& final(countdown).period() == old(countdown).period()
            &&& final(countdown).remains() == if ping {
                old(countdown).period()
            } else {
                (old(countdown).remains() - 1) as nat
            }
            &&& *final(statistics) == (ConnectionStatistics {
                received_per_sec: final(statistics).received_per_sec,
                sent_per_sec: final(statistics).sent_per_sec,
                ping_start: if ping {
                    now
                } else {
                    old(statistics).ping_start
                },
                ..*old(statistics)
            })
            &&& final(statistics).received_per_sec.last_second() == old(statistics).received_per_sec.counting()
            &&& final(statistics).received_per_sec.counting() == 0
            &&& final(statistics).sent_per_sec.last_second() == old(statistics).sent_per_sec.counting()
            &&& final(statistics).sent_per_sec.counting() == 0
        },
{
    if any_thread_finished(read, write) {
        return KeepAliveAction::Disconnect;
    }
    statistics.one_second_tick();
    if countdown.tick() {
        statistics.set_ping_start(now);
        return KeepAliveAction::SendPing;
    }
    KeepAliveAction::Wait
}

/// Why a connection watcher ends the connection, if it does.
#[derive(Debug, Clone, Copy, PartialEq, Eq, Structural)]
pub enum DeadConnectionVerdict {
    Alive,
    ThreadFinished,
    Dead,
}

/// Either the read or the write thread of a connection has finished.
pub fn any_thread_finished(read: &TcpThreadStatus, write: &TcpThreadStatus) -> (r: bool)
    ensures
        r == (*read == TcpThreadStatus::Finished || *write == TcpThreadStatus::Finished),
{
    read.is_finished() || write.is_finished()
}

/// The check a server makes on each connection: a finished thread ends it
/// first, then a silence longer than the timeout.
pub fn check_connection(
    read: &TcpThreadStatus,
    write: &TcpThreadStatus,
    statistics: &ConnectionStatistics,
    now: i64,
    dead_disconnect_timeout_micros: u64,
) -> (verdict: DeadConnectionVerdict)
    ensures
        (*read == TcpThreadStatus::Finished || *write == TcpThreadStatus::Finished) ==> verdict
            == DeadConnectionVerdict::ThreadFinished,
        !(*read == TcpThreadStatus::Finished || *write == TcpThreadStatus::Finished) ==> verdict == if super::connection_statistics::elapsed_micros(statistics.last_receive_moment, now)
            > dead_disconnect_timeout_micros {
            DeadConnectionVerdict::Dead
        } else {
            DeadConnectionVerdict::Alive
        },
{
    if any_thread_finished(read, write) {
        return DeadConnectionVerdict::ThreadFinished;
    }
    if statistics.is_dead(now, dead_disconnect_timeout_micros) {
        return DeadConnectionVerdict::Dead;
    }
    DeadConnectionVerdict::Alive
}

} // verus!
