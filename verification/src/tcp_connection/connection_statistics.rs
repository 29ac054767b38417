use vstd::prelude::*;
use vstd::wrapping::usize_specs;

use super::one_second_metric::OneSecondMetric;

verus! {

/// Microseconds from `since` to `now`, or zero when `now` is earlier.
pub open spec fn elapsed_micros(since: i64, now: i64) -> int {
    if now - since < 0 {
        0
    } else {
        now - since
    }
}

/// Traffic and timing figures of one connection; moments are Unix
/// microseconds handed in by the caller's clock.
pub struct ConnectionStatistics {
    pub connected: i64,
    pub disconnected: i64,
    pub last_send_moment: i64,
    pub last_receive_moment: i64,
    pub total_received: usize,
    pub total_sent: usize,
    pub received_per_sec: OneSecondMetric,
    pub sent_per_sec: OneSecondMetric,
    pub pending_to_send_buffer_size: usize,
    pub ping_start: i64,
    pub round_trip_micros: i64,
}

impl ConnectionStatistics {
    /// Figures of a connection established at `now`.
    pub fn new(now: i64) -> (result: Self)
        ensures
            result.connected == now,
            result.disconnected == now,
            result.last_send_moment == now,
            result.last_receive_moment == now,
            result.total_received == 0,
            result.total_sent == 0,
            result.received_per_sec.counting() == 0,
            result.received_per_sec.last_second() == 0,
            result.sent_per_sec.counting() == 0,
            result.sent_per_sec.last_second() == 0,
            result.pending_to_send_buffer_size == 0,
            result.ping_start == 0,
            result.round_trip_micros == 0,
    {
        Self {
            connected: now,
            disconnected: now,
            last_send_moment: now,
            last_receive_moment: now,
            total_received: 0,
            total_sent: 0,
            received_per_sec: OneSecondMetric::new(),
            sent_per_sec: OneSecondMetric::new(),
            pending_to_send_buffer_size: 0,
            ping_start: 0,
            round_trip_micros: 0,
        }
    }

    /// Records `amount` bytes received at `now`.
    pub fn update_read_amount(&mut self, amount: usize, now: i64)
        ensures
            *final(self) == (ConnectionStatistics {
                last_receive_moment: now,
                total_received: usize_specs::wrapping_add(old(self).total_received, amount),
                received_per_sec: final(self).received_per_sec,
                ..*old(self)
            }),
            final(self).received_per_sec.counting() == usize_specs::wrapping_add(
                old(self).received_per_sec.counting(),
                amount,
            ),
            final(self).received_per_sec.last_second() == old(self).received_per_sec.last_second(),
    {
        self.last_receive_moment = now;
        self.received_per_sec.increase(amount);
        self.total_received = self.total_received.wrapping_add(amount);
    }

    /// Records `amount` bytes sent at `now`.
    pub fn update_sent_amount(&mut self, amount: usize, now: i64)
        ensures
            *final(self) == (ConnectionStatistics {
                last_send_moment: now,
                total_sent: usize_specs::wrapping_add(old(self).total_sent, amount),
                sent_per_sec: final(self).sent_per_sec,
                ..*old(self)
            }),
            final(self).sent_per_sec.counting() == usize_specs::wrapping_add(
                old(self).sent_per_sec.counting(),
                amount,
            ),
            final(self).sent_per_sec.last_second() == old(self).sent_per_sec.last_second(),
    {
        self.last_send_moment = now;
        self.sent_per_sec.increase(amount);
        self.total_sent = self.total_sent.wrapping_add(amount);
    }

    /// The send loop's step after a slice of `size` bytes went out at `now`
    /// (`sent`) or failed: a sent slice is booked and the loop goes on; a
    /// failure stops it, and the connection ends, with nothing booked.
    pub fn record_send_result(&mut self, sent: bool, size: usize, now: i64) -> (go_on: bool)
        ensures
            go_on == sent,
            !sent ==> *final(self) == *old(self),
            sent ==> *final(self) == (ConnectionStatistics {
                last_send_moment: now,
                total_sent: usize_specs::wrapping_add(old(self).total_sent, size),
                sent_per_sec: final(self).sent_per_sec,
                ..*old(self)
            }),
            sent ==> final(self).sent_per_sec.counting() == usize_specs::wrapping_add(
                old(self).sent_per_sec.counting(),
                size,
            ),
            sent ==> final(self).sent_per_sec.last_second() == old(self).sent_per_sec.last_second(),
    {
        if !sent {
            return false;
        }
        self.update_sent_amount(size, now);
        true
    }

    /// Closes the current second of both per-second counters.
    pub fn one_second_tick(&mut self)
        ensures
            *final(self) == (ConnectionStatistics {
                received_per_sec: final(self).received_per_sec,
                sent_per_sec: final(self).sent_per_sec,
                ..*old(self)
            }),
            final(self).received_per_sec.last_second() == old(self).received_per_sec.counting(),
            final(self).received_per_sec.counting() == 0,
            final(self).sent_per_sec.last_second() == old(self).sent_per_sec.counting(),
            final(self).sent_per_sec.counting() == 0,
    {
        self.received_per_sec.one_second_tick();
        self.sent_per_sec.one_second_tick();
    }

    pub fn disconnect(&mut self, now: i64)
        ensures
            *final(self) == (ConnectionStatistics { disconnected: now, ..*old(self) }),
    {
        self.disconnected = now;
    }

    pub fn set_ping_start(&mut self, now: i64)
        ensures
            *final(self) == (ConnectionStatistics { ping_start: now, ..*old(self) }),
    {
        self.ping_start = now;
    }

    /// When a ping was sent, records the time from it to `now` as the round
    /// trip.
    pub fn update_ping_pong_statistic(&mut self, now: i64)
        ensures
            old(self).ping_start == 0 ==> *final(self) == *old(self),
            old(self).ping_start != 0 ==> *final(self) == (ConnectionStatistics {
                round_trip_micros: elapsed_micros(old(self).ping_start, now) as i64,
                ..*old(self)
            }),
    {
        let ping_start = self.ping_start;
        if ping_start == 0 {
            return;
        }
        let diff = now as i128 - ping_start as i128;
        let duration: i128 = if diff < 0 {
            0
        } else {
            diff
        };
        self.round_trip_micros = duration as i64;
    }

    /// The last measured round trip in microseconds, if any.
    pub fn get_ping_pong_duration(&self) -> (r: Option<u64>)
        ensures
            self.round_trip_micros == 0 ==> r is None,
            self.round_trip_micros != 0 ==> r == Some(self.round_trip_micros as u64),
    {
        let round_trip_micros = self.round_trip_micros;
        if round_trip_micros == 0 {
            return None;
        }
        Some(round_trip_micros as u64)
    }

    /// Books a contract that arrived at `now` after `read_size` bytes were
    /// read for it: a pong closes the ping round trip, and the bytes count as
    /// received.
    pub fn record_incoming_contract(&mut self, is_pong: bool, read_size: usize, now: i64)
        ensures
            final(self).last_receive_moment == now,
            final(self).total_received == usize_specs::wrapping_add(old(self).total_received, read_size),
            final(self).received_per_sec.counting() == usize_specs::wrapping_add(
                old(self).received_per_sec.counting(),
                read_size,
            ),
            final(self).received_per_sec.last_second() == old(self).received_per_sec.last_second(),
            final(self).round_trip_micros == if is_pong && old(self).ping_start != 0 {
                elapsed_micros(old(self).ping_start, now) as i64
            } else {
                old(self).round_trip_micros
            },
            final(self).connected == old(self).connected,
            final(self).disconnected == old(self).disconnected,
            final(self).last_send_moment == old(self).last_send_moment,
            final(self).total_sent == old(self).total_sent,
            final(self).sent_per_sec == old(self).sent_per_sec,
            final(self).pending_to_send_buffer_size == old(self).pending_to_send_buffer_size,
            final(self).ping_start == old(self).ping_start,
    {
        if is_pong {
            self.update_ping_pong_statistic(now);
        }
        self.update_read_amount(read_size, now);
    }

    /// Nothing was received for longer than `dead_disconnect_timeout_micros`
    /// before `now`.
    pub fn is_dead(&self, now: i64, dead_disconnect_timeout_micros: u64) -> (r: bool)
        ensures
            r == (elapsed_micros(self.last_receive_moment, now) > dead_disconnect_timeout_micros),
    {
        let diff = now as i128 - self.last_receive_moment as i128;
        let silence: i128 = if diff < 0 {
            0
        } else {
            diff
        };
        silence > dead_disconnect_timeout_micros as i128
    }
}

} // verus!
