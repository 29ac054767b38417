use my_tcp_sockets::tcp_client::{is_unix_socket_address, next_connection_id};
use my_tcp_sockets::tcp_connection::{
    any_thread_finished, check_connection, ConnectionStatistics, DeadConnectionVerdict,
    PingCountdown, TcpConnectionStates, TcpThreadStatus,
};
use my_tcp_sockets::{ThreadAmount, ThreadsStatistics, TlsSettings};

#[test]
fn statistics_count_traffic() {
    let mut stats = ConnectionStatistics::new(1_000);
    stats.update_read_amount(10, 2_000);
    stats.update_read_amount(5, 3_000);
    stats.update_sent_amount(7, 4_000);
    assert_eq!(15, stats.total_received);
    assert_eq!(7, stats.total_sent);
    assert_eq!(3_000, stats.last_receive_moment);
    assert_eq!(4_000, stats.last_send_moment);
    stats.one_second_tick();
    assert_eq!(15, stats.received_per_sec.get_value());
    assert_eq!(7, stats.sent_per_sec.get_value());
    stats.disconnect(9_000);
    assert_eq!(9_000, stats.disconnected);
    assert_eq!(1_000, stats.connected);
}

#[test]
fn ping_round_trip() {
    let mut stats = ConnectionStatistics::new(0);
    stats.update_ping_pong_statistic(50);
    assert_eq!(None, stats.get_ping_pong_duration());
    stats.set_ping_start(100);
    stats.update_ping_pong_statistic(350);
    assert_eq!(Some(250), stats.get_ping_pong_duration());
    stats.update_ping_pong_statistic(90);
    assert_eq!(None, stats.get_ping_pong_duration());
}

#[test]
fn dead_after_silence_longer_than_timeout() {
    let stats = ConnectionStatistics::new(1_000_000);
    assert!(!stats.is_dead(10_000_000, 9_000_000));
    assert!(stats.is_dead(10_000_001, 9_000_000));
    assert!(!stats.is_dead(0, 0));
    let finished = TcpThreadStatus::Finished;
    let started = TcpThreadStatus::Started;
    assert_eq!(
        DeadConnectionVerdict::ThreadFinished,
        check_connection(&started, &finished, &stats, 0, 1)
    );
    assert_eq!(
        DeadConnectionVerdict::Dead,
        check_connection(&started, &started, &stats, 20_000_000, 1)
    );
    assert_eq!(
        DeadConnectionVerdict::Alive,
        check_connection(&started, &started, &stats, 1_000_001, 1)
    );
    assert!(any_thread_finished(&finished, &started));
    assert!(!any_thread_finished(&started, &TcpThreadStatus::NotStarted));
}

#[test]
fn ping_countdown_pings_every_period() {
    let mut countdown = PingCountdown::new(3);
    let pings: Vec<bool> = (0..7).map(|_| countdown.tick()).collect();
    assert_eq!(vec![false, false, true, false, false, true, false], pings);
}

#[test]
fn thread_status_numbers() {
    for status in [TcpThreadStatus::NotStarted, TcpThreadStatus::Started, TcpThreadStatus::Finished] {
        assert_eq!(status, TcpThreadStatus::from_i32(status.as_i32()));
    }
    assert_eq!(2, TcpThreadStatus::Finished.as_i32());
    assert!(TcpThreadStatus::Finished.is_finished());
    assert!(!TcpThreadStatus::Started.is_finished());
}

#[test]
fn thread_counters() {
    let mut amount = ThreadAmount::default();
    amount.increase();
    amount.increase();
    amount.decrease();
    assert_eq!(1, amount.get());
    let stats = ThreadsStatistics::default();
    assert_eq!(0, stats.read_threads.get());
}

#[test]
fn tls_settings_verify_certificates_by_default() {
    let settings = TlsSettings::new("example.org".to_string());
    assert_eq!("example.org", settings.server_name);
    assert!(!settings.accept_invalid_certs);
}

#[test]
fn unix_socket_addresses() {
    assert!(is_unix_socket_address("/tmp/socket"));
    assert!(is_unix_socket_address("~/socket"));
    assert!(!is_unix_socket_address("127.0.0.1:8080"));
    assert!(!is_unix_socket_address(""));
    assert_eq!(2, next_connection_id(1));
}

#[test]
fn connection_states_are_fixed() {
    let states = TcpConnectionStates::default();
    assert!(states.is_initialized());
    assert!(!states.is_shutting_down());
}
