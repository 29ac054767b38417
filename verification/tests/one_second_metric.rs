use my_tcp_sockets::tcp_connection::OneSecondMetric;

#[test]
pub fn test_basic_case() {
    let mut metrics = OneSecondMetric::new();

    metrics.increase(5);

    metrics.increase(3);

    metrics.one_second_tick();

    assert_eq!(8, metrics.get_value());
}

#[test]
fn tick_restarts_the_count() {
    let mut metrics = OneSecondMetric::new();
    metrics.increase(4);
    metrics.one_second_tick();
    metrics.one_second_tick();
    assert_eq!(0, metrics.get_value());
}

#[test]
fn count_wraps_like_an_atomic() {
    let mut metrics = OneSecondMetric::new();
    metrics.increase(usize::MAX);
    metrics.increase(2);
    metrics.one_second_tick();
    assert_eq!(1, metrics.get_value());
}
