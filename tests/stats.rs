use ruping::stats::PingStatistics;

fn with_samples(samples: &[u32]) -> PingStatistics {
    let mut s = PingStatistics::new();
    for &t in samples {
        s.record_sent();
        s.record_received(t);
    }
    s
}

#[test]
fn test_statistics_calculation() {
    let mut stats = PingStatistics::new();

    stats.record_sent();
    stats.record_received(10_500);

    stats.record_sent();
    stats.record_received(20_300);

    stats.record_sent();
    stats.record_lost();

    assert_eq!(stats.packets_sent, 3);
    assert_eq!(stats.packets_received, 2);
    assert_eq!(stats.packets_lost, 1);
    assert!((stats.loss_percentage() as f64 / 1_000_000.0 - 33.333333333333336).abs() < 0.0001);
    assert_eq!(stats.average_time(), 15_400);
    assert_eq!(stats.min_time, 10_500);
    assert_eq!(stats.max_time, 20_300);
}

#[test]
fn empty_statistics_report_zero() {
    let s = PingStatistics::new();
    assert_eq!(s.loss_percentage(), 0);
    assert_eq!(s.average_time(), 0);
    assert_eq!(s.p50(), 0);
    assert_eq!(s.p99(), 0);
    assert_eq!(s.std_deviation(), 0);
    assert_eq!(s.jitter(), 0);
    assert_eq!(s.min_time, u32::MAX);
    assert_eq!(s.max_time, 0);
}

#[test]
fn loss_percentage_exact_values() {
    let mut s = PingStatistics::new();
    s.record_sent();
    s.record_sent();
    s.record_received(1);
    s.record_lost();
    assert_eq!(s.loss_percentage(), 50_000_000);
    let mut all = PingStatistics::new();
    all.record_sent();
    all.record_lost();
    assert_eq!(all.loss_percentage(), 100_000_000);
}

#[test]
fn nearest_rank_percentiles() {
    let s = with_samples(&[50, 10, 40, 20, 30]);
    assert_eq!(s.p50(), 30);
    assert_eq!(s.p90(), 50);
    assert_eq!(s.p99(), 50);
    assert_eq!(s.percentile(0), 10);
    assert_eq!(s.percentile(250), 20);
    assert_eq!(s.percentile(375), 30);
    assert_eq!(s.percentile(1000), 50);
    assert_eq!(s.samples, vec![50, 10, 40, 20, 30]);
}

#[test]
fn percentiles_never_decrease_with_rank() {
    let s = with_samples(&[7, 3, 3, 99, 15, 0, 42, 8, 8, 61]);
    let mut previous = 0;
    for p in 0..=1000 {
        let v = s.percentile(p);
        assert!(previous <= v);
        previous = v;
    }
}

#[test]
fn population_standard_deviation() {
    let s = with_samples(&[2000, 4000, 4000, 4000, 5000, 5000, 7000, 9000]);
    assert_eq!(s.std_deviation(), 2000);
    assert_eq!(with_samples(&[1234]).std_deviation(), 0);
    assert_eq!(with_samples(&[10, 11]).std_deviation(), 0);
    assert_eq!(with_samples(&[10, 13]).std_deviation(), 1);
    let big = with_samples(&[0, u32::MAX]);
    assert_eq!(big.std_deviation(), (u32::MAX / 2) as u64);
}

#[test]
fn jitter_follows_received_samples() {
    let mut s = PingStatistics::new();
    s.record_sent();
    s.record_received(10);
    s.record_sent();
    s.record_received(20);
    assert_eq!(s.jitter(), 0);
    s.record_sent();
    s.record_lost();
    s.record_sent();
    s.record_received(15);
    assert_eq!(s.jitter_sum, 15);
    assert_eq!(s.jitter_count, 2);
    assert_eq!(s.jitter(), 7);
}

fn stats_of(samples: &[u32], lost: u32) -> PingStatistics {
    let mut s = with_samples(samples);
    for _ in 0..lost {
        s.record_sent();
        s.record_lost();
    }
    s
}

#[test]
fn merge_is_associative() {
    let a = stats_of(&[10, 30], 1);
    let b = stats_of(&[5], 0);
    let c = stats_of(&[70, 20, 25], 2);

    let mut left = a.clone();
    left.merge_from(&b);
    left.merge_from(&c);

    let mut bc = b.clone();
    bc.merge_from(&c);
    let mut right = a.clone();
    right.merge_from(&bc);

    assert_eq!(left.packets_sent, right.packets_sent);
    assert_eq!(left.packets_received, right.packets_received);
    assert_eq!(left.packets_lost, right.packets_lost);
    assert_eq!(left.min_time, right.min_time);
    assert_eq!(left.max_time, right.max_time);
    assert_eq!(left.total_time, right.total_time);
    let mut ls = left.samples.clone();
    let mut rs = right.samples.clone();
    ls.sort();
    rs.sort();
    assert_eq!(ls, rs);
    assert_eq!(left.packets_sent, 9);
    assert_eq!(left.packets_lost, 3);
    assert_eq!(left.min_time, 5);
    assert_eq!(left.max_time, 70);
    assert_eq!(left.p50(), 25);
    assert_eq!(left.packets_sent, left.packets_received + left.packets_lost);
}

#[test]
fn merge_with_empty_keeps_extrema() {
    let mut a = with_samples(&[40, 60]);
    a.merge_from(&PingStatistics::new());
    assert_eq!(a.min_time, 40);
    assert_eq!(a.max_time, 60);
    let mut e = PingStatistics::new();
    e.merge_from(&a);
    assert_eq!(e.min_time, 40);
    assert_eq!(e.max_time, 60);
    assert_eq!(e.average_time(), 50);
}

#[test]
fn test_summary_formatting() {
    let mut stats = PingStatistics::new();
    stats.record_sent();
    stats.record_received(10_000);
    stats.record_sent();
    stats.record_lost();

    let summary = stats.format_summary("8.8.8.8");
    assert!(summary.contains("8.8.8.8 的 Ping 统计信息"));
    assert!(summary.contains("已发送 = 2"));
    assert!(summary.contains("已接收 = 1"));
    assert!(summary.contains("丢失 = 1"));
    assert!(summary.contains("50% 丢失"));
}

#[test]
fn summary_text_exact() {
    let mut stats = PingStatistics::new();
    for t in [10_500u32, 20_300, 15_250] {
        stats.record_sent();
        stats.record_received(t);
    }
    stats.record_sent();
    stats.record_lost();
    assert_eq!(
        stats.format_summary("h"),
        "\nh 的 Ping 统计信息:\n    数据包: 已发送 = 4, 已接收 = 3, 丢失 = 1 (25% 丢失),\n\
         往返行程的估计时间(以毫秒为单位):\n    最短 = 10ms，最长 = 20ms，平均 = 15ms\n\
         \x20   P50 = 15ms，P90 = 20ms，P99 = 20ms，Jitter = 7.4ms，StdDev = 4.0ms\n"
    );
    let mut none = PingStatistics::new();
    none.record_sent();
    none.record_lost();
    assert_eq!(
        none.format_summary("x"),
        "\nx 的 Ping 统计信息:\n    数据包: 已发送 = 1, 已接收 = 0, 丢失 = 1 (100% 丢失),\n"
    );
}

#[test]
fn header_shows_address_when_it_differs() {
    let s = PingStatistics::new();
    assert_eq!(s.format_header("8.8.8.8", "8.8.8.8", 32), "正在 Ping 8.8.8.8 具有 32 字节的数据:");
    assert_eq!(
        s.format_header("example.com", "93.184.216.34", 0),
        "正在 Ping example.com [93.184.216.34] 具有 0 字节的数据:"
    );
}

#[test]
fn overall_block_text() {
    let mut total = PingStatistics::new();
    total.record_sent();
    total.record_received(1_500);
    total.record_sent();
    total.record_received(2_500);
    total.record_sent();
    total.record_lost();
    assert_eq!(
        total.format_overall(),
        "\n===== 总体统计信息 =====\n数据包: 已发送 = 3, 已接收 = 2, 丢失 = 1 (33% 丢失)\n\
         往返行程的估计时间(毫秒): 最短 = 2ms，最长 = 2ms，平均 = 2ms\n\
         \x20   P50 = 2ms，P90 = 2ms，P99 = 2ms，Jitter = 0.0ms，StdDev = 0.5ms\n"
    );
    let empty = PingStatistics::new();
    assert_eq!(
        empty.format_overall(),
        "\n===== 总体统计信息 =====\n数据包: 已发送 = 0, 已接收 = 0, 丢失 = 0 (0% 丢失)\n"
    );
}
