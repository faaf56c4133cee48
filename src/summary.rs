//! Per-host header and summary text.

use crate::stats::{percentile_of, std_deviation_of, PingStatistics, StatsModel};
use crate::text::{
    decimal, digit, digit_char, push_char, push_decimal, push_str, round_div, rounded_quotient,
};
use vstd::prelude::*;

verus! {

/// Microseconds as whole milliseconds, rounded to nearest, ties to even.
pub open spec fn ms_text(us: nat) -> Seq<char> {
    decimal(round_div(us, 1000))
}

/// Microseconds as milliseconds with one decimal, rounded to nearest, ties to even.
pub open spec fn tenths_text(us: nat) -> Seq<char> {
    let t = round_div(us, 100);
    decimal(t / 10) + seq!['.', digit_char(t % 10)]
}

/// The summary of a host's statistics: counters and loss, then (when a
/// reply arrived) extrema, mean and percentiles, then (from two samples on)
/// jitter and standard deviation.
pub open spec fn summary_text(target: Seq<char>, m: StatsModel) -> Seq<char> {
    let head = "\n"@ + target + " 的 Ping 统计信息:\n    数据包: 已发送 = "@ + decimal(m.sent)
        + ", 已接收 = "@ + decimal(m.received) + ", 丢失 = "@ + decimal(m.lost) + " ("@
        + decimal(round_div(m.loss_percentage(), 1_000_000)) + "% 丢失),\n"@;
    if m.received == 0 {
        head
    } else {
        let times = "往返行程的估计时间(以毫秒为单位):\n    最短 = "@ + ms_text(m.min) + "ms，最长 = "@
            + ms_text(m.max) + "ms，平均 = "@ + ms_text(m.average_time()) + "ms\n"@;
        let ranks = "    P50 = "@ + ms_text(percentile_of(m.samples, 500)) + "ms，P90 = "@
            + ms_text(percentile_of(m.samples, 900)) + "ms，P99 = "@ + ms_text(
            percentile_of(m.samples, 990),
        ) + "ms"@;
        let spread = if m.samples.len() >= 2 {
            "，Jitter = "@ + tenths_text(m.jitter()) + "ms，StdDev = "@ + tenths_text(
                std_deviation_of(m.samples),
            ) + "ms\n"@
        } else {
            "\n"@
        };
        head + times + ranks + spread
    }
}

/// The closing block over all hosts: counters and loss, then (when a reply
/// arrived) extrema, mean and percentiles, then (from two replies on) jitter
/// and standard deviation.
pub open spec fn overall_text(m: StatsModel) -> Seq<char> {
    let head = "\n===== 总体统计信息 =====\n数据包: 已发送 = "@ + decimal(m.sent) + ", 已接收 = "@
        + decimal(m.received) + ", 丢失 = "@ + decimal(m.lost) + " ("@ + decimal(
        round_div(m.loss_percentage(), 1_000_000),
    ) + "% 丢失)\n"@;
    if m.received == 0 {
        head
    } else {
        let times = "往返行程的估计时间(毫秒): 最短 = "@ + ms_text(m.min) + "ms，最长 = "@ + ms_text(m.max)
            + "ms，平均 = "@ + ms_text(m.average_time()) + "ms\n"@;
        let ranks = "    P50 = "@ + ms_text(percentile_of(m.samples, 500)) + "ms，P90 = "@
            + ms_text(percentile_of(m.samples, 900)) + "ms，P99 = "@ + ms_text(
            percentile_of(m.samples, 990),
        ) + "ms"@;
        let spread = if m.received > 1 {
            "，Jitter = "@ + tenths_text(m.jitter()) + "ms，StdDev = "@ + tenths_text(
                std_deviation_of(m.samples),
            ) + "ms\n"@
        } else {
            "\n"@
        };
        head + times + ranks + spread
    }
}

/// The line that opens a host's output; the address is shown only when it
/// differs from the target as given.
pub open spec fn header_text(target: Seq<char>, resolved_ip: Seq<char>, payload_size: nat) -> Seq<
    char,
> {
    if target == resolved_ip {
        "正在 Ping "@ + target + " 具有 "@ + decimal(payload_size) + " 字节的数据:"@
    } else {
        "正在 Ping "@ + target + " ["@ + resolved_ip + "] 具有 "@ + decimal(payload_size)
            + " 字节的数据:"@
    }
}

/// Appends `us` microseconds as whole milliseconds.
fn push_ms(s: &mut String, us: u64)
    ensures
        final(s)@ == old(s)@ + ms_text(us as nat),
{
    push_decimal(s, rounded_quotient(us, 1000));
}

/// Appends `us` microseconds as milliseconds with one decimal.
fn push_tenths(s: &mut String, us: u64)
    ensures
        final(s)@ == old(s)@ + tenths_text(us as nat),
{
    let t = rounded_quotient(us, 100);
    push_decimal(s, t / 10);
    push_char(s, '.');
    push_char(s, digit(t % 10));
    assert(final(s)@ =~= old(s)@ + tenths_text(us as nat));
}

impl PingStatistics {
    /// The summary printed for a host when its probes are done.
    pub fn format_summary(&self, target: &str) -> (r: String)
        requires
            self.wf(),
        ensures
            r@ == summary_text(target@, self@),
    {
        let mut s = String::new();
        push_str(&mut s, "\n");
        push_str(&mut s, target);
        push_str(&mut s, " 的 Ping 统计信息:\n    数据包: 已发送 = ");
        push_decimal(&mut s, self.packets_sent as u64);
        push_str(&mut s, ", 已接收 = ");
        push_decimal(&mut s, self.packets_received as u64);
        push_str(&mut s, ", 丢失 = ");
        push_decimal(&mut s, self.packets_lost as u64);
        push_str(&mut s, " (");
        push_decimal(&mut s, rounded_quotient(self.loss_percentage(), 1_000_000));
        push_str(&mut s, "% 丢失),\n");
        let ghost head = s@;
        assert(head =~= "\n"@ + target@ + " 的 Ping 统计信息:\n    数据包: 已发送 = "@ + decimal(
            self@.sent,
        ) + ", 已接收 = "@ + decimal(self@.received) + ", 丢失 = "@ + decimal(self@.lost) + " ("@
            + decimal(round_div(self@.loss_percentage(), 1_000_000)) + "% 丢失),\n"@);
        if self.packets_received == 0 {
            return s;
        }
        push_str(&mut s, "往返行程的估计时间(以毫秒为单位):\n    最短 = ");
        push_ms(&mut s, self.min_time as u64);
        push_str(&mut s, "ms，最长 = ");
        push_ms(&mut s, self.max_time as u64);
        push_str(&mut s, "ms，平均 = ");
        push_ms(&mut s, self.average_time());
        push_str(&mut s, "ms\n");
        let ghost times = s@;
        assert(times =~= head + ("往返行程的估计时间(以毫秒为单位):\n    最短 = "@ + ms_text(self@.min)
            + "ms，最长 = "@ + ms_text(self@.max) + "ms，平均 = "@ + ms_text(self@.average_time())
            + "ms\n"@));
        push_str(&mut s, "    P50 = ");
        push_ms(&mut s, self.p50() as u64);
        push_str(&mut s, "ms，P90 = ");
        push_ms(&mut s, self.p90() as u64);
        push_str(&mut s, "ms，P99 = ");
        push_ms(&mut s, self.p99() as u64);
        push_str(&mut s, "ms");
        let ghost ranks = s@;
        assert(ranks =~= times + ("    P50 = "@ + ms_text(percentile_of(self@.samples, 500))
            + "ms，P90 = "@ + ms_text(percentile_of(self@.samples, 900)) + "ms，P99 = "@ + ms_text(
            percentile_of(self@.samples, 990),
        ) + "ms"@));
        if self.samples.len() >= 2 {
            push_str(&mut s, "，Jitter = ");
            push_tenths(&mut s, self.jitter());
            push_str(&mut s, "ms，StdDev = ");
            push_tenths(&mut s, self.std_deviation());
            push_str(&mut s, "ms\n");
            assert(s@ =~= ranks + ("，Jitter = "@ + tenths_text(self@.jitter()) + "ms，StdDev = "@
                + tenths_text(std_deviation_of(self@.samples)) + "ms\n"@));
        } else {
            push_str(&mut s, "\n");
        }
        s
    }

    /// The block printed after all hosts, over their merged statistics.
    pub fn format_overall(&self) -> (r: String)
        requires
            self.wf(),
        ensures
            r@ == overall_text(self@),
    {
        let mut s = String::new();
        push_str(&mut s, "\n===== 总体统计信息 =====\n数据包: 已发送 = ");
        push_decimal(&mut s, self.packets_sent as u64);
        push_str(&mut s, ", 已接收 = ");
        push_decimal(&mut s, self.packets_received as u64);
        push_str(&mut s, ", 丢失 = ");
        push_decimal(&mut s, self.packets_lost as u64);
        push_str(&mut s, " (");
        push_decimal(&mut s, rounded_quotient(self.loss_percentage(), 1_000_000));
        push_str(&mut s, "% 丢失)\n");
        let ghost head = s@;
        assert(head =~= "\n===== 总体统计信息 =====\n数据包: 已发送 = "@ + decimal(self@.sent)
            + ", 已接收 = "@ + decimal(self@.received) + ", 丢失 = "@ + decimal(self@.lost) + " ("@
            + decimal(round_div(self@.loss_percentage(), 1_000_000)) + "% 丢失)\n"@);
        if self.packets_received == 0 {
            return s;
        }
        push_str(&mut s, "往返行程的估计时间(毫秒): 最短 = ");
        push_ms(&mut s, self.min_time as u64);
        push_str(&mut s, "ms，最长 = ");
        push_ms(&mut s, self.max_time as u64);
        push_str(&mut s, "ms，平均 = ");
        push_ms(&mut s, self.average_time());
        push_str(&mut s, "ms\n");
        let ghost times = s@;
        assert(times =~= head + ("往返行程的估计时间(毫秒): 最短 = "@ + ms_text(self@.min) + "ms，最长 = "@
            + ms_text(self@.max) + "ms，平均 = "@ + ms_text(self@.average_time()) + "ms\n"@));
        push_str(&mut s, "    P50 = ");
        push_ms(&mut s, self.p50() as u64);
        push_str(&mut s, "ms，P90 = ");
        push_ms(&mut s, self.p90() as u64);
        push_str(&mut s, "ms，P99 = ");
        push_ms(&mut s, self.p99() as u64);
        push_str(&mut s, "ms");
        let ghost ranks = s@;
        assert(ranks =~= times + ("    P50 = "@ + ms_text(percentile_of(self@.samples, 500))
            + "ms，P90 = "@ + ms_text(percentile_of(self@.samples, 900)) + "ms，P99 = "@ + ms_text(
            percentile_of(self@.samples, 990),
        ) + "ms"@));
        if self.packets_received > 1 {
            push_str(&mut s, "，Jitter = ");
            push_tenths(&mut s, self.jitter());
            push_str(&mut s, "ms，StdDev = ");
            push_tenths(&mut s, self.std_deviation());
            push_str(&mut s, "ms\n");
            assert(s@ =~= ranks + ("，Jitter = "@ + tenths_text(self@.jitter()) + "ms，StdDev = "@
                + tenths_text(std_deviation_of(self@.samples)) + "ms\n"@));
        } else {
            push_str(&mut s, "\n");
        }
        s
    }

    /// The line printed before a host's first probe.
    pub fn format_header(&self, target: &str, resolved_ip: &str, payload_size: u32) -> (r: String)
        ensures
            r@ == header_text(target@, resolved_ip@, payload_size as nat),
    {
        let same = target.to_owned() == resolved_ip.to_owned();
        let mut s = String::new();
        push_str(&mut s, "正在 Ping ");
        push_str(&mut s, target);
        if same {
            push_str(&mut s, " 具有 ");
            push_decimal(&mut s, payload_size as u64);
            push_str(&mut s, " 字节的数据:");
            assert(s@ =~= "正在 Ping "@ + target@ + " 具有 "@ + decimal(payload_size as nat)
                + " 字节的数据:"@);
        } else {
            push_str(&mut s, " [");
            push_str(&mut s, resolved_ip);
            push_str(&mut s, "] 具有 ");
            push_decimal(&mut s, payload_size as u64);
            push_str(&mut s, " 字节的数据:");
            assert(s@ =~= "正在 Ping "@ + target@ + " ["@ + resolved_ip@ + "] 具有 "@ + decimal(
                payload_size as nat,
            ) + " 字节的数据:"@);
        }
        assert(s@ =~= header_text(target@, resolved_ip@, payload_size as nat));
        s
    }
}

} // verus!
