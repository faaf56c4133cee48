//! Validation of probe parameters and the settings a run is derived from.

use vstd::prelude::*;

verus! {

/// Largest payload accepted, in bytes.
pub const MAX_PAYLOAD_SIZE: u32 = 65500;

/// Largest number of hosts probed at once.
pub const MAX_CONCURRENCY: usize = 256;

pub const DEFAULT_PAYLOAD_SIZE: u32 = 32;

pub const DEFAULT_TIMEOUT_MS: u32 = 4000;

pub const DEFAULT_COUNT: u32 = 4;

/// A parameter value out of its range.
#[derive(Debug, Clone, Copy, PartialEq, Eq, Structural)]
pub enum ValidationError {
    /// Payload larger than `MAX_PAYLOAD_SIZE`.
    SizeTooLarge,
    /// A probe count of zero.
    CountZero,
    /// A timeout of zero.
    TimeoutZero,
    /// A TTL outside 1..=255.
    TtlOutOfRange,
}

/// The first failing check, in the order size, count, timeout, TTL.
pub open spec fn validation_result(
    size: Option<u32>,
    count: Option<u32>,
    timeout: Option<u32>,
    ttl: Option<u32>,
) -> Result<(), ValidationError> {
    if size matches Some(s) && s > MAX_PAYLOAD_SIZE {
        Err(ValidationError::SizeTooLarge)
    } else if count == Some(0u32) {
        Err(ValidationError::CountZero)
    } else if timeout == Some(0u32) {
        Err(ValidationError::TimeoutZero)
    } else if ttl matches Some(t) && (t == 0 || t > 255) {
        Err(ValidationError::TtlOutOfRange)
    } else {
        Ok(())
    }
}

/// Checks the payload size, probe count, timeout and TTL that were given.
pub fn validate_ping_params(
    size: Option<u32>,
    count: Option<u32>,
    timeout: Option<u32>,
    ttl: Option<u32>,
) -> (r: Result<(), ValidationError>)
    ensures
        r == validation_result(size, count, timeout, ttl),
{
    if let Some(size) = size {
        if size > MAX_PAYLOAD_SIZE {
            return Err(ValidationError::SizeTooLarge);
        }
    }
    if let Some(count) = count {
        if count == 0 {
            return Err(ValidationError::CountZero);
        }
    }
    if let Some(timeout) = timeout {
        if timeout == 0 {
            return Err(ValidationError::TimeoutZero);
        }
    }
    if let Some(ttl) = ttl {
        if ttl == 0 || ttl > 255 {
            return Err(ValidationError::TtlOutOfRange);
        }
    }
    Ok(())
}

/// Option combinations that cannot run.
#[derive(Debug, Clone, Copy, PartialEq, Eq, Structural)]
pub enum OptionsError {
    /// IPv4 and IPv6 both forced.
    BothFamiliesForced,
    /// No target given: no name, no file, no CIDR block.
    NoTargets,
    /// JSON and CSV output both asked for.
    JsonAndCsv,
}

/// The first conflict, in the order families, targets, output formats.
pub open spec fn options_result(
    force_ipv4: bool,
    force_ipv6: bool,
    has_targets: bool,
    json: bool,
    csv: bool,
) -> Result<(), OptionsError> {
    if force_ipv4 && force_ipv6 {
        Err(OptionsError::BothFamiliesForced)
    } else if !has_targets {
        Err(OptionsError::NoTargets)
    } else if json && csv {
        Err(OptionsError::JsonAndCsv)
    } else {
        Ok(())
    }
}

/// Checks the combination of options given on the command line.
pub fn check_options(force_ipv4: bool, force_ipv6: bool, has_targets: bool, json: bool, csv: bool) -> (r:
    Result<(), OptionsError>)
    ensures
        r == options_result(force_ipv4, force_ipv6, has_targets, json, csv),
{
    if force_ipv4 && force_ipv6 {
        return Err(OptionsError::BothFamiliesForced);
    }
    if !has_targets {
        return Err(OptionsError::NoTargets);
    }
    if json && csv {
        return Err(OptionsError::JsonAndCsv);
    }
    Ok(())
}

/// `n` brought into `1..=MAX_CONCURRENCY`.
pub open spec fn clamped_concurrency(n: usize) -> usize {
    if n < 1 {
        1
    } else if n > MAX_CONCURRENCY {
        MAX_CONCURRENCY
    } else {
        n
    }
}

/// What every host task of a run is given.
#[derive(Debug, Clone, Copy, PartialEq, Eq, Structural)]
pub struct RunSettings {
    /// Host tasks in flight at most, in `1..=MAX_CONCURRENCY`.
    pub concurrency: usize,
    pub payload_size: usize,
    pub timeout_ms: u32,
    /// Pause between a host's probes, at least 1 ms.
    pub interval_ms: u64,
    /// Probes per host; `u32::MAX` in continuous mode.
    pub count: u32,
    /// Probe until stopped: the pause follows every probe, the last one included.
    pub continuous: bool,
}

impl RunSettings {
    /// Applies the defaults (payload 32 bytes, timeout 4000 ms, 4 probes) and bounds.
    pub fn from_options(
        concurrency: usize,
        size: Option<u32>,
        timeout: Option<u32>,
        interval_ms: u64,
        count: Option<u32>,
        continuous: bool,
    ) -> (r: RunSettings)
        ensures
            r.concurrency == clamped_concurrency(concurrency),
            r.payload_size == (match size {
                Some(s) => s,
                None => DEFAULT_PAYLOAD_SIZE,
            }),
            r.timeout_ms == (match timeout {
                Some(t) => t,
                None => DEFAULT_TIMEOUT_MS,
            }),
            r.interval_ms == if interval_ms < 1 {
                1
            } else {
                interval_ms
            },
            r.count == if continuous {
                u32::MAX
            } else {
                match count {
                    Some(c) => c,
                    None => DEFAULT_COUNT,
                }
            },
            r.continuous == continuous,
    {
        let concurrency = if concurrency < 1 {
            1
        } else if concurrency > MAX_CONCURRENCY {
            MAX_CONCURRENCY
        } else {
            concurrency
        };
        let payload_size = match size {
            Some(s) => s as usize,
            None => DEFAULT_PAYLOAD_SIZE as usize,
        };
        let timeout_ms = match timeout {
            Some(t) => t,
            None => DEFAULT_TIMEOUT_MS,
        };
        let interval_ms = if interval_ms < 1 {
            1
        } else {
            interval_ms
        };
        let count = if continuous {
            u32::MAX
        } else {
            match count {
                Some(c) => c,
                None => DEFAULT_COUNT,
            }
        };
        RunSettings { concurrency, payload_size, timeout_ms, interval_ms, count, continuous }
    }
}

} // verus!
