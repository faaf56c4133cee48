use ruping::targets::{dedup_targets, expand_cidr_block};

fn expand(base: &str, prefix: u32) -> Vec<String> {
    let b = base.split('.').fold(0u32, |acc, o| (acc << 8) | o.parse::<u32>().unwrap());
    expand_cidr_block(b, prefix)
        .into_iter()
        .map(|a| format!("{}.{}.{}.{}", a >> 24, (a >> 16) & 0xFF, (a >> 8) & 0xFF, a & 0xFF))
        .collect()
}

#[test]
fn cidr_slash_30_expands_to_four() {
    assert_eq!(
        expand("192.168.1.0", 30),
        vec!["192.168.1.0", "192.168.1.1", "192.168.1.2", "192.168.1.3"]
    );
}

#[test]
fn cidr_base_is_masked_to_network() {
    assert_eq!(
        expand("192.168.1.7", 30),
        vec!["192.168.1.4", "192.168.1.5", "192.168.1.6", "192.168.1.7"]
    );
    assert_eq!(expand("10.9.8.7", 32), vec!["10.9.8.7"]);
    assert_eq!(expand("255.255.255.255", 31), vec!["255.255.255.254", "255.255.255.255"]);
    assert_eq!(expand("10.0.0.0", 24).len(), 256);
    assert!(expand("10.0.0.0", 33).is_empty());
}

#[test]
fn targets_deduplicated_in_first_seen_order() {
    let input: Vec<String> = ["b", "a", "b", "c", "a", "b"].iter().map(|s| s.to_string()).collect();
    assert_eq!(dedup_targets(input), vec!["b", "a", "c"]);
    assert!(dedup_targets(Vec::new()).is_empty());
}
