//! Target lists: CIDR block expansion and first-seen de-duplication.

use vstd::prelude::*;

verus! {

/// Number of addresses in an IPv4 block with the given prefix length.
pub open spec fn block_size(prefix: u32) -> u64 {
    1u64 << ((32 - prefix) as u64)
}

/// The network address of the block of `base` with the given prefix length.
pub open spec fn block_network(base: u32, prefix: u32) -> u64 {
    (base as u64) & !((block_size(prefix) - 1) as u64)
}

proof fn lemma_block_bounds(base: u32, prefix: u32)
    requires
        prefix <= 32,
    ensures
        1 <= block_size(prefix) <= 0x1_0000_0000,
        block_network(base, prefix) + block_size(prefix) <= 0x1_0000_0000,
{
    let h: u64 = (32 - prefix) as u64;
    let b: u64 = base as u64;
    assert(1 <= (1u64 << h) <= 0x1_0000_0000) by (bit_vector)
        requires
            h <= 32,
    ;
    assert((b & !(((1u64 << h) - 1) as u64)) + (1u64 << h) <= 0x1_0000_0000) by (bit_vector)
        requires
            h <= 32,
            b <= 0xFFFF_FFFF,
    ;
}

/// Every address of the IPv4 block that `base/prefix` names, network and
/// broadcast addresses included, in ascending order; none for a prefix
/// longer than 32.
pub fn expand_cidr_block(base: u32, prefix: u32) -> (r: Vec<u32>)
    ensures
        prefix > 32 ==> r@.len() == 0,
        prefix <= 32 ==> r@.len() == block_size(prefix),
        prefix <= 32 ==> forall|i: int|
            0 <= i < r@.len() ==> r@[i] == block_network(base, prefix) + i,
{
    let mut out: Vec<u32> = Vec::new();
    if prefix > 32 {
        return out;
    }
    proof {
        lemma_block_bounds(base, prefix);
    }
    let size: u64 = 1u64 << ((32 - prefix) as u64);
    let network: u64 = (base as u64) & !(size - 1);
    let mut i: u64 = 0;
    while i < size
        invariant
            size == block_size(prefix),
            network == block_network(base, prefix),
            network + size <= 0x1_0000_0000,
            i <= size,
            out@.len() == i,
            forall|j: int| 0 <= j < i ==> out@[j] == network + j,
        decreases size - i,
    {
        out.push((network + i) as u32);
        i = i + 1;
    }
    out
}

/// `s` without repeats, each kept where it first occurs.
pub open spec fn first_seen(s: Seq<Seq<char>>) -> Seq<Seq<char>>
    decreases s.len(),
{
    if s.len() == 0 {
        s
    } else {
        let kept = first_seen(s.drop_last());
        if kept.contains(s.last()) {
            kept
        } else {
            kept.push(s.last())
        }
    }
}

/// The character sequences of a list of strings.
pub open spec fn texts(v: Seq<String>) -> Seq<Seq<char>> {
    v.map_values(|t: String| t@)
}

/// Removes repeated targets, keeping the first occurrence of each in its place.
pub fn dedup_targets(targets: Vec<String>) -> (r: Vec<String>)
    ensures
        texts(r@) == first_seen(texts(targets@)),
{
    let mut out: Vec<String> = Vec::new();
    let n = targets.len();
    let mut i: usize = 0;
    while i < n
        invariant
            n == targets@.len(),
            i <= n,
            texts(out@) == first_seen(texts(targets@.subrange(0, i as int))),
        decreases n - i,
    {
        let t = &targets[i];
        let mut seen = false;
        let mut k: usize = 0;
        while k < out.len()
            invariant
                k <= out@.len(),
                seen <==> exists|j: int| 0 <= j < k && out@[j]@ == t@,
            decreases out@.len() - k,
        {
            if out[k] == *t {
                seen = true;
            }
            k = k + 1;
        }
        proof {
            let pre = texts(targets@.subrange(0, i as int));
            let next = texts(targets@.subrange(0, i + 1));
            assert(next.drop_last() =~= pre);
            assert(next.last() == t@);
            if seen {
                let j = choose|j: int| 0 <= j < out@.len() && out@[j]@ == t@;
                assert(texts(out@)[j] == t@);
            } else {
                assert forall|j: int| 0 <= j < texts(out@).len() implies texts(out@)[j] != t@ by {
                    assert(out@[j]@ != t@);
                }
            }
        }
        if !seen {
            let c = t.clone();
            out.push(c);
            proof {
                assert(texts(out@) =~= first_seen(texts(targets@.subrange(0, i as int))).push(t@));
            }
        }
        i = i + 1;
    }
    assert(targets@.subrange(0, n as int) =~= targets@);
    out
}

} // verus!
