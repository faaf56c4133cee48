//! Addresses, address-family rules for name resolution, and source-address choice.

use vstd::prelude::*;

verus! {

/// An IP address: IPv4 as its 32-bit value, IPv6 as its 128-bit value.
#[derive(Debug, Clone, Copy, PartialEq, Eq, Structural)]
pub enum IpAddress {
    V4(u32),
    V6(u128),
}

impl IpAddress {
    pub fn is_ipv6(&self) -> (r: bool)
        ensures
            r == (*self is V6),
    {
        match self {
            IpAddress::V4(_) => false,
            IpAddress::V6(_) => true,
        }
    }
}

/// 127.0.0.0/8.
pub open spec fn spec_is_loopback_v4(ip: u32) -> bool {
    ip >> 24u32 == 127
}

/// fe80::/10: the first 16-bit segment masked with 0xffc0 is 0xfe80.
pub open spec fn spec_is_link_local_v6(ip: u128) -> bool {
    ((ip >> 112u128) as u16) & 0xffc0u16 == 0xfe80u16
}

/// Whether an IPv4 address is a loopback address (first octet 127).
pub fn is_loopback_v4(ip: u32) -> (r: bool)
    ensures
        r == spec_is_loopback_v4(ip),
{
    ip >> 24u32 == 127
}

/// Whether an IPv6 address is link-local (fe80::/10).
pub fn is_link_local_v6(ip: u128) -> (r: bool)
    ensures
        r == spec_is_link_local_v6(ip),
{
    ((ip >> 112u128) as u16) & 0xffc0u16 == 0xfe80u16
}

/// Why a target does not yield a usable address.
#[derive(Debug, Clone, Copy, PartialEq, Eq, Structural)]
pub enum ResolveError {
    /// An IPv4 literal while IPv6 is forced.
    Ipv4WhileIpv6Forced,
    /// An IPv6 literal while IPv4 is forced.
    Ipv6WhileIpv4Forced,
    /// The lookup returned no address.
    NoAddresses,
    /// The lookup returned addresses, none of the forced family.
    NoAddressOfFamily,
}

/// An address may be used unless its family conflicts with the one forced.
/// Forcing both families, or neither, allows every address.
pub open spec fn family_allowed(a: IpAddress, force_ipv4: bool, force_ipv6: bool) -> bool {
    match a {
        IpAddress::V4(_) => !(!force_ipv4 && force_ipv6),
        IpAddress::V6(_) => !(force_ipv4 && !force_ipv6),
    }
}

/// Checks a literal address against the forced family.
pub fn check_literal_family(ip: IpAddress, force_ipv4: bool, force_ipv6: bool) -> (r: Result<
    IpAddress,
    ResolveError,
>)
    ensures
        family_allowed(ip, force_ipv4, force_ipv6) ==> r == Ok::<IpAddress, ResolveError>(ip),
        !family_allowed(ip, force_ipv4, force_ipv6) ==> r == Err::<IpAddress, ResolveError>(
            if ip is V4 {
                ResolveError::Ipv4WhileIpv6Forced
            } else {
                ResolveError::Ipv6WhileIpv4Forced
            },
        ),
{
    match ip {
        IpAddress::V4(_) => {
            if !force_ipv4 && force_ipv6 {
                return Err(ResolveError::Ipv4WhileIpv6Forced);
            }
        },
        IpAddress::V6(_) => {
            if force_ipv4 && !force_ipv6 {
                return Err(ResolveError::Ipv6WhileIpv4Forced);
            }
        },
    }
    Ok(ip)
}

/// A test on addresses that a search can apply.
pub enum AddressRule {
    /// The family is not in conflict with the forced one.
    Allowed { force_ipv4: bool, force_ipv6: bool },
    /// Allowed, and of the given family.
    AllowedOfFamily { force_ipv4: bool, force_ipv6: bool, ipv6: bool },
    /// Of the given family.
    Family { ipv6: bool },
    /// Of the given family and neither loopback (IPv4) nor link-local (IPv6).
    PreferredSource { ipv6: bool },
}

impl AddressRule {
    pub open spec fn holds(self, a: IpAddress) -> bool {
        match self {
            AddressRule::Allowed { force_ipv4, force_ipv6 } => family_allowed(
                a,
                force_ipv4,
                force_ipv6,
            ),
            AddressRule::AllowedOfFamily { force_ipv4, force_ipv6, ipv6 } => family_allowed(
                a,
                force_ipv4,
                force_ipv6,
            ) && (a is V6) == ipv6,
            AddressRule::Family { ipv6 } => (a is V6) == ipv6,
            AddressRule::PreferredSource { ipv6 } => match a {
                IpAddress::V4(x) => !ipv6 && !spec_is_loopback_v4(x),
                IpAddress::V6(x) => ipv6 && !spec_is_link_local_v6(x),
            },
        }
    }

    fn test(&self, a: IpAddress) -> (r: bool)
        ensures
            r == self.holds(a),
    {
        match self {
            AddressRule::Allowed { force_ipv4, force_ipv6 } => match a {
                IpAddress::V4(_) => !(!*force_ipv4 && *force_ipv6),
                IpAddress::V6(_) => !(*force_ipv4 && !*force_ipv6),
            },
            AddressRule::AllowedOfFamily { force_ipv4, force_ipv6, ipv6 } => {
                let allowed = match a {
                    IpAddress::V4(_) => !(!*force_ipv4 && *force_ipv6),
                    IpAddress::V6(_) => !(*force_ipv4 && !*force_ipv6),
                };
                allowed && a.is_ipv6() == *ipv6
            },
            AddressRule::Family { ipv6 } => a.is_ipv6() == *ipv6,
            AddressRule::PreferredSource { ipv6 } => match a {
                IpAddress::V4(x) => !*ipv6 && !is_loopback_v4(x),
                IpAddress::V6(x) => *ipv6 && !is_link_local_v6(x),
            },
        }
    }
}

/// The first address of `s` that satisfies `rule`, if any.
pub open spec fn first_where(s: Seq<IpAddress>, rule: AddressRule) -> Option<IpAddress>
    decreases s.len(),
{
    if s.len() == 0 {
        None
    } else if rule.holds(s[0]) {
        Some(s[0])
    } else {
        first_where(s.drop_first(), rule)
    }
}

proof fn lemma_first_where_skip(s: Seq<IpAddress>, rule: AddressRule, i: int)
    requires
        0 <= i < s.len(),
    ensures
        first_where(s.subrange(i, s.len() as int), rule) == if rule.holds(s[i]) {
            Some(s[i])
        } else {
            first_where(s.subrange(i + 1, s.len() as int), rule)
        },
{
    assert(s.subrange(i, s.len() as int).drop_first() =~= s.subrange(i + 1, s.len() as int));
}

/// The first address of `addrs` that satisfies `rule`, if any.
fn find_first(addrs: &Vec<IpAddress>, rule: &AddressRule) -> (r: Option<IpAddress>)
    ensures
        r == first_where(addrs@, *rule),
{
    let n = addrs.len();
    let mut i: usize = 0;
    assert(addrs@.subrange(0, n as int) =~= addrs@);
    while i < n
        invariant
            n == addrs@.len(),
            i <= n,
            first_where(addrs@, *rule) == first_where(addrs@.subrange(i as int, n as int), *rule),
        decreases n - i,
    {
        proof {
            lemma_first_where_skip(addrs@, *rule, i as int);
        }
        if rule.test(addrs[i]) {
            return Some(addrs[i]);
        }
        i = i + 1;
    }
    None
}

/// The address that a name resolves to: among the addresses the lookup
/// returned whose family is allowed, the first of the preferred family (IPv6
/// when IPv6 is forced, IPv4 otherwise), else the first allowed one.
pub open spec fn resolved_choice(s: Seq<IpAddress>, force_ipv4: bool, force_ipv6: bool) -> Result<
    IpAddress,
    ResolveError,
> {
    if s.len() == 0 {
        Err(ResolveError::NoAddresses)
    } else {
        match first_where(s, AddressRule::Allowed { force_ipv4, force_ipv6 }) {
            None => Err(ResolveError::NoAddressOfFamily),
            Some(a) => match first_where(
                s,
                AddressRule::AllowedOfFamily { force_ipv4, force_ipv6, ipv6: force_ipv6 },
            ) {
                Some(p) => Ok(p),
                None => Ok(a),
            },
        }
    }
}

/// Picks the address to probe among those a lookup returned.
pub fn select_resolved(addrs: &Vec<IpAddress>, force_ipv4: bool, force_ipv6: bool) -> (r: Result<
    IpAddress,
    ResolveError,
>)
    ensures
        r == resolved_choice(addrs@, force_ipv4, force_ipv6),
{
    if addrs.len() == 0 {
        return Err(ResolveError::NoAddresses);
    }
    let any = find_first(addrs, &AddressRule::Allowed { force_ipv4, force_ipv6 });
    match any {
        None => Err(ResolveError::NoAddressOfFamily),
        Some(a) => {
            let preferred = find_first(
                addrs,
                &AddressRule::AllowedOfFamily { force_ipv4, force_ipv6, ipv6: force_ipv6 },
            );
            match preferred {
                Some(p) => Ok(p),
                None => Ok(a),
            }
        },
    }
}

/// The source address to bind for an interface: among its addresses of the
/// wanted family, the first that is neither loopback nor link-local, else
/// the first of that family.
pub open spec fn source_choice(s: Seq<IpAddress>, want_ipv6: bool) -> Option<IpAddress> {
    match first_where(s, AddressRule::PreferredSource { ipv6: want_ipv6 }) {
        Some(a) => Some(a),
        None => first_where(s, AddressRule::Family { ipv6: want_ipv6 }),
    }
}

/// Picks a source address among an interface's addresses.
pub fn pick_source_address(addrs: &Vec<IpAddress>, want_ipv6: bool) -> (r: Option<IpAddress>)
    ensures
        r == source_choice(addrs@, want_ipv6),
{
    match find_first(addrs, &AddressRule::PreferredSource { ipv6: want_ipv6 }) {
        Some(a) => Some(a),
        None => find_first(addrs, &AddressRule::Family { ipv6: want_ipv6 }),
    }
}

} // verus!
