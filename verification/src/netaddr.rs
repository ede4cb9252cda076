//! The LAN address of this host, under which renderers reach the media
//! server.
use vstd::prelude::*;
use crate::text::{
    append, chars_of, contains, contains_str, lines, lines_of, push_char, push_decimal, decimal, split_fields,
    split_on, string_of, strings_view, trim, trim_exec, views,
};

verus! {

/// An IPv4 address by its four octets.
pub type Ipv4Octets = [u8; 4];

/// `Ipv4Addr::is_loopback`: in 127.0.0.0/8.
pub open spec fn is_loopback(ip: Seq<u8>) -> bool {
    ip[0] == 127
}

/// `Ipv4Addr::is_unspecified`: 0.0.0.0.
pub open spec fn is_unspecified(ip: Seq<u8>) -> bool {
    ip[0] == 0 && ip[1] == 0 && ip[2] == 0 && ip[3] == 0
}

/// `Ipv4Addr::is_multicast`: in 224.0.0.0/4.
pub open spec fn is_multicast(ip: Seq<u8>) -> bool {
    224 <= ip[0] && ip[0] <= 239
}

/// `Ipv4Addr::is_broadcast`: 255.255.255.255.
pub open spec fn is_broadcast(ip: Seq<u8>) -> bool {
    ip[0] == 255 && ip[1] == 255 && ip[2] == 255 && ip[3] == 255
}

/// An address that renderers on the LAN can use.
pub open spec fn is_usable_spec(ip: Seq<u8>) -> bool {
    !is_loopback(ip) && !is_unspecified(ip) && !is_multicast(ip) && !is_broadcast(ip)
}

/// Whether an address can serve as the LAN address of the host.
pub fn is_usable_lan_ip(ip: Ipv4Octets) -> (r: bool)
    ensures
        r == is_usable_spec(ip@),
{
    let loopback = ip[0] == 127;
    let unspecified = ip[0] == 0 && ip[1] == 0 && ip[2] == 0 && ip[3] == 0;
    let multicast = 224 <= ip[0] && ip[0] <= 239;
    let broadcast = ip[0] == 255 && ip[1] == 255 && ip[2] == 255 && ip[3] == 255;
    !loopback && !unspecified && !multicast && !broadcast
}

fn same_ip(a: Ipv4Octets, b: Ipv4Octets) -> (r: bool)
    ensures
        r == (a@ == b@),
{
    let r = a[0] == b[0] && a[1] == b[1] && a[2] == b[2] && a[3] == b[3];
    if r {
        assert(a@ =~= b@);
    }
    r
}

/// Add a usable address to the list unless it is already there.
pub fn push_unique_ip(ips: &mut Vec<Ipv4Octets>, ip: Ipv4Octets)
    ensures
        final(ips)@ == if is_usable_spec(ip@) && !old(ips)@.map_values(|a: Ipv4Octets| a@).contains(ip@) {
            old(ips)@.push(ip)
        } else {
            old(ips)@
        },
{
    if !is_usable_lan_ip(ip) {
        return;
    }
    let mut i: usize = 0;
    while i < ips.len()
        invariant
            i <= ips@.len(),
            forall|j: int| 0 <= j < i ==> ips@[j]@ != ip@,
        decreases ips.len() - i,
    {
        if same_ip(ips[i], ip) {
            assert(ips@.map_values(|a: Ipv4Octets| a@)[i as int] == ip@);
            return;
        }
        i += 1;
    }
    proof {
        if ips@.map_values(|a: Ipv4Octets| a@).contains(ip@) {
            let m = ips@.map_values(|a: Ipv4Octets| a@);
            let j = choose|j: int| 0 <= j < m.len() && #[trigger] m[j] == ip@;
            assert(ips@[j]@ == ip@);
        }
    }
    ips.push(ip);
}

/// The addresses in order, usable ones only, each once.
pub open spec fn unique_usable(acc: Seq<Ipv4Octets>, rest: Seq<Ipv4Octets>) -> Seq<Ipv4Octets>
    decreases rest.len(),
{
    if rest.len() == 0 {
        acc
    } else {
        let ip = rest[0];
        let next = if is_usable_spec(ip@) && !acc.map_values(|a: Ipv4Octets| a@).contains(ip@) {
            acc.push(ip)
        } else {
            acc
        };
        unique_usable(next, rest.drop_first())
    }
}

/// The addresses that the route probes found, in order (a failed probe
/// finds none).
pub open spec fn probe_hits(probes: Seq<Option<Ipv4Octets>>) -> Seq<Ipv4Octets>
    decreases probes.len(),
{
    if probes.len() == 0 {
        seq![]
    } else {
        let r = probe_hits(probes.drop_last());
        match probes.last() {
            Some(ip) => r.push(ip),
            None => r,
        }
    }
}

/// The LAN addresses to try, in order of preference, each once: what the
/// route probes found, then what the interface listing shows.
pub fn local_ipv4_candidates(probes: &[Option<Ipv4Octets>], listed: &[Ipv4Octets]) -> (r: Vec<Ipv4Octets>)
    ensures
        r@ == unique_usable(Seq::empty(), probe_hits(probes@) + listed@),
{
    let mut all: Vec<Ipv4Octets> = Vec::new();
    let mut i: usize = 0;
    while i < probes.len()
        invariant
            i <= probes@.len(),
            all@ == probe_hits(probes@.take(i as int)),
        decreases probes.len() - i,
    {
        assert(probes@.take(i + 1).drop_last() =~= probes@.take(i as int));
        assert(probes@.take(i + 1).last() == probes@[i as int]);
        if let Some(ip) = probes[i] {
            all.push(ip);
        }
        i += 1;
    }
    assert(probes@.take(probes@.len() as int) =~= probes@);
    let mut k: usize = 0;
    while k < listed.len()
        invariant
            k <= listed@.len(),
            all@ == probe_hits(probes@) + listed@.take(k as int),
        decreases listed.len() - k,
    {
        all.push(listed[k]);
        assert(all@ =~= probe_hits(probes@) + listed@.take(k + 1));
        k += 1;
    }
    assert(listed@.take(listed@.len() as int) =~= listed@);
    let ghost total = all@;
    let mut out: Vec<Ipv4Octets> = Vec::new();
    let mut j: usize = 0;
    assert(total.skip(0) =~= total);
    while j < all.len()
        invariant
            j <= all@.len(),
            all@ == total,
            unique_usable(Seq::empty(), total) == unique_usable(out@, total.skip(j as int)),
        decreases all.len() - j,
    {
        assert(total.skip(j as int)[0] == total[j as int]);
        assert(total.skip(j as int).drop_first() =~= total.skip(j + 1));
        push_unique_ip(&mut out, all[j]);
        j += 1;
    }
    assert(total.skip(j as int) =~= Seq::<Ipv4Octets>::empty());
    out
}

/// The address in dotted decimal notation.
pub open spec fn dotted_spec(ip: Seq<u8>) -> Seq<char> {
    decimal(ip[0] as nat) + "."@ + decimal(ip[1] as nat) + "."@ + decimal(ip[2] as nat) + "."@ + decimal(
        ip[3] as nat,
    )
}

/// Write an address in dotted decimal notation.
pub fn ip_to_string(ip: Ipv4Octets) -> (r: String)
    ensures
        r@ == dotted_spec(ip@),
{
    let mut s = String::new();
    push_decimal(&mut s, ip[0] as u64);
    append(&mut s, ".");
    push_decimal(&mut s, ip[1] as u64);
    append(&mut s, ".");
    push_decimal(&mut s, ip[2] as u64);
    append(&mut s, ".");
    push_decimal(&mut s, ip[3] as u64);
    s
}

/// The first LAN address of the host, in dotted decimal notation.
pub fn local_ip(candidates: &[Ipv4Octets]) -> (r: Option<String>)
    ensures
        candidates@.len() == 0 ==> r is None,
        candidates@.len() > 0 ==> (r matches Some(s) && s@ == dotted_spec(candidates@[0]@)),
{
    if candidates.len() == 0 {
        None
    } else {
        Some(ip_to_string(candidates[0]))
    }
}

/// The address that an `ipconfig` line offers: in a trimmed line that
/// mentions `IPv4`, the trimmed text after its last `:`.
pub open spec fn ipconfig_line_address(line: Seq<char>) -> Option<Seq<char>> {
    let t = trim(line);
    if contains(t, "IPv4"@) {
        Some(trim(split_fields(t, ':').last()))
    } else {
        None
    }
}

/// The address texts that the lines of `ipconfig` output offer, in order.
pub open spec fn ipconfig_addresses(ls: Seq<Seq<char>>) -> Seq<Seq<char>>
    decreases ls.len(),
{
    if ls.len() == 0 {
        seq![]
    } else {
        let rest = ipconfig_addresses(ls.drop_first());
        match ipconfig_line_address(ls[0]) {
            Some(a) => seq![a] + rest,
            None => rest,
        }
    }
}

/// The IPv4 address texts that `ipconfig` output shows, in order; the
/// caller parses them and keeps the usable ones, each once.
pub fn ipconfig_ipv4_addresses(stdout: &str) -> (r: Vec<String>)
    ensures
        strings_view(r@) == ipconfig_addresses(lines(stdout@)),
{
    let ls = lines_of(stdout);
    let mut out: Vec<String> = Vec::new();
    let mut i: usize = 0;
    let ghost lv = strings_view(ls@);
    assert(lv.skip(0) =~= lv);
    while i < ls.len()
        invariant
            i <= ls@.len(),
            lv == strings_view(ls@),
            lv == lines(stdout@),
            ipconfig_addresses(lv) == strings_view(out@) + ipconfig_addresses(lv.skip(i as int)),
        decreases ls.len() - i,
    {
        let ghost rest = lv.skip(i as int);
        assert(rest[0] == ls@[i as int]@);
        assert(rest.drop_first() =~= lv.skip(i + 1));
        let ghost before = strings_view(out@);
        let t = trim_exec(&chars_of(ls[i].as_str()));
        if contains_str(&t, "IPv4") {
            let parts = split_on(&t, ':');
            proof {
                crate::api::lemma_split_fields_nonempty(t@, ':');
            }
            let last = &parts[parts.len() - 1];
            assert(views(parts@)[parts@.len() - 1] == last@);
            let a = string_of(&trim_exec(last));
            out.push(a);
            assert(strings_view(out@) =~= before.push(a@));
            assert(seq![a@] + ipconfig_addresses(lv.skip(i + 1)) == ipconfig_addresses(rest));
            assert(before.push(a@) + ipconfig_addresses(lv.skip(i + 1)) =~= before + (seq![a@] + ipconfig_addresses(
                lv.skip(i + 1),
            )));
        }
        i += 1;
    }
    assert(lv.skip(i as int) =~= Seq::<Seq<char>>::empty());
    assert(strings_view(out@) + Seq::<Seq<char>>::empty() =~= strings_view(out@));
    out
}

/// The candidate list holds only usable addresses, each once, and every
/// usable address that was offered.
pub proof fn lemma_unique_usable(acc: Seq<Ipv4Octets>, rest: Seq<Ipv4Octets>)
    requires
        acc.map_values(|a: Ipv4Octets| a@).no_duplicates(),
        forall|i: int| 0 <= i < acc.len() ==> is_usable_spec(#[trigger] acc[i]@),
    ensures
        unique_usable(acc, rest).map_values(|a: Ipv4Octets| a@).no_duplicates(),
        forall|i: int| 0 <= i < unique_usable(acc, rest).len() ==> is_usable_spec(#[trigger] unique_usable(acc, rest)[i]@),
        forall|j: int|
            0 <= j < rest.len() && is_usable_spec(rest[j]@) ==> unique_usable(acc, rest).map_values(|a: Ipv4Octets| a@).contains(
                #[trigger] rest[j]@,
            ),
    decreases rest.len(),
{
    if rest.len() > 0 {
        let ip = rest[0];
        let av = acc.map_values(|a: Ipv4Octets| a@);
        let add = is_usable_spec(ip@) && !av.contains(ip@);
        let next = if add {
            acc.push(ip)
        } else {
            acc
        };
        let nv = next.map_values(|a: Ipv4Octets| a@);
        assert(nv.no_duplicates()) by {
            if add {
                assert(nv =~= av.push(ip@));
                assert forall|a: int, b: int| 0 <= a < nv.len() && 0 <= b < nv.len() && a != b implies nv[a] != nv[b] by {
                    if a < av.len() && b < av.len() {
                    } else if a < av.len() {
                        assert(nv[a] == av[a]);
                    } else {
                        assert(nv[b] == av[b]);
                    }
                }
            }
        }
        assert forall|i: int| 0 <= i < next.len() implies is_usable_spec(#[trigger] next[i]@) by {
            if add && i == acc.len() {
            } else {
                assert(next[i] == acc[i]);
            }
        }
        lemma_unique_usable(next, rest.drop_first());
        lemma_unique_usable_keeps(next, rest.drop_first());
        let r = unique_usable(acc, rest);
        assert forall|j: int| 0 <= j < rest.len() && is_usable_spec(rest[j]@) implies r.map_values(|a: Ipv4Octets| a@).contains(
            #[trigger] rest[j]@,
        ) by {
            if j == 0 {
                if add {
                    assert(nv[acc.len() as int] == ip@);
                } else {
                    assert(av.contains(ip@));
                    let k = choose|k: int| 0 <= k < av.len() && av[k] == ip@;
                    assert(nv[k] == ip@);
                }
            } else {
                assert(rest.drop_first()[j - 1] == rest[j]);
            }
        }
    }
}

/// What is already a candidate stays one.
pub proof fn lemma_unique_usable_keeps(acc: Seq<Ipv4Octets>, rest: Seq<Ipv4Octets>)
    ensures
        forall|k: int| 0 <= k < acc.len() ==> unique_usable(acc, rest).map_values(|a: Ipv4Octets| a@).contains(#[trigger] acc[k]@),
    decreases rest.len(),
{
    if rest.len() > 0 {
        let ip = rest[0];
        let av = acc.map_values(|a: Ipv4Octets| a@);
        let next = if is_usable_spec(ip@) && !av.contains(ip@) {
            acc.push(ip)
        } else {
            acc
        };
        lemma_unique_usable_keeps(next, rest.drop_first());
        assert forall|k: int| 0 <= k < acc.len() implies unique_usable(acc, rest).map_values(|a: Ipv4Octets| a@).contains(
            #[trigger] acc[k]@,
        ) by {
            assert(next[k] == acc[k]);
        }
    } else {
        assert forall|k: int| 0 <= k < acc.len() implies acc.map_values(|a: Ipv4Octets| a@).contains(#[trigger] acc[k]@) by {
            assert(acc.map_values(|a: Ipv4Octets| a@)[k] == acc[k]@);
        }
    }
}

} // verus!
