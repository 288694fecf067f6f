//! mDNS discovery: the names this instance registers under, the properties
//! it announces, and the table of peers built from what the network reports.
use vstd::prelude::*;
use crate::text::{
    chars_eq, chars_of, contains, ends_with, first_some, has_prefix, has_substring,
    lemma_first_some_at, lemma_first_some_end, lemma_first_some_found, lemma_first_some_step,
    matches_at, starts_with, string_from_chars,
    to_string,
};
use vstd::utf8::encode_utf8;
use crate::types::{IpAddress, PeerInfo, SocketAddress};

verus! {

// ---------------------------------------------------------------------
// Names and properties.
/// The FNV-1a hash (32 bits) of a byte string: from the offset basis, each
/// byte is mixed in by exclusive or and a multiplication by the FNV prime,
/// modulo 2^32.
pub open spec fn fnv1a(bytes: Seq<u8>) -> u32
    decreases bytes.len(),
{
    if bytes.len() == 0 {
        0x811c9dc5u32
    } else {
        (fnv1a(bytes.drop_last()) ^ (bytes.last() as u32)).wrapping_mul(0x0100_0193u32)
    }
}

/// The lowercase hexadecimal digit of a value below 16.
pub open spec fn hex_char(d: nat) -> char {
    "0123456789abcdef"@[d as int]
}

/// The `k` lowest hexadecimal digits of `n`, most significant first.
pub open spec fn hex_digits(n: nat, k: nat) -> Seq<char>
    decreases k,
{
    if k == 0 {
        Seq::empty()
    } else {
        hex_digits(n / 16, (k - 1) as nat).push(hex_char(n % 16))
    }
}

/// The instance name of this machine's service: `"se-"` and the eight
/// hexadecimal digits of the FNV-1a hash of the host name's UTF-8 bytes, so
/// that it stays within the 15 bytes of an mDNS instance label.
pub open spec fn instance_name_of(hostname: Seq<char>) -> Seq<char> {
    "se-"@ + hex_digits(fnv1a(encode_utf8(hostname)) as nat, 8)
}

fn fnv1a_of(bytes: &[u8]) -> (h: u32)
    ensures
        h == fnv1a(bytes@),
{
    let mut h: u32 = 0x811c9dc5;
    let n: usize = bytes.len();
    for i in 0..n
        invariant
            n == bytes@.len(),
            h == fnv1a(bytes@.take(i as int)),
    {
        assert(bytes@.take(i + 1).drop_last() =~= bytes@.take(i as int));
        h = (h ^ (bytes[i] as u32)).wrapping_mul(0x0100_0193u32);
    }
    assert(bytes@.take(n as int) =~= bytes@);
    h
}

/// Appends the `k` lowest hexadecimal digits of `n`.
fn push_hex(out: &mut Vec<char>, n: u32, k: u32)
    requires
        k <= 8,
    ensures
        final(out)@ == old(out)@ + hex_digits(n as nat, k as nat),
    decreases k,
{
    if k > 0 {
        push_hex(out, n / 16, k - 1);
        let digits = chars_of("0123456789abcdef");
        proof {
            reveal_strlit("0123456789abcdef");
        }
        let d: usize = (n % 16) as usize;
        let ghost before = out@;
        out.push(digits[d]);
        assert(out@ =~= old(out)@ + hex_digits(n as nat, k as nat));
    }
}

/// The instance name that this machine registers its service under.
pub fn instance_name(hostname: &str) -> (name: String)
    ensures
        name@ == instance_name_of(hostname@),
{
    let h = fnv1a_of(hostname.as_bytes());
    let mut out: Vec<char> = chars_of("se-");
    push_hex(&mut out, h, 8);
    string_from_chars(out.as_slice())
}

proof fn lemma_hex_digits(n: nat, k: nat)
    ensures
        hex_digits(n, k).len() == k,
        forall|i: int| 0 <= i < k ==> (#[trigger] hex_digits(n, k)[i]) as u32 <= 0x7f,
    decreases k,
{
    reveal_strlit("0123456789abcdef");
    if k > 0 {
        lemma_hex_digits(n / 16, (k - 1) as nat);
        let d = n % 16;
        assert(hex_char(d) as u32 <= 0x7f);
    }
}

/// An instance name has eleven characters, all ASCII, so it fits the 15
/// bytes of an mDNS instance label; and equal host names give equal
/// instance names.
pub proof fn law_instance_name_short(hostname: Seq<char>, other: Seq<char>)
    ensures
        instance_name_of(hostname).len() == 11,
        forall|i: int|
            0 <= i < 11 ==> (#[trigger] instance_name_of(hostname)[i]) as u32 <= 0x7f,
        hostname == other ==> instance_name_of(hostname) == instance_name_of(other),
{
    reveal_strlit("se-");
    lemma_hex_digits(fnv1a(encode_utf8(hostname)) as nat, 8);
    let name = instance_name_of(hostname);
    assert forall|i: int| 0 <= i < 11 implies (#[trigger] name[i]) as u32 <= 0x7f by {
        if i >= 3 {
            assert(name[i] == hex_digits(fnv1a(encode_utf8(hostname)) as nat, 8)[i - 3]);
        }
    }
}

/// The name without any final dots.
pub open spec fn trim_end_dots(h: Seq<char>) -> Seq<char>
    decreases h.len(),
{
    if h.len() > 0 && h.last() == '.' {
        trim_end_dots(h.drop_last())
    } else {
        h
    }
}

/// The name without any final `".local"`, however often it repeats.
pub open spec fn trim_end_local(h: Seq<char>) -> Seq<char>
    decreases h.len(),
{
    if h.len() >= 6 && ends_with(h, ".local"@) {
        trim_end_local(h.take(h.len() - 6))
    } else {
        h
    }
}

/// The mDNS host name for a machine name: the name without its final dots,
/// then without its final `".local"`, followed by `".local."`.
pub open spec fn mdns_host_name_of(h: Seq<char>) -> Seq<char> {
    trim_end_local(trim_end_dots(h)) + ".local."@
}

/// Whether `h` ends with `".local"` before position `end`.
fn local_before(h: &[char], end: usize) -> (r: bool)
    requires
        end <= h@.len(),
    ensures
        r == (end >= 6 && ends_with(h@.take(end as int), ".local"@)),
{
    proof {
        reveal_strlit(".local");
    }
    if end < 6 {
        return false;
    }
    let local = chars_of(".local");
    let r = matches_at(h, local.as_slice(), end - 6);
    assert(h@.take(end as int).skip(end - 6) =~= h@.subrange(end - 6, end as int));
    r
}

/// The host name that the service is registered with.
pub fn mdns_host_name(hostname: &str) -> (name: String)
    ensures
        name@ == mdns_host_name_of(hostname@),
{
    let h = chars_of(hostname);
    let mut end: usize = h.len();
    assert(h@.take(end as int) =~= h@);
    while end > 0 && h[end - 1] == '.'
        invariant
            end <= h@.len(),
            trim_end_dots(h@) == trim_end_dots(h@.take(end as int)),
        decreases end,
    {
        assert(h@.take(end as int).drop_last() =~= h@.take(end - 1));
        end = end - 1;
    }
    let ghost dotless = h@.take(end as int);
    assert(trim_end_dots(h@) == dotless);
    while local_before(h.as_slice(), end)
        invariant
            end <= h@.len(),
            trim_end_local(dotless) == trim_end_local(h@.take(end as int)),
        decreases end,
    {
        assert(h@.take(end as int).take(end - 6) =~= h@.take(end - 6));
        end = end - 6;
    }
    let mut out: Vec<char> = Vec::new();
    for i in 0..end
        invariant
            end <= h@.len(),
            out@ == h@.take(i as int),
    {
        out.push(h[i]);
        assert(out@ =~= h@.take(i + 1));
    }
    let mut name = string_from_chars(out.as_slice());
    name.append(".local.");
    name
}

proof fn lemma_trim_end_local_done(h: Seq<char>)
    ensures
        trim_end_local(trim_end_local(h)) == trim_end_local(h),
    decreases h.len(),
{
    if h.len() >= 6 && ends_with(h, ".local"@) {
        lemma_trim_end_local_done(h.take(h.len() - 6));
    }
}

/// A registered name always ends in `".local."`, and registering it again
/// keeps it as it is.
pub proof fn law_mdns_host_name(h: Seq<char>)
    ensures
        ends_with(mdns_host_name_of(h), ".local."@),
        mdns_host_name_of(mdns_host_name_of(h)) == mdns_host_name_of(h),
{
    reveal_strlit(".local.");
    reveal_strlit(".local");
    let b = trim_end_local(trim_end_dots(h));
    let r = b + ".local."@;
    assert(r.skip(r.len() - 7) =~= ".local."@);
    let l = b + ".local"@;
    assert(r.drop_last() =~= l);
    assert(r.last() == '.');
    assert(l.last() == 'l');
    assert(trim_end_dots(l) == l);
    assert(trim_end_dots(r) == l);
    assert(l.skip(l.len() - 6) =~= ".local"@);
    assert(l.take(l.len() - 6) =~= b);
    assert(trim_end_local(l) == trim_end_local(b));
    lemma_trim_end_local_done(trim_end_dots(h));
}

/// An IPv4 address of one of this machine's network interfaces.
#[derive(Debug, Clone)]
pub struct NetInterface {
    /// The interface's name (`eth0`, `wlp2s0`, `docker0`, ...).
    pub name: String,
    /// The address, by its octets in network order.
    pub ipv4: [u8; 4],
}

/// Interfaces of containers, bridges and virtual ethernet pairs, which no
/// peer on the local network can reach.
pub open spec fn is_virtual_interface(name: Seq<char>) -> bool {
    starts_with(name, "docker"@) || starts_with(name, "br-"@) || starts_with(name, "veth"@)
}

/// An address of a home or office network: 192.168.x.x or 10.x.x.x.
pub open spec fn is_lan_address(a: [u8; 4]) -> bool {
    a@[0] == 10 || (a@[0] == 192 && a@[1] == 168)
}

/// The address an interface offers: its own, when it is a physical
/// interface on the local network.
pub open spec fn offered_address(i: NetInterface) -> Option<[u8; 4]> {
    if !is_virtual_interface(i.name@) && is_lan_address(i.ipv4) {
        Some(i.ipv4)
    } else {
        None
    }
}

pub open spec fn offered_address_fn() -> spec_fn(NetInterface) -> Option<[u8; 4]> {
    |i: NetInterface| offered_address(i)
}

/// The address the service is registered with: that of the first physical
/// interface on the local network, in the order the interfaces are listed.
pub open spec fn lan_address_of(interfaces: Seq<NetInterface>) -> Option<[u8; 4]> {
    first_some(interfaces, offered_address_fn())
}

fn interface_address(i: &NetInterface) -> (r: Option<[u8; 4]>)
    ensures
        r == offered_address(*i),
{
    let name = chars_of(i.name.as_str());
    let docker = chars_of("docker");
    let bridge = chars_of("br-");
    let veth = chars_of("veth");
    let is_virtual = has_prefix(name.as_slice(), docker.as_slice()) || has_prefix(
        name.as_slice(),
        bridge.as_slice(),
    ) || has_prefix(name.as_slice(), veth.as_slice());
    let a = i.ipv4;
    let lan = a[0] == 10 || (a[0] == 192 && a[1] == 168);
    if !is_virtual && lan {
        Some(a)
    } else {
        None
    }
}

/// The physical local-network address to register the service with, from
/// the IPv4 addresses of this machine's interfaces; `None` when no
/// interface offers one.
pub fn lan_address(interfaces: &Vec<NetInterface>) -> (r: Option<[u8; 4]>)
    ensures
        r == lan_address_of(interfaces@),
{
    let n: usize = interfaces.len();
    let ghost f = offered_address_fn();
    proof {
        lemma_first_some_end(interfaces@, f);
    }
    for k in 0..n
        invariant
            n == interfaces@.len(),
            f == offered_address_fn(),
            first_some(interfaces@, f) == first_some(interfaces@.skip(k as int), f),
    {
        let r = interface_address(&interfaces[k]);
        proof {
            lemma_first_some_step(interfaces@, f, k as int);
            assert(f(interfaces@[k as int]) == offered_address(interfaces@[k as int]));
        }
        if r.is_some() {
            return r;
        }
    }
    proof {
        lemma_first_some_end(interfaces@, f);
    }
    None
}

/// An interface that peers can reach the service through: not a container,
/// bridge or virtual ethernet interface, and on 10.x.x.x or 192.168.x.x.
pub open spec fn is_physical_lan(i: NetInterface) -> bool {
    &&& !starts_with(i.name@, "docker"@)
    &&& !starts_with(i.name@, "br-"@)
    &&& !starts_with(i.name@, "veth"@)
    &&& (i.ipv4@[0] == 10 || (i.ipv4@[0] == 192 && i.ipv4@[1] == 168))
}

/// The address registered is that of an interface peers can reach: any
/// address in 10.0.0.0/8 or 192.168.0.0/16 of a physical interface is
/// offered, whatever its other octets, and nothing else is; among the
/// interfaces, the first one listed that offers an address is taken, and an
/// address is found whenever one offers it.
pub proof fn law_lan_address(interfaces: Seq<NetInterface>, i: int)
    requires
        0 <= i < interfaces.len(),
    ensures
        offered_address(interfaces[i]) is Some <==> is_physical_lan(interfaces[i]),
        offered_address(interfaces[i]) is Some ==> offered_address(interfaces[i]) == Some(
            interfaces[i].ipv4,
        ),
        is_physical_lan(interfaces[i]) && (forall|j: int|
            0 <= j < i ==> !is_physical_lan(#[trigger] interfaces[j])) ==> lan_address_of(
            interfaces,
        ) == Some(interfaces[i].ipv4),
        lan_address_of(interfaces) matches Some(a) ==> exists|k: int|
            0 <= k < interfaces.len() && is_physical_lan(#[trigger] interfaces[k])
                && interfaces[k].ipv4 == a,
        is_physical_lan(interfaces[i]) ==> lan_address_of(interfaces) is Some,
{
    let f = offered_address_fn();
    assert forall|j: int| 0 <= j < interfaces.len() implies (f(#[trigger] interfaces[j]) is Some
        <==> is_physical_lan(interfaces[j])) && (f(interfaces[j]) is Some ==> f(interfaces[j])
        == Some(interfaces[j].ipv4)) by {}
    if is_physical_lan(interfaces[i]) && (forall|j: int|
        0 <= j < i ==> !is_physical_lan(#[trigger] interfaces[j])) {
        assert forall|j: int| 0 <= j < i implies f(#[trigger] interfaces[j]) is None by {
            assert(!is_physical_lan(interfaces[j]));
        }
        lemma_first_some_at(interfaces, f, i);
    }
    lemma_first_some_found(interfaces, f);
    if lan_address_of(interfaces) is Some {
        let k = choose|k: int|
            0 <= k < interfaces.len() && f(#[trigger] interfaces[k]) == first_some(interfaces, f)
                && forall|j: int| 0 <= j < k ==> f(#[trigger] interfaces[j]) is None;
        assert(is_physical_lan(interfaces[k]));
    } else {
        assert(f(interfaces[i]) is None);
    }
}

/// The TXT properties announced with the service, as (key, value) pairs.
pub open spec fn service_properties_of(is_host: bool, hostname: Seq<char>) -> Seq<(Seq<char>, Seq<char>)> {
    seq![
        ("role"@, if is_host { "host"@ } else { "client"@ }),
        ("hostname"@, hostname),
        ("version"@, "1"@),
    ]
}

pub fn service_properties(is_host: bool, hostname: &str) -> (props: Vec<(String, String)>)
    ensures
        props@.map_values(|p: (String, String)| (p.0@, p.1@)) == service_properties_of(
            is_host,
            hostname@,
        ),
{
    let role = if is_host {
        to_string("host")
    } else {
        to_string("client")
    };
    let mut props: Vec<(String, String)> = Vec::new();
    props.push((to_string("role"), role));
    props.push((to_string("hostname"), to_string(hostname)));
    props.push((to_string("version"), to_string("1")));
    assert(props@.map_values(|p: (String, String)| (p.0@, p.1@)) =~= service_properties_of(
        is_host,
        hostname@,
    ));
    props
}

// ---------------------------------------------------------------------
// Peers.
/// Events emitted by the discovery service.
#[derive(Debug, Clone)]
pub enum DiscoveryEvent {
    /// A new peer was discovered on the network.
    PeerDiscovered(PeerInfo),
    /// A previously discovered peer has gone offline (its hostname).
    PeerLost(String),
}

/// A copy of a peer's information.
pub fn copy_peer(p: &PeerInfo) -> (r: PeerInfo)
    ensures
        r == *p,
{
    PeerInfo { hostname: p.hostname.clone(), addr: p.addr, is_host: p.is_host }
}

/// The peer that a resolved service describes.
pub open spec fn resolved_peer(
    hostname_property: Option<String>,
    role_property: Option<String>,
    ip: IpAddress,
    port: u16,
    peer: PeerInfo,
) -> bool {
    &&& peer.hostname@ == match hostname_property {
        Some(h) => h@,
        None => "unknown"@,
    }
    &&& peer.addr == SocketAddress { ip, port }
    &&& peer.is_host == (role_property matches Some(r) && r@ == "host"@)
}

/// Currently known peers, keyed by their full service name.
pub struct PeerTable {
    entries: Vec<(String, PeerInfo)>,
}

impl PeerTable {
    pub closed spec fn wf(&self) -> bool {
        forall|i: int, j: int|
            0 <= i < self.entries@.len() && 0 <= j < self.entries@.len() && i != j
                ==> #[trigger] self.entries@[i].0@ != #[trigger] self.entries@[j].0@
    }

    closed spec fn has_key_at(&self, k: Seq<char>, i: int) -> bool {
        0 <= i < self.entries@.len() && self.entries@[i].0@ == k
    }

    /// The known peers by full service name.
    pub closed spec fn view(&self) -> Map<Seq<char>, PeerInfo> {
        Map::new(
            |k: Seq<char>| exists|i: int| self.has_key_at(k, i),
            |k: Seq<char>| self.entries@[choose|i: int| self.has_key_at(k, i)].1,
        )
    }

    proof fn lemma_lookup(&self, i: int)
        requires
            self.wf(),
            0 <= i < self.entries@.len(),
        ensures
            self@.dom().contains(self.entries@[i].0@),
            self@[self.entries@[i].0@] == self.entries@[i].1,
    {
        let k = self.entries@[i].0@;
        assert(self.has_key_at(k, i));
        let j: int = choose|j: int| self.has_key_at(k, j);
        assert(self.has_key_at(k, j));
        if i != j {
            assert(self.entries@[i].0@ != self.entries@[j].0@);
        }
    }

    /// As many peers are known as there are entries.
    proof fn lemma_dom_len(&self)
        requires
            self.wf(),
        ensures
            self@.dom().len() == self.entries@.len(),
    {
        let keys = self.entries@.map_values(|e: (String, PeerInfo)| e.0@);
        assert(keys.no_duplicates()) by {
            assert forall|i: int, j: int|
                0 <= i < keys.len() && 0 <= j < keys.len() && i != j implies keys[i] != keys[j] by {
                assert(self.entries@[i].0@ != self.entries@[j].0@);
            }
        }
        assert(keys.to_set() =~= self@.dom()) by {
            assert forall|k: Seq<char>| keys.to_set().contains(k) implies self@.dom().contains(k) by {
                let i = choose|i: int| 0 <= i < keys.len() && keys[i] == k;
                self.lemma_lookup(i);
            }
            assert forall|k: Seq<char>| self@.dom().contains(k) implies keys.to_set().contains(k) by {
                let i = choose|i: int| self.has_key_at(k, i);
                assert(keys[i] == k);
            }
        }
        keys.unique_seq_to_set();
    }

    pub fn new() -> (t: Self)
        ensures
            t.wf(),
            t@ == Map::<Seq<char>, PeerInfo>::empty(),
    {
        let t = PeerTable { entries: Vec::new() };
        assert(t@ =~= Map::<Seq<char>, PeerInfo>::empty());
        t
    }

    fn position(&self, key: &[char]) -> (r: Option<usize>)
        requires
            self.wf(),
        ensures
            match r {
                Some(i) => i < self.entries@.len() && self.entries@[i as int].0@ == key@,
                None => !self@.dom().contains(key@),
            },
    {
        let n: usize = self.entries.len();
        for i in 0..n
            invariant
                n == self.entries@.len(),
                forall|j: int| 0 <= j < i ==> self.entries@[j].0@ != key@,
        {
            let k = chars_of(self.entries[i].0.as_str());
            if chars_eq(k.as_slice(), key) {
                return Some(i);
            }
        }
        None
    }

    /// Records `peer` under `key`, in place of any peer known by that key.
    pub fn insert(&mut self, key: String, peer: PeerInfo)
        requires
            old(self).wf(),
        ensures
            final(self).wf(),
            final(self)@ == old(self)@.insert(key@, peer),
    {
        let kc = chars_of(key.as_str());
        let ghost key_view = key@;
        let ghost peer_v = peer;
        match self.position(kc.as_slice()) {
            Some(i) => {
                self.entries.set(i, (key, peer));
                proof {
                    let ov = old(self).entries@;
                    let nv = final(self).entries@;
                    assert forall|a: int, b: int|
                        0 <= a < nv.len() && 0 <= b < nv.len() && a != b
                            implies #[trigger] nv[a].0@ != #[trigger] nv[b].0@
                    by {
                        assert(nv[i as int].0@ == ov[i as int].0@);
                        if a != i {
                            assert(nv[a] == ov[a]);
                        }
                        if b != i {
                            assert(nv[b] == ov[b]);
                        }
                        assert(ov[a].0@ != ov[b].0@);
                    }
                    assert forall|k: Seq<char>| #![auto]
                        final(self)@.dom().contains(k) == old(self)@.insert(key_view, peer_v).dom().contains(k)
                    by {
                        if final(self)@.dom().contains(k) {
                            let j: int = choose|j: int| final(self).has_key_at(k, j);
                            if j != i {
                                assert(old(self).has_key_at(k, j));
                            }
                        }
                        if old(self)@.dom().contains(k) {
                            let j: int = choose|j: int| old(self).has_key_at(k, j);
                            if j != i {
                                assert(final(self).has_key_at(k, j));
                            } else {
                                assert(final(self).has_key_at(k, j));
                            }
                        }
                        if k == key_view {
                            assert(final(self).has_key_at(k, i as int));
                        }
                    }
                    assert forall|k: Seq<char>| #![auto] final(self)@.dom().contains(k) implies
                        final(self)@[k] == old(self)@.insert(key_view, peer_v)[k]
                    by {
                        let j: int = choose|j: int| final(self).has_key_at(k, j);
                        final(self).lemma_lookup(j);
                        if j != i {
                            old(self).lemma_lookup(j);
                        }
                    }
                    assert(final(self)@ =~= old(self)@.insert(key_view, peer_v));
                }
            },
            None => {
                self.entries.push((key, peer));
                proof {
                    let n: int = old(self).entries@.len() as int;
                    let ov = old(self).entries@;
                    let nv = final(self).entries@;
                    assert forall|a: int, b: int|
                        0 <= a < nv.len() && 0 <= b < nv.len() && a != b
                            implies #[trigger] nv[a].0@ != #[trigger] nv[b].0@
                    by {
                        if a == n {
                            assert(!old(self).has_key_at(key_view, b));
                        } else if b == n {
                            assert(!old(self).has_key_at(key_view, a));
                        } else {
                            assert(nv[a] == ov[a] && nv[b] == ov[b]);
                        }
                    }
                    assert forall|k: Seq<char>| #![auto]
                        final(self)@.dom().contains(k) == old(self)@.insert(key_view, peer_v).dom().contains(k)
                    by {
                        if final(self)@.dom().contains(k) {
                            let j: int = choose|j: int| final(self).has_key_at(k, j);
                            if j != n {
                                assert(old(self).has_key_at(k, j));
                            }
                        }
                        if old(self)@.dom().contains(k) {
                            let j: int = choose|j: int| old(self).has_key_at(k, j);
                            assert(final(self).has_key_at(k, j));
                        }
                        if k == key_view {
                            assert(final(self).has_key_at(k, n));
                        }
                    }
                    assert forall|k: Seq<char>| #![auto] final(self)@.dom().contains(k) implies
                        final(self)@[k] == old(self)@.insert(key_view, peer_v)[k]
                    by {
                        let j: int = choose|j: int| final(self).has_key_at(k, j);
                        final(self).lemma_lookup(j);
                        if j != n {
                            old(self).lemma_lookup(j);
                        }
                    }
                    assert(final(self)@ =~= old(self)@.insert(key_view, peer_v));
                }
            },
        }
    }

    /// Forgets the peer known by `key`, and hands it back if there was one.
    pub fn remove(&mut self, key: &str) -> (removed: Option<PeerInfo>)
        requires
            old(self).wf(),
        ensures
            final(self).wf(),
            final(self)@ == old(self)@.remove(key@),
            match removed {
                Some(p) => old(self)@.dom().contains(key@) && p == old(self)@[key@],
                None => !old(self)@.dom().contains(key@),
            },
    {
        let kc = chars_of(key);
        match self.position(kc.as_slice()) {
            Some(i) => {
                proof {
                    old(self).lemma_lookup(i as int);
                }
                let (_, peer) = self.entries.remove(i);
                proof {
                    let ov = old(self).entries@;
                    let nv = final(self).entries@;
                    assert(nv =~= ov.remove(i as int));
                    assert forall|a: int, b: int|
                        0 <= a < nv.len() && 0 <= b < nv.len() && a != b
                            implies #[trigger] nv[a].0@ != #[trigger] nv[b].0@
                    by {
                        let oa: int = if a < i { a } else { a + 1 };
                        let ob: int = if b < i { b } else { b + 1 };
                        assert(nv[a] == ov[oa] && nv[b] == ov[ob]);
                    }
                    assert forall|k: Seq<char>| #![auto]
                        final(self)@.dom().contains(k) == old(self)@.remove(key@).dom().contains(k)
                    by {
                        if final(self)@.dom().contains(k) {
                            let j: int = choose|j: int| final(self).has_key_at(k, j);
                            let oj: int = if j < i { j } else { j + 1 };
                            assert(old(self).has_key_at(k, oj));
                            assert(ov[oj].0@ != ov[i as int].0@);
                        }
                        if old(self)@.dom().contains(k) && k != key@ {
                            let j: int = choose|j: int| old(self).has_key_at(k, j);
                            assert(j != i);
                            let nj: int = if j < i { j } else { j - 1 };
                            assert(final(self).has_key_at(k, nj));
                        }
                    }
                    assert forall|k: Seq<char>| #![auto] final(self)@.dom().contains(k) implies
                        final(self)@[k] == old(self)@.remove(key@)[k]
                    by {
                        let j: int = choose|j: int| final(self).has_key_at(k, j);
                        final(self).lemma_lookup(j);
                        let oj: int = if j < i { j } else { j + 1 };
                        old(self).lemma_lookup(oj);
                    }
                    assert(final(self)@ =~= old(self)@.remove(key@));
                }
                Some(peer)
            },
            None => {
                assert(final(self)@ =~= old(self)@.remove(key@));
                None
            },
        }
    }

    /// `p` is known under some name.
    pub open spec fn knows(&self, p: PeerInfo) -> bool {
        exists|k: Seq<char>| self@.dom().contains(k) && self@[k] == p
    }

    /// A snapshot of the known peers.
    pub fn peers(&self) -> (r: Vec<PeerInfo>)
        requires
            self.wf(),
        ensures
            forall|i: int| 0 <= i < r@.len() ==> self.knows(#[trigger] r@[i]),
            forall|k: Seq<char>| #![auto] self@.dom().contains(k) ==> exists|i: int|
                0 <= i < r@.len() && r@[i] == self@[k],
            r@.len() == self@.dom().len(),
    {
        let mut r: Vec<PeerInfo> = Vec::new();
        let n: usize = self.entries.len();
        for i in 0..n
            invariant
                n == self.entries@.len(),
                self.wf(),
                r@.len() == i,
                forall|j: int| 0 <= j < i ==> #[trigger] r@[j] == self.entries@[j].1,
        {
            r.push(copy_peer(&self.entries[i].1));
        }
        proof {
            self.lemma_dom_len();
            assert forall|i: int| 0 <= i < r@.len() implies self.knows(#[trigger] r@[i]) by {
                self.lemma_lookup(i);
                assert(r@[i] == self.entries@[i].1);
                let k = self.entries@[i].0@;
                assert(self@.dom().contains(k) && self@[k] == r@[i]);
            }
            assert forall|k: Seq<char>| #![auto] self@.dom().contains(k) implies exists|i: int|
                0 <= i < r@.len() && r@[i] == self@[k]
            by {
                let j: int = choose|j: int| self.has_key_at(k, j);
                self.lemma_lookup(j);
                assert(r@[j] == self.entries@[j].1);
            }
        }
        r
    }

    /// Takes in a service that the network resolved: unless it is this
    /// machine's own instance or has no address, the peer it describes is
    /// recorded under its full name and announced.
    pub fn on_service_resolved(
        &mut self,
        full_name: String,
        own_instance: &str,
        hostname_property: Option<String>,
        role_property: Option<String>,
        first_address: Option<IpAddress>,
        port: u16,
    ) -> (event: Option<DiscoveryEvent>)
        requires
            old(self).wf(),
        ensures
            final(self).wf(),
            contains(full_name@, own_instance@) || first_address is None ==> event is None
                && final(self)@ == old(self)@,
            !contains(full_name@, own_instance@) && first_address is Some ==> (event matches Some(
                DiscoveryEvent::PeerDiscovered(p),
            ) && resolved_peer(hostname_property, role_property, first_address->0, port, p)
                && final(self)@ == old(self)@.insert(full_name@, p)),
    {
        let name = chars_of(full_name.as_str());
        let own = chars_of(own_instance);
        if has_substring(name.as_slice(), own.as_slice()) {
            return None;
        }
        let ghost hp = hostname_property;
        let ghost rp = role_property;
        let hostname = match hostname_property {
            Some(h) => h,
            None => to_string("unknown"),
        };
        let host_word = chars_of("host");
        proof {
            reveal_strlit("host");
        }
        let is_host = match &role_property {
            Some(r) => {
                let rc = chars_of(r.as_str());
                chars_eq(rc.as_slice(), host_word.as_slice())
            },
            None => false,
        };
        let ip = match first_address {
            Some(ip) => ip,
            None => {
                return None;
            },
        };
        let peer = PeerInfo { hostname, addr: SocketAddress { ip, port }, is_host };
        let announced = copy_peer(&peer);
        self.insert(full_name, peer);
        Some(DiscoveryEvent::PeerDiscovered(announced))
    }

    /// Takes in a service that left the network: its peer is forgotten,
    /// and announced as lost if it was known.
    pub fn on_service_removed(&mut self, full_name: &str) -> (event: Option<DiscoveryEvent>)
        requires
            old(self).wf(),
        ensures
            final(self).wf(),
            final(self)@ == old(self)@.remove(full_name@),
            old(self)@.dom().contains(full_name@) ==> (event matches Some(
                DiscoveryEvent::PeerLost(h),
            ) && h@ == old(self)@[full_name@].hostname@),
            !old(self)@.dom().contains(full_name@) ==> event is None,
    {
        match self.remove(full_name) {
            Some(peer) => Some(DiscoveryEvent::PeerLost(peer.hostname)),
            None => None,
        }
    }
}

/// A peer that is resolved and then removed under the same name is no
/// longer known, and the other peers are as they were.
pub proof fn law_resolve_then_remove(
    before: Map<Seq<char>, PeerInfo>,
    name: Seq<char>,
    peer: PeerInfo,
)
    ensures
        before.insert(name, peer).remove(name) == before.remove(name),
        !before.insert(name, peer).remove(name).dom().contains(name),
{
    assert(before.insert(name, peer).remove(name) =~= before.remove(name));
}

/// A peer resolved from the properties that an instance announces is known
/// by the hostname and the role that the instance announced.
pub proof fn law_announced_properties_resolve(
    is_host: bool,
    hostname: Seq<char>,
    hostname_property: String,
    role_property: String,
    ip: IpAddress,
    port: u16,
    peer: PeerInfo,
)
    requires
        role_property@ == service_properties_of(is_host, hostname)[0].1,
        hostname_property@ == service_properties_of(is_host, hostname)[1].1,
        resolved_peer(Some(hostname_property), Some(role_property), ip, port, peer),
    ensures
        peer.is_host == is_host,
        peer.hostname@ == hostname,
        peer.addr == (SocketAddress { ip, port }),
{
    reveal_strlit("host");
    reveal_strlit("client");
    if !is_host {
        assert("client"@[0] != "host"@[0]);
    }
}

/// The service of this machine itself, whose full name starts with its
/// instance name, is never taken for a peer.
pub proof fn law_own_service_ignored(hostname: Seq<char>, rest: Seq<char>)
    ensures
        contains(instance_name_of(hostname) + rest, instance_name_of(hostname)),
{
    let own = instance_name_of(hostname);
    assert((own + rest).subrange(0, own.len() as int) =~= own);
    assert(crate::text::occurs_at(own + rest, own, 0));
}

} // verus!
