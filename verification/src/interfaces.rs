//! One view per network interface, merged from the physical links and the
//! address objects of the system.
use vstd::prelude::*;

use crate::domain::{
    NetworkAddress, NetworkAddressView, NetworkInterface, NetworkInterfaceView, PhysicalLink,
    PhysicalLinkView,
};
use crate::error::AppError;
use crate::network;
use crate::network::parse_address_prefix;
use crate::text;
use crate::text::{chars_eq, chars_eq_str, chars_to_string, contains_char, str_chars};

verus! {

// ---------------------------------------------------------------------------
// Order of names
// ---------------------------------------------------------------------------

/// `a < b` for strings: lexicographic order of the characters (the order of
/// `String`, since UTF-8 keeps the order of code points).
pub open spec fn name_lt(a: Seq<char>, b: Seq<char>) -> bool
    decreases a.len(),
{
    if a.len() == 0 {
        b.len() > 0
    } else if b.len() == 0 {
        false
    } else if a[0] < b[0] {
        true
    } else if a[0] == b[0] {
        name_lt(a.drop_first(), b.drop_first())
    } else {
        false
    }
}

pub proof fn lemma_name_lt_irrefl(a: Seq<char>)
    ensures
        !name_lt(a, a),
    decreases a.len(),
{
    if a.len() > 0 {
        lemma_name_lt_irrefl(a.drop_first());
    }
}

pub proof fn lemma_name_lt_total(a: Seq<char>, b: Seq<char>)
    requires
        a != b,
    ensures
        name_lt(a, b) || name_lt(b, a),
    decreases a.len(),
{
    if a.len() > 0 && b.len() > 0 && a[0] == b[0] {
        if a.drop_first() == b.drop_first() {
            assert(a =~= seq![a[0]] + a.drop_first());
            assert(b =~= seq![b[0]] + b.drop_first());
        }
        lemma_name_lt_total(a.drop_first(), b.drop_first());
    } else if a.len() == 0 && b.len() == 0 {
        assert(a =~= b);
    }
}

pub proof fn lemma_name_lt_asym(a: Seq<char>, b: Seq<char>)
    requires
        name_lt(a, b),
    ensures
        !name_lt(b, a),
    decreases a.len(),
{
    if a.len() > 0 && b.len() > 0 && a[0] == b[0] {
        lemma_name_lt_asym(a.drop_first(), b.drop_first());
    }
}

pub proof fn lemma_name_lt_trans(a: Seq<char>, b: Seq<char>, c: Seq<char>)
    requires
        name_lt(a, b),
        name_lt(b, c),
    ensures
        name_lt(a, c),
    decreases a.len(),
{
    if a.len() > 0 && b.len() > 0 && c.len() > 0 && a[0] == b[0] && b[0] == c[0] {
        lemma_name_lt_trans(a.drop_first(), b.drop_first(), c.drop_first());
    }
}

/// `a < b` for character sequences.
pub fn chars_lt(a: &[char], b: &[char]) -> (r: bool)
    ensures
        r == name_lt(a@, b@),
{
    let mut i: usize = 0;
    proof {
        assert(a@.skip(0) =~= a@);
        assert(b@.skip(0) =~= b@);
    }
    while i < a.len() && i < b.len() && a[i] == b[i]
        invariant
            i <= a@.len(),
            i <= b@.len(),
            a@.take(i as int) == b@.take(i as int),
            name_lt(a@, b@) == name_lt(a@.skip(i as int), b@.skip(i as int)),
        decreases a@.len() - i,
    {
        proof {
            let x = a@.skip(i as int);
            let y = b@.skip(i as int);
            assert(x.drop_first() =~= a@.skip(i + 1));
            assert(y.drop_first() =~= b@.skip(i + 1));
            assert(a@.take(i + 1) =~= a@.take(i as int).push(a@[i as int]));
            assert(b@.take(i + 1) =~= b@.take(i as int).push(b@[i as int]));
        }
        i += 1;
    }
    let ghost x = a@.skip(i as int);
    let ghost y = b@.skip(i as int);
    if i == a.len() {
        i < b.len()
    } else if i == b.len() {
        false
    } else {
        assert(x[0] == a@[i as int] && y[0] == b@[i as int]);
        a[i] < b[i]
    }
}

// ---------------------------------------------------------------------------
// The interface a name denotes
// ---------------------------------------------------------------------------

/// An address object carrying an IPv4 address (one without `:`).
pub open spec fn is_v4(a: NetworkAddressView) -> bool {
    a.address matches Some(ip) && !ip.contains(':')
}

/// A static IPv4 address object.
pub open spec fn is_static_v4(a: NetworkAddressView) -> bool {
    a.addr_type == "static"@ && is_v4(a)
}

/// A DHCP address object.
pub open spec fn is_dhcp(a: NetworkAddressView) -> bool {
    a.addr_type == "dhcp"@
}

/// The three ways of choosing an address object: 0 for a static IPv4
/// address, 1 for a DHCP address, 2 for any IPv4 address.
pub open spec fn choice(kind: int, a: NetworkAddressView) -> bool {
    if kind == 0 {
        is_static_v4(a)
    } else if kind == 1 {
        is_dhcp(a)
    } else {
        is_v4(a)
    }
}

/// Index of the first member of `s` chosen by `kind`, or -1.
pub open spec fn first_where(s: Seq<NetworkAddressView>, kind: int) -> int
    decreases s.len(),
{
    if s.len() == 0 {
        -1
    } else if choice(kind, s[0]) {
        0
    } else {
        let k = first_where(s.drop_first(), kind);
        if k < 0 {
            -1
        } else {
            k + 1
        }
    }
}

pub proof fn lemma_first_where_at(s: Seq<NetworkAddressView>, kind: int, j: int)
    requires
        0 <= j <= s.len(),
        forall|k: int| 0 <= k < j ==> !choice(kind, s[k]),
        j < s.len() ==> choice(kind, s[j]),
    ensures
        first_where(s, kind) == (if j < s.len() { j } else { -1 }),
    decreases j,
{
    if j > 0 {
        assert forall|k: int| 0 <= k < j - 1 implies !choice(kind, s.drop_first()[k]) by {
            assert(s.drop_first()[k] == s[k + 1]);
        }
        if j < s.len() {
            assert(s.drop_first()[j - 1] == s[j]);
        }
        lemma_first_where_at(s.drop_first(), kind, j - 1);
    }
}

/// The primary address of an interface: the first static IPv4 address,
/// else the first DHCP address, else the first IPv4 address.
pub open spec fn primary(g: Seq<NetworkAddressView>) -> Option<NetworkAddressView> {
    let i = first_where(g, 0);
    let j = first_where(g, 1);
    let k = first_where(g, 2);
    if i >= 0 {
        Some(g[i])
    } else if j >= 0 {
        Some(g[j])
    } else if k >= 0 {
        Some(g[k])
    } else {
        None
    }
}

/// The address objects of interface `name`, in order.
pub open spec fn group_of(addrs: Seq<NetworkAddressView>, name: Seq<char>) -> Seq<NetworkAddressView>
    decreases addrs.len(),
{
    if addrs.len() == 0 {
        seq![]
    } else if addrs.last().interface == name {
        group_of(addrs.drop_last(), name).push(addrs.last())
    } else {
        group_of(addrs.drop_last(), name)
    }
}

/// The link named `name`; when several carry the name, the last one.
pub open spec fn link_named(links: Seq<PhysicalLinkView>, name: Seq<char>) -> Option<PhysicalLinkView>
    decreases links.len(),
{
    if links.len() == 0 {
        None
    } else if links.last().name == name {
        Some(links.last())
    } else {
        link_named(links.drop_last(), name)
    }
}

/// The interface `name` that has the address objects `g` (not empty) and
/// perhaps a link: its primary address split from its prefix length, the
/// state of the link (or of the primary address, or "down"), and the MAC,
/// speed and MTU of the link.
pub open spec fn iface_with_addresses(
    name: Seq<char>,
    g: Seq<NetworkAddressView>,
    link: Option<PhysicalLinkView>,
) -> NetworkInterfaceView {
    let p = primary(g);
    let ap = match p {
        Some(a) => network::address_prefix(
            match a.address {
                Some(x) => x,
                None => seq![],
            },
        ),
        None => (seq![], None),
    };
    let addr_type = match p {
        Some(a) => Some(a.addr_type),
        None => None,
    };
    let state = match p {
        Some(a) => a.state,
        None => "down"@,
    };
    NetworkInterfaceView {
        name,
        state: match link {
            Some(l) => l.state,
            None => state,
        },
        address: ap.0,
        prefix_len: ap.1,
        mac: match link {
            Some(l) => Some(l.mac),
            None => None,
        },
        speed: match link {
            Some(l) => Some(l.speed),
            None => None,
        },
        mtu: match link {
            Some(l) => Some(l.mtu),
            None => None,
        },
        addr_type,
        friendly_name: None,
    }
}

/// The interface of a link that has no address objects.
pub open spec fn iface_of_link(l: PhysicalLinkView) -> NetworkInterfaceView {
    NetworkInterfaceView {
        name: l.name,
        state: l.state,
        address: seq![],
        prefix_len: None,
        mac: Some(l.mac),
        speed: Some(l.speed),
        mtu: Some(l.mtu),
        addr_type: None,
        friendly_name: None,
    }
}

/// Some address object belongs to `name` or some link is named `name`.
pub open spec fn has_name(
    addrs: Seq<NetworkAddressView>,
    links: Seq<PhysicalLinkView>,
    name: Seq<char>,
) -> bool {
    (exists|i: int| 0 <= i < addrs.len() && addrs[i].interface == name) || (exists|j: int|
        0 <= j < links.len() && links[j].name == name)
}

/// The interface that `name` denotes.
pub open spec fn iface_spec(
    addrs: Seq<NetworkAddressView>,
    links: Seq<PhysicalLinkView>,
    name: Seq<char>,
) -> NetworkInterfaceView {
    let g = group_of(addrs, name);
    if g.len() > 0 {
        iface_with_addresses(name, g, link_named(links, name))
    } else {
        iface_of_link(link_named(links, name).unwrap())
    }
}

/// The views of a vector of interfaces.
pub open spec fn iface_views(v: Seq<NetworkInterface>) -> Seq<NetworkInterfaceView> {
    v.map_values(|i: NetworkInterface| i@)
}

/// The interfaces are ordered by name, each name once.
pub open spec fn sorted_by_name(s: Seq<NetworkInterfaceView>) -> bool {
    forall|i: int, j: int| 0 <= i < j < s.len() ==> name_lt(s[i].name, s[j].name)
}

/// `r` holds exactly one interface per name of the links and address
/// objects, the one that name denotes, ordered by name.
pub open spec fn merged(
    addrs: Seq<NetworkAddressView>,
    links: Seq<PhysicalLinkView>,
    r: Seq<NetworkInterfaceView>,
) -> bool {
    &&& sorted_by_name(r)
    &&& forall|i: int|
        0 <= i < r.len() ==> has_name(addrs, links, #[trigger] r[i].name) && r[i] == iface_spec(
            addrs,
            links,
            r[i].name,
        )
    &&& forall|n: Seq<char>|
        has_name(addrs, links, n) ==> exists|i: int| 0 <= i < r.len() && #[trigger] r[i].name == n
}

// ---------------------------------------------------------------------------
// Lemmas about groups and links
// ---------------------------------------------------------------------------

proof fn lemma_group_take(addrs: Seq<NetworkAddressView>, name: Seq<char>, i: int)
    requires
        0 <= i < addrs.len(),
    ensures
        group_of(addrs.take(i + 1), name) == if addrs[i].interface == name {
            group_of(addrs.take(i), name).push(addrs[i])
        } else {
            group_of(addrs.take(i), name)
        },
{
    assert(addrs.take(i + 1).drop_last() =~= addrs.take(i));
    assert(addrs.take(i + 1).last() == addrs[i]);
}

proof fn lemma_group_nonempty(addrs: Seq<NetworkAddressView>, name: Seq<char>)
    ensures
        group_of(addrs, name).len() > 0 <==> exists|i: int|
            0 <= i < addrs.len() && addrs[i].interface == name,
    decreases addrs.len(),
{
    if addrs.len() > 0 {
        lemma_group_nonempty(addrs.drop_last(), name);
        if exists|i: int| 0 <= i < addrs.len() && addrs[i].interface == name {
            let i = choose|i: int| 0 <= i < addrs.len() && addrs[i].interface == name;
            if i < addrs.len() - 1 {
                assert(addrs.drop_last()[i] == addrs[i]);
            }
        }
        if exists|i: int| 0 <= i < addrs.drop_last().len() && addrs.drop_last()[i].interface == name {
            let i = choose|i: int|
                0 <= i < addrs.drop_last().len() && addrs.drop_last()[i].interface == name;
            assert(addrs[i] == addrs.drop_last()[i]);
        }
    }
}

proof fn lemma_link_named_take(links: Seq<PhysicalLinkView>, name: Seq<char>, i: int)
    requires
        0 <= i < links.len(),
    ensures
        link_named(links.take(i + 1), name) == if links[i].name == name {
            Some(links[i])
        } else {
            link_named(links.take(i), name)
        },
{
    assert(links.take(i + 1).drop_last() =~= links.take(i));
    assert(links.take(i + 1).last() == links[i]);
}

proof fn lemma_link_named_some(links: Seq<PhysicalLinkView>, name: Seq<char>)
    ensures
        (link_named(links, name) is Some) <==> exists|j: int|
            0 <= j < links.len() && links[j].name == name,
        link_named(links, name) matches Some(l) ==> l.name == name,
    decreases links.len(),
{
    if links.len() > 0 {
        lemma_link_named_some(links.drop_last(), name);
        if exists|j: int| 0 <= j < links.drop_last().len() && links.drop_last()[j].name == name {
            let j = choose|j: int|
                0 <= j < links.drop_last().len() && links.drop_last()[j].name == name;
            assert(links[j] == links.drop_last()[j]);
        }
        if exists|j: int| 0 <= j < links.len() && links[j].name == name {
            let j = choose|j: int| 0 <= j < links.len() && links[j].name == name;
            if j < links.len() - 1 {
                assert(links.drop_last()[j] == links[j]);
            }
        }
    }
}

/// The link named after the last link of a name is that link.
proof fn lemma_link_named_last(links: Seq<PhysicalLinkView>, j: int)
    requires
        0 <= j < links.len(),
        forall|k: int| j < k < links.len() ==> links[k].name != links[j].name,
    ensures
        link_named(links, links[j].name) == Some(links[j]),
    decreases links.len(),
{
    if j < links.len() - 1 {
        let d = links.drop_last();
        assert(d[j] == links[j]);
        assert forall|k: int| j < k < d.len() implies d[k].name != d[j].name by {
            assert(d[k] == links[k]);
        }
        lemma_link_named_last(d, j);
    }
}

/// Every link appears among the merged interfaces under its name, and the
/// interface carries the link's own state, MAC address, speed and MTU
/// (those of the last link listed under that name); when no address object
/// belongs to the link, the interface has no address, prefix length or
/// address type.
pub proof fn lemma_interface_carries_link(
    addrs: Seq<NetworkAddressView>,
    links: Seq<PhysicalLinkView>,
    r: Seq<NetworkInterfaceView>,
    j: int,
)
    requires
        merged(addrs, links, r),
        0 <= j < links.len(),
        forall|k: int| j < k < links.len() ==> links[k].name != links[j].name,
    ensures
        exists|i: int|
            0 <= i < r.len() && #[trigger] r[i].name == links[j].name && r[i].state
                == links[j].state && r[i].mac == Some(links[j].mac) && r[i].speed == Some(
                links[j].speed,
            ) && r[i].mtu == Some(links[j].mtu) && ((forall|a: int|
                0 <= a < addrs.len() ==> addrs[a].interface != links[j].name) ==> (r[i].address
                == Seq::<char>::empty() && r[i].prefix_len is None && r[i].addr_type is None)),
{
    let n = links[j].name;
    assert(has_name(addrs, links, n));
    let i = choose|i: int| 0 <= i < r.len() && #[trigger] r[i].name == n;
    assert(r[i] == iface_spec(addrs, links, r[i].name));
    lemma_link_named_last(links, j);
    lemma_group_nonempty(addrs, n);
    if forall|a: int| 0 <= a < addrs.len() ==> addrs[a].interface != n {
        assert(group_of(addrs, n).len() == 0);
    }
    assert(0 <= i < r.len() && r[i].name == links[j].name && r[i].state == links[j].state);
}

// ---------------------------------------------------------------------------
// Building one interface
// ---------------------------------------------------------------------------

fn copy_string(s: &String) -> (r: String)
    ensures
        r@ == s@,
{
    s.clone()
}

fn copy_opt_string(s: &Option<String>) -> (r: Option<String>)
    ensures
        r.deep_view() == s.deep_view(),
{
    match s {
        Some(x) => Some(x.clone()),
        None => None,
    }
}

fn copy_address(a: &NetworkAddress) -> (r: NetworkAddress)
    ensures
        r@ == a@,
{
    NetworkAddress {
        addrobj: copy_string(&a.addrobj),
        interface: copy_string(&a.interface),
        addr_type: copy_string(&a.addr_type),
        state: copy_string(&a.state),
        address: copy_opt_string(&a.address),
    }
}

fn copy_link(l: &PhysicalLink) -> (r: PhysicalLink)
    ensures
        r@ == l@,
{
    PhysicalLink {
        name: copy_string(&l.name),
        media: copy_string(&l.media),
        state: copy_string(&l.state),
        speed: l.speed,
        duplex: copy_string(&l.duplex),
        mac: copy_string(&l.mac),
        mtu: l.mtu,
        friendly_name: copy_opt_string(&l.friendly_name),
    }
}

fn group_for(addrs: &Vec<NetworkAddress>, name: &[char]) -> (g: Vec<NetworkAddress>)
    ensures
        network::address_views(g@) == group_of(network::address_views(addrs@), name@),
{
    let ghost av = network::address_views(addrs@);
    let mut g: Vec<NetworkAddress> = Vec::new();
    let mut i: usize = 0;
    while i < addrs.len()
        invariant
            i <= addrs@.len(),
            av == network::address_views(addrs@),
            network::address_views(g@) == group_of(av.take(i as int), name@),
        decreases addrs@.len() - i,
    {
        proof {
            lemma_group_take(av, name@, i as int);
        }
        let iface = str_chars(addrs[i].interface.as_str());
        if chars_eq(iface.as_slice(), name) {
            let a = copy_address(&addrs[i]);
            proof {
                assert(network::address_views(g@.push(a)) =~= network::address_views(g@).push(a@));
            }
            g.push(a);
        }
        i += 1;
    }
    proof {
        assert(av.take(addrs@.len() as int) =~= av);
    }
    g
}

fn link_for(links: &Vec<PhysicalLink>, name: &[char]) -> (r: Option<PhysicalLink>)
    ensures
        match r {
            Some(l) => link_named(network::link_views(links@), name@) == Some(l@),
            None => link_named(network::link_views(links@), name@) is None,
        },
{
    let ghost lv = network::link_views(links@);
    let mut found: Option<PhysicalLink> = None;
    let mut i: usize = 0;
    while i < links.len()
        invariant
            i <= links@.len(),
            lv == network::link_views(links@),
            match found {
                Some(l) => link_named(lv.take(i as int), name@) == Some(l@),
                None => link_named(lv.take(i as int), name@) is None,
            },
        decreases links@.len() - i,
    {
        proof {
            lemma_link_named_take(lv, name@, i as int);
        }
        let n = str_chars(links[i].name.as_str());
        if chars_eq(n.as_slice(), name) {
            found = Some(copy_link(&links[i]));
        }
        i += 1;
    }
    proof {
        assert(lv.take(links@.len() as int) =~= lv);
    }
    found
}

fn address_is_v4(a: &NetworkAddress) -> (r: bool)
    ensures
        r == is_v4(a@),
{
    match &a.address {
        Some(ip) => {
            let c = str_chars(ip.as_str());
            !contains_char(c.as_slice(), ':')
        },
        None => false,
    }
}

fn address_type_is(a: &NetworkAddress, t: &str) -> (r: bool)
    ensures
        r == (a.addr_type@ == t@),
{
    let c = str_chars(a.addr_type.as_str());
    chars_eq_str(c.as_slice(), t)
}

/// Index of the primary address of `g`.
fn primary_index(g: &Vec<NetworkAddress>) -> (r: Option<usize>)
    ensures
        match r {
            Some(i) => i < g@.len() && primary(network::address_views(g@)) == Some(g@[i as int]@),
            None => primary(network::address_views(g@)) is None,
        },
{
    let ghost gv = network::address_views(g@);
    let mut i: usize = 0;
    while i < g.len()
        invariant
            i <= g@.len(),
            gv == network::address_views(g@),
            forall|k: int| 0 <= k < i ==> !choice(0, gv[k]),
        decreases g@.len() - i,
    {
        assert(gv[i as int] == g@[i as int]@);
        if address_type_is(&g[i], "static") && address_is_v4(&g[i]) {
            proof {
                lemma_first_where_at(gv, 0, i as int);
            }
            return Some(i);
        }
        i += 1;
    }
    proof {
        lemma_first_where_at(gv, 0, i as int);
    }
    let mut j: usize = 0;
    while j < g.len()
        invariant
            j <= g@.len(),
            gv == network::address_views(g@),
            first_where(gv, 0) == -1,
            forall|k: int| 0 <= k < j ==> !choice(1, gv[k]),
        decreases g@.len() - j,
    {
        assert(gv[j as int] == g@[j as int]@);
        if address_type_is(&g[j], "dhcp") {
            proof {
                lemma_first_where_at(gv, 1, j as int);
            }
            return Some(j);
        }
        j += 1;
    }
    proof {
        lemma_first_where_at(gv, 1, j as int);
    }
    let mut k: usize = 0;
    while k < g.len()
        invariant
            k <= g@.len(),
            gv == network::address_views(g@),
            first_where(gv, 0) == -1,
            first_where(gv, 1) == -1,
            forall|m: int| 0 <= m < k ==> !choice(2, gv[m]),
        decreases g@.len() - k,
    {
        assert(gv[k as int] == g@[k as int]@);
        if address_is_v4(&g[k]) {
            proof {
                lemma_first_where_at(gv, 2, k as int);
            }
            return Some(k);
        }
        k += 1;
    }
    proof {
        lemma_first_where_at(gv, 2, k as int);
    }
    None
}

fn build_with_addresses(
    name: &[char],
    g: &Vec<NetworkAddress>,
    link: Option<PhysicalLink>,
) -> (r: NetworkInterface)
    ensures
        r@ == iface_with_addresses(
            name@,
            network::address_views(g@),
            match link {
                Some(l) => Some(l@),
                None => None,
            },
        ),
{
    let (address, prefix_len, addr_type, state) = match primary_index(g) {
        Some(i) => {
            let a = &g[i];
            let empty: Vec<char> = Vec::new();
            let (ip, prefix) = match &a.address {
                Some(x) => parse_address_prefix(x.as_str()),
                None => parse_address_prefix(chars_to_string(empty.as_slice()).as_str()),
            };
            (ip, prefix, Some(copy_string(&a.addr_type)), copy_string(&a.state))
        },
        None => {
            let empty: Vec<char> = Vec::new();
            let down = str_chars("down");
            (chars_to_string(empty.as_slice()), None, None, chars_to_string(down.as_slice()))
        },
    };
    match link {
        Some(l) => NetworkInterface {
            name: chars_to_string(name),
            state: l.state,
            address,
            prefix_len,
            mac: Some(l.mac),
            speed: Some(l.speed),
            mtu: Some(l.mtu),
            addr_type,
            friendly_name: None,
        },
        None => NetworkInterface {
            name: chars_to_string(name),
            state,
            address,
            prefix_len,
            mac: None,
            speed: None,
            mtu: None,
            addr_type,
            friendly_name: None,
        },
    }
}

fn build_iface(
    addrs: &Vec<NetworkAddress>,
    links: &Vec<PhysicalLink>,
    name: &[char],
) -> (r: NetworkInterface)
    requires
        has_name(network::address_views(addrs@), network::link_views(links@), name@),
    ensures
        r@ == iface_spec(network::address_views(addrs@), network::link_views(links@), name@),
        r@.name == name@,
{
    let g = group_for(addrs, name);
    let link = link_for(links, name);
    proof {
        lemma_group_nonempty(network::address_views(addrs@), name@);
        lemma_link_named_some(network::link_views(links@), name@);
    }
    if g.len() > 0 {
        build_with_addresses(name, &g, link)
    } else {
        match link {
            Some(l) => NetworkInterface {
                name: l.name,
                state: l.state,
                address: chars_to_string(Vec::<char>::new().as_slice()),
                prefix_len: None,
                mac: Some(l.mac),
                speed: Some(l.speed),
                mtu: Some(l.mtu),
                addr_type: None,
                friendly_name: None,
            },
            None => {
                proof {
                    let av = network::address_views(addrs@);
                    if exists|i: int| 0 <= i < av.len() && av[i].interface == name@ {
                        assert(false);
                    }
                }
                assert(false);
                build_with_addresses(name, &g, None)
            },
        }
    }
}


// ---------------------------------------------------------------------------
// Merging
// ---------------------------------------------------------------------------

proof fn lemma_iface_views_insert(v: Seq<NetworkInterface>, k: int, x: NetworkInterface)
    requires
        0 <= k <= v.len(),
    ensures
        iface_views(v.insert(k, x)) == iface_views(v).insert(k, x@),
{
    assert(iface_views(v.insert(k, x)) =~= iface_views(v).insert(k, x@));
}

proof fn lemma_sorted_insert(s: Seq<NetworkInterfaceView>, k: int, x: NetworkInterfaceView)
    requires
        sorted_by_name(s),
        0 <= k <= s.len(),
        forall|i: int| 0 <= i < s.len() ==> s[i].name != x.name,
        forall|i: int| 0 <= i < k ==> !name_lt(x.name, s[i].name),
        k < s.len() ==> name_lt(x.name, s[k].name),
    ensures
        sorted_by_name(s.insert(k, x)),
{
    let t = s.insert(k, x);
    assert forall|i: int| 0 <= i < k implies name_lt(s[i].name, x.name) by {
        lemma_name_lt_total(s[i].name, x.name);
    }
    assert forall|i: int| k <= i < s.len() implies name_lt(x.name, s[i].name) by {
        if i > k {
            lemma_name_lt_trans(x.name, s[k].name, s[i].name);
        }
    }
    assert forall|a: int, b: int| 0 <= a < b < t.len() implies name_lt(t[a].name, t[b].name) by {
        if a < k && b < k {
            assert(t[a] == s[a] && t[b] == s[b]);
        } else if a < k && b == k {
            assert(t[a] == s[a] && t[b] == x);
        } else if a < k && b > k {
            assert(t[a] == s[a] && t[b] == s[b - 1]);
        } else if a == k {
            assert(t[a] == x && t[b] == s[b - 1]);
        } else {
            assert(t[a] == s[a - 1] && t[b] == s[b - 1]);
        }
    }
}

/// Position of the interface named `name` in `out`, if any.
fn find_iface(out: &Vec<NetworkInterface>, name: &[char]) -> (r: bool)
    ensures
        r == exists|i: int| 0 <= i < out@.len() && out@[i]@.name == name@,
{
    let mut i: usize = 0;
    while i < out.len()
        invariant
            i <= out@.len(),
            forall|k: int| 0 <= k < i ==> out@[k]@.name != name@,
        decreases out@.len() - i,
    {
        let n = str_chars(out[i].name.as_str());
        if chars_eq(n.as_slice(), name) {
            return true;
        }
        i += 1;
    }
    false
}

/// Inserts `x` into `out`, keeping `out` ordered by name.
fn insert_sorted(out: &mut Vec<NetworkInterface>, x: NetworkInterface)
    requires
        sorted_by_name(iface_views(old(out)@)),
        forall|i: int| 0 <= i < old(out)@.len() ==> old(out)@[i]@.name != x@.name,
    ensures
        sorted_by_name(iface_views(final(out)@)),
        exists|k: int|
            0 <= k <= old(out)@.len() && iface_views(final(out)@) == iface_views(old(out)@).insert(
                k,
                x@,
            ),
{
    let name = str_chars(x.name.as_str());
    let mut k: usize = 0;
    while k < out.len()
        invariant
            k <= out@.len(),
            out@ == old(out)@,
            name@ == x@.name,
            forall|i: int| 0 <= i < k ==> !name_lt(x@.name, out@[i]@.name),
        ensures
            k <= out@.len(),
            out@ == old(out)@,
            forall|i: int| 0 <= i < k ==> !name_lt(x@.name, out@[i]@.name),
            k < out@.len() ==> name_lt(x@.name, out@[k as int]@.name),
        decreases out@.len() - k,
    {
        let n = str_chars(out[k].name.as_str());
        if chars_lt(name.as_slice(), n.as_slice()) {
            break;
        }
        k += 1;
    }
    proof {
        let s = iface_views(out@);
        assert forall|i: int| 0 <= i < s.len() implies s[i].name != x@.name by {
            assert(s[i] == out@[i]@);
        }
        assert forall|i: int| 0 <= i < k implies !name_lt(x@.name, s[i].name) by {
            assert(s[i] == out@[i]@);
        }
        if k < s.len() {
            assert(s[k as int] == out@[k as int]@);
        }
        lemma_sorted_insert(s, k as int, x@);
        lemma_iface_views_insert(out@, k as int, x);
    }
    out.insert(k, x);
}

/// Every interface in `s` is one that a name of the links and address
/// objects denotes, and `s` is ordered by name.
pub open spec fn partial_merge(
    addrs: Seq<NetworkAddressView>,
    links: Seq<PhysicalLinkView>,
    s: Seq<NetworkInterfaceView>,
) -> bool {
    &&& sorted_by_name(s)
    &&& forall|i: int|
        0 <= i < s.len() ==> has_name(addrs, links, #[trigger] s[i].name) && s[i] == iface_spec(
            addrs,
            links,
            s[i].name,
        )
}

proof fn lemma_partial_insert(
    addrs: Seq<NetworkAddressView>,
    links: Seq<PhysicalLinkView>,
    s: Seq<NetworkInterfaceView>,
    t: Seq<NetworkInterfaceView>,
    k: int,
    x: NetworkInterfaceView,
)
    requires
        partial_merge(addrs, links, s),
        sorted_by_name(t),
        0 <= k <= s.len(),
        t == s.insert(k, x),
        has_name(addrs, links, x.name),
        x == iface_spec(addrs, links, x.name),
    ensures
        partial_merge(addrs, links, t),
        forall|i: int|
            #![trigger s[i]]
            0 <= i < s.len() ==> exists|j: int| 0 <= j < t.len() && #[trigger] t[j].name == s[i].name,
        exists|i: int| 0 <= i < t.len() && t[i].name == x.name,
{
    assert forall|i: int| 0 <= i < t.len() implies has_name(addrs, links, #[trigger] t[i].name)
        && t[i] == iface_spec(addrs, links, t[i].name) by {
        if i < k {
            assert(t[i] == s[i]);
        } else if i > k {
            assert(t[i] == s[i - 1]);
        }
    }
    assert forall|i: int|
        #![trigger s[i]]
        0 <= i < s.len() implies exists|j: int| 0 <= j < t.len() && #[trigger] t[j].name == s[i].name by {
        if i < k {
            assert(t[i] == s[i]);
        } else {
            assert(t[i + 1] == s[i]);
        }
    }
    assert(t[k] == x);
}

/// The interfaces of the system, merged from its links and address objects.
fn merge_interfaces(links: &Vec<PhysicalLink>, addrs: &Vec<NetworkAddress>) -> (r: Vec<
    NetworkInterface,
>)
    ensures
        merged(network::address_views(addrs@), network::link_views(links@), iface_views(r@)),
{
    let ghost av = network::address_views(addrs@);
    let ghost lv = network::link_views(links@);
    let mut out: Vec<NetworkInterface> = Vec::new();
    let mut i: usize = 0;
    while i < addrs.len()
        invariant
            i <= addrs@.len(),
            av == network::address_views(addrs@),
            lv == network::link_views(links@),
            partial_merge(av, lv, iface_views(out@)),
            forall|k: int|
                #![trigger av[k]]
                0 <= k < i ==> exists|j: int|
                    0 <= j < out@.len() && #[trigger] out@[j]@.name == av[k].interface,
        decreases addrs@.len() - i,
    {
        let name = str_chars(addrs[i].interface.as_str());
        proof {
            assert(av[i as int] == addrs@[i as int]@);
        }
        if !find_iface(&out, name.as_slice()) {
            let x = build_iface(addrs, links, name.as_slice());
            let ghost before = out@;
            insert_sorted(&mut out, x);
            proof {
                let s = iface_views(before);
                let t = iface_views(out@);
                let k = choose|k: int| 0 <= k <= s.len() && t == s.insert(k, x@);
                lemma_partial_insert(av, lv, s, t, k, x@);
                assert forall|m: int| #![trigger av[m]] 0 <= m <= i implies exists|j: int|
                    0 <= j < out@.len() && #[trigger] out@[j]@.name == av[m].interface by {
                    if m < i {
                        let j0 = choose|j: int|
                            0 <= j < before.len() && #[trigger] before[j]@.name == av[m].interface;
                        assert(s[j0].name == av[m].interface);
                        let j1 = choose|j1: int| 0 <= j1 < t.len() && #[trigger] t[j1].name == av[m].interface;
                        assert(t[j1] == out@[j1]@);
                    } else {
                        let j1 = choose|j1: int| 0 <= j1 < t.len() && t[j1].name == x@.name;
                        assert(t[j1] == out@[j1]@);
                    }
                }
            }
        }
        i += 1;
    }
    let mut j: usize = 0;
    while j < links.len()
        invariant
            j <= links@.len(),
            av == network::address_views(addrs@),
            lv == network::link_views(links@),
            partial_merge(av, lv, iface_views(out@)),
            forall|k: int|
                #![trigger av[k]]
                0 <= k < addrs@.len() ==> exists|m: int|
                    0 <= m < out@.len() && #[trigger] out@[m]@.name == av[k].interface,
            forall|k: int|
                #![trigger lv[k]]
                0 <= k < j ==> exists|m: int|
                    0 <= m < out@.len() && #[trigger] out@[m]@.name == lv[k].name,
        decreases links@.len() - j,
    {
        let name = str_chars(links[j].name.as_str());
        proof {
            assert(lv[j as int] == links@[j as int]@);
        }
        if !find_iface(&out, name.as_slice()) {
            let x = build_iface(addrs, links, name.as_slice());
            let ghost before = out@;
            insert_sorted(&mut out, x);
            proof {
                let s = iface_views(before);
                let t = iface_views(out@);
                let k = choose|k: int| 0 <= k <= s.len() && t == s.insert(k, x@);
                lemma_partial_insert(av, lv, s, t, k, x@);
                assert forall|m: int| #![trigger av[m]] 0 <= m < addrs@.len() implies exists|q: int|
                    0 <= q < out@.len() && #[trigger] out@[q]@.name == av[m].interface by {
                    let j0 = choose|q: int|
                        0 <= q < before.len() && #[trigger] before[q]@.name == av[m].interface;
                    assert(s[j0].name == av[m].interface);
                    let j1 = choose|j1: int| 0 <= j1 < t.len() && #[trigger] t[j1].name == av[m].interface;
                    assert(t[j1] == out@[j1]@);
                }
                assert forall|m: int| #![trigger lv[m]] 0 <= m <= j implies exists|q: int|
                    0 <= q < out@.len() && #[trigger] out@[q]@.name == lv[m].name by {
                    if m < j {
                        let j0 = choose|q: int|
                            0 <= q < before.len() && #[trigger] before[q]@.name == lv[m].name;
                        assert(s[j0].name == lv[m].name);
                        let j1 = choose|j1: int| 0 <= j1 < t.len() && #[trigger] t[j1].name == lv[m].name;
                        assert(t[j1] == out@[j1]@);
                    } else {
                        let j1 = choose|j1: int| 0 <= j1 < t.len() && t[j1].name == x@.name;
                        assert(t[j1] == out@[j1]@);
                    }
                }
            }
        }
        j += 1;
    }
    proof {
        let t = iface_views(out@);
        assert forall|n: Seq<char>| has_name(av, lv, n) implies exists|q: int|
            0 <= q < t.len() && #[trigger] t[q].name == n by {
            if exists|k: int| 0 <= k < av.len() && av[k].interface == n {
                let k = choose|k: int| 0 <= k < av.len() && av[k].interface == n;
                let q = choose|q: int| 0 <= q < out@.len() && #[trigger] out@[q]@.name == av[k].interface;
                assert(t[q] == out@[q]@);
            } else {
                let k = choose|k: int| 0 <= k < lv.len() && lv[k].name == n;
                let q = choose|q: int| 0 <= q < out@.len() && #[trigger] out@[q]@.name == lv[k].name;
                assert(t[q] == out@[q]@);
            }
        }
    }
    out
}

/// The combined interface list: the physical links (when `dladm` could not
/// list them, none) merged with the address objects (when `ipadm` could not
/// list them, its error is the answer).  There is one interface per name
/// found in either, the one that name denotes (see `iface_spec`), ordered
/// by name.
pub fn get_network_interfaces(
    links: Result<Vec<PhysicalLink>, AppError>,
    addresses: Result<Vec<NetworkAddress>, AppError>,
) -> (r: Result<Vec<NetworkInterface>, AppError>)
    ensures
        match addresses {
            Err(e) => r == Err::<Vec<NetworkInterface>, AppError>(e),
            Ok(a) => r matches Ok(v) && merged(
                network::address_views(a@),
                match links {
                    Ok(l) => network::link_views(l@),
                    Err(_) => seq![],
                },
                iface_views(v@),
            ),
        },
{
    let links = match links {
        Ok(l) => l,
        Err(_) => {
            let none: Vec<PhysicalLink> = Vec::new();
            assert(network::link_views(none@) =~= seq![]);
            none
        },
    };
    match addresses {
        Err(e) => Err(e),
        Ok(a) => Ok(merge_interfaces(&links, &a)),
    }
}

} // verus!
