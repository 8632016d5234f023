//! Network configuration of an illumos system.
//!
//! Reading: the parseable output of `dladm show-phys` and `ipadm show-addr`
//! is turned into links and address objects, which are merged into one view
//! per interface; `/etc/resolv.conf`, `/etc/defaultrouter` and
//! `/etc/nodename` are read into a [`NetworkConfig`].
//!
//! Writing: the arguments of the `ipadm`, `dladm` and `route` commands and
//! the contents of the configuration files are built and validated here; the
//! commands themselves run outside the library.
use vstd::prelude::*;

use crate::domain::{
    CommandOutput, NetworkAddress, NetworkAddressView, NetworkConfig, NetworkInterface,
    NetworkInterfaceView, PhysicalLink, PhysicalLinkView,
};
use crate::error::AppError;
use crate::text;
use crate::text::{
    chars_to_string, find_char, join2, parse_u32, parse_u64, parse_u8, split_chars, split_lines,
    starts_with_str, str_chars, sub_chars, to_lowercase_chars, trim_chars,
};

verus! {

pub open spec fn u8_max() -> nat {
    255
}

pub open spec fn u32_max() -> nat {
    0xffff_ffff
}

pub open spec fn u64_max() -> nat {
    0xffff_ffff_ffff_ffff
}

// ---------------------------------------------------------------------------
// Addresses with a prefix length
// ---------------------------------------------------------------------------

/// "192.168.1.10/24" read as its address and prefix length: the text before
/// the first `/`, and what follows it parsed as a `u8`.  Without a `/` the
/// whole text is the address and there is no prefix length.
pub open spec fn address_prefix(s: Seq<char>) -> (Seq<char>, Option<u8>) {
    let i = text::idx_of(s, '/');
    if i >= 0 {
        (
            s.take(i),
            match text::parse_unsigned(s.skip(i + 1), u8_max()) {
                Some(v) => Some(v as u8),
                None => None,
            },
        )
    } else {
        (s, None)
    }
}

/// Splits an address like "192.168.1.10/24" into the address and the prefix
/// length.
pub fn parse_address_prefix(addr: &str) -> (r: (String, Option<u8>))
    ensures
        (r.0@, r.1) == address_prefix(addr@),
{
    let s = str_chars(addr);
    proof {
        text::lemma_idx_of(s@, '/');
    }
    match find_char(s.as_slice(), '/') {
        Some(i) => {
            let ip = sub_chars(s.as_slice(), 0, i);
            let rest = sub_chars(s.as_slice(), i + 1, s.len());
            let prefix = parse_u8(rest.as_slice());
            proof {
                assert(ip@ =~= s@.take(i as int));
                assert(rest@ =~= s@.skip(i + 1));
            }
            (chars_to_string(ip.as_slice()), prefix)
        },
        None => (chars_to_string(s.as_slice()), None),
    }
}

// ---------------------------------------------------------------------------
// Physical links (`dladm show-phys -p -o link,media,state,speed,duplex,mtu`)
// ---------------------------------------------------------------------------

/// The value of an optional parsed number, or `default`.
pub open spec fn or_default(v: Option<nat>, default: nat) -> nat {
    match v {
        Some(x) => x,
        None => default,
    }
}

/// The link that one output line describes: a line of at least six
/// `:`-separated fields gives name, media, state (lowercased), speed (0 when
/// not a number), duplex (lowercased) and MTU (1500 when not a number).  The
/// MAC address is read by another command and starts empty.
pub open spec fn phys_link_of_line(line: Seq<char>) -> Option<PhysicalLinkView> {
    let parts = text::split_on(line, ':');
    if parts.len() >= 6 {
        Some(
            PhysicalLinkView {
                name: parts[0],
                media: parts[1],
                state: text::lowercase(parts[2]),
                speed: or_default(text::parse_unsigned(parts[3], u64_max()), 0) as u64,
                duplex: text::lowercase(parts[4]),
                mac: seq![],
                mtu: or_default(text::parse_unsigned(parts[5], u32_max()), 1500) as u32,
                friendly_name: None,
            },
        )
    } else {
        None
    }
}

/// No character of `s` is `c`.
pub open spec fn free_of(s: Seq<char>, c: char) -> bool {
    forall|k: int| 0 <= k < s.len() ==> s[k] != c
}

/// A `dladm show-phys` line made of the fields link, media, state, speed,
/// duplex and MTU, in this order, each free of `:`, describes the link of
/// that name and media, whose state and duplex are those fields lowercased,
/// whose speed is the fourth field read as a number (0 when it is not
/// one), and whose MTU is the sixth field read as a number (1500 when it is
/// not one).
pub proof fn lemma_phys_line_fields(
    name: Seq<char>,
    media: Seq<char>,
    state: Seq<char>,
    speed: Seq<char>,
    duplex: Seq<char>,
    mtu: Seq<char>,
)
    requires
        free_of(name, ':'),
        free_of(media, ':'),
        free_of(state, ':'),
        free_of(speed, ':'),
        free_of(duplex, ':'),
        free_of(mtu, ':'),
    ensures
        phys_link_of_line(
            name.push(':') + (media.push(':') + (state.push(':') + (speed.push(':') + (duplex.push(
                ':',
            ) + mtu)))),
        ) matches Some(l) && {
            &&& l.name == name
            &&& l.media == media
            &&& l.state == text::lowercase(state)
            &&& l.speed == match text::parse_unsigned(speed, u64_max()) {
                Some(v) => v as u64,
                None => 0u64,
            }
            &&& l.duplex == text::lowercase(duplex)
            &&& l.mtu == match text::parse_unsigned(mtu, u32_max()) {
                Some(v) => v as u32,
                None => 1500u32,
            }
            &&& l.mac == Seq::<char>::empty()
        },
{
    let t4 = duplex.push(':') + mtu;
    let t3 = speed.push(':') + t4;
    let t2 = state.push(':') + t3;
    let t1 = media.push(':') + t2;
    let line = name.push(':') + t1;
    text::lemma_split_on_single(mtu, ':');
    text::lemma_split_on_field(duplex, ':', mtu);
    text::lemma_split_on_field(speed, ':', t4);
    text::lemma_split_on_field(state, ':', t3);
    text::lemma_split_on_field(media, ':', t2);
    text::lemma_split_on_field(name, ':', t1);
    let parts = text::split_on(line, ':');
    assert(parts =~= seq![name, media, state, speed, duplex, mtu]);
}

/// A link whose speed and MTU are written in decimal is read with that
/// speed and MTU: e.g. "e1000g0:Ethernet:up:1000:full:1500" is the link
/// e1000g0 at 1000 Mb/s with an MTU of 1500.
pub proof fn lemma_phys_line_numbers(
    name: Seq<char>,
    media: Seq<char>,
    state: Seq<char>,
    speed: u64,
    duplex: Seq<char>,
    mtu: u32,
)
    requires
        free_of(name, ':'),
        free_of(media, ':'),
        free_of(state, ':'),
        free_of(duplex, ':'),
    ensures
        phys_link_of_line(
            name.push(':') + (media.push(':') + (state.push(':') + (text::dec_string(
                speed as nat,
            ).push(':') + (duplex.push(':') + text::dec_string(mtu as nat))))),
        ) matches Some(l) && l.name == name && l.speed == speed && l.mtu == mtu,
{
    let sp = text::dec_string(speed as nat);
    let mt = text::dec_string(mtu as nat);
    text::lemma_dec_string(speed as nat);
    text::lemma_dec_string(mtu as nat);
    assert(free_of(sp, ':')) by {
        assert forall|k: int| 0 <= k < sp.len() implies sp[k] != ':' by {
            assert(text::is_digit(sp[k]));
        }
    }
    assert(free_of(mt, ':')) by {
        assert forall|k: int| 0 <= k < mt.len() implies mt[k] != ':' by {
            assert(text::is_digit(mt[k]));
        }
    }
    text::lemma_parse_dec_string(speed as nat, u64_max());
    text::lemma_parse_dec_string(mtu as nat, u32_max());
    lemma_phys_line_fields(name, media, state, sp, duplex, mt);
}

/// The links described by a sequence of lines, in order.
pub open spec fn phys_links_of_lines(ls: Seq<Seq<char>>) -> Seq<PhysicalLinkView>
    decreases ls.len(),
{
    if ls.len() == 0 {
        seq![]
    } else {
        let r = phys_links_of_lines(ls.drop_last());
        match phys_link_of_line(ls.last()) {
            Some(l) => r.push(l),
            None => r,
        }
    }
}

/// The views of a vector of links.
pub open spec fn link_views(v: Seq<PhysicalLink>) -> Seq<PhysicalLinkView> {
    v.map_values(|l: PhysicalLink| l@)
}

fn parse_phys_line(line: &[char]) -> (r: Option<PhysicalLink>)
    ensures
        match r {
            Some(l) => phys_link_of_line(line@) == Some(l@),
            None => phys_link_of_line(line@) is None,
        },
{
    let parts = split_chars(line, ':');
    if parts.len() >= 6 {
        proof {
            assert(text::views(parts@)[0] == parts@[0]@);
            assert(text::views(parts@)[1] == parts@[1]@);
            assert(text::views(parts@)[2] == parts@[2]@);
            assert(text::views(parts@)[3] == parts@[3]@);
            assert(text::views(parts@)[4] == parts@[4]@);
            assert(text::views(parts@)[5] == parts@[5]@);
        }
        let state = to_lowercase_chars(parts[2].as_slice());
        let duplex = to_lowercase_chars(parts[4].as_slice());
        let speed: u64 = match parse_u64(parts[3].as_slice()) {
            Some(v) => v,
            None => 0,
        };
        let mtu: u32 = match parse_u32(parts[5].as_slice()) {
            Some(v) => v,
            None => 1500,
        };
        let empty: Vec<char> = Vec::new();
        Some(
            PhysicalLink {
                name: chars_to_string(parts[0].as_slice()),
                media: chars_to_string(parts[1].as_slice()),
                state: chars_to_string(state.as_slice()),
                speed,
                duplex: chars_to_string(duplex.as_slice()),
                mac: chars_to_string(empty.as_slice()),
                mtu,
                friendly_name: None,
            },
        )
    } else {
        None
    }
}

/// The physical links listed in the output of `dladm show-phys -p -o
/// link,media,state,speed,duplex,mtu`, one per line with at least six fields.
/// Their MAC addresses are left empty.
pub fn parse_physical_links(stdout: &str) -> (r: Vec<PhysicalLink>)
    ensures
        link_views(r@) == phys_links_of_lines(text::lines_of(stdout@)),
{
    let s = str_chars(stdout);
    let lines = split_lines(s.as_slice());
    let mut out: Vec<PhysicalLink> = Vec::new();
    let mut i: usize = 0;
    while i < lines.len()
        invariant
            i <= lines@.len(),
            text::views(lines@) == text::lines_of(s@),
            s@ == stdout@,
            link_views(out@) == phys_links_of_lines(text::views(lines@).take(i as int)),
        decreases lines@.len() - i,
    {
        proof {
            assert(text::views(lines@).take(i + 1).drop_last() =~= text::views(lines@).take(i as int));
            assert(text::views(lines@).take(i + 1).last() == lines@[i as int]@);
        }
        match parse_phys_line(lines[i].as_slice()) {
            Some(l) => {
                proof {
                    assert(link_views(out@.push(l)) =~= link_views(out@).push(l@));
                }
                out.push(l);
            },
            None => {},
        }
        i += 1;
    }
    proof {
        assert(text::views(lines@).take(lines@.len() as int) =~= text::views(lines@));
    }
    out
}

/// What `dladm show-phys` answered, turned into the list of links: a command
/// that could not run, or that failed, is an internal error whose message
/// carries the reason.
pub fn get_physical_links(out: Result<CommandOutput, String>) -> (r: Result<
    Vec<PhysicalLink>,
    AppError,
>)
    ensures
        match out {
            Err(e) => r matches Err(AppError::InternalServerError(m)) && m@ == "Failed to run dladm: "@
                + e@,
            Ok(o) => if !o.success {
                r matches Err(AppError::InternalServerError(m)) && m@ == "dladm show-phys failed: "@
                    + o.stderr@
            } else {
                r matches Ok(v) && link_views(v@) == phys_links_of_lines(text::lines_of(o.stdout@))
            },
        },
{
    match out {
        Err(e) => Err(AppError::InternalServerError(join2("Failed to run dladm: ", e.as_str()))),
        Ok(o) => {
            if !o.success {
                Err(
                    AppError::InternalServerError(
                        join2("dladm show-phys failed: ", o.stderr.as_str()),
                    ),
                )
            } else {
                Ok(parse_physical_links(o.stdout.as_str()))
            }
        },
    }
}

/// The MAC address that `dladm show-phys -m -p -o address <link>` answered:
/// its trimmed output when it succeeded, otherwise empty.
pub fn link_mac(out: Result<CommandOutput, String>) -> (r: String)
    ensures
        r@ == (match out {
            Ok(o) => if o.success {
                text::trim(o.stdout@)
            } else {
                seq![]
            },
            Err(_) => seq![],
        }),
{
    match out {
        Ok(o) => {
            if o.success {
                let s = str_chars(o.stdout.as_str());
                let t = trim_chars(s.as_slice());
                chars_to_string(t.as_slice())
            } else {
                let e: Vec<char> = Vec::new();
                chars_to_string(e.as_slice())
            }
        },
        Err(_) => {
            let e: Vec<char> = Vec::new();
            chars_to_string(e.as_slice())
        },
    }
}

// ---------------------------------------------------------------------------
// Address objects (`ipadm show-addr -p -o addrobj,type,state,addr`)
// ---------------------------------------------------------------------------

/// The interface an address object belongs to: the text before its first
/// `/` ("e1000g0/v4" belongs to "e1000g0").
pub open spec fn interface_of(addrobj: Seq<char>) -> Seq<char> {
    text::split_on(addrobj, '/')[0]
}

/// The address object that one output line describes: a line of at least
/// three `:`-separated fields gives the object, its type and state
/// (lowercased), and the address when a fourth, non-empty field is there.
/// Objects of a loopback interface (one whose name begins with "lo") are
/// left out.
pub open spec fn address_of_line(line: Seq<char>) -> Option<NetworkAddressView> {
    let parts = text::split_on(line, ':');
    if parts.len() >= 3 && !text::starts_with(interface_of(parts[0]), "lo"@) {
        Some(
            NetworkAddressView {
                addrobj: parts[0],
                interface: interface_of(parts[0]),
                addr_type: text::lowercase(parts[1]),
                state: text::lowercase(parts[2]),
                address: if parts.len() > 3 && parts[3].len() > 0 {
                    Some(parts[3])
                } else {
                    None
                },
            },
        )
    } else {
        None
    }
}

/// The address objects described by a sequence of lines, in order.
pub open spec fn addresses_of_lines(ls: Seq<Seq<char>>) -> Seq<NetworkAddressView>
    decreases ls.len(),
{
    if ls.len() == 0 {
        seq![]
    } else {
        let r = addresses_of_lines(ls.drop_last());
        match address_of_line(ls.last()) {
            Some(a) => r.push(a),
            None => r,
        }
    }
}

/// The views of a vector of address objects.
pub open spec fn address_views(v: Seq<NetworkAddress>) -> Seq<NetworkAddressView> {
    v.map_values(|a: NetworkAddress| a@)
}

fn parse_address_line(line: &[char]) -> (r: Option<NetworkAddress>)
    ensures
        match r {
            Some(a) => address_of_line(line@) == Some(a@),
            None => address_of_line(line@) is None,
        },
{
    let parts = split_chars(line, ':');
    if parts.len() < 3 {
        return None;
    }
    proof {
        assert(text::views(parts@)[0] == parts@[0]@);
        assert(text::views(parts@)[1] == parts@[1]@);
        assert(text::views(parts@)[2] == parts@[2]@);
        if parts@.len() > 3 {
            assert(text::views(parts@)[3] == parts@[3]@);
        }
    }
    let obj_pieces = split_chars(parts[0].as_slice(), '/');
    proof {
        assert(text::split_on(parts@[0]@, '/').len() > 0);
        assert(text::views(obj_pieces@)[0] == obj_pieces@[0]@);
    }
    let interface = obj_pieces[0].clone();
    if starts_with_str(interface.as_slice(), "lo") {
        return None;
    }
    let addr_type = to_lowercase_chars(parts[1].as_slice());
    let state = to_lowercase_chars(parts[2].as_slice());
    let address = if parts.len() > 3 && parts[3].len() > 0 {
        Some(chars_to_string(parts[3].as_slice()))
    } else {
        None
    };
    Some(
        NetworkAddress {
            addrobj: chars_to_string(parts[0].as_slice()),
            interface: chars_to_string(interface.as_slice()),
            addr_type: chars_to_string(addr_type.as_slice()),
            state: chars_to_string(state.as_slice()),
            address,
        },
    )
}

/// The address objects listed in the output of `ipadm show-addr -p -o
/// addrobj,type,state,addr`, loopback objects left out.
pub fn parse_network_addresses(stdout: &str) -> (r: Vec<NetworkAddress>)
    ensures
        address_views(r@) == addresses_of_lines(text::lines_of(stdout@)),
{
    let s = str_chars(stdout);
    let lines = split_lines(s.as_slice());
    let mut out: Vec<NetworkAddress> = Vec::new();
    let mut i: usize = 0;
    while i < lines.len()
        invariant
            i <= lines@.len(),
            text::views(lines@) == text::lines_of(s@),
            s@ == stdout@,
            address_views(out@) == addresses_of_lines(text::views(lines@).take(i as int)),
        decreases lines@.len() - i,
    {
        proof {
            assert(text::views(lines@).take(i + 1).drop_last() =~= text::views(lines@).take(i as int));
            assert(text::views(lines@).take(i + 1).last() == lines@[i as int]@);
        }
        match parse_address_line(lines[i].as_slice()) {
            Some(a) => {
                proof {
                    assert(address_views(out@.push(a)) =~= address_views(out@).push(a@));
                }
                out.push(a);
            },
            None => {},
        }
        i += 1;
    }
    proof {
        assert(text::views(lines@).take(lines@.len() as int) =~= text::views(lines@));
    }
    out
}

/// What `ipadm show-addr` answered, turned into the list of address objects.
pub fn get_network_addresses(out: Result<CommandOutput, String>) -> (r: Result<
    Vec<NetworkAddress>,
    AppError,
>)
    ensures
        match out {
            Err(e) => r matches Err(AppError::InternalServerError(m)) && m@ == "Failed to run ipadm: "@
                + e@,
            Ok(o) => if !o.success {
                r matches Err(AppError::InternalServerError(m)) && m@ == "ipadm show-addr failed: "@
                    + o.stderr@
            } else {
                r matches Ok(v) && address_views(v@) == addresses_of_lines(text::lines_of(o.stdout@))
            },
        },
{
    match out {
        Err(e) => Err(AppError::InternalServerError(join2("Failed to run ipadm: ", e.as_str()))),
        Ok(o) => {
            if !o.success {
                Err(
                    AppError::InternalServerError(
                        join2("ipadm show-addr failed: ", o.stderr.as_str()),
                    ),
                )
            } else {
                Ok(parse_network_addresses(o.stdout.as_str()))
            }
        },
    }
}

} // verus!
