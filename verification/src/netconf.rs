//! The decisions behind the network write operations: what is checked
//! before a setting is applied, the arguments handed to `ipadm` and
//! `dladm`, and how their answers become the operation's result.
use vstd::prelude::*;

use crate::domain::CommandOutput;
use crate::error::AppError;
use crate::text;
use crate::text::{char_is_alphanumeric, chars_to_string, join2, join3, str_chars, u64_to_dec};

verus! {

// ---------------------------------------------------------------------------
// Hostname
// ---------------------------------------------------------------------------

/// A character a hostname may hold: alphanumeric, a hyphen or a dot.
pub open spec fn hostname_char_ok(c: char) -> bool {
    text::alphanumeric(c) || c == '-' || c == '.'
}

/// Checks a hostname before it is written: it must be non-empty, at most
/// 253 bytes long, and made of alphanumeric characters, hyphens and dots.
pub fn validate_hostname(hostname: &str) -> (r: Result<(), AppError>)
    ensures
        hostname@.len() == 0 ==> (r matches Err(AppError::BadRequest(m))
            && m@ == "Hostname cannot be empty"@),
        hostname@.len() > 0 && hostname.len() > 253 ==> (r matches Err(
            AppError::BadRequest(m),
        ) && m@ == "Hostname too long (max 253 chars)"@),
        hostname@.len() > 0 && hostname.len() <= 253 ==> if forall|k: int|
            0 <= k < hostname@.len() ==> hostname_char_ok(#[trigger] hostname@[k]) {
            r is Ok
        } else {
            r matches Err(AppError::BadRequest(m)) && m@
                == "Hostname can only contain alphanumeric characters, hyphens, and dots"@
        },
        r is Ok ==> text::no_ws(hostname@),
        r is Ok ==> crate::sysconf::hostname_of(Some(hostname@ + "\n"@)) == hostname@,
{
    if hostname.is_empty() {
        return Err(AppError::BadRequest(chars_to_string(str_chars("Hostname cannot be empty").as_slice())));
    }
    if hostname.len() > 253 {
        return Err(
            AppError::BadRequest(
                chars_to_string(str_chars("Hostname too long (max 253 chars)").as_slice()),
            ),
        );
    }
    let cs = str_chars(hostname);
    let mut i: usize = 0;
    while i < cs.len()
        invariant
            i <= cs@.len(),
            cs@ == hostname@,
            hostname@.len() > 0,
            hostname.len() <= 253,
            forall|k: int| 0 <= k < i ==> hostname_char_ok(#[trigger] hostname@[k]),
            forall|k: int| 0 <= k < i ==> !text::is_ws(#[trigger] hostname@[k]),
        decreases cs@.len() - i,
    {
        let c = cs[i];
        if !(char_is_alphanumeric(c) || c == '-' || c == '.') {
            assert(!hostname_char_ok(hostname@[i as int]));
            return Err(
                AppError::BadRequest(
                    chars_to_string(
                        str_chars(
                            "Hostname can only contain alphanumeric characters, hyphens, and dots",
                        ).as_slice(),
                    ),
                ),
            );
        }
        assert(!text::is_ws(c));
        i += 1;
    }
    proof {
        assert(text::no_ws(hostname@));
        crate::sysconf::lemma_hostname_round_trip(hostname@);
    }
    Ok(())
}

// ---------------------------------------------------------------------------
// MTU
// ---------------------------------------------------------------------------

/// The smallest MTU accepted.
pub const MIN_MTU: u32 = 576;

/// The largest MTU accepted (jumbo frames).
pub const MAX_MTU: u32 = 9000;

/// Checks an MTU before it is set: it must lie between 576 and 9000.
pub fn validate_mtu(mtu: u32) -> (r: Result<(), AppError>)
    ensures
        MIN_MTU <= mtu <= MAX_MTU ==> r is Ok,
        !(MIN_MTU <= mtu <= MAX_MTU) ==> (r matches Err(AppError::BadRequest(m)) && m@
            == "MTU must be between 576 and 9000, got "@ + text::dec_string(mtu as nat)),
{
    if mtu < MIN_MTU || mtu > MAX_MTU {
        let n = u64_to_dec(mtu as u64);
        let ns = chars_to_string(n.as_slice());
        return Err(AppError::BadRequest(join2("MTU must be between 576 and 9000, got ", ns.as_str())));
    }
    Ok(())
}

/// The link property that sets an MTU: `mtu=<value>`.
pub fn mtu_property(mtu: u32) -> (r: String)
    ensures
        r@ == "mtu="@ + text::dec_string(mtu as nat),
{
    let n = u64_to_dec(mtu as u64);
    let ns = chars_to_string(n.as_slice());
    join2("mtu=", ns.as_str())
}

/// The message of a failed MTU change on `link`.
pub fn mtu_failure(link: &str) -> (r: String)
    ensures
        r@ == "Failed to set MTU on "@ + link@,
{
    join2("Failed to set MTU on ", link)
}

// ---------------------------------------------------------------------------
// Addresses
// ---------------------------------------------------------------------------

/// The address object and the address argument for a static address:
/// `<interface>/v4static` and `<address>/<prefix_len>`.
pub fn static_address_args(interface: &str, address: &str, prefix_len: u8) -> (r: (
    String,
    String,
))
    ensures
        r.0@ == interface@ + "/v4static"@,
        r.1@ == address@ + "/"@ + text::dec_string(prefix_len as nat),
{
    let addrobj = join2(interface, "/v4static");
    let p = u64_to_dec(prefix_len as u64);
    let ps = chars_to_string(p.as_slice());
    let with_prefix = join3(address, "/", ps.as_str());
    (addrobj, with_prefix)
}

/// The address object of the DHCP address of an interface: `<interface>/dhcp`.
pub fn dhcp_addrobj(interface: &str) -> (r: String)
    ensures
        r@ == interface@ + "/dhcp"@,
{
    join2(interface, "/dhcp")
}

/// The address argument of a static address is read back as the same
/// address and prefix length, whenever the address holds no `/`.
pub proof fn lemma_static_address_round_trip(address: Seq<char>, prefix_len: u8)
    requires
        !address.contains('/'),
    ensures
        crate::network::address_prefix(address + "/"@ + text::dec_string(prefix_len as nat)) == (
            address,
            Some(prefix_len),
        ),
{
    reveal_strlit("/");
    let s = address + "/"@ + text::dec_string(prefix_len as nat);
    let n = address.len() as int;
    assert forall|k: int| 0 <= k < n implies s[k] != '/' by {
        assert(s[k] == address[k]);
        if address[k] == '/' {
            assert(address.contains('/'));
        }
    }
    assert(s[n] == '/');
    text::lemma_idx_of_at(s, '/', n);
    assert(s.take(n) =~= address);
    assert(s.skip(n + 1) =~= text::dec_string(prefix_len as nat));
    text::lemma_parse_dec_string(prefix_len as nat, 255);
}

// ---------------------------------------------------------------------------
// Command answers
// ---------------------------------------------------------------------------

/// The result of an administration command that applies a setting: when it
/// could not run, an internal error "Failed to run <tool>: <reason>"; when it
/// failed, an internal error "<failure>: <stderr>"; otherwise success.
pub fn command_outcome(out: Result<CommandOutput, String>, tool: &str, failure: &str) -> (r: Result<
    (),
    AppError,
>)
    ensures
        match out {
            Err(e) => r matches Err(AppError::InternalServerError(m)) && m@ == "Failed to run "@
                + tool@ + ": "@ + e@,
            Ok(o) => if o.success {
                r is Ok
            } else {
                r matches Err(AppError::InternalServerError(m)) && m@ == failure@ + ": "@
                    + o.stderr@
            },
        },
{
    match out {
        Err(e) => {
            let head = join3("Failed to run ", tool, ": ");
            Err(AppError::InternalServerError(join2(head.as_str(), e.as_str())))
        },
        Ok(o) => {
            if o.success {
                Ok(())
            } else {
                Err(AppError::InternalServerError(join3(failure, ": ", o.stderr.as_str())))
            }
        },
    }
}

} // verus!
