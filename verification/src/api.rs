//! The answers of the HTTP API that are more than a call: the status and
//! readiness answers, the system information, and the network settings
//! updates.
use vstd::prelude::*;

use crate::domain::{NetworkConfig, SystemInfo};
use crate::error::AppError;
use crate::text;
use crate::text::{chars_to_string, join2, parse_u64, split_words, str_chars, trim_chars};

verus! {

/// Response for successful operations.
pub struct SuccessResponse {
    pub success: bool,
    pub message: Option<String>,
}

/// Request to set a static IP address on the interface named in the path.
pub struct SetAddressRequest {
    /// IP address (e.g., "192.168.1.10")
    pub address: String,
    /// Subnet prefix length (e.g., 24 for /24)
    pub prefix_len: u8,
}

/// Request to update the system network configuration.
pub struct UpdateConfigRequest {
    /// DNS servers to set
    pub dns_servers: Option<Vec<String>>,
    /// DNS search domains
    pub dns_search: Option<Vec<String>>,
    /// Default gateway
    pub gateway: Option<String>,
}

/// Request to create a dataset.
pub struct CreateDatasetRequest {
    pub name: String,
    pub pool: String,
}

/// Response to a dataset creation.
pub struct CreateDatasetResponse {
    pub success: bool,
}

/// The status of the API and the user of the session.
pub struct StatusResponse {
    pub status: String,
    pub user: Option<String>,
}

/// The status answer: "ok", with the user of the session if any.
pub fn status_response(user: Option<String>) -> (r: StatusResponse)
    ensures
        r.status@ == "ok"@,
        r.user == user,
{
    StatusResponse { status: chars_to_string(str_chars("ok").as_slice()), user }
}

/// The readiness answer: not ready until the TLS configuration is.
pub fn readiness(tls_ready: bool) -> (r: Result<(), AppError>)
    ensures
        tls_ready ==> r is Ok,
        !tls_ready ==> (r matches Err(AppError::ServiceUnavailable(m)) && m@
            == "TLS configuration not ready"@),
{
    if tls_ready {
        Ok(())
    } else {
        Err(
            AppError::ServiceUnavailable(
                chars_to_string(str_chars("TLS configuration not ready").as_slice()),
            ),
        )
    }
}

/// The answer to a dataset creation request (creation is not carried out).
pub fn create_dataset(request: CreateDatasetRequest) -> (r: CreateDatasetResponse)
    ensures
        r.success,
{
    CreateDatasetResponse { success: true }
}

// ---------------------------------------------------------------------------
// System information
// ---------------------------------------------------------------------------

/// A text an administration command printed, trimmed; "unknown" when the
/// command did not give one.
pub open spec fn trimmed_or_unknown(out: Option<Seq<char>>) -> Seq<char> {
    match out {
        Some(s) => text::trim(s),
        None => "unknown"@,
    }
}

/// A command's output that was given is reported in full with only the
/// whitespace around it removed: whitespace inside it (the spaces between
/// the words of `uname -srv`) is kept.  Output that was not given is
/// reported as "unknown".
pub proof fn lemma_reported_output_kept_whole(lead: Seq<char>, core: Seq<char>, trail: Seq<char>)
    requires
        forall|k: int| 0 <= k < lead.len() ==> text::is_ws(#[trigger] lead[k]),
        forall|k: int| 0 <= k < trail.len() ==> text::is_ws(#[trigger] trail[k]),
        core.len() > 0 ==> !text::is_ws(core[0]) && !text::is_ws(core.last()),
    ensures
        trimmed_or_unknown(Some(lead + core + trail)) == core,
        trimmed_or_unknown(None) == "unknown"@,
{
    text::lemma_trim_surrounded(lead, core, trail);
}

fn trimmed_or_unknown_text(out: Option<String>) -> (r: String)
    ensures
        r@ == trimmed_or_unknown(out.deep_view()),
{
    match out {
        Some(s) => {
            let cs = str_chars(s.as_str());
            chars_to_string(trim_chars(cs.as_slice()).as_slice())
        },
        None => chars_to_string(str_chars("unknown").as_slice()),
    }
}

/// The boot time that `kstat -p unix:0:system_misc:boot_time` printed: its
/// last word, read as a number.
pub open spec fn boot_time_of(out: Seq<char>) -> Option<nat> {
    let w = text::words(out);
    if w.len() > 0 {
        text::parse_unsigned(w.last(), 0xffff_ffff_ffff_ffff)
    } else {
        None
    }
}

/// The uptime in seconds at `now`: the time since boot (0 when the clock
/// is behind the boot time), or 0 when the boot time is not known.
pub open spec fn uptime_of(boot: Option<nat>, now: u64) -> nat {
    match boot {
        Some(b) => if now >= b {
            (now - b) as nat
        } else {
            0
        },
        None => 0,
    }
}

/// The system information, from what `hostname`, `uname -srv` and `kstat`
/// printed (none when a command failed or did not print UTF-8 text) and
/// the current time in seconds since the epoch.
pub fn system_info(
    hostname: Option<String>,
    uname: Option<String>,
    boot_kstat: Option<String>,
    now: u64,
) -> (r: SystemInfo)
    ensures
        r.hostname@ == trimmed_or_unknown(hostname.deep_view()),
        r.kernel_version@ == trimmed_or_unknown(uname.deep_view()),
        r.uptime == uptime_of(
            match boot_kstat {
                Some(s) => boot_time_of(s@),
                None => None,
            },
            now,
        ),
{
    let boot: Option<u64> = match boot_kstat {
        Some(s) => {
            let cs = str_chars(s.as_str());
            let w = split_words(cs.as_slice());
            if w.len() > 0 {
                proof {
                    assert(text::views(w@).last() == w@[w@.len() - 1]@);
                }
                parse_u64(w[w.len() - 1].as_slice())
            } else {
                None
            }
        },
        None => None,
    };
    let uptime: u64 = match boot {
        Some(b) => now.saturating_sub(b),
        None => 0,
    };
    SystemInfo {
        hostname: trimmed_or_unknown_text(hostname),
        kernel_version: trimmed_or_unknown_text(uname),
        uptime,
    }
}

// ---------------------------------------------------------------------------
// Network settings updates
// ---------------------------------------------------------------------------

/// The DNS settings an update writes, if any: when it names servers or
/// search domains, those it names, and for the other list the current one.
pub fn dns_to_write(
    servers: Option<Vec<String>>,
    search: Option<Vec<String>>,
    current: &NetworkConfig,
) -> (r: Option<(Vec<String>, Vec<String>)>)
    ensures
        (servers is None && search is None) ==> r is None,
        !(servers is None && search is None) ==> (r matches Some((s, q)) && crate::sysconf::string_views(s@)
            == match servers {
            Some(v) => crate::sysconf::string_views(v@),
            None => crate::sysconf::string_views(current.dns_servers@),
        } && crate::sysconf::string_views(q@) == match search {
            Some(v) => crate::sysconf::string_views(v@),
            None => crate::sysconf::string_views(current.dns_search@),
        }),
{
    if servers.is_none() && search.is_none() {
        return None;
    }
    let s = match servers {
        Some(v) => v,
        None => current.dns_servers.clone(),
    };
    let q = match search {
        Some(v) => v,
        None => current.dns_search.clone(),
    };
    Some((s, q))
}

/// The answer to a successful network configuration update.
pub fn config_updated() -> (r: SuccessResponse)
    ensures
        r.success,
        r.message.deep_view() == Some("Network configuration updated"@),
{
    SuccessResponse {
        success: true,
        message: Some(chars_to_string(str_chars("Network configuration updated").as_slice())),
    }
}

/// The answer to a static address configured on `name`.
pub fn address_configured(name: &str) -> (r: SuccessResponse)
    ensures
        r.success,
        r.message.deep_view() == Some("Static address configured on "@ + name@),
{
    SuccessResponse { success: true, message: Some(join2("Static address configured on ", name)) }
}

/// The answer to DHCP configured on `name`.
pub fn dhcp_configured(name: &str) -> (r: SuccessResponse)
    ensures
        r.success,
        r.message.deep_view() == Some("DHCP configured on "@ + name@),
{
    SuccessResponse { success: true, message: Some(join2("DHCP configured on ", name)) }
}

} // verus!
