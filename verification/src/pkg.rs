//! Package management on IPS: reading the answers of `pkg(1)`.
//!
//! The installed packages come from `pkg list -Hv`, the packages with
//! updates from `pkg list -uH -o name`, and their new versions from
//! `pkg info -r`.  Package names are given without their publisher.
use vstd::prelude::*;

use crate::domain::{copy_package, CommandOutput, PackageInfo, PackageInfoView};
use crate::error::AppError;
use crate::events::ExternalEvent;
use crate::text;
use crate::text::{
    chars_to_string, contains_str, join2, split_lines, split_once_chars, split_words,
    starts_with_str, str_chars, sub_chars, trim_chars,
};

verus! {

// ---------------------------------------------------------------------------
// FMRIs
// ---------------------------------------------------------------------------

/// The parts of an IPS FMRI `pkg://publisher/category/component@version:timestamp`:
/// the name without scheme and publisher, the version and the build time.
pub open spec fn fmri_parts(fmri: Seq<char>) -> (Seq<char>, Seq<char>, Seq<char>) {
    let (raw_name, rest) = match text::split_once(fmri, '@') {
        Some(p) => p,
        None => (fmri, Seq::<char>::empty()),
    };
    let no_scheme = match text::strip_prefix(raw_name, "pkg://"@) {
        Some(x) => x,
        None => raw_name,
    };
    let name = match text::split_once(no_scheme, '/') {
        Some((_publisher, clean)) => clean,
        None => no_scheme,
    };
    let (version, build_time) = match text::split_once(rest, ':') {
        Some(p) => p,
        None => (rest, Seq::<char>::empty()),
    };
    (name, version, build_time)
}

/// An FMRI `pkg://publisher/name@version:timestamp` is read as its whole
/// name (everything between the publisher and the `@`, every `/` of it
/// kept), its version and its timestamp, whenever the publisher holds no
/// `/` and no `@`, the name no `@`, and the version no `:`.  E.g.
/// "pkg://omnios/system/library/gcc-runtime@13.2.0-151046.0:20230605T000000Z"
/// is read as ("system/library/gcc-runtime", "13.2.0-151046.0",
/// "20230605T000000Z").
pub proof fn lemma_fmri_round_trip(
    publisher: Seq<char>,
    name: Seq<char>,
    version: Seq<char>,
    timestamp: Seq<char>,
)
    requires
        forall|k: int| 0 <= k < publisher.len() ==> publisher[k] != '/' && publisher[k] != '@',
        forall|k: int| 0 <= k < name.len() ==> name[k] != '@',
        forall|k: int| 0 <= k < version.len() ==> version[k] != ':',
    ensures
        fmri_parts(
            "pkg://"@ + publisher.push('/') + name.push('@') + version.push(':') + timestamp,
        ) == (name, version, timestamp),
{
    reveal_strlit("pkg://");
    let scheme = "pkg://"@;
    let raw = scheme + publisher.push('/') + name;
    let rest = version.push(':') + timestamp;
    let fmri = scheme + publisher.push('/') + name.push('@') + version.push(':') + timestamp;
    assert(fmri =~= raw.push('@') + rest);
    assert forall|k: int| 0 <= k < raw.len() implies raw[k] != '@' by {
        if k < scheme.len() {
        } else if k < scheme.len() + publisher.len() {
            assert(raw[k] == publisher[k - scheme.len()]);
        } else if k == scheme.len() + publisher.len() {
        } else {
            assert(raw[k] == name[k - scheme.len() - publisher.len() - 1]);
        }
    }
    text::lemma_split_once_field(raw, '@', rest);
    let no_scheme = publisher.push('/') + name;
    assert(raw.take(scheme.len() as int) =~= scheme);
    assert(raw.skip(scheme.len() as int) =~= no_scheme);
    assert(text::strip_prefix(raw, scheme) == Some(no_scheme));
    text::lemma_split_once_field(publisher, '/', name);
    text::lemma_split_once_field(version, ':', timestamp);
}

/// Parses an IPS FMRI into (name, version, build_time).
pub fn parse_fmri(fmri: &str) -> (r: (String, String, String))
    ensures
        (r.0@, r.1@, r.2@) == fmri_parts(fmri@),
{
    let f = str_chars(fmri);
    let (raw_name, rest) = match split_once_chars(f.as_slice(), '@') {
        Some(p) => p,
        None => (f, Vec::new()),
    };
    let prefix = str_chars("pkg://");
    let no_scheme = if starts_with_str(raw_name.as_slice(), "pkg://") {
        let n = raw_name.len();
        sub_chars(raw_name.as_slice(), prefix.len(), n)
    } else {
        raw_name
    };
    let name = match split_once_chars(no_scheme.as_slice(), '/') {
        Some((_publisher, clean)) => clean,
        None => no_scheme,
    };
    let (version, build_time) = match split_once_chars(rest.as_slice(), ':') {
        Some(p) => p,
        None => (rest, Vec::new()),
    };
    (
        chars_to_string(name.as_slice()),
        chars_to_string(version.as_slice()),
        chars_to_string(build_time.as_slice()),
    )
}


// ---------------------------------------------------------------------------
// Installed packages (`pkg list -Hv`)
// ---------------------------------------------------------------------------

/// The package one line of `pkg list -Hv` describes: its first word is the
/// FMRI, its second the status ("unknown" when missing); a blank line
/// describes none.
pub open spec fn package_of_line(line: Seq<char>) -> Option<PackageInfoView> {
    let w = text::words(line);
    if w.len() > 0 {
        let (name, version, build_time) = fmri_parts(w[0]);
        Some(
            PackageInfoView {
                name,
                version,
                build_time,
                status: if w.len() > 1 {
                    w[1]
                } else {
                    "unknown"@
                },
            },
        )
    } else {
        None
    }
}

/// The packages the lines `ls` describe, in order.
pub open spec fn packages_of_lines(ls: Seq<Seq<char>>) -> Seq<PackageInfoView>
    decreases ls.len(),
{
    if ls.len() == 0 {
        seq![]
    } else {
        let r = packages_of_lines(ls.drop_last());
        match package_of_line(ls.last()) {
            Some(p) => r.push(p),
            None => r,
        }
    }
}

/// The views of a list of packages.
pub open spec fn package_views(v: Seq<PackageInfo>) -> Seq<PackageInfoView> {
    v.map_values(|p: PackageInfo| p@)
}

fn package_line(line: &[char]) -> (r: Option<PackageInfo>)
    ensures
        match r {
            Some(p) => package_of_line(line@) == Some(p@),
            None => package_of_line(line@) is None,
        },
{
    let w = split_words(line);
    if w.len() == 0 {
        return None;
    }
    proof {
        assert(text::views(w@)[0] == w@[0]@);
    }
    let fmri = chars_to_string(w[0].as_slice());
    let (name, version, build_time) = parse_fmri(fmri.as_str());
    let status = if w.len() > 1 {
        proof {
            assert(text::views(w@)[1] == w@[1]@);
        }
        chars_to_string(w[1].as_slice())
    } else {
        chars_to_string(str_chars("unknown").as_slice())
    };
    Some(PackageInfo { name, version, build_time, status })
}

/// The installed packages that the output of `pkg list -Hv` lists.
pub fn parse_pkg_list(stdout: &str) -> (r: Vec<PackageInfo>)
    ensures
        package_views(r@) == packages_of_lines(text::lines_of(stdout@)),
{
    let s = str_chars(stdout);
    let lines = split_lines(s.as_slice());
    let mut out: Vec<PackageInfo> = Vec::new();
    let mut i: usize = 0;
    while i < lines.len()
        invariant
            i <= lines@.len(),
            text::views(lines@) == text::lines_of(stdout@),
            package_views(out@) == packages_of_lines(text::views(lines@).take(i as int)),
        decreases lines@.len() - i,
    {
        proof {
            assert(text::views(lines@).take(i + 1).drop_last() =~= text::views(lines@).take(
                i as int,
            ));
            assert(text::views(lines@).take(i + 1).last() == lines@[i as int]@);
        }
        match package_line(lines[i].as_slice()) {
            Some(p) => {
                proof {
                    assert(package_views(out@.push(p)) =~= package_views(out@).push(p@));
                }
                out.push(p);
            },
            None => {},
        }
        i += 1;
    }
    proof {
        assert(text::views(lines@).take(lines@.len() as int) =~= text::views(lines@));
    }
    out
}

/// How many times `pkg list` is run before giving up.
pub const PKG_LIST_ATTEMPTS: u32 = 3;

/// What to do after an attempt at `pkg list -Hv`.
pub enum PkgListStep {
    /// The listing is over, with this result.
    Done(Result<Vec<PackageInfo>, AppError>),
    /// Wait a little and run the command again.
    Retry,
}

/// The step after attempt number `attempt` (from 1) of `pkg list -Hv`
/// answered `out`: its packages when it succeeded; otherwise another
/// attempt, until the third has failed too.
pub fn pkg_list_step(attempt: u32, out: Result<CommandOutput, String>) -> (r: PkgListStep)
    requires
        1 <= attempt <= PKG_LIST_ATTEMPTS,
    ensures
        crate::domain::succeeded(out) ==> (r matches PkgListStep::Done(Ok(v)) && package_views(v@)
            == packages_of_lines(text::lines_of(out->Ok_0.stdout@))),
        !crate::domain::succeeded(out) && attempt < PKG_LIST_ATTEMPTS ==> r is Retry,
        !crate::domain::succeeded(out) && attempt == PKG_LIST_ATTEMPTS ==> (r matches PkgListStep::Done(
            Err(AppError::ServiceUnavailable(m)),
        ) && m@ == "Failed to list packages via pkg"@),
{
    match out {
        Ok(o) => {
            if o.success {
                return PkgListStep::Done(Ok(parse_pkg_list(o.stdout.as_str())));
            }
        },
        Err(_) => {},
    }
    if attempt < PKG_LIST_ATTEMPTS {
        PkgListStep::Retry
    } else {
        PkgListStep::Done(
            Err(
                AppError::ServiceUnavailable(
                    chars_to_string(str_chars("Failed to list packages via pkg").as_slice()),
                ),
            ),
        )
    }
}

// ---------------------------------------------------------------------------
// SSL failures of the package repository
// ---------------------------------------------------------------------------

/// What went wrong with the repository's SSL certificate.
#[derive(Debug, Clone, Copy)]
pub enum SslProblem {
    NotYetValid,
    Expired,
    Other,
}

/// The SSL problem that the error output of `pkg` reports, if any.
pub open spec fn ssl_problem(stderr: Seq<char>) -> Option<SslProblem> {
    if text::has_sub(stderr, "E_SSL"@) || text::has_sub(stderr, "SSL certificate problem"@) {
        if text::has_sub(stderr, "certificate is not yet valid"@) {
            Some(SslProblem::NotYetValid)
        } else if text::has_sub(stderr, "certificate has expired"@) {
            Some(SslProblem::Expired)
        } else {
            Some(SslProblem::Other)
        }
    } else {
        None
    }
}

/// Finds the SSL problem that the error output of `pkg` reports.
pub fn classify_ssl(stderr: &str) -> (r: Option<SslProblem>)
    ensures
        r == ssl_problem(stderr@),
{
    let e = str_chars(stderr);
    if contains_str(e.as_slice(), "E_SSL") || contains_str(e.as_slice(), "SSL certificate problem") {
        if contains_str(e.as_slice(), "certificate is not yet valid") {
            Some(SslProblem::NotYetValid)
        } else if contains_str(e.as_slice(), "certificate has expired") {
            Some(SslProblem::Expired)
        } else {
            Some(SslProblem::Other)
        }
    } else {
        None
    }
}

/// The message that answers an SSL problem met while refreshing the catalog.
pub open spec fn refresh_ssl_message(p: SslProblem) -> Seq<char> {
    match p {
        SslProblem::NotYetValid =>
            "Catalog refresh failed: SSL certificate is not yet valid. Please verify system time is correct."@,
        SslProblem::Expired =>
            "Catalog refresh failed: SSL certificate has expired. Consider updating CA certificates."@,
        SslProblem::Other => "Catalog refresh failed: SSL error. Check network and CA certificates."@,
    }
}

/// The message that answers an SSL problem met while looking for updates.
pub open spec fn updates_ssl_message(p: SslProblem) -> Seq<char> {
    match p {
        SslProblem::NotYetValid =>
            "Package repository SSL error: certificate is not yet valid. Please verify system time is correct (check with 'date' command)."@,
        SslProblem::Expired =>
            "Package repository SSL error: certificate has expired. Consider updating CA certificates or check repository status."@,
        SslProblem::Other =>
            "Package repository SSL error. Check network connectivity and CA certificates."@,
    }
}

fn refresh_ssl_text(p: SslProblem) -> (r: String)
    ensures
        r@ == refresh_ssl_message(p),
{
    let t = match p {
        SslProblem::NotYetValid => str_chars(
            "Catalog refresh failed: SSL certificate is not yet valid. Please verify system time is correct.",
        ),
        SslProblem::Expired => str_chars(
            "Catalog refresh failed: SSL certificate has expired. Consider updating CA certificates.",
        ),
        SslProblem::Other => str_chars(
            "Catalog refresh failed: SSL error. Check network and CA certificates.",
        ),
    };
    chars_to_string(t.as_slice())
}

fn updates_ssl_text(p: SslProblem) -> (r: String)
    ensures
        r@ == updates_ssl_message(p),
{
    let t = match p {
        SslProblem::NotYetValid => str_chars(
            "Package repository SSL error: certificate is not yet valid. Please verify system time is correct (check with 'date' command).",
        ),
        SslProblem::Expired => str_chars(
            "Package repository SSL error: certificate has expired. Consider updating CA certificates or check repository status.",
        ),
        SslProblem::Other => str_chars(
            "Package repository SSL error. Check network connectivity and CA certificates.",
        ),
    };
    chars_to_string(t.as_slice())
}

// ---------------------------------------------------------------------------
// Catalog refresh (`pkg refresh`)
// ---------------------------------------------------------------------------

/// The result of a catalog refresh that answered `out`: success when the
/// command succeeded; an SSL problem is "service unavailable" with an
/// actionable message; any other failure is an internal error.
pub fn refresh_outcome(out: Result<CommandOutput, String>) -> (r: Result<(), AppError>)
    ensures
        match out {
            Err(e) => r matches Err(AppError::InternalServerError(m)) && m@
                == "pkg refresh execution failed: "@ + e@,
            Ok(o) => if o.success {
                r is Ok
            } else {
                match ssl_problem(o.stderr@) {
                    Some(p) => r matches Err(AppError::ServiceUnavailable(m)) && m@
                        == refresh_ssl_message(p),
                    None => r matches Err(AppError::InternalServerError(m)) && m@
                        == "pkg refresh failed: "@ + o.stderr@,
                }
            },
        },
{
    match out {
        Err(e) => Err(
            AppError::InternalServerError(join2("pkg refresh execution failed: ", e.as_str())),
        ),
        Ok(o) => {
            if o.success {
                Ok(())
            } else {
                match classify_ssl(o.stderr.as_str()) {
                    Some(p) => Err(AppError::ServiceUnavailable(refresh_ssl_text(p))),
                    None => Err(
                        AppError::InternalServerError(
                            join2("pkg refresh failed: ", o.stderr.as_str()),
                        ),
                    ),
                }
            }
        },
    }
}

// ---------------------------------------------------------------------------
// Packages with updates (`pkg list -uH -o name`, then `pkg info -r`)
// ---------------------------------------------------------------------------

/// The package names the lines of `pkg list -uH -o name` give: each line
/// trimmed, blank lines left out.
pub open spec fn update_names_of_lines(ls: Seq<Seq<char>>) -> Seq<Seq<char>>
    decreases ls.len(),
{
    if ls.len() == 0 {
        seq![]
    } else {
        let r = update_names_of_lines(ls.drop_last());
        let t = text::trim(ls.last());
        if t.len() > 0 {
            r.push(t)
        } else {
            r
        }
    }
}

/// What the update query goes on with after `pkg list -uH -o name`.
pub enum UpdateQuery {
    /// Ask the repository about these packages.
    Names(Vec<String>),
    /// The query is over, with this result.
    Finished(Result<Vec<PackageInfo>, AppError>),
}

/// The message of an update query that could not be made.
pub open spec fn query_failed_message() -> Seq<char> {
    "Failed to query pkg updates"@
}

/// Reads the answer of `pkg list -uH -o name`: the names of the packages
/// that have updates; none when it exits with code 4 (nothing to update);
/// an SSL problem or any other failure makes the service unavailable.
pub fn update_candidates(out: Result<CommandOutput, String>) -> (r: UpdateQuery)
    ensures
        match out {
            Err(_) => r matches UpdateQuery::Finished(Err(AppError::ServiceUnavailable(m))) && m@
                == query_failed_message(),
            Ok(o) => if o.success {
                let names = update_names_of_lines(text::lines_of(o.stdout@));
                if names.len() == 0 {
                    r matches UpdateQuery::Finished(Ok(v)) && v@.len() == 0
                } else {
                    r matches UpdateQuery::Names(n) && crate::sysconf::string_views(n@) == names
                }
            } else if o.code == Some(4i32) {
                r matches UpdateQuery::Finished(Ok(v)) && v@.len() == 0
            } else {
                match ssl_problem(o.stderr@) {
                    Some(p) => r matches UpdateQuery::Finished(
                        Err(AppError::ServiceUnavailable(m)),
                    ) && m@ == updates_ssl_message(p),
                    None => r matches UpdateQuery::Finished(Err(AppError::ServiceUnavailable(m)))
                        && m@ == query_failed_message(),
                }
            },
        },
{
    match out {
        Err(_) => UpdateQuery::Finished(
            Err(
                AppError::ServiceUnavailable(
                    chars_to_string(str_chars("Failed to query pkg updates").as_slice()),
                ),
            ),
        ),
        Ok(o) => {
            if o.success {
                let s = str_chars(o.stdout.as_str());
                let lines = split_lines(s.as_slice());
                let mut names: Vec<String> = Vec::new();
                let mut i: usize = 0;
                while i < lines.len()
                    invariant
                        i <= lines@.len(),
                        text::views(lines@) == text::lines_of(o.stdout@),
                        crate::sysconf::string_views(names@) == update_names_of_lines(
                            text::views(lines@).take(i as int),
                        ),
                    decreases lines@.len() - i,
                {
                    proof {
                        assert(text::views(lines@).take(i + 1).drop_last() =~= text::views(
                            lines@,
                        ).take(i as int));
                        assert(text::views(lines@).take(i + 1).last() == lines@[i as int]@);
                    }
                    let t = trim_chars(lines[i].as_slice());
                    if t.len() > 0 {
                        let n = chars_to_string(t.as_slice());
                        proof {
                            assert(crate::sysconf::string_views(names@.push(n)) =~= crate::sysconf::string_views(names@).push(n@));
                        }
                        names.push(n);
                    }
                    i += 1;
                }
                proof {
                    assert(text::views(lines@).take(lines@.len() as int) =~= text::views(lines@));
                }
                if names.len() == 0 {
                    UpdateQuery::Finished(Ok(Vec::new()))
                } else {
                    UpdateQuery::Names(names)
                }
            } else if o.code == Some(4i32) {
                UpdateQuery::Finished(Ok(Vec::new()))
            } else {
                match classify_ssl(o.stderr.as_str()) {
                    Some(p) => UpdateQuery::Finished(
                        Err(AppError::ServiceUnavailable(updates_ssl_text(p))),
                    ),
                    None => UpdateQuery::Finished(
                        Err(
                            AppError::ServiceUnavailable(
                                chars_to_string(str_chars("Failed to query pkg updates").as_slice()),
                            ),
                        ),
                    ),
                }
            }
        },
    }
}

/// The state of the reading of `pkg info -r`: the name of the package
/// being described, if any, and the updates found so far.
pub open spec fn remote_info_step(
    state: (Option<Seq<char>>, Seq<PackageInfoView>),
    line: Seq<char>,
) -> (Option<Seq<char>>, Seq<PackageInfoView>) {
    let (current, found) = state;
    let t = text::trim(line);
    match text::strip_prefix(t, "Name: "@) {
        Some(name) => (Some(name), found),
        None => match text::strip_prefix(t, "FMRI: "@) {
            Some(fmri) => match current {
                Some(name) => (
                    None,
                    found.push(
                        PackageInfoView {
                            name,
                            version: fmri_parts(fmri).1,
                            build_time: fmri_parts(fmri).2,
                            status: "upgrade_available"@,
                        },
                    ),
                ),
                None => (None, found),
            },
            None => (current, found),
        },
    }
}

/// The state after reading the lines `ls` of `pkg info -r`.
pub open spec fn remote_info_of_lines(ls: Seq<Seq<char>>) -> (
    Option<Seq<char>>,
    Seq<PackageInfoView>,
)
    decreases ls.len(),
{
    if ls.len() == 0 {
        (None, seq![])
    } else {
        remote_info_step(remote_info_of_lines(ls.drop_last()), ls.last())
    }
}

/// The updates that the output of `pkg info -r` describes: for each
/// `Name:` line followed by an `FMRI:` line, the package with the new
/// version and build time of that FMRI.
pub fn parse_remote_updates(stdout: &str) -> (r: Vec<PackageInfo>)
    ensures
        package_views(r@) == remote_info_of_lines(text::lines_of(stdout@)).1,
{
    let s = str_chars(stdout);
    let lines = split_lines(s.as_slice());
    let mut current: Option<String> = None;
    let mut found: Vec<PackageInfo> = Vec::new();
    let mut i: usize = 0;
    while i < lines.len()
        invariant
            i <= lines@.len(),
            text::views(lines@) == text::lines_of(stdout@),
            (current.deep_view(), package_views(found@)) == remote_info_of_lines(
                text::views(lines@).take(i as int),
            ),
        decreases lines@.len() - i,
    {
        proof {
            assert(text::views(lines@).take(i + 1).drop_last() =~= text::views(lines@).take(
                i as int,
            ));
            assert(text::views(lines@).take(i + 1).last() == lines@[i as int]@);
        }
        let t = trim_chars(lines[i].as_slice());
        if starts_with_str(t.as_slice(), "Name: ") {
            proof {
                reveal_strlit("Name: ");
            }
            let n = t.len();
            let name = sub_chars(t.as_slice(), 6, n);
            current = Some(chars_to_string(name.as_slice()));
        } else if starts_with_str(t.as_slice(), "FMRI: ") {
            proof {
                reveal_strlit("FMRI: ");
            }
            let n = t.len();
            let fmri = chars_to_string(sub_chars(t.as_slice(), 6, n).as_slice());
            match current {
                Some(name) => {
                    let (_, version, build_time) = parse_fmri(fmri.as_str());
                    let status = chars_to_string(str_chars("upgrade_available").as_slice());
                    let p = PackageInfo { name, version, build_time, status };
                    proof {
                        assert(package_views(found@.push(p)) =~= package_views(found@).push(p@));
                    }
                    found.push(p);
                    current = None;
                },
                None => {},
            }
        }
        i += 1;
    }
    proof {
        assert(text::views(lines@).take(lines@.len() as int) =~= text::views(lines@));
    }
    found
}

/// The updates that `pkg info -r` answered: those its output describes,
/// whether or not it succeeded (it may answer for some packages only);
/// none when it could not run.
pub fn remote_updates(out: Result<CommandOutput, String>) -> (r: Vec<PackageInfo>)
    ensures
        match out {
            Ok(o) => package_views(r@) == remote_info_of_lines(text::lines_of(o.stdout@)).1,
            Err(_) => r@.len() == 0,
        },
{
    match out {
        Ok(o) => parse_remote_updates(o.stdout.as_str()),
        Err(_) => Vec::new(),
    }
}


// ---------------------------------------------------------------------------
// The updates known to the package actor
// ---------------------------------------------------------------------------

/// The name of the background task that looks for updates.
pub open spec fn update_task_name() -> Seq<char> {
    "Package Update Check"@
}

/// The packages with updates found by the last successful check.
pub struct PkgUpdateCache {
    updates: Vec<PackageInfo>,
}

impl View for PkgUpdateCache {
    type V = Seq<PackageInfoView>;

    closed spec fn view(&self) -> Seq<PackageInfoView> {
        package_views(self.updates@)
    }
}

impl PkgUpdateCache {
    /// A cache that knows of no update.
    pub fn new() -> (r: Self)
        ensures
            r@ == Seq::<PackageInfoView>::empty(),
    {
        let r = PkgUpdateCache { updates: Vec::new() };
        assert(r@ =~= Seq::<PackageInfoView>::empty());
        r
    }

    /// Keeps the result of a check: the updates found replace those known;
    /// after a failed check, those known stay.
    pub fn record(&mut self, result: Result<Vec<PackageInfo>, AppError>)
        ensures
            final(self)@ == match result {
                Ok(v) => package_views(v@),
                Err(_) => old(self)@,
            },
    {
        match result {
            Ok(v) => {
                self.updates = v;
            },
            Err(_) => {},
        }
    }

    /// The event announcing that a check for updates started.
    pub fn check_started(id: String, started_at: String) -> (r: ExternalEvent)
        ensures
            r matches ExternalEvent::TaskStarted { id: i, name: n, started_at: s } && i == id && n@
                == update_task_name() && s == started_at,
    {
        ExternalEvent::TaskStarted {
            id,
            name: chars_to_string(str_chars("Package Update Check").as_slice()),
            started_at,
        }
    }

    /// Keeps the result of a requested check and answers the event that
    /// announces its end: "success" or "failed", with its duration.
    pub fn check_completed(
        &mut self,
        id: String,
        started_at: String,
        duration_ms: u64,
        result: Result<Vec<PackageInfo>, AppError>,
    ) -> (r: ExternalEvent)
        ensures
            final(self)@ == match result {
                Ok(v) => package_views(v@),
                Err(_) => old(self)@,
            },
            r matches ExternalEvent::TaskCompleted {
                id: i,
                name: n,
                started_at: s,
                duration_ms: d,
                status: st,
            } && i == id && n@ == update_task_name() && s == started_at && d == duration_ms
                && st@ == (if result is Ok {
                "success"@
            } else {
                "failed"@
            }),
    {
        let ok = result.is_ok();
        self.record(result);
        let status = if ok {
            chars_to_string(str_chars("success").as_slice())
        } else {
            chars_to_string(str_chars("failed").as_slice())
        };
        ExternalEvent::TaskCompleted {
            id,
            name: chars_to_string(str_chars("Package Update Check").as_slice()),
            started_at,
            duration_ms,
            status,
        }
    }

    /// The updates known.
    pub fn updates(&self) -> (r: Vec<PackageInfo>)
        ensures
            package_views(r@) == self@,
    {
        let mut out: Vec<PackageInfo> = Vec::new();
        let mut i: usize = 0;
        while i < self.updates.len()
            invariant
                i <= self.updates@.len(),
                package_views(out@) == package_views(self.updates@.take(i as int)),
            decreases self.updates@.len() - i,
        {
            let p = copy_package(&self.updates[i]);
            proof {
                assert(package_views(self.updates@.take(i + 1)) =~= package_views(
                    self.updates@.take(i as int),
                ).push(p@));
                assert(package_views(out@.push(p)) =~= package_views(out@).push(p@));
            }
            out.push(p);
            i += 1;
        }
        proof {
            assert(self.updates@.take(self.updates@.len() as int) =~= self.updates@);
        }
        out
    }
}

} // verus!
