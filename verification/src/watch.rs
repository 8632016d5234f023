//! What the watchers make of what they observe: kernel network events,
//! changes to watched files and the lines of the system log.
use vstd::prelude::*;

use crate::events::ExternalEvent;
use crate::text;
use crate::text::{chars_eq_str, chars_to_string, str_chars, sub_chars, trim_chars};

verus! {

// ---------------------------------------------------------------------------
// Network sysevents
// ---------------------------------------------------------------------------

/// The link named by the first attribute that is present.
pub open spec fn first_present(found: Seq<Option<Seq<char>>>) -> Option<Seq<char>>
    decreases found.len(),
{
    if found.len() == 0 {
        None
    } else {
        match found[0] {
            Some(n) => Some(n),
            None => first_present(found.drop_first()),
        }
    }
}

/// The link name of a sysevent, from the values of its link attributes
/// looked up in order (none for each attribute that is absent).
pub fn link_name(found: Vec<Option<String>>) -> (r: Option<String>)
    ensures
        r.deep_view() == first_present(found.deep_view()),
{
    let mut i: usize = 0;
    let ghost fv = found.deep_view();
    proof {
        assert(fv.skip(0) =~= fv);
    }
    while i < found.len()
        invariant
            i <= found@.len(),
            fv == found.deep_view(),
            fv.len() == found@.len(),
            first_present(fv) == first_present(fv.skip(i as int)),
        decreases found@.len() - i,
    {
        let ghost rest = fv.skip(i as int);
        proof {
            assert(rest[0] == found@[i as int].deep_view());
            assert(rest.drop_first() =~= fv.skip(i + 1));
        }
        match &found[i] {
            Some(n) => {
                return Some(n.clone());
            },
            None => {},
        }
        i += 1;
    }
    None
}

/// The event a network sysevent of class `class` and subclass `subclass`
/// is published as: a link coming up or going down (a generic change of
/// the network configuration when the link is not named), a change of the
/// network configuration for the other link, network and IP events, and
/// nothing for the rest.
pub open spec fn network_event_spec(
    class: Seq<char>,
    subclass: Seq<char>,
    link: Option<Seq<char>>,
) -> Option<(int, Seq<char>)> {
    if subclass == "ESC_LINK_UP"@ {
        match link {
            Some(n) => Some((1, n)),
            None => Some((0, "/dev/sysevent/link_up"@)),
        }
    } else if subclass == "ESC_LINK_DOWN"@ {
        match link {
            Some(n) => Some((2, n)),
            None => Some((0, "/dev/sysevent/link_down"@)),
        }
    } else if class == "EC_LINK"@ || class == "EC_NETWORK"@ || class == "EC_IP"@ {
        Some((0, "/dev/sysevent/network"@))
    } else {
        None
    }
}

/// An event as a kind and a text: 0 for a configuration change (with its
/// path), 1 for a link going up, 2 for a link going down (with its name);
/// none for every other event.
pub open spec fn link_event_view(e: ExternalEvent) -> Option<(int, Seq<char>)> {
    match e {
        ExternalEvent::ConfigChanged { path } => Some((0, path@)),
        ExternalEvent::LinkUp { name } => Some((1, name@)),
        ExternalEvent::LinkDown { name } => Some((2, name@)),
        _ => None,
    }
}

fn config_changed(path: &str) -> (r: ExternalEvent)
    ensures
        link_event_view(r) == Some((0int, path@)),
{
    ExternalEvent::ConfigChanged { path: chars_to_string(str_chars(path).as_slice()) }
}

/// The event a network sysevent is published as, if any.
pub fn network_event(class: &str, subclass: &str, link: Option<String>) -> (r: Option<
    ExternalEvent,
>)
    ensures
        match network_event_spec(class@, subclass@, link.deep_view()) {
            Some(v) => r matches Some(e) && link_event_view(e) == Some(v),
            None => r is None,
        },
{
    let c = str_chars(class);
    let s = str_chars(subclass);
    if chars_eq_str(s.as_slice(), "ESC_LINK_UP") {
        match link {
            Some(name) => Some(ExternalEvent::LinkUp { name }),
            None => Some(config_changed("/dev/sysevent/link_up")),
        }
    } else if chars_eq_str(s.as_slice(), "ESC_LINK_DOWN") {
        match link {
            Some(name) => Some(ExternalEvent::LinkDown { name }),
            None => Some(config_changed("/dev/sysevent/link_down")),
        }
    } else if chars_eq_str(c.as_slice(), "EC_LINK") || chars_eq_str(c.as_slice(), "EC_NETWORK")
        || chars_eq_str(c.as_slice(), "EC_IP") {
        Some(config_changed("/dev/sysevent/network"))
    } else {
        None
    }
}

// ---------------------------------------------------------------------------
// Watched files
// ---------------------------------------------------------------------------

/// The kinds of change the file watcher is told of.
pub enum FileChangeKind {
    Modify,
    Create,
    Remove,
    Access,
    Other,
}

/// The event a file change is published as: a change of configuration at
/// the first path of the change, for a modification, creation or removal
/// that names a path; nothing otherwise.
pub fn file_change_event(kind: FileChangeKind, paths: &Vec<String>) -> (r: Option<ExternalEvent>)
    ensures
        match kind {
            FileChangeKind::Modify | FileChangeKind::Create | FileChangeKind::Remove => if paths@.len()
                > 0 {
                r matches Some(ExternalEvent::ConfigChanged { path }) && path@ == paths@[0]@
            } else {
                r is None
            },
            _ => r is None,
        },
{
    match kind {
        FileChangeKind::Modify | FileChangeKind::Create | FileChangeKind::Remove => {
            if paths.len() > 0 {
                Some(ExternalEvent::ConfigChanged { path: paths[0].clone() })
            } else {
                None
            }
        },
        _ => None,
    }
}

// ---------------------------------------------------------------------------
// System log lines
// ---------------------------------------------------------------------------

/// `s` without its trailing carriage returns and line feeds
/// (`trim_end_matches(&['\r', '\n'])`).
pub open spec fn strip_line_end(s: Seq<char>) -> Seq<char>
    decreases s.len(),
{
    if s.len() > 0 && (s.last() == '\r' || s.last() == '\n') {
        strip_line_end(s.drop_last())
    } else {
        s
    }
}

/// The log line a raw read gives: the read without its line ending, when
/// anything is left.
pub open spec fn log_line_of(raw: Seq<char>) -> Option<Seq<char>> {
    if strip_line_end(raw).len() > 0 {
        Some(strip_line_end(raw))
    } else {
        None
    }
}

/// The log line of a raw read, if it is not blank.
pub fn log_line(raw: &str) -> (r: Option<String>)
    ensures
        r.deep_view() == log_line_of(raw@),
{
    let cs = str_chars(raw);
    let mut n: usize = cs.len();
    proof {
        assert(cs@.take(n as int) =~= cs@);
    }
    while n > 0 && (cs[n - 1] == '\r' || cs[n - 1] == '\n')
        invariant
            n <= cs@.len(),
            cs@ == raw@,
            strip_line_end(raw@) == strip_line_end(cs@.take(n as int)),
        decreases n,
    {
        proof {
            assert(cs@.take(n as int).drop_last() =~= cs@.take(n - 1));
        }
        n -= 1;
    }
    proof {
        if n == 0 {
            assert(cs@.take(0).len() == 0);
        }
    }
    if n == 0 {
        return None;
    }
    let line = sub_chars(cs.as_slice(), 0, n);
    proof {
        assert(line@ =~= cs@.take(n as int));
        assert(strip_line_end(line@) == line@);
    }
    Some(chars_to_string(line.as_slice()))
}

/// The system log line that a message written by the logger becomes: the
/// message trimmed, when anything is left.
pub fn log_message_line(message: &str) -> (r: Option<String>)
    ensures
        r.deep_view() == (if text::trim(message@).len() > 0 {
            Some(text::trim(message@))
        } else {
            None
        }),
{
    let cs = str_chars(message);
    let t = trim_chars(cs.as_slice());
    if t.len() > 0 {
        Some(chars_to_string(t.as_slice()))
    } else {
        None
    }
}

/// How many lines of the log are loaded when the watcher starts.
pub const PRELOAD_LINES: usize = 500;

/// The lines loaded from the log when the watcher starts: the latest 500
/// non-blank lines read, oldest first.
pub struct LogPreload {
    lines: Vec<String>,
}

impl View for LogPreload {
    type V = Seq<Seq<char>>;

    closed spec fn view(&self) -> Seq<Seq<char>> {
        self.lines@.map_values(|s: String| s@)
    }
}

impl LogPreload {
    /// Holds at most `PRELOAD_LINES` lines.
    pub closed spec fn wf(&self) -> bool {
        self.lines@.len() <= PRELOAD_LINES
    }

    /// No line loaded yet.
    pub fn new() -> (r: Self)
        ensures
            r.wf(),
            r@ == Seq::<Seq<char>>::empty(),
    {
        let r = LogPreload { lines: Vec::new() };
        assert(r@ =~= Seq::<Seq<char>>::empty());
        r
    }

    /// Takes one raw read of the log: its line, if not blank, is kept, and
    /// the oldest line leaves when 500 are already kept.
    pub fn push(&mut self, raw: &str)
        requires
            old(self).wf(),
        ensures
            final(self).wf(),
            final(self)@ == match log_line_of(raw@) {
                Some(l) => crate::events::last_n(old(self)@.push(l), PRELOAD_LINES as nat),
                None => old(self)@,
            },
    {
        match log_line(raw) {
            Some(l) => {
                let ghost before = self@;
                let ghost lv = l@;
                if self.lines.len() == PRELOAD_LINES {
                    self.lines.remove(0);
                }
                self.lines.push(l);
                proof {
                    let pushed = before.push(lv);
                    if before.len() == PRELOAD_LINES {
                        assert(self@ =~= pushed.skip(pushed.len() - PRELOAD_LINES));
                    } else {
                        assert(self@ =~= pushed);
                    }
                }
            },
            None => {},
        }
    }

    /// The lines kept, oldest first, to be published.
    pub fn into_lines(self) -> (r: Vec<String>)
        ensures
            r@.map_values(|s: String| s@) == self@,
    {
        self.lines
    }
}

/// What the log watcher does with a read of the log.
pub enum LogRead {
    /// A line was read (with its line ending).
    Line(String),
    /// Nothing more to read for now.
    EndOfFile,
    /// The read failed.
    Failed,
}

/// What the log watcher does next.
pub enum TailAction {
    /// Publish this line.
    Publish(String),
    /// Read again at once.
    ReadAgain,
    /// Wait a little, then read again.
    Wait,
    /// Wait, then reopen the log.
    Reopen,
}

/// The action that follows a read while tailing the log: publish a line
/// that is not blank, skip a blank one, wait at the end of the file, and
/// reopen the file after a failed read.
pub fn tail_step(read: LogRead) -> (r: TailAction)
    ensures
        match read {
            LogRead::Line(raw) => match log_line_of(raw@) {
                Some(l) => r matches TailAction::Publish(p) && p@ == l,
                None => r is ReadAgain,
            },
            LogRead::EndOfFile => r is Wait,
            LogRead::Failed => r is Reopen,
        },
{
    match read {
        LogRead::Line(raw) => match log_line(raw.as_str()) {
            Some(l) => TailAction::Publish(l),
            None => TailAction::ReadAgain,
        },
        LogRead::EndOfFile => TailAction::Wait,
        LogRead::Failed => TailAction::Reopen,
    }
}

/// The lines that tailing publishes for the reads `reads` of the log, in
/// the order read: the log line of each read that has one.
pub open spec fn published_lines(reads: Seq<Seq<char>>) -> Seq<Seq<char>> {
    reads.filter_map(|raw: Seq<char>| log_line_of(raw))
}

/// Tailing publishes every line appended to the log once, in the order
/// appended, without its line ending, and never a blank line: reading the
/// appended lines one by one, each with its line feed, publishes what the
/// lines themselves give.
pub proof fn lemma_tail_publishes_appended_lines(lines: Seq<Seq<char>>)
    ensures
        published_lines(lines.map_values(|l: Seq<char>| l.push('\n'))) == published_lines(lines),
        forall|i: int| 0 <= i < published_lines(lines).len() ==> #[trigger] published_lines(
            lines,
        )[i].len() > 0,
    decreases lines.len(),
{
    let reads = lines.map_values(|l: Seq<char>| l.push('\n'));
    if lines.len() > 0 {
        let front = lines.drop_last();
        let last = lines.last();
        lemma_tail_publishes_appended_lines(front);
        assert(reads.drop_last() =~= front.map_values(|l: Seq<char>| l.push('\n')));
        assert(reads.last() == last.push('\n'));
        assert(last.push('\n').drop_last() =~= last);
        assert(strip_line_end(last.push('\n')) == strip_line_end(last));
        assert(log_line_of(reads.last()) == log_line_of(last));
        assert(published_lines(reads) == published_lines(lines));
        assert forall|i: int| 0 <= i < published_lines(lines).len() implies #[trigger] published_lines(
            lines,
        )[i].len() > 0 by {
            if i < published_lines(front).len() {
                assert(published_lines(front)[i].len() > 0);
            }
        }
    } else {
        assert(reads.len() == 0);
    }
}

/// How many times the log is opened before the watcher gives up.
pub const LOG_OPEN_ATTEMPTS: u32 = 3;

/// The error of a log that could not be opened.
pub fn log_open_failure(path: &str, last_error: Option<String>) -> (r: crate::error::AppError)
    ensures
        r matches crate::error::AppError::ServiceUnavailable(m) && m@
            == "Failed to open system log file "@ + path@ + ": "@ + match last_error {
            Some(e) => e@,
            None => "unknown log error"@,
        },
{
    let e = match last_error {
        Some(e) => e,
        None => chars_to_string(str_chars("unknown log error").as_slice()),
    };
    let head = text::join3("Failed to open system log file ", path, ": ");
    crate::error::AppError::ServiceUnavailable(text::join2(head.as_str(), e.as_str()))
}

// ---------------------------------------------------------------------------
// The HTTP to HTTPS redirect
// ---------------------------------------------------------------------------

/// Where a plain HTTP request is redirected: the same host (without its
/// port; "localhost" when the request names none) on the HTTPS port 8443,
/// with the same path and query ("/" when there is none).
pub open spec fn redirect_location_spec(host: Option<Seq<char>>, path_and_query: Option<Seq<char>>) -> Seq<char> {
    let h = match host {
        Some(h) => text::split_on(h, ':')[0],
        None => "localhost"@,
    };
    let pq = match path_and_query {
        Some(p) => p,
        None => "/"@,
    };
    "https://"@ + h + ":8443"@ + pq
}

/// The location an HTTP request is redirected to.
pub fn redirect_location(host: Option<String>, path_and_query: Option<String>) -> (r: String)
    ensures
        r@ == redirect_location_spec(host.deep_view(), path_and_query.deep_view()),
{
    let h: String = match host {
        Some(h) => {
            let cs = str_chars(h.as_str());
            let parts = text::split_chars(cs.as_slice(), ':');
            proof {
                assert(text::split_on(cs@, ':').len() >= 1);
                assert(text::views(parts@)[0] == parts@[0]@);
            }
            chars_to_string(parts[0].as_slice())
        },
        None => chars_to_string(str_chars("localhost").as_slice()),
    };
    let pq: String = match path_and_query {
        Some(p) => p,
        None => chars_to_string(str_chars("/").as_slice()),
    };
    let a = text::join3("https://", h.as_str(), ":8443");
    text::join2(a.as_str(), pq.as_str())
}

} // verus!
