//! The system network configuration files: `/etc/resolv.conf`,
//! `/etc/defaultrouter` and `/etc/nodename`.
//!
//! The files are the single source of truth: the configuration is read from
//! them and written into them.  Reading and writing are stated over the same
//! definitions, and what is written is proved to be read back.
use vstd::prelude::*;

use crate::domain::NetworkConfig;
use crate::error::AppError;
use crate::text;
use crate::text::{
    chars_to_string, concat_chars, split_lines, split_words, starts_with_str, str_chars, trim_chars,
};

verus! {

// ---------------------------------------------------------------------------
// Reading
// ---------------------------------------------------------------------------

/// The name server that one line of resolv.conf names: a line whose trimmed
/// text begins with "nameserver" names its second word, when it has one.
pub open spec fn nameserver_of_line(line: Seq<char>) -> Option<Seq<char>> {
    let t = text::trim(line);
    if text::starts_with(t, "nameserver"@) && text::words(t).len() > 1 {
        Some(text::words(t)[1])
    } else {
        None
    }
}

/// The name servers that a sequence of lines names, in order.
pub open spec fn nameservers_of_lines(ls: Seq<Seq<char>>) -> Seq<Seq<char>>
    decreases ls.len(),
{
    if ls.len() == 0 {
        seq![]
    } else {
        let r = nameservers_of_lines(ls.drop_last());
        match nameserver_of_line(ls.last()) {
            Some(n) => r.push(n),
            None => r,
        }
    }
}

/// The name servers that resolv.conf names.
pub open spec fn nameservers_of(content: Seq<char>) -> Seq<Seq<char>> {
    nameservers_of_lines(text::lines_of(content))
}

/// The line begins (after leading whitespace) a search-domain list.
pub open spec fn is_search_line(line: Seq<char>) -> bool {
    text::starts_with(text::trim(line), "search"@) || text::starts_with(text::trim(line), "domain"@)
}

/// The search domains of the first line of `ls` that begins with "search"
/// or "domain": its words after the first.  None when there is no such line.
pub open spec fn search_of_lines(ls: Seq<Seq<char>>) -> Seq<Seq<char>>
    decreases ls.len(),
{
    if ls.len() == 0 {
        seq![]
    } else if is_search_line(ls[0]) {
        let w = text::words(text::trim(ls[0]));
        if w.len() == 0 {
            seq![]
        } else {
            w.skip(1)
        }
    } else {
        search_of_lines(ls.drop_first())
    }
}

/// The search domains that resolv.conf names.
pub open spec fn search_of(content: Seq<char>) -> Seq<Seq<char>> {
    search_of_lines(text::lines_of(content))
}

/// The default gateway of the lines `ls`: the first line that is neither
/// blank nor a `#` comment, trimmed.
pub open spec fn gateway_of_lines(ls: Seq<Seq<char>>) -> Option<Seq<char>>
    decreases ls.len(),
{
    if ls.len() == 0 {
        None
    } else {
        let t = text::trim(ls[0]);
        if t.len() > 0 && !text::starts_with(t, "#"@) {
            Some(t)
        } else {
            gateway_of_lines(ls.drop_first())
        }
    }
}

/// The default gateway that /etc/defaultrouter names; none when the file
/// could not be read.
pub open spec fn gateway_of(content: Option<Seq<char>>) -> Option<Seq<char>> {
    match content {
        Some(c) => gateway_of_lines(text::lines_of(c)),
        None => None,
    }
}

/// The hostname that /etc/nodename holds: its trimmed text, or "unknown"
/// when the file could not be read.
pub open spec fn hostname_of(content: Option<Seq<char>>) -> Seq<char> {
    match content {
        Some(c) => text::trim(c),
        None => "unknown"@,
    }
}

/// The views of a vector of strings.
pub open spec fn string_views(v: Seq<String>) -> Seq<Seq<char>> {
    v.map_values(|s: String| s@)
}

fn strings_of(ps: &Vec<Vec<char>>, from: usize) -> (r: Vec<String>)
    requires
        from <= ps@.len(),
    ensures
        string_views(r@) == text::views(ps@).skip(from as int),
{
    let mut r: Vec<String> = Vec::new();
    let mut i: usize = from;
    while i < ps.len()
        invariant
            from <= i <= ps@.len(),
            string_views(r@) == text::views(ps@).subrange(from as int, i as int),
        decreases ps@.len() - i,
    {
        let s = chars_to_string(ps[i].as_slice());
        proof {
            assert(text::views(ps@)[i as int] == ps@[i as int]@);
            assert(string_views(r@.push(s)) =~= string_views(r@).push(s@));
            assert(string_views(r@.push(s)) =~= text::views(ps@).subrange(from as int, i + 1));
        }
        r.push(s);
        i += 1;
    }
    proof {
        assert(text::views(ps@).subrange(from as int, ps@.len() as int) =~= text::views(ps@).skip(
            from as int,
        ));
    }
    r
}

fn nameserver_line(line: &[char]) -> (r: Option<String>)
    ensures
        match r {
            Some(n) => nameserver_of_line(line@) == Some(n@),
            None => nameserver_of_line(line@) is None,
        },
{
    let t = trim_chars(line);
    if starts_with_str(t.as_slice(), "nameserver") {
        let w = split_words(t.as_slice());
        if w.len() > 1 {
            proof {
                assert(text::views(w@)[1] == w@[1]@);
            }
            return Some(chars_to_string(w[1].as_slice()));
        }
    }
    None
}

/// Parses the `nameserver` entries of resolv.conf.
pub fn parse_resolv_conf_nameservers(content: &str) -> (r: Vec<String>)
    ensures
        string_views(r@) == nameservers_of(content@),
{
    let s = str_chars(content);
    let lines = split_lines(s.as_slice());
    let mut out: Vec<String> = Vec::new();
    let mut i: usize = 0;
    while i < lines.len()
        invariant
            i <= lines@.len(),
            text::views(lines@) == text::lines_of(content@),
            string_views(out@) == nameservers_of_lines(text::views(lines@).take(i as int)),
        decreases lines@.len() - i,
    {
        proof {
            assert(text::views(lines@).take(i + 1).drop_last() =~= text::views(lines@).take(
                i as int,
            ));
            assert(text::views(lines@).take(i + 1).last() == lines@[i as int]@);
        }
        match nameserver_line(lines[i].as_slice()) {
            Some(n) => {
                proof {
                    assert(string_views(out@.push(n)) =~= string_views(out@).push(n@));
                }
                out.push(n);
            },
            None => {},
        }
        i += 1;
    }
    proof {
        assert(text::views(lines@).take(lines@.len() as int) =~= text::views(lines@));
    }
    out
}

/// Parses the search domains of resolv.conf (from its first `search` or
/// `domain` line).
pub fn parse_resolv_conf_search(content: &str) -> (r: Vec<String>)
    ensures
        string_views(r@) == search_of(content@),
{
    let s = str_chars(content);
    let lines = split_lines(s.as_slice());
    let mut i: usize = 0;
    proof {
        assert(text::views(lines@).skip(0) =~= text::views(lines@));
    }
    while i < lines.len()
        invariant
            i <= lines@.len(),
            text::views(lines@) == text::lines_of(content@),
            search_of(content@) == search_of_lines(text::views(lines@).skip(i as int)),
        decreases lines@.len() - i,
    {
        let ghost rest = text::views(lines@).skip(i as int);
        proof {
            assert(rest[0] == lines@[i as int]@);
            assert(rest.drop_first() =~= text::views(lines@).skip(i + 1));
        }
        let t = trim_chars(lines[i].as_slice());
        if starts_with_str(t.as_slice(), "search") || starts_with_str(t.as_slice(), "domain") {
            let w = split_words(t.as_slice());
            if w.len() == 0 {
                let none: Vec<String> = Vec::new();
                proof {
                    assert(string_views(none@) =~= seq![]);
                }
                return none;
            }
            return strings_of(&w, 1);
        }
        i += 1;
    }
    let none: Vec<String> = Vec::new();
    proof {
        assert(string_views(none@) =~= seq![]);
    }
    none
}

/// Reads the default gateway from the text of /etc/defaultrouter.
pub fn read_default_gateway(content: Option<String>) -> (r: Option<String>)
    ensures
        r.deep_view() == gateway_of(content.deep_view()),
{
    let ghost expected = gateway_of(content.deep_view());
    match content {
        None => None,
        Some(c) => {
            let s = str_chars(c.as_str());
            let lines = split_lines(s.as_slice());
            let mut i: usize = 0;
            proof {
                assert(text::views(lines@).skip(0) =~= text::views(lines@));
            }
            while i < lines.len()
                invariant
                    i <= lines@.len(),
                    text::views(lines@) == text::lines_of(c@),
                    expected == gateway_of(content.deep_view()),
                    expected == gateway_of_lines(
                        text::views(lines@).skip(i as int),
                    ),
                decreases lines@.len() - i,
            {
                let ghost rest = text::views(lines@).skip(i as int);
                proof {
                    assert(rest[0] == lines@[i as int]@);
                    assert(rest.drop_first() =~= text::views(lines@).skip(i + 1));
                }
                let t = trim_chars(lines[i].as_slice());
                if t.len() > 0 && !starts_with_str(t.as_slice(), "#") {
                    let g = chars_to_string(t.as_slice());
                    proof {
                        assert(text::trim(rest[0]) == t@);
                        assert(gateway_of_lines(rest) == Some(t@));
                    }
                    return Some(g);
                }
                i += 1;
            }
            None
        },
    }
}

/// Reads the hostname from the text of /etc/nodename.
pub fn read_hostname(content: Option<String>) -> (r: String)
    ensures
        r@ == hostname_of(content.deep_view()),
{
    match content {
        Some(c) => {
            let s = str_chars(c.as_str());
            let t = trim_chars(s.as_slice());
            chars_to_string(t.as_slice())
        },
        None => {
            let u = str_chars("unknown");
            chars_to_string(u.as_slice())
        },
    }
}

/// The system network configuration, read from the text of
/// /etc/resolv.conf (empty when it could not be read), /etc/defaultrouter
/// and /etc/nodename (none when they could not be read).
pub fn get_network_config(
    resolv_conf: Option<String>,
    defaultrouter: Option<String>,
    nodename: Option<String>,
) -> (r: Result<NetworkConfig, AppError>)
    ensures
        r matches Ok(cfg) && {
            let resolv = match resolv_conf {
                Some(c) => c@,
                None => seq![],
            };
            &&& string_views(cfg.dns_servers@) == nameservers_of(resolv)
            &&& string_views(cfg.dns_search@) == search_of(resolv)
            &&& cfg.gateway.deep_view() == gateway_of(defaultrouter.deep_view())
            &&& cfg.hostname@ == hostname_of(nodename.deep_view())
        },
{
    let resolv = match resolv_conf {
        Some(c) => c,
        None => chars_to_string(Vec::<char>::new().as_slice()),
    };
    let dns_servers = parse_resolv_conf_nameservers(resolv.as_str());
    let dns_search = parse_resolv_conf_search(resolv.as_str());
    let gateway = read_default_gateway(defaultrouter);
    let hostname = read_hostname(nodename);
    Ok(NetworkConfig { dns_servers, dns_search, gateway, hostname })
}


// ---------------------------------------------------------------------------
// Writing
// ---------------------------------------------------------------------------

/// The lines of resolv.conf written for the name servers `servers` and the
/// search domains `search`: a `search` line naming the domains, when there
/// are any, then one `nameserver` line per server, in order.
pub open spec fn resolv_conf_lines(servers: Seq<Seq<char>>, search: Seq<Seq<char>>) -> Seq<
    Seq<char>,
> {
    (if search.len() > 0 {
        seq!["search "@ + text::join_ws(search)]
    } else {
        seq![]
    }) + servers.map_values(|s: Seq<char>| "nameserver "@ + s)
}

/// The text of resolv.conf written for `servers` and `search`: its lines,
/// each ended by a line feed.
pub open spec fn resolv_conf_text(servers: Seq<Seq<char>>, search: Seq<Seq<char>>) -> Seq<char> {
    text::unlines(resolv_conf_lines(servers, search))
}

/// Appends the characters of `s` to `buf`.
fn push_str(buf: &mut Vec<char>, s: &str)
    ensures
        final(buf)@ == old(buf)@ + s@,
{
    let cs = str_chars(s);
    let mut i: usize = 0;
    while i < cs.len()
        invariant
            i <= cs@.len(),
            cs@ == s@,
            buf@ == old(buf)@ + cs@.take(i as int),
        decreases cs@.len() - i,
    {
        proof {
            assert(cs@.take(i + 1) =~= cs@.take(i as int).push(cs@[i as int]));
        }
        buf.push(cs[i]);
        i += 1;
    }
    proof {
        assert(cs@.take(cs@.len() as int) =~= cs@);
    }
}

/// The text of /etc/resolv.conf for the name servers `servers` and the
/// search domains `search`.
pub fn dns_config_content(servers: &[String], search: &[String]) -> (r: String)
    ensures
        r@ == resolv_conf_text(string_views(servers@), string_views(search@)),
{
    let ghost sv = string_views(servers@);
    let ghost qv = string_views(search@);
    let ghost head: Seq<Seq<char>> = if qv.len() > 0 {
        seq!["search "@ + text::join_ws(qv)]
    } else {
        seq![]
    };
    let mut buf: Vec<char> = Vec::new();
    if search.len() > 0 {
        push_str(&mut buf, "search ");
        let mut i: usize = 0;
        while i < search.len()
            invariant
                i <= search@.len(),
                qv == string_views(search@),
                buf@ == "search "@ + text::join_ws(qv.take(i as int)),
            decreases search@.len() - i,
        {
            let ghost before = buf@;
            proof {
                assert(qv.take(i + 1) =~= qv.take(i as int).push(search@[i as int]@));
                text::lemma_join_ws_push(qv.take(i as int), search@[i as int]@);
            }
            if i > 0 {
                buf.push(' ');
                proof {
                    assert(" "@ =~= seq![' ']) by {
                        reveal_strlit(" ");
                    }
                }
            }
            push_str(&mut buf, search[i].as_str());
            proof {
                assert(buf@ =~= "search "@ + text::join_ws(qv.take(i + 1)));
            }
            i += 1;
        }
        proof {
            assert(qv.take(search@.len() as int) =~= qv);
        }
        buf.push('\n');
        proof {
            assert("\n"@ =~= seq!['\n']) by {
                reveal_strlit("\n");
            }
            text::lemma_unlines_push(seq![], "search "@ + text::join_ws(qv));
            assert(Seq::<Seq<char>>::empty().push("search "@ + text::join_ws(qv)) =~= head);
            assert(buf@ =~= text::unlines(head));
        }
    } else {
        proof {
            assert(head =~= Seq::<Seq<char>>::empty());
            assert(buf@ =~= text::unlines(head));
        }
    }
    let mut j: usize = 0;
    while j < servers.len()
        invariant
            j <= servers@.len(),
            sv == string_views(servers@),
            buf@ == text::unlines(head + sv.take(j as int).map_values(
                |s: Seq<char>| "nameserver "@ + s,
            )),
        decreases servers@.len() - j,
    {
        let ghost ls = head + sv.take(j as int).map_values(|s: Seq<char>| "nameserver "@ + s);
        let ghost line = "nameserver "@ + servers@[j as int]@;
        proof {
            assert(head + sv.take(j + 1).map_values(|s: Seq<char>| "nameserver "@ + s) =~= ls.push(
                line,
            ));
            text::lemma_unlines_push(ls, line);
        }
        push_str(&mut buf, "nameserver ");
        push_str(&mut buf, servers[j].as_str());
        buf.push('\n');
        proof {
            assert("\n"@ =~= seq!['\n']) by {
                reveal_strlit("\n");
            }
            assert(buf@ =~= text::unlines(ls.push(line)));
        }
        j += 1;
    }
    proof {
        assert(sv.take(servers@.len() as int) =~= sv);
    }
    chars_to_string(buf.as_slice())
}

/// The text of a file that holds one value on one line (/etc/nodename,
/// /etc/defaultrouter): the value followed by a line feed.
pub fn single_line_file(value: &str) -> (r: String)
    ensures
        r@ == value@ + "\n"@,
{
    let mut buf: Vec<char> = Vec::new();
    push_str(&mut buf, value);
    push_str(&mut buf, "\n");
    chars_to_string(buf.as_slice())
}


// ---------------------------------------------------------------------------
// What is written is read back
// ---------------------------------------------------------------------------

proof fn lemma_nameserver_line(x: Seq<char>)
    requires
        text::is_word(x),
    ensures
        text::trim("nameserver "@ + x) == "nameserver "@ + x,
        text::words("nameserver "@ + x) == seq!["nameserver"@, x],
        ("nameserver "@ + x)[0] == 'n',
        text::is_line("nameserver "@ + x),
{
    reveal_strlit("nameserver ");
    reveal_strlit("nameserver");
    reveal_strlit(" ");
    let ws = seq!["nameserver"@, x];
    assert(ws.drop_first() =~= seq![x]);
    assert(text::join_ws(ws.drop_first()) == x);
    assert(text::join_ws(ws) =~= "nameserver "@ + x);
    assert forall|i: int| 0 <= i < ws.len() implies text::is_word(#[trigger] ws[i]) by {
        if i == 0 {
            assert forall|k: int| 0 <= k < ws[0].len() implies !text::is_ws(#[trigger] ws[0][k]) by {
            }
        }
    }
    text::lemma_words_join(ws);
    let l = "nameserver "@ + x;
    assert forall|k: int| 0 <= k < l.len() implies #[trigger] l[k] != '\n' by {
        if k >= 11 {
            assert(l[k] == x[k - 11]);
            assert(!text::is_ws(x[k - 11]));
        }
    }
    assert(l.last() == x.last());
    assert(!text::is_ws(x[x.len() - 1]));
}

proof fn lemma_search_line(q: Seq<Seq<char>>)
    requires
        q.len() > 0,
        forall|i: int| 0 <= i < q.len() ==> text::is_word(#[trigger] q[i]),
    ensures
        text::trim("search "@ + text::join_ws(q)) == "search "@ + text::join_ws(q),
        text::words("search "@ + text::join_ws(q)) == seq!["search"@] + q,
        ("search "@ + text::join_ws(q))[0] == 's',
        text::is_line("search "@ + text::join_ws(q)),
{
    reveal_strlit("search ");
    reveal_strlit("search");
    reveal_strlit(" ");
    let ws = seq!["search"@] + q;
    assert(ws.drop_first() =~= q);
    assert(text::join_ws(ws) =~= "search "@ + text::join_ws(q));
    assert forall|i: int| 0 <= i < ws.len() implies text::is_word(#[trigger] ws[i]) by {
        if i == 0 {
            assert forall|k: int| 0 <= k < ws[0].len() implies !text::is_ws(#[trigger] ws[0][k]) by {
            }
        } else {
            assert(ws[i] == q[i - 1]);
        }
    }
    text::lemma_words_join(ws);
    text::lemma_join_ws_edges(ws);
    let l = "search "@ + text::join_ws(q);
    let j = text::join_ws(ws);
    assert(l =~= j);
    text::lemma_split_ws_raw_join(ws);
    assert forall|k: int| 0 <= k < l.len() implies #[trigger] l[k] != '\n' by {
        lemma_joined_words_no_newline(ws, k);
    }
}

/// Words joined by spaces hold no line feed.
proof fn lemma_joined_words_no_newline(ws: Seq<Seq<char>>, k: int)
    requires
        forall|i: int| 0 <= i < ws.len() ==> text::is_word(#[trigger] ws[i]),
        0 <= k < text::join_ws(ws).len(),
    ensures
        text::join_ws(ws)[k] != '\n',
    decreases ws.len(),
{
    reveal_strlit(" ");
    if ws.len() == 1 {
        assert(text::is_word(ws[0]));
        assert(!text::is_ws(ws[0][k]));
    } else if ws.len() > 1 {
        let rest = ws.drop_first();
        assert forall|i: int| 0 <= i < rest.len() implies text::is_word(#[trigger] rest[i]) by {
            assert(rest[i] == ws[i + 1]);
        }
        let j = ws[0] + " "@ + text::join_ws(rest);
        assert(text::is_word(ws[0]));
        if k < ws[0].len() {
            assert(j[k] == ws[0][k]);
            assert(!text::is_ws(ws[0][k]));
        } else if k > ws[0].len() {
            assert(j[k] == text::join_ws(rest)[k - ws[0].len() - 1]);
            lemma_joined_words_no_newline(rest, k - ws[0].len() - 1);
        }
    }
}

proof fn lemma_resolv_lines_are_lines(servers: Seq<Seq<char>>, search: Seq<Seq<char>>)
    requires
        forall|i: int| 0 <= i < servers.len() ==> text::is_word(#[trigger] servers[i]),
        forall|i: int| 0 <= i < search.len() ==> text::is_word(#[trigger] search[i]),
    ensures
        forall|i: int|
            0 <= i < resolv_conf_lines(servers, search).len() ==> text::is_line(
                #[trigger] resolv_conf_lines(servers, search)[i],
            ),
{
    let ls = resolv_conf_lines(servers, search);
    let h: Seq<Seq<char>> = if search.len() > 0 {
        seq!["search "@ + text::join_ws(search)]
    } else {
        seq![]
    };
    assert forall|i: int| 0 <= i < ls.len() implies text::is_line(#[trigger] ls[i]) by {
        if i < h.len() {
            lemma_search_line(search);
        } else {
            lemma_nameserver_line(servers[i - h.len()]);
        }
    }
}

proof fn lemma_nameservers_of_resolv_lines(servers: Seq<Seq<char>>, search: Seq<Seq<char>>)
    requires
        forall|i: int| 0 <= i < servers.len() ==> text::is_word(#[trigger] servers[i]),
        forall|i: int| 0 <= i < search.len() ==> text::is_word(#[trigger] search[i]),
    ensures
        nameservers_of_lines(resolv_conf_lines(servers, search)) == servers,
    decreases servers.len(),
{
    reveal_strlit("nameserver");
    let ls = resolv_conf_lines(servers, search);
    if servers.len() == 0 {
        if search.len() > 0 {
            lemma_search_line(search);
            let sl = "search "@ + text::join_ws(search);
            assert(ls =~= seq![sl]);
            assert(ls.drop_last() =~= Seq::<Seq<char>>::empty());
            assert(nameservers_of_lines(ls.drop_last()) == Seq::<Seq<char>>::empty());
            assert(ls.last() == sl);
            assert(text::trim(sl)[0] == 's');
            assert(!text::starts_with(text::trim(sl), "nameserver"@)) by {
                if "nameserver"@.len() <= text::trim(sl).len() {
                    assert(text::trim(sl).take(10)[0] != "nameserver"@[0]);
                }
            }
            assert(nameserver_of_line(sl) is None);
        } else {
            assert(ls =~= Seq::<Seq<char>>::empty());
        }
        assert(nameservers_of_lines(ls) =~= servers);
    } else {
        let d = servers.drop_last();
        assert forall|i: int| 0 <= i < d.len() implies text::is_word(#[trigger] d[i]) by {
            assert(d[i] == servers[i]);
        }
        lemma_nameservers_of_resolv_lines(d, search);
        assert(ls.drop_last() =~= resolv_conf_lines(d, search));
        let x = servers.last();
        assert(text::is_word(servers[servers.len() - 1]));
        lemma_nameserver_line(x);
        assert(ls.last() == "nameserver "@ + x);
        let l = "nameserver "@ + x;
        assert(text::starts_with(l, "nameserver"@)) by {
            reveal_strlit("nameserver ");
            assert(l.take(10) =~= "nameserver"@);
        }
        assert(text::words(l)[1] == x);
        assert(nameserver_of_line(l) == Some(x));
        assert(d.push(x) =~= servers);
    }
}

proof fn lemma_no_search_in_nameserver_lines(servers: Seq<Seq<char>>)
    requires
        forall|i: int| 0 <= i < servers.len() ==> text::is_word(#[trigger] servers[i]),
    ensures
        search_of_lines(servers.map_values(|s: Seq<char>| "nameserver "@ + s)) == Seq::<
            Seq<char>,
        >::empty(),
    decreases servers.len(),
{
    reveal_strlit("search");
    reveal_strlit("domain");
    let ls = servers.map_values(|s: Seq<char>| "nameserver "@ + s);
    if servers.len() > 0 {
        let rest = servers.drop_first();
        assert forall|i: int| 0 <= i < rest.len() implies text::is_word(#[trigger] rest[i]) by {
            assert(rest[i] == servers[i + 1]);
        }
        lemma_no_search_in_nameserver_lines(rest);
        assert(ls.drop_first() =~= rest.map_values(|s: Seq<char>| "nameserver "@ + s));
        assert(text::is_word(servers[0]));
        lemma_nameserver_line(servers[0]);
        let t = text::trim(ls[0]);
        assert(t[0] == 'n');
        assert(!text::starts_with(t, "search"@)) by {
            if "search"@.len() <= t.len() {
                assert(t.take(6)[0] != "search"@[0]);
            }
        }
        assert(!text::starts_with(t, "domain"@)) by {
            if "domain"@.len() <= t.len() {
                assert(t.take(6)[0] != "domain"@[0]);
            }
        }
    }
}

/// What is written to resolv.conf is read back: the name servers and the
/// search domains read from the text written for them are those same
/// lists, whenever each entry is a single word (non-empty, no whitespace).
pub proof fn lemma_resolv_conf_round_trip(servers: Seq<Seq<char>>, search: Seq<Seq<char>>)
    requires
        forall|i: int| 0 <= i < servers.len() ==> text::is_word(#[trigger] servers[i]),
        forall|i: int| 0 <= i < search.len() ==> text::is_word(#[trigger] search[i]),
    ensures
        nameservers_of(resolv_conf_text(servers, search)) == servers,
        search_of(resolv_conf_text(servers, search)) == search,
{
    let ls = resolv_conf_lines(servers, search);
    lemma_resolv_lines_are_lines(servers, search);
    text::lemma_lines_of_unlines(ls);
    lemma_nameservers_of_resolv_lines(servers, search);
    if search.len() > 0 {
        reveal_strlit("search");
        lemma_search_line(search);
        let sl = "search "@ + text::join_ws(search);
        assert(ls[0] == sl);
        assert(text::starts_with(sl, "search"@)) by {
            reveal_strlit("search ");
            assert(sl.take(6) =~= "search"@);
        }
        assert(is_search_line(sl));
        let w = text::words(text::trim(sl));
        assert(w == seq!["search"@] + search);
        assert(w.skip(1) =~= search);
    } else {
        assert(ls =~= servers.map_values(|s: Seq<char>| "nameserver "@ + s));
        lemma_no_search_in_nameserver_lines(servers);
    }
}

/// What is written to /etc/defaultrouter is read back: a gateway written as
/// one line is the gateway read, whenever it is non-empty, holds no line
/// feed, neither begins nor ends with whitespace, and does not begin with
/// `#`.
pub proof fn lemma_gateway_round_trip(gateway: Seq<char>)
    requires
        gateway.len() > 0,
        forall|k: int| 0 <= k < gateway.len() ==> #[trigger] gateway[k] != '\n',
        !text::is_ws(gateway[0]),
        !text::is_ws(gateway.last()),
        gateway[0] != '#',
    ensures
        gateway_of(Some(gateway + "\n"@)) == Some(gateway),
{
    reveal_strlit("\n");
    reveal_strlit("#");
    let ls = seq![gateway];
    assert(ls.drop_first() =~= Seq::<Seq<char>>::empty());
    assert(text::unlines(ls.drop_first()) == Seq::<char>::empty());
    assert(text::unlines(ls) =~= gateway + "\n"@);
    assert(text::is_line(gateway)) by {
        assert(text::is_ws('\r'));
    }
    assert forall|i: int| 0 <= i < ls.len() implies text::is_line(#[trigger] ls[i]) by {}
    text::lemma_lines_of_unlines(ls);
    text::lemma_trim_unchanged(gateway);
    assert(!text::starts_with(gateway, "#"@)) by {
        assert(gateway.take(1)[0] != "#"@[0]);
    }
}

/// What is written to /etc/nodename is read back: a hostname written as one
/// line is the hostname read, whenever it neither begins nor ends with
/// whitespace.
pub proof fn lemma_hostname_round_trip(hostname: Seq<char>)
    requires
        hostname.len() > 0 ==> !text::is_ws(hostname[0]) && !text::is_ws(hostname.last()),
    ensures
        hostname_of(Some(hostname + "\n"@)) == hostname,
{
    reveal_strlit("\n");
    let s = hostname + "\n"@;
    let n = hostname.len() as int;
    if n > 0 {
        text::lemma_lead_ws_at(s, 0);
    } else {
        assert(text::is_ws(s[0]));
        text::lemma_lead_ws_at(s, 1);
    }
    let t = text::trim_start(s);
    if n > 0 {
        assert(t =~= s);
        assert forall|k: int| n <= k < t.len() implies text::is_ws(#[trigger] t[k]) by {}
        text::lemma_trail_ws_at(t, n);
        assert(t.take(n) =~= hostname);
    } else {
        assert(t.len() == 0);
        assert(t.take(0) =~= hostname);
    }
}


/// What the network settings write is what the network configuration
/// reads: with resolv.conf written for `servers` and `search`,
/// /etc/defaultrouter for `gateway` and /etc/nodename for `hostname`, the
/// configuration read holds those same servers, search domains, gateway
/// and hostname, whenever every DNS entry is a single word, the gateway is
/// one non-empty line that neither begins nor ends with whitespace nor
/// begins with `#`, and the hostname neither begins nor ends with
/// whitespace.
pub proof fn lemma_network_config_round_trip(
    servers: Seq<Seq<char>>,
    search: Seq<Seq<char>>,
    gateway: Seq<char>,
    hostname: Seq<char>,
)
    requires
        forall|i: int| 0 <= i < servers.len() ==> text::is_word(#[trigger] servers[i]),
        forall|i: int| 0 <= i < search.len() ==> text::is_word(#[trigger] search[i]),
        gateway.len() > 0,
        forall|k: int| 0 <= k < gateway.len() ==> #[trigger] gateway[k] != '\n',
        !text::is_ws(gateway[0]),
        !text::is_ws(gateway.last()),
        gateway[0] != '#',
        hostname.len() > 0 ==> !text::is_ws(hostname[0]) && !text::is_ws(hostname.last()),
    ensures
        nameservers_of(resolv_conf_text(servers, search)) == servers,
        search_of(resolv_conf_text(servers, search)) == search,
        gateway_of(Some(gateway + "\n"@)) == Some(gateway),
        hostname_of(Some(hostname + "\n"@)) == hostname,
{
    lemma_resolv_conf_round_trip(servers, search);
    lemma_gateway_round_trip(gateway);
    lemma_hostname_round_trip(hostname);
}

/// Updating only the name servers keeps the search domains (and the other
/// way round): when resolv.conf was written for `servers` and `search`,
/// writing it again for new servers and the search domains read from it
/// gives a file that reads back as the new servers and the same search
/// domains, whenever every entry is a single word.
pub proof fn lemma_dns_update_keeps_the_other_list(
    servers: Seq<Seq<char>>,
    search: Seq<Seq<char>>,
    new_servers: Seq<Seq<char>>,
    new_search: Seq<Seq<char>>,
)
    requires
        forall|i: int| 0 <= i < servers.len() ==> text::is_word(#[trigger] servers[i]),
        forall|i: int| 0 <= i < search.len() ==> text::is_word(#[trigger] search[i]),
        forall|i: int| 0 <= i < new_servers.len() ==> text::is_word(#[trigger] new_servers[i]),
        forall|i: int| 0 <= i < new_search.len() ==> text::is_word(#[trigger] new_search[i]),
    ensures
        ({
            let file = resolv_conf_text(servers, search);
            let rewritten = resolv_conf_text(new_servers, search_of(file));
            nameservers_of(rewritten) == new_servers && search_of(rewritten) == search
        }),
        ({
            let file = resolv_conf_text(servers, search);
            let rewritten = resolv_conf_text(nameservers_of(file), new_search);
            nameservers_of(rewritten) == servers && search_of(rewritten) == new_search
        }),
{
    lemma_resolv_conf_round_trip(servers, search);
    lemma_resolv_conf_round_trip(new_servers, search);
    lemma_resolv_conf_round_trip(servers, new_search);
}

} // verus!
