//! Text primitives over character sequences.
//!
//! The output of the illumos tools and the system configuration files are
//! read as sequences of characters.  Every primitive here is given a
//! mathematical definition over `Seq<char>` that follows the behaviour of
//! the corresponding method of `str` (`split`, `lines`, `trim`,
//! `split_whitespace`, `parse`), and an executable version proved to meet it.
use vstd::prelude::*;

verus! {

// ---------------------------------------------------------------------------
// Conversions between `str`/`String` and character vectors
// ---------------------------------------------------------------------------

/// The characters of `s`, in order.
pub fn str_chars(s: &str) -> (r: Vec<char>)
    ensures
        r@ == s@,
{
    broadcast use vstd::string::group_string_axioms;

    let mut r: Vec<char> = Vec::new();
    for c in it: s.chars()
        invariant
            r@ == it.seq().take(it.index() as int),
    {
        r.push(c);
    }
    r
}

/// Collects a slice of characters into a `String` (`String::from_iter`).
#[verifier::external_body]
pub(crate) fn chars_to_string(cs: &[char]) -> (r: String)
    ensures
        r@ == cs@,
{
    String::from_iter(cs)
}


/// Whether two character sequences are equal.
pub fn chars_eq(a: &[char], b: &[char]) -> (r: bool)
    ensures
        r == (a@ == b@),
{
    if a.len() != b.len() {
        return false;
    }
    let mut i: usize = 0;
    while i < a.len()
        invariant
            a@.len() == b@.len(),
            i <= a@.len(),
            forall|k: int| 0 <= k < i ==> a@[k] == b@[k],
        decreases a@.len() - i,
    {
        if a[i] != b[i] {
            return false;
        }
        i += 1;
    }
    assert(a@ =~= b@);
    true
}

/// Whether the characters `a` spell the text `lit`.
pub fn chars_eq_str(a: &[char], lit: &str) -> (r: bool)
    ensures
        r == (a@ == lit@),
{
    let b = str_chars(lit);
    chars_eq(a, b.as_slice())
}

/// A copy of the characters `s[from..to]`.
pub fn sub_chars(s: &[char], from: usize, to: usize) -> (r: Vec<char>)
    requires
        from <= to <= s@.len(),
    ensures
        r@ == s@.subrange(from as int, to as int),
{
    let mut r: Vec<char> = Vec::new();
    let mut i: usize = from;
    while i < to
        invariant
            from <= i <= to <= s@.len(),
            r@ == s@.subrange(from as int, i as int),
        decreases to - i,
    {
        r.push(s[i]);
        i += 1;
    }
    r
}

/// `a` followed by `b`.
pub fn concat_chars(a: &[char], b: &[char]) -> (r: Vec<char>)
    ensures
        r@ == a@ + b@,
{
    let mut r: Vec<char> = Vec::new();
    let mut i: usize = 0;
    while i < a.len()
        invariant
            i <= a@.len(),
            r@ == a@.subrange(0, i as int),
        decreases a@.len() - i,
    {
        r.push(a[i]);
        i += 1;
    }
    let mut j: usize = 0;
    while j < b.len()
        invariant
            j <= b@.len(),
            r@ == a@ + b@.subrange(0, j as int),
        decreases b@.len() - j,
    {
        r.push(b[j]);
        j += 1;
    }
    assert(a@.subrange(0, a@.len() as int) =~= a@);
    assert(b@.subrange(0, b@.len() as int) =~= b@);
    r
}

// ---------------------------------------------------------------------------
// Searching
// ---------------------------------------------------------------------------

/// Index of the first occurrence of `c` in `s`, or -1.
pub open spec fn idx_of(s: Seq<char>, c: char) -> int
    decreases s.len(),
{
    if s.len() == 0 {
        -1
    } else if s[0] == c {
        0
    } else {
        let k = idx_of(s.drop_first(), c);
        if k < 0 {
            -1
        } else {
            k + 1
        }
    }
}

/// `idx_of` is the first position holding `c`, or -1 when there is none.
pub proof fn lemma_idx_of(s: Seq<char>, c: char)
    ensures
        -1 <= idx_of(s, c) < s.len(),
        idx_of(s, c) >= 0 ==> s[idx_of(s, c)] == c,
        forall|k: int| 0 <= k < s.len() && (idx_of(s, c) < 0 || k < idx_of(s, c)) ==> s[k] != c,
    decreases s.len(),
{
    if s.len() > 0 && s[0] != c {
        lemma_idx_of(s.drop_first(), c);
        assert forall|k: int| 0 <= k < s.len() && (idx_of(s, c) < 0 || k < idx_of(s, c)) implies s[k] != c by {
            if k > 0 {
                assert(s[k] == s.drop_first()[k - 1]);
            }
        }
    }
}

/// When the first `j` characters differ from `c` and `s[j]` is `c` (or `j` is the
/// length), `idx_of` is `j` (or -1).
pub proof fn lemma_idx_of_at(s: Seq<char>, c: char, j: int)
    requires
        0 <= j <= s.len(),
        forall|k: int| 0 <= k < j ==> s[k] != c,
        j < s.len() ==> s[j] == c,
    ensures
        idx_of(s, c) == (if j < s.len() { j } else { -1 }),
{
    lemma_idx_of(s, c);
}

/// Whether `c` occurs in `s`.
pub fn contains_char(s: &[char], c: char) -> (r: bool)
    ensures
        r == s@.contains(c),
        r == (idx_of(s@, c) >= 0),
{
    let mut i: usize = 0;
    while i < s.len()
        invariant
            i <= s@.len(),
            forall|k: int| 0 <= k < i ==> s@[k] != c,
        decreases s@.len() - i,
    {
        if s[i] == c {
            proof {
                lemma_idx_of_at(s@, c, i as int);
            }
            return true;
        }
        i += 1;
    }
    proof {
        lemma_idx_of_at(s@, c, i as int);
    }
    false
}

/// Position of the first `c` in `s`, if any.
pub fn find_char(s: &[char], c: char) -> (r: Option<usize>)
    ensures
        match r {
            Some(i) => idx_of(s@, c) == i,
            None => idx_of(s@, c) == -1,
        },
{
    let mut i: usize = 0;
    while i < s.len()
        invariant
            i <= s@.len(),
            forall|k: int| 0 <= k < i ==> s@[k] != c,
        decreases s@.len() - i,
    {
        if s[i] == c {
            proof {
                lemma_idx_of_at(s@, c, i as int);
            }
            return Some(i);
        }
        i += 1;
    }
    proof {
        lemma_idx_of_at(s@, c, i as int);
    }
    None
}

// ---------------------------------------------------------------------------
// Prefixes
// ---------------------------------------------------------------------------

/// `s` begins with `p` (`str::starts_with`).
pub open spec fn starts_with(s: Seq<char>, p: Seq<char>) -> bool {
    p.len() <= s.len() && s.take(p.len() as int) =~= p
}

/// `s` with the prefix `p` removed, when `s` begins with it (`str::strip_prefix`).
pub open spec fn strip_prefix(s: Seq<char>, p: Seq<char>) -> Option<Seq<char>> {
    if starts_with(s, p) {
        Some(s.skip(p.len() as int))
    } else {
        None
    }
}

/// Whether `s` begins with `p`.
pub fn chars_starts_with(s: &[char], p: &[char]) -> (r: bool)
    ensures
        r == starts_with(s@, p@),
{
    if p.len() > s.len() {
        return false;
    }
    let mut i: usize = 0;
    while i < p.len()
        invariant
            p@.len() <= s@.len(),
            i <= p@.len(),
            forall|k: int| 0 <= k < i ==> s@[k] == p@[k],
        decreases p@.len() - i,
    {
        if s[i] != p[i] {
            assert(s@.take(p@.len() as int)[i as int] != p@[i as int]);
            return false;
        }
        i += 1;
    }
    assert(s@.take(p@.len() as int) =~= p@);
    true
}

/// Whether `s` begins with the text `lit`.
pub fn starts_with_str(s: &[char], lit: &str) -> (r: bool)
    ensures
        r == starts_with(s@, lit@),
{
    let p = str_chars(lit);
    chars_starts_with(s, p.as_slice())
}


// ---------------------------------------------------------------------------
// Splitting at a character
// ---------------------------------------------------------------------------

/// The pieces of `s` between occurrences of `c` (`str::split` with a `char`):
/// there is always at least one piece.
pub open spec fn split_on(s: Seq<char>, c: char) -> Seq<Seq<char>>
    decreases s.len(),
{
    let i = idx_of(s, c);
    if 0 <= i < s.len() {
        seq![s.take(i)] + split_on(s.skip(i + 1), c)
    } else {
        seq![s]
    }
}

/// A text that does not hold `c`, followed by `c` and more text, splits at
/// that `c`: the first piece is the text before it, the rest are the pieces
/// of what follows.
pub proof fn lemma_split_on_field(a: Seq<char>, c: char, b: Seq<char>)
    requires
        forall|k: int| 0 <= k < a.len() ==> a[k] != c,
    ensures
        split_on(a.push(c) + b, c) == seq![a] + split_on(b, c),
{
    let s = a.push(c) + b;
    assert forall|k: int| 0 <= k < a.len() implies s[k] != c by {
        assert(s[k] == a[k]);
    }
    lemma_idx_of_at(s, c, a.len() as int);
    assert(s.take(a.len() as int) =~= a);
    assert(s.skip(a.len() as int + 1) =~= b);
}

/// A text that does not hold `c` is a single piece.
pub proof fn lemma_split_on_single(a: Seq<char>, c: char)
    requires
        forall|k: int| 0 <= k < a.len() ==> a[k] != c,
    ensures
        split_on(a, c) == seq![a],
{
    lemma_idx_of_at(a, c, a.len() as int);
}

/// Splitting once at `c` a text that does not hold `c` before its first
/// `c` gives the text before it and the text after it.
pub proof fn lemma_split_once_field(a: Seq<char>, c: char, b: Seq<char>)
    requires
        forall|k: int| 0 <= k < a.len() ==> a[k] != c,
    ensures
        split_once(a.push(c) + b, c) == Some((a, b)),
{
    let s = a.push(c) + b;
    assert forall|k: int| 0 <= k < a.len() implies s[k] != c by {
        assert(s[k] == a[k]);
    }
    lemma_idx_of_at(s, c, a.len() as int);
    assert(s.take(a.len() as int) =~= a);
    assert(s.skip(a.len() as int + 1) =~= b);
}

/// Trimming removes exactly the whitespace around a text that neither
/// begins nor ends with whitespace; whitespace inside it stays.
pub proof fn lemma_trim_surrounded(lead: Seq<char>, core: Seq<char>, trail: Seq<char>)
    requires
        forall|k: int| 0 <= k < lead.len() ==> is_ws(#[trigger] lead[k]),
        forall|k: int| 0 <= k < trail.len() ==> is_ws(#[trigger] trail[k]),
        core.len() > 0 ==> !is_ws(core[0]) && !is_ws(core.last()),
    ensures
        trim(lead + core + trail) == core,
{
    let s = lead + core + trail;
    if core.len() > 0 {
        assert forall|k: int| 0 <= k < lead.len() implies is_ws(s[k]) by {
            assert(s[k] == lead[k]);
        }
        assert(s[lead.len() as int] == core[0]);
        lemma_lead_ws_at(s, lead.len() as int);
        let t = trim_start(s);
        assert(t =~= core + trail);
        assert forall|k: int| core.len() <= k < t.len() implies is_ws(t[k]) by {
            assert(t[k] == trail[k - core.len()]);
        }
        assert(t[core.len() - 1] == core.last());
        lemma_trail_ws_at(t, core.len() as int);
        assert(t.take(core.len() as int) =~= core);
    } else {
        assert forall|k: int| 0 <= k < s.len() implies is_ws(s[k]) by {
            if k < lead.len() {
                assert(s[k] == lead[k]);
            } else {
                assert(s[k] == trail[k - lead.len()]);
            }
        }
        lemma_lead_ws_at(s, s.len() as int);
        assert(trim_start(s).len() == 0);
        assert(trim(s) =~= core);
    }
}

/// The character views of a vector of character vectors.
pub open spec fn views(v: Seq<Vec<char>>) -> Seq<Seq<char>> {
    v.map_values(|p: Vec<char>| p@)
}

pub proof fn lemma_views_push(v: Seq<Vec<char>>, x: Vec<char>)
    ensures
        views(v.push(x)) == views(v).push(x@),
{
    assert(views(v.push(x)) =~= views(v).push(x@));
}

/// Splits `s` at every `c`.
pub fn split_chars(s: &[char], c: char) -> (r: Vec<Vec<char>>)
    ensures
        views(r@) == split_on(s@, c),
{
    let mut out: Vec<Vec<char>> = Vec::new();
    let mut cur: Vec<char> = Vec::new();
    let mut start: usize = 0;
    let mut j: usize = 0;
    let ghost n = s@.len() as int;
    proof {
        assert(s@.subrange(0, n) =~= s@);
        assert(views(out@) + split_on(s@, c) =~= split_on(s@, c));
    }
    while j < s.len()
        invariant
            n == s@.len(),
            start <= j <= n,
            cur@ == s@.subrange(start as int, j as int),
            forall|k: int| start <= k < j ==> s@[k] != c,
            views(out@) + split_on(s@.subrange(start as int, n), c) == split_on(s@, c),
        decreases n - j,
    {
        if s[j] == c {
            let ghost t = s@.subrange(start as int, n);
            proof {
                lemma_idx_of_at(t, c, j - start);
                assert(t.take(j - start) =~= cur@);
                assert(t.skip(j - start + 1) =~= s@.subrange(j + 1, n));
                lemma_views_push(out@, cur);
                assert(views(out@.push(cur)) + split_on(s@.subrange(j + 1, n), c)
                    =~= views(out@) + split_on(t, c));
            }
            out.push(cur);
            cur = Vec::new();
            start = j + 1;
        } else {
            cur.push(s[j]);
        }
        j += 1;
    }
    proof {
        let t = s@.subrange(start as int, n);
        lemma_idx_of_at(t, c, n - start);
        assert(t =~= cur@);
        lemma_views_push(out@, cur);
        assert(views(out@.push(cur)) =~= views(out@) + split_on(t, c));
    }
    out.push(cur);
    out
}

// ---------------------------------------------------------------------------
// Lines
// ---------------------------------------------------------------------------

/// `s` without one trailing carriage return.
pub open spec fn strip_cr(s: Seq<char>) -> Seq<char> {
    if s.len() > 0 && s.last() == '\r' {
        s.drop_last()
    } else {
        s
    }
}

/// The lines of `s` (`str::lines`): split at `\n`, a `\r` just before the
/// `\n` is removed, and a final line ending adds no empty line.
pub open spec fn lines_of(s: Seq<char>) -> Seq<Seq<char>>
    decreases s.len(),
{
    if s.len() == 0 {
        seq![]
    } else {
        let i = idx_of(s, '\n');
        if 0 <= i < s.len() {
            seq![strip_cr(s.take(i))] + lines_of(s.skip(i + 1))
        } else {
            seq![s]
        }
    }
}

/// `s` without one trailing carriage return.
pub fn strip_cr_chars(s: Vec<char>) -> (r: Vec<char>)
    ensures
        r@ == strip_cr(s@),
{
    let mut s = s;
    if s.len() > 0 && s[s.len() - 1] == '\r' {
        s.pop();
    }
    s
}

/// The lines of `s`.
pub fn split_lines(s: &[char]) -> (r: Vec<Vec<char>>)
    ensures
        views(r@) == lines_of(s@),
{
    let mut out: Vec<Vec<char>> = Vec::new();
    let mut cur: Vec<char> = Vec::new();
    let mut start: usize = 0;
    let mut j: usize = 0;
    let ghost n = s@.len() as int;
    proof {
        assert(s@.subrange(0, n) =~= s@);
        assert(views(out@) + lines_of(s@) =~= lines_of(s@));
    }
    while j < s.len()
        invariant
            n == s@.len(),
            start <= j <= n,
            cur@ == s@.subrange(start as int, j as int),
            forall|k: int| start <= k < j ==> s@[k] != '\n',
            views(out@) + lines_of(s@.subrange(start as int, n)) == lines_of(s@),
        decreases n - j,
    {
        if s[j] == '\n' {
            let ghost t = s@.subrange(start as int, n);
            proof {
                lemma_idx_of_at(t, '\n', j - start);
                assert(t.take(j - start) =~= cur@);
                assert(t.skip(j - start + 1) =~= s@.subrange(j + 1, n));
            }
            let line = strip_cr_chars(cur);
            proof {
                lemma_views_push(out@, line);
                assert(views(out@.push(line)) + lines_of(s@.subrange(j + 1, n))
                    =~= views(out@) + lines_of(t));
            }
            out.push(line);
            cur = Vec::new();
            start = j + 1;
        } else {
            cur.push(s[j]);
        }
        j += 1;
    }
    proof {
        let t = s@.subrange(start as int, n);
        lemma_idx_of_at(t, '\n', n - start);
        assert(t =~= cur@);
    }
    if cur.len() > 0 {
        proof {
            lemma_views_push(out@, cur);
            assert(views(out@.push(cur)) =~= views(out@) + lines_of(s@.subrange(start as int, n)));
        }
        out.push(cur);
    } else {
        proof {
            assert(views(out@) =~= views(out@) + lines_of(s@.subrange(start as int, n)));
        }
    }
    out
}

// ---------------------------------------------------------------------------
// Whitespace
// ---------------------------------------------------------------------------

/// `char::is_whitespace`: the characters with the Unicode White_Space property.
pub open spec fn is_ws(c: char) -> bool {
    let u = c as u32;
    (0x09 <= u && u <= 0x0D) || u == 0x20 || u == 0x85 || u == 0xA0 || u == 0x1680 || (0x2000
        <= u && u <= 0x200A) || u == 0x2028 || u == 0x2029 || u == 0x202F || u == 0x205F || u
        == 0x3000
}

/// Whether `c` is whitespace.
pub fn char_is_ws(c: char) -> (r: bool)
    ensures
        r == is_ws(c),
{
    let u = c as u32;
    (0x09 <= u && u <= 0x0D) || u == 0x20 || u == 0x85 || u == 0xA0 || u == 0x1680 || (0x2000
        <= u && u <= 0x200A) || u == 0x2028 || u == 0x2029 || u == 0x202F || u == 0x205F || u
        == 0x3000
}

/// Number of leading whitespace characters of `s`.
pub open spec fn lead_ws(s: Seq<char>) -> nat
    decreases s.len(),
{
    if s.len() > 0 && is_ws(s[0]) {
        1 + lead_ws(s.drop_first())
    } else {
        0
    }
}

/// Number of trailing whitespace characters of `s`.
pub open spec fn trail_ws(s: Seq<char>) -> nat
    decreases s.len(),
{
    if s.len() > 0 && is_ws(s.last()) {
        1 + trail_ws(s.drop_last())
    } else {
        0
    }
}

/// `str::trim_start`.
pub open spec fn trim_start(s: Seq<char>) -> Seq<char> {
    s.skip(lead_ws(s) as int)
}

/// `str::trim_end`.
pub open spec fn trim_end(s: Seq<char>) -> Seq<char> {
    s.take(s.len() - trail_ws(s))
}

/// `str::trim`: leading and trailing whitespace removed.
pub open spec fn trim(s: Seq<char>) -> Seq<char> {
    trim_end(trim_start(s))
}

pub proof fn lemma_lead_ws_at(s: Seq<char>, a: int)
    requires
        0 <= a <= s.len(),
        forall|k: int| 0 <= k < a ==> is_ws(s[k]),
        a < s.len() ==> !is_ws(s[a]),
    ensures
        lead_ws(s) == a,
    decreases a,
{
    if a > 0 {
        assert forall|k: int| 0 <= k < a - 1 implies is_ws(s.drop_first()[k]) by {
            assert(s.drop_first()[k] == s[k + 1]);
        }
        if a - 1 < s.drop_first().len() {
            assert(s.drop_first()[a - 1] == s[a]);
        }
        lemma_lead_ws_at(s.drop_first(), a - 1);
    }
}

pub proof fn lemma_trail_ws_at(s: Seq<char>, b: int)
    requires
        0 <= b <= s.len(),
        forall|k: int| b <= k < s.len() ==> is_ws(s[k]),
        b > 0 ==> !is_ws(s[b - 1]),
    ensures
        trail_ws(s) == s.len() - b,
    decreases s.len() - b,
{
    if b < s.len() {
        assert forall|k: int| b <= k < s.drop_last().len() implies is_ws(s.drop_last()[k]) by {
            assert(s.drop_last()[k] == s[k]);
        }
        if b > 0 {
            assert(s.drop_last()[b - 1] == s[b - 1]);
        }
        lemma_trail_ws_at(s.drop_last(), b);
    }
}

pub proof fn lemma_lead_ws_bound(s: Seq<char>)
    ensures
        lead_ws(s) <= s.len(),
        forall|k: int| 0 <= k < lead_ws(s) ==> is_ws(s[k]),
        lead_ws(s) < s.len() ==> !is_ws(s[lead_ws(s) as int]),
    decreases s.len(),
{
    if s.len() > 0 && is_ws(s[0]) {
        lemma_lead_ws_bound(s.drop_first());
        assert forall|k: int| 0 <= k < lead_ws(s) implies is_ws(s[k]) by {
            if k > 0 {
                assert(s[k] == s.drop_first()[k - 1]);
            }
        }
        if lead_ws(s) < s.len() {
            assert(s[lead_ws(s) as int] == s.drop_first()[lead_ws(s) - 1]);
        }
    }
}

pub proof fn lemma_trail_ws_bound(s: Seq<char>)
    ensures
        trail_ws(s) <= s.len(),
        forall|k: int| s.len() - trail_ws(s) <= k < s.len() ==> is_ws(s[k]),
        trail_ws(s) < s.len() ==> !is_ws(s[s.len() - trail_ws(s) - 1]),
    decreases s.len(),
{
    if s.len() > 0 && is_ws(s.last()) {
        lemma_trail_ws_bound(s.drop_last());
        assert forall|k: int| s.len() - trail_ws(s) <= k < s.len() implies is_ws(s[k]) by {
            if k < s.len() - 1 {
                assert(s[k] == s.drop_last()[k]);
            }
        }
        if trail_ws(s) < s.len() {
            assert(s[s.len() - trail_ws(s) - 1] == s.drop_last()[s.len() - trail_ws(s) - 1]);
        }
    }
}

/// Bounds `[a, b)` of `trim(s)` inside `s`.
pub fn trim_bounds(s: &[char]) -> (r: (usize, usize))
    ensures
        r.0 <= r.1 <= s@.len(),
        trim(s@) == s@.subrange(r.0 as int, r.1 as int),
{
    let mut a: usize = 0;
    while a < s.len() && char_is_ws(s[a])
        invariant
            a <= s@.len(),
            forall|k: int| 0 <= k < a ==> is_ws(s@[k]),
        decreases s@.len() - a,
    {
        a += 1;
    }
    proof {
        lemma_lead_ws_at(s@, a as int);
    }
    let mut b: usize = s.len();
    while b > a && char_is_ws(s[b - 1])
        invariant
            a <= b <= s@.len(),
            forall|k: int| b <= k < s@.len() ==> is_ws(s@[k]),
        decreases b - a,
    {
        b -= 1;
    }
    proof {
        let t = s@.skip(a as int);
        assert(trim_start(s@) == t);
        assert forall|k: int| b - a <= k < t.len() implies is_ws(t[k]) by {
            assert(t[k] == s@[k + a]);
        }
        if b > a {
            assert(t[b - a - 1] == s@[b - 1]);
        }
        lemma_trail_ws_at(t, b - a);
        assert(t.take(t.len() - trail_ws(t)) =~= s@.subrange(a as int, b as int));
    }
    (a, b)
}

/// `trim(s)` as a new vector.
pub fn trim_chars(s: &[char]) -> (r: Vec<char>)
    ensures
        r@ == trim(s@),
{
    let (a, b) = trim_bounds(s);
    sub_chars(s, a, b)
}


// ---------------------------------------------------------------------------
// Words
// ---------------------------------------------------------------------------

/// Index of the first whitespace character of `s`, or -1.
pub open spec fn ws_idx(s: Seq<char>) -> int
    decreases s.len(),
{
    if s.len() == 0 {
        -1
    } else if is_ws(s[0]) {
        0
    } else {
        let k = ws_idx(s.drop_first());
        if k < 0 {
            -1
        } else {
            k + 1
        }
    }
}

pub proof fn lemma_ws_idx_at(s: Seq<char>, j: int)
    requires
        0 <= j <= s.len(),
        forall|k: int| 0 <= k < j ==> !is_ws(s[k]),
        j < s.len() ==> is_ws(s[j]),
    ensures
        ws_idx(s) == (if j < s.len() { j } else { -1 }),
    decreases j,
{
    if j > 0 {
        assert forall|k: int| 0 <= k < j - 1 implies !is_ws(s.drop_first()[k]) by {
            assert(s.drop_first()[k] == s[k + 1]);
        }
        if j < s.len() {
            assert(s.drop_first()[j - 1] == s[j]);
        }
        lemma_ws_idx_at(s.drop_first(), j - 1);
    }
}

/// The pieces of `s` between whitespace characters (`str::split(char::is_whitespace)`).
pub open spec fn split_ws_raw(s: Seq<char>) -> Seq<Seq<char>>
    decreases s.len(),
{
    let i = ws_idx(s);
    if 0 <= i < s.len() {
        seq![s.take(i)] + split_ws_raw(s.skip(i + 1))
    } else {
        seq![s]
    }
}

/// The non-empty members of `ps`, in order.
pub open spec fn nonempty(ps: Seq<Seq<char>>) -> Seq<Seq<char>>
    decreases ps.len(),
{
    if ps.len() == 0 {
        seq![]
    } else if ps.last().len() > 0 {
        nonempty(ps.drop_last()).push(ps.last())
    } else {
        nonempty(ps.drop_last())
    }
}

/// The words of `s` (`str::split_whitespace`): the non-empty pieces between
/// whitespace characters.
pub open spec fn words(s: Seq<char>) -> Seq<Seq<char>> {
    nonempty(split_ws_raw(s))
}

fn split_ws_raw_chars(s: &[char]) -> (r: Vec<Vec<char>>)
    ensures
        views(r@) == split_ws_raw(s@),
{
    let mut out: Vec<Vec<char>> = Vec::new();
    let mut cur: Vec<char> = Vec::new();
    let mut start: usize = 0;
    let mut j: usize = 0;
    let ghost n = s@.len() as int;
    proof {
        assert(s@.subrange(0, n) =~= s@);
        assert(views(out@) + split_ws_raw(s@) =~= split_ws_raw(s@));
    }
    while j < s.len()
        invariant
            n == s@.len(),
            start <= j <= n,
            cur@ == s@.subrange(start as int, j as int),
            forall|k: int| start <= k < j ==> !is_ws(s@[k]),
            views(out@) + split_ws_raw(s@.subrange(start as int, n)) == split_ws_raw(s@),
        decreases n - j,
    {
        if char_is_ws(s[j]) {
            let ghost t = s@.subrange(start as int, n);
            proof {
                assert forall|k: int| 0 <= k < j - start implies !is_ws(t[k]) by {
                    assert(t[k] == s@[k + start]);
                }
                lemma_ws_idx_at(t, j - start);
                assert(t.take(j - start) =~= cur@);
                assert(t.skip(j - start + 1) =~= s@.subrange(j + 1, n));
                lemma_views_push(out@, cur);
                assert(views(out@.push(cur)) + split_ws_raw(s@.subrange(j + 1, n))
                    =~= views(out@) + split_ws_raw(t));
            }
            out.push(cur);
            cur = Vec::new();
            start = j + 1;
        } else {
            cur.push(s[j]);
        }
        j += 1;
    }
    proof {
        let t = s@.subrange(start as int, n);
        assert forall|k: int| 0 <= k < n - start implies !is_ws(t[k]) by {
            assert(t[k] == s@[k + start]);
        }
        lemma_ws_idx_at(t, n - start);
        assert(t =~= cur@);
        lemma_views_push(out@, cur);
        assert(views(out@.push(cur)) =~= views(out@) + split_ws_raw(t));
    }
    out.push(cur);
    out
}

/// The words of `s`.
pub fn split_words(s: &[char]) -> (r: Vec<Vec<char>>)
    ensures
        views(r@) == words(s@),
{
    let pieces = split_ws_raw_chars(s);
    let mut out: Vec<Vec<char>> = Vec::new();
    let mut i: usize = 0;
    while i < pieces.len()
        invariant
            i <= pieces@.len(),
            views(out@) == nonempty(views(pieces@).take(i as int)),
            views(pieces@) == split_ws_raw(s@),
        decreases pieces@.len() - i,
    {
        let ghost before = views(pieces@).take(i as int);
        proof {
            assert(views(pieces@).take(i + 1).drop_last() =~= before);
            assert(views(pieces@).take(i + 1).last() == pieces@[i as int]@);
        }
        if pieces[i].len() > 0 {
            let p = pieces[i].clone();
            proof {
                lemma_views_push(out@, p);
            }
            out.push(p);
        }
        i += 1;
    }
    proof {
        assert(views(pieces@).take(pieces@.len() as int) =~= views(pieces@));
    }
    out
}

// ---------------------------------------------------------------------------
// Decimal numbers
// ---------------------------------------------------------------------------

/// An ASCII decimal digit.
pub open spec fn is_digit(c: char) -> bool {
    48 <= (c as u32) && (c as u32) <= 57
}

/// The value of a digit character.
pub open spec fn digit_val(c: char) -> nat {
    ((c as u32) - 48) as nat
}

/// Every character of `s` is a decimal digit.
pub open spec fn all_digits(s: Seq<char>) -> bool {
    forall|i: int| 0 <= i < s.len() ==> is_digit(s[i])
}

/// The number the digits `s` denote.
pub open spec fn dec_value(s: Seq<char>) -> nat
    decreases s.len(),
{
    if s.len() == 0 {
        0
    } else {
        dec_value(s.drop_last()) * 10 + digit_val(s.last())
    }
}

/// The digits that `from_str` reads for an unsigned type: an optional
/// leading `+` is skipped.
pub open spec fn unsigned_digits(s: Seq<char>) -> Seq<char> {
    if s.len() > 0 && s[0] == '+' {
        s.drop_first()
    } else {
        s
    }
}

/// `s.parse::<T>()` for an unsigned integer type `T` whose largest value is
/// `max`: `Some` exactly when `s` is an optional `+` followed by at least
/// one decimal digit and nothing else, and the value fits.
pub open spec fn parse_unsigned(s: Seq<char>, max: nat) -> Option<nat> {
    let d = unsigned_digits(s);
    if d.len() > 0 && all_digits(d) && dec_value(d) <= max {
        Some(dec_value(d))
    } else {
        None
    }
}

pub proof fn lemma_dec_value_prefix(s: Seq<char>, k: int)
    requires
        0 <= k <= s.len(),
    ensures
        dec_value(s.take(k)) <= dec_value(s),
    decreases s.len() - k,
{
    if k < s.len() {
        lemma_dec_value_prefix(s, k + 1);
        assert(s.take(k + 1).drop_last() =~= s.take(k));
        assert(dec_value(s.take(k + 1)) == dec_value(s.take(k)) * 10 + digit_val(s.take(k + 1).last()));
    } else {
        assert(s.take(k) =~= s);
    }
}

proof fn lemma_step_fits(acc: int, d: int, max: int)
    by (nonlinear_arith)
    requires
        0 <= acc,
        0 <= d <= 9,
        d <= max,
        acc <= (max - d) / 10,
    ensures
        acc * 10 + d <= max,
{
}

proof fn lemma_step_overflows(acc: int, d: int, max: int)
    by (nonlinear_arith)
    requires
        0 <= acc,
        0 <= d <= 9,
        0 <= max,
        d > max || acc > (max - d) / 10,
    ensures
        acc * 10 + d > max,
{
}

/// Parses an unsigned decimal number no larger than `max`.
pub fn parse_uint(s: &[char], max: u64) -> (r: Option<u64>)
    ensures
        match r {
            Some(v) => parse_unsigned(s@, max as nat) == Some(v as nat),
            None => parse_unsigned(s@, max as nat) is None,
        },
{
    let start: usize = if s.len() > 0 && s[0] == '+' { 1 } else { 0 };
    let ghost d = unsigned_digits(s@);
    proof {
        assert(d =~= s@.skip(start as int));
    }
    if start >= s.len() {
        return None;
    }
    let mut acc: u64 = 0;
    let mut i: usize = start;
    while i < s.len()
        invariant
            start <= i <= s@.len(),
            d == s@.skip(start as int),
            d == unsigned_digits(s@),
            all_digits(d.take(i - start)),
            acc as nat == dec_value(d.take(i - start)),
            acc <= max,
        decreases s@.len() - i,
    {
        let c = s[i];
        let u = c as u32;
        if u < 48 || u > 57 {
            assert(d[i - start] == c);
            assert(!is_digit(d[i - start]));
            assert(!all_digits(d));
            return None;
        }
        let dv: u64 = (u - 48) as u64;
        if dv > max || acc > (max - dv) / 10 {
            proof {
                lemma_step_overflows(acc as int, dv as int, max as int);
                assert(d.take(i - start + 1).drop_last() =~= d.take(i - start));
                assert(d.take(i - start + 1).last() == c);
                lemma_dec_value_prefix(d, i - start + 1);
                assert(digit_val(c) == dv);
                assert(dec_value(d.take(i - start + 1)) == acc * 10 + dv);
                assert(dec_value(d) > max);
            }
            return None;
        }
        proof {
            lemma_step_fits(acc as int, dv as int, max as int);
            assert(d.take(i - start + 1).drop_last() =~= d.take(i - start));
            assert(d.take(i - start + 1).last() == c);
        }
        acc = acc * 10 + dv;
        i += 1;
    }
    proof {
        assert(d.take(i - start) =~= d);
    }
    Some(acc)
}

/// `s.parse::<u8>()`.
pub fn parse_u8(s: &[char]) -> (r: Option<u8>)
    ensures
        match r {
            Some(v) => parse_unsigned(s@, 255) == Some(v as nat),
            None => parse_unsigned(s@, 255) is None,
        },
{
    match parse_uint(s, 255) {
        Some(v) => Some(v as u8),
        None => None,
    }
}

/// `s.parse::<u32>()`.
pub fn parse_u32(s: &[char]) -> (r: Option<u32>)
    ensures
        match r {
            Some(v) => parse_unsigned(s@, 0xffff_ffff) == Some(v as nat),
            None => parse_unsigned(s@, 0xffff_ffff) is None,
        },
{
    match parse_uint(s, 0xffff_ffff) {
        Some(v) => Some(v as u32),
        None => None,
    }
}

/// `s.parse::<u64>()`.
pub fn parse_u64(s: &[char]) -> (r: Option<u64>)
    ensures
        match r {
            Some(v) => parse_unsigned(s@, 0xffff_ffff_ffff_ffff) == Some(v as nat),
            None => parse_unsigned(s@, 0xffff_ffff_ffff_ffff) is None,
        },
{
    parse_uint(s, 0xffff_ffff_ffff_ffff)
}

/// The digit character for `d < 10`.
pub open spec fn digit_char(d: nat) -> char {
    if d == 0 {
        '0'
    } else if d == 1 {
        '1'
    } else if d == 2 {
        '2'
    } else if d == 3 {
        '3'
    } else if d == 4 {
        '4'
    } else if d == 5 {
        '5'
    } else if d == 6 {
        '6'
    } else if d == 7 {
        '7'
    } else if d == 8 {
        '8'
    } else {
        '9'
    }
}

fn exec_digit_char(d: u64) -> (c: char)
    requires
        d < 10,
    ensures
        c == digit_char(d as nat),
{
    if d == 0 {
        '0'
    } else if d == 1 {
        '1'
    } else if d == 2 {
        '2'
    } else if d == 3 {
        '3'
    } else if d == 4 {
        '4'
    } else if d == 5 {
        '5'
    } else if d == 6 {
        '6'
    } else if d == 7 {
        '7'
    } else if d == 8 {
        '8'
    } else {
        '9'
    }
}

/// The decimal representation of `n` (`n.to_string()` for an unsigned integer).
pub open spec fn dec_string(n: nat) -> Seq<char>
    decreases n,
{
    if n < 10 {
        seq![digit_char(n)]
    } else {
        dec_string(n / 10).push(digit_char(n % 10))
    }
}

/// The decimal representation of `n`.
pub fn u64_to_dec(n: u64) -> (r: Vec<char>)
    ensures
        r@ == dec_string(n as nat),
    decreases n,
{
    let c = exec_digit_char(n % 10);
    if n < 10 {
        let mut v: Vec<char> = Vec::new();
        v.push(c);
        proof {
            assert(v@ =~= dec_string(n as nat));
        }
        v
    } else {
        let mut v = u64_to_dec(n / 10);
        v.push(c);
        v
    }
}


// ---------------------------------------------------------------------------
// Text built from pieces, case and character classes
// ---------------------------------------------------------------------------

/// The text `a` followed by the text `b`.
pub fn join2(a: &str, b: &str) -> (r: String)
    ensures
        r@ == a@ + b@,
{
    let x = str_chars(a);
    let y = str_chars(b);
    let z = concat_chars(x.as_slice(), y.as_slice());
    chars_to_string(z.as_slice())
}

/// The text `a`, `b` and `c` one after the other.
pub fn join3(a: &str, b: &str, c: &str) -> (r: String)
    ensures
        r@ == a@ + b@ + c@,
{
    let ab = join2(a, b);
    join2(ab.as_str(), c)
}

/// What `str::to_lowercase` gives for a text: the lowercase mapping of the
/// Unicode character database (where a capital sigma's mapping depends on
/// the characters around it).
pub uninterp spec fn lowercase(s: Seq<char>) -> Seq<char>;

/// `str::to_lowercase`.  Claimed: the result is the text named by
/// `lowercase`, a function of the input alone.
#[verifier::external_body]
pub(crate) fn to_lowercase_chars(s: &[char]) -> (r: Vec<char>)
    ensures
        r@ == lowercase(s@),
{
    let text: String = String::from_iter(s);
    text.to_lowercase().chars().collect()
}

/// An ASCII letter or digit.
pub open spec fn ascii_alnum(c: char) -> bool {
    let u = c as u32;
    (48 <= u && u <= 57) || (65 <= u && u <= 90) || (97 <= u && u <= 122)
}

/// What `char::is_alphanumeric` gives: the Unicode Alphabetic or Numeric
/// property.
pub uninterp spec fn alphanumeric(c: char) -> bool;

/// `char::is_alphanumeric`.  Claimed: the result is the property named by
/// `alphanumeric`; for an ASCII character it holds exactly of the ASCII
/// letters and digits; and it never holds of whitespace (no character with
/// the Unicode White_Space property is Alphabetic or Numeric).
#[verifier::external_body]
pub(crate) fn char_is_alphanumeric(c: char) -> (r: bool)
    ensures
        r == alphanumeric(c),
        (c as u32) < 128 ==> (r == ascii_alnum(c)),
        is_ws(c) ==> !r,
{
    c.is_alphanumeric()
}


// ---------------------------------------------------------------------------
// Text assembled from words and lines
// ---------------------------------------------------------------------------

/// No character of `s` is whitespace.
pub open spec fn no_ws(s: Seq<char>) -> bool {
    forall|k: int| 0 <= k < s.len() ==> !is_ws(#[trigger] s[k])
}

/// A word: non-empty text without whitespace.
pub open spec fn is_word(s: Seq<char>) -> bool {
    s.len() > 0 && no_ws(s)
}

/// The words `ws` joined by single spaces (`[&str]::join(" ")`).
pub open spec fn join_ws(ws: Seq<Seq<char>>) -> Seq<char>
    decreases ws.len(),
{
    if ws.len() == 0 {
        seq![]
    } else if ws.len() == 1 {
        ws[0]
    } else {
        ws[0] + " "@ + join_ws(ws.drop_first())
    }
}

/// The lines `ls`, each followed by a line feed.
pub open spec fn unlines(ls: Seq<Seq<char>>) -> Seq<char>
    decreases ls.len(),
{
    if ls.len() == 0 {
        seq![]
    } else {
        ls[0] + "\n"@ + unlines(ls.drop_first())
    }
}

/// A text that can stand as one line: it holds no line feed and does not
/// end in a carriage return.
pub open spec fn is_line(s: Seq<char>) -> bool {
    (forall|k: int| 0 <= k < s.len() ==> #[trigger] s[k] != '\n') && (s.len() > 0 ==> s.last()
        != '\r')
}

/// Trimming leaves a text alone when it neither begins nor ends with
/// whitespace.
pub proof fn lemma_trim_unchanged(s: Seq<char>)
    requires
        s.len() > 0 ==> !is_ws(s[0]) && !is_ws(s.last()),
    ensures
        trim(s) == s,
{
    if s.len() > 0 {
        lemma_lead_ws_at(s, 0);
        assert(s.skip(0) =~= s);
        lemma_trail_ws_at(s, s.len() as int);
        assert(s.take(s.len() as int) =~= s);
    } else {
        assert(lead_ws(s) == 0);
        assert(s.skip(0) =~= s);
        assert(s.take(0) =~= s);
    }
}

/// Words joined by spaces begin and end with a character of a word.
pub proof fn lemma_join_ws_edges(ws: Seq<Seq<char>>)
    requires
        ws.len() > 0,
        forall|i: int| 0 <= i < ws.len() ==> is_word(#[trigger] ws[i]),
    ensures
        join_ws(ws).len() > 0,
        !is_ws(join_ws(ws)[0]),
        !is_ws(join_ws(ws).last()),
        no_ws(ws[0]) ==> join_ws(ws)[0] == ws[0][0],
    decreases ws.len(),
{
    assert(is_word(ws[0]));
    if ws.len() > 1 {
        let rest = ws.drop_first();
        assert forall|i: int| 0 <= i < rest.len() implies is_word(#[trigger] rest[i]) by {
            assert(rest[i] == ws[i + 1]);
        }
        lemma_join_ws_edges(rest);
        let j = ws[0] + " "@ + join_ws(rest);
        assert(j[0] == ws[0][0]);
        assert(j.last() == join_ws(rest).last());
    }
}

/// Words joined by single spaces split back into the same words.
pub proof fn lemma_split_ws_raw_join(ws: Seq<Seq<char>>)
    requires
        ws.len() > 0,
        forall|i: int| 0 <= i < ws.len() ==> is_word(#[trigger] ws[i]),
    ensures
        split_ws_raw(join_ws(ws)) == ws,
    decreases ws.len(),
{
    let w = ws[0];
    assert(is_word(w));
    if ws.len() == 1 {
        lemma_ws_idx_at(w, w.len() as int);
        assert(split_ws_raw(w) =~= seq![w]);
        assert(ws =~= seq![w]);
    } else {
        let rest = ws.drop_first();
        assert forall|i: int| 0 <= i < rest.len() implies is_word(#[trigger] rest[i]) by {
            assert(rest[i] == ws[i + 1]);
        }
        let s = w + " "@ + join_ws(rest);
        assert(" "@ =~= seq![' ']) by {
            reveal_strlit(" ");
        }
        assert forall|k: int| 0 <= k < w.len() implies !is_ws(#[trigger] s[k]) by {
            assert(s[k] == w[k]);
        }
        assert(s[w.len() as int] == ' ');
        lemma_ws_idx_at(s, w.len() as int);
        assert(s.take(w.len() as int) =~= w);
        assert(s.skip(w.len() as int + 1) =~= join_ws(rest));
        lemma_split_ws_raw_join(rest);
        assert(seq![w] + rest =~= ws);
    }
}

/// Keeping the non-empty members keeps them all when none is empty.
pub proof fn lemma_nonempty_all(ps: Seq<Seq<char>>)
    requires
        forall|i: int| 0 <= i < ps.len() ==> (#[trigger] ps[i]).len() > 0,
    ensures
        nonempty(ps) == ps,
    decreases ps.len(),
{
    if ps.len() > 0 {
        let d = ps.drop_last();
        assert forall|i: int| 0 <= i < d.len() implies (#[trigger] d[i]).len() > 0 by {
            assert(d[i] == ps[i]);
        }
        lemma_nonempty_all(d);
        assert(d.push(ps.last()) =~= ps);
    }
}

/// The words of words joined by single spaces are those words.
pub proof fn lemma_words_join(ws: Seq<Seq<char>>)
    requires
        ws.len() > 0,
        forall|i: int| 0 <= i < ws.len() ==> is_word(#[trigger] ws[i]),
    ensures
        words(join_ws(ws)) == ws,
        trim(join_ws(ws)) == join_ws(ws),
{
    lemma_split_ws_raw_join(ws);
    assert forall|i: int| 0 <= i < ws.len() implies (#[trigger] ws[i]).len() > 0 by {
        assert(is_word(ws[i]));
    }
    lemma_nonempty_all(ws);
    lemma_join_ws_edges(ws);
    lemma_trim_unchanged(join_ws(ws));
}

/// Lines written one after the other, each ended by a line feed, are read
/// back as the same lines.
pub proof fn lemma_lines_of_unlines(ls: Seq<Seq<char>>)
    requires
        forall|i: int| 0 <= i < ls.len() ==> is_line(#[trigger] ls[i]),
    ensures
        lines_of(unlines(ls)) == ls,
    decreases ls.len(),
{
    if ls.len() > 0 {
        let l = ls[0];
        assert(is_line(l));
        let rest = ls.drop_first();
        assert forall|i: int| 0 <= i < rest.len() implies is_line(#[trigger] rest[i]) by {
            assert(rest[i] == ls[i + 1]);
        }
        let s = l + "\n"@ + unlines(rest);
        assert("\n"@ =~= seq!['\n']) by {
            reveal_strlit("\n");
        }
        assert forall|k: int| 0 <= k < l.len() implies #[trigger] s[k] != '\n' by {
            assert(s[k] == l[k]);
        }
        assert(s[l.len() as int] == '\n');
        lemma_idx_of_at(s, '\n', l.len() as int);
        assert(s.take(l.len() as int) =~= l);
        assert(s.skip(l.len() as int + 1) =~= unlines(rest));
        assert(strip_cr(l) == l);
        lemma_lines_of_unlines(rest);
        assert(seq![l] + rest =~= ls);
    }
}

/// Appending a line to written lines appends it, with its line feed, to
/// the text.
pub proof fn lemma_unlines_push(ls: Seq<Seq<char>>, l: Seq<char>)
    ensures
        unlines(ls.push(l)) == unlines(ls) + l + "\n"@,
    decreases ls.len(),
{
    if ls.len() == 0 {
        let e = ls.push(l).drop_first();
        assert(e =~= Seq::<Seq<char>>::empty());
        assert(unlines(e) == Seq::<char>::empty());
        assert(ls.push(l)[0] == l);
        assert(unlines(ls) == Seq::<char>::empty());
        assert(unlines(ls.push(l)) =~= l + "\n"@);
    } else {
        assert(ls.push(l).drop_first() =~= ls.drop_first().push(l));
        lemma_unlines_push(ls.drop_first(), l);
        assert(unlines(ls.push(l)) =~= unlines(ls) + l + "\n"@);
    }
}

/// Appending a word to joined words appends a space and the word.
pub proof fn lemma_join_ws_push(ws: Seq<Seq<char>>, w: Seq<char>)
    ensures
        join_ws(ws.push(w)) == if ws.len() == 0 {
            w
        } else {
            join_ws(ws) + " "@ + w
        },
    decreases ws.len(),
{
    if ws.len() == 0 {
        assert(ws.push(w).len() == 1);
        assert(ws.push(w)[0] == w);
    } else if ws.len() == 1 {
        let d = ws.push(w).drop_first();
        assert(d =~= seq![w]);
        assert(join_ws(d) == w);
        assert(ws.push(w)[0] == ws[0]);
        assert(join_ws(ws.push(w)) =~= join_ws(ws) + " "@ + w);
    } else {
        assert(ws.push(w).drop_first() =~= ws.drop_first().push(w));
        lemma_join_ws_push(ws.drop_first(), w);
        assert(join_ws(ws.push(w)) =~= join_ws(ws) + " "@ + w);
    }
}


/// The digit character of a digit is read back as that digit.
pub proof fn lemma_digit_char(d: nat)
    requires
        d < 10,
    ensures
        is_digit(digit_char(d)),
        digit_val(digit_char(d)) == d,
        digit_char(d) != '+',
{
}

/// The decimal representation of `n` is a non-empty run of digits that
/// denotes `n`.
pub proof fn lemma_dec_string(n: nat)
    ensures
        dec_string(n).len() > 0,
        all_digits(dec_string(n)),
        dec_value(dec_string(n)) == n,
        dec_string(n)[0] != '+',
    decreases n,
{
    lemma_digit_char(n % 10);
    if n >= 10 {
        lemma_dec_string(n / 10);
        let s = dec_string(n);
        assert(s.drop_last() =~= dec_string(n / 10));
        assert(s[0] == dec_string(n / 10)[0]);
        assert((n / 10) * 10 + n % 10 == n) by (nonlinear_arith);
        assert(dec_value(s) == dec_value(dec_string(n / 10)) * 10 + digit_val(s.last()));
    } else {
        let s = dec_string(n);
        assert(s.drop_last() =~= Seq::<char>::empty());
        assert(dec_value(s.drop_last()) == 0);
        assert(dec_value(s) == dec_value(s.drop_last()) * 10 + digit_val(s.last()));
    }
}

/// `n.to_string().parse()` gives back `n` whenever `n` fits the type.
pub proof fn lemma_parse_dec_string(n: nat, max: nat)
    requires
        n <= max,
    ensures
        parse_unsigned(dec_string(n), max) == Some(n),
{
    lemma_dec_string(n);
}


// ---------------------------------------------------------------------------
// Splitting once and searching for a text
// ---------------------------------------------------------------------------

/// `str::split_once` with a `char`: the text before the first `c` and the
/// text after it, when `c` occurs.
pub open spec fn split_once(s: Seq<char>, c: char) -> Option<(Seq<char>, Seq<char>)> {
    let i = idx_of(s, c);
    if i >= 0 {
        Some((s.take(i), s.skip(i + 1)))
    } else {
        None
    }
}

/// Splits `s` at its first `c`.
pub fn split_once_chars(s: &[char], c: char) -> (r: Option<(Vec<char>, Vec<char>)>)
    ensures
        match r {
            Some((a, b)) => split_once(s@, c) == Some((a@, b@)),
            None => split_once(s@, c) is None,
        },
{
    proof {
        lemma_idx_of(s@, c);
    }
    match find_char(s, c) {
        Some(i) => {
            let n = s.len();
            assert(i < n);
            let a = sub_chars(s, 0, i);
            let b = sub_chars(s, i + 1, n);
            proof {
                assert(a@ =~= s@.take(i as int));
                assert(b@ =~= s@.skip(i + 1));
            }
            Some((a, b))
        },
        None => None,
    }
}

/// `p` occurs in `s` (`str::contains` with a text).
pub open spec fn has_sub(s: Seq<char>, p: Seq<char>) -> bool {
    exists|i: int| 0 <= i && i + p.len() <= s.len() && #[trigger] s.subrange(i, i + p.len()) == p
}

/// Whether `p` occurs in `s`.
pub fn chars_contains(s: &[char], p: &[char]) -> (r: bool)
    ensures
        r == has_sub(s@, p@),
{
    if p.len() > s.len() {
        return false;
    }
    let n = s.len();
    let last = n - p.len();
    let mut i: usize = 0;
    while i <= last
        invariant
            n == s@.len(),
            last == s@.len() - p@.len(),
            i <= last,
            forall|k: int| 0 <= k < i ==> #[trigger] s@.subrange(k, k + p@.len()) != p@,
        decreases last - i,
    {
        let mut j: usize = 0;
        let mut same = true;
        while j < p.len()
            invariant
                j <= p@.len(),
                n == s@.len(),
                i + p@.len() <= n,
                same == (forall|t: int| 0 <= t < j ==> s@[i + t] == p@[t]),
            decreases p@.len() - j,
        {
            if s[i + j] != p[j] {
                same = false;
            }
            j += 1;
        }
        if same {
            assert(s@.subrange(i as int, i + p@.len()) =~= p@);
            return true;
        }
        proof {
            let t = choose|t: int| 0 <= t < p@.len() && s@[i + t] != p@[t];
            assert(s@.subrange(i as int, i + p@.len())[t] != p@[t]);
        }
        if i == last {
            proof {
                assert forall|k: int| 0 <= k && k + p@.len() <= s@.len() implies #[trigger] s@.subrange(
                    k,
                    k + p@.len(),
                ) != p@ by {
                    assert(k <= i);
                }
            }
            return false;
        }
        i += 1;
    }
    false
}

/// Whether the text `lit` occurs in `s`.
pub fn contains_str(s: &[char], lit: &str) -> (r: bool)
    ensures
        r == has_sub(s@, lit@),
{
    let p = str_chars(lit);
    chars_contains(s, p.as_slice())
}

} // verus!
