//! Character-level utilities shared by the rules: equality, search,
//! tokenization, trimming and decimal rendering.

use vstd::prelude::*;
use vstd::string::*;

verus! {

/// The whitespace characters recognized when splitting an import
/// specifier into tokens.
pub open spec fn is_space(c: char) -> bool {
    c == ' ' || c == '\t' || c == '\n' || c == '\r'
}

/// Relies on String::push: appends exactly one character at the end.
#[verifier::external_body]
pub fn push_char(s: &mut String, c: char)
    ensures
        final(s)@ == old(s)@.push(c),
{
    s.push(c)
}

/// Character-for-character string equality.
pub fn str_eq(a: &str, b: &str) -> (r: bool)
    ensures
        r == (a@ == b@),
{
    let n = a.unicode_len();
    if n != b.unicode_len() {
        return false;
    }
    let mut i: usize = 0;
    while i < n
        invariant
            n == a@.len(),
            n == b@.len(),
            i <= n,
            forall|j: int| 0 <= j < i ==> a@[j] == b@[j],
        decreases n - i,
    {
        if a.get_char(i) != b.get_char(i) {
            return false;
        }
        i = i + 1;
    }
    proof {
        assert(a@ =~= b@);
    }
    true
}

/// `p` occurs in `s` starting at position `i`.
pub open spec fn match_at(s: Seq<char>, p: Seq<char>, i: int) -> bool {
    0 <= i && i + p.len() <= s.len() && s.subrange(i, i + p.len() as int) == p
}

/// `p` occurs somewhere in `s`.
pub open spec fn spec_contains(s: Seq<char>, p: Seq<char>) -> bool {
    exists|i: int| match_at(s, p, i)
}

/// `s` begins with `p`.
pub open spec fn spec_starts_with(s: Seq<char>, p: Seq<char>) -> bool {
    match_at(s, p, 0)
}

/// Substring search.
pub fn str_contains(s: &str, p: &str) -> (r: bool)
    ensures
        r == spec_contains(s@, p@),
{
    let n = s.unicode_len();
    let m = p.unicode_len();
    if m > n {
        proof {
            assert(forall|i: int| !match_at(s@, p@, i));
        }
        return false;
    }
    if m == 0 {
        proof {
            assert(s@.subrange(0, 0) =~= p@);
            assert(match_at(s@, p@, 0));
        }
        return true;
    }
    let mut i: usize = 0;
    while i <= n - m
        invariant
            n == s@.len(),
            m == p@.len(),
            1 <= m <= n,
            i <= n - m + 1,
            forall|j: int| 0 <= j < i ==> !match_at(s@, p@, j),
        decreases n - m - i + 1,
    {
        if str_eq(s.substring_char(i, i + m), p) {
            proof {
                assert(match_at(s@, p@, i as int));
            }
            return true;
        }
        i = i + 1;
    }
    proof {
        assert(forall|j: int| i <= j ==> !match_at(s@, p@, j));
    }
    false
}

/// Prefix test.
pub fn str_starts_with(s: &str, p: &str) -> (r: bool)
    ensures
        r == spec_starts_with(s@, p@),
{
    let n = s.unicode_len();
    let m = p.unicode_len();
    if m > n {
        return false;
    }
    str_eq(s.substring_char(0, m), p)
}

/// The decimal digit character for `d`.
pub open spec fn digit_char(d: nat) -> char {
    if d == 0 { '0' }
    else if d == 1 { '1' }
    else if d == 2 { '2' }
    else if d == 3 { '3' }
    else if d == 4 { '4' }
    else if d == 5 { '5' }
    else if d == 6 { '6' }
    else if d == 7 { '7' }
    else if d == 8 { '8' }
    else { '9' }
}

/// The decimal rendering of `n`, most significant digit first.
pub open spec fn dec_spec(n: nat) -> Seq<char>
    decreases n,
{
    if n < 10 {
        seq![digit_char(n)]
    } else {
        dec_spec(n / 10).push(digit_char(n % 10))
    }
}

fn exec_digit_char(d: usize) -> (c: char)
    requires
        d < 10,
    ensures
        c == digit_char(d as nat),
{
    if d == 0 { '0' }
    else if d == 1 { '1' }
    else if d == 2 { '2' }
    else if d == 3 { '3' }
    else if d == 4 { '4' }
    else if d == 5 { '5' }
    else if d == 6 { '6' }
    else if d == 7 { '7' }
    else if d == 8 { '8' }
    else { '9' }
}

/// Renders `n` in decimal.
pub fn dec_of(n: usize) -> (r: String)
    ensures
        r@ == dec_spec(n as nat),
    decreases n,
{
    if n < 10 {
        let mut s = String::new();
        push_char(&mut s, exec_digit_char(n));
        proof {
            assert(s@ =~= dec_spec(n as nat));
        }
        s
    } else {
        let mut s = dec_of(n / 10);
        push_char(&mut s, exec_digit_char(n % 10));
        s
    }
}

/// Whether `c` is one of the recognized whitespace characters.
pub fn is_space_char(c: char) -> (r: bool)
    ensures
        r == is_space(c),
{
    c == ' ' || c == '\t' || c == '\n' || c == '\r'
}

/// `s[b..=e]` is the last whitespace-separated token of `s`.
pub open spec fn token_at(s: Seq<char>, b: int, e: int) -> bool {
    &&& 0 <= b <= e < s.len()
    &&& (forall|k: int| b <= k <= e ==> !is_space(#[trigger] s[k]))
    &&& (b == 0 || is_space(s[b - 1]))
    &&& (forall|k: int| e < k < s.len() ==> is_space(#[trigger] s[k]))
}

/// The last whitespace-separated token of `s`, or `None` if `s` holds
/// only whitespace.
pub fn last_token(s: &str) -> (r: Option<String>)
    ensures
        match r {
            Some(t) => exists|b: int, e: int| token_at(s@, b, e) && t@ == s@.subrange(b, e + 1),
            None => forall|i: int| 0 <= i < s@.len() ==> is_space(#[trigger] s@[i]),
        },
{
    let n = s.unicode_len();
    let mut e: usize = n;
    while e > 0 && is_space_char(s.get_char(e - 1))
        invariant
            n == s@.len(),
            e <= n,
            forall|k: int| e <= k < n ==> is_space(#[trigger] s@[k]),
        decreases e,
    {
        e = e - 1;
    }
    if e == 0 {
        return None;
    }
    // s@[e - 1] is not whitespace; walk back to the token's start.
    let mut b: usize = e - 1;
    while b > 0 && !is_space_char(s.get_char(b - 1))
        invariant
            n == s@.len(),
            b < e <= n,
            forall|k: int| b <= k < e ==> !is_space(#[trigger] s@[k]),
        decreases b,
    {
        b = b - 1;
    }
    let t = s.substring_char(b, e);
    proof {
        assert(token_at(s@, b as int, e - 1));
        assert(t@ == s@.subrange(b as int, (e - 1) + 1));
    }
    Some(t.to_owned())
}

/// `t` with its trailing whitespace removed.
pub open spec fn strip_trailing_space(t: Seq<char>) -> Seq<char>
    decreases t.len(),
{
    if t.len() > 0 && is_space(t.last()) {
        strip_trailing_space(t.drop_last())
    } else {
        t
    }
}

/// The maximal non-whitespace suffix of `t`.
pub open spec fn nonspace_suffix(t: Seq<char>) -> Seq<char>
    decreases t.len(),
{
    if t.len() > 0 && !is_space(t.last()) {
        nonspace_suffix(t.drop_last()).push(t.last())
    } else {
        Seq::empty()
    }
}

/// The last whitespace-separated token of `t` (empty when `t` holds
/// only whitespace).
pub open spec fn last_token_spec(t: Seq<char>) -> Seq<char> {
    nonspace_suffix(strip_trailing_space(t))
}

proof fn lemma_strip_trailing(t: Seq<char>, e: int)
    requires
        0 <= e < t.len(),
        !is_space(t[e]),
        forall|k: int| e < k < t.len() ==> is_space(#[trigger] t[k]),
    ensures
        strip_trailing_space(t) == t.subrange(0, e + 1),
    decreases t.len(),
{
    if e == t.len() - 1 {
        assert(t.subrange(0, e + 1) =~= t);
    } else {
        assert(is_space(t.last()));
        lemma_strip_trailing(t.drop_last(), e);
        assert(t.drop_last().subrange(0, e + 1) =~= t.subrange(0, e + 1));
    }
}

proof fn lemma_nonspace_suffix(u: Seq<char>, b: int)
    requires
        0 <= b <= u.len(),
        forall|k: int| b <= k < u.len() ==> !is_space(#[trigger] u[k]),
        b == 0 || is_space(u[b - 1]),
    ensures
        nonspace_suffix(u) == u.subrange(b, u.len() as int),
    decreases u.len(),
{
    if b == u.len() {
        if u.len() == 0 {
            assert(u.subrange(0, 0) =~= Seq::<char>::empty());
        } else {
            assert(is_space(u.last()));
            assert(u.subrange(b, u.len() as int) =~= Seq::<char>::empty());
        }
    } else {
        assert(!is_space(u.last()));
        lemma_nonspace_suffix(u.drop_last(), b);
        assert(u.drop_last().subrange(b, u.drop_last().len() as int) =~= u.subrange(
            b,
            u.len() - 1,
        ));
        assert(u.subrange(b, u.len() - 1).push(u.last()) =~= u.subrange(b, u.len() as int));
    }
}

/// A token's placement pins `last_token_spec` down.
pub proof fn lemma_last_token_at(t: Seq<char>, b: int, e: int)
    requires
        token_at(t, b, e),
    ensures
        last_token_spec(t) == t.subrange(b, e + 1),
{
    lemma_strip_trailing(t, e);
    let u = t.subrange(0, e + 1);
    assert(u.len() == e + 1);
    assert(forall|k: int| b <= k < u.len() ==> u[k] == t[k]);
    lemma_nonspace_suffix(u, b);
    assert(u.subrange(b, u.len() as int) =~= t.subrange(b, e + 1));
}

/// `s` with every leading quote character removed.
pub open spec fn drop_leading_quotes(s: Seq<char>) -> Seq<char>
    decreases s.len(),
{
    if s.len() > 0 && s[0] == '"' {
        drop_leading_quotes(s.drop_first())
    } else {
        s
    }
}

/// `s` with every trailing quote character removed.
pub open spec fn drop_trailing_quotes(s: Seq<char>) -> Seq<char>
    decreases s.len(),
{
    if s.len() > 0 && s.last() == '"' {
        drop_trailing_quotes(s.drop_last())
    } else {
        s
    }
}

/// `s` with all quote characters stripped from both ends.
pub open spec fn trim_quotes_spec(s: Seq<char>) -> Seq<char> {
    drop_trailing_quotes(drop_leading_quotes(s))
}

proof fn lemma_drop_leading(s: Seq<char>, b: int)
    requires
        0 <= b <= s.len(),
        forall|k: int| 0 <= k < b ==> s[k] == '"',
        b < s.len() ==> s[b] != '"',
    ensures
        drop_leading_quotes(s) == s.subrange(b, s.len() as int),
    decreases b,
{
    if b == 0 {
        if s.len() > 0 && s[0] == '"' {
        } else {
            assert(s.subrange(0, s.len() as int) =~= s);
        }
    } else {
        assert(s.len() > 0 && s[0] == '"');
        lemma_drop_leading(s.drop_first(), b - 1);
        assert(s.drop_first().subrange(b - 1, s.drop_first().len() as int) =~= s.subrange(
            b,
            s.len() as int,
        ));
    }
}

proof fn lemma_drop_trailing(s: Seq<char>, e: int)
    requires
        0 <= e <= s.len(),
        forall|k: int| e <= k < s.len() ==> s[k] == '"',
        e > 0 ==> s[e - 1] != '"',
    ensures
        drop_trailing_quotes(s) == s.subrange(0, e),
    decreases s.len() - e,
{
    if e == s.len() {
        if s.len() > 0 && s.last() == '"' {
        } else {
            assert(s.subrange(0, s.len() as int) =~= s);
        }
    } else {
        assert(s.len() > 0 && s.last() == '"');
        lemma_drop_trailing(s.drop_last(), e);
        assert(s.drop_last().subrange(0, e) =~= s.subrange(0, e));
    }
}

/// Strips quote characters from both ends of `s`, as the import rule
/// does to a quoted import path.
pub fn trim_quotes(s: &str) -> (r: String)
    ensures
        r@ == trim_quotes_spec(s@),
{
    let n = s.unicode_len();
    let mut b: usize = 0;
    while b < n && s.get_char(b) == '"'
        invariant
            n == s@.len(),
            b <= n,
            forall|k: int| 0 <= k < b ==> s@[k] == '"',
        decreases n - b,
    {
        b = b + 1;
    }
    proof {
        lemma_drop_leading(s@, b as int);
    }
    let mut e: usize = n;
    while e > b && s.get_char(e - 1) == '"'
        invariant
            n == s@.len(),
            b <= e <= n,
            forall|k: int| 0 <= k < b ==> s@[k] == '"',
            forall|k: int| e <= k < n ==> s@[k] == '"',
        decreases e,
    {
        e = e - 1;
    }
    let t = s.substring_char(b, e);
    proof {
        let mid = s@.subrange(b as int, n as int);
        assert(forall|k: int| e - b <= k < mid.len() ==> #[trigger] mid[k] == '"');
        lemma_drop_trailing(mid, e - b);
        assert(mid.subrange(0, e - b) =~= s@.subrange(b as int, e as int));
    }
    t.to_owned()
}

/// `s` with every occurrence of `from` replaced by `to`.
pub open spec fn replace_spec(s: Seq<char>, from: char, to: char) -> Seq<char> {
    s.map_values(|c: char| if c == from { to } else { c })
}

/// Replaces every occurrence of one character by another.
pub fn replace_char(s: &str, from: char, to: char) -> (r: String)
    ensures
        r@ == replace_spec(s@, from, to),
{
    let n = s.unicode_len();
    let mut out = String::new();
    let mut i: usize = 0;
    while i < n
        invariant
            n == s@.len(),
            i <= n,
            out@ == s@.subrange(0, i as int).map_values(
                |c: char| if c == from { to } else { c },
            ),
        decreases n - i,
    {
        let c = s.get_char(i);
        if c == from {
            push_char(&mut out, to);
        } else {
            push_char(&mut out, c);
        }
        proof {
            assert(s@.subrange(0, i + 1).map_values(|c: char| if c == from { to } else { c })
                =~= s@.subrange(0, i as int).map_values(
                |c: char| if c == from { to } else { c },
            ).push(if s@[i as int] == from { to } else { s@[i as int] }));
        }
        i = i + 1;
    }
    proof {
        assert(s@.subrange(0, n as int) =~= s@);
    }
    out
}

/// The parts joined by `sep`.
pub open spec fn join_with(parts: Seq<Seq<char>>, sep: Seq<char>) -> Seq<char>
    decreases parts.len(),
{
    if parts.len() == 0 {
        Seq::empty()
    } else if parts.len() == 1 {
        parts[0]
    } else {
        parts[0] + sep + join_with(parts.drop_first(), sep)
    }
}

/// Joins the parts with the separator, as `[T]::join` does.
pub fn join(parts: &Vec<String>, sep: &str) -> (r: String)
    ensures
        r@ == join_with(parts@.map_values(|p: String| p@), sep@),
{
    let ghost views = parts@.map_values(|p: String| p@);
    let mut out = String::new();
    let mut i: usize = 0;
    while i < parts.len()
        invariant
            views == parts@.map_values(|p: String| p@),
            i <= parts@.len(),
            out@ == join_with(views.subrange(0, i as int), sep@),
        decreases parts@.len() - i,
    {
        if i > 0 {
            out.append(sep);
        }
        out.append(parts[i].as_str());
        proof {
            lemma_join_snoc(views.subrange(0, i + 1), sep@);
            assert(views.subrange(0, i + 1).drop_last() =~= views.subrange(0, i as int));
        }
        i = i + 1;
    }
    proof {
        assert(views.subrange(0, views.len() as int) =~= views);
    }
    out
}

proof fn lemma_join_snoc(parts: Seq<Seq<char>>, sep: Seq<char>)
    requires
        parts.len() >= 1,
    ensures
        parts.len() == 1 ==> join_with(parts, sep) == parts.last(),
        parts.len() > 1 ==> join_with(parts, sep) == join_with(parts.drop_last(), sep) + sep
            + parts.last(),
    decreases parts.len(),
{
    if parts.len() > 1 {
        lemma_join_snoc(parts.drop_first(), sep);
        if parts.len() == 2 {
            assert(parts.drop_last() =~= seq![parts[0]]);
            assert(join_with(parts, sep) == parts[0] + sep + parts[1]);
        } else {
            assert(parts.drop_first().drop_last() =~= parts.drop_last().drop_first());
            assert(join_with(parts.drop_last(), sep) == parts[0] + sep + join_with(
                parts.drop_last().drop_first(),
                sep,
            ));
            assert(join_with(parts, sep) == parts[0] + sep + (join_with(
                parts.drop_first().drop_last(),
                sep,
            ) + sep + parts.last()));
            assert(parts[0] + sep + (join_with(parts.drop_first().drop_last(), sep) + sep
                + parts.last()) =~= (parts[0] + sep + join_with(
                parts.drop_first().drop_last(),
                sep,
            )) + sep + parts.last());
        }
    }
}

} // verus!
