//! Per-module state: the configuration resolved once per module root
//! and the fix flag, shared read-only by every file traversal.

use vstd::prelude::*;
use vstd::string::*;

use crate::configuration::Configuration;
use crate::configuration::is_default_configuration;
use crate::f002::has_token;
use crate::text::is_space;
use crate::text::last_token;
use crate::text::last_token_spec;
use crate::text::lemma_last_token_at;
use crate::text::str_eq;
use crate::text::token_at;
use crate::text::trim_quotes;
use crate::text::trim_quotes_spec;

verus! {

/// The read-only state one module run shares across its files.
#[derive(Debug, Clone)]
pub struct ModuleLinter {
    pub configuration: Configuration,
    pub fix: bool,
}

impl ModuleLinter {
    /// A module linter with the built-in default configuration.
    pub fn new(fix: bool) -> (r: Self)
        ensures
            r.fix == fix,
            is_default_configuration(&r.configuration),
    {
        ModuleLinter { configuration: Configuration::default(), fix }
    }
}

/// A module directive opens at position `i`: at the start of a line,
/// the keyword and a space.
pub open spec fn module_head_at(s: Seq<char>, i: int) -> bool {
    &&& 0 <= i && i + 7 <= s.len()
    &&& (i == 0 || s[i - 1] == '\n')
    &&& s.subrange(i, i + 7) == "module "@
}

/// The position of the first module directive at or after `i`.
pub open spec fn find_module(s: Seq<char>, i: int) -> Option<int>
    decreases s.len() - i,
{
    if i < 0 || i + 7 > s.len() {
        None
    } else if (i == 0 || s[i - 1] == '\n') && s.subrange(i, i + 7) == "module "@ {
        Some(i)
    } else {
        find_module(s, i + 1)
    }
}

/// The end of the line that position `j` sits on.
pub open spec fn line_end(s: Seq<char>, j: int) -> int
    decreases s.len() - j,
{
    if j < 0 {
        0
    } else if j >= s.len() {
        s.len() as int
    } else if s[j] == '\n' {
        j
    } else {
        line_end(s, j + 1)
    }
}

/// The module path the module file declares: on the first line opening
/// with the module keyword, the rest of the line's last token, with any
/// surrounding quotes stripped.
pub open spec fn module_path_spec(s: Seq<char>) -> Option<Seq<char>> {
    match find_module(s, 0) {
        Some(i) => {
            let line = s.subrange(i + 7, line_end(s, i + 7));
            if has_token(line) {
                Some(trim_quotes_spec(last_token_spec(line)))
            } else {
                None
            }
        },
        None => None,
    }
}

fn exec_find_module(s: &str) -> (r: Option<usize>)
    ensures
        match r {
            Some(u) => find_module(s@, 0) == Some(u as int),
            None => find_module(s@, 0) is None,
        },
{
    let n = s.unicode_len();
    if n < 7 {
        return None;
    }
    let mut i: usize = 0;
    while i <= n - 7
        invariant
            n == s@.len(),
            7 <= n,
            i <= n - 7 + 1,
            find_module(s@, 0) == find_module(s@, i as int),
        decreases n - i,
    {
        if (i == 0 || s.get_char(i - 1) == '\n') && str_eq(s.substring_char(i, i + 7), "module ") {
            return Some(i);
        }
        i = i + 1;
    }
    None
}

fn exec_line_end(s: &str, j: usize) -> (r: usize)
    requires
        j <= s@.len(),
    ensures
        r as int == line_end(s@, j as int),
        j <= r <= s@.len(),
{
    let n = s.unicode_len();
    let mut k: usize = j;
    while k < n && s.get_char(k) != '\n'
        invariant
            n == s@.len(),
            j <= k <= n,
            line_end(s@, j as int) == line_end(s@, k as int),
        decreases n - k,
    {
        k = k + 1;
    }
    k
}

/// Extracts the declared module path from a module file's text; the
/// driver prints it as a notice when it opens a module root.
pub fn get_module(source: &str) -> (r: Option<String>)
    ensures
        r.deep_view() == module_path_spec(source@),
{
    let i = match exec_find_module(source) {
        Some(i) => i,
        None => {
            return None;
        },
    };
    let n = source.unicode_len();
    proof {
        lemma_find_module_props(source@, 0, i as int);
    }
    let e = exec_line_end(source, i + 7);
    let line = source.substring_char(i + 7, e);
    match last_token(line) {
        Some(token) => {
            proof {
                let (b, te) = choose|b: int, te: int|
                    token_at(line@, b, te) && token@ == line@.subrange(b, te + 1);
                lemma_last_token_at(line@, b, te);
                assert(!is_space(line@[te]));
                assert(has_token(line@));
            }
            Some(trim_quotes(token.as_str()))
        },
        None => {
            proof {
                assert(forall|k: int| 0 <= k < line@.len() ==> is_space(#[trigger] line@[k]));
                assert(!has_token(line@));
            }
            None
        },
    }
}

proof fn lemma_find_module_props(s: Seq<char>, i0: int, i: int)
    requires
        find_module(s, i0) == Some(i),
    ensures
        i0 <= i,
        module_head_at(s, i),
    decreases s.len() - i0,
{
    if i0 < 0 || i0 + 7 > s.len() {
    } else if (i0 == 0 || s[i0 - 1] == '\n') && s.subrange(i0, i0 + 7) == "module "@ {
    } else {
        lemma_find_module_props(s, i0 + 1, i);
    }
}

/// A path names a source file of the linted language.
pub open spec fn spec_is_source_file(path: Seq<char>) -> bool {
    path.len() >= 3 && path.subrange(path.len() - 3, path.len() as int) == ".go"@
}

/// Whether the path ends in the source-file suffix; whether it names a
/// regular file is the caller's concern.
pub fn is_source_file(path: &str) -> (r: bool)
    ensures
        r == spec_is_source_file(path@),
{
    let n = path.unicode_len();
    if n < 3 {
        return false;
    }
    str_eq(path.substring_char(n - 3, n), ".go")
}

} // verus!
