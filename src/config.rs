//! The configuration record read once at start-up, and the file options.
use vstd::prelude::*;

use crate::escape::template_pattern;
use crate::text::{from_chars, push_range, push_str, to_chars};

verus! {

/// Configuration of a conversion.
pub struct Config {
    /// The magic comment string that marks scripting lines after `//` or `/*`.
    pub magic_comment_str: String,
    /// The pattern that locates template expressions in a line.
    pub template_re: String,
    /// Whether the generated program is run after conversion.
    pub run_python: bool,
    /// Whether the generated program is deleted after it has run.
    pub delete_python: bool,
    /// The number of spaces that stand for one tab.
    pub tab_size: u32,
}

/// The input file path and, optionally, the output file path.
pub struct FileOptions {
    pub input: String,
    pub output: Option<String>,
}

impl Default for FileOptions {
    fn default() -> (r: Self)
        ensures
            r.input@ == Seq::<char>::empty(),
            r.output is None,
    {
        FileOptions { input: String::new(), output: None }
    }
}

impl Config {
    pub fn new(
        magic_comment_str: String,
        template_re: String,
        run_python: bool,
        delete_python: bool,
        tab_size: u32,
    ) -> (r: Config)
        ensures
            r.magic_comment_str == magic_comment_str,
            r.template_re == template_re,
            r.run_python == run_python,
            r.delete_python == delete_python,
            r.tab_size == tab_size,
    {
        Config { magic_comment_str, template_re, run_python, delete_python, tab_size }
    }

    /// The default template pattern: an expression between backticks.
    pub fn default_template_re() -> (r: String)
        ensures
            r@ == template_pattern(),
    {
        "`([^`]+)`".to_owned()
    }
}

impl Default for Config {
    fn default() -> (r: Self)
        ensures
            r.magic_comment_str@ == "!"@,
            r.template_re@ == template_pattern(),
            !r.run_python,
            !r.delete_python,
            r.tab_size == 4,
    {
        Config::new("!".to_owned(), Config::default_template_re(), false, false, 4)
    }
}

/// Index of the first `c` in `s` at or after `i`, or the length when none is left.
pub open spec fn find_char(s: Seq<char>, c: char, i: int) -> int
    decreases s.len() - i,
{
    if 0 <= i < s.len() && s[i] != c {
        find_char(s, c, i + 1)
    } else {
        i
    }
}

/// The text of the error for an argument without `=`.
pub open spec fn key_val_error(s: Seq<char>) -> Seq<char> {
    "invalid KEY=value: no `=` found in `"@ + s + "`"@
}

/// What `KEY=VALUE` splits into: the text before the first `=` and the text
/// after it, or the error text when there is no `=`.
pub open spec fn key_val_split(s: Seq<char>) -> Result<(Seq<char>, Seq<char>), Seq<char>> {
    let pos = find_char(s, '=', 0);
    if pos < s.len() {
        Ok((s.subrange(0, pos), s.subrange(pos + 1, s.len() as int)))
    } else {
        Err(key_val_error(s))
    }
}

/// Splits a `KEY=VALUE` argument at its first `=`.
pub fn parse_key_val(s: &str) -> (r: Result<(String, String), String>)
    ensures
        r matches Ok(kv) ==> key_val_split(s@) == Ok::<(Seq<char>, Seq<char>), Seq<char>>(
            (kv.0@, kv.1@),
        ),
        r matches Err(e) ==> key_val_split(s@) == Err::<(Seq<char>, Seq<char>), Seq<char>>(e@),
{
    let v = to_chars(s);
    let mut pos: usize = 0;
    while pos < v.len() && v[pos] != '='
        invariant
            pos <= v@.len(),
            find_char(v@, '=', pos as int) == find_char(v@, '=', 0),
        decreases v@.len() - pos,
    {
        pos = pos + 1;
    }
    if pos < v.len() {
        let mut key: Vec<char> = Vec::new();
        push_range(&mut key, &v, 0, pos);
        let mut val: Vec<char> = Vec::new();
        push_range(&mut val, &v, pos + 1, v.len());
        assert(key@ =~= v@.subrange(0, pos as int));
        assert(val@ =~= v@.subrange(pos + 1, v@.len() as int));
        Ok((from_chars(key.as_slice()), from_chars(val.as_slice())))
    } else {
        let mut msg: Vec<char> = Vec::new();
        push_str(&mut msg, "invalid KEY=value: no `=` found in `");
        push_str(&mut msg, s);
        push_str(&mut msg, "`");
        assert(msg@ =~= key_val_error(s@));
        Err(from_chars(msg.as_slice()))
    }
}

} // verus!
