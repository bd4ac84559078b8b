//! Template substitution and escaping: turning a line of HDL text into the
//! body of a single-quoted, brace-interpolated print statement.
use vstd::prelude::*;

use crate::text::{from_chars, replace_chars, replaced, to_chars};

verus! {

/// What one character becomes in the escaped form.
pub open spec fn escape_char(c: char) -> Seq<char> {
    if c == '\'' {
        seq!['\\', '\'']
    } else if c == '{' {
        seq!['{', '{']
    } else if c == '}' {
        seq!['}', '}']
    } else {
        seq![c]
    }
}

/// Single quotes preceded by a backslash, braces doubled, all else kept.
pub open spec fn escaped(s: Seq<char>) -> Seq<char>
    decreases s.len(),
{
    if s.len() == 0 {
        Seq::empty()
    } else {
        escape_char(s[0]) + escaped(s.drop_first())
    }
}

/// Undoes the escaping: a backslash-quote, `{{` or `}}` pair stands for its
/// second character.
pub open spec fn unescaped(s: Seq<char>) -> Seq<char>
    decreases s.len(),
{
    if s.len() == 0 {
        Seq::empty()
    } else if s.len() >= 2 && ((s[0] == '\\' && s[1] == '\'') || (s[0] == '{' && s[1] == '{') || (
    s[0] == '}' && s[1] == '}')) {
        seq![s[1]] + unescaped(s.subrange(2, s.len() as int))
    } else {
        seq![s[0]] + unescaped(s.drop_first())
    }
}

pub proof fn lemma_escaped_push(s: Seq<char>, c: char)
    ensures
        escaped(s.push(c)) == escaped(s) + escape_char(c),
    decreases s.len(),
{
    if s.len() == 0 {
        assert(s.push(c).drop_first() =~= Seq::<char>::empty());
        assert(s.push(c)[0] == c);
        assert(escaped(Seq::<char>::empty()) =~= Seq::<char>::empty());
        assert(escaped(s) =~= Seq::<char>::empty());
        assert(escaped(s.push(c)) =~= escape_char(c) + Seq::<char>::empty());
    } else {
        assert(s.push(c).drop_first() =~= s.drop_first().push(c));
        lemma_escaped_push(s.drop_first(), c);
        assert(s.push(c)[0] == s[0]);
        assert(escaped(s.push(c)) =~= escaped(s) + escape_char(c));
    }
}

proof fn lemma_escaped_head(s: Seq<char>)
    requires
        escaped(s).len() > 0,
    ensures
        escaped(s)[0] != '\'',
{
    assert(escaped(s)[0] == escape_char(s[0])[0]);
}

/// Escaping loses nothing: un-escaping the escaped form gives the input back.
pub proof fn lemma_unescape_escaped(s: Seq<char>)
    ensures
        unescaped(escaped(s)) == s,
    decreases s.len(),
{
    if s.len() > 0 {
        let c = s[0];
        let e = escaped(s.drop_first());
        let t = escape_char(c) + e;
        assert(escaped(s) == t);
        lemma_unescape_escaped(s.drop_first());
        if c == '\'' || c == '{' || c == '}' {
            assert(t.subrange(2, t.len() as int) =~= e);
        } else {
            if e.len() > 0 {
                lemma_escaped_head(s.drop_first());
                assert(t[1] == e[0]);
            }
            assert(t.drop_first() =~= e);
        }
        assert(s =~= seq![c] + s.drop_first());
    }
}

/// The escaped form of `line`.
pub fn escape_line(line: &Vec<char>) -> (r: Vec<char>)
    ensures
        r@ == escaped(line@),
{
    let mut out: Vec<char> = Vec::new();
    let mut i: usize = 0;
    while i < line.len()
        invariant
            i <= line@.len(),
            out@ == escaped(line@.subrange(0, i as int)),
        decreases line@.len() - i,
    {
        let c = line[i];
        if c == '\'' {
            out.push('\\');
            out.push('\'');
        } else if c == '{' {
            out.push('{');
            out.push('{');
        } else if c == '}' {
            out.push('}');
            out.push('}');
        } else {
            out.push(c);
        }
        proof {
            assert(line@.subrange(0, i + 1) =~= line@.subrange(0, i as int).push(c));
            lemma_escaped_push(line@.subrange(0, i as int), c);
            assert(out@ =~= escaped(line@.subrange(0, i as int)) + escape_char(c));
        }
        i = i + 1;
    }
    assert(line@.subrange(0, line@.len() as int) =~= line@);
    out
}

/// Index of the first backtick at or after `i`, or the length when none is left.
pub open spec fn next_tick(s: Seq<char>, i: int) -> int
    decreases s.len() - i,
{
    if 0 <= i < s.len() && s[i] != '`' {
        next_tick(s, i + 1)
    } else {
        i
    }
}

/// Every backtick-delimited expression (one or more characters, no backtick
/// inside) rewritten as `pre + expression + post`, scanning from the left.
pub open spec fn tick_subst(s: Seq<char>, pre: Seq<char>, post: Seq<char>) -> Seq<char>
    decreases s.len(),
{
    if s.len() == 0 {
        Seq::empty()
    } else if s[0] == '`' && 1 < next_tick(s, 1) < s.len() {
        let j = next_tick(s, 1);
        pre + s.subrange(1, j) + post + tick_subst(s.subrange(j + 1, s.len() as int), pre, post)
    } else {
        seq![s[0]] + tick_subst(s.drop_first(), pre, post)
    }
}

/// Whether `s` holds none of the characters that escaping or substitution touch.
pub open spec fn plain_text(s: Seq<char>) -> bool {
    forall|i: int| 0 <= i < s.len() ==> s[i] != '\'' && s[i] != '{' && s[i] != '}' && s[i] != '`'
}

/// Text without special characters is left as it is by escaping and by
/// substitution.
pub proof fn lemma_plain_text_unchanged(s: Seq<char>, pre: Seq<char>, post: Seq<char>)
    requires
        plain_text(s),
    ensures
        escaped(s) == s,
        tick_subst(s, pre, post) == s,
    decreases s.len(),
{
    if s.len() > 0 {
        assert(plain_text(s.drop_first()));
        lemma_plain_text_unchanged(s.drop_first(), pre, post);
        assert(s =~= seq![s[0]] + s.drop_first());
    }
}

proof fn lemma_next_tick_skips(s: Seq<char>, i: int, j: int)
    requires
        0 <= i <= j <= s.len(),
        forall|m: int| i <= m < j ==> s[m] != '`',
    ensures
        next_tick(s, i) == next_tick(s, j),
    decreases j - i,
{
    if i < j {
        lemma_next_tick_skips(s, i + 1, j);
    }
}

/// A template expression anywhere in a line: with no backtick before it, the
/// expression `e` between backticks becomes exactly `pre + e + post`, and the
/// rest of the line is substituted on its own.
pub proof fn lemma_tick_subst_expr(
    a: Seq<char>,
    e: Seq<char>,
    b: Seq<char>,
    pre: Seq<char>,
    post: Seq<char>,
)
    requires
        forall|i: int| 0 <= i < a.len() ==> a[i] != '`',
        e.len() > 0,
        forall|i: int| 0 <= i < e.len() ==> e[i] != '`',
    ensures
        tick_subst(a + seq!['`'] + e + seq!['`'] + b, pre, post) == a + pre + e + post
            + tick_subst(b, pre, post),
    decreases a.len(),
{
    let s = a + seq!['`'] + e + seq!['`'] + b;
    if a.len() > 0 {
        lemma_tick_subst_expr(a.drop_first(), e, b, pre, post);
        assert(s.drop_first() =~= a.drop_first() + seq!['`'] + e + seq!['`'] + b);
        assert(s[0] == a[0]);
        assert(a + pre + e + post + tick_subst(b, pre, post) =~= seq![a[0]] + (a.drop_first()
            + pre + e + post + tick_subst(b, pre, post)));
    } else {
        let n = e.len() as int;
        assert(s =~= seq!['`'] + e + seq!['`'] + b);
        lemma_next_tick_skips(s, 1, n + 1);
        assert(s[n + 1] == '`');
        assert(next_tick(s, n + 1) == n + 1);
        assert(s.subrange(1, n + 1) =~= e);
        assert(s.subrange(n + 2, s.len() as int) =~= b);
        assert(a + pre + e + post =~= pre + e + post);
    }
}

/// The default template pattern: a backtick-delimited run of non-backticks.
pub open spec fn template_pattern() -> Seq<char> {
    "`([^`]+)`"@
}

pub open spec fn left_sentinel() -> Seq<char> {
    "__LEFT_BRACKET__{"@
}

pub open spec fn right_sentinel() -> Seq<char> {
    "}__RIGHT_BRACKET__"@
}

/// Whether `pattern` is accepted by the regular-expression compiler.
pub uninterp spec fn regex_compiles(pattern: Seq<char>) -> bool;

/// The text `replace_all` produces for a compiled `pattern`, a `text` and a
/// replacement template `rep` (where `$1` stands for the first group).
pub uninterp spec fn regex_replaced(pattern: Seq<char>, text: Seq<char>, rep: Seq<char>) -> Seq<
    char,
>;

/// Relies on `regex::Regex::new`, which fails exactly on patterns it cannot
/// compile, and `Regex::replace_all`, which replaces the leftmost
/// non-overlapping matches and expands `$1` to the first group. For the
/// default pattern a match is a backtick, one or more non-backticks and a
/// backtick, so `{$1}` gives `{expr}` and the sentinel template gives the
/// expression between the sentinels.
#[verifier::external_body]
fn regex_replace_all(pattern: &str, text: &str, rep: &str) -> (r: Option<String>)
    ensures
        r is Some <==> regex_compiles(pattern@),
        r is Some ==> r->0@ == regex_replaced(pattern@, text@, rep@),
        pattern@ == template_pattern() ==> r is Some,
        pattern@ == group_decl_pattern() ==> r is Some,
        pattern@ == group_entry_pattern() ==> r is Some,
        pattern@ == template_pattern() && rep@ == "{$1}"@ ==> r->0@ == tick_subst(
            text@,
            "{"@,
            "}"@,
        ),
        pattern@ == template_pattern() && rep@ == "__LEFT_BRACKET__{$1}__RIGHT_BRACKET__"@
            ==> r->0@ == tick_subst(text@, left_sentinel(), right_sentinel()),
{
    match regex::Regex::new(pattern) {
        Ok(re) => Some(re.replace_all(text, rep).into_owned()),
        Err(_) => None,
    }
}

/// A group declaration line in an INST block: `!name: value` and its line end.
pub open spec fn group_decl_pattern() -> Seq<char> {
    "!(\\w+):(.*)[\\r\\n$]"@
}

/// A serialized group entry: `__group_name: value` and its line end.
pub open spec fn group_entry_pattern() -> Seq<char> {
    "__group_\\w+:\\s*(.*)[\\r\\n$]"@
}

/// `pattern` applied to `text` with replacement template `rep`; `None` when the
/// pattern does not compile.
pub open spec fn regex_applied(pattern: Seq<char>, text: Seq<char>, rep: Seq<char>) -> Option<
    Seq<char>,
> {
    if regex_compiles(pattern) {
        Some(regex_replaced(pattern, text, rep))
    } else {
        None
    }
}

/// Every template expression of `text` as an interpolation field `{expr}`.
pub open spec fn braced(pattern: Seq<char>, text: Seq<char>) -> Option<Seq<char>> {
    if pattern == template_pattern() {
        Some(tick_subst(text, "{"@, "}"@))
    } else {
        regex_applied(pattern, text, "{$1}"@)
    }
}

/// Every template expression of `text` as a sentinel-wrapped field.
pub open spec fn protected(pattern: Seq<char>, text: Seq<char>) -> Option<Seq<char>> {
    if pattern == template_pattern() {
        Some(tick_subst(text, left_sentinel(), right_sentinel()))
    } else {
        regex_applied(pattern, text, "__LEFT_BRACKET__{$1}__RIGHT_BRACKET__"@)
    }
}

/// `pattern` applied to `text`; `None` when the pattern does not compile.
pub fn apply_regex(pattern: &str, text: &Vec<char>, rep: &str) -> (r: Option<Vec<char>>)
    ensures
        r matches Some(v) ==> Some(v@) == regex_applied(pattern@, text@, rep@),
        r is None <==> regex_applied(pattern@, text@, rep@) is None,
        pattern@ == group_decl_pattern() ==> r is Some,
        pattern@ == group_entry_pattern() ==> r is Some,
{
    let t = from_chars(text.as_slice());
    match regex_replace_all(pattern, t.as_str(), rep) {
        Some(s) => Some(to_chars(s.as_str())),
        None => None,
    }
}

/// Template expressions of `text` as `{expr}` fields.
pub fn apply_braced(pattern: &str, text: &Vec<char>) -> (r: Option<Vec<char>>)
    ensures
        r matches Some(v) ==> Some(v@) == braced(pattern@, text@),
        r is None <==> braced(pattern@, text@) is None,
{
    let t = from_chars(text.as_slice());
    match regex_replace_all(pattern, t.as_str(), "{$1}") {
        Some(s) => Some(to_chars(s.as_str())),
        None => None,
    }
}

/// Template expressions of `text` as sentinel-wrapped fields.
pub fn apply_protected(pattern: &str, text: &Vec<char>) -> (r: Option<Vec<char>>)
    ensures
        r matches Some(v) ==> Some(v@) == protected(pattern@, text@),
        r is None <==> protected(pattern@, text@) is None,
{
    let t = from_chars(text.as_slice());
    match regex_replace_all(pattern, t.as_str(), "__LEFT_BRACKET__{$1}__RIGHT_BRACKET__") {
        Some(s) => Some(to_chars(s.as_str())),
        None => None,
    }
}

/// The sentinels around protected fields removed, restoring plain braces.
pub open spec fn unprotected(s: Seq<char>) -> Seq<char> {
    replaced(replaced(s, left_sentinel(), "{"@), right_sentinel(), "}"@)
}

pub fn undo_protection(s: &Vec<char>) -> (r: Vec<char>)
    ensures
        r@ == unprotected(s@),
{
    let l = to_chars("__LEFT_BRACKET__{");
    let r = to_chars("}__RIGHT_BRACKET__");
    let open_brace = to_chars("{");
    let close_brace = to_chars("}");
    proof {
        reveal_strlit("__LEFT_BRACKET__{");
        reveal_strlit("}__RIGHT_BRACKET__");
    }
    let a = replace_chars(s, &l, &open_brace);
    replace_chars(&a, &r, &close_brace)
}

/// Each single quote preceded by a backslash.
pub open spec fn quote_escaped(s: Seq<char>) -> Seq<char> {
    replaced(s, "'"@, "\\'"@)
}

pub fn escape_quotes(s: &Vec<char>) -> (r: Vec<char>)
    ensures
        r@ == quote_escaped(s@),
{
    let q = to_chars("'");
    let e = to_chars("\\'");
    proof {
        reveal_strlit("'");
    }
    replace_chars(s, &q, &e)
}

/// Whether `c` does not occur in `s`.
pub open spec fn lacks(s: Seq<char>, c: char) -> bool {
    forall|i: int| 0 <= i < s.len() ==> s[i] != c
}

proof fn lemma_replaced_at_pattern(pat: Seq<char>, u: Seq<char>, rep: Seq<char>)
    requires
        pat.len() > 0,
    ensures
        replaced(pat + u, pat, rep) == rep + replaced(u, pat, rep),
{
    let s = pat + u;
    assert(s.subrange(0, pat.len() as int) =~= pat);
    assert(s.subrange(pat.len() as int, s.len() as int) =~= u);
}

/// Text without the pattern's first character: no match starts inside it.
proof fn lemma_replaced_skip_first(t: Seq<char>, u: Seq<char>, pat: Seq<char>, rep: Seq<char>)
    requires
        pat.len() > 0,
        lacks(t, pat[0]),
    ensures
        replaced(t + u, pat, rep) == t + replaced(u, pat, rep),
    decreases t.len(),
{
    if t.len() > 0 {
        let s = t + u;
        assert(s.drop_first() =~= t.drop_first() + u);
        lemma_replaced_skip_first(t.drop_first(), u, pat, rep);
        if s.len() >= pat.len() {
            assert(s.subrange(0, pat.len() as int)[0] != pat[0]);
        } else {
            assert(replaced(u, pat, rep) == u);
            assert(replaced(t.drop_first() + u, pat, rep) == t.drop_first() + u);
        }
        assert(t + replaced(u, pat, rep) =~= seq![t[0]] + (t.drop_first() + replaced(
            u,
            pat,
            rep,
        )));
    } else {
        assert(t + u =~= u);
        assert(t + replaced(u, pat, rep) =~= replaced(u, pat, rep));
    }
}

/// Text without the pattern's last character, before text in which that
/// character comes late enough: no match starts inside the first text.
proof fn lemma_replaced_skip_last(t: Seq<char>, u: Seq<char>, pat: Seq<char>, rep: Seq<char>)
    requires
        pat.len() > 0,
        forall|i: int| 0 <= i < pat.len() - 1 ==> pat[i] != pat.last(),
        lacks(t, pat.last()),
        forall|k: int| 0 <= k < pat.len() - 1 && k < u.len() ==> u[k] != pat.last(),
    ensures
        replaced(t + u, pat, rep) == t + replaced(u, pat, rep),
    decreases t.len(),
{
    if t.len() > 0 {
        let s = t + u;
        let n = pat.len() as int;
        assert(s.drop_first() =~= t.drop_first() + u);
        lemma_replaced_skip_last(t.drop_first(), u, pat, rep);
        if s.len() >= n {
            let w = s.subrange(0, n);
            if n - 1 < t.len() {
                assert(w[n - 1] == t[n - 1]);
            } else {
                assert(w[n - 1] == u[n - 1 - t.len()]);
            }
            assert(w[n - 1] != pat[n - 1]);
        } else {
            assert(replaced(u, pat, rep) == u);
            assert(replaced(t.drop_first() + u, pat, rep) == t.drop_first() + u);
        }
        assert(t + replaced(u, pat, rep) =~= seq![t[0]] + (t.drop_first() + replaced(
            u,
            pat,
            rep,
        )));
    } else {
        assert(t + u =~= u);
        assert(t + replaced(u, pat, rep) =~= replaced(u, pat, rep));
    }
}

proof fn lemma_sentinel_chars()
    ensures
        left_sentinel().len() == 17,
        left_sentinel().last() == '{',
        forall|i: int| 0 <= i < 16 ==> left_sentinel()[i] != '{',
        lacks(left_sentinel(), '}'),
        right_sentinel().len() == 18,
        right_sentinel()[0] == '}',
        lacks(right_sentinel(), '{'),
{
    reveal_strlit("__LEFT_BRACKET__{");
    reveal_strlit("}__RIGHT_BRACKET__");
}

/// The protected form of brace-free text has no `{` among its first 16
/// characters.
proof fn lemma_protected_head(s: Seq<char>)
    requires
        lacks(s, '{'),
    ensures
        forall|k: int| 0 <= k < 16 && k < tick_subst(s, left_sentinel(), right_sentinel()).len()
            ==> tick_subst(s, left_sentinel(), right_sentinel())[k] != '{',
    decreases s.len(),
{
    lemma_sentinel_chars();
    let l = left_sentinel();
    let r = right_sentinel();
    if s.len() > 0 {
        if s[0] == '`' && 1 < next_tick(s, 1) < s.len() {
            let j = next_tick(s, 1);
            let x = tick_subst(s, l, r);
            assert(x == l + s.subrange(1, j) + r + tick_subst(s.subrange(j + 1, s.len() as int), l, r));
            assert forall|k: int| 0 <= k < 16 && k < x.len() implies x[k] != '{' by {
                assert(x[k] == l[k]);
            }
        } else {
            assert(lacks(s.drop_first(), '{'));
            lemma_protected_head(s.drop_first());
            let t = tick_subst(s.drop_first(), l, r);
            let x = tick_subst(s, l, r);
            assert(x == seq![s[0]] + t);
            assert forall|k: int| 0 <= k < 16 && k < x.len() implies x[k] != '{' by {
                if k > 0 {
                    assert(x[k] == t[k - 1]);
                }
            }
        }
    }
}

proof fn lemma_strip_left(s: Seq<char>)
    requires
        lacks(s, '{'),
        lacks(s, '}'),
    ensures
        replaced(tick_subst(s, left_sentinel(), right_sentinel()), left_sentinel(), "{"@)
            == tick_subst(s, "{"@, right_sentinel()),
    decreases s.len(),
{
    lemma_sentinel_chars();
    let l = left_sentinel();
    let r = right_sentinel();
    let o = "{"@;
    if s.len() > 0 {
        if s[0] == '`' && 1 < next_tick(s, 1) < s.len() {
            let j = next_tick(s, 1);
            let e = s.subrange(1, j);
            let rest = s.subrange(j + 1, s.len() as int);
            let t = tick_subst(rest, l, r);
            assert(lacks(rest, '{') && lacks(rest, '}'));
            lemma_strip_left(rest);
            lemma_protected_head(rest);
            assert(l + e + r + t =~= l + ((e + r) + t));
            lemma_replaced_at_pattern(l, (e + r) + t, o);
            assert(lacks(e + r, '{'));
            lemma_replaced_skip_last(e + r, t, l, o);
            assert(o + ((e + r) + tick_subst(rest, o, r)) =~= o + e + r + tick_subst(rest, o, r));
        } else {
            let t = tick_subst(s.drop_first(), l, r);
            assert(lacks(s.drop_first(), '{') && lacks(s.drop_first(), '}'));
            lemma_strip_left(s.drop_first());
            lemma_protected_head(s.drop_first());
            lemma_replaced_skip_last(seq![s[0]], t, l, o);
        }
    }
}

proof fn lemma_strip_right(s: Seq<char>)
    requires
        lacks(s, '{'),
        lacks(s, '}'),
    ensures
        replaced(tick_subst(s, "{"@, right_sentinel()), right_sentinel(), "}"@) == tick_subst(
            s,
            "{"@,
            "}"@,
        ),
    decreases s.len(),
{
    lemma_sentinel_chars();
    reveal_strlit("{");
    let r = right_sentinel();
    let o = "{"@;
    let c = "}"@;
    if s.len() > 0 {
        if s[0] == '`' && 1 < next_tick(s, 1) < s.len() {
            let j = next_tick(s, 1);
            let e = s.subrange(1, j);
            let rest = s.subrange(j + 1, s.len() as int);
            let t = tick_subst(rest, o, r);
            assert(lacks(rest, '{') && lacks(rest, '}'));
            lemma_strip_right(rest);
            assert(o + e + r + t =~= (o + e) + (r + t));
            assert(lacks(o + e, '}'));
            lemma_replaced_skip_first(o + e, r + t, r, c);
            lemma_replaced_at_pattern(r, t, c);
            assert((o + e) + (c + tick_subst(rest, o, c)) =~= o + e + c + tick_subst(rest, o, c));
        } else {
            let t = tick_subst(s.drop_first(), o, r);
            assert(lacks(s.drop_first(), '{') && lacks(s.drop_first(), '}'));
            lemma_strip_right(s.drop_first());
            lemma_replaced_skip_first(seq![s[0]], t, r, c);
        }
    }
}

/// For text without braces, removing the sentinels from the protected form of
/// the default substitution gives the plain form.
pub proof fn lemma_unprotect_protected(s: Seq<char>)
    requires
        lacks(s, '{'),
        lacks(s, '}'),
    ensures
        unprotected(tick_subst(s, left_sentinel(), right_sentinel())) == tick_subst(s, "{"@, "}"@),
{
    lemma_strip_left(s);
    lemma_strip_right(s);
}

} // verus!
