//! The line classifier: a state machine that labels each source line.
use vstd::prelude::*;

use crate::text::{
    all_ws, has_prefix, is_ws, same_chars, skip_ws_from, starts_with, to_chars, trim_start,
    trim_start_chars,
};

verus! {

/// The kind of a source line, and the state the classifier carries to the next one.
#[derive(Debug, Clone, Copy, PartialEq, Eq, Structural)]
pub enum LineType {
    /// A line of HDL text, passed through.
    Verilog,
    /// An inline scripting line, `//` and the magic string.
    PythonInline,
    /// A line of a scripting block; `false` on its opening line only.
    PythonBlock(bool),
    /// Nothing to emit: the start state, and the closing line of a block.
    Idle,
}

impl Default for LineType {
    fn default() -> (r: Self)
        ensures
            r == LineType::Idle,
    {
        LineType::Idle
    }
}

/// The type of `line` given the type of the line before it: the closing `*/`
/// ends a block, any other line continues it; outside a block, `/*` or `//`
/// followed by the magic string (after leading whitespace) opens a block or
/// marks an inline scripting line, and anything else is HDL text.
pub open spec fn next_line_type(prev: LineType, line: Seq<char>, magic: Seq<char>) -> LineType {
    let t = trim_start(line);
    match prev {
        LineType::PythonBlock(_) => {
            if t == "*/"@ {
                LineType::Idle
            } else {
                LineType::PythonBlock(true)
            }
        },
        _ => {
            if starts_with(t, "/*"@ + magic) {
                LineType::PythonBlock(false)
            } else if starts_with(t, "//"@ + magic) {
                LineType::PythonInline
            } else {
                LineType::Verilog
            }
        },
    }
}

/// The type of `line` after a line of type `prev`.
pub fn classify(prev: LineType, line: &Vec<char>, magic: &str) -> (r: LineType)
    ensures
        r == next_line_type(prev, line@, magic@),
{
    let t = trim_start_chars(line);
    match prev {
        LineType::PythonBlock(_) => {
            if same_chars(&t, "*/") {
                LineType::Idle
            } else {
                LineType::PythonBlock(true)
            }
        },
        _ => {
            let mut block = to_chars("/*");
            let mut m = to_chars(magic);
            let mut m2 = to_chars(magic);
            block.append(&mut m);
            let mut inline = to_chars("//");
            inline.append(&mut m2);
            if has_prefix(&t, &block) {
                LineType::PythonBlock(false)
            } else if has_prefix(&t, &inline) {
                LineType::PythonInline
            } else {
                LineType::Verilog
            }
        },
    }
}


proof fn lemma_trim_start_ws_prefix(w: Seq<char>, rest: Seq<char>, i: int)
    requires
        all_ws(w),
        rest.len() > 0,
        !is_ws(rest[0]),
        0 <= i <= w.len(),
    ensures
        skip_ws_from(w + rest, i) == w.len(),
    decreases w.len() - i,
{
    if i < w.len() {
        lemma_trim_start_ws_prefix(w, rest, i + 1);
    } else {
        assert((w + rest)[i] == rest[0]);
    }
}

/// Outside a block, whitespace before the inline marker does not change the
/// classification: the line is inline scripting.
pub proof fn lemma_inline_after_whitespace(prev: LineType, w: Seq<char>, magic: Seq<char>, rest: Seq<char>)
    requires
        !(prev is PythonBlock),
        all_ws(w),
    ensures
        next_line_type(prev, w + "//"@ + magic + rest, magic) == LineType::PythonInline,
{
    reveal_strlit("//");
    reveal_strlit("/*");
    let marked = "//"@ + magic + rest;
    let line = w + marked;
    assert(marked[0] == '/');
    assert(!is_ws('/'));
    lemma_trim_start_ws_prefix(w, marked, 0);
    assert(trim_start(line) =~= marked);
    assert(w + "//"@ + magic + rest =~= line);
    assert(marked.subrange(0, 2 + magic.len() as int) =~= "//"@ + magic);
    assert(starts_with(marked, "//"@ + magic));
    assert(marked[1] == '/');
    assert(("/*"@ + magic)[1] == '*');
    if starts_with(marked, "/*"@ + magic) {
        assert(marked.subrange(0, 2 + magic.len() as int)[1] == '/');
    }
}

/// Inside a block every line but the closing `*/` continues the block, and
/// `*/` returns the classifier to idle.
pub proof fn lemma_block_lines(b: bool, line: Seq<char>, magic: Seq<char>)
    ensures
        trim_start(line) != "*/"@ ==> next_line_type(LineType::PythonBlock(b), line, magic)
            == LineType::PythonBlock(true),
        trim_start(line) == "*/"@ ==> next_line_type(LineType::PythonBlock(b), line, magic)
            == LineType::Idle,
{
}

/// Outside a block the type of a line depends on the line alone, so a line
/// after `*/` is classified as any line outside a block is.
pub proof fn lemma_outside_block_independent(
    p: LineType,
    q: LineType,
    line: Seq<char>,
    magic: Seq<char>,
)
    requires
        !(p is PythonBlock),
        !(q is PythonBlock),
    ensures
        next_line_type(p, line, magic) == next_line_type(q, line, magic),
{
}

} // verus!
