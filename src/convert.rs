//! The conversion orchestrator: one pass over the source lines that drives the
//! classifier, the substitution engine and the INST compiler, and produces the
//! text of the generator program.
use vstd::prelude::*;

use crate::classify::{classify, next_line_type, LineType};
use crate::config::{Config, FileOptions};
use crate::error::{ConvertError, ErrorKind};
use crate::escape::{
    apply_braced, apply_protected, braced, escape_line, escape_quotes, escaped,
    lemma_plain_text_unchanged, plain_text, protected, quote_escaped, template_pattern,
    undo_protection, unprotected,
};
use crate::inst::{inst_result, print_inst};
use crate::text::{
    all_ws, chars_from, lemma_leading_ws_prefix, lemma_skip_ws_bounds, lemma_trim_empty_iff, chars_till, count_leading_ws, from_chars, from_index, leading_ws, push_spaces,
    push_str, replace_chars, replaced, same_chars, slice_chars, spaces, till_index, to_chars,
    trim, trim_chars, trim_end, trim_end_chars, trim_start, trim_start_chars,
};

verus! {

/// The mutable state of one conversion pass.
pub struct Session {
    /// The type of the last line.
    pub line_type: LineType,
    /// Whether a non-empty inline scripting line has been seen.
    pub first_py_line: bool,
    /// The indentation that the first inline scripting line locked.
    pub py_indent: usize,
    /// Whether an INST block is open.
    pub within_inst: bool,
    /// The text collected in the open INST block.
    pub inst_str: Vec<char>,
    /// The indentation of the open INST block's statements.
    pub inst_indent: usize,
}

pub struct SessionModel {
    pub line_type: LineType,
    pub first_py_line: bool,
    pub py_indent: usize,
    pub within_inst: bool,
    pub inst_str: Seq<char>,
    pub inst_indent: usize,
}

impl View for Session {
    type V = SessionModel;

    open spec fn view(&self) -> SessionModel {
        SessionModel {
            line_type: self.line_type,
            first_py_line: self.first_py_line,
            py_indent: self.py_indent,
            within_inst: self.within_inst,
            inst_str: self.inst_str@,
            inst_indent: self.inst_indent,
        }
    }
}

/// The state a pass starts in.
pub open spec fn initial_session() -> SessionModel {
    SessionModel {
        line_type: LineType::Idle,
        first_py_line: false,
        py_indent: 0,
        within_inst: false,
        inst_str: Seq::empty(),
        inst_indent: 0,
    }
}

impl Session {
    pub fn new() -> (r: Session)
        ensures
            r@ == initial_session(),
    {
        Session {
            line_type: LineType::Idle,
            first_py_line: false,
            py_indent: 0,
            within_inst: false,
            inst_str: Vec::new(),
            inst_indent: 0,
        }
    }
}

/// A step's result: the next state and the text emitted, or the error's kind.
pub type StepResult = Result<(SessionModel, Seq<char>), ErrorKind>;

/// A line of scripting content, `prior` the indentation already required of
/// it. `<INST>` opens a block (its indentation beyond `prior` indents the
/// block's statements); `</INST>` closes it and emits what compiling the
/// collected text gives; any other line, from column `prior` on, is collected
/// into an open block or else emitted as it is.
pub open spec fn python_step(pattern: Seq<char>, s: SessionModel, line: Seq<char>, prior: usize) -> StepResult {
    let t = trim(line);
    if t == "<INST>"@ {
        let all = leading_ws(line);
        if all < prior {
            Err(ErrorKind::InstIndent)
        } else if s.within_inst {
            Err(ErrorKind::NestedInst)
        } else {
            let ind = (all - prior) as usize;
            Ok(
                (
                    SessionModel { within_inst: true, inst_indent: ind, ..s },
                    spaces(ind as nat) + "print('// INST')\n"@,
                ),
            )
        }
    } else if t == "</INST>"@ {
        if !s.within_inst {
            Err(ErrorKind::UnmatchedEnd)
        } else {
            match inst_result(pattern, s.inst_str, s.inst_indent as nat) {
                Err(k) => Err(k),
                Ok(text) => Ok(
                    (
                        SessionModel {
                            within_inst: false,
                            inst_str: Seq::empty(),
                            inst_indent: 0,
                            ..s
                        },
                        text + spaces(s.inst_indent as nat) + "print('// END of INST')\n"@,
                    ),
                ),
            }
        }
    } else {
        let u = chars_from(line, prior as int);
        if s.within_inst {
            Ok((SessionModel { inst_str: s.inst_str + u + "\n"@, ..s }, Seq::empty()))
        } else {
            Ok((s, u + "\n"@))
        }
    }
}

/// An HDL line without quotes, braces or backticks is printed unchanged under
/// the default pattern.
pub proof fn lemma_plain_line_passes_through(line: Seq<char>)
    requires
        plain_text(line),
    ensures
        verilog_stmt(template_pattern(), line) == Some("print(f'"@ + line + "')\n"@),
{
    lemma_plain_text_unchanged(line, "{"@, "}"@);
}

/// INST blocks do not nest: `<INST>` while a block is open is an error.
pub proof fn lemma_nested_inst_fails(pattern: Seq<char>, s: SessionModel, line: Seq<char>, prior: usize)
    requires
        trim(line) == "<INST>"@,
        s.within_inst,
    ensures
        python_step(pattern, s, line, prior) is Err,
        leading_ws(line) >= prior ==> python_step(pattern, s, line, prior) == Err::<
            (SessionModel, Seq<char>),
            ErrorKind,
        >(ErrorKind::NestedInst),
{
}

/// `</INST>` while no block is open is an error.
pub proof fn lemma_unmatched_end_fails(pattern: Seq<char>, s: SessionModel, line: Seq<char>, prior: usize)
    requires
        trim(line) == "</INST>"@,
        !s.within_inst,
    ensures
        python_step(pattern, s, line, prior) == Err::<(SessionModel, Seq<char>), ErrorKind>(
            ErrorKind::UnmatchedEnd,
        ),
{
    reveal_strlit("<INST>");
    reveal_strlit("</INST>");
    assert(trim(line) != "<INST>"@) by {
        assert("<INST>"@.len() != "</INST>"@.len());
    }
}

/// A raw line made ready: trailing whitespace dropped, each tab replaced by
/// `tab` spaces.
pub open spec fn preprocessed(raw: Seq<char>, tab: u32) -> Seq<char> {
    replaced(trim_end(raw), seq!['\t'], spaces(tab as nat))
}

/// The statement that prints an HDL line, or `None` when the pattern does not
/// compile.
pub open spec fn verilog_stmt(pattern: Seq<char>, line: Seq<char>) -> Option<Seq<char>> {
    match braced(pattern, escaped(line)) {
        Some(b) => Some("print(f'"@ + b + "')\n"@),
        None => None,
    }
}

/// One raw source line processed in state `s`.
pub open spec fn line_step(cfg: Config, s: SessionModel, raw: Seq<char>) -> StepResult {
    let line = preprocessed(raw, cfg.tab_size);
    let lt = next_line_type(s.line_type, line, cfg.magic_comment_str@);
    let s1 = SessionModel { line_type: lt, ..s };
    match lt {
        LineType::PythonBlock(true) => python_step(cfg.template_re@, s1, line, 0),
        LineType::PythonInline => {
            let l = inline_content(cfg, line);
            let s2 = if !s1.first_py_line && l.len() > 0 {
                SessionModel { first_py_line: true, py_indent: leading_ws(l) as usize, ..s1 }
            } else {
                s1
            };
            if trim(chars_till(l, s2.py_indent as int)).len() > 0 {
                Err(ErrorKind::PyIndent(s2.py_indent))
            } else {
                python_step(cfg.template_re@, s2, l, s2.py_indent)
            }
        },
        LineType::Verilog => match verilog_stmt(cfg.template_re@, line) {
            Some(stmt) => Ok((s1, stmt)),
            None => Err(ErrorKind::BadPattern),
        },
        _ => Ok((s1, Seq::empty())),
    }
}

/// The text of an inline scripting line after its marker.
pub open spec fn inline_content(cfg: Config, line: Seq<char>) -> Seq<char> {
    chars_from(trim_start(line), 2 + cfg.magic_comment_str@.len() as int)
}

proof fn lemma_python_step_keeps_lock(pattern: Seq<char>, s: SessionModel, line: Seq<char>, prior: usize)
    ensures
        python_step(pattern, s, line, prior) matches Ok((s2, _)) ==> s2.first_py_line
            == s.first_py_line && s2.py_indent == s.py_indent && s2.line_type == s.line_type,
        !(python_step(pattern, s, line, prior) matches Err(ErrorKind::PyIndent(_))),
{
}

/// The indentation lock of inline scripting. The first non-empty inline line
/// locks the indentation at its leading whitespace and is never rejected for
/// it; after that, a line is rejected exactly when a character before the
/// locked column is not whitespace, and an accepted ordinary line outside an
/// INST block is copied from the locked column on.
pub proof fn lemma_indentation_lock(cfg: Config, s: SessionModel, raw: Seq<char>)
    requires
        next_line_type(s.line_type, preprocessed(raw, cfg.tab_size), cfg.magic_comment_str@)
            == LineType::PythonInline,
        preprocessed(raw, cfg.tab_size).len() <= usize::MAX,
    ensures
        ({
            let l = inline_content(cfg, preprocessed(raw, cfg.tab_size));
            &&& (!s.first_py_line && l.len() > 0) ==> {
                &&& !(line_step(cfg, s, raw) matches Err(ErrorKind::PyIndent(_)))
                &&& line_step(cfg, s, raw) matches Ok((s2, _)) ==> s2.first_py_line
                    && s2.py_indent == leading_ws(l)
            }
            &&& s.first_py_line ==> (line_step(cfg, s, raw) == Err::<
                (SessionModel, Seq<char>),
                ErrorKind,
            >(ErrorKind::PyIndent(s.py_indent)) <==> !all_ws(chars_till(l, s.py_indent as int)))
            &&& (s.first_py_line && all_ws(chars_till(l, s.py_indent as int)) && !s.within_inst
                && trim(l) != "<INST>"@ && trim(l) != "</INST>"@) ==> line_step(cfg, s, raw)
                == Ok::<(SessionModel, Seq<char>), ErrorKind>(
                (
                    SessionModel { line_type: LineType::PythonInline, ..s },
                    chars_from(l, s.py_indent as int) + "\n"@,
                ),
            )
        }),
{
    let line = preprocessed(raw, cfg.tab_size);
    let l = inline_content(cfg, line);
    let s1 = SessionModel { line_type: LineType::PythonInline, ..s };
    assert(l.len() <= line.len()) by {
        lemma_skip_ws_bounds(line, 0);
    }
    if !s.first_py_line && l.len() > 0 {
        let n = leading_ws(l);
        lemma_leading_ws_prefix(l);
        let s2 = SessionModel { first_py_line: true, py_indent: n as usize, ..s1 };
        assert(all_ws(chars_till(l, n as int))) by {
            if n as int >= l.len() {
                assert(l.subrange(0, n as int) =~= l);
            }
        }
        lemma_trim_empty_iff(chars_till(l, n as int));
        lemma_python_step_keeps_lock(cfg.template_re@, s2, l, s2.py_indent);
    }
    if s.first_py_line {
        lemma_trim_empty_iff(chars_till(l, s.py_indent as int));
        lemma_python_step_keeps_lock(cfg.template_re@, s1, l, s.py_indent);
    }
}

/// The pass over `lines`: the final state and all text emitted, or the first
/// error.
pub open spec fn run(cfg: Config, lines: Seq<Seq<char>>) -> StepResult
    decreases lines.len(),
{
    if lines.len() == 0 {
        Ok((initial_session(), Seq::empty()))
    } else {
        match run(cfg, lines.drop_last()) {
            Ok((s, acc)) => match line_step(cfg, s, lines.last()) {
                Ok((s2, out)) => Ok((s2, acc + out)),
                Err(k) => Err(k),
            },
            Err(k) => Err(k),
        }
    }
}

proof fn lemma_line_step_keeps_lock(cfg: Config, s: SessionModel, raw: Seq<char>)
    requires
        s.first_py_line,
    ensures
        line_step(cfg, s, raw) matches Ok((s2, _)) ==> s2.first_py_line && s2.py_indent
            == s.py_indent,
{
    let line = preprocessed(raw, cfg.tab_size);
    let lt = next_line_type(s.line_type, line, cfg.magic_comment_str@);
    let s1 = SessionModel { line_type: lt, ..s };
    lemma_python_step_keeps_lock(cfg.template_re@, s1, line, 0);
    lemma_python_step_keeps_lock(cfg.template_re@, s1, inline_content(cfg, line), s.py_indent);
}

/// Over a whole pass the lock is never re-established: once a prefix of the
/// lines has locked the indentation, every longer prefix that the pass gets
/// through keeps it, so each later inline line is checked against, and sliced
/// at, the same column.
pub proof fn lemma_lock_kept_over_pass(cfg: Config, lines: Seq<Seq<char>>, i: int, j: int)
    requires
        0 <= i <= j <= lines.len(),
        run(cfg, lines.subrange(0, i)) matches Ok((s, _)) && s.first_py_line,
        run(cfg, lines.subrange(0, j)) is Ok,
    ensures
        run(cfg, lines.subrange(0, j))->Ok_0.0.first_py_line,
        run(cfg, lines.subrange(0, j))->Ok_0.0.py_indent == run(
            cfg,
            lines.subrange(0, i),
        )->Ok_0.0.py_indent,
    decreases j - i,
{
    if j > i {
        let p = lines.subrange(0, j);
        assert(p.drop_last() =~= lines.subrange(0, j - 1));
        assert(run(cfg, lines.subrange(0, j - 1)) is Ok);
        lemma_lock_kept_over_pass(cfg, lines, i, j - 1);
        lemma_line_step_keeps_lock(cfg, run(cfg, lines.subrange(0, j - 1))->Ok_0.0, p.last());
    }
}

/// A line without its line ending: a carriage return before the line feed.
pub open spec fn strip_cr(l: Seq<char>) -> Seq<char> {
    if l.len() > 0 && l.last() == '\r' {
        l.drop_last()
    } else {
        l
    }
}

/// Index of the first line feed at or after `i`, or the length.
pub open spec fn next_lf(s: Seq<char>, i: int) -> int
    decreases s.len() - i,
{
    if 0 <= i < s.len() && s[i] != '\n' {
        next_lf(s, i + 1)
    } else {
        i
    }
}

/// The lines of `s`, split at `\n` or `\r\n`; a final line ending is optional.
pub open spec fn lines_of(s: Seq<char>) -> Seq<Seq<char>>
    decreases s.len(),
{
    if s.len() == 0 {
        Seq::empty()
    } else {
        let j = next_lf(s, 0);
        if 0 <= j < s.len() {
            seq![strip_cr(s.subrange(0, j))] + lines_of(s.subrange(j + 1, s.len() as int))
        } else {
            seq![s]
        }
    }
}

proof fn lemma_next_lf_shift(s: Seq<char>, i: int, k: int)
    requires
        0 <= i <= s.len(),
        0 <= k,
    ensures
        next_lf(s.subrange(i, s.len() as int), k) == next_lf(s, i + k) - i,
    decreases s.len() - i - k,
{
    let t = s.subrange(i, s.len() as int);
    if k < t.len() && t[k] != '\n' {
        lemma_next_lf_shift(s, i, k + 1);
    }
}

pub open spec fn lines_view(v: Seq<Vec<char>>) -> Seq<Seq<char>> {
    v.map_values(|l: Vec<char>| l@)
}

/// The lines of `s`, as `str::lines` gives them.
pub fn split_lines(s: &Vec<char>) -> (r: Vec<Vec<char>>)
    ensures
        lines_view(r@) == lines_of(s@),
{
    let mut acc: Vec<Vec<char>> = Vec::new();
    let mut i: usize = 0;
    assert(s@.subrange(0, s@.len() as int) =~= s@);
    while i < s.len()
        invariant
            i <= s@.len(),
            lines_of(s@) == lines_view(acc@) + lines_of(s@.subrange(i as int, s@.len() as int)),
        decreases s@.len() - i,
    {
        let ghost rest = s@.subrange(i as int, s@.len() as int);
        let mut j: usize = i;
        while j < s.len() && s[j] != '\n'
            invariant
                i <= j <= s@.len(),
                next_lf(s@, j as int) == next_lf(s@, i as int),
            decreases s@.len() - j,
        {
            j = j + 1;
        }
        proof {
            lemma_next_lf_shift(s@, i as int, 0);
        }
        if j < s.len() {
            let mut end = j;
            if end > i && s[end - 1] == '\r' {
                end = end - 1;
            }
            let line = slice_chars(s, i, end);
            proof {
                let head = rest.subrange(0, j - i);
                assert(head =~= s@.subrange(i as int, j as int));
                assert(rest.subrange(j - i + 1, rest.len() as int) =~= s@.subrange(
                    j + 1,
                    s@.len() as int,
                ));
                if end < j {
                    assert(strip_cr(head) =~= line@);
                } else {
                    assert(strip_cr(head) =~= line@);
                }
            }
            let ghost acc0 = lines_view(acc@);
            let ghost after = s@.subrange(j + 1, s@.len() as int);
            acc.push(line);
            proof {
                assert(lines_view(acc@) =~= acc0.push(line@));
                assert(acc0 + (seq![line@] + lines_of(after)) =~= lines_view(acc@) + lines_of(
                    after,
                ));
            }
            i = j + 1;
        } else {
            let line = slice_chars(s, i, s.len());
            let ghost acc0 = lines_view(acc@);
            acc.push(line);
            proof {
                assert(lines_view(acc@) =~= acc0.push(line@));
                assert(s@.subrange(s@.len() as int, s@.len() as int) =~= Seq::<char>::empty());
                assert(acc0 + seq![rest] =~= lines_view(acc@) + Seq::<Seq<char>>::empty());
            }
            i = s.len();
        }
    }
    assert(s@.subrange(i as int, s@.len() as int) =~= Seq::<char>::empty());
    assert(lines_view(acc@) + Seq::<Seq<char>>::empty() =~= lines_view(acc@));
    acc
}

/// The helper routines that every generated program starts with, after the
/// statement that opens the metadata file.
pub const HELPERS: &'static str = "', 'w')
def _inst_var_map(tuples):
    s = ['%s: %s\\n' % tuple for tuple in tuples]
    return '    '.join(s)

def _verilog_ports_var_map(tuples, first_port):
    s = ['  .%s(%s)' % tuple for tuple in tuples]
    return ('' if first_port else ',\\n') + ',\\n'.join(s)

def _verilog_vparams_var_map(tuples, first_vparam):
    s = ['\\n  parameter %s = %s' % tuple for tuple in tuples]
    return ('#(' if first_vparam else ',') + ','.join(s)


";

/// The start of a generated program: the metadata file `inst_file` opened for
/// writing, then the helper routines.
pub open spec fn header(inst_file: Seq<char>) -> Seq<char> {
    "_inst_file = open('"@ + inst_file + HELPERS@
}

/// The end of a generated program.
pub open spec fn footer() -> Seq<char> {
    "_inst_file.close()\n"@
}

/// The generated program for `lines`, or the first error.
pub open spec fn program_text(cfg: Config, inst_file: Seq<char>, lines: Seq<Seq<char>>) -> Result<
    Seq<char>,
    ErrorKind,
> {
    match run(cfg, lines) {
        Ok((_, body)) => Ok(header(inst_file) + body + footer()),
        Err(k) => Err(k),
    }
}

/// A step's result as the executable code returns it.
pub open spec fn step_outcome(r: &Result<Vec<char>, ConvertError>, s: SessionModel) -> StepResult {
    match r {
        Ok(v) => Ok((s, v@)),
        Err(e) => Err(e.kind),
    }
}

pub open spec fn convert_outcome(r: &Result<String, ConvertError>) -> Result<Seq<char>, ErrorKind> {
    match r {
        Ok(s) => Ok(s@),
        Err(e) => Err(e.kind),
    }
}

proof fn lemma_run_err_persists(cfg: Config, lines: Seq<Seq<char>>, n: int, k: ErrorKind)
    requires
        0 <= n <= lines.len(),
        run(cfg, lines.subrange(0, n)) == Err::<(SessionModel, Seq<char>), ErrorKind>(k),
    ensures
        run(cfg, lines) == Err::<(SessionModel, Seq<char>), ErrorKind>(k),
    decreases lines.len() - n,
{
    if n < lines.len() {
        assert(lines.subrange(0, n + 1).drop_last() =~= lines.subrange(0, n));
        lemma_run_err_persists(cfg, lines, n + 1, k);
    } else {
        assert(lines.subrange(0, n) =~= lines);
    }
}

/// Which INST marker a scripting line is.
#[derive(Debug, Clone, Copy, PartialEq, Eq, Structural)]
pub enum InstState {
    Plain,
    Begin,
    End,
}

pub open spec fn inst_state_of(line: Seq<char>) -> InstState {
    if trim(line) == "<INST>"@ {
        InstState::Begin
    } else if trim(line) == "</INST>"@ {
        InstState::End
    } else {
        InstState::Plain
    }
}

/// The extension of the file name of path `p`, empty when it has none; path
/// components are split at the separators of the platform built for.
pub uninterp spec fn path_extension(p: Seq<char>) -> Seq<char>;

/// Relies on `std::path::Path::extension`: the extension of the file name of
/// `p`, or empty when there is none.
#[verifier::external_body]
fn extension_of(p: &str) -> (r: String)
    ensures
        r@ == path_extension(p@),
{
    std::path::Path::new(p).extension().and_then(|e| e.to_str()).unwrap_or("").to_owned()
}

pub open spec fn opt_view(o: Option<String>) -> Option<Seq<char>> {
    match o {
        Some(s) => Some(s@),
        None => None,
    }
}

/// The name of the HDL output: the given output, or else the input with its
/// extension (every occurrence of that text) replaced by `v`, or `.v` appended
/// when it has none.
pub open spec fn output_name(input: Seq<char>, output: Option<Seq<char>>) -> Seq<char> {
    match output {
        Some(o) => o,
        None => {
            let ext = path_extension(input);
            if ext.len() == 0 {
                input + ".v"@
            } else {
                replaced(input, ext, "v"@)
            }
        },
    }
}

/// A converter of templated sources into generator programs.
pub struct Convert {
    pub config: Config,
    pub file_options: FileOptions,
}

impl Default for Convert {
    fn default() -> (r: Self)
        ensures
            r.config.magic_comment_str@ == "!"@,
            r.config.template_re@ == template_pattern(),
            !r.config.run_python,
            !r.config.delete_python,
            r.config.tab_size == 4,
            r.file_options.input@ == Seq::<char>::empty(),
            r.file_options.output is None,
    {
        Convert::new(Config::default(), FileOptions::default())
    }
}

impl Convert {
    pub fn new(config: Config, file_options: FileOptions) -> (r: Convert)
        ensures
            r.config == config,
            r.file_options == file_options,
    {
        Convert { config, file_options }
    }

    /// The name of the HDL output file.
    pub fn output_file_name(&self) -> (r: String)
        ensures
            r@ == output_name(self.file_options.input@, opt_view(self.file_options.output)),
    {
        match &self.file_options.output {
            Some(o) => o.clone(),
            None => {
                let input = to_chars(self.file_options.input.as_str());
                let ext = to_chars(extension_of(self.file_options.input.as_str()).as_str());
                if ext.len() == 0 {
                    let mut out = input;
                    push_str(&mut out, ".v");
                    from_chars(out.as_slice())
                } else {
                    let v = to_chars("v");
                    from_chars(replace_chars(&input, &ext, &v).as_slice())
                }
            },
        }
    }

    /// The name of the generated program: the HDL output's name and `.py`.
    pub fn output_python_file_name(&self) -> (r: String)
        ensures
            r@ == output_name(self.file_options.input@, opt_view(self.file_options.output))
                + ".py"@,
    {
        let mut n = to_chars(self.output_file_name().as_str());
        push_str(&mut n, ".py");
        from_chars(n.as_slice())
    }

    /// The name of the metadata file: the HDL output's name and `.inst`.
    pub fn output_inst_file_name(&self) -> (r: String)
        ensures
            r@ == output_name(self.file_options.input@, opt_view(self.file_options.output))
                + ".inst"@,
    {
        let mut n = to_chars(self.output_file_name().as_str());
        push_str(&mut n, ".inst");
        from_chars(n.as_slice())
    }

    /// Moves the classifier on by one line.
    pub fn switch_line_type(&self, line_type: &mut LineType, line: &str)
        ensures
            *final(line_type) == next_line_type(
                *old(line_type),
                line@,
                self.config.magic_comment_str@,
            ),
    {
        let l = to_chars(line);
        *line_type = classify(*line_type, &l, self.config.magic_comment_str.as_str());
    }

    fn preprocess(&self, raw: &Vec<char>) -> (r: Vec<char>)
        ensures
            r@ == preprocessed(raw@, self.config.tab_size),
    {
        let trimmed = trim_end_chars(raw);
        let mut tab: Vec<char> = Vec::new();
        tab.push('\t');
        let mut sp: Vec<char> = Vec::new();
        push_spaces(&mut sp, self.config.tab_size as usize);
        assert(tab@ =~= seq!['\t']);
        replace_chars(&trimmed, &tab, &sp)
    }

    /// Drops trailing whitespace and replaces each tab by `tab_size` spaces.
    pub fn pre_process_line(&self, line: &str) -> (r: String)
        ensures
            r@ == preprocessed(line@, self.config.tab_size),
    {
        from_chars(self.preprocess(&to_chars(line)).as_slice())
    }

    /// Escapes single quotes and braces of an HDL line.
    pub fn escape_verilog(&self, line: &str) -> (r: String)
        ensures
            r@ == escaped(line@),
    {
        from_chars(escape_line(&to_chars(line)).as_slice())
    }

    /// Rewrites each template expression as an interpolation field `{expr}`;
    /// a pattern that does not compile leaves the line as it is.
    pub fn apply_verilog_regex(&self, line: &str) -> (r: String)
        ensures
            r@ == match braced(self.config.template_re@, line@) {
                Some(b) => b,
                None => line@,
            },
    {
        match apply_braced(self.config.template_re.as_str(), &to_chars(line)) {
            Some(b) => from_chars(b.as_slice()),
            None => line.to_owned(),
        }
    }

    /// Rewrites each template expression as a sentinel-wrapped field; a
    /// pattern that does not compile leaves the line as it is.
    pub fn apply_protected_verilog_regex(&self, line: &str) -> (r: String)
        ensures
            r@ == match protected(self.config.template_re@, line@) {
                Some(b) => b,
                None => line@,
            },
    {
        match apply_protected(self.config.template_re.as_str(), &to_chars(line)) {
            Some(b) => from_chars(b.as_slice()),
            None => line.to_owned(),
        }
    }

    /// Removes the sentinels around protected fields.
    pub fn undo_protected_brackets(&self, s: &str) -> (r: String)
        ensures
            r@ == unprotected(s@),
    {
        from_chars(undo_protection(&to_chars(s)).as_slice())
    }

    /// Puts a backslash before each single quote.
    pub fn escape_single_quote(&self, s: &str) -> (r: String)
        ensures
            r@ == quote_escaped(s@),
    {
        from_chars(escape_quotes(&to_chars(s)).as_slice())
    }

    /// Processes one line of scripting content, `prior` the indentation
    /// already required of it, as `python_step` says; an error leaves the
    /// session as it was.
    pub fn process_python_line(&self, line: &Vec<char>, prior: usize, session: &mut Session) -> (r:
        Result<Vec<char>, ConvertError>)
        ensures
            step_outcome(&r, final(session)@) == python_step(
                self.config.template_re@,
                old(session)@,
                line@,
                prior,
            ),
            r is Err ==> final(session)@ == old(session)@,
    {
        let ghost s0 = session@;
        let t = trim_chars(line);
        if same_chars(&t, "<INST>") {
            let all = count_leading_ws(line);
            if all < prior {
                return Err(ConvertError::new(ErrorKind::InstIndent));
            }
            if session.within_inst {
                return Err(ConvertError::new(ErrorKind::NestedInst));
            }
            let ind = all - prior;
            session.within_inst = true;
            session.inst_indent = ind;
            let mut out: Vec<char> = Vec::new();
            push_spaces(&mut out, ind);
            push_str(&mut out, "print('// INST')\n");
            Ok(out)
        } else if same_chars(&t, "</INST>") {
            if !session.within_inst {
                return Err(ConvertError::new(ErrorKind::UnmatchedEnd));
            }
            let res = print_inst(
                self.config.template_re.as_str(),
                &session.inst_str,
                session.inst_indent,
            );
            match res {
                Err(e) => Err(e),
                Ok(text) => {
                    let ind = session.inst_indent;
                    session.within_inst = false;
                    session.inst_str = Vec::new();
                    session.inst_indent = 0;
                    let mut out = text;
                    push_spaces(&mut out, ind);
                    push_str(&mut out, "print('// END of INST')\n");
                    assert(session@ == SessionModel {
                        within_inst: false,
                        inst_str: Seq::empty(),
                        inst_indent: 0,
                        ..s0
                    });
                    Ok(out)
                },
            }
        } else {
            let u = from_index(line, prior);
            if session.within_inst {
                let mut tail = u;
                tail.push('\n');
                session.inst_str.append(&mut tail);
                proof {
                    reveal_strlit("\n");
                    assert(session@.inst_str =~= s0.inst_str + chars_from(line@, prior as int)
                        + "\n"@);
                    assert(session@ == SessionModel {
                        inst_str: s0.inst_str + chars_from(line@, prior as int) + "\n"@,
                        ..s0
                    });
                }
                Ok(Vec::new())
            } else {
                let mut out = u;
                push_str(&mut out, "\n");
                Ok(out)
            }
        }
    }

    /// Processes one raw source line, as `line_step` says.
    pub fn process_line(&self, raw: &Vec<char>, session: &mut Session) -> (r: Result<
        Vec<char>,
        ConvertError,
    >)
        ensures
            step_outcome(&r, final(session)@) == line_step(self.config, old(session)@, raw@),
    {
        let line = self.preprocess(raw);
        let lt = classify(session.line_type, &line, self.config.magic_comment_str.as_str());
        session.line_type = lt;
        match lt {
            LineType::PythonBlock(true) => self.process_python_line(&line, 0, session),
            LineType::PythonInline => {
                let t = trim_start_chars(&line);
                let magic_len = to_chars(self.config.magic_comment_str.as_str()).len();
                let l = if magic_len <= usize::MAX - 2 {
                    from_index(&t, magic_len + 2)
                } else {
                    let tl = t.len();
                    assert(chars_from(t@, 2 + magic_len as int) =~= Seq::<char>::empty());
                    Vec::new()
                };
                if !session.first_py_line && l.len() > 0 {
                    session.first_py_line = true;
                    session.py_indent = count_leading_ws(&l);
                }
                let head = trim_chars(&till_index(&l, session.py_indent));
                if head.len() > 0 {
                    return Err(
                        ConvertError::with_detail(
                            ErrorKind::PyIndent(session.py_indent),
                            from_chars(l.as_slice()),
                        ),
                    );
                }
                let indent = session.py_indent;
                self.process_python_line(&l, indent, session)
            },
            LineType::Verilog => {
                let esc = escape_line(&line);
                match apply_braced(self.config.template_re.as_str(), &esc) {
                    Some(b) => {
                        let mut out: Vec<char> = Vec::new();
                        push_str(&mut out, "print(f'");
                        let mut b = b;
                        out.append(&mut b);
                        push_str(&mut out, "')\n");
                        Ok(out)
                    },
                    None => Err(ConvertError::new(ErrorKind::BadPattern)),
                }
            },
            _ => Ok(Vec::new()),
        }
    }

    /// Converts a whole source text into the text of its generator program:
    /// the header that opens the metadata file and defines the helpers, the
    /// statements of every line, and the statement that closes the file; or
    /// the first error. A scripting block or an INST block still open at the
    /// end of the input is accepted as it stands.
    pub fn convert(&self, input: &str) -> (r: Result<String, ConvertError>)
        ensures
            convert_outcome(&r) == program_text(
                self.config,
                output_name(self.file_options.input@, opt_view(self.file_options.output))
                    + ".inst"@,
                lines_of(input@),
            ),
    {
        let ghost cfg = self.config;
        let inst_file = self.output_inst_file_name();
        let lines = split_lines(&to_chars(input));
        let ghost lv = lines_view(lines@);
        let mut session = Session::new();
        let mut body: Vec<char> = Vec::new();
        let mut i: usize = 0;
        while i < lines.len()
            invariant
                i <= lines@.len(),
                lv == lines_view(lines@),
                lv == lines_of(input@),
                cfg == self.config,
                run(cfg, lv.subrange(0, i as int)) == Ok::<(SessionModel, Seq<char>), ErrorKind>(
                    (session@, body@),
                ),
            decreases lines@.len() - i,
        {
            let res = self.process_line(&lines[i], &mut session);
            proof {
                assert(lv.subrange(0, i + 1).drop_last() =~= lv.subrange(0, i as int));
                assert(lv.subrange(0, i + 1).last() == lines@[i as int]@);
            }
            match res {
                Ok(v) => {
                    let mut v = v;
                    body.append(&mut v);
                },
                Err(e) => {
                    proof {
                        lemma_run_err_persists(cfg, lv, i + 1, e.kind);
                    }
                    return Err(e);
                },
            }
            i = i + 1;
        }
        let mut out: Vec<char> = Vec::new();
        push_str(&mut out, "_inst_file = open('");
        push_str(&mut out, inst_file.as_str());
        push_str(&mut out, HELPERS);
        out.append(&mut body);
        push_str(&mut out, "_inst_file.close()\n");
        proof {
            assert(lv.subrange(0, i as int) =~= lv);
        }
        Ok(from_chars(out.as_slice()))
    }

    /// Which INST marker `line` is, if any.
    pub fn inst_state(&self, line: &str) -> (r: InstState)
        ensures
            r == inst_state_of(line@),
    {
        let t = trim_chars(&to_chars(line));
        if same_chars(&t, "<INST>") {
            InstState::Begin
        } else if same_chars(&t, "</INST>") {
            InstState::End
        } else {
            InstState::Plain
        }
    }
}

} // verus!
