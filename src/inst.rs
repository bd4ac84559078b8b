//! The INST block compiler: a block of structured text describing one module
//! instantiation becomes statements that write the instantiation to the HDL
//! output and its normalized record to the metadata file.
use vstd::prelude::*;

use crate::error::{ConvertError, ErrorKind};
use crate::escape::{
    apply_protected, apply_regex, escape_quotes, group_decl_pattern, group_entry_pattern,
    protected, quote_escaped, regex_applied, undo_protection, unprotected,
};
use crate::text::{from_chars, has_prefix, push_spaces, push_str, spaces, starts_with, to_chars};

verus! {

/// What the block's document says, as plain text.
pub struct InstDoc {
    /// The module to instantiate.
    pub module: String,
    /// The name of the instance.
    pub name: String,
    /// The parameter entries, in document order.
    pub vparams: Vec<(String, String)>,
    /// The port entries, in document order.
    pub ports: Vec<(String, String)>,
}

pub struct InstDocModel {
    pub module: Seq<char>,
    pub name: Seq<char>,
    pub vparams: Seq<(Seq<char>, Seq<char>)>,
    pub ports: Seq<(Seq<char>, Seq<char>)>,
}

pub open spec fn entries_view(v: Seq<(String, String)>) -> Seq<(Seq<char>, Seq<char>)> {
    v.map_values(|p: (String, String)| (p.0@, p.1@))
}

impl View for InstDoc {
    type V = InstDocModel;

    open spec fn view(&self) -> InstDocModel {
        InstDocModel {
            module: self.module@,
            name: self.name@,
            vparams: entries_view(self.vparams@),
            ports: entries_view(self.ports@),
        }
    }
}

/// A key that names a group, whose value is computed when the generated
/// program runs and yields a list of (name, value) pairs.
pub open spec fn is_group_key(k: Seq<char>) -> bool {
    starts_with(k, "__group_"@)
}

pub open spec fn flag_text(first: bool) -> Seq<char> {
    if first {
        "True"@
    } else {
        "False"@
    }
}

/// The statement for one parameter entry: a group goes through the parameter
/// helper; a literal entry prints `#(` when first, `,` otherwise, and then
/// `\n  parameter KEY = VALUE`.
pub open spec fn vparam_stmt(ind: nat, k: Seq<char>, v: Seq<char>, first: bool) -> Seq<char> {
    if is_group_key(k) {
        spaces(ind) + "print(_verilog_vparams_var_map("@ + v + ", "@ + flag_text(first)
            + "), end='')\n"@
    } else {
        spaces(ind) + "print(f'"@ + (if first {
            "#("@
        } else {
            ","@
        }) + "\\n  parameter "@ + quote_escaped(unprotected(k)) + " = "@ + quote_escaped(
            unprotected(v),
        ) + "', end='')\n"@
    }
}

/// The statement for one port entry: a group goes through the port helper; a
/// literal entry prints nothing when first, `,\n` otherwise, and then
/// `  .KEY(VALUE)`.
pub open spec fn port_stmt(ind: nat, k: Seq<char>, v: Seq<char>, first: bool) -> Seq<char> {
    if is_group_key(k) {
        spaces(ind) + "print(_verilog_ports_var_map("@ + v + ", "@ + flag_text(first)
            + "), end='')\n"@
    } else {
        spaces(ind) + "print(f'"@ + (if first {
            Seq::empty()
        } else {
            ",\\n"@
        }) + "  ."@ + quote_escaped(unprotected(k)) + "("@ + quote_escaped(unprotected(v))
            + ")', end='')\n"@
    }
}

/// The statements for a list of entries, the first entry alone marked first.
pub open spec fn entry_stmts(es: Seq<(Seq<char>, Seq<char>)>, ind: nat, ports: bool) -> Seq<char>
    decreases es.len(),
{
    if es.len() == 0 {
        Seq::empty()
    } else {
        let e = es.last();
        entry_stmts(es.drop_last(), ind, ports) + if ports {
            port_stmt(ind, e.0, e.1, es.len() == 1)
        } else {
            vparam_stmt(ind, e.0, e.1, es.len() == 1)
        }
    }
}

/// Position decides the separators: entry `i` of a list is rendered as the
/// first entry exactly when `i` is 0, after the statements of the entries
/// before it; a group entry goes through the list's helper and a literal one
/// prints its own `.KEY(VALUE)`.
pub proof fn lemma_entry_positions(
    es: Seq<(Seq<char>, Seq<char>)>,
    ind: nat,
    ports: bool,
    i: int,
)
    requires
        0 <= i < es.len(),
    ensures
        entry_stmts(es.subrange(0, i + 1), ind, ports) == entry_stmts(es.subrange(0, i), ind, ports)
            + if ports {
            port_stmt(ind, es[i].0, es[i].1, i == 0)
        } else {
            vparam_stmt(ind, es[i].0, es[i].1, i == 0)
        },
{
    assert(es.subrange(0, i + 1).drop_last() =~= es.subrange(0, i));
}

/// A group entry of either list is a call of the list's helper, told whether
/// it comes first; it is never printed as a literal `.KEY(VALUE)` pair.
pub proof fn lemma_group_entry_uses_helper(ind: nat, k: Seq<char>, v: Seq<char>, first: bool)
    requires
        is_group_key(k),
    ensures
        vparam_stmt(ind, k, v, first) == spaces(ind) + "print(_verilog_vparams_var_map("@ + v
            + ", "@ + flag_text(first) + "), end='')\n"@,
        port_stmt(ind, k, v, first) == spaces(ind) + "print(_verilog_ports_var_map("@ + v + ", "@
            + flag_text(first) + "), end='')\n"@,
{
}

/// Everything an INST block emits, given its document and its normalized
/// record `listing`, indented by `ind` spaces.
pub open spec fn rendered(doc: InstDocModel, listing: Seq<char>, ind: nat) -> Seq<char> {
    spaces(ind) + "_inst_file.write(f'''"@ + listing + "''')\n"@ + spaces(ind) + "print(f'"@
        + unprotected(doc.module) + "', end='')\n"@ + entry_stmts(doc.vparams, ind, false) + (
    if doc.vparams.len() > 0 {
        spaces(ind) + "print(')')\n"@
    } else {
        Seq::empty()
    }) + spaces(ind) + "print(f' "@ + unprotected(doc.name) + " (')\n"@ + entry_stmts(
        doc.ports,
        ind,
        true,
    ) + spaces(ind) + "print(f'\\n);')\n"@
}

fn push_entry_stmt(out: &mut Vec<char>, ind: usize, k: &String, v: &String, first: bool, ports: bool)
    ensures
        final(out)@ == old(out)@ + if ports {
            port_stmt(ind as nat, k@, v@, first)
        } else {
            vparam_stmt(ind as nat, k@, v@, first)
        },
{
    let kc = to_chars(k.as_str());
    let vc = to_chars(v.as_str());
    let group = to_chars("__group_");
    let ghost start = out@;
    push_spaces(out, ind);
    if has_prefix(&kc, &group) {
        if ports {
            push_str(out, "print(_verilog_ports_var_map(");
        } else {
            push_str(out, "print(_verilog_vparams_var_map(");
        }
        push_str(out, v.as_str());
        push_str(out, ", ");
        if first {
            push_str(out, "True");
        } else {
            push_str(out, "False");
        }
        push_str(out, "), end='')\n");
        assert(out@ =~= start + if ports {
            port_stmt(ind as nat, k@, v@, first)
        } else {
            vparam_stmt(ind as nat, k@, v@, first)
        });
    } else {
        push_str(out, "print(f'");
        if ports {
            if !first {
                push_str(out, ",\\n");
            }
            push_str(out, "  .");
        } else {
            if first {
                push_str(out, "#(");
            } else {
                push_str(out, ",");
            }
            push_str(out, "\\n  parameter ");
        }
        let mut ek = escape_quotes(&undo_protection(&kc));
        out.append(&mut ek);
        if ports {
            push_str(out, "(");
        } else {
            push_str(out, " = ");
        }
        let mut ev = escape_quotes(&undo_protection(&vc));
        out.append(&mut ev);
        if ports {
            push_str(out, ")', end='')\n");
        } else {
            push_str(out, "', end='')\n");
        }
        assert(out@ =~= start + if ports {
            port_stmt(ind as nat, k@, v@, first)
        } else {
            vparam_stmt(ind as nat, k@, v@, first)
        });
    }
}

fn push_entry_stmts(out: &mut Vec<char>, ind: usize, es: &Vec<(String, String)>, ports: bool)
    ensures
        final(out)@ == old(out)@ + entry_stmts(entries_view(es@), ind as nat, ports),
{
    let ghost start = out@;
    let mut i: usize = 0;
    while i < es.len()
        invariant
            i <= es@.len(),
            out@ == start + entry_stmts(entries_view(es@.subrange(0, i as int)), ind as nat, ports),
        decreases es@.len() - i,
    {
        push_entry_stmt(out, ind, &es[i].0, &es[i].1, i == 0, ports);
        proof {
            let prev = entries_view(es@.subrange(0, i as int));
            let next = entries_view(es@.subrange(0, i + 1));
            assert(next.drop_last() =~= prev);
            assert(next.last() == (es@[i as int].0@, es@[i as int].1@));
            assert(out@ =~= start + entry_stmts(next, ind as nat, ports));
        }
        i = i + 1;
    }
    assert(es@.subrange(0, es@.len() as int) =~= es@);
}

/// The statements an INST block emits for `doc`, with `listing` as its
/// metadata record, indented by `ind` spaces.
pub fn render_inst(doc: &InstDoc, listing: &Vec<char>, ind: usize) -> (r: Vec<char>)
    ensures
        r@ == rendered(doc@, listing@, ind as nat),
{
    let mut out: Vec<char> = Vec::new();
    push_spaces(&mut out, ind);
    push_str(&mut out, "_inst_file.write(f'''");
    let mut l = listing.clone();
    out.append(&mut l);
    push_str(&mut out, "''')\n");
    push_spaces(&mut out, ind);
    push_str(&mut out, "print(f'");
    let mut m = undo_protection(&to_chars(doc.module.as_str()));
    out.append(&mut m);
    push_str(&mut out, "', end='')\n");
    push_entry_stmts(&mut out, ind, &doc.vparams, false);
    if doc.vparams.len() > 0 {
        push_spaces(&mut out, ind);
        push_str(&mut out, "print(')')\n");
    }
    push_spaces(&mut out, ind);
    push_str(&mut out, "print(f' ");
    let mut n = undo_protection(&to_chars(doc.name.as_str()));
    out.append(&mut n);
    push_str(&mut out, " (')\n");
    push_entry_stmts(&mut out, ind, &doc.ports, true);
    push_spaces(&mut out, ind);
    push_str(&mut out, "print(f'\\n);')\n");
    assert(out@ =~= rendered(doc@, listing@, ind as nat));
    out
}

/// A scalar of a parsed document, as far as the INST compiler reads it.
pub enum YamlScalar {
    /// A string.
    Text(String),
    /// A number, in its printed form.
    Number(String),
    /// A boolean.
    Bool(bool),
    /// Null, a sequence, a mapping or a tagged value.
    Other,
}

pub enum YamlScalarView {
    Text(Seq<char>),
    Number(Seq<char>),
    Bool(bool),
    Other,
}

impl View for YamlScalar {
    type V = YamlScalarView;

    open spec fn view(&self) -> YamlScalarView {
        match self {
            YamlScalar::Text(s) => YamlScalarView::Text(s@),
            YamlScalar::Number(s) => YamlScalarView::Number(s@),
            YamlScalar::Bool(b) => YamlScalarView::Bool(*b),
            YamlScalar::Other => YamlScalarView::Other,
        }
    }
}

/// A mapping entry of a parsed document: the key's text when the key is a
/// string, and the value as a scalar.
pub type RawEntry = (Option<String>, YamlScalar);

pub type RawEntryView = (Option<Seq<char>>, YamlScalarView);

pub open spec fn raw_entries_view(v: Seq<RawEntry>) -> Seq<RawEntryView> {
    v.map_values(
        |e: RawEntry|
            (
                match e.0 {
                    Some(k) => Some(k@),
                    None => None,
                },
                e.1@,
            ),
    )
}

/// The document `text` parsed and serialized again as the only item of a
/// sequence, or the message of the parser (or of the serializer).
pub uninterp spec fn yaml_listing_of(text: Seq<char>) -> Result<Seq<char>, Seq<char>>;

/// The string under `key` in the document `text`, if it is a string.
pub uninterp spec fn yaml_str_field_of(text: Seq<char>, key: Seq<char>) -> Option<Seq<char>>;

/// The entries of the mapping under `key` in the document `text`, in document
/// order, if there is such a mapping.
pub uninterp spec fn yaml_entries_of(text: Seq<char>, key: Seq<char>) -> Option<Seq<RawEntryView>>;

/// Relies on `serde_yaml::from_str` and `serde_yaml::to_string`: the parsed
/// document serialized as the only item of a sequence, or the error's message.
/// Both depend on the text alone.
#[verifier::external_body]
fn yaml_listing(text: &str) -> (r: Result<String, String>)
    ensures
        match r {
            Ok(s) => yaml_listing_of(text@) == Ok::<Seq<char>, Seq<char>>(s@),
            Err(m) => yaml_listing_of(text@) == Err::<Seq<char>, Seq<char>>(m@),
        },
{
    match serde_yaml::from_str::<serde_yaml::Value>(text) {
        Ok(v) => serde_yaml::to_string(&vec![v]).map_err(|e| e.to_string()),
        Err(e) => Err(e.to_string()),
    }
}

/// Relies on `serde_yaml::from_str`, indexing a `Value` by a key (null when
/// absent) and `Value::as_str`: the string under `key`, if any.
#[verifier::external_body]
fn yaml_str_field(text: &str, key: &str) -> (r: Option<String>)
    ensures
        match r {
            Some(s) => yaml_str_field_of(text@, key@) == Some(s@),
            None => yaml_str_field_of(text@, key@) is None,
        },
{
    let v: serde_yaml::Value = serde_yaml::from_str(text).ok()?;
    v[key].as_str().map(|s| s.to_owned())
}

/// Relies on `serde_yaml::from_str`, indexing a `Value` by a key,
/// `Value::as_mapping`, `Mapping::iter` and `Value::as_str`: the entries of the
/// mapping under `key`, each value told apart by its variant.
#[verifier::external_body]
fn yaml_entries(text: &str, key: &str) -> (r: Option<Vec<RawEntry>>)
    ensures
        match r {
            Some(v) => yaml_entries_of(text@, key@) == Some(raw_entries_view(v@)),
            None => yaml_entries_of(text@, key@) is None,
        },
{
    let v: serde_yaml::Value = serde_yaml::from_str(text).ok()?;
    let m = v[key].as_mapping()?;
    Some(m.iter().map(|(k, x)| (k.as_str().map(|s| s.to_owned()), match x {
        serde_yaml::Value::String(s) => YamlScalar::Text(s.clone()),
        serde_yaml::Value::Number(n) => YamlScalar::Number(n.to_string()),
        serde_yaml::Value::Bool(b) => YamlScalar::Bool(*b),
        _ => YamlScalar::Other,
    })).collect())
}

/// The text of a scalar: a string or a number as it is, a boolean as `true` or
/// `false`; nothing for other values.
pub open spec fn scalar_text(s: YamlScalarView) -> Option<Seq<char>> {
    match s {
        YamlScalarView::Text(t) => Some(t),
        YamlScalarView::Number(t) => Some(t),
        YamlScalarView::Bool(b) => Some(
            if b {
                "true"@
            } else {
                "false"@
            },
        ),
        YamlScalarView::Other => None,
    }
}

/// The text of a scalar value.
pub fn yaml_value_as_str(v: &YamlScalar) -> (r: Option<String>)
    ensures
        match r {
            Some(s) => scalar_text(v@) == Some(s@),
            None => scalar_text(v@) is None,
        },
{
    match v {
        YamlScalar::Text(s) => Some(s.clone()),
        YamlScalar::Number(s) => Some(s.clone()),
        YamlScalar::Bool(b) => Some(
            if *b {
                "true".to_owned()
            } else {
                "false".to_owned()
            },
        ),
        YamlScalar::Other => None,
    }
}

pub open spec fn entry_ok(e: RawEntryView) -> bool {
    e.0 is Some && scalar_text(e.1) is Some
}

/// The entries of a mapping as text pairs: none when there is no mapping;
/// `None` when an entry has no string key or no scalar value.
pub open spec fn text_pairs(es: Option<Seq<RawEntryView>>) -> Option<Seq<(Seq<char>, Seq<char>)>> {
    match es {
        None => Some(Seq::empty()),
        Some(es) => if forall|i: int| 0 <= i < es.len() ==> entry_ok(#[trigger] es[i]) {
            Some(es.map_values(|e: RawEntryView| (e.0->0, scalar_text(e.1)->0)))
        } else {
            None
        },
    }
}

/// The entries of the mapping under `key` in `text` as text pairs.
fn text_entries(text: &str, key: &str) -> (r: Option<Vec<(String, String)>>)
    ensures
        match r {
            Some(v) => text_pairs(yaml_entries_of(text@, key@)) == Some(entries_view(v@)),
            None => text_pairs(yaml_entries_of(text@, key@)) is None,
        },
{
    match yaml_entries(text, key) {
        None => {
            let r = Some(Vec::new());
            assert(entries_view(Seq::<(String, String)>::empty()) =~= Seq::empty());
            r
        },
        Some(es) => {
            let ghost ev = raw_entries_view(es@);
            let mut out: Vec<(String, String)> = Vec::new();
            let mut i: usize = 0;
            while i < es.len()
                invariant
                    i <= es@.len(),
                    ev == raw_entries_view(es@),
                    yaml_entries_of(text@, key@) == Some(ev),
                    forall|j: int| 0 <= j < i ==> entry_ok(#[trigger] ev[j]),
                    entries_view(out@) =~= ev.subrange(0, i as int).map_values(
                        |e: RawEntryView| (e.0->0, scalar_text(e.1)->0),
                    ),
                decreases es@.len() - i,
            {
                let ghost e = ev[i as int];
                assert(e.1 == es@[i as int].1@);
                match (&es[i].0, yaml_value_as_str(&es[i].1)) {
                    (Some(k), Some(x)) => {
                        let ghost before = entries_view(out@);
                        let kc = k.clone();
                        assert(e.0 == Some(k@));
                        out.push((kc, x));
                        assert(entry_ok(e));
                        assert(entries_view(out@) =~= before.push((k@, x@)));
                        assert(ev.subrange(0, i + 1) =~= ev.subrange(0, i as int).push(e));
                        assert(entries_view(out@) =~= ev.subrange(0, i + 1).map_values(
                            |e: RawEntryView| (e.0->0, scalar_text(e.1)->0),
                        ));
                    },
                    _ => {
                        assert(!entry_ok(ev[i as int]));
                        assert(yaml_entries_of(text@, key@) == Some(ev));
                        return None;
                    },
                }
                i = i + 1;
            }
            assert(ev.subrange(0, i as int) =~= ev);
            Some(out)
        },
    }
}


/// The replacement that turns a serialized group entry into a statement that
/// writes the group's pairs, one `name: value` line each, to the metadata file.
pub open spec fn group_entry_rep(ind: nat) -> Seq<char> {
    "''')\n"@ + spaces(ind) + "_inst_file.write(f'{_inst_var_map($1)}')\n"@ + spaces(ind)
        + "_inst_file.write(f'''"@
}

/// The block text with each group declaration `!name: value` turned into an
/// ordinary entry under the key `__group_name`.
pub open spec fn group_marked(text: Seq<char>) -> Seq<char> {
    regex_applied(group_decl_pattern(), text, "__group_$1:$2\n"@)->0
}

/// The metadata record written for a serialized document: sentinels removed,
/// group entries turned into writes of the group's pairs.
pub open spec fn record_of(serialized: Seq<char>, ind: nat) -> Seq<char> {
    regex_applied(group_entry_pattern(), unprotected(serialized), group_entry_rep(ind))->0
}

/// What a compilation returned, with the error reduced to its kind.
pub open spec fn inst_outcome(r: &Result<Vec<char>, ConvertError>) -> Result<Seq<char>, ErrorKind> {
    match r {
        Ok(v) => Ok(v@),
        Err(e) => Err(e.kind),
    }
}

/// Marks each group declaration `!name: value` of a block as an ordinary
/// entry under the key `__group_name`.
pub fn apply_protected_inst_group_regex(inst_str: &Vec<char>) -> (r: Vec<char>)
    ensures
        r@ == group_marked(inst_str@),
{
    apply_regex("!(\\w+):(.*)[\\r\\n$]", inst_str, "__group_$1:$2\n").unwrap()
}

/// Turns each serialized group entry of a metadata record into a statement,
/// indented by `ind` spaces, that writes the group's pairs.
pub fn inst_group_print_to_dot_inst(record: &Vec<char>, ind: usize) -> (r: Vec<char>)
    ensures
        r@ == regex_applied(group_entry_pattern(), record@, group_entry_rep(ind as nat))->0,
{
    let mut rep_chars: Vec<char> = Vec::new();
    push_str(&mut rep_chars, "''')\n");
    push_spaces(&mut rep_chars, ind);
    push_str(&mut rep_chars, "_inst_file.write(f'{_inst_var_map($1)}')\n");
    push_spaces(&mut rep_chars, ind);
    push_str(&mut rep_chars, "_inst_file.write(f'''");
    assert(rep_chars@ =~= group_entry_rep(ind as nat));
    let rep = from_chars(rep_chars.as_slice());
    apply_regex("__group_\\w+:\\s*(.*)[\\r\\n$]", record, rep.as_str()).unwrap()
}

/// What compiling the block `text` with indentation `ind` gives. The group
/// declarations are marked and the template expressions protected; the result
/// `g` is parsed. It fails, in this order, when the pattern does not compile,
/// when `g` does not parse, when there is no string `module`, when a `vparams`
/// entry is not a string key with a scalar value, when there is no string
/// `name`, and when a `ports` entry is not; otherwise it is the statements that
/// `rendered` gives for what `g` says, with the record of its serialization.
pub open spec fn inst_result(pattern: Seq<char>, text: Seq<char>, ind: nat) -> Result<
    Seq<char>,
    ErrorKind,
> {
    match protected(pattern, group_marked(text)) {
        None => Err(ErrorKind::BadPattern),
        Some(g) => match yaml_listing_of(g) {
            Err(_) => Err(ErrorKind::Yaml),
            Ok(listing) => match yaml_str_field_of(g, "module"@) {
                None => Err(ErrorKind::NoModule),
                Some(module) => match text_pairs(yaml_entries_of(g, "vparams"@)) {
                    None => Err(ErrorKind::InvalidVparams),
                    Some(vparams) => match yaml_str_field_of(g, "name"@) {
                        None => Err(ErrorKind::NoName),
                        Some(name) => match text_pairs(yaml_entries_of(g, "ports"@)) {
                            None => Err(ErrorKind::InvalidPorts),
                            Some(ports) => Ok(
                                rendered(
                                    InstDocModel { module, name, vparams, ports },
                                    record_of(listing, ind),
                                    ind,
                                ),
                            ),
                        },
                    },
                },
            },
        },
    }
}

/// Compiles the text of one INST block into statements indented by `ind`
/// spaces, as `inst_result` says; a document that does not parse gives the
/// parser's message.
pub fn print_inst(pattern: &str, inst_str: &Vec<char>, ind: usize) -> (r: Result<
    Vec<char>,
    ConvertError,
>)
    ensures
        inst_outcome(&r) == inst_result(pattern@, inst_str@, ind as nat),
        (r matches Err(e) && e.kind is Yaml) ==> yaml_listing_of(
            protected(pattern@, group_marked(inst_str@))->0,
        ) == Err::<Seq<char>, Seq<char>>(r->Err_0.detail@),
{
    let marked = apply_protected_inst_group_regex(inst_str);
    let guarded = match apply_protected(pattern, &marked) {
        Some(g) => from_chars(g.as_slice()),
        None => return Err(ConvertError::new(ErrorKind::BadPattern)),
    };
    let g = guarded.as_str();
    let serialized = match yaml_listing(g) {
        Ok(s) => to_chars(s.as_str()),
        Err(msg) => return Err(ConvertError::with_detail(ErrorKind::Yaml, msg)),
    };
    let record = inst_group_print_to_dot_inst(&undo_protection(&serialized), ind);
    let module = match yaml_str_field(g, "module") {
        Some(m) => m,
        None => return Err(ConvertError::new(ErrorKind::NoModule)),
    };
    let vparams = match text_entries(g, "vparams") {
        Some(es) => es,
        None => return Err(ConvertError::new(ErrorKind::InvalidVparams)),
    };
    let name = match yaml_str_field(g, "name") {
        Some(n) => n,
        None => return Err(ConvertError::new(ErrorKind::NoName)),
    };
    let ports = match text_entries(g, "ports") {
        Some(es) => es,
        None => return Err(ConvertError::new(ErrorKind::InvalidPorts)),
    };
    let doc = InstDoc { module, name, vparams, ports };
    let out = render_inst(&doc, &record, ind);
    Ok(out)
}

} // verus!
