//! The JSON document model and its pretty-printer.
//!
//! A fetched body is an arbitrary JSON value: nulls, booleans, numbers,
//! strings, ordered lists, and ordered key-value mappings. The document is
//! passed through unmodified except for pretty-printing with two-space
//! indentation. Numbers keep their canonical decimal token, so no
//! floating-point value is ever interpreted here.

use vstd::prelude::*;
use vstd::string::StrSliceExecFns;
use vstd::string::StringExecFns;
use crate::strutil::push_char;
use crate::runner::digit_char;
use crate::textspec::contains_seq;
use crate::textspec::lemma_contains_extend_left;
use crate::textspec::lemma_contains_extend_right;
use crate::textspec::lemma_contains_self;

verus! {

/// One JSON value. A number is held as its canonical decimal token; an
/// object is an ordered list of key-value entries with the keys as they
/// arrived.
#[derive(Debug, PartialEq, Eq)]
pub enum JsonValue {
    Null,
    Bool(bool),
    Num(String),
    Str(String),
    Arr(Vec<JsonValue>),
    Obj(Vec<(String, JsonValue)>),
}

/// The mathematical shape of a JSON value.
pub enum JsonTree {
    Null,
    Bool(bool),
    Num(Seq<char>),
    Str(Seq<char>),
    Arr(Seq<JsonTree>),
    Obj(Seq<(Seq<char>, JsonTree)>),
}

impl JsonValue {
    /// The mathematical shape of this value.
    pub open spec fn tree(self) -> JsonTree
        decreases self, 0int,
    {
        match self {
            JsonValue::Null => JsonTree::Null,
            JsonValue::Bool(b) => JsonTree::Bool(b),
            JsonValue::Num(t) => JsonTree::Num(t@),
            JsonValue::Str(s) => JsonTree::Str(s@),
            JsonValue::Arr(items) => JsonTree::Arr(trees_of(items@)),
            JsonValue::Obj(entries) => JsonTree::Obj(entry_trees_of(entries@)),
        }
    }
}

impl View for JsonValue {
    type V = JsonTree;

    open spec fn view(&self) -> JsonTree {
        self.tree()
    }
}

/// The shapes of a list of values, in order. The range test only serves the
/// termination argument: a position outside the sequence is never taken.
pub open spec fn trees_of(items: Seq<JsonValue>) -> Seq<JsonTree>
    decreases items, 1int,
{
    Seq::new(
        items.len(),
        |j: int|
            if 0 <= j < items.len() {
                items[j].tree()
            } else {
                JsonTree::Null
            },
    )
}

/// The shapes of a list of key-value entries, in order. The range test only
/// serves the termination argument, as in `trees_of`.
pub open spec fn entry_trees_of(entries: Seq<(String, JsonValue)>) -> Seq<(Seq<char>, JsonTree)>
    decreases entries, 1int,
{
    Seq::new(
        entries.len(),
        |j: int|
            if 0 <= j < entries.len() {
                (entries[j].0@, entries[j].1.tree())
            } else {
                (Seq::empty(), JsonTree::Null)
            },
    )
}

/// The hexadecimal digit character for a value below sixteen.
pub open spec fn hex_digit(d: nat) -> char {
    if d < 10 {
        digit_char(d)
    } else if d == 10 {
        'a'
    } else if d == 11 {
        'b'
    } else if d == 12 {
        'c'
    } else if d == 13 {
        'd'
    } else if d == 14 {
        'e'
    } else {
        'f'
    }
}

/// How one character stands inside a JSON string literal: quote, backslash
/// and the named control characters get a backslash escape, other control
/// characters a `\u00..` escape, everything else stands as itself.
pub open spec fn escape_char(c: char) -> Seq<char> {
    if c == '"' {
        seq!['\\', '"']
    } else if c == '\\' {
        seq!['\\', '\\']
    } else if c == '\n' {
        seq!['\\', 'n']
    } else if c == '\r' {
        seq!['\\', 'r']
    } else if c == '\t' {
        seq!['\\', 't']
    } else if (c as u32) < 32 {
        seq!['\\', 'u', '0', '0', hex_digit((c as u32 / 16) as nat), hex_digit((c as u32 % 16) as nat)]
    } else {
        seq![c]
    }
}

/// A string's characters, each escaped, in order.
pub open spec fn escape_str(s: Seq<char>) -> Seq<char>
    decreases s.len(),
{
    if s.len() == 0 {
        Seq::empty()
    } else {
        escape_char(s[0]) + escape_str(s.drop_first())
    }
}

/// A JSON string literal: the escaped characters between double quotes.
pub open spec fn quoted(s: Seq<char>) -> Seq<char> {
    seq!['"'] + escape_str(s) + seq!['"']
}

/// The pretty form of a value standing at indentation `ind`: scalars on one
/// line; a non-empty list or mapping opens its bracket, puts each element on
/// its own line two spaces deeper, and closes the bracket back at `ind`.
pub open spec fn render_spec(t: JsonTree, ind: Seq<char>) -> Seq<char>
    decreases t, 0int,
{
    match t {
        JsonTree::Null => "null"@,
        JsonTree::Bool(b) => if b {
            "true"@
        } else {
            "false"@
        },
        JsonTree::Num(tok) => tok,
        JsonTree::Str(s) => quoted(s),
        JsonTree::Arr(items) => if items.len() == 0 {
            "[]"@
        } else {
            seq!['['] + render_items(items, ind + seq![' ', ' ']) + seq!['\n'] + ind + seq![']']
        },
        JsonTree::Obj(entries) => if entries.len() == 0 {
            "{}"@
        } else {
            seq!['{'] + render_entries(entries, ind + seq![' ', ' ']) + seq!['\n'] + ind + seq!['}']
        },
    }
}

/// The lines of a non-empty list's elements at indentation `ind`: each on
/// its own line, comma-separated.
pub open spec fn render_items(items: Seq<JsonTree>, ind: Seq<char>) -> Seq<char>
    decreases items, 0int,
{
    if items.len() == 0 {
        Seq::empty()
    } else {
        let head = seq!['\n'] + ind + render_spec(items[0], ind);
        if items.len() == 1 {
            head
        } else {
            head + seq![','] + render_items(items.drop_first(), ind)
        }
    }
}

/// The lines of a non-empty mapping's entries at indentation `ind`: each
/// quoted key, a colon and a space, then the value, comma-separated.
pub open spec fn render_entries(entries: Seq<(Seq<char>, JsonTree)>, ind: Seq<char>) -> Seq<char>
    decreases entries, 0int,
{
    if entries.len() == 0 {
        Seq::empty()
    } else {
        let head = seq!['\n'] + ind + quoted(entries[0].0) + seq![':', ' '] + render_spec(
            entries[0].1,
            ind,
        );
        if entries.len() == 1 {
            head
        } else {
            head + seq![','] + render_entries(entries.drop_first(), ind)
        }
    }
}

/// The hexadecimal digit character for a value below sixteen, as executable
/// code.
fn hex_of(d: u32) -> (c: char)
    requires
        d < 16,
    ensures
        c == hex_digit(d as nat),
{
    if d == 0 {
        '0'
    } else if d == 1 {
        '1'
    } else if d == 2 {
        '2'
    } else if d == 3 {
        '3'
    } else if d == 4 {
        '4'
    } else if d == 5 {
        '5'
    } else if d == 6 {
        '6'
    } else if d == 7 {
        '7'
    } else if d == 8 {
        '8'
    } else if d == 9 {
        '9'
    } else if d == 10 {
        'a'
    } else if d == 11 {
        'b'
    } else if d == 12 {
        'c'
    } else if d == 13 {
        'd'
    } else if d == 14 {
        'e'
    } else {
        'f'
    }
}

/// Appends the escaped form of one character.
fn append_escaped_char(out: &mut String, c: char)
    ensures
        final(out)@ == old(out)@ + escape_char(c),
{
    if c == '"' {
        push_char(out, '\\');
        push_char(out, '"');
    } else if c == '\\' {
        push_char(out, '\\');
        push_char(out, '\\');
    } else if c == '\n' {
        push_char(out, '\\');
        push_char(out, 'n');
    } else if c == '\r' {
        push_char(out, '\\');
        push_char(out, 'r');
    } else if c == '\t' {
        push_char(out, '\\');
        push_char(out, 't');
    } else if (c as u32) < 32 {
        push_char(out, '\\');
        push_char(out, 'u');
        push_char(out, '0');
        push_char(out, '0');
        push_char(out, hex_of(c as u32 / 16));
        push_char(out, hex_of(c as u32 % 16));
    } else {
        push_char(out, c);
    }
    proof {
        assert(out@ =~= old(out)@ + escape_char(c));
    }
}

/// Appends the escaped characters of `s` from position `i` on.
fn append_escaped(out: &mut String, s: &str, i: usize)
    requires
        i <= s@.len(),
    ensures
        final(out)@ == old(out)@ + escape_str(s@.skip(i as int)),
    decreases s@.len() - i,
{
    if i == s.unicode_len() {
        proof {
            assert(s@.skip(i as int).len() == 0);
            assert(out@ =~= old(out)@ + escape_str(s@.skip(i as int)));
        }
    } else {
        let c = s.get_char(i);
        append_escaped_char(out, c);
        append_escaped(out, s, i + 1);
        proof {
            let rest = s@.skip(i as int);
            assert(rest[0] == s@[i as int]);
            assert(rest.drop_first() =~= s@.skip(i as int + 1));
            assert(out@ =~= old(out)@ + escape_str(s@.skip(i as int)));
        }
    }
}

/// Appends the JSON string literal for `s`.
fn append_quoted(out: &mut String, s: &str)
    ensures
        final(out)@ == old(out)@ + quoted(s@),
{
    push_char(out, '"');
    append_escaped(out, s, 0);
    push_char(out, '"');
    proof {
        assert(s@.skip(0) =~= s@);
        assert(out@ =~= old(out)@ + quoted(s@));
    }
}

/// The indentation one level deeper: two more spaces.
fn deeper_indent(ind: &str) -> (r: String)
    ensures
        r@ == ind@ + seq![' ', ' '],
{
    let mut s: String = ind.to_owned();
    s.append("  ");
    proof {
        reveal_strlit("  ");
        assert(s@ =~= ind@ + seq![' ', ' ']);
    }
    s
}

/// Appends the pretty form of a value standing at indentation `ind`.
fn render_value(v: &JsonValue, ind: &str, out: &mut String)
    ensures
        final(out)@ == old(out)@ + render_spec(v@, ind@),
    decreases v, 0int,
{
    match v {
        JsonValue::Null => {
            out.append("null");
        },
        JsonValue::Bool(b) => {
            if *b {
                out.append("true");
            } else {
                out.append("false");
            }
        },
        JsonValue::Num(tok) => {
            out.append(tok.as_str());
        },
        JsonValue::Str(s) => {
            append_quoted(out, s.as_str());
        },
        JsonValue::Arr(items) => {
            if items.len() == 0 {
                out.append("[]");
            } else {
                push_char(out, '[');
                let deeper = deeper_indent(ind);
                render_elems(items, 0, deeper.as_str(), out);
                push_char(out, '\n');
                out.append(ind);
                push_char(out, ']');
                proof {
                    assert(trees_of(items@).skip(0) =~= trees_of(items@));
                    assert(out@ =~= old(out)@ + render_spec(v@, ind@));
                }
            }
        },
        JsonValue::Obj(entries) => {
            if entries.len() == 0 {
                out.append("{}");
            } else {
                push_char(out, '{');
                let deeper = deeper_indent(ind);
                render_fields(entries, 0, deeper.as_str(), out);
                push_char(out, '\n');
                out.append(ind);
                push_char(out, '}');
                proof {
                    assert(entry_trees_of(entries@).skip(0) =~= entry_trees_of(entries@));
                    assert(out@ =~= old(out)@ + render_spec(v@, ind@));
                }
            }
        },
    }
}

/// Appends the element lines of a list from position `i` on.
fn render_elems(items: &Vec<JsonValue>, i: usize, ind: &str, out: &mut String)
    requires
        i < items@.len(),
    ensures
        final(out)@ == old(out)@ + render_items(trees_of(items@).skip(i as int), ind@),
    decreases items, items@.len() - i,
{
    let n = items.len();
    push_char(out, '\n');
    out.append(ind);
    render_value(&items[i], ind, out);
    proof {
        assert(trees_of(items@)[i as int] == items@[i as int].tree());
        assert(trees_of(items@).skip(i as int)[0] == trees_of(items@)[i as int]);
    }
    if i + 1 < n {
        push_char(out, ',');
        render_elems(items, i + 1, ind, out);
        proof {
            let rest = trees_of(items@).skip(i as int);
            assert(rest.drop_first() =~= trees_of(items@).skip(i as int + 1));
            assert(rest.len() > 1);
            assert(out@ =~= old(out)@ + render_items(rest, ind@));
        }
    } else {
        proof {
            let rest = trees_of(items@).skip(i as int);
            assert(rest.len() == 1);
            assert(out@ =~= old(out)@ + render_items(rest, ind@));
        }
    }
}

/// Appends the entry lines of a mapping from position `i` on.
fn render_fields(entries: &Vec<(String, JsonValue)>, i: usize, ind: &str, out: &mut String)
    requires
        i < entries@.len(),
    ensures
        final(out)@ == old(out)@ + render_entries(entry_trees_of(entries@).skip(i as int), ind@),
    decreases entries, entries@.len() - i,
{
    let n = entries.len();
    push_char(out, '\n');
    out.append(ind);
    append_quoted(out, entries[i].0.as_str());
    push_char(out, ':');
    push_char(out, ' ');
    render_value(&entries[i].1, ind, out);
    proof {
        assert(entry_trees_of(entries@)[i as int] == (
            entries@[i as int].0@,
            entries@[i as int].1.tree(),
        ));
        assert(entry_trees_of(entries@).skip(i as int)[0] == entry_trees_of(entries@)[i as int]);
    }
    if i + 1 < n {
        push_char(out, ',');
        render_fields(entries, i + 1, ind, out);
        proof {
            let rest = entry_trees_of(entries@).skip(i as int);
            assert(rest.drop_first() =~= entry_trees_of(entries@).skip(i as int + 1));
            assert(rest.len() > 1);
            assert(out@ =~= old(out)@ + render_entries(rest, ind@));
        }
    } else {
        proof {
            let rest = entry_trees_of(entries@).skip(i as int);
            assert(rest.len() == 1);
            assert(out@ =~= old(out)@ + render_entries(rest, ind@));
        }
    }
}

/// Pretty-prints a value from the top level: two-space indentation, each
/// list element and mapping entry on its own line, keys and nesting exactly
/// as in the value.
pub fn to_pretty_string(v: &JsonValue) -> (r: String)
    ensures
        r@ == render_spec(v@, Seq::empty()),
{
    let mut out: String = String::new();
    render_value(v, "", &mut out);
    proof {
        reveal_strlit("");
        assert(""@ =~= Seq::<char>::empty());
        assert(out@ =~= render_spec(v@, Seq::empty()));
    }
    out
}

/// Every key's quoted form stands in the rendered entry lines.
proof fn lemma_entries_contain_key(entries: Seq<(Seq<char>, JsonTree)>, ind: Seq<char>, i: int)
    requires
        0 <= i < entries.len(),
    ensures
        contains_seq(render_entries(entries, ind), quoted(entries[i].0)),
    decreases i,
{
    let head = seq!['\n'] + ind + quoted(entries[0].0) + seq![':', ' '] + render_spec(
        entries[0].1,
        ind,
    );
    if i == 0 {
        let pat = quoted(entries[0].0);
        lemma_contains_self(pat);
        lemma_contains_extend_left(seq!['\n'] + ind, pat, pat);
        lemma_contains_extend_right(seq!['\n'] + ind + pat, seq![':', ' '], pat);
        lemma_contains_extend_right(
            seq!['\n'] + ind + pat + seq![':', ' '],
            render_spec(entries[0].1, ind),
            pat,
        );
        if entries.len() > 1 {
            lemma_contains_extend_right(head, seq![','], pat);
            lemma_contains_extend_right(
                head + seq![','],
                render_entries(entries.drop_first(), ind),
                pat,
            );
        }
    } else {
        lemma_entries_contain_key(entries.drop_first(), ind, i - 1);
        assert(entries.drop_first()[i - 1] == entries[i]);
        lemma_contains_extend_left(
            head + seq![','],
            render_entries(entries.drop_first(), ind),
            quoted(entries[i].0),
        );
    }
}

/// Pretty-printing keeps a mapping's keys: the quoted form of every key of
/// the object stands in the rendered text, and by the rendering's definition
/// the entries appear exactly once each, in their original order and
/// nesting.
pub proof fn lemma_pretty_keeps_keys(entries: Seq<(Seq<char>, JsonTree)>, ind: Seq<char>, i: int)
    requires
        0 <= i < entries.len(),
    ensures
        contains_seq(render_spec(JsonTree::Obj(entries), ind), quoted(entries[i].0)),
{
    let deeper = ind + seq![' ', ' '];
    let pat = quoted(entries[i].0);
    lemma_entries_contain_key(entries, deeper, i);
    lemma_contains_extend_left(seq!['{'], render_entries(entries, deeper), pat);
    lemma_contains_extend_right(seq!['{'] + render_entries(entries, deeper), seq!['\n'], pat);
    lemma_contains_extend_right(
        seq!['{'] + render_entries(entries, deeper) + seq!['\n'],
        ind,
        pat,
    );
    lemma_contains_extend_right(
        seq!['{'] + render_entries(entries, deeper) + seq!['\n'] + ind,
        seq!['}'],
        pat,
    );
}

#[verifier::external_type_specification]
#[verifier::external_body]
pub struct ExSerdeValue(serde_json::Value);

/// The shape of the one JSON document that the bytes hold, if they hold one.
/// What shape that is for given bytes is left unsaid here; `parse_json` is
/// the only way to learn it.
pub uninterp spec fn json_of(bytes: Seq<u8>) -> Option<JsonTree>;

/// Carries a parsed `serde_json::Value` into the library's model, one arm
/// per variant: a number becomes its canonical token, object entries keep
/// the order the parser hands out. Serves only as the engine of
/// `parse_json`, whose contract covers the whole parse.
#[verifier::external_body]
fn value_to_model(v: serde_json::Value) -> JsonValue {
    match v {
        serde_json::Value::Null => JsonValue::Null,
        serde_json::Value::Bool(b) => JsonValue::Bool(b),
        serde_json::Value::Number(n) => JsonValue::Num(n.to_string()),
        serde_json::Value::String(s) => JsonValue::Str(s),
        serde_json::Value::Array(a) => JsonValue::Arr(
            a.into_iter().map(value_to_model).collect(),
        ),
        serde_json::Value::Object(m) => JsonValue::Obj(
            m.into_iter().map(|(k, x)| (k, value_to_model(x))).collect(),
        ),
    }
}

/// Relies on serde_json::from_slice: parses the bytes as one JSON document,
/// or rejects them. With this build of serde_json the parsed value, and so
/// the model built from it, is a function of the bytes alone (object entries
/// come back sorted by key).
#[verifier::external_body]
pub fn parse_json(bytes: &[u8]) -> (r: Option<JsonValue>)
    ensures
        match r {
            Some(v) => json_of(bytes@) == Some(v@),
            None => json_of(bytes@) is None,
        },
{
    match serde_json::from_slice::<serde_json::Value>(bytes) {
        Ok(v) => Some(value_to_model(v)),
        Err(_) => None,
    }
}

/// Parses a response body and pretty-prints the document it holds: exactly
/// the rendering of the parsed shape, or nothing when the bytes are not one
/// JSON document.
pub fn parse_and_pretty(bytes: &[u8]) -> (r: Option<String>)
    ensures
        match r {
            Some(s) => json_of(bytes@) matches Some(t) && s@ == render_spec(t, Seq::empty()),
            None => json_of(bytes@) is None,
        },
{
    match parse_json(bytes) {
        Some(v) => Some(to_pretty_string(&v)),
        None => None,
    }
}

} // verus!
