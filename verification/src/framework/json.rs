//! A JSON value held as plain data, with the compact text that serde_json
//! writes for it and the text of its `Debug` form.

use vstd::prelude::*;
use crate::text::{digit_char, lemma_str_lt_transitive, push_char, push_str, str_less, str_lt};

verus! {

/// A JSON value. A number is held as its canonical text (as serde_json
/// displays it); an object as its members in order, each key once.
#[derive(Debug)]
pub enum JsonValue {
    Null,
    Bool(bool),
    Number(String),
    String(String),
    Array(Vec<JsonValue>),
    Object(Vec<(String, JsonValue)>),
}

/// How serde_json escapes one character of a string: `"` and `\` after a
/// backslash, the control characters backspace, tab, line feed, form feed and
/// carriage return as `\b \t \n \f \r`, the other control characters
/// (below U+0020) as `\u00xx` in lower-case hexadecimal, and every other
/// character as it is.
pub open spec fn json_char_escape(c: char) -> Seq<char> {
    let x = c as int;
    if x == 0x22 {
        seq!['\\', '"']
    } else if x == 0x5c {
        seq!['\\', '\\']
    } else if x == 0x08 {
        seq!['\\', 'b']
    } else if x == 0x09 {
        seq!['\\', 't']
    } else if x == 0x0a {
        seq!['\\', 'n']
    } else if x == 0x0c {
        seq!['\\', 'f']
    } else if x == 0x0d {
        seq!['\\', 'r']
    } else if x < 0x20 {
        seq!['\\', 'u', '0', '0', digit_char((x / 16) as nat), digit_char((x % 16) as nat)]
    } else {
        seq![c]
    }
}

/// The characters of a string, each escaped.
pub open spec fn json_escaped(s: Seq<char>) -> Seq<char>
    decreases s.len(),
{
    if s.len() == 0 {
        seq![]
    } else {
        json_escaped(s.drop_last()) + json_char_escape(s.last())
    }
}

/// What `serde_json::to_string` writes for a string: its escaped characters
/// between double quotes.
pub open spec fn json_string_text(s: Seq<char>) -> Seq<char> {
    seq!['"'] + json_escaped(s) + seq!['"']
}

/// What `format!("{:?}", s)` writes for a string slice: its quoted form with
/// Rust's debug escapes.
pub uninterp spec fn str_debug_text(s: Seq<char>) -> Seq<char>;

/// Quotes and escapes a string as a JSON string (serde_json's `to_string` on a
/// `str`, which cannot fail on one): the result is `json_string_text(s@)`,
/// serde_json's escaping as its `format_escaped_str` does it.
#[verifier::external_body]
pub(crate) fn json_quote(s: &str) -> (r: String)
    ensures
        r@ == json_string_text(s@),
{
    serde_json::to_string(s).unwrap_or_default()
}

/// Quotes a string as its `Debug` form (std's `format!("{:?}", s)`). The
/// contract names the result `str_debug_text(s@)` and states no more.
#[verifier::external_body]
pub(crate) fn debug_quote(s: &str) -> (r: String)
    ensures
        r@ == str_debug_text(s@),
{
    format!("{:?}", s)
}

pub open spec fn seq_null() -> Seq<char> {
    seq!['n', 'u', 'l', 'l']
}

pub open spec fn seq_true() -> Seq<char> {
    seq!['t', 'r', 'u', 'e']
}

pub open spec fn seq_false() -> Seq<char> {
    seq!['f', 'a', 'l', 's', 'e']
}

/// `true` or `false`.
pub open spec fn bool_text(b: bool) -> Seq<char> {
    if b {
        seq_true()
    } else {
        seq_false()
    }
}

/// Compact JSON text of a value, as serde_json writes it.
pub open spec fn json_text(v: JsonValue) -> Seq<char>
    decreases v, 0nat,
{
    match v {
        JsonValue::Null => seq_null(),
        JsonValue::Bool(b) => bool_text(b),
        JsonValue::Number(t) => t@,
        JsonValue::String(s) => json_string_text(s@),
        JsonValue::Array(items) => seq!['['] + json_items_text(items@) + seq![']'],
        JsonValue::Object(members) => seq!['{'] + json_members_text(members@) + seq!['}'],
    }
}

/// Array elements, separated by commas.
pub open spec fn json_items_text(items: Seq<JsonValue>) -> Seq<char>
    decreases items, 1nat,
{
    if items.len() == 0 {
        seq![]
    } else if items.len() == 1 {
        json_text(items[0])
    } else {
        json_items_text(items.subrange(0, items.len() - 1)) + seq![','] + json_text(
            items[items.len() - 1],
        )
    }
}

/// One object member: `"key":value`.
pub open spec fn json_member_text(key: Seq<char>, value_text: Seq<char>) -> Seq<char> {
    json_string_text(key) + seq![':'] + value_text
}

/// Object members, separated by commas.
pub open spec fn json_members_text(members: Seq<(String, JsonValue)>) -> Seq<char>
    decreases members, 1nat,
{
    if members.len() == 0 {
        seq![]
    } else if members.len() == 1 {
        json_member_text(members[0].0@, json_text(members[0].1))
    } else {
        json_members_text(members.subrange(0, members.len() - 1)) + seq![','] + json_member_text(
            members[members.len() - 1].0@,
            json_text(members[members.len() - 1].1),
        )
    }
}

/// Text of the `Debug` form of a value, as serde_json writes it
/// (`Null`, `Bool(true)`, `Number(1)`, `String("x")`, `Array [..]`, `Object {..}`).
pub open spec fn json_debug_text(v: JsonValue) -> Seq<char>
    decreases v, 0nat,
{
    match v {
        JsonValue::Null => seq!['N', 'u', 'l', 'l'],
        JsonValue::Bool(b) => seq!['B', 'o', 'o', 'l', '('] + bool_text(b) + seq![')'],
        JsonValue::Number(t) => seq!['N', 'u', 'm', 'b', 'e', 'r', '('] + t@ + seq![')'],
        JsonValue::String(s) => seq!['S', 't', 'r', 'i', 'n', 'g', '('] + str_debug_text(s@) + seq![')'],
        JsonValue::Array(items) => seq!['A', 'r', 'r', 'a', 'y', ' ', '['] + debug_items_text(items@)
            + seq![']'],
        JsonValue::Object(members) => seq!['O', 'b', 'j', 'e', 'c', 't', ' '] + debug_map_text(
            members@,
        ),
    }
}

/// Debug forms of array elements, separated by `, `.
pub open spec fn debug_items_text(items: Seq<JsonValue>) -> Seq<char>
    decreases items, 1nat,
{
    if items.len() == 0 {
        seq![]
    } else if items.len() == 1 {
        json_debug_text(items[0])
    } else {
        debug_items_text(items.subrange(0, items.len() - 1)) + seq![',', ' '] + json_debug_text(
            items[items.len() - 1],
        )
    }
}

/// One map entry in `Debug` form: `"key": value`.
pub open spec fn debug_entry_text(key: Seq<char>, value: JsonValue) -> Seq<char>
    decreases value, 1nat,
{
    str_debug_text(key) + seq![':', ' '] + json_debug_text(value)
}

/// Map entries in `Debug` form, separated by `, `.
pub open spec fn debug_entries_text(members: Seq<(String, JsonValue)>) -> Seq<char>
    decreases members, 1nat,
{
    if members.len() == 0 {
        seq![]
    } else if members.len() == 1 {
        debug_entry_text(members[0].0@, members[0].1)
    } else {
        debug_entries_text(members.subrange(0, members.len() - 1)) + seq![',', ' ']
            + debug_entry_text(members[members.len() - 1].0@, members[members.len() - 1].1)
    }
}

/// The `Debug` form of a map from strings to JSON values, entries in the given
/// order: `{"k": v, ..}`.
pub open spec fn debug_map_text(members: Seq<(String, JsonValue)>) -> Seq<char>
    decreases members, 2nat,
{
    seq!['{'] + debug_entries_text(members) + seq!['}']
}

/// The members' keys are strictly increasing.
pub open spec fn keys_increasing(m: Seq<(String, JsonValue)>) -> bool {
    forall|i: int, j: int| 0 <= i < j < m.len() ==> str_lt(#[trigger] m[i].0@, #[trigger] m[j].0@)
}

/// A value as serde_json holds one: the members of each object in strictly
/// increasing key order (serde_json's map is ordered by key, each key once),
/// at every depth.
pub open spec fn json_wf(v: JsonValue) -> bool
    decreases v,
{
    match v {
        JsonValue::Array(items) => forall|i: int| 0 <= i < items@.len() ==> json_wf(#[trigger] items@[i]),
        JsonValue::Object(m) => {
            &&& keys_increasing(m@)
            &&& forall|i: int| 0 <= i < m@.len() ==> json_wf(#[trigger] m@[i].1)
        },
        _ => true,
    }
}

impl JsonValue {
    /// The value is `null`.
    pub fn is_null(&self) -> (r: bool)
        ensures
            r == (*self is Null),
    {
        match self {
            JsonValue::Null => true,
            _ => false,
        }
    }

    /// The value is an array with no element.
    pub fn is_empty_array(&self) -> (r: bool)
        ensures
            r == (match *self {
                JsonValue::Array(items) => items@.len() == 0,
                _ => false,
            }),
    {
        match self {
            JsonValue::Array(items) => items.len() == 0,
            _ => false,
        }
    }

    /// Whether the value is one that serde_json can hold: each object's keys
    /// strictly increasing, at every depth.
    pub fn is_wf(&self) -> (r: bool)
        ensures
            r == json_wf(*self),
        decreases self,
    {
        match self {
            JsonValue::Array(items) => {
                let mut i: usize = 0;
                while i < items.len()
                    invariant
                        0 <= i <= items@.len(),
                        *self == JsonValue::Array(*items),
                        forall|k: int| 0 <= k < i ==> json_wf(#[trigger] items@[k]),
                    decreases items@.len() - i,
                {
                    proof {
                        assert(decreases_to!(*self => (*self)->Array_0));
                        assert(decreases_to!(*items => items[i as int]));
                    }
                    if !items[i].is_wf() {
                        return false;
                    }
                    i = i + 1;
                }
                true
            },
            JsonValue::Object(m) => {
                let mut i: usize = 0;
                while i < m.len()
                    invariant
                        0 <= i <= m@.len(),
                        *self == JsonValue::Object(*m),
                        forall|a: int, b: int| 0 <= a < b < i ==> str_lt(#[trigger] m@[a].0@, #[trigger] m@[b].0@),
                        forall|k: int| 0 <= k < i ==> json_wf(#[trigger] m@[k].1),
                    decreases m@.len() - i,
                {
                    if i > 0 {
                        if !str_less(m[i - 1].0.as_str(), m[i].0.as_str()) {
                            assert(!str_lt(m@[i - 1].0@, m@[i as int].0@));
                            assert(!keys_increasing(m@));
                            return false;
                        }
                        proof {
                            assert forall|a: int, b: int| 0 <= a < b < i + 1 implies str_lt(
                                #[trigger] m@[a].0@,
                                #[trigger] m@[b].0@,
                            ) by {
                                if b == i && a < i - 1 {
                                    lemma_str_lt_transitive(m@[a].0@, m@[i - 1].0@, m@[i as int].0@);
                                }
                            }
                        }
                    }
                    proof {
                        assert(decreases_to!(*self => (*self)->Object_0));
                        assert(decreases_to!(*m => m[i as int].1));
                    }
                    if !m[i].1.is_wf() {
                        return false;
                    }
                    i = i + 1;
                }
                true
            },
            _ => true,
        }
    }

    /// Compact JSON text of the value, as serde_json writes it.
    pub fn to_json_text(&self) -> (r: String)
        requires
            json_wf(*self),
        ensures
            r@ == json_text(*self),
    {
        let mut r = String::new();
        push_json(&mut r, self);
        r
    }

    /// Text of the value's `Debug` form.
    pub fn to_debug_text(&self) -> (r: String)
        requires
            json_wf(*self),
        ensures
            r@ == json_debug_text(*self),
    {
        let mut r = String::new();
        push_json_debug(&mut r, self);
        r
    }
}

/// Appends `true` or `false`.
pub fn push_bool(out: &mut String, b: bool)
    ensures
        final(out)@ == old(out)@ + bool_text(b),
{
    if b {
        push_str(out, "true");
        proof {
            reveal_strlit("true");
        }
    } else {
        push_str(out, "false");
        proof {
            reveal_strlit("false");
        }
    }
    assert(final(out)@ =~= old(out)@ + bool_text(b));
}

/// Appends the compact JSON text of a value.
pub fn push_json(out: &mut String, v: &JsonValue)
    ensures
        final(out)@ == old(out)@ + json_text(*v),
    decreases v,
{
    let ghost start = out@;
    match v {
        JsonValue::Null => {
            push_str(out, "null");
            proof {
                reveal_strlit("null");
            }
            assert(out@ =~= start + json_text(*v));
        },
        JsonValue::Bool(b) => {
            push_bool(out, *b);
        },
        JsonValue::Number(t) => {
            push_str(out, t.as_str());
        },
        JsonValue::String(s) => {
            let q = json_quote(s.as_str());
            push_str(out, q.as_str());
        },
        JsonValue::Array(items) => {
            push_char(out, '[');
            let mut i: usize = 0;
            assert(items@.subrange(0, 0) =~= Seq::<JsonValue>::empty());
            while i < items.len()
                invariant
                    0 <= i <= items@.len(),
                    out@ == start + seq!['['] + json_items_text(items@.subrange(0, i as int)),
                    *v == JsonValue::Array(*items),
                decreases items@.len() - i,
            {
                let ghost prev = items@.subrange(0, i as int);
                let ghost next = items@.subrange(0, i + 1);
                assert(next.subrange(0, next.len() - 1) =~= prev);
                assert(next[next.len() - 1] == items@[i as int]);
                if i > 0 {
                    push_char(out, ',');
                }
                proof {
                    assert(decreases_to!(*v => (*v)->Array_0));
                    assert(decreases_to!(*items => items[i as int]));
                    assert(decreases_to!(*v => items[i as int]));
                }
                push_json(out, &items[i]);
                i = i + 1;
                proof {
                    if i == 1 {
                        assert(prev.len() == 0);
                    }
                    assert(out@ =~= start + seq!['['] + json_items_text(next));
                }
            }
            assert(items@.subrange(0, items@.len() as int) =~= items@);
            push_char(out, ']');
            assert(out@ =~= start + json_text(*v));
        },
        JsonValue::Object(members) => {
            push_char(out, '{');
            let mut i: usize = 0;
            assert(members@.subrange(0, 0) =~= Seq::<(String, JsonValue)>::empty());
            while i < members.len()
                invariant
                    0 <= i <= members@.len(),
                    out@ == start + seq!['{'] + json_members_text(members@.subrange(0, i as int)),
                    *v == JsonValue::Object(*members),
                decreases members@.len() - i,
            {
                let ghost prev = members@.subrange(0, i as int);
                let ghost next = members@.subrange(0, i + 1);
                assert(next.subrange(0, next.len() - 1) =~= prev);
                assert(next[next.len() - 1] == members@[i as int]);
                if i > 0 {
                    push_char(out, ',');
                }
                let q = json_quote(members[i].0.as_str());
                push_str(out, q.as_str());
                push_char(out, ':');
                proof {
                    assert(decreases_to!(*v => (*v)->Object_0));
                    assert(decreases_to!(*members => members[i as int]));
                    assert(decreases_to!(*v => members[i as int].1));
                }
                push_json(out, &members[i].1);
                i = i + 1;
                proof {
                    if i == 1 {
                        assert(prev.len() == 0);
                    }
                    assert(out@ =~= start + seq!['{'] + json_members_text(next));
                }
            }
            assert(members@.subrange(0, members@.len() as int) =~= members@);
            push_char(out, '}');
            assert(out@ =~= start + json_text(*v));
        },
    }
}

/// Appends the text of a value's `Debug` form.
pub fn push_json_debug(out: &mut String, v: &JsonValue)
    ensures
        final(out)@ == old(out)@ + json_debug_text(*v),
    decreases v, 0nat,
{
    let ghost start = out@;
    match v {
        JsonValue::Null => {
            push_str(out, "Null");
            proof {
                reveal_strlit("Null");
            }
            assert(out@ =~= start + json_debug_text(*v));
        },
        JsonValue::Bool(b) => {
            push_str(out, "Bool(");
            push_bool(out, *b);
            push_char(out, ')');
            proof {
                reveal_strlit("Bool(");
            }
            assert(out@ =~= start + json_debug_text(*v));
        },
        JsonValue::Number(t) => {
            push_str(out, "Number(");
            push_str(out, t.as_str());
            push_char(out, ')');
            proof {
                reveal_strlit("Number(");
            }
            assert(out@ =~= start + json_debug_text(*v));
        },
        JsonValue::String(s) => {
            push_str(out, "String(");
            let q = debug_quote(s.as_str());
            push_str(out, q.as_str());
            push_char(out, ')');
            proof {
                reveal_strlit("String(");
            }
            assert(out@ =~= start + json_debug_text(*v));
        },
        JsonValue::Array(items) => {
            push_str(out, "Array [");
            proof {
                reveal_strlit("Array [");
            }
            let mut i: usize = 0;
            assert(items@.subrange(0, 0) =~= Seq::<JsonValue>::empty());
            while i < items.len()
                invariant
                    0 <= i <= items@.len(),
                    out@ == start + seq!['A', 'r', 'r', 'a', 'y', ' ', '['] + debug_items_text(
                        items@.subrange(0, i as int),
                    ),
                    *v == JsonValue::Array(*items),
                decreases items@.len() - i,
            {
                let ghost prev = items@.subrange(0, i as int);
                let ghost next = items@.subrange(0, i + 1);
                assert(next.subrange(0, next.len() - 1) =~= prev);
                assert(next[next.len() - 1] == items@[i as int]);
                if i > 0 {
                    push_char(out, ',');
                    push_char(out, ' ');
                }
                proof {
                    assert(decreases_to!(*v => (*v)->Array_0));
                    assert(decreases_to!(*items => items[i as int]));
                    assert(decreases_to!(*v => items[i as int]));
                }
                push_json_debug(out, &items[i]);
                i = i + 1;
                proof {
                    if i == 1 {
                        assert(prev.len() == 0);
                    }
                    assert(out@ =~= start + seq!['A', 'r', 'r', 'a', 'y', ' ', '['] + debug_items_text(next));
                }
            }
            assert(items@.subrange(0, items@.len() as int) =~= items@);
            push_char(out, ']');
            assert(out@ =~= start + json_debug_text(*v));
        },
        JsonValue::Object(members) => {
            push_str(out, "Object ");
            proof {
                reveal_strlit("Object ");
            }
            push_debug_map(out, members);
            assert(out@ =~= start + json_debug_text(*v));
        },
    }
}

/// Appends the `Debug` form of a map from strings to JSON values, entries in
/// the given order.
pub fn push_debug_map(out: &mut String, members: &Vec<(String, JsonValue)>)
    ensures
        final(out)@ == old(out)@ + debug_map_text(members@),
    decreases members, 2nat,
{
    let ghost start = out@;
    push_char(out, '{');
    let mut i: usize = 0;
    assert(members@.subrange(0, 0) =~= Seq::<(String, JsonValue)>::empty());
    while i < members.len()
        invariant
            0 <= i <= members@.len(),
            out@ == start + seq!['{'] + debug_entries_text(members@.subrange(0, i as int)),
        decreases members@.len() - i,
    {
        let ghost prev = members@.subrange(0, i as int);
        let ghost next = members@.subrange(0, i + 1);
        assert(next.subrange(0, next.len() - 1) =~= prev);
        assert(next[next.len() - 1] == members@[i as int]);
        if i > 0 {
            push_char(out, ',');
            push_char(out, ' ');
        }
        let q = debug_quote(members[i].0.as_str());
        push_str(out, q.as_str());
        push_char(out, ':');
        push_char(out, ' ');
        proof {
            assert(decreases_to!(*members => members[i as int].1));
        }
        push_json_debug(out, &members[i].1);
        i = i + 1;
        proof {
            assert(debug_entry_text(next[next.len() - 1].0@, next[next.len() - 1].1)
                == str_debug_text(next[next.len() - 1].0@) + seq![':', ' '] + json_debug_text(next[next.len() - 1].1));
            if i == 1 {
                assert(prev.len() == 0);
            }
            assert(out@ =~= start + seq!['{'] + debug_entries_text(next));
        }
    }
    assert(members@.subrange(0, members@.len() as int) =~= members@);
    push_char(out, '}');
    assert(out@ =~= start + debug_map_text(members@));
}

/// The texts of the literals, and how characters are escaped in a JSON
/// string: a quote and a backslash after a backslash, a line feed as `\n`, a
/// tab as `\t`, another control character as `\u00` and two lower-case
/// hexadecimal digits, any character from U+0020 on other than those two as
/// it is.
pub proof fn lemma_json_literals_and_escapes(c: char)
    ensures
        bool_text(true) == seq!['t', 'r', 'u', 'e'],
        bool_text(false) == seq!['f', 'a', 'l', 's', 'e'],
        json_text(JsonValue::Null) == seq!['n', 'u', 'l', 'l'],
        json_char_escape('"') == seq!['\\', '"'],
        json_char_escape('\\') == seq!['\\', '\\'],
        json_char_escape('\n') == seq!['\\', 'n'],
        json_char_escape('\t') == seq!['\\', 't'],
        json_char_escape('\u{1}') == seq!['\\', 'u', '0', '0', '0', '1'],
        json_char_escape('\u{1f}') == seq!['\\', 'u', '0', '0', '1', 'f'],
        (c as int >= 0x20 && c != '"' && c != '\\') ==> json_char_escape(c) == seq![c],
        json_string_text(seq![]) == seq!['"', '"'],
{
    let hex = crate::text::digit_chars();
    assert(hex[0] == '0' && hex[1] == '1' && hex[15] == 'f');
    assert(json_escaped(seq![]) == Seq::<char>::empty());
    assert(json_string_text(seq![]) =~= seq!['"', '"']);
}

} // verus!
