//! A small JSON document model with a character-exact rendering function.
//!
//! The query types translate into this tree and the tree renders to the wire
//! text; responses parse back through the same tree. Numbers are integers
//! with an explicit sign, which is all the wire protocol ever uses.
//!
//! The mathematical model of a document is [`JVal`], where strings are
//! character sequences; [`Json`] is the executable tree and views to `JVal`.

use vstd::prelude::*;
use vstd::string::StrSliceExecFns;

verus! {

/// A JSON document.
#[derive(Debug)]
pub enum Json {
    Null,
    Bool(bool),
    /// An integer: `mag` with a minus sign in front when `neg` is set.
    /// Canonical documents never pair `neg` with a zero magnitude.
    Num { neg: bool, mag: u64 },
    Str(String),
    Arr(Vec<Json>),
    Obj(Vec<(String, Json)>),
}

/// The mathematical model of a JSON document.
#[verifier::ext_equal]
pub enum JVal {
    Null,
    Bool(bool),
    Num { neg: bool, mag: u64 },
    Str(Seq<char>),
    Arr(Seq<JVal>),
    Obj(Seq<(Seq<char>, JVal)>),
}

/// The model of a document tree.
pub open spec fn jval_of(j: Json) -> JVal
    decreases j, 0int,
{
    match j {
        Json::Null => JVal::Null,
        Json::Bool(b) => JVal::Bool(b),
        Json::Num { neg, mag } => JVal::Num { neg, mag },
        Json::Str(s) => JVal::Str(s@),
        Json::Arr(items) => JVal::Arr(jvals_of(items, items@.len() as int)),
        Json::Obj(fields) => JVal::Obj(jfields_of(fields, fields@.len() as int)),
    }
}

/// The models of the first `n` items of an array.
pub open spec fn jvals_of(v: Vec<Json>, n: int) -> Seq<JVal>
    recommends
        n <= v@.len(),
    decreases v, n,
{
    if n <= 0 || v@.len() < n {
        Seq::empty()
    } else {
        proof {
            assert(decreases_to!(v => v[n - 1]));
        }
        jvals_of(v, n - 1).push(jval_of(v[n - 1]))
    }
}

/// The models of the first `n` fields of an object.
pub open spec fn jfields_of(v: Vec<(String, Json)>, n: int) -> Seq<(Seq<char>, JVal)>
    recommends
        n <= v@.len(),
    decreases v, n,
{
    if n <= 0 || v@.len() < n {
        Seq::empty()
    } else {
        proof {
            assert(decreases_to!(v => v[n - 1]));
        }
        jfields_of(v, n - 1).push((v[n - 1].0@, jval_of(v[n - 1].1)))
    }
}

impl View for Json {
    type V = JVal;

    open spec fn view(&self) -> JVal {
        jval_of(*self)
    }
}

pub proof fn lemma_jvals_of_index(v: Vec<Json>, n: int, i: int)
    requires
        0 <= n <= v@.len(),
        0 <= i < n,
    ensures
        jvals_of(v, n).len() == n,
        jvals_of(v, n)[i] == jval_of(v[i]),
    decreases n,
{
    lemma_jvals_of_len(v, n);
    if i < n - 1 {
        lemma_jvals_of_index(v, n - 1, i);
    }
}

pub proof fn lemma_jvals_of_len(v: Vec<Json>, n: int)
    requires
        0 <= n <= v@.len(),
    ensures
        jvals_of(v, n).len() == n,
    decreases n,
{
    if n > 0 {
        lemma_jvals_of_len(v, n - 1);
    }
}

pub proof fn lemma_jfields_of_index(v: Vec<(String, Json)>, n: int, i: int)
    requires
        0 <= n <= v@.len(),
        0 <= i < n,
    ensures
        jfields_of(v, n).len() == n,
        jfields_of(v, n)[i] == (v[i].0@, jval_of(v[i].1)),
    decreases n,
{
    lemma_jfields_of_len(v, n);
    if i < n - 1 {
        lemma_jfields_of_index(v, n - 1, i);
    }
}

pub proof fn lemma_jfields_of_len(v: Vec<(String, Json)>, n: int)
    requires
        0 <= n <= v@.len(),
    ensures
        jfields_of(v, n).len() == n,
    decreases n,
{
    if n > 0 {
        lemma_jfields_of_len(v, n - 1);
    }
}

/// A vector whose elements model the given values wraps, as an array, to
/// exactly those values.
pub proof fn lemma_jvals_of_eq(v: Vec<Json>, s: Seq<JVal>)
    requires
        s.len() == v@.len(),
        forall|k: int| 0 <= k < s.len() ==> (#[trigger] v@[k])@ == s[k],
    ensures
        jvals_of(v, v@.len() as int) == s,
{
    let n = v@.len() as int;
    lemma_jvals_of_len(v, n);
    assert forall|k: int| 0 <= k < n implies jvals_of(v, n)[k] == s[k] by {
        lemma_jvals_of_index(v, n, k);
    }
    assert(jvals_of(v, n) =~= s);
}

/// A vector whose fields model the given pairs wraps, as an object, to
/// exactly those pairs.
pub proof fn lemma_jfields_of_eq(v: Vec<(String, Json)>, s: Seq<(Seq<char>, JVal)>)
    requires
        s.len() == v@.len(),
        forall|k: int|
            0 <= k < s.len() ==> (#[trigger] v@[k]).0@ == s[k].0 && v@[k].1@ == s[k].1,
    ensures
        jfields_of(v, v@.len() as int) == s,
{
    let n = v@.len() as int;
    lemma_jfields_of_len(v, n);
    assert forall|k: int| 0 <= k < n implies jfields_of(v, n)[k] == s[k] by {
        lemma_jfields_of_index(v, n, k);
    }
    assert(jfields_of(v, n) =~= s);
}

/// The first field with the given key, if any.
pub open spec fn obj_get(fields: Seq<(Seq<char>, JVal)>, key: Seq<char>) -> Option<JVal>
    decreases fields.len(),
{
    if fields.len() == 0 {
        Option::None
    } else if fields[0].0 == key {
        Option::Some(fields[0].1)
    } else {
        obj_get(fields.drop_first(), key)
    }
}

/// When the key first occurs at position `i`, the lookup yields that
/// field's value.
pub proof fn lemma_obj_get_at(fields: Seq<(Seq<char>, JVal)>, key: Seq<char>, i: int)
    requires
        0 <= i < fields.len(),
        fields[i].0 == key,
        forall|k: int| 0 <= k < i ==> (#[trigger] fields[k]).0 != key,
    ensures
        obj_get(fields, key) == Option::Some(fields[i].1),
    decreases i,
{
    if i > 0 {
        lemma_obj_get_at(fields.drop_first(), key, i - 1);
    }
}

/// When no field holds the key, the lookup yields nothing.
pub proof fn lemma_obj_get_none(fields: Seq<(Seq<char>, JVal)>, key: Seq<char>)
    requires
        forall|k: int| 0 <= k < fields.len() ==> (#[trigger] fields[k]).0 != key,
    ensures
        obj_get(fields, key) is None,
    decreases fields.len(),
{
    if fields.len() > 0 {
        lemma_obj_get_none(fields.drop_first(), key);
    }
}

impl Json {
    /// The value of the first field with the given key, when this document
    /// is an object that has one.
    pub fn get_field<'a>(&'a self, key: &str) -> (r: Option<&'a Json>)
        ensures
            match r {
                Option::Some(v) => self@ is Obj && obj_get(self@->Obj_0, key@) == Option::Some(
                    v@,
                ),
                Option::None => !(self@ is Obj) || obj_get(self@->Obj_0, key@) is None,
            },
    {
        match self {
            Json::Obj(fields) => {
                let ghost model: Seq<(Seq<char>, JVal)> = jfields_of(
                    *fields,
                    fields@.len() as int,
                );
                proof {
                    lemma_jfields_of_len(*fields, fields@.len() as int);
                }
                let mut i: usize = 0;
                while i < fields.len()
                    invariant
                        i <= fields@.len(),
                        model == jfields_of(*fields, fields@.len() as int),
                        model.len() == fields@.len(),
                        self@ is Obj && self@->Obj_0 == model,
                        forall|k: int| 0 <= k < i ==> (#[trigger] model[k]).0 != key@,
                    decreases fields@.len() - i,
                {
                    proof {
                        lemma_jfields_of_index(*fields, fields@.len() as int, i as int);
                    }
                    if str_eq(fields[i].0.as_str(), key) {
                        proof {
                            lemma_obj_get_at(model, key@, i as int);
                        }
                        return Option::Some(&fields[i].1);
                    }
                    i += 1;
                }
                proof {
                    lemma_obj_get_none(model, key@);
                }
                Option::None
            },
            _ => Option::None,
        }
    }
}

/// The decimal digit character for a value below ten.
pub open spec fn digit_char(d: nat) -> char {
    ((0x30 + d) as u8) as char
}

/// The decimal rendering of a natural number, most significant digit first.
pub open spec fn dec_str(n: nat) -> Seq<char>
    decreases n,
{
    if n < 10 {
        seq![digit_char(n)]
    } else {
        dec_str(n / 10) + seq![digit_char(n % 10)]
    }
}

/// The hexadecimal digit character for a value below sixteen, lower case.
pub open spec fn hex_char(d: nat) -> char {
    if d < 10 {
        digit_char(d)
    } else {
        ((0x57 + d) as u8) as char
    }
}

/// The escaped form of one character inside a JSON string literal: quotes and
/// backslashes take a backslash, control characters take a `\u00..` escape,
/// and every other character stands for itself.
pub open spec fn escape_char(c: char) -> Seq<char> {
    if c == '"' {
        seq!['\\', '"']
    } else if c == '\\' {
        seq!['\\', '\\']
    } else if (c as u32) < 32 {
        seq!['\\', 'u', '0', '0', hex_char((c as u32 / 16) as nat), hex_char((c as u32 % 16) as nat)]
    } else {
        seq![c]
    }
}

/// The escaped form of the first `n` characters of `s`.
pub open spec fn escape_prefix(s: Seq<char>, n: int) -> Seq<char>
    decreases n,
{
    if n <= 0 {
        Seq::empty()
    } else {
        escape_prefix(s, n - 1) + escape_char(s[n - 1])
    }
}

/// A whole string as a JSON literal: quoted and escaped.
pub open spec fn quoted(s: Seq<char>) -> Seq<char> {
    seq!['"'] + escape_prefix(s, s.len() as int) + seq!['"']
}

/// Whether a character passes through a JSON string literal unchanged.
pub open spec fn plain_char(c: char) -> bool {
    c != '"' && c != '\\' && (c as u32) >= 32
}

/// Escaping text made of plain characters changes nothing.
pub proof fn lemma_escape_plain(s: Seq<char>, n: int)
    requires
        0 <= n <= s.len(),
        forall|k: int| 0 <= k < n ==> plain_char(#[trigger] s[k]),
    ensures
        escape_prefix(s, n) == s.subrange(0, n),
    decreases n,
{
    if n == 0 {
        assert(escape_prefix(s, 0) =~= s.subrange(0, 0));
    } else {
        lemma_escape_plain(s, n - 1);
        assert(escape_prefix(s, n) =~= s.subrange(0, n));
    }
}

/// A quoted plain string is just the string between two quote marks.
pub proof fn lemma_quoted_plain(s: Seq<char>)
    requires
        forall|k: int| 0 <= k < s.len() ==> plain_char(#[trigger] s[k]),
    ensures
        quoted(s) == seq!['"'] + s + seq!['"'],
{
    lemma_escape_plain(s, s.len() as int);
    assert(s.subrange(0, s.len() as int) =~= s);
}

/// The rendering of an integer with an explicit sign.
pub open spec fn num_str(neg: bool, mag: u64) -> Seq<char> {
    if neg {
        seq!['-'] + dec_str(mag as nat)
    } else {
        dec_str(mag as nat)
    }
}

/// The wire text of a document: no whitespace, object fields in order.
pub open spec fn text(j: JVal) -> Seq<char>
    decreases j, 0int,
{
    match j {
        JVal::Null => "null"@,
        JVal::Bool(b) => if b {
            "true"@
        } else {
            "false"@
        },
        JVal::Num { neg, mag } => num_str(neg, mag),
        JVal::Str(s) => quoted(s),
        JVal::Arr(items) => seq!['['] + items_text(items, items.len() as int) + seq![']'],
        JVal::Obj(fields) => seq!['{'] + fields_text(fields, fields.len() as int) + seq!['}'],
    }
}

/// The comma-separated text of the first `n` items of an array.
pub open spec fn items_text(v: Seq<JVal>, n: int) -> Seq<char>
    recommends
        n <= v.len(),
    decreases v, n,
{
    if n <= 0 || v.len() < n {
        Seq::empty()
    } else if n == 1 {
        proof {
            assert(decreases_to!(v => v[0]));
        }
        text(v[0])
    } else {
        proof {
            assert(decreases_to!(v => v[n - 1]));
        }
        items_text(v, n - 1) + seq![','] + text(v[n - 1])
    }
}

/// One object field: quoted key, colon, value.
pub open spec fn field_text(p: (Seq<char>, JVal)) -> Seq<char>
    decreases p, 0int,
{
    quoted(p.0) + seq![':'] + text(p.1)
}

/// The comma-separated text of the first `n` fields of an object.
pub open spec fn fields_text(v: Seq<(Seq<char>, JVal)>, n: int) -> Seq<char>
    recommends
        n <= v.len(),
    decreases v, n,
{
    if n <= 0 || v.len() < n {
        Seq::empty()
    } else if n == 1 {
        proof {
            assert(decreases_to!(v => v[0]));
        }
        field_text(v[0])
    } else {
        proof {
            assert(decreases_to!(v => v[n - 1]));
        }
        fields_text(v, n - 1) + seq![','] + field_text(v[n - 1])
    }
}

/// Appends the decimal rendering of `n`.
pub fn write_u64_dec(out: &mut Vec<char>, n: u64)
    ensures
        final(out)@ == old(out)@ + dec_str(n as nat),
    decreases n,
{
    if n < 10 {
        out.push((0x30 + (n as u8)) as char);
        assert(out@ =~= old(out)@ + dec_str(n as nat));
    } else {
        write_u64_dec(out, n / 10);
        out.push((0x30 + ((n % 10) as u8)) as char);
        assert(out@ =~= old(out)@ + dec_str(n as nat));
    }
}

/// Relies on `String`'s `FromIterator<char>` impl: collecting characters
/// yields the string holding exactly those characters, in order.
#[verifier::external_body]
pub(crate) fn chars_to_string(v: &Vec<char>) -> (r: String)
    ensures
        r@ == v@,
{
    v.iter().collect()
}

/// Appends every character of `s`.
pub fn push_str_chars(out: &mut Vec<char>, s: &str)
    ensures
        final(out)@ == old(out)@ + s@,
{
    let n = s.unicode_len();
    let mut i: usize = 0;
    while i < n
        invariant
            i <= n,
            n == s@.len(),
            out@ == old(out)@ + s@.subrange(0, i as int),
        decreases n - i,
    {
        let c = s.get_char(i);
        out.push(c);
        assert(out@ =~= old(out)@ + s@.subrange(0, i as int + 1));
        i += 1;
    }
    assert(s@.subrange(0, n as int) =~= s@);
}

/// Character-by-character string comparison.
pub fn str_eq(a: &str, b: &str) -> (r: bool)
    ensures
        r == (a@ == b@),
{
    let na = a.unicode_len();
    let nb = b.unicode_len();
    if na != nb {
        proof {
            if a@ == b@ {
                assert(a@.len() == b@.len());
            }
        }
        return false;
    }
    let mut i: usize = 0;
    while i < na
        invariant
            i <= na,
            na == a@.len(),
            na == b@.len(),
            forall|k: int| 0 <= k < i ==> a@[k] == b@[k],
        decreases na - i,
    {
        if a.get_char(i) != b.get_char(i) {
            return false;
        }
        i += 1;
    }
    proof {
        assert(a@ =~= b@);
    }
    true
}

/// Appends the escaped, quoted JSON literal for `s`.
pub fn write_quoted(out: &mut Vec<char>, s: &str)
    ensures
        final(out)@ == old(out)@ + quoted(s@),
{
    out.push('"');
    let n = s.unicode_len();
    let mut i: usize = 0;
    while i < n
        invariant
            i <= n,
            n == s@.len(),
            out@ == old(out)@ + seq!['"'] + escape_prefix(s@, i as int),
        decreases n - i,
    {
        let c = s.get_char(i);
        if c == '"' {
            out.push('\\');
            out.push('"');
        } else if c == '\\' {
            out.push('\\');
            out.push('\\');
        } else if (c as u32) < 32 {
            out.push('\\');
            out.push('u');
            out.push('0');
            out.push('0');
            let hi = ((c as u32) / 16) as u8;
            let lo = ((c as u32) % 16) as u8;
            out.push(if hi < 10 { (0x30 + hi) as char } else { (0x57 + hi) as char });
            out.push(if lo < 10 { (0x30 + lo) as char } else { (0x57 + lo) as char });
        } else {
            out.push(c);
        }
        assert(out@ =~= old(out)@ + seq!['"'] + escape_prefix(s@, i as int + 1));
        i += 1;
    }
    out.push('"');
    assert(out@ =~= old(out)@ + quoted(s@));
}

/// Appends the wire text of a document.
#[verifier::loop_isolation(false)]
pub fn write_json(out: &mut Vec<char>, j: &Json)
    ensures
        final(out)@ == old(out)@ + text(j@),
    decreases *j, 0int,
{
    match j {
        Json::Null => {
            push_str_chars(out, "null");
        },
        Json::Bool(b) => {
            if *b {
                push_str_chars(out, "true");
            } else {
                push_str_chars(out, "false");
            }
        },
        Json::Num { neg, mag } => {
            if *neg {
                out.push('-');
            }
            write_u64_dec(out, *mag);
            assert(out@ =~= old(out)@ + num_str(*neg, *mag));
        },
        Json::Str(s) => {
            write_quoted(out, s.as_str());
        },
        Json::Arr(items) => {
            let ghost model: Seq<JVal> = jvals_of(*items, items@.len() as int);
            proof {
                lemma_jvals_of_len(*items, items@.len() as int);
            }
            out.push('[');
            assert(out@ =~= old(out)@ + seq!['['] + items_text(model, 0));
            let mut i: usize = 0;
            while i < items.len()
                invariant
                    i <= items@.len(),
                    out@ == old(out)@ + seq!['['] + items_text(model, i as int),
                decreases items@.len() - i,
            {
                if i > 0 {
                    out.push(',');
                }
                let ghost sep: Seq<char> = if i > 0 {
                    seq![',']
                } else {
                    Seq::empty()
                };
                assert(out@ =~= old(out)@ + seq!['['] + items_text(model, i as int) + sep);
                proof {
                    let vv: Vec<Json> = *items;
                    assert(*j == Json::Arr(vv));
                    assert(decreases_to!(*j => j->Arr_0));
                    assert(decreases_to!(vv => vv[i as int]));
                    assert(decreases_to!(*j => items[i as int]));
                    lemma_jvals_of_index(*items, items@.len() as int, i as int);
                }
                write_json(out, &items[i]);
                assert(out@ =~= old(out)@ + seq!['['] + items_text(model, i as int) + sep
                    + text(model[i as int]));
                assert(items_text(model, i as int + 1) =~= items_text(model, i as int) + sep
                    + text(model[i as int]));
                i += 1;
            }
            out.push(']');
            assert(out@ =~= old(out)@ + text(j@));
        },
        Json::Obj(fields) => {
            let ghost model: Seq<(Seq<char>, JVal)> = jfields_of(*fields, fields@.len() as int);
            proof {
                lemma_jfields_of_len(*fields, fields@.len() as int);
            }
            out.push('{');
            assert(out@ =~= old(out)@ + seq!['{'] + fields_text(model, 0));
            let mut i: usize = 0;
            while i < fields.len()
                invariant
                    i <= fields@.len(),
                    out@ == old(out)@ + seq!['{'] + fields_text(model, i as int),
                decreases fields@.len() - i,
            {
                if i > 0 {
                    out.push(',');
                }
                let ghost sep: Seq<char> = if i > 0 {
                    seq![',']
                } else {
                    Seq::empty()
                };
                assert(out@ =~= old(out)@ + seq!['{'] + fields_text(model, i as int) + sep);
                let p = &fields[i];
                assert(*p == fields@[i as int]);
                write_quoted(out, p.0.as_str());
                out.push(':');
                proof {
                    let vv: Vec<(String, Json)> = *fields;
                    let pp: (String, Json) = vv[i as int];
                    assert(*j == Json::Obj(vv));
                    assert(decreases_to!(*j => j->Obj_0));
                    assert(decreases_to!(vv => vv[i as int]));
                    assert(decreases_to!(pp => pp.1));
                    assert(decreases_to!(*j => fields[i as int].1));
                    lemma_jfields_of_index(*fields, fields@.len() as int, i as int);
                }
                write_json(out, &p.1);
                assert(out@ =~= old(out)@ + seq!['{'] + fields_text(model, i as int) + sep
                    + field_text(model[i as int]));
                assert(fields_text(model, i as int + 1) =~= fields_text(model, i as int) + sep
                    + field_text(model[i as int]));
                i += 1;
            }
            out.push('}');
            assert(out@ =~= old(out)@ + text(j@));
        },
    }
}

impl Clone for Json {
    /// A deep copy with the same model.
    #[verifier::loop_isolation(false)]
    fn clone(&self) -> (r: Self)
        ensures
            r@ == self@,
        decreases *self, 0int,
    {
        match self {
            Json::Null => Json::Null,
            Json::Bool(b) => Json::Bool(*b),
            Json::Num { neg, mag } => Json::Num { neg: *neg, mag: *mag },
            Json::Str(s) => Json::Str(s.clone()),
            Json::Arr(items) => {
                let mut out: Vec<Json> = Vec::new();
                let mut i: usize = 0;
                while i < items.len()
                    invariant
                        i <= items@.len(),
                        out@.len() == i,
                        forall|k: int| 0 <= k < i ==> (#[trigger] out@[k])@ == items@[k]@,
                    decreases items@.len() - i,
                {
                    proof {
                        let vv: Vec<Json> = *items;
                        assert(*self == Json::Arr(vv));
                        assert(decreases_to!(*self => self->Arr_0));
                        assert(decreases_to!(vv => vv[i as int]));
                        assert(decreases_to!(*self => items[i as int]));
                    }
                    out.push(items[i].clone());
                    i += 1;
                }
                let r = Json::Arr(out);
                proof {
                    let n = items@.len() as int;
                    assert forall|k: int| 0 <= k < n implies jvals_of(r->Arr_0, n)[k] == jvals_of(
                        *items,
                        n,
                    )[k] by {
                        lemma_jvals_of_index(r->Arr_0, n, k);
                        lemma_jvals_of_index(*items, n, k);
                    }
                    lemma_jvals_of_len(r->Arr_0, n);
                    lemma_jvals_of_len(*items, n);
                    assert(jvals_of(r->Arr_0, n) =~= jvals_of(*items, n));
                }
                r
            },
            Json::Obj(fields) => {
                let mut out: Vec<(String, Json)> = Vec::new();
                let mut i: usize = 0;
                while i < fields.len()
                    invariant
                        i <= fields@.len(),
                        out@.len() == i,
                        forall|k: int|
                            0 <= k < i ==> (#[trigger] out@[k]).0@ == fields@[k].0@
                                && out@[k].1@ == fields@[k].1@,
                    decreases fields@.len() - i,
                {
                    proof {
                        let vv: Vec<(String, Json)> = *fields;
                        let pp: (String, Json) = vv[i as int];
                        assert(*self == Json::Obj(vv));
                        assert(decreases_to!(*self => self->Obj_0));
                        assert(decreases_to!(vv => vv[i as int]));
                        assert(decreases_to!(pp => pp.1));
                        assert(decreases_to!(*self => fields[i as int].1));
                    }
                    let p = &fields[i];
                    out.push((p.0.clone(), p.1.clone()));
                    i += 1;
                }
                let r = Json::Obj(out);
                proof {
                    let n = fields@.len() as int;
                    assert forall|k: int| 0 <= k < n implies jfields_of(r->Obj_0, n)[k]
                        == jfields_of(*fields, n)[k] by {
                        lemma_jfields_of_index(r->Obj_0, n, k);
                        lemma_jfields_of_index(*fields, n, k);
                    }
                    lemma_jfields_of_len(r->Obj_0, n);
                    lemma_jfields_of_len(*fields, n);
                    assert(jfields_of(r->Obj_0, n) =~= jfields_of(*fields, n));
                }
                r
            },
        }
    }
}

/// Renders a document to its wire text.
pub fn to_text(j: &Json) -> (r: String)
    ensures
        r@ == text(j@),
{
    let mut out: Vec<char> = Vec::new();
    write_json(&mut out, j);
    chars_to_string(&out)
}

#[verifier::external_type_specification]
#[verifier::external_body]
pub struct ExValue(serde_json::Value);

#[verifier::external_type_specification]
#[verifier::external_body]
pub struct ExNumber(serde_json::Number);

/// What `serde_json` reads a piece of text as, carried into the document
/// model: nothing when the text is not valid JSON or holds a number that
/// fits neither a `u64` nor an `i64`.
pub uninterp spec fn json_of_text(s: Seq<char>) -> Option<JVal>;

/// Carries a parsed `serde_json::Number` into the library's integer form.
/// Relies on `Number::as_u64` and `Number::as_i64`; a number that fits
/// neither drops the document.
#[verifier::external_body]
fn number_to_json(n: &serde_json::Number) -> Option<Json> {
    match (n.as_u64(), n.as_i64()) {
        (Some(u), _) => Some(Json::Num { neg: false, mag: u }),
        (None, Some(i)) => Some(Json::Num { neg: true, mag: i.unsigned_abs() }),
        _ => None,
    }
}

/// Carries a parsed `serde_json::Value` into the library's tree, arm by
/// arm, moving the fields over; `number_to_json` handles numbers.
#[verifier::external_body]
fn value_to_json(v: &serde_json::Value) -> Option<Json> {
    match v {
        serde_json::Value::Null => Some(Json::Null),
        serde_json::Value::Bool(b) => Some(Json::Bool(*b)),
        serde_json::Value::Number(n) => number_to_json(n),
        serde_json::Value::String(s) => Some(Json::Str(s.clone())),
        serde_json::Value::Array(a) => {
            let items: Option<Vec<Json>> = a.iter().map(value_to_json).collect();
            items.map(Json::Arr)
        },
        serde_json::Value::Object(o) => {
            let fs: Option<Vec<(String, Json)>> =
                o.iter().map(|(k, x)| value_to_json(x).map(|y| (k.clone(), y))).collect();
            fs.map(Json::Obj)
        },
    }
}

/// Relies on `serde_json::from_str::<serde_json::Value>`: what a piece of
/// text parses as is a function of the text alone. `value_to_json` carries
/// the parsed value into the library's tree; together they compute
/// [`json_of_text`].
#[verifier::external_body]
pub(crate) fn parse_text(s: &str) -> (r: Option<Json>)
    ensures
        match r {
            Option::Some(j) => json_of_text(s@) == Option::Some(j@),
            Option::None => json_of_text(s@) is None,
        },
{
    serde_json::from_str::<serde_json::Value>(s).ok().as_ref().and_then(value_to_json)
}

} // verus!
