//! A JSON value, its mathematical view, and helpers over objects.
//!
//! The two RPC channels carry JSON-RPC 2.0 envelopes; this module gives the
//! library its own JSON value type so that the envelope codec and the
//! dispatcher are ordinary verified functions over plain data. Numbers are
//! signed 64-bit integers — every number this protocol carries (identifiers,
//! error codes, block heights, intervals) is one. Objects keep their fields
//! as an ordered list of pairs, so encoding then decoding loses nothing.

use vstd::prelude::*;

verus! {

/// A JSON value.
#[derive(Debug)]
pub enum Json {
    Null,
    Bool(bool),
    Num(i64),
    Str(String),
    Arr(Vec<Json>),
    Obj(Vec<(String, Json)>),
}

/// The mathematical shape of a JSON value.
pub enum JsonV {
    Null,
    Bool(bool),
    Num(int),
    Str(Seq<char>),
    Arr(Seq<JsonV>),
    Obj(Seq<(Seq<char>, JsonV)>),
}

pub open spec fn view_json(j: Json) -> JsonV
    decreases j,
{
    match j {
        Json::Null => JsonV::Null,
        Json::Bool(b) => JsonV::Bool(b),
        Json::Num(n) => JsonV::Num(n as int),
        Json::Str(s) => JsonV::Str(s@),
        Json::Arr(a) => JsonV::Arr(view_arr(a@)),
        Json::Obj(o) => JsonV::Obj(view_obj(o@)),
    }
}

pub open spec fn view_arr(a: Seq<Json>) -> Seq<JsonV>
    decreases a,
{
    if a.len() == 0 {
        Seq::empty()
    } else {
        seq![view_json(a[0])] + view_arr(a.skip(1))
    }
}

pub open spec fn view_obj(o: Seq<(String, Json)>) -> Seq<(Seq<char>, JsonV)>
    decreases o,
{
    if o.len() == 0 {
        Seq::empty()
    } else {
        seq![(o[0].0@, view_json(o[0].1))] + view_obj(o.skip(1))
    }
}

impl View for Json {
    type V = JsonV;

    open spec fn view(&self) -> JsonV {
        view_json(*self)
    }
}

pub proof fn lemma_view_arr_index(a: Seq<Json>)
    ensures
        view_arr(a).len() == a.len(),
        forall|i: int| 0 <= i < a.len() ==> #[trigger] view_arr(a)[i] == view_json(a[i]),
    decreases a.len(),
{
    if a.len() > 0 {
        lemma_view_arr_index(a.skip(1));
        assert forall|i: int| 0 <= i < a.len() implies #[trigger] view_arr(a)[i] == view_json(
            a[i],
        ) by {
            if i > 0 {
                assert(view_arr(a)[i] == view_arr(a.skip(1))[i - 1]);
                assert(a.skip(1)[i - 1] == a[i]);
            }
        }
    }
}

pub proof fn lemma_view_obj_index(o: Seq<(String, Json)>)
    ensures
        view_obj(o).len() == o.len(),
        forall|i: int|
            0 <= i < o.len() ==> #[trigger] view_obj(o)[i] == (o[i].0@, view_json(o[i].1)),
    decreases o.len(),
{
    if o.len() > 0 {
        lemma_view_obj_index(o.skip(1));
        assert forall|i: int| 0 <= i < o.len() implies #[trigger] view_obj(o)[i] == (
            o[i].0@,
            view_json(o[i].1),
        ) by {
            if i > 0 {
                assert(view_obj(o)[i] == view_obj(o.skip(1))[i - 1]);
                assert(o.skip(1)[i - 1] == o[i]);
            }
        }
    }
}

/// The first value bound to `key` in an object's field list, if any.
pub open spec fn obj_get(fields: Seq<(Seq<char>, JsonV)>, key: Seq<char>) -> Option<JsonV>
    decreases fields.len(),
{
    if fields.len() == 0 {
        None
    } else if fields[0].0 == key {
        Some(fields[0].1)
    } else {
        obj_get(fields.skip(1), key)
    }
}

pub proof fn lemma_obj_get_from(fields: Seq<(Seq<char>, JsonV)>, key: Seq<char>, i: int)
    requires
        0 <= i < fields.len(),
        forall|k: int| 0 <= k < i ==> (#[trigger] fields[k]).0 != key,
    ensures
        fields[i].0 == key ==> obj_get(fields, key) == Some(fields[i].1),
    decreases i,
{
    if i > 0 {
        assert(fields[0].0 != key);
        lemma_obj_get_from(fields.skip(1), key, i - 1);
        assert(fields.skip(1)[i - 1] == fields[i]);
        assert(forall|k: int| 0 <= k < i - 1 ==> #[trigger] fields.skip(1)[k] == fields[k + 1]);
    }
}

pub proof fn lemma_obj_get_none(fields: Seq<(Seq<char>, JsonV)>, key: Seq<char>)
    requires
        forall|k: int| 0 <= k < fields.len() ==> (#[trigger] fields[k]).0 != key,
    ensures
        obj_get(fields, key) is None,
    decreases fields.len(),
{
    if fields.len() > 0 {
        lemma_obj_get_none(fields.skip(1), key);
        assert(forall|k: int|
            0 <= k < fields.len() - 1 ==> #[trigger] fields.skip(1)[k] == fields[k + 1]);
    }
}

/// Looks a key up in an object's field list: the first binding wins.
pub fn lookup<'a>(fields: &'a Vec<(String, Json)>, key: &str) -> (r: Option<&'a Json>)
    ensures
        match r {
            Some(v) => obj_get(view_obj(fields@), key@) == Some(v@),
            None => obj_get(view_obj(fields@), key@) is None,
        },
{
    proof {
        lemma_view_obj_index(fields@);
    }
    let ghost vf = view_obj(fields@);
    let key_owned = key.to_owned();
    let mut i: usize = 0;
    while i < fields.len()
        invariant
            0 <= i <= fields@.len(),
            vf == view_obj(fields@),
            vf.len() == fields@.len(),
            forall|k: int| 0 <= k < vf.len() ==> #[trigger] vf[k] == (fields@[k].0@, view_json(fields@[k].1)),
            key_owned@ == key@,
            forall|k: int| 0 <= k < i ==> (#[trigger] vf[k]).0 != key@,
        decreases fields@.len() - i,
    {
        if fields[i].0 == key_owned {
            proof {
                lemma_obj_get_from(vf, key@, i as int);
            }
            return Some(&fields[i].1);
        }
        i = i + 1;
    }
    proof {
        lemma_obj_get_none(vf, key@);
    }
    None
}

/// Clones a vector of JSON values.
pub fn clone_arr(a: &Vec<Json>) -> (r: Vec<Json>)
    ensures
        view_arr(r@) == view_arr(a@),
        r@.len() == a@.len(),
    decreases a,
{
    proof {
        lemma_view_arr_index(a@);
    }
    let mut out: Vec<Json> = Vec::new();
    let mut i: usize = 0;
    while i < a.len()
        invariant
            0 <= i <= a@.len(),
            out@.len() == i,
            forall|k: int| 0 <= k < i ==> view_json(#[trigger] out@[k]) == view_json(a@[k]),
        decreases a@.len() - i,
    {
        let e = clone_json(&a[i]);
        out.push(e);
        i = i + 1;
    }
    proof {
        lemma_view_arr_index(out@);
        assert(view_arr(out@) =~= view_arr(a@));
    }
    out
}

/// Clones an object's field list.
pub fn clone_obj(o: &Vec<(String, Json)>) -> (r: Vec<(String, Json)>)
    ensures
        view_obj(r@) == view_obj(o@),
        r@.len() == o@.len(),
    decreases o,
{
    proof {
        lemma_view_obj_index(o@);
    }
    let mut out: Vec<(String, Json)> = Vec::new();
    let mut i: usize = 0;
    while i < o.len()
        invariant
            0 <= i <= o@.len(),
            out@.len() == i,
            forall|k: int|
                0 <= k < i ==> (#[trigger] out@[k]).0@ == o@[k].0@ && view_json(out@[k].1)
                    == view_json(o@[k].1),
        decreases o@.len() - i,
    {
        let k = o[i].0.clone();
        let v = clone_json(&o[i].1);
        out.push((k, v));
        i = i + 1;
    }
    proof {
        lemma_view_obj_index(out@);
        assert(view_obj(out@) =~= view_obj(o@));
    }
    out
}

/// Clones a JSON value.
pub fn clone_json(j: &Json) -> (r: Json)
    ensures
        r@ == j@,
    decreases j,
{
    match j {
        Json::Null => Json::Null,
        Json::Bool(b) => Json::Bool(*b),
        Json::Num(n) => Json::Num(*n),
        Json::Str(s) => Json::Str(s.clone()),
        Json::Arr(a) => Json::Arr(clone_arr(a)),
        Json::Obj(o) => Json::Obj(clone_obj(o)),
    }
}

// ---------------------------------------------------------------------------
// The JSON text form: a verified serializer.
// ---------------------------------------------------------------------------

/// The character for a value below sixteen, as JSON hexadecimal escapes use it.
pub open spec fn hex_digit(d: nat) -> char {
    if d < 10 {
        ((48 + d) as u8) as char
    } else {
        ((87 + d) as u8) as char
    }
}

/// The decimal digits of `n`, most significant first.
pub open spec fn dec_digits(n: nat) -> Seq<char>
    decreases n,
{
    if n < 10 {
        seq![hex_digit(n)]
    } else {
        dec_digits(n / 10).push(hex_digit(n % 10))
    }
}

/// The JSON text of an integer.
pub open spec fn ser_int(n: int) -> Seq<char> {
    if n < 0 {
        seq!['-'] + dec_digits((-n) as nat)
    } else {
        dec_digits(n as nat)
    }
}

/// The JSON text standing for one character inside a string literal: quote
/// and backslash are escaped, control characters take the hexadecimal form,
/// everything else stands for itself.
pub open spec fn esc_char(c: char) -> Seq<char> {
    if c == '"' {
        seq!['\\', '"']
    } else if c == '\\' {
        seq!['\\', '\\']
    } else if (c as u32) < 32 {
        seq!['\\', 'u', '0', '0', hex_digit(((c as u32) / 16) as nat), hex_digit(
            ((c as u32) % 16) as nat,
        )]
    } else {
        seq![c]
    }
}

/// The escaped text of a string's characters from position `i` on.
pub open spec fn ser_str_from(s: Seq<char>, i: int) -> Seq<char>
    decreases s.len() - i,
{
    if 0 <= i < s.len() {
        esc_char(s[i]) + ser_str_from(s, i + 1)
    } else {
        Seq::empty()
    }
}

/// The JSON text of a string value, quotes included.
pub open spec fn ser_string(s: Seq<char>) -> Seq<char> {
    seq!['"'] + ser_str_from(s, 0) + seq!['"']
}

/// The JSON text of a value.
pub open spec fn ser_json(v: JsonV) -> Seq<char>
    decreases v, 0int,
{
    match v {
        JsonV::Null => "null"@,
        JsonV::Bool(b) => if b {
            "true"@
        } else {
            "false"@
        },
        JsonV::Num(n) => ser_int(n),
        JsonV::Str(s) => ser_string(s),
        JsonV::Arr(a) => seq!['['] + ser_arr_from(a, 0) + seq![']'],
        JsonV::Obj(o) => seq!['{'] + ser_obj_from(o, 0) + seq!['}'],
    }
}

/// The comma-separated JSON texts of an array's items from position `i` on.
pub open spec fn ser_arr_from(a: Seq<JsonV>, i: int) -> Seq<char>
    decreases a, a.len() - i,
{
    if 0 <= i < a.len() {
        (if i > 0 {
            seq![',']
        } else {
            Seq::empty()
        }) + ser_json(a[i]) + ser_arr_from(a, i + 1)
    } else {
        Seq::empty()
    }
}

/// The comma-separated `"key":value` JSON texts of an object's fields from
/// position `i` on.
pub open spec fn ser_obj_from(o: Seq<(Seq<char>, JsonV)>, i: int) -> Seq<char>
    decreases o, o.len() - i,
{
    if 0 <= i < o.len() {
        (if i > 0 {
            seq![',']
        } else {
            Seq::empty()
        }) + ser_string(o[i].0) + seq![':'] + ser_json(o[i].1) + ser_obj_from(o, i + 1)
    } else {
        Seq::empty()
    }
}

/// Relies on String::push: appends exactly the one character.
#[verifier::external_body]
fn push_char(s: &mut String, c: char)
    ensures
        final(s)@ == old(s)@.push(c),
{
    s.push(c);
}

/// Relies on str::chars: the characters of a string slice, in order; a
/// string slice's view is that character sequence.
#[verifier::external_body]
pub fn str_chars(s: &str) -> (r: Vec<char>)
    ensures
        r@ == s@,
{
    s.chars().collect()
}

fn hex_char(d: u8) -> (c: char)
    requires
        d < 16,
    ensures
        c == hex_digit(d as nat),
{
    if d < 10 {
        (48 + d) as char
    } else {
        (87 + d) as char
    }
}

fn ser_u64_into(n: u64, out: &mut String)
    ensures
        final(out)@ == old(out)@ + dec_digits(n as nat),
    decreases n,
{
    if n < 10 {
        push_char(out, hex_char(n as u8));
        proof {
            assert(final(out)@ =~= old(out)@ + dec_digits(n as nat));
        }
    } else {
        ser_u64_into(n / 10, out);
        push_char(out, hex_char((n % 10) as u8));
        proof {
            assert((n / 10) as nat == (n as nat) / 10);
            assert((n % 10) as nat == (n as nat) % 10);
            assert(final(out)@ =~= old(out)@ + dec_digits(n as nat));
        }
    }
}

fn ser_i64_into(n: i64, out: &mut String)
    ensures
        final(out)@ == old(out)@ + ser_int(n as int),
{
    if n < 0 {
        push_char(out, '-');
        let m: u64 = (-(n as i128)) as u64;
        proof {
            assert(m as nat == (-(n as int)) as nat);
        }
        ser_u64_into(m, out);
        proof {
            assert(final(out)@ =~= old(out)@ + ser_int(n as int));
        }
    } else {
        ser_u64_into(n as u64, out);
    }
}

fn ser_string_into(s: &String, out: &mut String)
    ensures
        final(out)@ == old(out)@ + ser_string(s@),
{
    let ghost base = out@;
    push_char(out, '"');
    proof {
        assert(out@ =~= base + seq!['"']);
    }
    let cs = str_chars(s.as_str());
    let mut i: usize = 0;
    while i < cs.len()
        invariant
            0 <= i <= cs@.len(),
            cs@ == s@,
            out@ + ser_str_from(s@, i as int) == base + seq!['"'] + ser_str_from(s@, 0),
        decreases cs@.len() - i,
    {
        let ghost before = out@;
        let c = cs[i];
        if c == '"' {
            out.append("\\\"");
            proof {
                reveal_strlit("\\\"");
                assert(out@ =~= before + esc_char(c));
            }
        } else if c == '\\' {
            out.append("\\\\");
            proof {
                reveal_strlit("\\\\");
                assert(out@ =~= before + esc_char(c));
            }
        } else if (c as u32) < 32 {
            out.append("\\u00");
            let u = c as u32;
            push_char(out, hex_char((u / 16) as u8));
            push_char(out, hex_char((u % 16) as u8));
            proof {
                reveal_strlit("\\u00");
                assert(out@ =~= before + esc_char(c));
            }
        } else {
            push_char(out, c);
            proof {
                assert(out@ =~= before + esc_char(c));
            }
        }
        proof {
            assert(ser_str_from(s@, i as int) == esc_char(s@[i as int]) + ser_str_from(
                s@,
                i + 1,
            ));
            assert(out@ + ser_str_from(s@, i + 1) =~= before + ser_str_from(s@, i as int));
        }
        i = i + 1;
    }
    push_char(out, '"');
    proof {
        assert(ser_str_from(s@, s@.len() as int) == Seq::<char>::empty());
        assert(final(out)@ =~= base + ser_string(s@));
    }
}

fn ser_json_into(v: &Json, out: &mut String)
    ensures
        final(out)@ == old(out)@ + ser_json(v@),
    decreases v,
{
    match v {
        Json::Null => out.append("null"),
        Json::Bool(b) => if *b {
            out.append("true")
        } else {
            out.append("false")
        },
        Json::Num(n) => ser_i64_into(*n, out),
        Json::Str(s) => ser_string_into(s, out),
        Json::Arr(a) => {
            let ghost base = out@;
            push_char(out, '[');
            proof {
                assert(out@ =~= base + seq!['[']);
            }
            ser_arr_into(a, out);
            push_char(out, ']');
            proof {
                assert(final(out)@ =~= base + ser_json(v@));
            }
        },
        Json::Obj(o) => {
            let ghost base = out@;
            push_char(out, '{');
            proof {
                assert(out@ =~= base + seq!['{']);
            }
            ser_obj_into(o, out);
            push_char(out, '}');
            proof {
                assert(final(out)@ =~= base + ser_json(v@));
            }
        },
    }
}

fn ser_arr_into(a: &Vec<Json>, out: &mut String)
    ensures
        final(out)@ == old(out)@ + ser_arr_from(view_arr(a@), 0),
    decreases a,
{
    let ghost base = out@;
    let ghost vs = view_arr(a@);
    proof {
        lemma_view_arr_index(a@);
    }
    let mut i: usize = 0;
    while i < a.len()
        invariant
            0 <= i <= a@.len(),
            vs == view_arr(a@),
            vs.len() == a@.len(),
            forall|k: int| 0 <= k < vs.len() ==> #[trigger] vs[k] == view_json(a@[k]),
            out@ + ser_arr_from(vs, i as int) == base + ser_arr_from(vs, 0),
        decreases a@.len() - i,
    {
        let ghost before = out@;
        if i > 0 {
            push_char(out, ',');
        }
        ser_json_into(&a[i], out);
        proof {
            assert(ser_arr_from(vs, i as int) == (if i > 0 {
                seq![',']
            } else {
                Seq::<char>::empty()
            }) + ser_json(vs[i as int]) + ser_arr_from(vs, i + 1));
            assert(out@ + ser_arr_from(vs, i + 1) =~= before + ser_arr_from(vs, i as int));
        }
        i = i + 1;
    }
    proof {
        assert(ser_arr_from(vs, vs.len() as int) == Seq::<char>::empty());
        assert(out@ =~= base + ser_arr_from(vs, 0));
    }
}

fn ser_obj_into(o: &Vec<(String, Json)>, out: &mut String)
    ensures
        final(out)@ == old(out)@ + ser_obj_from(view_obj(o@), 0),
    decreases o,
{
    let ghost base = out@;
    let ghost vs = view_obj(o@);
    proof {
        lemma_view_obj_index(o@);
    }
    let mut i: usize = 0;
    while i < o.len()
        invariant
            0 <= i <= o@.len(),
            vs == view_obj(o@),
            vs.len() == o@.len(),
            forall|k: int| 0 <= k < vs.len() ==> #[trigger] vs[k] == (o@[k].0@, view_json(o@[k].1)),
            out@ + ser_obj_from(vs, i as int) == base + ser_obj_from(vs, 0),
        decreases o@.len() - i,
    {
        let ghost before = out@;
        if i > 0 {
            push_char(out, ',');
        }
        ser_string_into(&o[i].0, out);
        push_char(out, ':');
        ser_json_into(&o[i].1, out);
        proof {
            assert(ser_obj_from(vs, i as int) == (if i > 0 {
                seq![',']
            } else {
                Seq::<char>::empty()
            }) + ser_string(vs[i as int].0) + seq![':'] + ser_json(vs[i as int].1)
                + ser_obj_from(vs, i + 1));
            assert(out@ + ser_obj_from(vs, i + 1) =~= before + ser_obj_from(vs, i as int));
        }
        i = i + 1;
    }
    proof {
        assert(ser_obj_from(vs, vs.len() as int) == Seq::<char>::empty());
        assert(out@ =~= base + ser_obj_from(vs, 0));
    }
}

/// The JSON text of a value, as written to either RPC peer.
pub fn json_to_text(v: &Json) -> (r: String)
    ensures
        r@ == ser_json(v@),
{
    let mut out = String::new();
    ser_json_into(v, &mut out);
    proof {
        assert(out@ =~= ser_json(v@));
    }
    out
}

/// No character of `s` is a control character.
pub open spec fn no_ctrl(s: Seq<char>) -> bool {
    forall|i: int| 0 <= i < s.len() ==> (#[trigger] s[i] as u32) >= 32
}

proof fn lemma_no_ctrl_dec_digits(n: nat)
    ensures
        no_ctrl(dec_digits(n)),
    decreases n,
{
    if n >= 10 {
        lemma_no_ctrl_dec_digits(n / 10);
    }
}

proof fn lemma_no_ctrl_esc_char(c: char)
    ensures
        no_ctrl(esc_char(c)),
{
}

proof fn lemma_no_ctrl_ser_str_from(s: Seq<char>, i: int)
    ensures
        no_ctrl(ser_str_from(s, i)),
    decreases s.len() - i,
{
    if 0 <= i < s.len() {
        lemma_no_ctrl_esc_char(s[i]);
        lemma_no_ctrl_ser_str_from(s, i + 1);
    }
}

proof fn lemma_no_ctrl_ser_string(s: Seq<char>)
    ensures
        no_ctrl(ser_string(s)),
{
    lemma_no_ctrl_ser_str_from(s, 0);
}

/// LAW (framable text): the JSON text of any value contains no control
/// character — in particular no newline — every newline inside a string
/// value being written as an escape. A message followed by the two-newline
/// sentinel therefore carries the sentinel pair only at its very end, as the
/// framing scan on the reading side of this convention requires.
pub proof fn lemma_ser_json_no_control(v: JsonV)
    ensures
        no_ctrl(ser_json(v)),
    decreases v, 0int,
{
    match v {
        JsonV::Null => {
            reveal_strlit("null");
        },
        JsonV::Bool(b) => {
            reveal_strlit("true");
            reveal_strlit("false");
        },
        JsonV::Num(n) => {
            if n < 0 {
                lemma_no_ctrl_dec_digits((-n) as nat);
            } else {
                lemma_no_ctrl_dec_digits(n as nat);
            }
        },
        JsonV::Str(s) => {
            lemma_no_ctrl_ser_string(s);
        },
        JsonV::Arr(a) => {
            lemma_no_ctrl_ser_arr_from(a, 0);
        },
        JsonV::Obj(o) => {
            lemma_no_ctrl_ser_obj_from(o, 0);
        },
    }
}

proof fn lemma_no_ctrl_ser_arr_from(a: Seq<JsonV>, i: int)
    ensures
        no_ctrl(ser_arr_from(a, i)),
    decreases a, a.len() - i,
{
    if 0 <= i < a.len() {
        lemma_ser_json_no_control(a[i]);
        lemma_no_ctrl_ser_arr_from(a, i + 1);
    }
}

proof fn lemma_no_ctrl_ser_obj_from(o: Seq<(Seq<char>, JsonV)>, i: int)
    ensures
        no_ctrl(ser_obj_from(o, i)),
    decreases o, o.len() - i,
{
    if 0 <= i < o.len() {
        lemma_no_ctrl_ser_string(o[i].0);
        lemma_ser_json_no_control(o[i].1);
        lemma_no_ctrl_ser_obj_from(o, i + 1);
    }
}

// ---------------------------------------------------------------------------
// Decimal parsing, for wire fields that carry a number as a string.
// ---------------------------------------------------------------------------

/// Is `c` a decimal digit?
pub open spec fn is_digit(c: char) -> bool {
    48 <= (c as u32) <= 57
}

/// The value of a digit character.
pub open spec fn digit_val(c: char) -> int {
    (c as u32) - 48
}

/// The value of a digit string, most significant digit first.
pub open spec fn digits_val(s: Seq<char>) -> int
    decreases s.len(),
{
    if s.len() == 0 {
        0
    } else {
        digits_val(s.take(s.len() - 1)) * 10 + digit_val(s[s.len() - 1])
    }
}

/// The digit part of an unsigned decimal: everything after an optional
/// leading plus sign.
pub open spec fn u64_digits(s: Seq<char>) -> Seq<char> {
    if s.len() > 0 && s[0] == '+' {
        s.skip(1)
    } else {
        s
    }
}

/// Is every character a decimal digit?
pub open spec fn all_digits(ds: Seq<char>) -> bool {
    forall|i: int| 0 <= i < ds.len() ==> is_digit(#[trigger] ds[i])
}

/// The unsigned decimal grammar: an optional leading plus sign, then one or
/// more digits, and a value that fits in 64 bits.
pub open spec fn parse_u64_chars(s: Seq<char>) -> Option<u64> {
    if u64_digits(s).len() > 0 && all_digits(u64_digits(s)) && digits_val(u64_digits(s))
        <= u64::MAX {
        Some(digits_val(u64_digits(s)) as u64)
    } else {
        None
    }
}

proof fn lemma_digits_val_grows(s: Seq<char>, i: int)
    requires
        0 <= i <= s.len(),
        forall|k: int| 0 <= k < s.len() ==> is_digit(#[trigger] s[k]),
    ensures
        digits_val(s.take(i)) <= digits_val(s),
    decreases s.len() - i,
{
    if i < s.len() {
        lemma_digits_val_grows(s, i + 1);
        assert(s.take(i + 1).take(i) =~= s.take(i));
        assert(digits_val(s.take(i + 1)) == digits_val(s.take(i)) * 10 + digit_val(s[i]));
        assert(digits_val(s.take(i)) >= 0) by {
            lemma_digits_val_nonneg(s.take(i));
        }
        assert(digits_val(s.take(i)) * 10 >= digits_val(s.take(i))) by (nonlinear_arith)
            requires
                digits_val(s.take(i)) >= 0,
        ;
    } else {
        assert(s.take(i) =~= s);
    }
}

proof fn lemma_digits_val_nonneg(s: Seq<char>)
    requires
        forall|k: int| 0 <= k < s.len() ==> is_digit(#[trigger] s[k]),
    ensures
        digits_val(s) >= 0,
    decreases s.len(),
{
    if s.len() > 0 {
        lemma_digits_val_nonneg(s.take(s.len() - 1));
        assert(digits_val(s.take(s.len() - 1)) * 10 >= 0) by (nonlinear_arith)
            requires
                digits_val(s.take(s.len() - 1)) >= 0,
        ;
    }
}

/// Parses an unsigned 64-bit decimal from a string, as the wire's
/// string-borne numeric options use it.
pub fn parse_u64(s: &String) -> (r: Option<u64>)
    ensures
        r == parse_u64_chars(s@),
{
    let cs = str_chars(s.as_str());
    let start: usize = if cs.len() > 0 && cs[0] == '+' {
        1
    } else {
        0
    };
    let ghost ds = u64_digits(s@);
    proof {
        assert(forall|k: int| 0 <= k < ds.len() ==> ds[k] == s@[k + start]);
    }
    if cs.len() == start {
        return None;
    }
    let mut acc: u64 = 0;
    let mut i: usize = start;
    while i < cs.len()
        invariant
            start <= i <= cs@.len(),
            cs@ == s@,
            start == 0 || start == 1,
            start == 1 ==> s@.len() > 0 && s@[0] == '+',
            start == 0 ==> !(s@.len() > 0 && s@[0] == '+'),
            ds == u64_digits(s@),
            ds.len() == cs@.len() - start,
            forall|k: int| 0 <= k < ds.len() ==> ds[k] == s@[k + start],
            forall|k: int| 0 <= k < i - start ==> is_digit(#[trigger] ds[k]),
            acc == digits_val(ds.take(i - start)),
        decreases cs@.len() - i,
    {
        let c = cs[i];
        let u = c as u32;
        if u < 48 || u > 57 {
            proof {
                assert(ds[i - start] == s@[i as int]);
                assert(!is_digit(ds[i - start]));
                assert(0 <= i - start < ds.len());
                assert(!all_digits(ds));
                assert(parse_u64_chars(s@) is None);
            }
            return None;
        }
        let d = (u - 48) as u64;
        if acc > (u64::MAX - d) / 10 {
            proof {
                assert(is_digit(ds[i - start]));
                assert(forall|k: int| 0 <= k < i + 1 - start ==> is_digit(#[trigger] ds[k]));
                assert(ds.take(i + 1 - start).take(i - start) =~= ds.take(i - start));
                assert(digits_val(ds.take(i + 1 - start)) == acc * 10 + d);
                assert(acc * 10 + d > u64::MAX) by (nonlinear_arith)
                    requires
                        acc > (u64::MAX - d) / 10,
                        0 <= d <= 9,
                        acc >= 0,
                ;
                if all_digits(ds) {
                    lemma_digits_val_grows(ds, i + 1 - start);
                    assert(digits_val(ds) > u64::MAX);
                }
                assert(parse_u64_chars(s@) is None);
            }
            return None;
        }
        proof {
            assert(acc * 10 + d <= u64::MAX) by (nonlinear_arith)
                requires
                    acc <= (u64::MAX - d) / 10,
                    0 <= d <= 9,
                    acc >= 0,
            ;
            assert(ds.take(i + 1 - start).take(i - start) =~= ds.take(i - start));
            assert(ds.take(i + 1 - start)[i - start] == ds[i - start]);
        }
        acc = acc * 10 + d;
        i = i + 1;
    }
    proof {
        assert(ds.take(ds.len() as int) =~= ds);
        assert(digits_val(ds) == acc);
        assert(digits_val(ds) <= u64::MAX);
    }
    Some(acc)
}

} // verus!
