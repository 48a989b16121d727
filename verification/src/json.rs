//! A small JSON value model: the remote content document is a JSON text,
//! and the schema layer decodes entries out of these values.

use vstd::prelude::*;

verus! {

/// Mathematical model of a JSON value.
#[verifier::ext_equal]
pub ghost enum JsonV {
    Null,
    Bool(bool),
    /// A number, kept as its lexeme (the schema itself holds no numbers).
    Num(Seq<char>),
    Str(Seq<char>),
    Arr(Seq<JsonV>),
    Obj(Seq<(Seq<char>, JsonV)>),
}

/// A JSON value as executable data.
pub enum Json {
    Null,
    Bool(bool),
    Num(String),
    Str(String),
    Arr(Vec<Json>),
    Obj(Vec<(String, Json)>),
}

impl View for Json {
    type V = JsonV;

    open spec fn view(&self) -> JsonV {
        json_view(*self)
    }
}

pub open spec fn json_view(j: Json) -> JsonV
    decreases j,
    via json_view_decreases
{
    match j {
        Json::Null => JsonV::Null,
        Json::Bool(b) => JsonV::Bool(b),
        Json::Num(s) => JsonV::Num(s@),
        Json::Str(s) => JsonV::Str(s@),
        Json::Arr(v) => JsonV::Arr(arr_view(v@)),
        Json::Obj(v) => JsonV::Obj(obj_view(v@)),
    }
}

#[via_fn]
proof fn json_view_decreases(j: Json) {
    match j {
        Json::Arr(v) => {
            assert(decreases_to!(j => v));
            assert(decreases_to!(v => v@));
            assert(decreases_to!(j => v@));
        },
        Json::Obj(v) => {
            assert(decreases_to!(j => v));
            assert(decreases_to!(v => v@));
            assert(decreases_to!(j => v@));
        },
        _ => {},
    }
}

/// The values of a JSON array, element by element.
pub open spec fn arr_view(x: Seq<Json>) -> Seq<JsonV>
    decreases x,
{
    Seq::new(
        x.len(),
        |i: int|
            if 0 <= i < x.len() {
                json_view(x[i])
            } else {
                JsonV::Null
            },
    )
}

/// The members of a JSON object, pair by pair.
pub open spec fn obj_view(x: Seq<(String, Json)>) -> Seq<(Seq<char>, JsonV)>
    decreases x,
    via obj_view_decreases
{
    Seq::new(
        x.len(),
        |i: int|
            if 0 <= i < x.len() {
                (x[i].0@, json_view(x[i].1))
            } else {
                (Seq::empty(), JsonV::Null)
            },
    )
}

#[via_fn]
proof fn obj_view_decreases(x: Seq<(String, Json)>) {
    assert forall|i: int| 0 <= i < x.len() implies decreases_to!(x => x[i].1) by {
        assert(decreases_to!(x => x[i]));
        assert(decreases_to!(x[i] => x[i].1));
    }
}

// ---------------------------------------------------------------------------
// Character classes
// ---------------------------------------------------------------------------
/// JSON insignificant whitespace.
pub open spec fn spec_ws_char(c: char) -> bool {
    c == ' ' || c == '\n' || c == '\r' || c == '\t'
}

pub open spec fn spec_digit(c: char) -> bool {
    0x30 <= c as u32 <= 0x39
}

/// The lower-case hex digit for a value below 16.
pub open spec fn spec_hex_digit_char(n: u32) -> char
    recommends
        n < 16,
{
    if n < 10 {
        ((0x30 + n) as u32) as char
    } else {
        ((0x61 + n - 10) as u32) as char
    }
}

/// The value of a hex digit character, or 16 for any other character.
pub open spec fn spec_hex_val(c: char) -> u32 {
    if 0x30 <= c as u32 <= 0x39 {
        (c as u32 - 0x30) as u32
    } else if 0x61 <= c as u32 <= 0x66 {
        (c as u32 - 0x61 + 10) as u32
    } else if 0x41 <= c as u32 <= 0x46 {
        (c as u32 - 0x41 + 10) as u32
    } else {
        16
    }
}

// ---------------------------------------------------------------------------
// Encoding
// ---------------------------------------------------------------------------
/// How one character of a string is written inside a JSON string literal.
pub open spec fn spec_escape_char(c: char) -> Seq<char> {
    if c == '"' {
        seq!['\\', '"']
    } else if c == '\\' {
        seq!['\\', '\\']
    } else if c == '\n' {
        seq!['\\', 'n']
    } else if c == '\t' {
        seq!['\\', 't']
    } else if c == '\r' {
        seq!['\\', 'r']
    } else if c as u32 == 0x08 {
        seq!['\\', 'b']
    } else if c as u32 == 0x0C {
        seq!['\\', 'f']
    } else if (c as u32) < 0x20 {
        seq!['\\', 'u', '0', '0', spec_hex_digit_char(c as u32 / 16), spec_hex_digit_char(c as u32 % 16)]
    } else {
        seq![c]
    }
}

/// The body of a JSON string literal for the character sequence `s`.
pub open spec fn spec_escape_string(s: Seq<char>) -> Seq<char>
    decreases s.len(),
{
    if s.len() == 0 {
        Seq::empty()
    } else {
        spec_escape_char(s[0]) + spec_escape_string(s.subrange(1, s.len() as int))
    }
}

/// The canonical (whitespace-free) JSON text of a value.
pub open spec fn spec_encode(j: JsonV) -> Seq<char>
    decreases j,
{
    match j {
        JsonV::Null => seq!['n', 'u', 'l', 'l'],
        JsonV::Bool(b) => if b {
            seq!['t', 'r', 'u', 'e']
        } else {
            seq!['f', 'a', 'l', 's', 'e']
        },
        JsonV::Num(s) => s,
        JsonV::Str(s) => seq!['"'] + spec_escape_string(s) + seq!['"'],
        JsonV::Arr(a) => seq!['['] + spec_encode_elems(a) + seq![']'],
        JsonV::Obj(m) => seq!['{'] + spec_encode_members(m) + seq!['}'],
    }
}

pub open spec fn spec_encode_elems(a: Seq<JsonV>) -> Seq<char>
    decreases a,
{
    if a.len() == 0 {
        Seq::empty()
    } else if a.len() == 1 {
        spec_encode(a[0])
    } else {
        spec_encode(a[0]) + seq![','] + spec_encode_elems(a.subrange(1, a.len() as int))
    }
}

/// The text of one object member: quoted key, colon, value.
pub open spec fn spec_encode_member(k: Seq<char>, v: JsonV) -> Seq<char> {
    seq!['"'] + spec_escape_string(k) + seq!['"', ':'] + spec_encode(v)
}

pub open spec fn spec_encode_members(m: Seq<(Seq<char>, JsonV)>) -> Seq<char>
    decreases m,
    via spec_encode_members_decreases
{
    if m.len() == 0 {
        Seq::empty()
    } else if m.len() == 1 {
        seq!['"'] + spec_escape_string(m[0].0) + seq!['"', ':'] + spec_encode(m[0].1)
    } else {
        seq!['"'] + spec_escape_string(m[0].0) + seq!['"', ':'] + spec_encode(m[0].1) + seq![',']
            + spec_encode_members(m.subrange(1, m.len() as int))
    }
}

#[via_fn]
proof fn spec_encode_members_decreases(m: Seq<(Seq<char>, JsonV)>) {
    if m.len() > 0 {
        assert(decreases_to!(m => m[0]));
        assert(decreases_to!(m[0] => m[0].1));
        assert(decreases_to!(m => m[0].1));
    }
}

// ---------------------------------------------------------------------------
// Well-formed values
// ---------------------------------------------------------------------------
/// A valid JSON number lexeme: `-?(0|[1-9][0-9]*)(\.[0-9]+)?([eE][+-]?[0-9]+)?`.
pub open spec fn spec_wf_num(s: Seq<char>) -> bool {
    exists|i: int, f: int, e: int| #[trigger] spec_num_shape(s, i, f, e)
}

/// `s` splits at `i` (end of the integer part), `f` (end of the fraction)
/// and `e == s.len()` (end of the exponent) into the three number parts.
pub open spec fn spec_num_shape(s: Seq<char>, i: int, f: int, e: int) -> bool {
    let b = if s.len() > 0 && s[0] == '-' {
        1int
    } else {
        0int
    };
    &&& 0 <= b < i <= f <= e == s.len()
    &&& (forall|k: int| b <= k < i ==> spec_digit(#[trigger] s[k]))
    &&& (s[b] == '0' ==> i == b + 1)
    &&& (if f == i {
        true
    } else {
        s[i] == '.' && i + 1 < f && forall|k: int| i + 1 <= k < f ==> spec_digit(#[trigger] s[k])
    })
    &&& (if e == f {
        true
    } else {
        &&& (s[f] == 'e' || s[f] == 'E')
        &&& {
            let d = if f + 1 < e && (s[f + 1] == '+' || s[f + 1] == '-') {
                f + 2
            } else {
                f + 1
            };
            d < e && forall|k: int| d <= k < e ==> spec_digit(#[trigger] s[k])
        }
    })
}

/// Values the encoder is correct for: number lexemes follow the grammar.
pub open spec fn spec_wf_json(j: JsonV) -> bool
    decreases j,
{
    match j {
        JsonV::Null => true,
        JsonV::Bool(_) => true,
        JsonV::Num(s) => spec_wf_num(s),
        JsonV::Str(_) => true,
        JsonV::Arr(a) => forall|i: int| 0 <= i < a.len() ==> spec_wf_json(#[trigger] a[i]),
        JsonV::Obj(m) => forall|i: int| 0 <= i < m.len() ==> spec_wf_json(#[trigger] m[i].1),
    }
}

// ---------------------------------------------------------------------------
// Parsing: a functional description over the character sequence.  Each
// function takes a position and returns the parsed piece with the position
// after it, or `None` where the text is not JSON.
// ---------------------------------------------------------------------------
/// First position at or after `i` that does not hold whitespace.
pub open spec fn spec_skip_ws(s: Seq<char>, i: int) -> int
    decreases s.len() - i,
    when 0 <= i <= s.len()
{
    if i < s.len() && spec_ws_char(s[i]) {
        spec_skip_ws(s, i + 1)
    } else {
        i
    }
}

/// First position at or after `i` that does not hold a digit.
pub open spec fn spec_skip_digits(s: Seq<char>, i: int) -> int
    decreases s.len() - i,
    when 0 <= i <= s.len()
{
    if i < s.len() && spec_digit(s[i]) {
        spec_skip_digits(s, i + 1)
    } else {
        i
    }
}

/// The character written by a one-letter escape, if the letter is one.
pub open spec fn spec_unescape(e: char) -> Option<char> {
    if e == '"' {
        Some('"')
    } else if e == '\\' {
        Some('\\')
    } else if e == '/' {
        Some('/')
    } else if e == 'n' {
        Some('\n')
    } else if e == 't' {
        Some('\t')
    } else if e == 'r' {
        Some('\r')
    } else if e == 'b' {
        Some(0x08u32 as char)
    } else if e == 'f' {
        Some(0x0Cu32 as char)
    } else {
        None
    }
}

/// String contents from `i` (just after the opening quote) up to and over the
/// closing quote.  Surrogate escapes are rejected.
pub open spec fn spec_parse_chars(s: Seq<char>, i: int) -> Option<(Seq<char>, int)>
    decreases s.len() - i, 0int,
    when 0 <= i <= s.len()
{
    if i >= s.len() {
        None
    } else if s[i] == '"' {
        Some((Seq::empty(), i + 1))
    } else if s[i] == '\\' {
        if i + 1 >= s.len() {
            None
        } else if s[i + 1] == 'u' {
            if i + 6 <= s.len() && spec_hex_val(s[i + 2]) < 16 && spec_hex_val(s[i + 3]) < 16
                && spec_hex_val(s[i + 4]) < 16 && spec_hex_val(s[i + 5]) < 16 {
                let n = spec_hex_val(s[i + 2]) * 0x1000 + spec_hex_val(s[i + 3]) * 0x100
                    + spec_hex_val(s[i + 4]) * 16 + spec_hex_val(s[i + 5]);
                if 0xD800 <= n < 0xE000 {
                    None
                } else {
                    match spec_parse_chars(s, i + 6) {
                        Some((rest, j)) => Some((seq![(n as u32) as char] + rest, j)),
                        None => None,
                    }
                }
            } else {
                None
            }
        } else {
            match spec_unescape(s[i + 1]) {
                Some(c) => match spec_parse_chars(s, i + 2) {
                    Some((rest, j)) => Some((seq![c] + rest, j)),
                    None => None,
                },
                None => None,
            }
        }
    } else if (s[i] as u32) < 0x20 {
        None
    } else {
        match spec_parse_chars(s, i + 1) {
            Some((rest, j)) => Some((seq![s[i]] + rest, j)),
            None => None,
        }
    }
}

/// A string literal starting at `i` with its opening quote.
pub open spec fn spec_parse_string(s: Seq<char>, i: int) -> Option<(Seq<char>, int)>
    decreases s.len() - i, 1int,
    when 0 <= i <= s.len()
{
    if i < s.len() && s[i] == '"' {
        spec_parse_chars(s, i + 1)
    } else {
        None
    }
}

/// A number lexeme starting at `i`.
pub open spec fn spec_parse_number(s: Seq<char>, i: int) -> Option<(Seq<char>, int)>
    recommends
        0 <= i <= s.len(),
{
    let b = if i < s.len() && s[i] == '-' {
        i + 1
    } else {
        i
    };
    if b < s.len() && spec_digit(s[b]) {
        let ip = if s[b] == '0' {
            b + 1
        } else {
            spec_skip_digits(s, b)
        };
        if ip < s.len() && spec_digit(s[ip]) {
            None
        } else {
            let fp = if ip < s.len() && s[ip] == '.' {
                if ip + 1 < s.len() && spec_digit(s[ip + 1]) {
                    spec_skip_digits(s, ip + 1)
                } else {
                    -1
                }
            } else {
                ip
            };
            if fp < 0 {
                None
            } else {
                let ep = if fp < s.len() && (s[fp] == 'e' || s[fp] == 'E') {
                    let sp = if fp + 1 < s.len() && (s[fp + 1] == '+' || s[fp + 1] == '-') {
                        fp + 2
                    } else {
                        fp + 1
                    };
                    if sp < s.len() && spec_digit(s[sp]) {
                        spec_skip_digits(s, sp)
                    } else {
                        -1
                    }
                } else {
                    fp
                };
                if ep < 0 {
                    None
                } else {
                    Some((s.subrange(i, ep), ep))
                }
            }
        }
    } else {
        None
    }
}

/// A value starting exactly at `i` (no leading whitespace).
pub open spec fn spec_parse_value(s: Seq<char>, i: int) -> Option<(JsonV, int)>
    decreases s.len() - i, 2int,
    when 0 <= i <= s.len()
{
    if i >= s.len() {
        None
    } else if s[i] == 'n' {
        if i + 4 <= s.len() && s[i + 1] == 'u' && s[i + 2] == 'l' && s[i + 3] == 'l' {
            Some((JsonV::Null, i + 4))
        } else {
            None
        }
    } else if s[i] == 't' {
        if i + 4 <= s.len() && s[i + 1] == 'r' && s[i + 2] == 'u' && s[i + 3] == 'e' {
            Some((JsonV::Bool(true), i + 4))
        } else {
            None
        }
    } else if s[i] == 'f' {
        if i + 5 <= s.len() && s[i + 1] == 'a' && s[i + 2] == 'l' && s[i + 3] == 's' && s[i + 4]
            == 'e' {
            Some((JsonV::Bool(false), i + 5))
        } else {
            None
        }
    } else if s[i] == '"' {
        match spec_parse_chars(s, i + 1) {
            Some((cs, j)) => Some((JsonV::Str(cs), j)),
            None => None,
        }
    } else if s[i] == '[' {
        let j = spec_skip_ws(s, i + 1);
        if j < s.len() && s[j] == ']' {
            Some((JsonV::Arr(Seq::empty()), j + 1))
        } else if i < j <= s.len() {
            match spec_parse_elems(s, j) {
                Some((es, k)) => Some((JsonV::Arr(es), k)),
                None => None,
            }
        } else {
            None
        }
    } else if s[i] == '{' {
        let j = spec_skip_ws(s, i + 1);
        if j < s.len() && s[j] == '}' {
            Some((JsonV::Obj(Seq::empty()), j + 1))
        } else if i < j <= s.len() {
            match spec_parse_members(s, j) {
                Some((ms, k)) => Some((JsonV::Obj(ms), k)),
                None => None,
            }
        } else {
            None
        }
    } else if s[i] == '-' || spec_digit(s[i]) {
        match spec_parse_number(s, i) {
            Some((ns, j)) => Some((JsonV::Num(ns), j)),
            None => None,
        }
    } else {
        None
    }
}

/// Comma-separated values from `i` up to and over the closing bracket.
pub open spec fn spec_parse_elems(s: Seq<char>, i: int) -> Option<(Seq<JsonV>, int)>
    decreases s.len() - i, 3int,
    when 0 <= i <= s.len()
{
    match spec_parse_value(s, i) {
        None => None,
        Some((v, j)) => if i <= j <= s.len() {
            let k = spec_skip_ws(s, j);
            if k < s.len() && s[k] == ',' {
                let m = spec_skip_ws(s, k + 1);
                if i < m <= s.len() {
                    match spec_parse_elems(s, m) {
                        Some((rest, e)) => Some((seq![v] + rest, e)),
                        None => None,
                    }
                } else {
                    None
                }
            } else if k < s.len() && s[k] == ']' {
                Some((seq![v], k + 1))
            } else {
                None
            }
        } else {
            None
        },
    }
}

/// Comma-separated members from `i` up to and over the closing brace.
pub open spec fn spec_parse_members(s: Seq<char>, i: int) -> Option<
    (Seq<(Seq<char>, JsonV)>, int),
>
    decreases s.len() - i, 3int,
    when 0 <= i <= s.len()
{
    match spec_parse_string(s, i) {
        None => None,
        Some((key, j)) => if i <= j <= s.len() {
            let c = spec_skip_ws(s, j);
            if c < s.len() && s[c] == ':' {
                let v0 = spec_skip_ws(s, c + 1);
                if i <= v0 <= s.len() {
                    match spec_parse_value(s, v0) {
                        None => None,
                        Some((v, j2)) => if i <= j2 <= s.len() {
                            let k = spec_skip_ws(s, j2);
                            if k < s.len() && s[k] == ',' {
                                let m = spec_skip_ws(s, k + 1);
                                if i < m <= s.len() {
                                    match spec_parse_members(s, m) {
                                        Some((rest, e)) => Some((seq![(key, v)] + rest, e)),
                                        None => None,
                                    }
                                } else {
                                    None
                                }
                            } else if k < s.len() && s[k] == '}' {
                                Some((seq![(key, v)], k + 1))
                            } else {
                                None
                            }
                        } else {
                            None
                        },
                    }
                } else {
                    None
                }
            } else {
                None
            }
        } else {
            None
        },
    }
}

// ---------------------------------------------------------------------------
// Unrolling the encoding from the right, as the encoder emits it.
// ---------------------------------------------------------------------------
pub proof fn lemma_escape_string_snoc(s: Seq<char>, c: char)
    ensures
        spec_escape_string(s.push(c)) == spec_escape_string(s) + spec_escape_char(c),
    decreases s.len(),
{
    if s.len() == 0 {
        assert(s.push(c)[0] == c);
        assert(s.push(c).subrange(1, 1) =~= Seq::<char>::empty());
        assert(spec_escape_string(Seq::empty()) == Seq::<char>::empty());
        assert(spec_escape_char(c) + Seq::empty() =~= spec_escape_char(c));
        assert(spec_escape_string(s) + spec_escape_char(c) =~= spec_escape_char(c));
    } else {
        let t = s.push(c);
        assert(t[0] == s[0]);
        assert(t.subrange(1, t.len() as int) =~= s.subrange(1, s.len() as int).push(c));
        lemma_escape_string_snoc(s.subrange(1, s.len() as int), c);
        assert(spec_escape_char(s[0]) + (spec_escape_string(s.subrange(1, s.len() as int))
            + spec_escape_char(c)) =~= (spec_escape_char(s[0]) + spec_escape_string(
            s.subrange(1, s.len() as int),
        )) + spec_escape_char(c));
    }
}

pub proof fn lemma_encode_elems_snoc(a: Seq<JsonV>, x: JsonV)
    ensures
        spec_encode_elems(a.push(x)) == if a.len() == 0 {
            spec_encode(x)
        } else {
            spec_encode_elems(a) + seq![','] + spec_encode(x)
        },
    decreases a.len(),
{
    let t = a.push(x);
    if a.len() == 0 {
        assert(t.len() == 1 && t[0] == x);
    } else if a.len() == 1 {
        assert(t[0] == a[0]);
        assert(t.subrange(1, 2) =~= seq![x]);
        assert(spec_encode_elems(seq![x]) == spec_encode(x));
        assert(spec_encode(a[0]) + seq![','] + spec_encode(x) == spec_encode_elems(a) + seq![',']
            + spec_encode(x));
    } else {
        assert(t[0] == a[0]);
        let arest = a.subrange(1, a.len() as int);
        assert(t.subrange(1, t.len() as int) =~= arest.push(x));
        lemma_encode_elems_snoc(arest, x);
        assert(spec_encode(a[0]) + seq![','] + (spec_encode_elems(arest) + seq![','] + spec_encode(
            x,
        )) =~= (spec_encode(a[0]) + seq![','] + spec_encode_elems(arest)) + seq![','] + spec_encode(
            x,
        ));
    }
}

pub proof fn lemma_encode_members_snoc(m: Seq<(Seq<char>, JsonV)>, k: Seq<char>, x: JsonV)
    ensures
        spec_encode_members(m.push((k, x))) == if m.len() == 0 {
            spec_encode_member(k, x)
        } else {
            spec_encode_members(m) + seq![','] + spec_encode_member(k, x)
        },
    decreases m.len(),
{
    let t = m.push((k, x));
    if m.len() == 0 {
        assert(t.len() == 1 && t[0] == (k, x));
    } else if m.len() == 1 {
        assert(t[0] == m[0]);
        assert(t.subrange(1, 2) =~= seq![(k, x)]);
        assert(spec_encode_members(seq![(k, x)]) == spec_encode_member(k, x));
        assert(spec_encode_members(t) == spec_encode_member(m[0].0, m[0].1) + seq![',']
            + spec_encode_member(k, x));
        assert(spec_encode_members(m) == spec_encode_member(m[0].0, m[0].1));
    } else {
        assert(t[0] == m[0]);
        let mrest = m.subrange(1, m.len() as int);
        assert(t.subrange(1, t.len() as int) =~= mrest.push((k, x)));
        lemma_encode_members_snoc(mrest, k, x);
        assert(spec_encode_member(m[0].0, m[0].1) + seq![','] + (spec_encode_members(mrest)
            + seq![','] + spec_encode_member(k, x)) =~= (spec_encode_member(m[0].0, m[0].1)
            + seq![','] + spec_encode_members(mrest)) + seq![','] + spec_encode_member(k, x));
    }
}

// ---------------------------------------------------------------------------
// Positions only move forward and stay inside the text.
// ---------------------------------------------------------------------------
pub proof fn lemma_skip_ws_bounds(s: Seq<char>, i: int)
    requires
        0 <= i <= s.len(),
    ensures
        i <= spec_skip_ws(s, i) <= s.len(),
        forall|k: int| i <= k < spec_skip_ws(s, i) ==> spec_ws_char(#[trigger] s[k]),
        spec_skip_ws(s, i) < s.len() ==> !spec_ws_char(s[spec_skip_ws(s, i)]),
    decreases s.len() - i,
{
    if i < s.len() && spec_ws_char(s[i]) {
        lemma_skip_ws_bounds(s, i + 1);
    }
}

pub proof fn lemma_skip_digits_bounds(s: Seq<char>, i: int)
    requires
        0 <= i <= s.len(),
    ensures
        i <= spec_skip_digits(s, i) <= s.len(),
        forall|k: int| i <= k < spec_skip_digits(s, i) ==> spec_digit(#[trigger] s[k]),
        spec_skip_digits(s, i) < s.len() ==> !spec_digit(s[spec_skip_digits(s, i)]),
    decreases s.len() - i,
{
    if i < s.len() && spec_digit(s[i]) {
        lemma_skip_digits_bounds(s, i + 1);
    }
}

pub proof fn lemma_parse_chars_bounds(s: Seq<char>, i: int)
    requires
        0 <= i <= s.len(),
    ensures
        spec_parse_chars(s, i) matches Some((cs, j)) ==> i < j <= s.len(),
    decreases s.len() - i,
{
    if i < s.len() && s[i] != '"' {
        if s[i] == '\\' && i + 1 < s.len() {
            if s[i + 1] == 'u' {
                if i + 6 <= s.len() {
                    lemma_parse_chars_bounds(s, i + 6);
                }
            } else {
                lemma_parse_chars_bounds(s, i + 2);
            }
        } else if (s[i] as u32) >= 0x20 {
            lemma_parse_chars_bounds(s, i + 1);
        }
    }
}

pub proof fn lemma_parse_string_bounds(s: Seq<char>, i: int)
    requires
        0 <= i <= s.len(),
    ensures
        spec_parse_string(s, i) matches Some((cs, j)) ==> i < j <= s.len(),
{
    if i < s.len() && s[i] == '"' {
        lemma_parse_chars_bounds(s, i + 1);
    }
}

pub proof fn lemma_parse_number_bounds(s: Seq<char>, i: int)
    requires
        0 <= i <= s.len(),
    ensures
        spec_parse_number(s, i) matches Some((ns, j))
            ==> i < j <= s.len() && ns == s.subrange(i, j),
{
    let b = if i < s.len() && s[i] == '-' {
        i + 1
    } else {
        i
    };
    if b < s.len() && spec_digit(s[b]) {
        lemma_skip_digits_bounds(s, b);
        let ip = if s[b] == '0' {
            b + 1
        } else {
            spec_skip_digits(s, b)
        };
        assert(spec_digit(s[b]) ==> spec_skip_digits(s, b) == spec_skip_digits(s, b + 1));
        lemma_skip_digits_bounds(s, b + 1);
        if !(ip < s.len() && spec_digit(s[ip])) {
            if ip < s.len() && s[ip] == '.' {
                if ip + 1 < s.len() && spec_digit(s[ip + 1]) {
                    lemma_skip_digits_bounds(s, ip + 1);
                }
            }
            let fp = if ip < s.len() && s[ip] == '.' {
                if ip + 1 < s.len() && spec_digit(s[ip + 1]) {
                    spec_skip_digits(s, ip + 1)
                } else {
                    -1
                }
            } else {
                ip
            };
            if fp >= 0 {
                if fp < s.len() && (s[fp] == 'e' || s[fp] == 'E') {
                    let sp = if fp + 1 < s.len() && (s[fp + 1] == '+' || s[fp + 1] == '-') {
                        fp + 2
                    } else {
                        fp + 1
                    };
                    if sp < s.len() && spec_digit(s[sp]) {
                        lemma_skip_digits_bounds(s, sp);
                    }
                }
            }
        }
    }
}

pub proof fn lemma_parse_value_bounds(s: Seq<char>, i: int)
    requires
        0 <= i <= s.len(),
    ensures
        spec_parse_value(s, i) matches Some((v, j)) ==> i < j <= s.len(),
    decreases s.len() - i, 2int,
{
    if i < s.len() {
        if s[i] == '"' {
            lemma_parse_chars_bounds(s, i + 1);
        } else if s[i] == '[' {
            lemma_skip_ws_bounds(s, i + 1);
            let j = spec_skip_ws(s, i + 1);
            if !(j < s.len() && s[j] == ']') && i < j <= s.len() {
                lemma_parse_elems_bounds(s, j);
            }
        } else if s[i] == '{' {
            lemma_skip_ws_bounds(s, i + 1);
            let j = spec_skip_ws(s, i + 1);
            if !(j < s.len() && s[j] == '}') && i < j <= s.len() {
                lemma_parse_members_bounds(s, j);
            }
        } else if s[i] == '-' || spec_digit(s[i]) {
            lemma_parse_number_bounds(s, i);
        }
    }
}

pub proof fn lemma_parse_elems_bounds(s: Seq<char>, i: int)
    requires
        0 <= i <= s.len(),
    ensures
        spec_parse_elems(s, i) matches Some((es, j)) ==> i < j <= s.len() && es.len() > 0,
    decreases s.len() - i, 3int,
{
    lemma_parse_value_bounds(s, i);
    if let Some((v, j)) = spec_parse_value(s, i) {
        if i <= j <= s.len() {
            lemma_skip_ws_bounds(s, j);
            let k = spec_skip_ws(s, j);
            if k < s.len() && s[k] == ',' {
                lemma_skip_ws_bounds(s, k + 1);
                let m = spec_skip_ws(s, k + 1);
                if i < m <= s.len() {
                    lemma_parse_elems_bounds(s, m);
                }
            }
        }
    }
}

pub proof fn lemma_parse_members_bounds(s: Seq<char>, i: int)
    requires
        0 <= i <= s.len(),
    ensures
        spec_parse_members(s, i) matches Some((ms, j)) ==> i < j <= s.len() && ms.len() > 0,
    decreases s.len() - i, 3int,
{
    lemma_parse_string_bounds(s, i);
    if let Some((key, j)) = spec_parse_string(s, i) {
        if i <= j <= s.len() {
            lemma_skip_ws_bounds(s, j);
            let c = spec_skip_ws(s, j);
            if c < s.len() && s[c] == ':' {
                lemma_skip_ws_bounds(s, c + 1);
                let v0 = spec_skip_ws(s, c + 1);
                if i <= v0 <= s.len() {
                    lemma_parse_value_bounds(s, v0);
                    if let Some((v, j2)) = spec_parse_value(s, v0) {
                        if i <= j2 <= s.len() {
                            lemma_skip_ws_bounds(s, j2);
                            let k = spec_skip_ws(s, j2);
                            if k < s.len() && s[k] == ',' {
                                lemma_skip_ws_bounds(s, k + 1);
                                let m = spec_skip_ws(s, k + 1);
                                if i < m <= s.len() {
                                    lemma_parse_members_bounds(s, m);
                                }
                            }
                        }
                    }
                }
            }
        }
    }
}

// ---------------------------------------------------------------------------
// Parsing inverts encoding.  The lemmas speak of an encoding embedded in a
// longer text, since values sit inside arrays and objects.
// ---------------------------------------------------------------------------
/// A character that could extend a number lexeme to its right.
pub open spec fn spec_num_ext_char(c: char) -> bool {
    spec_digit(c) || c == '.' || c == 'e' || c == 'E' || c == '+' || c == '-'
}

/// Hex digits read back as their value.
proof fn lemma_hex_digit_roundtrip(n: u32)
    requires
        n < 16,
    ensures
        spec_hex_val(spec_hex_digit_char(n)) == n,
{
}

/// A digit run ends exactly at the first non-digit.
proof fn lemma_skip_digits_exact(s: Seq<char>, x: int, y: int)
    requires
        0 <= x <= y <= s.len(),
        forall|k: int| x <= k < y ==> spec_digit(#[trigger] s[k]),
        y == s.len() || !spec_digit(s[y]),
    ensures
        spec_skip_digits(s, x) == y,
    decreases y - x,
{
    if x < y {
        lemma_skip_digits_exact(s, x + 1, y);
    }
}

/// A whitespace run ends exactly at the first non-whitespace.
proof fn lemma_skip_ws_exact(s: Seq<char>, x: int, y: int)
    requires
        0 <= x <= y <= s.len(),
        forall|k: int| x <= k < y ==> spec_ws_char(#[trigger] s[k]),
        y == s.len() || !spec_ws_char(s[y]),
    ensures
        spec_skip_ws(s, x) == y,
    decreases y - x,
{
    if x < y {
        lemma_skip_ws_exact(s, x + 1, y);
    }
}

/// What an encoding starts with: never empty, never whitespace, and never a
/// closing bracket or separator.
proof fn lemma_encode_first(j: JsonV)
    requires
        spec_wf_json(j),
    ensures
        spec_encode(j).len() > 0,
        !spec_ws_char(spec_encode(j)[0]),
        spec_encode(j)[0] != ']',
        spec_encode(j)[0] != '}',
        spec_encode(j)[0] != ',',
        spec_encode(j)[0] != ':',
    decreases j,
{
    match j {
        JsonV::Num(nm) => {
            let (ii, ff, ee) = choose|ii: int, ff: int, ee: int| spec_num_shape(nm, ii, ff, ee);
            assert(spec_num_shape(nm, ii, ff, ee));
            assert(nm.len() > 0);
            if nm[0] != '-' {
                assert(spec_digit(nm[0]));
            }
        },
        _ => {},
    }
}

/// Reading string contents back from their escaped text gives the contents.
proof fn lemma_parse_chars_embed(s: Seq<char>, i: int, cs: Seq<char>)
    requires
        0 <= i,
        i + spec_escape_string(cs).len() + 1 <= s.len(),
        s.subrange(i, i + spec_escape_string(cs).len() as int) == spec_escape_string(cs),
        s[i + spec_escape_string(cs).len()] == '"',
    ensures
        spec_parse_chars(s, i) == Some((cs, i + spec_escape_string(cs).len() + 1)),
    decreases cs.len(),
{
    let esc = spec_escape_string(cs);
    assert forall|k: int| 0 <= k < esc.len() implies s[i + k] == esc[k] by {
        assert(s.subrange(i, i + esc.len() as int)[k] == s[i + k]);
    }
    if cs.len() == 0 {
        assert(s[i] == '"');
        assert(Seq::<char>::empty() =~= cs);
    } else {
        let c = cs[0];
        let e0 = spec_escape_char(c);
        let rest = cs.subrange(1, cs.len() as int);
        let erest = spec_escape_string(rest);
        assert(esc == e0 + erest);
        assert forall|k: int| 0 <= k < e0.len() implies esc[k] == e0[k] by {
            assert((e0 + erest)[k] == e0[k]);
        }
        assert forall|k: int| 0 <= k < erest.len() implies esc[e0.len() + k] == erest[k] by {
            assert((e0 + erest)[e0.len() + k] == erest[k]);
        }
        let i2 = i + e0.len() as int;
        assert(s.subrange(i2, i2 + erest.len() as int) =~= erest);
        assert(s[i2 + erest.len()] == '"');
        lemma_parse_chars_embed(s, i2, rest);
        if c == '"' || c == '\\' || c == '\n' || c == '\t' || c == '\r' || c as u32 == 0x08 || c
            as u32 == 0x0C {
            assert(s[i] == '\\');
            if c == '"' {
                assert(s[i + 1] == '"');
            } else if c == '\\' {
                assert(s[i + 1] == '\\');
            } else if c == '\n' {
                assert(s[i + 1] == 'n');
            } else if c == '\t' {
                assert(s[i + 1] == 't');
            } else if c == '\r' {
                assert(s[i + 1] == 'r');
            } else if c as u32 == 0x08 {
                assert(s[i + 1] == 'b');
                vstd::utf8::char_u32_cast(c, c as u32);
                assert(0x08u32 as char == c);
            } else {
                assert(s[i + 1] == 'f');
                vstd::utf8::char_u32_cast(c, c as u32);
                assert(0x0Cu32 as char == c);
            }
            assert(spec_unescape(s[i + 1]) == Some(c));
            assert(seq![c] + rest =~= cs);
        } else if (c as u32) < 0x20 {
            assert(s[i] == '\\' && s[i + 1] == 'u' && s[i + 2] == '0' && s[i + 3] == '0');
            let h1 = spec_hex_digit_char(c as u32 / 16);
            let h2 = spec_hex_digit_char(c as u32 % 16);
            assert(s[i + 4] == h1 && s[i + 5] == h2);
            lemma_hex_digit_roundtrip(c as u32 / 16);
            lemma_hex_digit_roundtrip(c as u32 % 16);
            let n = spec_hex_val(s[i + 2]) * 0x1000 + spec_hex_val(s[i + 3]) * 0x100 + spec_hex_val(
                s[i + 4],
            ) * 16 + spec_hex_val(s[i + 5]);
            assert(spec_hex_val('0') == 0);
            assert(n == c as u32);
            vstd::utf8::char_u32_cast(c, c as u32);
            assert((n as u32) as char == c);
            assert(seq![c] + rest =~= cs);
        } else {
            assert(e0[0] == c);
            assert(esc[0] == e0[0]);
            assert(s[i + 0] == esc[0]);
            assert(s[i] == c);
            assert(s[i] != '"' && s[i] != '\\');
            assert(seq![c] + rest =~= cs);
        }
    }
}

/// Reading a number lexeme back from a context where nothing can extend it
/// gives the lexeme.
proof fn lemma_parse_number_embed(s: Seq<char>, i: int, nm: Seq<char>)
    requires
        spec_wf_num(nm),
        0 <= i,
        i + nm.len() <= s.len(),
        s.subrange(i, i + nm.len() as int) == nm,
        i + nm.len() == s.len() || !spec_num_ext_char(s[i + nm.len()]),
    ensures
        spec_parse_number(s, i) == Some((nm, i + nm.len())),
{
    let end = i + nm.len() as int;
    let (ii, ff, ee) = choose|ii: int, ff: int, ee: int| spec_num_shape(nm, ii, ff, ee);
    assert(spec_num_shape(nm, ii, ff, ee));
    assert forall|k: int| 0 <= k < nm.len() implies s[i + k] == nm[k] by {
        assert(s.subrange(i, end)[k] == s[i + k]);
    }
    let b0 = if nm[0] == '-' {
        1int
    } else {
        0int
    };
    let b = i + b0;
    assert(spec_digit(nm[b0]));
    assert(b < s.len() && spec_digit(s[b]));
    // end of the integer part
    let ip = if nm[b0] == '0' {
        b + 1
    } else {
        spec_skip_digits(s, b)
    };
    assert forall|k: int| b <= k < i + ii implies spec_digit(#[trigger] s[k]) by {
        assert(spec_digit(nm[k - i]));
        assert(s[i + (k - i)] == nm[k - i]);
    }
    if ii < nm.len() {
        assert(s[i + ii] == nm[ii]);
        assert(!spec_digit(nm[ii]));
    }
    if nm[b0] != '0' {
        lemma_skip_digits_exact(s, b, i + ii);
        assert(ip == i + ii);
    } else {
        assert(ii == b0 + 1);
        assert(ip == i + ii);
    }
    // nothing after the integer part reads as another digit
    assert(ip < s.len() ==> !spec_digit(s[ip]));
    // the fraction
    let fp = if ip < s.len() && s[ip] == '.' {
        if ip + 1 < s.len() && spec_digit(s[ip + 1]) {
            spec_skip_digits(s, ip + 1)
        } else {
            -1int
        }
    } else {
        ip
    };
    if ff != ii {
        assert(nm[ii] == '.');
        assert(s[ip] == '.');
        assert(spec_digit(nm[ii + 1]));
        assert forall|k: int| ip + 1 <= k < i + ff implies spec_digit(#[trigger] s[k]) by {
            assert(spec_digit(nm[k - i]));
            assert(s[i + (k - i)] == nm[k - i]);
        }
        if ff < nm.len() {
            assert(s[i + ff] == nm[ff]);
            assert(!spec_digit(nm[ff]));
        }
        lemma_skip_digits_exact(s, ip + 1, i + ff);
        assert(fp == i + ff);
    } else {
        if ip < s.len() && s[ip] == '.' {
            assert(ip == end || nm[ii] != '.');
            assert(false);
        }
        assert(fp == i + ff);
    }
    // the exponent
    let ep = if fp < s.len() && (s[fp] == 'e' || s[fp] == 'E') {
        let sp = if fp + 1 < s.len() && (s[fp + 1] == '+' || s[fp + 1] == '-') {
            fp + 2
        } else {
            fp + 1
        };
        if sp < s.len() && spec_digit(s[sp]) {
            spec_skip_digits(s, sp)
        } else {
            -1int
        }
    } else {
        fp
    };
    if ee != ff {
        assert(nm[ff] == 'e' || nm[ff] == 'E');
        let d0 = if ff + 1 < ee && (nm[ff + 1] == '+' || nm[ff + 1] == '-') {
            ff + 2
        } else {
            ff + 1
        };
        assert(d0 < ee && spec_digit(nm[d0]));
        assert forall|k: int| i + d0 <= k < i + ee implies spec_digit(#[trigger] s[k]) by {
            assert(spec_digit(nm[k - i]));
            assert(s[i + (k - i)] == nm[k - i]);
        }
        lemma_skip_digits_exact(s, i + d0, i + ee);
        assert(ep == i + ee);
    } else {
        if fp < s.len() && (s[fp] == 'e' || s[fp] == 'E') {
            assert(fp == end || (nm[ff] != 'e' && nm[ff] != 'E'));
            assert(false);
        }
        assert(ep == i + ee);
    }
    assert(ep == end);
    assert(s.subrange(i, end) == nm);
}

/// Reading a value back from its embedded encoding gives the value.
proof fn lemma_parse_value_embed(s: Seq<char>, i: int, j: JsonV)
    requires
        spec_wf_json(j),
        0 <= i,
        i + spec_encode(j).len() <= s.len(),
        s.subrange(i, i + spec_encode(j).len() as int) == spec_encode(j),
        j is Num ==> (i + spec_encode(j).len() == s.len() || !spec_num_ext_char(
            s[i + spec_encode(j).len()],
        )),
    ensures
        spec_parse_value(s, i) == Some((j, i + spec_encode(j).len())),
    decreases j, 0int,
{
    let enc = spec_encode(j);
    assert forall|k: int| 0 <= k < enc.len() implies s[i + k] == enc[k] by {
        assert(s.subrange(i, i + enc.len() as int)[k] == s[i + k]);
    }
    match j {
        JsonV::Null => {
            assert(s[i] == 'n' && s[i + 1] == 'u' && s[i + 2] == 'l' && s[i + 3] == 'l');
        },
        JsonV::Bool(b) => {
            if b {
                assert(s[i] == 't' && s[i + 1] == 'r' && s[i + 2] == 'u' && s[i + 3] == 'e');
            } else {
                assert(s[i] == 'f' && s[i + 1] == 'a' && s[i + 2] == 'l' && s[i + 3] == 's' && s[i
                    + 4] == 'e');
            }
        },
        JsonV::Num(nm) => {
            let (ii, ff, ee) = choose|ii: int, ff: int, ee: int| spec_num_shape(nm, ii, ff, ee);
            assert(spec_num_shape(nm, ii, ff, ee));
            assert(s[i] == nm[0]);
            assert(nm[0] == '-' || spec_digit(nm[0]));
            lemma_parse_number_embed(s, i, nm);
        },
        JsonV::Str(cs) => {
            let esc = spec_escape_string(cs);
            assert((seq!['"'] + esc)[0] == '"');
            assert(((seq!['"'] + esc) + seq!['"'])[0] == (seq!['"'] + esc)[0]);
            assert(enc[0] == '"');
            assert(s[i + 0] == enc[0]);
            assert(s[i] == '"');
            assert forall|k: int| 0 <= k < esc.len() implies s[i + 1 + k] == esc[k] by {
                assert(enc[1 + k] == (seq!['"'] + esc + seq!['"'])[1 + k]);
            }
            assert(s.subrange(i + 1, i + 1 + esc.len() as int) =~= esc);
            assert(s[i + 1 + esc.len()] == enc[1 + esc.len() as int]);
            assert(s[i + 1 + esc.len()] == '"');
            lemma_parse_chars_embed(s, i + 1, cs);
        },
        JsonV::Arr(a) => {
            let inner = spec_encode_elems(a);
            assert((seq!['['] + inner)[0] == '[');
            assert(((seq!['['] + inner) + seq![']'])[0] == (seq!['['] + inner)[0]);
            assert(enc[0] == '[');
            assert(s[i + 0] == enc[0]);
            assert(s[i] == '[');
            assert forall|k: int| 0 <= k < inner.len() implies s[i + 1 + k] == inner[k] by {
                assert(enc[1 + k] == (seq!['['] + inner + seq![']'])[1 + k]);
            }
            assert(s[i + 1 + inner.len()] == ']') by {
                let t = 1 + inner.len() as int;
                assert((seq!['['] + inner).len() == t);
                assert(((seq!['['] + inner) + seq![']'])[t] == seq![']'][0]);
                assert(enc[t] == ']');
                assert(s.subrange(i, i + enc.len() as int)[t] == s[i + t]);
            }
            if a.len() == 0 {
                lemma_skip_ws_exact(s, i + 1, i + 1);
                assert(spec_skip_ws(s, i + 1) == i + 1);
                assert(inner.len() == 0);
                assert(s[i + 1] == ']');
                assert(a =~= Seq::<JsonV>::empty());
                assert(j == JsonV::Arr(a));
            } else {
                assert(spec_wf_json(a[0]));
                lemma_encode_first(a[0]);
                assert(inner[0] == spec_encode(a[0])[0]);
                assert(s[i + 1] == inner[0]);
                lemma_skip_ws_exact(s, i + 1, i + 1);
                assert(spec_skip_ws(s, i + 1) == i + 1);
                assert(s[i + 1] != ']');
                assert(s.subrange(i + 1, i + 1 + inner.len() as int) =~= inner);
                lemma_parse_elems_embed(s, i + 1, a);
            }
        },
        JsonV::Obj(m) => {
            let inner = spec_encode_members(m);
            assert((seq!['{'] + inner)[0] == '{');
            assert(((seq!['{'] + inner) + seq!['}'])[0] == (seq!['{'] + inner)[0]);
            assert(enc[0] == '{');
            assert(s[i + 0] == enc[0]);
            assert(s[i] == '{');
            assert forall|k: int| 0 <= k < inner.len() implies s[i + 1 + k] == inner[k] by {
                assert(enc[1 + k] == (seq!['{'] + inner + seq!['}'])[1 + k]);
            }
            assert(s[i + 1 + inner.len()] == '}') by {
                let t = 1 + inner.len() as int;
                assert((seq!['{'] + inner).len() == t);
                assert(((seq!['{'] + inner) + seq!['}'])[t] == seq!['}'][0]);
                assert(enc[t] == '}');
                assert(s.subrange(i, i + enc.len() as int)[t] == s[i + t]);
            }
            if m.len() == 0 {
                lemma_skip_ws_exact(s, i + 1, i + 1);
                assert(spec_skip_ws(s, i + 1) == i + 1);
                assert(inner.len() == 0);
                assert(s[i + 1] == '}');
                assert(m =~= Seq::<(Seq<char>, JsonV)>::empty());
                assert(j == JsonV::Obj(m));
            } else {
                assert(inner[0] == '"');
                assert(s[i + 1] == '"');
                lemma_skip_ws_exact(s, i + 1, i + 1);
                assert(spec_skip_ws(s, i + 1) == i + 1);
                assert(s[i + 1] != '}');
                assert(s.subrange(i + 1, i + 1 + inner.len() as int) =~= inner);
                lemma_parse_members_embed(s, i + 1, m);
            }
        },
    }
}

/// Reading an element list back from its embedded encoding, up to the
/// closing bracket, gives the elements.
proof fn lemma_parse_elems_embed(s: Seq<char>, i: int, a: Seq<JsonV>)
    requires
        a.len() > 0,
        forall|k: int| 0 <= k < a.len() ==> spec_wf_json(#[trigger] a[k]),
        0 <= i,
        i + spec_encode_elems(a).len() + 1 <= s.len(),
        s.subrange(i, i + spec_encode_elems(a).len() as int) == spec_encode_elems(a),
        s[i + spec_encode_elems(a).len()] == ']',
    ensures
        spec_parse_elems(s, i) == Some((a, i + spec_encode_elems(a).len() + 1)),
    decreases a, 1int,
{
    let inner = spec_encode_elems(a);
    let e0 = spec_encode(a[0]);
    assert(spec_wf_json(a[0]));
    assert forall|k: int| 0 <= k < inner.len() implies s[i + k] == inner[k] by {
        assert(s.subrange(i, i + inner.len() as int)[k] == s[i + k]);
    }
    if a.len() == 1 {
        assert(inner == e0);
        lemma_parse_value_embed(s, i, a[0]);
        let jpos = i + e0.len() as int;
        assert(s[jpos] == ']');
        lemma_skip_ws_exact(s, jpos, jpos);
        assert(spec_skip_ws(s, jpos) == jpos);
        assert(seq![a[0]] =~= a);
    } else {
        let rest = a.subrange(1, a.len() as int);
        let rinner = spec_encode_elems(rest);
        assert(inner == e0 + seq![','] + rinner);
        assert forall|k: int| 0 <= k < e0.len() implies inner[k] == e0[k] by {
            assert((e0 + seq![','] + rinner)[k] == e0[k]);
        }
        assert(inner[e0.len() as int] == ',');
        assert forall|k: int| 0 <= k < rinner.len() implies inner[e0.len() as int + 1 + k] == rinner[k] by {
            assert((e0 + seq![','] + rinner)[e0.len() as int + 1 + k] == rinner[k]);
        }
        assert(s.subrange(i, i + e0.len() as int) =~= e0);
        let jpos = i + e0.len() as int;
        assert(s[jpos] == ',');
        lemma_parse_value_embed(s, i, a[0]);
        lemma_skip_ws_exact(s, jpos, jpos);
        assert(spec_skip_ws(s, jpos) == jpos);
        let m0 = jpos + 1;
        assert(rest[0] == a[1]);
        assert(spec_wf_json(rest[0]));
        lemma_encode_first(rest[0]);
        assert(rinner[0] == spec_encode(rest[0])[0]);
        assert(s[m0] == rinner[0]);
        lemma_skip_ws_exact(s, m0, m0);
        assert(spec_skip_ws(s, m0) == m0);
        assert(i < m0);
        assert(s.subrange(m0, m0 + rinner.len() as int) =~= rinner);
        assert(s[m0 + rinner.len()] == ']');
        assert forall|k: int| 0 <= k < rest.len() implies spec_wf_json(#[trigger] rest[k]) by {
            assert(rest[k] == a[k + 1]);
        }
        lemma_parse_elems_embed(s, m0, rest);
        assert(seq![a[0]] + rest =~= a);
    }
}

/// Reading a member list back from its embedded encoding, up to the closing
/// brace, gives the members.
proof fn lemma_parse_members_embed(s: Seq<char>, i: int, m: Seq<(Seq<char>, JsonV)>)
    requires
        m.len() > 0,
        forall|k: int| 0 <= k < m.len() ==> spec_wf_json((#[trigger] m[k]).1),
        0 <= i,
        i + spec_encode_members(m).len() + 1 <= s.len(),
        s.subrange(i, i + spec_encode_members(m).len() as int) == spec_encode_members(m),
        s[i + spec_encode_members(m).len()] == '}',
    ensures
        spec_parse_members(s, i) == Some((m, i + spec_encode_members(m).len() + 1)),
    decreases m, 1int,
{
    let inner = spec_encode_members(m);
    let k0 = m[0].0;
    let v0 = m[0].1;
    let esc = spec_escape_string(k0);
    let ev = spec_encode(v0);
    let head = spec_encode_member(k0, v0);
    assert(spec_wf_json(v0));
    assert(decreases_to!(m => m[0]));
    assert(decreases_to!(m[0] => m[0].1));
    assert(decreases_to!(m => m[0].1));
    assert forall|k: int| 0 <= k < inner.len() implies s[i + k] == inner[k] by {
        assert(s.subrange(i, i + inner.len() as int)[k] == s[i + k]);
    }
    assert(head == seq!['"'] + esc + seq!['"', ':'] + ev);
    assert(head.len() == esc.len() + 3 + ev.len());
    if m.len() == 1 {
        assert(inner == head);
    } else {
        let rest = m.subrange(1, m.len() as int);
        let rinner = spec_encode_members(rest);
        assert(inner == head + seq![','] + rinner);
        assert forall|k: int| 0 <= k < head.len() implies inner[k] == head[k] by {
            assert((head + seq![','] + rinner)[k] == head[k]);
        }
    }
    // the quoted key
    assert(inner[0] == head[0]);
    assert(s[i] == '"');
    assert forall|k: int| 0 <= k < esc.len() implies s[i + 1 + k] == esc[k] by {
        assert(inner[1 + k] == head[1 + k]);
        assert(head[1 + k] == (seq!['"'] + esc + seq!['"', ':'] + ev)[1 + k]);
    }
    assert(s.subrange(i + 1, i + 1 + esc.len() as int) =~= esc);
    assert(s[i + 1 + esc.len()] == head[1 + esc.len() as int]);
    assert(s[i + 1 + esc.len()] == '"');
    lemma_parse_chars_embed(s, i + 1, k0);
    assert(spec_parse_string(s, i) == Some((k0, i + esc.len() + 2)));
    // the colon
    let cpos = i + esc.len() as int + 2;
    assert(s[cpos] == head[esc.len() as int + 2]);
    assert(s[cpos] == ':');
    lemma_skip_ws_exact(s, cpos, cpos);
    // the value
    let vpos = cpos + 1;
    assert forall|k: int| 0 <= k < ev.len() implies s[vpos + k] == ev[k] by {
        assert(inner[esc.len() as int + 3 + k] == head[esc.len() as int + 3 + k]);
        assert(head[esc.len() as int + 3 + k] == (seq!['"'] + esc + seq!['"', ':'] + ev)[esc.len() + 3
            + k]);
    }
    lemma_encode_first(v0);
    assert(s[vpos] == ev[0]);
    lemma_skip_ws_exact(s, vpos, vpos);
    assert(spec_skip_ws(s, vpos) == vpos);
    assert(s.subrange(vpos, vpos + ev.len() as int) =~= ev);
    let jend = vpos + ev.len() as int;
    if m.len() == 1 {
        assert(s[jend] == '}');
        lemma_parse_value_embed(s, vpos, v0);
        lemma_skip_ws_exact(s, jend, jend);
        assert(spec_skip_ws(s, jend) == jend);
        assert(seq![(k0, v0)] =~= m);
        assert((k0, v0) == m[0]);
    } else {
        let rest = m.subrange(1, m.len() as int);
        let rinner = spec_encode_members(rest);
        assert(inner == head + seq![','] + rinner);
        assert(inner[head.len() as int] == ',');
        assert(s[jend] == ',');
        lemma_parse_value_embed(s, vpos, v0);
        lemma_skip_ws_exact(s, jend, jend);
        assert(spec_skip_ws(s, jend) == jend);
        let m0 = jend + 1;
        assert forall|k: int| 0 <= k < rinner.len() implies s[m0 + k] == rinner[k] by {
            assert(inner[head.len() as int + 1 + k] == (head + seq![','] + rinner)[head.len() as int + 1 + k]);
        }
        assert(rest[0] == m[1]);
        assert(rinner[0] == '"');
        assert(s[m0] == '"');
        lemma_skip_ws_exact(s, m0, m0);
        assert(spec_skip_ws(s, m0) == m0);
        assert(i < m0);
        assert(s.subrange(m0, m0 + rinner.len() as int) =~= rinner);
        assert(s[m0 + rinner.len()] == '}');
        assert forall|k: int| 0 <= k < rest.len() implies spec_wf_json(
            (#[trigger] rest[k]).1,
        ) by {
            assert(rest[k] == m[k + 1]);
        }
        lemma_parse_members_embed(s, m0, rest);
        assert(seq![(k0, v0)] + rest =~= m);
        assert((k0, v0) == m[0]);
    }
}

/// Round trip: parsing the canonical text of a well-formed value gives the
/// value back.
pub proof fn lemma_parse_encode(j: JsonV)
    requires
        spec_wf_json(j),
    ensures
        spec_parse_json(spec_encode(j)) == Some(j),
{
    let s = spec_encode(j);
    lemma_encode_first(j);
    lemma_skip_ws_exact(s, 0, 0);
    assert(s.subrange(0, s.len() as int) =~= s);
    lemma_parse_value_embed(s, 0, j);
    lemma_skip_ws_exact(s, s.len() as int, s.len() as int);
}

/// The JSON value of a whole text: one value, whitespace allowed around it.
pub open spec fn spec_parse_json(s: Seq<char>) -> Option<JsonV> {
    let i = spec_skip_ws(s, 0);
    if 0 <= i <= s.len() {
        match spec_parse_value(s, i) {
            Some((v, j)) => if 0 <= j <= s.len() && spec_skip_ws(s, j) == s.len() {
                Some(v)
            } else {
                None
            },
            None => None,
        }
    } else {
        None
    }
}

// ---------------------------------------------------------------------------
// Character and text utilities
// ---------------------------------------------------------------------------
/// Relies on `String`'s `FromIterator<char>` impl: collecting characters
/// builds the string of exactly those characters in order.
#[verifier::external_body]
fn chars_to_string(v: &Vec<char>) -> (r: String)
    ensures
        r@ == v@,
{
    v.iter().collect()
}

/// Relies on `char::from_u32`: `Some` exactly on Unicode scalar values,
/// and the returned character has code `n`.
#[verifier::external_body]
fn char_from_u32(n: u32) -> (r: Option<char>)
    ensures
        (match r {
            Some(c) => (n < 0xD800 || (0xE000 <= n <= 0x10FFFF)) && c as u32 == n,
            None => !(n < 0xD800 || (0xE000 <= n <= 0x10FFFF)),
        }),
{
    char::from_u32(n)
}

/// The characters of `s`, as a vector.
pub fn str_to_chars(s: &str) -> (r: Vec<char>)
    ensures
        r@ == s@,
{
    let n = s.unicode_len();
    let mut r: Vec<char> = Vec::new();
    let mut i: usize = 0;
    while i < n
        invariant
            i <= n,
            n == s@.len(),
            r@ == s@.subrange(0, i as int),
        decreases n - i,
    {
        let c = s.get_char(i);
        r.push(c);
        i = i + 1;
        proof {
            assert(r@ =~= s@.subrange(0, i as int));
        }
    }
    proof {
        assert(r@ =~= s@);
    }
    r
}

/// Whether two strings hold the same characters.
pub fn str_eq(a: &str, b: &str) -> (r: bool)
    ensures
        r == (a@ == b@),
{
    let sa = a.to_owned();
    let sb = b.to_owned();
    sa == sb
}

/// A copy of `s[a..b]`.
fn vec_subrange(s: &Vec<char>, a: usize, b: usize) -> (r: Vec<char>)
    requires
        a <= b <= s@.len(),
    ensures
        r@ == s@.subrange(a as int, b as int),
{
    let mut r: Vec<char> = Vec::new();
    let mut i: usize = a;
    while i < b
        invariant
            a <= i <= b <= s@.len(),
            r@ == s@.subrange(a as int, i as int),
        decreases b - i,
    {
        r.push(s[i]);
        i = i + 1;
        proof {
            assert(r@ =~= s@.subrange(a as int, i as int));
        }
    }
    r
}

fn is_ws_char(c: char) -> (r: bool)
    ensures
        r == spec_ws_char(c),
{
    c == ' ' || c == '\n' || c == '\r' || c == '\t'
}

fn is_digit_char(c: char) -> (r: bool)
    ensures
        r == spec_digit(c),
{
    c >= '0' && c <= '9'
}

fn hex_val(c: char) -> (r: u32)
    ensures
        r == spec_hex_val(c),
{
    let n = c as u32;
    if n >= 0x30 && n <= 0x39 {
        n - 0x30
    } else if n >= 0x61 && n <= 0x66 {
        n - 0x61 + 10
    } else if n >= 0x41 && n <= 0x46 {
        n - 0x41 + 10
    } else {
        16
    }
}

fn hex_digit_char(n: u32) -> (r: char)
    requires
        n < 16,
    ensures
        r == spec_hex_digit_char(n),
{
    if n < 10 {
        (0x30u8 + n as u8) as char
    } else {
        (0x61u8 + (n - 10) as u8) as char
    }
}

// ---------------------------------------------------------------------------
// The executable parser.  Each function computes exactly what the matching
// specification function describes.
// ---------------------------------------------------------------------------
fn skip_ws(s: &Vec<char>, i: usize) -> (r: usize)
    requires
        i <= s@.len(),
    ensures
        r == spec_skip_ws(s@, i as int),
        i <= r <= s@.len(),
    decreases s@.len() - i,
{
    if i < s.len() && is_ws_char(s[i]) {
        skip_ws(s, i + 1)
    } else {
        i
    }
}

fn skip_digits(s: &Vec<char>, i: usize) -> (r: usize)
    requires
        i <= s@.len(),
    ensures
        r == spec_skip_digits(s@, i as int),
        i <= r <= s@.len(),
    decreases s@.len() - i,
{
    if i < s.len() && is_digit_char(s[i]) {
        skip_digits(s, i + 1)
    } else {
        i
    }
}

fn parse_chars(s: &Vec<char>, i: usize) -> (r: Option<(Vec<char>, usize)>)
    requires
        i <= s@.len(),
    ensures
        (match r {
            Some(p) => spec_parse_chars(s@, i as int) == Some((p.0@, p.1 as int)),
            None => spec_parse_chars(s@, i as int) is None,
        }),
    decreases s@.len() - i, 0int,
{
    if i >= s.len() {
        None
    } else if s[i] == '"' {
        Some((Vec::new(), i + 1))
    } else if s[i] == '\\' {
        if i + 1 >= s.len() {
            None
        } else if s[i + 1] == 'u' {
            if s.len() - i >= 6 && hex_val(s[i + 2]) < 16 && hex_val(s[i + 3]) < 16 && hex_val(
                s[i + 4],
            ) < 16 && hex_val(s[i + 5]) < 16 {
                let n = hex_val(s[i + 2]) * 0x1000 + hex_val(s[i + 3]) * 0x100 + hex_val(s[i + 4])
                    * 16 + hex_val(s[i + 5]);
                if 0xD800 <= n && n < 0xE000 {
                    None
                } else {
                    match parse_chars(s, i + 6) {
                        Some(p) => {
                            let (mut rest, j) = p;
                            let c = match char_from_u32(n) {
                                Some(c) => c,
                                None => {
                                    proof {
                                        assert(false);
                                    }
                                    '0'
                                },
                            };
                            let ghost old_rest = rest@;
                            rest.insert(0, c);
                            proof {
                                vstd::utf8::char_u32_cast(c, n);
                                assert(rest@ =~= seq![(n as u32) as char] + old_rest);
                            }
                            Some((rest, j))
                        },
                        None => None,
                    }
                }
            } else {
                None
            }
        } else {
            let e = s[i + 1];
            let c: Option<char> = if e == '"' {
                Some('"')
            } else if e == '\\' {
                Some('\\')
            } else if e == '/' {
                Some('/')
            } else if e == 'n' {
                Some('\n')
            } else if e == 't' {
                Some('\t')
            } else if e == 'r' {
                Some('\r')
            } else if e == 'b' {
                Some('\u{0008}')
            } else if e == 'f' {
                Some('\u{000C}')
            } else {
                None
            };
            proof {
                assert(c == spec_unescape(e));
            }
            match c {
                Some(c) => match parse_chars(s, i + 2) {
                    Some(p) => {
                        let (mut rest, j) = p;
                        let ghost old_rest = rest@;
                        rest.insert(0, c);
                        proof {
                            assert(rest@ =~= seq![c] + old_rest);
                        }
                        Some((rest, j))
                    },
                    None => None,
                },
                None => None,
            }
        }
    } else if (s[i] as u32) < 0x20 {
        None
    } else {
        match parse_chars(s, i + 1) {
            Some(p) => {
                let (mut rest, j) = p;
                let ghost old_rest = rest@;
                rest.insert(0, s[i]);
                proof {
                    assert(rest@ =~= seq![s@[i as int]] + old_rest);
                }
                Some((rest, j))
            },
            None => None,
        }
    }
}

fn parse_string(s: &Vec<char>, i: usize) -> (r: Option<(Vec<char>, usize)>)
    requires
        i <= s@.len(),
    ensures
        (match r {
            Some(p) => spec_parse_string(s@, i as int) == Some((p.0@, p.1 as int)),
            None => spec_parse_string(s@, i as int) is None,
        }),
    decreases s@.len() - i, 1int,
{
    if i < s.len() && s[i] == '"' {
        parse_chars(s, i + 1)
    } else {
        None
    }
}

fn parse_number(s: &Vec<char>, i: usize) -> (r: Option<(Vec<char>, usize)>)
    requires
        i <= s@.len(),
    ensures
        (match r {
            Some(p) => spec_parse_number(s@, i as int) == Some((p.0@, p.1 as int)),
            None => spec_parse_number(s@, i as int) is None,
        }),
{
    let b = if i < s.len() && s[i] == '-' {
        i + 1
    } else {
        i
    };
    if b < s.len() && is_digit_char(s[b]) {
        let ip = if s[b] == '0' {
            b + 1
        } else {
            skip_digits(s, b)
        };
        if ip < s.len() && is_digit_char(s[ip]) {
            None
        } else {
            let fp_ok: bool;
            let fp: usize;
            if ip < s.len() && s[ip] == '.' {
                if ip + 1 < s.len() && is_digit_char(s[ip + 1]) {
                    fp_ok = true;
                    fp = skip_digits(s, ip + 1);
                } else {
                    fp_ok = false;
                    fp = 0;
                }
            } else {
                fp_ok = true;
                fp = ip;
            }
            if !fp_ok {
                None
            } else {
                let ep_ok: bool;
                let ep: usize;
                if fp < s.len() && (s[fp] == 'e' || s[fp] == 'E') {
                    let sp = if fp + 1 < s.len() && (s[fp + 1] == '+' || s[fp + 1] == '-') {
                        fp + 2
                    } else {
                        fp + 1
                    };
                    if sp < s.len() && is_digit_char(s[sp]) {
                        ep_ok = true;
                        ep = skip_digits(s, sp);
                    } else {
                        ep_ok = false;
                        ep = 0;
                    }
                } else {
                    ep_ok = true;
                    ep = fp;
                }
                if !ep_ok {
                    None
                } else {
                    Some((vec_subrange(s, i, ep), ep))
                }
            }
        }
    } else {
        None
    }
}

fn parse_value(s: &Vec<char>, i: usize) -> (r: Option<(Json, usize)>)
    requires
        i <= s@.len(),
    ensures
        (match r {
            Some(p) => spec_parse_value(s@, i as int) == Some((p.0@, p.1 as int)),
            None => spec_parse_value(s@, i as int) is None,
        }),
    decreases s@.len() - i, 2int,
{
    if i >= s.len() {
        None
    } else if s[i] == 'n' {
        if s.len() - i >= 4 && s[i + 1] == 'u' && s[i + 2] == 'l' && s[i + 3] == 'l' {
            Some((Json::Null, i + 4))
        } else {
            None
        }
    } else if s[i] == 't' {
        if s.len() - i >= 4 && s[i + 1] == 'r' && s[i + 2] == 'u' && s[i + 3] == 'e' {
            Some((Json::Bool(true), i + 4))
        } else {
            None
        }
    } else if s[i] == 'f' {
        if s.len() - i >= 5 && s[i + 1] == 'a' && s[i + 2] == 'l' && s[i + 3] == 's' && s[i + 4]
            == 'e' {
            Some((Json::Bool(false), i + 5))
        } else {
            None
        }
    } else if s[i] == '"' {
        match parse_chars(s, i + 1) {
            Some(p) => Some((Json::Str(chars_to_string(&p.0)), p.1)),
            None => None,
        }
    } else if s[i] == '[' {
        let j = skip_ws(s, i + 1);
        if j < s.len() && s[j] == ']' {
            let vs: Vec<Json> = Vec::new();
            proof {
                assert(arr_view(vs@) =~= Seq::empty());
            }
            Some((Json::Arr(vs), j + 1))
        } else {
            match parse_elems(s, j) {
                Some(p) => Some((Json::Arr(p.0), p.1)),
                None => None,
            }
        }
    } else if s[i] == '{' {
        let j = skip_ws(s, i + 1);
        if j < s.len() && s[j] == '}' {
            let vs: Vec<(String, Json)> = Vec::new();
            proof {
                assert(obj_view(vs@) =~= Seq::empty());
            }
            Some((Json::Obj(vs), j + 1))
        } else {
            match parse_members(s, j) {
                Some(p) => Some((Json::Obj(p.0), p.1)),
                None => None,
            }
        }
    } else if s[i] == '-' || is_digit_char(s[i]) {
        match parse_number(s, i) {
            Some(p) => Some((Json::Num(chars_to_string(&p.0)), p.1)),
            None => None,
        }
    } else {
        None
    }
}

fn parse_elems(s: &Vec<char>, i: usize) -> (r: Option<(Vec<Json>, usize)>)
    requires
        0 < i <= s@.len(),
    ensures
        (match r {
            Some(p) => spec_parse_elems(s@, i as int) == Some((arr_view(p.0@), p.1 as int)),
            None => spec_parse_elems(s@, i as int) is None,
        }),
    decreases s@.len() - i, 3int,
{
    match parse_value(s, i) {
        None => None,
        Some(p) => {
            let (v, j) = p;
            proof {
                lemma_parse_value_bounds(s@, i as int);
            }
            let k = skip_ws(s, j);
            if k < s.len() && s[k] == ',' {
                let m = skip_ws(s, k + 1);
                if i < m {
                    match parse_elems(s, m) {
                        Some(q) => {
                            let (mut rest, e) = q;
                            let ghost old_rest = rest@;
                            rest.insert(0, v);
                            proof {
                                assert(arr_view(rest@) =~= seq![v@] + arr_view(old_rest));
                            }
                            Some((rest, e))
                        },
                        None => None,
                    }
                } else {
                    None
                }
            } else if k < s.len() && s[k] == ']' {
                let mut one: Vec<Json> = Vec::new();
                one.push(v);
                proof {
                    assert(arr_view(one@) =~= seq![v@]);
                }
                Some((one, k + 1))
            } else {
                None
            }
        },
    }
}

fn parse_members(s: &Vec<char>, i: usize) -> (r: Option<(Vec<(String, Json)>, usize)>)
    requires
        0 < i <= s@.len(),
    ensures
        (match r {
            Some(p) => spec_parse_members(s@, i as int) == Some((obj_view(p.0@), p.1 as int)),
            None => spec_parse_members(s@, i as int) is None,
        }),
    decreases s@.len() - i, 3int,
{
    match parse_string(s, i) {
        None => None,
        Some(p) => {
            let (key, j) = p;
            proof {
                lemma_parse_string_bounds(s@, i as int);
            }
            let c = skip_ws(s, j);
            if c < s.len() && s[c] == ':' {
                let v0 = skip_ws(s, c + 1);
                match parse_value(s, v0) {
                    None => None,
                    Some(q) => {
                        let (v, j2) = q;
                        proof {
                            lemma_parse_value_bounds(s@, v0 as int);
                        }
                        let k = skip_ws(s, j2);
                        if k < s.len() && s[k] == ',' {
                            let m = skip_ws(s, k + 1);
                            if i < m {
                                match parse_members(s, m) {
                                    Some(q2) => {
                                        let (mut rest, e) = q2;
                                        let ghost old_rest = rest@;
                                        let key_s = chars_to_string(&key);
                                        rest.insert(0, (key_s, v));
                                        proof {
                                            assert(obj_view(rest@) =~= seq![(key@, v@)]
                                                + obj_view(old_rest));
                                        }
                                        Some((rest, e))
                                    },
                                    None => None,
                                }
                            } else {
                                None
                            }
                        } else if k < s.len() && s[k] == '}' {
                            let key_s = chars_to_string(&key);
                            let mut one: Vec<(String, Json)> = Vec::new();
                            one.push((key_s, v));
                            proof {
                                assert(obj_view(one@) =~= seq![(key@, v@)]);
                            }
                            Some((one, k + 1))
                        } else {
                            None
                        }
                    },
                }
            } else {
                None
            }
        },
    }
}

// ---------------------------------------------------------------------------
// The executable encoder.
// ---------------------------------------------------------------------------
fn encode_char_into(out: &mut Vec<char>, c: char)
    ensures
        final(out)@ == old(out)@ + spec_escape_char(c),
{
    if c == '"' {
        out.push('\\');
        out.push('"');
        proof {
            assert(out@ =~= old(out)@ + spec_escape_char(c));
        }
    } else if c == '\\' {
        out.push('\\');
        out.push('\\');
        proof {
            assert(out@ =~= old(out)@ + spec_escape_char(c));
        }
    } else if c == '\n' {
        out.push('\\');
        out.push('n');
        proof {
            assert(out@ =~= old(out)@ + spec_escape_char(c));
        }
    } else if c == '\t' {
        out.push('\\');
        out.push('t');
        proof {
            assert(out@ =~= old(out)@ + spec_escape_char(c));
        }
    } else if c == '\r' {
        out.push('\\');
        out.push('r');
        proof {
            assert(out@ =~= old(out)@ + spec_escape_char(c));
        }
    } else if c as u32 == 0x08 {
        out.push('\\');
        out.push('b');
        proof {
            assert(out@ =~= old(out)@ + spec_escape_char(c));
        }
    } else if c as u32 == 0x0C {
        out.push('\\');
        out.push('f');
        proof {
            assert(out@ =~= old(out)@ + spec_escape_char(c));
        }
    } else if (c as u32) < 0x20 {
        out.push('\\');
        out.push('u');
        out.push('0');
        out.push('0');
        out.push(hex_digit_char((c as u32) / 16));
        out.push(hex_digit_char((c as u32) % 16));
        proof {
            assert(out@ =~= old(out)@ + spec_escape_char(c));
        }
    } else {
        out.push(c);
        proof {
            assert(out@ =~= old(out)@ + spec_escape_char(c));
        }
    }
}

fn encode_string_into(out: &mut Vec<char>, s: &str)
    ensures
        final(out)@ == old(out)@ + seq!['"'] + spec_escape_string(s@) + seq!['"'],
{
    out.push('"');
    let ghost base = out@;
    let cs = str_to_chars(s);
    let mut i: usize = 0;
    while i < cs.len()
        invariant
            i <= cs@.len(),
            cs@ == s@,
            out@ == base + spec_escape_string(cs@.subrange(0, i as int)),
        decreases cs@.len() - i,
    {
        let ghost pre = cs@.subrange(0, i as int);
        encode_char_into(out, cs[i]);
        i = i + 1;
        proof {
            lemma_escape_string_snoc(pre, cs@[i - 1]);
            assert(cs@.subrange(0, i as int) =~= pre.push(cs@[i - 1]));
            assert(base + spec_escape_string(pre) + spec_escape_char(cs@[i - 1]) =~= base
                + spec_escape_string(cs@.subrange(0, i as int)));
        }
    }
    out.push('"');
    proof {
        assert(cs@.subrange(0, cs@.len() as int) =~= s@);
        assert(out@ =~= old(out)@ + seq!['"'] + spec_escape_string(s@) + seq!['"']);
    }
}

#[verifier::loop_isolation(false)]
#[verifier::rlimit(60)]
fn encode_value_into(j: &Json, out: &mut Vec<char>)
    ensures
        final(out)@ == old(out)@ + spec_encode(j@),
    decreases j,
{
    match j {
        Json::Null => {
            out.push('n');
            out.push('u');
            out.push('l');
            out.push('l');
            proof {
                assert(out@ =~= old(out)@ + spec_encode(j@));
            }
        },
        Json::Bool(b) => {
            if *b {
                out.push('t');
                out.push('r');
                out.push('u');
                out.push('e');
            } else {
                out.push('f');
                out.push('a');
                out.push('l');
                out.push('s');
                out.push('e');
            }
            proof {
                assert(out@ =~= old(out)@ + spec_encode(j@));
            }
        },
        Json::Num(s) => {
            let mut cs = str_to_chars(s.as_str());
            out.append(&mut cs);
        },
        Json::Str(s) => {
            encode_string_into(out, s.as_str());
            proof {
                assert(out@ =~= old(out)@ + spec_encode(j@));
            }
        },
        Json::Arr(v) => {
            out.push('[');
            let ghost base = out@;
            let ghost elems = arr_view(v@);
            let mut k: usize = 0;
            while k < v.len()
                invariant
                    k <= v@.len(),
                    elems == arr_view(v@),
                    elems.len() == v@.len(),
                    out@ == base + spec_encode_elems(elems.subrange(0, k as int)),
                decreases v@.len() - k,
            {
                let ghost pre = elems.subrange(0, k as int);
                if k > 0 {
                    out.push(',');
                }
                proof {
                    assert(decreases_to!(*j => *v));
                    assert(decreases_to!(*v => v@));
                    assert(decreases_to!(v@ => v@[k as int]));
                    assert(decreases_to!(*j => v@[k as int]));
                }
                encode_value_into(&v[k], out);
                k = k + 1;
                proof {
                    assert(elems[k - 1] == v@[k - 1]@);
                    lemma_encode_elems_snoc(pre, elems[k - 1]);
                    assert(elems.subrange(0, k as int) =~= pre.push(elems[k - 1]));
                    if k == 1 {
                        assert(base + spec_encode_elems(pre) + spec_encode(v@[k - 1]@) =~= base
                            + spec_encode_elems(elems.subrange(0, k as int)));
                    } else {
                        assert(base + spec_encode_elems(pre) + seq![','] + spec_encode(v@[k - 1]@)
                            =~= base + spec_encode_elems(elems.subrange(0, k as int)));
                    }
                }
            }
            out.push(']');
            proof {
                assert(elems.subrange(0, elems.len() as int) =~= elems);
                assert(out@ =~= old(out)@ + spec_encode(j@));
            }
        },
        Json::Obj(v) => {
            out.push('{');
            let ghost base = out@;
            let ghost mems = obj_view(v@);
            let mut k: usize = 0;
            while k < v.len()
                invariant
                    k <= v@.len(),
                    mems == obj_view(v@),
                    mems.len() == v@.len(),
                    out@ == base + spec_encode_members(mems.subrange(0, k as int)),
                decreases v@.len() - k,
            {
                let ghost pre = mems.subrange(0, k as int);
                if k > 0 {
                    out.push(',');
                }
                let ghost mid = out@;
                encode_string_into(out, v[k].0.as_str());
                out.push(':');
                proof {
                    assert(decreases_to!(*j => *v));
                    assert(decreases_to!(*v => v@));
                    assert(decreases_to!(v@ => v@[k as int]));
                    assert(decreases_to!(v@[k as int] => v@[k as int].1));
                    assert(decreases_to!(*j => v@[k as int].1));
                }
                encode_value_into(&v[k].1, out);
                k = k + 1;
                proof {
                    assert(mems[k - 1] == (v@[k - 1].0@, v@[k - 1].1@));
                    lemma_encode_members_snoc(pre, v@[k - 1].0@, v@[k - 1].1@);
                    assert(out@ =~= mid + spec_encode_member(v@[k - 1].0@, v@[k - 1].1@));
                    assert(mems.subrange(0, k as int) =~= pre.push(mems[k - 1]));
                    if k == 1 {
                        assert(base + spec_encode_members(pre) + spec_encode_member(
                            v@[k - 1].0@,
                            v@[k - 1].1@,
                        ) =~= base + spec_encode_members(mems.subrange(0, k as int)));
                    } else {
                        assert(base + spec_encode_members(pre) + seq![','] + spec_encode_member(
                            v@[k - 1].0@,
                            v@[k - 1].1@,
                        ) =~= base + spec_encode_members(mems.subrange(0, k as int)));
                    }
                }
            }
            out.push('}');
            proof {
                assert(mems.subrange(0, mems.len() as int) =~= mems);
                assert(out@ =~= old(out)@ + spec_encode(j@));
            }
        },
    }
}

/// Write a JSON value as its canonical (whitespace-free) text.
pub fn encode_json(j: &Json) -> (r: String)
    ensures
        r@ == spec_encode(j@),
{
    let mut out: Vec<char> = Vec::new();
    encode_value_into(j, &mut out);
    proof {
        assert(out@ =~= spec_encode(j@));
    }
    chars_to_string(&out)
}

/// Parse a whole JSON text into a value.
pub fn parse_json_text(s: &str) -> (r: Option<Json>)
    ensures
        (match r {
            Some(j) => spec_parse_json(s@) == Some(j@),
            None => spec_parse_json(s@) is None,
        }),
{
    let cs = str_to_chars(s);
    let i = skip_ws(&cs, 0);
    match parse_value(&cs, i) {
        Some(p) => {
            let (v, j) = p;
            proof {
                lemma_parse_value_bounds(cs@, i as int);
            }
            if skip_ws(&cs, j) == cs.len() {
                Some(v)
            } else {
                None
            }
        },
        None => None,
    }
}

} // verus!
