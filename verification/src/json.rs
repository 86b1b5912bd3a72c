use vstd::prelude::*;

verus! {

use crate::error::Error;

broadcast use vstd::std_specs::vec::axiom_vec_index_decreases;

// ---------------------------------------------------------------------------
// The JSON wire format, serialization side.
//
// Every request body this client sends is JSON text built here. The spec
// functions below define the exact character sequence produced for a string
// (with its escapes) and for an array of strings; the exec writers are
// proved to emit exactly those sequences.
// ---------------------------------------------------------------------------

/// The lower-case hex digit for a value below 16.
pub open spec fn hex_digit(n: int) -> char {
    if n == 0 {
        '0'
    } else if n == 1 {
        '1'
    } else if n == 2 {
        '2'
    } else if n == 3 {
        '3'
    } else if n == 4 {
        '4'
    } else if n == 5 {
        '5'
    } else if n == 6 {
        '6'
    } else if n == 7 {
        '7'
    } else if n == 8 {
        '8'
    } else if n == 9 {
        '9'
    } else if n == 10 {
        'a'
    } else if n == 11 {
        'b'
    } else if n == 12 {
        'c'
    } else if n == 13 {
        'd'
    } else if n == 14 {
        'e'
    } else {
        'f'
    }
}

/// How one character appears inside a JSON string literal: the two
/// characters with dedicated escapes, the named control escapes, a
/// `\u00XX` escape for the remaining control characters, and the character
/// itself for everything else.
pub open spec fn esc(c: char) -> Seq<char> {
    if c == '"' {
        seq!['\\', '"']
    } else if c == '\\' {
        seq!['\\', '\\']
    } else if c == '\u{8}' {
        seq!['\\', 'b']
    } else if c == '\u{c}' {
        seq!['\\', 'f']
    } else if c == '\n' {
        seq!['\\', 'n']
    } else if c == '\r' {
        seq!['\\', 'r']
    } else if c == '\t' {
        seq!['\\', 't']
    } else if (c as u32) < 32 {
        seq!['\\', 'u', '0', '0', hex_digit((c as u32) as int / 16), hex_digit((c as u32) as int % 16)]
    } else {
        seq![c]
    }
}

/// The escaped form of a whole character sequence.
pub open spec fn escape_chars(s: Seq<char>) -> Seq<char>
    decreases s.len(),
{
    if s.len() == 0 {
        Seq::empty()
    } else {
        esc(s[0]) + escape_chars(s.drop_first())
    }
}

/// A JSON string literal: quote, escaped contents, quote.
pub open spec fn jstr(s: Seq<char>) -> Seq<char> {
    seq!['"'] + escape_chars(s) + seq!['"']
}

/// The comma-separated contents of a JSON array of strings.
pub open spec fn jstr_list(items: Seq<Seq<char>>) -> Seq<char>
    decreases items.len(),
{
    if items.len() == 0 {
        Seq::empty()
    } else if items.len() == 1 {
        jstr(items[0])
    } else {
        jstr(items[0]) + seq![','] + jstr_list(items.drop_first())
    }
}

/// A JSON array of strings, brackets included.
pub open spec fn jstr_array(items: Seq<Seq<char>>) -> Seq<char> {
    seq!['['] + jstr_list(items) + seq![']']
}

pub proof fn lemma_escape_chars_push(s: Seq<char>, c: char)
    ensures
        escape_chars(s.push(c)) == escape_chars(s) + esc(c),
    decreases s.len(),
{
    if s.len() == 0 {
        assert(s.push(c)[0] == c);
        assert(s =~= Seq::<char>::empty());
        assert(s.push(c).drop_first() =~= Seq::<char>::empty());
        assert(escape_chars(Seq::<char>::empty()) == Seq::<char>::empty());
        assert(escape_chars(s.push(c)) == esc(c) + Seq::<char>::empty());
        assert(escape_chars(s.push(c)) =~= escape_chars(s) + esc(c));
    } else {
        lemma_escape_chars_push(s.drop_first(), c);
        assert(s.push(c).drop_first() =~= s.drop_first().push(c));
        assert(s.push(c)[0] == s[0]);
        assert(escape_chars(s.push(c)) == esc(s[0]) + escape_chars(s.drop_first().push(c)));
        assert(escape_chars(s.push(c)) == esc(s[0]) + (escape_chars(s.drop_first()) + esc(c)));
        assert(esc(s[0]) + (escape_chars(s.drop_first()) + esc(c)) =~= (esc(s[0]) + escape_chars(
            s.drop_first(),
        )) + esc(c));
        assert(escape_chars(s) == esc(s[0]) + escape_chars(s.drop_first()));
    }
}

pub proof fn lemma_jstr_list_push(items: Seq<Seq<char>>, x: Seq<char>)
    ensures
        jstr_list(items.push(x)) == if items.len() == 0 {
            jstr(x)
        } else {
            jstr_list(items) + seq![','] + jstr(x)
        },
    decreases items.len(),
{
    if items.len() == 0 {
        assert(items.push(x)[0] == x);
        assert(jstr_list(items.push(x)) =~= jstr(x));
    } else if items.len() == 1 {
        assert(items.push(x)[0] == items[0]);
        assert(items.push(x).drop_first() =~= seq![x]);
        assert(jstr_list(seq![x]) == jstr(x));
        assert(jstr_list(items.push(x)) == jstr(items[0]) + seq![','] + jstr(x));
        assert(jstr_list(items) == jstr(items[0]));
    } else {
        lemma_jstr_list_push(items.drop_first(), x);
        assert(items.push(x).drop_first() =~= items.drop_first().push(x));
        assert(items.push(x)[0] == items[0]);
        assert(jstr_list(items.push(x)) == jstr(items[0]) + seq![','] + jstr_list(
            items.drop_first().push(x),
        ));
        assert(jstr_list(items.push(x)) == jstr(items[0]) + seq![','] + (jstr_list(
            items.drop_first(),
        ) + seq![','] + jstr(x)));
        assert(jstr(items[0]) + seq![','] + (jstr_list(items.drop_first()) + seq![','] + jstr(x))
            =~= (jstr(items[0]) + seq![','] + jstr_list(items.drop_first())) + seq![','] + jstr(x));
        assert(jstr_list(items) == jstr(items[0]) + seq![','] + jstr_list(items.drop_first()));
    }
}

/// Equal concatenations with equally long heads have equal parts.
proof fn lemma_concat_cancel(p: Seq<char>, q: Seq<char>, x: Seq<char>, y: Seq<char>)
    requires
        p + x == q + y,
        p.len() == q.len(),
    ensures
        x == y,
{
    assert(x =~= (p + x).subrange(p.len() as int, (p + x).len() as int));
    assert(y =~= (q + y).subrange(q.len() as int, (q + y).len() as int));
}

/// Two escaped chunks that open the same text carry the same character.
proof fn lemma_esc_prefix(c: char, d: char, x: Seq<char>, y: Seq<char>)
    requires
        esc(c) + x == esc(d) + y,
    ensures
        c == d,
        x == y,
{
    let l = esc(c) + x;
    if (c as u32) >= 32 && c != '"' && c != '\\' {
        assert(l[0] == c);
        if (d as u32) >= 32 && d != '"' && d != '\\' {
            assert(l[0] == d);
        } else {
            assert(l[0] == '\\');
        }
    } else {
        assert(l[0] == '\\');
        assert((d as u32) < 32 || d == '"' || d == '\\') by {
            if (d as u32) >= 32 && d != '"' && d != '\\' {
                assert(l[0] == d);
            }
        }
        assert(l[1] == esc(c)[1]);
        assert(l[1] == esc(d)[1]);
        if esc(c)[1] == 'u' {
            assert(esc(d)[1] == 'u');
            assert((c as u32) < 32 && (d as u32) < 32);
            assert(l[4] == hex_digit((c as u32) as int / 16));
            assert(l[4] == hex_digit((d as u32) as int / 16));
            assert(l[5] == hex_digit((c as u32) as int % 16));
            assert(l[5] == hex_digit((d as u32) as int % 16));
            assert((c as u32) as int / 16 == (d as u32) as int / 16);
            assert((c as u32) as int % 16 == (d as u32) as int % 16);
            assert(c as u32 == d as u32);
            assert(c == d);
        } else {
            assert(esc(d)[1] != 'u');
            assert(c == d);
        }
    }
    lemma_concat_cancel(esc(c), esc(d), x, y);
}

/// Two different texts never share one escaped form: the escaping is
/// lossless, so every string field maps one-to-one onto its wire shape.
pub proof fn lemma_escape_chars_injective(a: Seq<char>, b: Seq<char>)
    requires
        escape_chars(a) == escape_chars(b),
    ensures
        a == b,
    decreases a.len(),
{
    if a.len() == 0 {
        if b.len() != 0 {
            assert(escape_chars(b).len() >= esc(b[0]).len());
        }
        assert(a =~= b);
    } else if b.len() == 0 {
        assert(escape_chars(a).len() >= esc(a[0]).len());
        assert(a =~= b);
    } else {
        lemma_esc_prefix(a[0], b[0], escape_chars(a.drop_first()), escape_chars(b.drop_first()));
        lemma_escape_chars_injective(a.drop_first(), b.drop_first());
        assert(a =~= seq![a[0]] + a.drop_first());
        assert(b =~= seq![b[0]] + b.drop_first());
        assert(a == b);
    }
}

/// Two different texts never share one JSON string literal.
pub proof fn lemma_jstr_injective(a: Seq<char>, b: Seq<char>)
    requires
        jstr(a) == jstr(b),
    ensures
        a == b,
{
    assert(jstr(a).len() == 2 + escape_chars(a).len());
    assert(jstr(b).len() == 2 + escape_chars(b).len());
    assert(escape_chars(a) =~= jstr(a).subrange(1, jstr(a).len() - 1));
    assert(escape_chars(b) =~= jstr(b).subrange(1, jstr(b).len() - 1));
    lemma_escape_chars_injective(a, b);
}

/// Relies on String::push: appends exactly the one character.
#[verifier::external_body]
fn push_char(out: &mut String, c: char)
    ensures
        final(out)@ == old(out)@.push(c),
{
    out.push(c);
}

/// The lower-case hex digit character for a value below 16.
fn hex_char(n: u32) -> (c: char)
    requires
        n < 16,
    ensures
        c == hex_digit(n as int),
{
    if n == 0 {
        '0'
    } else if n == 1 {
        '1'
    } else if n == 2 {
        '2'
    } else if n == 3 {
        '3'
    } else if n == 4 {
        '4'
    } else if n == 5 {
        '5'
    } else if n == 6 {
        '6'
    } else if n == 7 {
        '7'
    } else if n == 8 {
        '8'
    } else if n == 9 {
        '9'
    } else if n == 10 {
        'a'
    } else if n == 11 {
        'b'
    } else if n == 12 {
        'c'
    } else if n == 13 {
        'd'
    } else if n == 14 {
        'e'
    } else {
        'f'
    }
}

/// Appends the escaped form of one character.
fn push_escaped(out: &mut String, c: char)
    ensures
        final(out)@ == old(out)@ + esc(c),
{
    if c == '"' {
        out.append("\\\"");
        proof {
            reveal_strlit("\\\"");
            assert(out@ =~= old(out)@ + esc(c));
        }
    } else if c == '\\' {
        out.append("\\\\");
        proof {
            reveal_strlit("\\\\");
            assert(out@ =~= old(out)@ + esc(c));
        }
    } else if c == '\u{8}' {
        out.append("\\b");
        proof {
            reveal_strlit("\\b");
            assert(out@ =~= old(out)@ + esc(c));
        }
    } else if c == '\u{c}' {
        out.append("\\f");
        proof {
            reveal_strlit("\\f");
            assert(out@ =~= old(out)@ + esc(c));
        }
    } else if c == '\n' {
        out.append("\\n");
        proof {
            reveal_strlit("\\n");
            assert(out@ =~= old(out)@ + esc(c));
        }
    } else if c == '\r' {
        out.append("\\r");
        proof {
            reveal_strlit("\\r");
            assert(out@ =~= old(out)@ + esc(c));
        }
    } else if c == '\t' {
        out.append("\\t");
        proof {
            reveal_strlit("\\t");
            assert(out@ =~= old(out)@ + esc(c));
        }
    } else if (c as u32) < 32 {
        out.append("\\u00");
        let n: u32 = c as u32;
        push_char(out, hex_char(n / 16));
        push_char(out, hex_char(n % 16));
        proof {
            reveal_strlit("\\u00");
            assert(out@ =~= old(out)@ + esc(c));
        }
    } else {
        push_char(out, c);
        proof {
            assert(out@ =~= old(out)@ + esc(c));
        }
    }
}

/// Appends the JSON string literal for `s`, quotes and escapes included.
pub fn write_json_string(out: &mut String, s: &str)
    ensures
        final(out)@ == old(out)@ + jstr(s@),
{
    out.append("\"");
    proof {
        reveal_strlit("\"");
        assert(out@ =~= old(out)@ + seq!['"']);
    }
    let n = s.unicode_len();
    let mut i: usize = 0;
    while i < n
        invariant
            i <= n,
            n == s@.len(),
            out@ == old(out)@ + seq!['"'] + escape_chars(s@.take(i as int)),
        decreases n - i,
    {
        let c = s.get_char(i);
        push_escaped(out, c);
        proof {
            lemma_escape_chars_push(s@.take(i as int), c);
            assert(s@.take(i as int + 1) =~= s@.take(i as int).push(c));
        }
        i = i + 1;
    }
    out.append("\"");
    proof {
        reveal_strlit("\"");
        assert(s@.take(n as int) =~= s@);
        assert(out@ =~= old(out)@ + jstr(s@));
    }
}

/// Appends the JSON array holding the strings of `items`, in order.
pub fn write_string_array(out: &mut String, items: &Vec<String>)
    ensures
        final(out)@ == old(out)@ + jstr_array(items.deep_view()),
{
    out.append("[");
    proof {
        reveal_strlit("[");
        assert(out@ =~= old(out)@ + seq!['[']);
    }
    let mut i: usize = 0;
    while i < items.len()
        invariant
            i <= items.len(),
            items.deep_view().len() == items.len(),
            forall|k: int| 0 <= k < items.len() ==> items.deep_view()[k] == items[k]@,
            out@ == old(out)@ + seq!['['] + jstr_list(items.deep_view().take(i as int)),
        decreases items.len() - i,
    {
        if i > 0 {
            out.append(",");
            proof {
                reveal_strlit(",");
                assert(out@ =~= old(out)@ + seq!['['] + jstr_list(items.deep_view().take(i as int))
                    + seq![',']);
            }
        }
        write_json_string(out, items[i].as_str());
        proof {
            lemma_jstr_list_push(items.deep_view().take(i as int), items[i as int]@);
            assert(items.deep_view().take(i as int + 1) =~= items.deep_view().take(
                i as int,
            ).push(items[i as int]@));
        }
        i = i + 1;
    }
    out.append("]");
    proof {
        reveal_strlit("]");
        assert(items.deep_view().take(items.len() as int) =~= items.deep_view());
        assert(out@ =~= old(out)@ + jstr_array(items.deep_view()));
    }
}

// ---------------------------------------------------------------------------
// The JSON wire format, parsing side.
//
// Response bodies arrive as text and are read into `Json` values. The spec
// functions `spec_value`, `spec_arr_items`, `spec_obj_members` and
// `spec_string_body` define which texts are accepted and what value each
// one denotes, at the ghost level (`JsonV`); the exec parser is proved to
// return exactly that value. Standard JSON is accepted — members and
// elements in any order and number, the usual escapes, surrogate pairs —
// with one leniency: a number token is a maximal run of sign, digit, dot
// and exponent characters, a superset of JSON's number grammar, kept as
// raw text, since no response field of this API is numeric.
// ---------------------------------------------------------------------------

/// One JSON value.
pub enum Json {
    Null,
    Bool(bool),
    Num(String),
    Str(String),
    Arr(Vec<Json>),
    Obj(Vec<Member>),
}

/// One key/value member of a JSON object, in source order.
pub struct Member {
    pub key: String,
    pub value: Json,
}

/// The ghost shape of a JSON value: what `Json` holds, seen through views.
pub ghost enum JsonV {
    Null,
    Bool(bool),
    Num(Seq<char>),
    Str(Seq<char>),
    Arr(Seq<JsonV>),
    Obj(Seq<MemberV>),
}

/// The ghost shape of one object member.
pub ghost struct MemberV {
    pub key: Seq<char>,
    pub value: JsonV,
}

/// The ghost shape of a parsed value.
pub open spec fn json_view(j: Json) -> JsonV
    decreases j,
{
    match j {
        Json::Null => JsonV::Null,
        Json::Bool(b) => JsonV::Bool(b),
        Json::Num(t) => JsonV::Num(t@),
        Json::Str(t) => JsonV::Str(t@),
        Json::Arr(items) => JsonV::Arr(
            Seq::new(
                items@.len(),
                |t: int|
                    if 0 <= t < items.len() {
                        json_view(items[t])
                    } else {
                        JsonV::Null
                    },
            ),
        ),
        Json::Obj(ms) => JsonV::Obj(
            Seq::new(
                ms@.len(),
                |t: int|
                    if 0 <= t < ms.len() {
                        MemberV { key: ms[t].key@, value: json_view(ms[t].value) }
                    } else {
                        MemberV { key: Seq::empty(), value: JsonV::Null }
                    },
            ),
        ),
    }
}

/// The ghost shapes of a sequence of parsed values.
pub open spec fn jviews(items: Seq<Json>) -> Seq<JsonV> {
    Seq::new(items.len(), |t: int| json_view(items[t]))
}

/// The ghost shapes of a sequence of parsed members.
pub open spec fn mviews(ms: Seq<Member>) -> Seq<MemberV> {
    Seq::new(ms.len(), |t: int| MemberV { key: ms[t].key@, value: json_view(ms[t].value) })
}

/// How a value's ghost shape relates to the value, case by case.
pub proof fn lemma_json_view_cases(j: Json)
    ensures
        json_view(j) is Null <==> j is Null,
        json_view(j) is Bool <==> j is Bool,
        json_view(j) is Num <==> j is Num,
        json_view(j) is Str <==> j is Str,
        json_view(j) is Arr <==> j is Arr,
        json_view(j) is Obj <==> j is Obj,
        j is Bool ==> json_view(j)->Bool_0 == j->Bool_0,
        j is Num ==> json_view(j)->Num_0 == j->Num_0@,
        j is Str ==> json_view(j)->Str_0 == j->Str_0@,
        j is Arr ==> json_view(j)->Arr_0 == jviews(j->Arr_0@),
        j is Obj ==> json_view(j)->Obj_0 == mviews(j->Obj_0@),
{
    match j {
        Json::Arr(items) => {
            assert(json_view(j)->Arr_0 =~= jviews(items@));
        },
        Json::Obj(ms) => {
            assert(json_view(j)->Obj_0 =~= mviews(ms@));
        },
        _ => {},
    }
}

pub open spec fn spec_is_ws(c: char) -> bool {
    c == ' ' || c == '\n' || c == '\r' || c == '\t'
}

pub open spec fn spec_is_num_char(c: char) -> bool {
    ('0' <= c && c <= '9') || c == '-' || c == '+' || c == '.' || c == 'e' || c == 'E'
}

/// The first position at or after `i` holding no whitespace.
pub open spec fn spec_skip_ws(s: Seq<char>, i: int) -> int
    decreases s.len() - i,
    when 0 <= i <= s.len()
{
    if i < s.len() && spec_is_ws(s[i]) {
        spec_skip_ws(s, i + 1)
    } else {
        i
    }
}

/// The end of the maximal run of number characters at `i`.
pub open spec fn spec_num_end(s: Seq<char>, i: int) -> int
    decreases s.len() - i,
    when 0 <= i <= s.len()
{
    if i < s.len() && spec_is_num_char(s[i]) {
        spec_num_end(s, i + 1)
    } else {
        i
    }
}

/// The value of a hex digit character.
pub open spec fn spec_hex_val(c: char) -> Option<int> {
    let u = c as u32;
    if 48 <= u && u <= 57 {
        Some(u as int - 48)
    } else if 97 <= u && u <= 102 {
        Some(u as int - 87)
    } else if 65 <= u && u <= 70 {
        Some(u as int - 55)
    } else {
        None
    }
}

/// The value of four hex digits at `i`, when they are there.
pub open spec fn spec_hex4(s: Seq<char>, i: int) -> Option<int> {
    if 0 <= i && i + 4 <= s.len() {
        match (spec_hex_val(s[i]), spec_hex_val(s[i + 1]), spec_hex_val(s[i + 2]), spec_hex_val(
            s[i + 3],
        )) {
            (Some(a), Some(b), Some(c), Some(d)) => Some(((a * 16 + b) * 16 + c) * 16 + d),
            _ => None,
        }
    } else {
        None
    }
}

/// A character's code point.
pub open spec fn code_of(c: char) -> int {
    c as u32 as int
}

/// The character with the given code point.
pub open spec fn char_of(v: int) -> char {
    choose|c: char| code_of(c) == v
}

/// Whether the text at `i` spells out `kw`.
pub open spec fn spec_at(s: Seq<char>, i: int, kw: Seq<char>) -> bool {
    0 <= i && i + kw.len() <= s.len() && s.subrange(i, i + kw.len()) == kw
}

/// The contents of a JSON string literal whose opening quote stands just
/// before `i`, with the position after the closing quote.
pub open spec fn spec_string_body(s: Seq<char>, i: int) -> Option<(Seq<char>, int)>
    decreases s.len() - i,
    when 0 <= i <= s.len()
{
    if i >= s.len() {
        None
    } else {
        let c = s[i];
        if c == '"' {
            Some((Seq::empty(), i + 1))
        } else if c == '\\' {
            if i + 1 >= s.len() {
                None
            } else {
                let e = s[i + 1];
                if e == '"' {
                    match spec_string_body(s, i + 2) {
                        Some(p) => Some((seq!['"'] + p.0, p.1)),
                        None => None,
                    }
                } else if e == '\\' {
                    match spec_string_body(s, i + 2) {
                        Some(p) => Some((seq!['\\'] + p.0, p.1)),
                        None => None,
                    }
                } else if e == '/' {
                    match spec_string_body(s, i + 2) {
                        Some(p) => Some((seq!['/'] + p.0, p.1)),
                        None => None,
                    }
                } else if e == 'b' {
                    match spec_string_body(s, i + 2) {
                        Some(p) => Some((seq!['\u{8}'] + p.0, p.1)),
                        None => None,
                    }
                } else if e == 'f' {
                    match spec_string_body(s, i + 2) {
                        Some(p) => Some((seq!['\u{c}'] + p.0, p.1)),
                        None => None,
                    }
                } else if e == 'n' {
                    match spec_string_body(s, i + 2) {
                        Some(p) => Some((seq!['\n'] + p.0, p.1)),
                        None => None,
                    }
                } else if e == 'r' {
                    match spec_string_body(s, i + 2) {
                        Some(p) => Some((seq!['\r'] + p.0, p.1)),
                        None => None,
                    }
                } else if e == 't' {
                    match spec_string_body(s, i + 2) {
                        Some(p) => Some((seq!['\t'] + p.0, p.1)),
                        None => None,
                    }
                } else if e == 'u' {
                    match spec_hex4(s, i + 2) {
                        Some(h) => {
                            if 0xD800 <= h && h < 0xDC00 {
                                if i + 12 <= s.len() && s[i + 6] == '\\' && s[i + 7] == 'u' {
                                    match spec_hex4(s, i + 8) {
                                        Some(l) => {
                                            if 0xDC00 <= l && l < 0xE000 {
                                                match spec_string_body(s, i + 12) {
                                                    Some(p) => Some(
                                                        (
                                                            seq![
                                                                char_of(
                                                                    0x10000 + (h - 0xD800) * 0x400
                                                                        + (l - 0xDC00),
                                                                )
                                                            ] + p.0,
                                                            p.1,
                                                        ),
                                                    ),
                                                    None => None,
                                                }
                                            } else {
                                                None
                                            }
                                        },
                                        None => None,
                                    }
                                } else {
                                    None
                                }
                            } else if 0xDC00 <= h && h < 0xE000 {
                                None
                            } else {
                                if i + 6 <= s.len() {
                                    match spec_string_body(s, i + 6) {
                                        Some(p) => Some((seq![char_of(h)] + p.0, p.1)),
                                        None => None,
                                    }
                                } else {
                                    None
                                }
                            }
                        },
                        None => None,
                    }
                } else {
                    None
                }
            }
        } else if (c as u32) < 32 {
            None
        } else {
            match spec_string_body(s, i + 1) {
                Some(p) => Some((seq![c] + p.0, p.1)),
                None => None,
            }
        }
    }
}

/// One JSON value at or after `i` (leading whitespace allowed), with the
/// position just past it.
pub open spec fn spec_value(s: Seq<char>, i: int) -> Option<(JsonV, int)>
    decreases s.len() - i, 1int,
    when 0 <= i <= s.len()
{
    let k = spec_skip_ws(s, i);
    if k < i || k >= s.len() {
        None
    } else {
        let c = s[k];
        if c == '"' {
            match spec_string_body(s, k + 1) {
                Some(p) => Some((JsonV::Str(p.0), p.1)),
                None => None,
            }
        } else if c == '[' {
            let k2 = spec_skip_ws(s, k + 1);
            if k2 < k + 1 || k2 > s.len() {
                None
            } else if k2 < s.len() && s[k2] == ']' {
                Some((JsonV::Arr(Seq::empty()), k2 + 1))
            } else {
                match spec_arr_items(s, k2) {
                    Some(p) => Some((JsonV::Arr(p.0), p.1)),
                    None => None,
                }
            }
        } else if c == '{' {
            let k2 = spec_skip_ws(s, k + 1);
            if k2 < k + 1 || k2 > s.len() {
                None
            } else if k2 < s.len() && s[k2] == '}' {
                Some((JsonV::Obj(Seq::empty()), k2 + 1))
            } else {
                match spec_obj_members(s, k2) {
                    Some(p) => Some((JsonV::Obj(p.0), p.1)),
                    None => None,
                }
            }
        } else if c == 't' {
            if spec_at(s, k, "true"@) {
                Some((JsonV::Bool(true), k + 4))
            } else {
                None
            }
        } else if c == 'f' {
            if spec_at(s, k, "false"@) {
                Some((JsonV::Bool(false), k + 5))
            } else {
                None
            }
        } else if c == 'n' {
            if spec_at(s, k, "null"@) {
                Some((JsonV::Null, k + 4))
            } else {
                None
            }
        } else if c == '-' || ('0' <= c && c <= '9') {
            let e = spec_num_end(s, k + 1);
            if k + 1 <= e && e <= s.len() {
                Some((JsonV::Num(s.subrange(k, e)), e))
            } else {
                None
            }
        } else {
            None
        }
    }
}

/// The elements of an array from the first element on, with the position
/// after the closing bracket.
pub open spec fn spec_arr_items(s: Seq<char>, i: int) -> Option<(Seq<JsonV>, int)>
    decreases s.len() - i, 2int,
    when 0 <= i <= s.len()
{
    match spec_value(s, i) {
        Some(p) => {
            if p.1 <= i || p.1 > s.len() {
                None
            } else {
                let j2 = spec_skip_ws(s, p.1);
                if j2 < p.1 || j2 >= s.len() {
                    None
                } else if s[j2] == ']' {
                    Some((seq![p.0], j2 + 1))
                } else if s[j2] == ',' {
                    match spec_arr_items(s, j2 + 1) {
                        Some(q) => Some((seq![p.0] + q.0, q.1)),
                        None => None,
                    }
                } else {
                    None
                }
            }
        },
        None => None,
    }
}

/// The members of an object from the first key on, with the position after
/// the closing brace.
pub open spec fn spec_obj_members(s: Seq<char>, i: int) -> Option<(Seq<MemberV>, int)>
    decreases s.len() - i, 2int,
    when 0 <= i <= s.len()
{
    let k = spec_skip_ws(s, i);
    if k < i || k >= s.len() {
        None
    } else if s[k] != '"' {
        None
    } else {
        match spec_string_body(s, k + 1) {
            Some(kp) => {
                if kp.1 <= k || kp.1 > s.len() {
                    None
                } else {
                    let j2 = spec_skip_ws(s, kp.1);
                    if j2 < kp.1 || j2 >= s.len() {
                        None
                    } else if s[j2] != ':' {
                        None
                    } else {
                        match spec_value(s, j2 + 1) {
                            Some(vp) => {
                                if vp.1 <= j2 || vp.1 > s.len() {
                                    None
                                } else {
                                    let j4 = spec_skip_ws(s, vp.1);
                                    if j4 < vp.1 || j4 >= s.len() {
                                        None
                                    } else if s[j4] == '}' {
                                        Some(
                                            (seq![MemberV { key: kp.0, value: vp.0 }], j4 + 1),
                                        )
                                    } else if s[j4] == ',' {
                                        match spec_obj_members(s, j4 + 1) {
                                            Some(q) => Some(
                                                (
                                                    seq![MemberV { key: kp.0, value: vp.0 }] + q.0,
                                                    q.1,
                                                ),
                                            ),
                                            None => None,
                                        }
                                    } else {
                                        None
                                    }
                                }
                            },
                            None => None,
                        }
                    }
                }
            },
            None => None,
        }
    }
}

/// A whole text as one JSON value: one value, then only whitespace.
pub open spec fn spec_json(s: Seq<char>) -> Option<JsonV> {
    match spec_value(s, 0) {
        Some(p) => {
            if 0 <= p.1 <= s.len() && spec_skip_ws(s, p.1) == s.len() {
                Some(p.0)
            } else {
                None
            }
        },
        None => None,
    }
}

fn is_ws_char(c: char) -> (r: bool)
    ensures
        r == spec_is_ws(c),
{
    c == ' ' || c == '\n' || c == '\r' || c == '\t'
}

fn is_num_char(c: char) -> (r: bool)
    ensures
        r == spec_is_num_char(c),
{
    ('0' <= c && c <= '9') || c == '-' || c == '+' || c == '.' || c == 'e' || c == 'E'
}

/// Relies on char::from_u32: `Some` exactly on Unicode scalar values,
/// carrying that value.
#[verifier::external_body]
fn char_from_u32(v: u32) -> (r: Option<char>)
    ensures
        r is Some <==> (v < 0xD800 || (0xE000 <= v && v <= 0x10FFFF)),
        r matches Some(c) ==> c as u32 == v,
{
    char::from_u32(v)
}

/// A character is the one with its own code point.
proof fn lemma_char_of(c: char)
    ensures
        char_of((c as u32) as int) == c,
{
    let v = (c as u32) as int;
    assert(code_of(c) == v);
    let picked = char_of(v);
    assert(code_of(picked) == v) by {
        assert(exists|x: char| code_of(x) == v) by {
            assert(code_of(c) == v);
        }
    }
    assert(picked as u32 == c as u32);
}

/// Character-by-character string equality.
pub fn str_eq(a: &str, b: &str) -> (r: bool)
    ensures
        r == (a@ == b@),
{
    let na = a.unicode_len();
    let nb = b.unicode_len();
    if na != nb {
        return false;
    }
    let mut i: usize = 0;
    while i < na
        invariant
            i <= na,
            na == a@.len(),
            na == b@.len(),
            forall|k: int| 0 <= k < i ==> a@[k] == b@[k],
        decreases na - i,
    {
        if a.get_char(i) != b.get_char(i) {
            return false;
        }
        i = i + 1;
    }
    proof {
        assert(a@ =~= b@);
    }
    true
}

/// The first position at or after `i` that holds no whitespace.
fn skip_ws(s: &str, n: usize, i: usize) -> (j: usize)
    requires
        i <= n,
        n == s@.len(),
    ensures
        i <= j <= n,
        j as int == spec_skip_ws(s@, i as int),
    decreases n - i,
{
    let mut j = i;
    while j < n && is_ws_char(s.get_char(j))
        invariant
            i <= j <= n,
            n == s@.len(),
            spec_skip_ws(s@, i as int) == spec_skip_ws(s@, j as int),
        decreases n - j,
    {
        proof {
            assert(spec_skip_ws(s@, j as int) == spec_skip_ws(s@, j as int + 1));
        }
        j = j + 1;
    }
    proof {
        assert(spec_skip_ws(s@, j as int) == j as int);
    }
    j
}

/// The value of one hex digit, if the character is one.
fn hex_val(c: char) -> (r: Option<u32>)
    ensures
        match spec_hex_val(c) {
            Some(d) => r matches Some(h) && h as int == d && h < 16,
            None => r is None,
        },
{
    let u = c as u32;
    if 48 <= u && u <= 57 {
        Some(u - 48)
    } else if 97 <= u && u <= 102 {
        Some(u - 87)
    } else if 65 <= u && u <= 70 {
        Some(u - 55)
    } else {
        None
    }
}

/// Four hex digits starting at `i`, as one value.
fn parse_hex4(s: &str, n: usize, i: usize) -> (r: Option<u32>)
    requires
        n == s@.len(),
        i + 4 <= n,
    ensures
        match spec_hex4(s@, i as int) {
            Some(h) => r matches Some(x) && x as int == h && x < 0x10000,
            None => r is None,
        },
{
    let d0 = match hex_val(s.get_char(i)) {
        Some(v) => v,
        None => {
            return None;
        },
    };
    let d1 = match hex_val(s.get_char(i + 1)) {
        Some(v) => v,
        None => {
            return None;
        },
    };
    let d2 = match hex_val(s.get_char(i + 2)) {
        Some(v) => v,
        None => {
            return None;
        },
    };
    let d3 = match hex_val(s.get_char(i + 3)) {
        Some(v) => v,
        None => {
            return None;
        },
    };
    Some(((d0 * 16 + d1) * 16 + d2) * 16 + d3)
}

/// Puts one character in front of a parsed tail.
fn cons_char(ch: char, rest: Option<(String, usize)>) -> (r: Option<(String, usize)>)
    ensures
        match rest {
            Some(p) => r matches Some(q) && q.0@ == seq![ch] + p.0@ && q.1 == p.1,
            None => r is None,
        },
{
    match rest {
        Some((t, j)) => {
            let mut out = String::new();
            push_char(&mut out, ch);
            out.append(t.as_str());
            proof {
                assert(out@ =~= seq![ch] + t@);
            }
            Some((out, j))
        },
        None => None,
    }
}

/// The contents of a JSON string literal whose opening quote stands just
/// before `i`; returns the decoded text and the position after the closing
/// quote.
fn parse_string_body(s: &str, n: usize, i: usize) -> (r: Option<(String, usize)>)
    requires
        i <= n,
        n == s@.len(),
    ensures
        match spec_string_body(s@, i as int) {
            Some(p) => r matches Some(q) && q.0@ == p.0 && q.1 as int == p.1 && i < q.1 <= n,
            None => r is None,
        },
    decreases n - i,
{
    if i >= n {
        return None;
    }
    let c = s.get_char(i);
    if c == '"' {
        Some((String::new(), i + 1))
    } else if c == '\\' {
        if i + 1 >= n {
            return None;
        }
        let e = s.get_char(i + 1);
        if e == 'u' {
            if n - i < 6 {
                return None;
            }
            let h = match parse_hex4(s, n, i + 2) {
                Some(v) => v,
                None => {
                    return None;
                },
            };
            if 0xD800 <= h && h < 0xDC00 {
                if n - i < 12 {
                    return None;
                }
                if s.get_char(i + 6) != '\\' || s.get_char(i + 7) != 'u' {
                    return None;
                }
                let l = match parse_hex4(s, n, i + 8) {
                    Some(v) => v,
                    None => {
                        return None;
                    },
                };
                if !(0xDC00 <= l && l < 0xE000) {
                    return None;
                }
                let code: u32 = 0x10000 + (h - 0xD800) * 0x400 + (l - 0xDC00);
                match char_from_u32(code) {
                    Some(ch) => {
                        proof {
                            lemma_char_of(ch);
                        }
                        cons_char(ch, parse_string_body(s, n, i + 12))
                    },
                    None => {
                        proof {
                            assert(false);
                        }
                        None
                    },
                }
            } else if 0xDC00 <= h && h < 0xE000 {
                None
            } else {
                match char_from_u32(h) {
                    Some(ch) => {
                        proof {
                            lemma_char_of(ch);
                        }
                        cons_char(ch, parse_string_body(s, n, i + 6))
                    },
                    None => {
                        proof {
                            assert(false);
                        }
                        None
                    },
                }
            }
        } else {
            let decoded: Option<char> = if e == '"' {
                Some('"')
            } else if e == '\\' {
                Some('\\')
            } else if e == '/' {
                Some('/')
            } else if e == 'b' {
                Some('\u{8}')
            } else if e == 'f' {
                Some('\u{c}')
            } else if e == 'n' {
                Some('\n')
            } else if e == 'r' {
                Some('\r')
            } else if e == 't' {
                Some('\t')
            } else {
                None
            };
            match decoded {
                Some(ch) => cons_char(ch, parse_string_body(s, n, i + 2)),
                None => None,
            }
        }
    } else if (c as u32) < 32 {
        None
    } else {
        cons_char(c, parse_string_body(s, n, i + 1))
    }
}

/// The raw text of a number token starting at `i`.
fn parse_number(s: &str, n: usize, i: usize) -> (r: (String, usize))
    requires
        i < n,
        n == s@.len(),
    ensures
        r.1 as int == spec_num_end(s@, i as int + 1),
        r.0@ == s@.subrange(i as int, r.1 as int),
        i < r.1 <= n,
{
    let mut out = String::new();
    push_char(&mut out, s.get_char(i));
    let mut j = i + 1;
    proof {
        assert(out@ =~= s@.subrange(i as int, j as int));
    }
    while j < n && is_num_char(s.get_char(j))
        invariant
            i < j <= n,
            n == s@.len(),
            out@ == s@.subrange(i as int, j as int),
            spec_num_end(s@, i as int + 1) == spec_num_end(s@, j as int),
        decreases n - j,
    {
        proof {
            assert(spec_num_end(s@, j as int) == spec_num_end(s@, j as int + 1));
            assert(s@.subrange(i as int, j as int).push(s@[j as int]) =~= s@.subrange(
                i as int,
                j as int + 1,
            ));
        }
        push_char(&mut out, s.get_char(j));
        j = j + 1;
    }
    proof {
        assert(spec_num_end(s@, j as int) == j as int);
    }
    (out, j)
}

/// The position after `kw` if the text at `i` spells it out.
fn match_keyword(s: &str, n: usize, i: usize, kw: &str) -> (r: Option<usize>)
    requires
        i <= n,
        n == s@.len(),
    ensures
        r matches Some(j) ==> i <= j <= n && j == i + kw@.len(),
        r is Some <==> spec_at(s@, i as int, kw@),
{
    let m = kw.unicode_len();
    if n - i < m {
        return None;
    }
    let mut k: usize = 0;
    while k < m
        invariant
            k <= m,
            i + m <= n,
            n == s@.len(),
            m == kw@.len(),
            forall|t: int| 0 <= t < k ==> s@[i + t] == kw@[t],
        decreases m - k,
    {
        if s.get_char(i + k) != kw.get_char(k) {
            proof {
                assert(s@.subrange(i as int, i as int + m as int)[k as int] != kw@[k as int]);
            }
            return None;
        }
        k = k + 1;
    }
    proof {
        assert(s@.subrange(i as int, i as int + m as int) =~= kw@);
    }
    Some(i + m)
}

/// One JSON value starting at or after `i` (leading whitespace allowed);
/// returns exactly the value and end position that `spec_value` gives.
fn parse_value(s: &str, n: usize, i: usize) -> (r: Option<(Json, usize)>)
    requires
        i <= n,
        n == s@.len(),
    ensures
        match spec_value(s@, i as int) {
            Some(p) => r matches Some(q) && json_view(q.0) == p.0 && q.1 as int == p.1 && i < q.1
                <= n,
            None => r is None,
        },
    decreases n - i, 1int,
{
    let k = skip_ws(s, n, i);
    if k >= n {
        return None;
    }
    let c = s.get_char(k);
    if c == '"' {
        match parse_string_body(s, n, k + 1) {
            Some((t, j)) => Some((Json::Str(t), j)),
            None => None,
        }
    } else if c == '[' {
        let k2 = skip_ws(s, n, k + 1);
        if k2 < n && s.get_char(k2) == ']' {
            let out: Vec<Json> = Vec::new();
            proof {
                assert(json_view(Json::Arr(out)) == JsonV::Arr(Seq::<JsonV>::empty())) by {
                    assert(json_view(Json::Arr(out))->Arr_0 =~= Seq::<JsonV>::empty());
                }
            }
            return Some((Json::Arr(out), k2 + 1));
        }
        match parse_arr_items(s, n, k2) {
            Some((items, j)) => {
                proof {
                    let p = spec_arr_items(s@, k2 as int).unwrap();
                    assert(json_view(Json::Arr(items)) == JsonV::Arr(p.0)) by {
                        assert(json_view(Json::Arr(items))->Arr_0 =~= p.0);
                    }
                }
                Some((Json::Arr(items), j))
            },
            None => None,
        }
    } else if c == '{' {
        let k2 = skip_ws(s, n, k + 1);
        if k2 < n && s.get_char(k2) == '}' {
            let out: Vec<Member> = Vec::new();
            proof {
                assert(json_view(Json::Obj(out)) == JsonV::Obj(Seq::<MemberV>::empty())) by {
                    assert(json_view(Json::Obj(out))->Obj_0 =~= Seq::<MemberV>::empty());
                }
            }
            return Some((Json::Obj(out), k2 + 1));
        }
        match parse_obj_members(s, n, k2) {
            Some((ms, j)) => {
                proof {
                    let p = spec_obj_members(s@, k2 as int).unwrap();
                    assert(json_view(Json::Obj(ms)) == JsonV::Obj(p.0)) by {
                        assert(json_view(Json::Obj(ms))->Obj_0 =~= p.0);
                    }
                }
                Some((Json::Obj(ms), j))
            },
            None => None,
        }
    } else if c == 't' {
        match match_keyword(s, n, k, "true") {
            Some(j) => {
                proof {
                    reveal_strlit("true");
                }
                Some((Json::Bool(true), j))
            },
            None => None,
        }
    } else if c == 'f' {
        match match_keyword(s, n, k, "false") {
            Some(j) => {
                proof {
                    reveal_strlit("false");
                }
                Some((Json::Bool(false), j))
            },
            None => None,
        }
    } else if c == 'n' {
        match match_keyword(s, n, k, "null") {
            Some(j) => {
                proof {
                    reveal_strlit("null");
                }
                Some((Json::Null, j))
            },
            None => None,
        }
    } else if c == '-' || ('0' <= c && c <= '9') {
        let (text, j) = parse_number(s, n, k);
        Some((Json::Num(text), j))
    } else {
        None
    }
}

/// The elements of an array from the first element on; mirrors
/// `spec_arr_items` exactly.
fn parse_arr_items(s: &str, n: usize, i: usize) -> (r: Option<(Vec<Json>, usize)>)
    requires
        i <= n,
        n == s@.len(),
    ensures
        match spec_arr_items(s@, i as int) {
            Some(p) => r matches Some(q) && q.1 as int == p.1 && i < q.1 <= n && q.0@.len()
                == p.0.len() && (forall|t: int|
                0 <= t < p.0.len() ==> json_view(q.0@[t]) == p.0[t]),
            None => r is None,
        },
    decreases n - i, 2int,
{
    match parse_value(s, n, i) {
        None => None,
        Some((v, j)) => {
            let j2 = skip_ws(s, n, j);
            if j2 >= n {
                return None;
            }
            let d = s.get_char(j2);
            if d == ']' {
                let mut out: Vec<Json> = Vec::new();
                out.push(v);
                Some((out, j2 + 1))
            } else if d == ',' {
                match parse_arr_items(s, n, j2 + 1) {
                    None => None,
                    Some((rest, e)) => {
                        let mut out: Vec<Json> = Vec::new();
                        out.push(v);
                        let mut tail = rest;
                        out.append(&mut tail);
                        Some((out, e))
                    },
                }
            } else {
                None
            }
        },
    }
}

/// The members of an object from the first key on; mirrors
/// `spec_obj_members` exactly.
fn parse_obj_members(s: &str, n: usize, i: usize) -> (r: Option<(Vec<Member>, usize)>)
    requires
        i <= n,
        n == s@.len(),
    ensures
        match spec_obj_members(s@, i as int) {
            Some(p) => r matches Some(q) && q.1 as int == p.1 && i < q.1 <= n && q.0@.len()
                == p.0.len() && (forall|t: int|
                0 <= t < p.0.len() ==> q.0@[t].key@ == p.0[t].key && json_view(q.0@[t].value)
                    == p.0[t].value),
            None => r is None,
        },
    decreases n - i, 2int,
{
    let k = skip_ws(s, n, i);
    if k >= n {
        return None;
    }
    if s.get_char(k) != '"' {
        return None;
    }
    match parse_string_body(s, n, k + 1) {
        None => None,
        Some((key, j)) => {
            let j2 = skip_ws(s, n, j);
            if j2 >= n {
                return None;
            }
            if s.get_char(j2) != ':' {
                return None;
            }
            match parse_value(s, n, j2 + 1) {
                None => None,
                Some((v, j3)) => {
                    let j4 = skip_ws(s, n, j3);
                    if j4 >= n {
                        return None;
                    }
                    let d = s.get_char(j4);
                    if d == '}' {
                        let mut out: Vec<Member> = Vec::new();
                        out.push(Member { key, value: v });
                        Some((out, j4 + 1))
                    } else if d == ',' {
                        match parse_obj_members(s, n, j4 + 1) {
                            None => None,
                            Some((rest, e)) => {
                                let mut out: Vec<Member> = Vec::new();
                                out.push(Member { key, value: v });
                                let mut tail = rest;
                                out.append(&mut tail);
                                Some((out, e))
                            },
                        }
                    } else {
                        None
                    }
                },
            }
        },
    }
}

fn malformed() -> (e: Error)
    ensures
        e is Deserialization,
{
    Error::Deserialization { message: String::from_str("response body is not the expected shape") }
}

/// Reads a whole text as one JSON value; trailing whitespace is allowed,
/// anything further is refused. Succeeds exactly when `spec_json` accepts
/// the text, and then returns exactly the value it denotes.
pub fn parse_json(s: &str) -> (r: Result<Json, Error>)
    ensures
        r is Ok <==> spec_json(s@) is Some,
        r matches Ok(v) ==> spec_json(s@) == Some(json_view(v)),
        r matches Err(e) ==> e is Deserialization,
{
    let n = s.unicode_len();
    match parse_value(s, n, 0) {
        Some((v, j)) => {
            let j2 = skip_ws(s, n, j);
            if j2 == n {
                Ok(v)
            } else {
                Err(malformed())
            }
        },
        None => Err(malformed()),
    }
}

// ---------------------------------------------------------------------------
// Typed extraction out of a parsed object, stated over ghost shapes.
// ---------------------------------------------------------------------------

/// The value of the first member with the given key, if any.
pub open spec fn lookup(ms: Seq<Member>, key: Seq<char>) -> Option<Json>
    decreases ms.len(),
{
    if ms.len() == 0 {
        None
    } else if ms[0].key@ == key {
        Some(ms[0].value)
    } else {
        lookup(ms.drop_first(), key)
    }
}

/// The same lookup at the ghost level.
pub open spec fn lookup_v(ms: Seq<MemberV>, key: Seq<char>) -> Option<JsonV>
    decreases ms.len(),
{
    if ms.len() == 0 {
        None
    } else if ms[0].key == key {
        Some(ms[0].value)
    } else {
        lookup_v(ms.drop_first(), key)
    }
}

/// Looking a key up among members or among their ghost shapes is the same.
pub proof fn lemma_lookup_views(ms: Seq<Member>, key: Seq<char>)
    ensures
        lookup_v(mviews(ms), key) == (match lookup(ms, key) {
            Some(j) => Some(json_view(j)),
            None => None::<JsonV>,
        }),
    decreases ms.len(),
{
    if ms.len() == 0 {
        assert(mviews(ms) =~= Seq::<MemberV>::empty());
    } else {
        assert(mviews(ms)[0] == (MemberV { key: ms[0].key@, value: json_view(ms[0].value) }));
        if ms[0].key@ == key {
        } else {
            lemma_lookup_views(ms.drop_first(), key);
            assert(mviews(ms).drop_first() =~= mviews(ms.drop_first()));
        }
    }
}

/// The text of the member `key`, when it is present and is a string.
pub open spec fn spec_str_field(ms: Seq<MemberV>, key: Seq<char>) -> Option<Seq<char>> {
    match lookup_v(ms, key) {
        Some(JsonV::Str(t)) => Some(t),
        _ => None,
    }
}

pub open spec fn all_strings(items: Seq<JsonV>) -> bool {
    forall|k: int| 0 <= k < items.len() ==> items[k] is Str
}

pub open spec fn str_items(items: Seq<JsonV>) -> Seq<Seq<char>> {
    Seq::new(items.len(), |k: int| items[k]->Str_0)
}

/// The texts of the member `key`, when it is present and is an array
/// holding only strings.
pub open spec fn spec_str_array_field(ms: Seq<MemberV>, key: Seq<char>) -> Option<Seq<Seq<char>>> {
    match lookup_v(ms, key) {
        Some(JsonV::Arr(items)) => if all_strings(items) {
            Some(str_items(items))
        } else {
            None
        },
        _ => None,
    }
}

/// The first member with the given key.
pub fn obj_get<'a>(ms: &'a Vec<Member>, key: &str) -> (r: Option<&'a Json>)
    ensures
        (r matches Some(v) ==> lookup(ms@, key@) == Some(*v)),
        r is None ==> lookup(ms@, key@) is None,
{
    proof {
        assert(ms@.skip(0) =~= ms@);
    }
    let mut i: usize = 0;
    while i < ms.len()
        invariant
            i <= ms.len(),
            lookup(ms@, key@) == lookup(ms@.skip(i as int), key@),
        decreases ms.len() - i,
    {
        proof {
            assert(ms@.skip(i as int)[0] == ms@[i as int]);
            assert(ms@.skip(i as int).drop_first() =~= ms@.skip(i as int + 1));
        }
        if str_eq(ms[i].key.as_str(), key) {
            return Some(&ms[i].value);
        }
        i = i + 1;
    }
    proof {
        assert(ms@.skip(ms@.len() as int) =~= Seq::<Member>::empty());
    }
    None
}

/// The string field `key` of an object, or a deserialization error.
pub fn get_str_field(ms: &Vec<Member>, key: &str) -> (r: Result<String, Error>)
    ensures
        (r matches Ok(v) ==> spec_str_field(mviews(ms@), key@) == Some(v@)),
        r is Err <==> spec_str_field(mviews(ms@), key@) is None,
        (r matches Err(e) ==> e is Deserialization),
{
    proof {
        lemma_lookup_views(ms@, key@);
    }
    match obj_get(ms, key) {
        Some(v) => {
            proof {
                lemma_json_view_cases(*v);
            }
            match v {
                Json::Str(text) => Ok(text.clone()),
                _ => Err(malformed()),
            }
        },
        None => Err(malformed()),
    }
}

/// The string-array field `key` of an object, or a deserialization error.
pub fn get_str_array_field(ms: &Vec<Member>, key: &str) -> (r: Result<Vec<String>, Error>)
    ensures
        (r matches Ok(v) ==> spec_str_array_field(mviews(ms@), key@) == Some(v.deep_view())),
        r is Err <==> spec_str_array_field(mviews(ms@), key@) is None,
        (r matches Err(e) ==> e is Deserialization),
{
    proof {
        lemma_lookup_views(ms@, key@);
    }
    match obj_get(ms, key) {
        Some(v) => {
            proof {
                lemma_json_view_cases(*v);
            }
            match v {
                Json::Arr(items) => {
                    let ghost vitems = json_view(*v)->Arr_0;
                    proof {
                        assert(vitems == jviews(items@));
                    }
                    let mut out: Vec<String> = Vec::new();
                    let mut k: usize = 0;
                    while k < items.len()
                        invariant
                            k <= items.len(),
                            out@.len() == k,
                            vitems == jviews(items@),
                            vitems.len() == items@.len(),
                            lookup_v(mviews(ms@), key@) == Some(JsonV::Arr(vitems)),
                            forall|t: int| 0 <= t < k ==> vitems[t] is Str,
                            forall|t: int| 0 <= t < k ==> out@[t]@ == vitems[t]->Str_0,
                        decreases items.len() - k,
                    {
                        proof {
                            lemma_json_view_cases(items@[k as int]);
                            assert(vitems[k as int] == json_view(items@[k as int]));
                        }
                        match &items[k] {
                            Json::Str(text) => {
                                out.push(text.clone());
                            },
                            _ => {
                                proof {
                                    assert(!(vitems[k as int] is Str));
                                    assert(!all_strings(vitems));
                                }
                                return Err(malformed());
                            },
                        }
                        k = k + 1;
                    }
                    proof {
                        assert(all_strings(vitems));
                        assert(out.deep_view() =~~= str_items(vitems));
                    }
                    Ok(out)
                },
                _ => Err(malformed()),
            }
        },
        None => Err(malformed()),
    }
}

} // verus!
