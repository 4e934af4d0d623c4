//! A small JSON engine: a document model, a recursive-descent parser and a
//! canonical encoder, each executable function pinned to a specification
//! function over character sequences.
//!
//! The grammar covers what the suggestion protocol uses: objects, arrays,
//! strings, unsigned integers, booleans and `null`. Inside strings the
//! escapes `\" \\ \/ \b \f \n \r \t` are understood, and `\u00XX` for the
//! control range; any other character, control characters included, is taken
//! as itself. Numbers are unsigned decimal integers that fit a `u64`, as the
//! protocol's timing fields are. The encoder escapes `" \ \n \r \t` and
//! writes everything else raw.

use vstd::prelude::*;
use crate::strutil::{is_digit, digit_val, digit_of, is_json_space, sp_skip_spaces,
    lemma_skip_spaces_bounds, skip_spaces, sp_digits_val, sp_match_at, seq_match, string_of,
    append_chars, chars_of};

verus! {

/// The mathematical model of a JSON document.
pub ghost enum JsonV {
    Null,
    Bool(bool),
    Num(u64),
    /// A numeric token that is not an unsigned integer fitting a `u64` —
    /// negative, fractional, with an exponent, or too large — kept as its
    /// text. It survives parsing so that a document holding one still
    /// decodes, but it has no canonical encoding and no schema mapping
    /// accepts it.
    NumRaw(Seq<char>),
    Str(Seq<char>),
    Arr(Seq<JsonV>),
    Obj(Seq<(Seq<char>, JsonV)>),
}

/// An executable JSON document. Object members keep their textual order.
pub enum JsonValue {
    Null,
    Bool(bool),
    Num(u64),
    /// A numeric token kept as its text; see [`JsonV::NumRaw`].
    NumRaw(String),
    Str(String),
    Arr(Vec<JsonValue>),
    Obj(Vec<(String, JsonValue)>),
}

pub open spec fn jv_view(v: JsonValue) -> JsonV
    decreases v, 0int,
{
    match v {
        JsonValue::Null => JsonV::Null,
        JsonValue::Bool(b) => JsonV::Bool(b),
        JsonValue::Num(n) => JsonV::Num(n),
        JsonValue::NumRaw(s) => JsonV::NumRaw(s@),
        JsonValue::Str(s) => JsonV::Str(s@),
        JsonValue::Arr(es) => JsonV::Arr(jv_view_list(es@)),
        JsonValue::Obj(ms) => JsonV::Obj(jv_view_members(ms@)),
    }
}

pub open spec fn jv_view_list(es: Seq<JsonValue>) -> Seq<JsonV>
    decreases es, 1int,
{
    if es.len() == 0 {
        Seq::empty()
    } else {
        seq![jv_view(es[0])] + jv_view_list(es.drop_first())
    }
}

pub open spec fn jv_view_members(ms: Seq<(String, JsonValue)>) -> Seq<(Seq<char>, JsonV)>
    decreases ms, 1int,
{
    if ms.len() == 0 {
        Seq::empty()
    } else {
        seq![(ms[0].0@, jv_view(ms[0].1))] + jv_view_members(ms.drop_first())
    }
}

impl View for JsonValue {
    type V = JsonV;

    open spec fn view(&self) -> JsonV {
        jv_view(*self)
    }
}

pub proof fn lemma_jv_view_list_push(es: Seq<JsonValue>, v: JsonValue)
    ensures
        jv_view_list(es.push(v)) == jv_view_list(es) + seq![jv_view(v)],
    decreases es.len(),
{
    let whole = es.push(v);
    assert(whole.len() == es.len() + 1);
    assert(whole[0] == if es.len() == 0 { v } else { es[0] });
    assert(jv_view_list(whole) == seq![jv_view(whole[0])] + jv_view_list(whole.drop_first()));
    if es.len() == 0 {
        assert(whole.drop_first() =~= Seq::<JsonValue>::empty());
        assert(jv_view_list(whole.drop_first()) == Seq::<JsonV>::empty());
        assert(jv_view_list(es) == Seq::<JsonV>::empty());
        assert(jv_view_list(whole) =~= jv_view_list(es) + seq![jv_view(v)]);
    } else {
        assert(whole.drop_first() =~= es.drop_first().push(v));
        lemma_jv_view_list_push(es.drop_first(), v);
        assert(jv_view_list(es) == seq![jv_view(es[0])] + jv_view_list(es.drop_first()));
        assert(jv_view_list(whole) =~= jv_view_list(es) + seq![jv_view(v)]);
    }
}

pub proof fn lemma_jv_view_members_push(ms: Seq<(String, JsonValue)>, k: String, v: JsonValue)
    ensures
        jv_view_members(ms.push((k, v))) == jv_view_members(ms) + seq![(k@, jv_view(v))],
    decreases ms.len(),
{
    let whole = ms.push((k, v));
    assert(whole.len() == ms.len() + 1);
    assert(whole[0] == if ms.len() == 0 { (k, v) } else { ms[0] });
    assert(jv_view_members(whole) == seq![(whole[0].0@, jv_view(whole[0].1))] + jv_view_members(
        whole.drop_first(),
    ));
    if ms.len() == 0 {
        assert(whole.drop_first() =~= Seq::<(String, JsonValue)>::empty());
        assert(jv_view_members(whole.drop_first()) == Seq::<(Seq<char>, JsonV)>::empty());
        assert(jv_view_members(ms) == Seq::<(Seq<char>, JsonV)>::empty());
        assert(jv_view_members(whole) =~= jv_view_members(ms) + seq![(k@, jv_view(v))]);
    } else {
        assert(whole.drop_first() =~= ms.drop_first().push((k, v)));
        lemma_jv_view_members_push(ms.drop_first(), k, v);
        assert(jv_view_members(ms) == seq![(ms[0].0@, jv_view(ms[0].1))] + jv_view_members(
            ms.drop_first(),
        ));
        assert(jv_view_members(whole) =~= jv_view_members(ms) + seq![(k@, jv_view(v))]);
    }
}

/// The character named by a short escape, if the escape code is known.
pub open spec fn sp_esc_code(e: char) -> Option<char> {
    if e == '"' {
        Some('"')
    } else if e == '\\' {
        Some('\\')
    } else if e == '/' {
        Some('/')
    } else if e == 'b' {
        Some('\u{8}')
    } else if e == 'f' {
        Some('\u{c}')
    } else if e == 'n' {
        Some('\n')
    } else if e == 'r' {
        Some('\r')
    } else if e == 't' {
        Some('\t')
    } else {
        None
    }
}

/// Executable mirror of [`sp_esc_code`].
pub fn esc_code(e: char) -> (r: Option<char>)
    ensures
        r == sp_esc_code(e),
{
    match e {
        '"' => Some('"'),
        '\\' => Some('\\'),
        '/' => Some('/'),
        'b' => Some('\u{8}'),
        'f' => Some('\u{c}'),
        'n' => Some('\n'),
        'r' => Some('\r'),
        't' => Some('\t'),
        _ => None,
    }
}

/// The value of a hexadecimal digit.
pub open spec fn sp_hex_val(c: char) -> Option<int> {
    if is_digit(c) {
        Some(digit_val(c))
    } else if c == 'a' || c == 'A' {
        Some(10)
    } else if c == 'b' || c == 'B' {
        Some(11)
    } else if c == 'c' || c == 'C' {
        Some(12)
    } else if c == 'd' || c == 'D' {
        Some(13)
    } else if c == 'e' || c == 'E' {
        Some(14)
    } else if c == 'f' || c == 'F' {
        Some(15)
    } else {
        None
    }
}

/// Executable mirror of [`sp_hex_val`].
pub fn hex_val(c: char) -> (r: Option<u32>)
    ensures
        r is Some <==> sp_hex_val(c) is Some,
        r is Some ==> sp_hex_val(c) == Some(r->0 as int),
{
    match digit_of(c) {
        Some(d) => Some(d),
        None => match c {
            'a' | 'A' => Some(10),
            'b' | 'B' => Some(11),
            'c' | 'C' => Some(12),
            'd' | 'D' => Some(13),
            'e' | 'E' => Some(14),
            'f' | 'F' => Some(15),
            _ => None,
        },
    }
}

/// Relies on `char::from_u32`: by its documentation it returns the
/// character with the given scalar value, and nothing exactly for the
/// surrogate range and for values above the scalar maximum.
pub assume_specification[ char::from_u32 ](i: u32) -> (r: Option<char>)
    ensures
        r is Some <==> (i < 0xD800 || (0xE000 <= i && i <= 0x10FFFF)),
        r is Some ==> r == Some(i as char),
;

/// Parses the body of a string literal, the opening quote already consumed:
/// the decoded characters and the position after the closing quote.
pub open spec fn sp_parse_string_body(s: Seq<char>, i: int) -> Option<(Seq<char>, int)>
    decreases s.len() - i when 0 <= i <= s.len()
{
    if i >= s.len() {
        None
    } else if s[i] == '"' {
        Some((Seq::empty(), i + 1))
    } else if s[i] == '\\' {
        if i + 2 > s.len() {
            None
        } else if s[i + 1] == 'u' {
            if i + 6 <= s.len() && sp_hex_val(s[i + 2]) is Some && sp_hex_val(s[i + 3]) is Some
                && sp_hex_val(s[i + 4]) is Some && sp_hex_val(s[i + 5]) is Some {
                let v = sp_hex_val(s[i + 2])->0 * 4096 + sp_hex_val(s[i + 3])->0 * 256 + sp_hex_val(
                    s[i + 4],
                )->0 * 16 + sp_hex_val(s[i + 5])->0;
                if v < 0xD800 || 0xE000 <= v {
                    match sp_parse_string_body(s, i + 6) {
                        Some((rest, k)) => Some((seq![v as char] + rest, k)),
                        None => None,
                    }
                } else if v < 0xDC00 {
                    if i + 12 <= s.len() && s[i + 6] == '\\' && s[i + 7] == 'u' && sp_hex_val(
                        s[i + 8],
                    ) is Some && sp_hex_val(s[i + 9]) is Some && sp_hex_val(s[i + 10]) is Some
                        && sp_hex_val(s[i + 11]) is Some {
                        let w = sp_hex_val(s[i + 8])->0 * 4096 + sp_hex_val(s[i + 9])->0 * 256
                            + sp_hex_val(s[i + 10])->0 * 16 + sp_hex_val(s[i + 11])->0;
                        if 0xDC00 <= w < 0xE000 {
                            let code = 0x10000 + (v - 0xD800) * 0x400 + (w - 0xDC00);
                            match sp_parse_string_body(s, i + 12) {
                                Some((rest, k)) => Some((seq![code as char] + rest, k)),
                                None => None,
                            }
                        } else {
                            None
                        }
                    } else {
                        None
                    }
                } else {
                    None
                }
            } else {
                None
            }
        } else {
            match sp_esc_code(s[i + 1]) {
                Some(c) => match sp_parse_string_body(s, i + 2) {
                    Some((rest, k)) => Some((seq![c] + rest, k)),
                    None => None,
                },
                None => None,
            }
        }
    } else {
        match sp_parse_string_body(s, i + 1) {
            Some((rest, k)) => Some((seq![s[i]] + rest, k)),
            None => None,
        }
    }
}

/// Decodes a string literal body.
pub fn parse_string_body(s: &Vec<char>, i: usize) -> (r: Option<(Vec<char>, usize)>)
    requires
        i <= s@.len(),
    ensures
        match r {
            Some((cs, j)) => sp_parse_string_body(s@, i as int) == Some((cs@, j as int)) && i < j
                <= s@.len(),
            None => sp_parse_string_body(s@, i as int) is None,
        },
{
    let mut out: Vec<char> = Vec::new();
    let mut cur = i;
    loop
        invariant
            i <= cur <= s@.len(),
            sp_parse_string_body(s@, i as int) == (match sp_parse_string_body(s@, cur as int) {
                Some((rest, k)) => Some((out@ + rest, k)),
                None => None::<(Seq<char>, int)>,
            }),
        decreases s@.len() - cur,
    {
        if cur >= s.len() {
            return None;
        }
        let c = s[cur];
        if c == '"' {
            proof {
                assert(out@ + Seq::<char>::empty() =~= out@);
            }
            return Some((out, cur + 1));
        }
        let ghost out0 = out@;
        if c == '\\' {
            if s.len() - cur < 2 {
                return None;
            }
            let e = s[cur + 1];
            if e == 'u' {
                if s.len() - cur < 6 {
                    return None;
                }
                let h1 = match hex_val(s[cur + 2]) {
                    Some(h) => h,
                    None => { return None; },
                };
                let h2 = match hex_val(s[cur + 3]) {
                    Some(h) => h,
                    None => { return None; },
                };
                let h3 = match hex_val(s[cur + 4]) {
                    Some(h) => h,
                    None => { return None; },
                };
                let h4 = match hex_val(s[cur + 5]) {
                    Some(h) => h,
                    None => { return None; },
                };
                let v = h1 * 4096 + h2 * 256 + h3 * 16 + h4;
                if v < 0xD800 || 0xE000 <= v {
                    let c2 = match char::from_u32(v) {
                        Some(c2) => c2,
                        None => { return None; },
                    };
                    out.push(c2);
                    proof {
                        assert(c2 == (v as int) as char);
                        assert(forall|rest: Seq<char>|
                            out0 + (seq![c2] + rest) =~= (out0 + seq![c2]) + rest);
                    }
                    cur = cur + 6;
                } else if v < 0xDC00 {
                    if s.len() - cur < 12 {
                        return None;
                    }
                    if s[cur + 6] != '\\' {
                        return None;
                    }
                    if s[cur + 7] != 'u' {
                        return None;
                    }
                    let g1 = match hex_val(s[cur + 8]) {
                        Some(h) => h,
                        None => { return None; },
                    };
                    let g2 = match hex_val(s[cur + 9]) {
                        Some(h) => h,
                        None => { return None; },
                    };
                    let g3 = match hex_val(s[cur + 10]) {
                        Some(h) => h,
                        None => { return None; },
                    };
                    let g4 = match hex_val(s[cur + 11]) {
                        Some(h) => h,
                        None => { return None; },
                    };
                    let w = g1 * 4096 + g2 * 256 + g3 * 16 + g4;
                    if !(0xDC00 <= w && w < 0xE000) {
                        return None;
                    }
                    let code = 0x10000 + (v - 0xD800) * 0x400 + (w - 0xDC00);
                    let c2 = match char::from_u32(code) {
                        Some(c2) => c2,
                        None => { return None; },
                    };
                    out.push(c2);
                    proof {
                        assert(c2 == (code as int) as char);
                        assert(forall|rest: Seq<char>|
                            out0 + (seq![c2] + rest) =~= (out0 + seq![c2]) + rest);
                    }
                    cur = cur + 12;
                } else {
                    return None;
                }
            } else {
                let c2 = match esc_code(e) {
                    Some(c2) => c2,
                    None => { return None; },
                };
                out.push(c2);
                proof {
                    assert(forall|rest: Seq<char>|
                        out0 + (seq![c2] + rest) =~= (out0 + seq![c2]) + rest);
                }
                cur = cur + 2;
            }
        } else {
            out.push(c);
            proof {
                assert(forall|rest: Seq<char>| out0 + (seq![c] + rest) =~= (out0 + seq![c]) + rest);
            }
            cur = cur + 1;
        }
    }
}

/// Index of the first non-digit character at or after `i`.
pub open spec fn sp_digits_end(s: Seq<char>, i: int) -> int
    decreases s.len() - i when 0 <= i
{
    if i < s.len() && is_digit(s[i]) {
        sp_digits_end(s, i + 1)
    } else {
        i
    }
}

pub proof fn lemma_digits_end_bounds(s: Seq<char>, i: int)
    requires
        0 <= i <= s.len(),
    ensures
        i <= sp_digits_end(s, i) <= s.len(),
        forall|k: int| i <= k < sp_digits_end(s, i) ==> is_digit(s[k]),
        sp_digits_end(s, i) < s.len() ==> !is_digit(s[sp_digits_end(s, i)]),
    decreases s.len() - i,
{
    if i < s.len() && is_digit(s[i]) {
        lemma_digits_end_bounds(s, i + 1);
    }
}

/// What parsing a number token yields. The token grammar is JSON's: an
/// optional minus, an integer part, an optional fraction, an optional
/// exponent. A plain unsigned integer fitting a `u64` becomes a numeric
/// value; any other valid token is kept as its text; a malformed token
/// fails the parse.
pub open spec fn sp_parse_number(s: Seq<char>, i: int) -> Option<(JsonV, int)> {
    let istart = if i < s.len() && s[i] == '-' {
        i + 1
    } else {
        i
    };
    let d1 = sp_digits_end(s, istart);
    if d1 == istart {
        None
    } else {
        let has_frac = d1 < s.len() && s[d1] == '.';
        let fend = if has_frac {
            sp_digits_end(s, d1 + 1)
        } else {
            d1
        };
        if has_frac && fend == d1 + 1 {
            None
        } else {
            let has_exp = fend < s.len() && (s[fend] == 'e' || s[fend] == 'E');
            let estart = if has_exp {
                if fend + 1 < s.len() && (s[fend + 1] == '+' || s[fend + 1] == '-') {
                    fend + 2
                } else {
                    fend + 1
                }
            } else {
                fend
            };
            let end = if has_exp {
                sp_digits_end(s, estart)
            } else {
                fend
            };
            if has_exp && end == estart {
                None
            } else if istart == i && !has_frac && !has_exp && 0 <= sp_digits_val(
                s.subrange(i, d1),
            ) <= u64::MAX {
                Some((JsonV::Num(sp_digits_val(s.subrange(i, d1)) as u64), end))
            } else {
                Some((JsonV::NumRaw(s.subrange(i, end)), end))
            }
        }
    }
}

/// Advances past a run of decimal digits.
pub fn digits_run_end(s: &Vec<char>, from: usize) -> (r: usize)
    requires
        from <= s@.len(),
    ensures
        r == sp_digits_end(s@, from as int),
        from <= r <= s@.len(),
{
    proof {
        lemma_digits_end_bounds(s@, from as int);
    }
    let mut j = from;
    while j < s.len() && digit_of(s[j]).is_some()
        invariant
            from <= j <= s@.len(),
            sp_digits_end(s@, from as int) == sp_digits_end(s@, j as int),
        decreases s@.len() - j,
    {
        j = j + 1;
    }
    j
}

/// Parses one number token.
pub fn parse_number(s: &Vec<char>, i: usize) -> (r: Option<(JsonValue, usize)>)
    requires
        i <= s@.len(),
    ensures
        match r {
            Some(p) => sp_parse_number(s@, i as int) == Some((p.0@, p.1 as int)) && i < p.1
                <= s@.len(),
            None => sp_parse_number(s@, i as int) is None,
        },
{
    let slen = s.len();
    let istart: usize = if i < slen && s[i] == '-' {
        i + 1
    } else {
        i
    };
    let ghost gd1 = sp_digits_end(s@, istart as int);
    proof {
        lemma_digits_end_bounds(s@, istart as int);
        assert(s@.subrange(istart as int, istart as int) =~= Seq::<char>::empty());
    }
    let mut acc: u64 = 0;
    let mut fits = true;
    let mut j = istart;
    while j < slen && digit_of(s[j]).is_some()
        invariant
            i <= istart <= j <= s@.len(),
            istart <= i + 1,
            slen == s@.len(),
            gd1 == sp_digits_end(s@, istart as int),
            sp_digits_end(s@, j as int) == gd1,
            j <= gd1 <= s@.len(),
            forall|k: int| istart <= k < gd1 ==> is_digit(s@[k]),
            gd1 < s@.len() ==> !is_digit(s@[gd1]),
            fits ==> acc == sp_digits_val(s@.subrange(istart as int, j as int)),
            fits ==> 0 <= sp_digits_val(s@.subrange(istart as int, j as int)) <= u64::MAX,
            !fits ==> sp_digits_val(s@.subrange(istart as int, j as int)) > u64::MAX,
        decreases s@.len() - j,
    {
        let d = match digit_of(s[j]) {
            Some(d) => d,
            None => { return None; },
        };
        let d64: u64 = d as u64;
        let ghost prev = s@.subrange(istart as int, j as int);
        let ghost next = s@.subrange(istart as int, j as int + 1);
        proof {
            assert(next.drop_last() =~= prev);
            assert(d64 == digit_val(s@[j as int]));
            assert(sp_digits_val(next) == sp_digits_val(prev) * 10 + d64);
        }
        if fits {
            if acc > (u64::MAX - d64) / 10 {
                proof {
                    assert(((u64::MAX - d64) / 10 + 1) * 10 >= u64::MAX - d64 + 1)
                        by (nonlinear_arith)
                        requires
                            d64 <= u64::MAX,
                    ;
                    assert(acc * 10 >= ((u64::MAX - d64) / 10 + 1) * 10) by (nonlinear_arith)
                        requires
                            acc >= (u64::MAX - d64) / 10 + 1,
                    ;
                    assert(sp_digits_val(next) > u64::MAX);
                }
                fits = false;
            } else {
                proof {
                    assert(((u64::MAX - d64) / 10) * 10 <= u64::MAX - d64) by (nonlinear_arith)
                        requires
                            d64 <= u64::MAX,
                    ;
                    assert(acc * 10 <= ((u64::MAX - d64) / 10) * 10) by (nonlinear_arith)
                        requires
                            acc <= (u64::MAX - d64) / 10,
                    ;
                }
                acc = acc * 10 + d64;
            }
        } else {
            proof {
                assert(sp_digits_val(prev) * 10 + d64 >= sp_digits_val(prev));
            }
        }
        j = j + 1;
    }
    proof {
        assert(j == gd1);
    }
    let d1 = j;
    if d1 == istart {
        return None;
    }
    let has_frac = d1 < slen && s[d1] == '.';
    let fend = if has_frac {
        let f = digits_run_end(s, d1 + 1);
        if f == d1 + 1 {
            return None;
        }
        f
    } else {
        d1
    };
    let has_exp = fend < slen && (s[fend] == 'e' || s[fend] == 'E');
    let end = if has_exp {
        let estart = if fend + 1 < slen && (s[fend + 1] == '+' || s[fend + 1] == '-') {
            fend + 2
        } else {
            fend + 1
        };
        let e2 = digits_run_end(s, estart);
        if e2 == estart {
            return None;
        }
        e2
    } else {
        fend
    };
    if istart == i && !has_frac && !has_exp && fits {
        proof {
            assert(s@.subrange(istart as int, j as int) =~= s@.subrange(i as int, d1 as int));
        }
        Some((JsonValue::Num(acc), end))
    } else {
        let mut text: Vec<char> = Vec::new();
        let mut k = i;
        while k < end
            invariant
                i <= k <= end <= s@.len(),
                text@ =~= s@.subrange(i as int, k as int),
            decreases end - k,
        {
            text.push(s[k]);
            proof {
                assert(text@ =~= s@.subrange(i as int, k as int + 1));
            }
            k = k + 1;
        }
        Some((JsonValue::NumRaw(string_of(&text)), end))
    }
}

/// What parsing a JSON value yields: the document and the position after
/// it, or nothing if no value of the grammar starts at `i`.
pub open spec fn sp_parse_value(s: Seq<char>, i: int) -> Option<(JsonV, int)>
    decreases s.len() - i, 0int when 0 <= i <= s.len()
{
    let j = sp_skip_spaces(s, i);
    if j >= s.len() {
        None
    } else if s[j] == 'n' {
        if sp_match_at(s, j, "null"@) {
            Some((JsonV::Null, j + 4))
        } else {
            None
        }
    } else if s[j] == 't' {
        if sp_match_at(s, j, "true"@) {
            Some((JsonV::Bool(true), j + 4))
        } else {
            None
        }
    } else if s[j] == 'f' {
        if sp_match_at(s, j, "false"@) {
            Some((JsonV::Bool(false), j + 5))
        } else {
            None
        }
    } else if s[j] == '"' {
        match sp_parse_string_body(s, j + 1) {
            Some((cs, k)) => Some((JsonV::Str(cs), k)),
            None => None,
        }
    } else if is_digit(s[j]) || s[j] == '-' {
        match sp_parse_number(s, j) {
            Some((n, k)) => Some((n, k)),
            None => None,
        }
    } else if s[j] == '[' {
        proof {
            lemma_skip_spaces_bounds(s, i);
        }
        let j2 = sp_skip_spaces(s, j + 1);
        if j2 < s.len() && s[j2] == ']' {
            Some((JsonV::Arr(Seq::empty()), j2 + 1))
        } else {
            match sp_parse_elems(s, j + 1) {
                Some((es, k)) => Some((JsonV::Arr(es), k)),
                None => None,
            }
        }
    } else if s[j] == '{' {
        proof {
            lemma_skip_spaces_bounds(s, i);
        }
        let j2 = sp_skip_spaces(s, j + 1);
        if j2 < s.len() && s[j2] == '}' {
            Some((JsonV::Obj(Seq::empty()), j2 + 1))
        } else {
            match sp_parse_members(s, j + 1) {
                Some((ms, k)) => Some((JsonV::Obj(ms), k)),
                None => None,
            }
        }
    } else {
        None
    }
}

/// Parses the elements of a non-empty array, the opening bracket already
/// consumed: the elements and the position after the closing bracket.
pub open spec fn sp_parse_elems(s: Seq<char>, i: int) -> Option<(Seq<JsonV>, int)>
    decreases s.len() - i, 1int when 0 <= i <= s.len()
{
    match sp_parse_value(s, i) {
        None => None,
        Some((v, i2)) => if !(i < i2 <= s.len()) {
            None
        } else {
            proof {
                lemma_skip_spaces_bounds(s, i2);
            }
            let j = sp_skip_spaces(s, i2);
            if j < s.len() && s[j] == ',' {
                match sp_parse_elems(s, j + 1) {
                    None => None,
                    Some((rest, k)) => Some((seq![v] + rest, k)),
                }
            } else if j < s.len() && s[j] == ']' {
                Some((seq![v], j + 1))
            } else {
                None
            }
        },
    }
}

/// Parses the members of a non-empty object, the opening brace already
/// consumed: the members in textual order and the position after the
/// closing brace.
pub open spec fn sp_parse_members(s: Seq<char>, i: int) -> Option<(Seq<(Seq<char>, JsonV)>, int)>
    decreases s.len() - i, 1int when 0 <= i <= s.len()
{
    let jk = sp_skip_spaces(s, i);
    if jk >= s.len() || s[jk] != '"' {
        None
    } else {
        match sp_parse_string_body(s, jk + 1) {
            None => None,
            Some((key, i2)) => if !(i < i2 <= s.len()) {
                None
            } else {
                proof {
                    lemma_skip_spaces_bounds(s, i2);
                }
                let jc = sp_skip_spaces(s, i2);
                if jc >= s.len() || s[jc] != ':' {
                    None
                } else {
                    match sp_parse_value(s, jc + 1) {
                        None => None,
                        Some((v, i3)) => if !(jc < i3 <= s.len()) {
                            None
                        } else {
                            proof {
                                lemma_skip_spaces_bounds(s, i3);
                            }
                            let j3 = sp_skip_spaces(s, i3);
                            if j3 < s.len() && s[j3] == ',' {
                                match sp_parse_members(s, j3 + 1) {
                                    None => None,
                                    Some((rest, k)) => Some((seq![(key, v)] + rest, k)),
                                }
                            } else if j3 < s.len() && s[j3] == '}' {
                                Some((seq![(key, v)], j3 + 1))
                            } else {
                                None
                            }
                        },
                    }
                }
            },
        }
    }
}

/// Parses one JSON value starting at `i`, whitespace allowed before it.
pub fn parse_value(s: &Vec<char>, i: usize) -> (r: Option<(JsonValue, usize)>)
    requires
        i <= s@.len(),
    ensures
        match r {
            Some(p) => sp_parse_value(s@, i as int) == Some((p.0@, p.1 as int)) && i < p.1
                <= s@.len(),
            None => sp_parse_value(s@, i as int) is None,
        },
    decreases s@.len() - i,
{
    let j = skip_spaces(s, i);
    proof {
        lemma_skip_spaces_bounds(s@, i as int);
    }
    if j >= s.len() {
        return None;
    }
    let c = s[j];
    if c == 'n' {
        let pat = chars_of("null");
        if seq_match(s, j, &pat) {
            proof {
                reveal_strlit("null");
            }
            Some((JsonValue::Null, j + 4))
        } else {
            None
        }
    } else if c == 't' {
        let pat = chars_of("true");
        if seq_match(s, j, &pat) {
            proof {
                reveal_strlit("true");
            }
            Some((JsonValue::Bool(true), j + 4))
        } else {
            None
        }
    } else if c == 'f' {
        let pat = chars_of("false");
        if seq_match(s, j, &pat) {
            proof {
                reveal_strlit("false");
            }
            Some((JsonValue::Bool(false), j + 5))
        } else {
            None
        }
    } else if c == '"' {
        match parse_string_body(s, j + 1) {
            Some((cs, k)) => Some((JsonValue::Str(string_of(&cs)), k)),
            None => None,
        }
    } else if match digit_of(c) {
        Some(_) => true,
        None => false,
    } || c == '-' {
        match parse_number(s, j) {
            Some((n, k)) => Some((n, k)),
            None => None,
        }
    } else if c == '[' {
        let j2 = skip_spaces(s, j + 1);
        if j2 < s.len() && s[j2] == ']' {
            let empty: Vec<JsonValue> = Vec::new();
            proof {
                assert(empty@ =~= Seq::<JsonValue>::empty());
                assert(jv_view_list(empty@) =~= Seq::<JsonV>::empty());
            }
            return Some((JsonValue::Arr(empty), j2 + 1));
        }
        let ghost start = (j + 1) as int;
        let mut elems: Vec<JsonValue> = Vec::new();
        let mut cur = j + 1;
        proof {
            assert(elems@ =~= Seq::<JsonValue>::empty());
            assert(jv_view_list(elems@) =~= Seq::<JsonV>::empty());
            if sp_parse_elems(s@, start) is Some {
                let p = sp_parse_elems(s@, start)->0;
                assert(jv_view_list(elems@) + p.0 =~= p.0);
            }
        }
        loop
            invariant
                i <= j < s@.len(),
                j == sp_skip_spaces(s@, i as int),
                s@[j as int] == '[',
                s@[j as int] != 'n' && s@[j as int] != 't' && s@[j as int] != 'f' && s@[j as int]
                    != '"' && !is_digit(s@[j as int]),
                start == j + 1,
                !(sp_skip_spaces(s@, start) < s@.len() && s@[sp_skip_spaces(s@, start)] == ']'),
                j + 1 <= cur <= s@.len(),
                i <= s@.len(),
                (match sp_parse_elems(s@, cur as int) {
                    Some((rest, k)) => sp_parse_elems(s@, start) == Some(
                        (jv_view_list(elems@) + rest, k),
                    ),
                    None => sp_parse_elems(s@, start) is None,
                }),
            decreases s@.len() - cur,
        {
            let (v, i2) = match parse_value(s, cur) {
                Some(p) => p,
                None => { return None; },
            };
            let ghost elems0 = elems@;
            elems.push(v);
            proof {
                lemma_jv_view_list_push(elems0, v);
            }
            let j3 = skip_spaces(s, i2);
            proof {
                lemma_skip_spaces_bounds(s@, i2 as int);
            }
            if j3 < s.len() && s[j3] == ',' {
                proof {
                    if sp_parse_elems(s@, (j3 + 1) as int) is Some {
                        let p = sp_parse_elems(s@, (j3 + 1) as int)->0;
                        assert(jv_view_list(elems0) + (seq![v@] + p.0) =~= (jv_view_list(elems0)
                            + seq![v@]) + p.0);
                    }
                }
                cur = j3 + 1;
            } else if j3 < s.len() && s[j3] == ']' {
                proof {
                    assert(sp_parse_elems(s@, cur as int) == Some((seq![v@], j3 + 1)));
                    assert(jv_view_list(elems0) + seq![v@] =~= jv_view_list(elems@));
                }
                return Some((JsonValue::Arr(elems), j3 + 1));
            } else {
                return None;
            }
        }
    } else if c == '{' {
        let j2 = skip_spaces(s, j + 1);
        if j2 < s.len() && s[j2] == '}' {
            let empty: Vec<(String, JsonValue)> = Vec::new();
            proof {
                assert(empty@ =~= Seq::<(String, JsonValue)>::empty());
                assert(jv_view_members(empty@) =~= Seq::<(Seq<char>, JsonV)>::empty());
            }
            return Some((JsonValue::Obj(empty), j2 + 1));
        }
        let ghost start = (j + 1) as int;
        let mut members: Vec<(String, JsonValue)> = Vec::new();
        let mut cur = j + 1;
        proof {
            assert(members@ =~= Seq::<(String, JsonValue)>::empty());
            assert(jv_view_members(members@) =~= Seq::<(Seq<char>, JsonV)>::empty());
            if sp_parse_members(s@, start) is Some {
                let p = sp_parse_members(s@, start)->0;
                assert(jv_view_members(members@) + p.0 =~= p.0);
            }
        }
        loop
            invariant
                i <= j < s@.len(),
                j == sp_skip_spaces(s@, i as int),
                s@[j as int] == '{',
                s@[j as int] != 'n' && s@[j as int] != 't' && s@[j as int] != 'f' && s@[j as int]
                    != '"' && !is_digit(s@[j as int]) && s@[j as int] != '[',
                start == j + 1,
                !(sp_skip_spaces(s@, start) < s@.len() && s@[sp_skip_spaces(s@, start)] == '}'),
                j + 1 <= cur <= s@.len(),
                i <= s@.len(),
                (match sp_parse_members(s@, cur as int) {
                    Some((rest, k)) => sp_parse_members(s@, start) == Some(
                        (jv_view_members(members@) + rest, k),
                    ),
                    None => sp_parse_members(s@, start) is None,
                }),
            decreases s@.len() - cur,
        {
            let jk = skip_spaces(s, cur);
            proof {
                lemma_skip_spaces_bounds(s@, cur as int);
            }
            if jk >= s.len() {
                return None;
            }
            if s[jk] != '"' {
                return None;
            }
            let (keyc, i2) = match parse_string_body(s, jk + 1) {
                Some(p) => p,
                None => { return None; },
            };
            let jc = skip_spaces(s, i2);
            proof {
                lemma_skip_spaces_bounds(s@, i2 as int);
            }
            if jc >= s.len() {
                return None;
            }
            if s[jc] != ':' {
                return None;
            }
            let (v, i3) = match parse_value(s, jc + 1) {
                Some(p) => p,
                None => { return None; },
            };
            let key = string_of(&keyc);
            let ghost members0 = members@;
            members.push((key, v));
            proof {
                lemma_jv_view_members_push(members0, key, v);
                assert(key@ == keyc@);
            }
            let j3 = skip_spaces(s, i3);
            proof {
                lemma_skip_spaces_bounds(s@, i3 as int);
            }
            if j3 < s.len() && s[j3] == ',' {
                proof {
                    if sp_parse_members(s@, (j3 + 1) as int) is Some {
                        let p = sp_parse_members(s@, (j3 + 1) as int)->0;
                        assert(jv_view_members(members0) + (seq![(keyc@, v@)] + p.0) =~= (
                        jv_view_members(members0) + seq![(keyc@, v@)]) + p.0);
                    }
                }
                cur = j3 + 1;
            } else if j3 < s.len() && s[j3] == '}' {
                proof {
                    assert(sp_parse_members(s@, cur as int) == Some((seq![(keyc@, v@)], j3 + 1)));
                    assert(jv_view_members(members0) + seq![(keyc@, v@)] =~= jv_view_members(
                        members@,
                    ));
                }
                return Some((JsonValue::Obj(members), j3 + 1));
            } else {
                return None;
            }
        }
    } else {
        None
    }
}

/// What parsing a whole document yields: the value, provided only
/// whitespace follows it.
pub open spec fn sp_parse_json(s: Seq<char>) -> Option<JsonV> {
    match sp_parse_value(s, 0) {
        Some((v, k)) => if 0 <= k <= s.len() && sp_skip_spaces(s, k) == s.len() {
            Some(v)
        } else {
            None
        },
        None => None,
    }
}

/// Parses a whole JSON document.
pub fn parse_json(s: &Vec<char>) -> (r: Option<JsonValue>)
    ensures
        match r {
            Some(v) => sp_parse_json(s@) == Some(v@),
            None => sp_parse_json(s@) is None,
        },
{
    match parse_value(s, 0) {
        Some((v, k)) => {
            let e = skip_spaces(s, k);
            if e == s.len() {
                Some(v)
            } else {
                None
            }
        },
        None => None,
    }
}

/// The lower-case hexadecimal digit character for a value below sixteen.
pub open spec fn sp_hex_char(d: int) -> char {
    if d == 0 {
        '0'
    } else if d == 1 {
        '1'
    } else if d == 2 {
        '2'
    } else if d == 3 {
        '3'
    } else if d == 4 {
        '4'
    } else if d == 5 {
        '5'
    } else if d == 6 {
        '6'
    } else if d == 7 {
        '7'
    } else if d == 8 {
        '8'
    } else if d == 9 {
        '9'
    } else if d == 10 {
        'a'
    } else if d == 11 {
        'b'
    } else if d == 12 {
        'c'
    } else if d == 13 {
        'd'
    } else if d == 14 {
        'e'
    } else {
        'f'
    }
}

/// Executable mirror of [`sp_hex_char`].
pub fn hex_char_of(d: u32) -> (r: char)
    requires
        d < 16,
    ensures
        r == sp_hex_char(d as int),
{
    match d {
        0 => '0',
        1 => '1',
        2 => '2',
        3 => '3',
        4 => '4',
        5 => '5',
        6 => '6',
        7 => '7',
        8 => '8',
        9 => '9',
        10 => 'a',
        11 => 'b',
        12 => 'c',
        13 => 'd',
        14 => 'e',
        _ => 'f',
    }
}

/// Reading a hexadecimal digit character back yields its value.
proof fn lemma_hex_char_val(d: int)
    requires
        0 <= d < 16,
    ensures
        sp_hex_val(sp_hex_char(d)) == Some(d),
{
}

/// How one character is written inside a string literal: `" \ \n \r \t`
/// and the other control characters below `0x20` are escaped — the
/// controls as `\u00XX` — and everything else is written as itself.
pub open spec fn sp_esc_char(c: char) -> Seq<char> {
    if c == '"' {
        seq!['\\', '"']
    } else if c == '\\' {
        seq!['\\', '\\']
    } else if c == '\n' {
        seq!['\\', 'n']
    } else if c == '\r' {
        seq!['\\', 'r']
    } else if c == '\t' {
        seq!['\\', 't']
    } else if (c as u32) < 0x20 {
        seq![
            '\\',
            'u',
            '0',
            '0',
            sp_hex_char((c as u32) as int / 16),
            sp_hex_char((c as u32) as int % 16),
        ]
    } else {
        seq![c]
    }
}

/// The escaped form of `cs` from index `k` on.
pub open spec fn sp_esc_from(cs: Seq<char>, k: int) -> Seq<char>
    decreases cs.len() - k when 0 <= k
{
    if k >= cs.len() {
        Seq::empty()
    } else {
        sp_esc_char(cs[k]) + sp_esc_from(cs, k + 1)
    }
}

/// The escaped form of a whole string body.
pub open spec fn sp_esc(cs: Seq<char>) -> Seq<char> {
    sp_esc_from(cs, 0)
}

/// Appends the escaped form of `cs` to `out`.
pub fn append_escaped(out: &mut Vec<char>, cs: &Vec<char>)
    ensures
        final(out)@ == old(out)@ + sp_esc(cs@),
{
    let mut k: usize = 0;
    proof {
        assert(old(out)@ + sp_esc_from(cs@, 0) =~= out@ + sp_esc_from(cs@, 0));
    }
    while k < cs.len()
        invariant
            0 <= k <= cs@.len(),
            old(out)@ + sp_esc_from(cs@, 0) == out@ + sp_esc_from(cs@, k as int),
        decreases cs@.len() - k,
    {
        let ghost out0 = out@;
        let c = cs[k];
        if c == '"' {
            out.push('\\');
            out.push('"');
        } else if c == '\\' {
            out.push('\\');
            out.push('\\');
        } else if c == '\n' {
            out.push('\\');
            out.push('n');
        } else if c == '\r' {
            out.push('\\');
            out.push('r');
        } else if c == '\t' {
            out.push('\\');
            out.push('t');
        } else {
            let cu = c as u32;
            if cu < 0x20 {
                out.push('\\');
                out.push('u');
                out.push('0');
                out.push('0');
                out.push(hex_char_of(cu / 16));
                out.push(hex_char_of(cu % 16));
            } else {
                out.push(c);
            }
        }
        proof {
            assert(out@ =~= out0 + sp_esc_char(cs@[k as int]));
            assert(out0 + (sp_esc_char(cs@[k as int]) + sp_esc_from(cs@, k as int + 1)) =~= (out0
                + sp_esc_char(cs@[k as int])) + sp_esc_from(cs@, k as int + 1));
        }
        k = k + 1;
    }
    proof {
        assert(out@ + Seq::<char>::empty() =~= out@);
        assert(old(out)@ + sp_esc_from(cs@, 0) =~= out@);
    }
}

/// The digit character for a value below ten.
pub open spec fn sp_digit_char(d: int) -> char {
    if d == 0 {
        '0'
    } else if d == 1 {
        '1'
    } else if d == 2 {
        '2'
    } else if d == 3 {
        '3'
    } else if d == 4 {
        '4'
    } else if d == 5 {
        '5'
    } else if d == 6 {
        '6'
    } else if d == 7 {
        '7'
    } else if d == 8 {
        '8'
    } else {
        '9'
    }
}

/// The decimal numeral of a non-negative number, most significant digit
/// first, without leading zeros.
pub open spec fn sp_dec_u64(n: int) -> Seq<char>
    decreases n when n >= 0
{
    if n < 10 {
        seq![sp_digit_char(n)]
    } else {
        sp_dec_u64(n / 10) + seq![sp_digit_char(n % 10)]
    }
}

/// Appends the decimal numeral of `n` to `out`.
pub fn append_u64(out: &mut Vec<char>, n: u64)
    ensures
        final(out)@ == old(out)@ + sp_dec_u64(n as int),
    decreases n,
{
    if n < 10 {
        let d: u32 = n as u32;
        let c = match d {
            0 => '0',
            1 => '1',
            2 => '2',
            3 => '3',
            4 => '4',
            5 => '5',
            6 => '6',
            7 => '7',
            8 => '8',
            _ => '9',
        };
        proof {
            assert(c == sp_digit_char(n as int));
        }
        out.push(c);
        proof {
            assert(out@ =~= old(out)@ + seq![sp_digit_char(n as int)]);
        }
    } else {
        append_u64(out, n / 10);
        let d: u64 = n % 10;
        let c = match d {
            0 => '0',
            1 => '1',
            2 => '2',
            3 => '3',
            4 => '4',
            5 => '5',
            6 => '6',
            7 => '7',
            8 => '8',
            _ => '9',
        };
        proof {
            assert(c == sp_digit_char(n as int % 10));
        }
        out.push(c);
        proof {
            assert(out@ =~= (old(out)@ + sp_dec_u64(n as int / 10)) + seq![
                sp_digit_char(n as int % 10),
            ]);
            assert(old(out)@ + (sp_dec_u64(n as int / 10) + seq![sp_digit_char(n as int % 10)])
                =~= (old(out)@ + sp_dec_u64(n as int / 10)) + seq![sp_digit_char(n as int % 10)]);
        }
    }
}

/// The canonical compact encoding of a document: no whitespace, members and
/// elements in order, strings escaped as [`sp_esc_char`] says.
pub open spec fn sp_enc_json(v: JsonV) -> Seq<char>
    decreases v, 0int,
{
    match v {
        JsonV::Null => "null"@,
        JsonV::Bool(b) => if b {
            "true"@
        } else {
            "false"@
        },
        JsonV::Num(n) => sp_dec_u64(n as int),
        JsonV::NumRaw(cs) => cs,
        JsonV::Str(cs) => seq!['"'] + sp_esc(cs) + seq!['"'],
        JsonV::Arr(es) => seq!['['] + sp_enc_list(es, 0) + seq![']'],
        JsonV::Obj(ms) => seq!['{'] + sp_enc_members(ms, 0) + seq!['}'],
    }
}

/// The comma-separated encodings of the elements from index `k` on.
pub open spec fn sp_enc_list(es: Seq<JsonV>, k: int) -> Seq<char>
    decreases es, es.len() - k when 0 <= k <= es.len()
{
    if k >= es.len() {
        Seq::empty()
    } else if k == es.len() - 1 {
        sp_enc_json(es[k])
    } else {
        sp_enc_json(es[k]) + seq![','] + sp_enc_list(es, k + 1)
    }
}

/// The comma-separated `"key":value` encodings of the members from index
/// `k` on.
pub open spec fn sp_enc_members(ms: Seq<(Seq<char>, JsonV)>, k: int) -> Seq<char>
    decreases ms, ms.len() - k when 0 <= k <= ms.len()
{
    if k >= ms.len() {
        Seq::empty()
    } else if k == ms.len() - 1 {
        seq!['"'] + sp_esc(ms[k].0) + seq!['"', ':'] + sp_enc_json(ms[k].1)
    } else {
        seq!['"'] + sp_esc(ms[k].0) + seq!['"', ':'] + sp_enc_json(ms[k].1) + seq![',']
            + sp_enc_members(ms, k + 1)
    }
}

pub proof fn lemma_jv_view_list_index(es: Seq<JsonValue>)
    ensures
        jv_view_list(es).len() == es.len(),
        forall|k: int| 0 <= k < es.len() ==> jv_view_list(es)[k] == jv_view(es[k]),
    decreases es.len(),
{
    if es.len() > 0 {
        lemma_jv_view_list_index(es.drop_first());
        let whole = jv_view_list(es);
        assert forall|k: int| 0 <= k < es.len() implies whole[k] == jv_view(es[k]) by {
            if k > 0 {
                assert(whole[k] == jv_view_list(es.drop_first())[k - 1]);
                assert(es.drop_first()[k - 1] == es[k]);
            }
        }
    }
}

pub proof fn lemma_jv_view_members_index(ms: Seq<(String, JsonValue)>)
    ensures
        jv_view_members(ms).len() == ms.len(),
        forall|k: int|
            0 <= k < ms.len() ==> jv_view_members(ms)[k] == (ms[k].0@, jv_view(ms[k].1)),
    decreases ms.len(),
{
    if ms.len() > 0 {
        lemma_jv_view_members_index(ms.drop_first());
        let whole = jv_view_members(ms);
        assert forall|k: int| 0 <= k < ms.len() implies whole[k] == (ms[k].0@, jv_view(
            ms[k].1,
        )) by {
            if k > 0 {
                assert(whole[k] == jv_view_members(ms.drop_first())[k - 1]);
                assert(ms.drop_first()[k - 1] == ms[k]);
            }
        }
    }
}

/// Appends the canonical encoding of `v` to `out`.
pub fn enc_json(v: &JsonValue, out: &mut Vec<char>)
    ensures
        final(out)@ == old(out)@ + sp_enc_json(v@),
    decreases v,
{
    match v {
        JsonValue::Null => {
            let lit = chars_of("null");
            append_chars(out, &lit);
        },
        JsonValue::Bool(b) => {
            if *b {
                let lit = chars_of("true");
                append_chars(out, &lit);
            } else {
                let lit = chars_of("false");
                append_chars(out, &lit);
            }
        },
        JsonValue::Num(n) => {
            append_u64(out, *n);
        },
        JsonValue::NumRaw(cs) => {
            let body = chars_of(cs.as_str());
            append_chars(out, &body);
        },
        JsonValue::Str(cs) => {
            let ghost out0 = out@;
            out.push('"');
            let body = chars_of(cs.as_str());
            append_escaped(out, &body);
            out.push('"');
            proof {
                assert(out@ =~= out0 + (seq!['"'] + sp_esc(cs@) + seq!['"']));
            }
        },
        JsonValue::Arr(es) => {
            let ghost out0 = out@;
            let ghost l = jv_view_list(es@);
            proof {
                lemma_jv_view_list_index(es@);
            }
            out.push('[');
            let mut k: usize = 0;
            while k < es.len()
                invariant
                    0 <= k <= es@.len(),
                    l == jv_view_list(es@),
                    l.len() == es@.len(),
                    forall|m: int| 0 <= m < es@.len() ==> l[m] == jv_view(es@[m]),
                    *v == JsonValue::Arr(*es),
                    out0 + seq!['['] + sp_enc_list(l, 0) == out@ + sp_enc_list(l, k as int),
                decreases es@.len() - k,
            {
                let ghost outk = out@;
                proof {
                    assert(decreases_to!(*v => v->Arr_0));
                    assert(*es == v->Arr_0);
                    assert(decreases_to!(*es => es@));
                    assert(decreases_to!(es@ => es@[k as int]));
                }
                enc_json(&es[k], out);
                if k + 1 < es.len() {
                    out.push(',');
                    proof {
                        assert(out@ =~= outk + (sp_enc_json(l[k as int]) + seq![',']));
                        assert(outk + (sp_enc_json(l[k as int]) + seq![','] + sp_enc_list(
                            l,
                            k as int + 1,
                        )) =~= out@ + sp_enc_list(l, k as int + 1));
                    }
                } else {
                    proof {
                        assert(out@ =~= outk + sp_enc_json(l[k as int]));
                        assert(outk + sp_enc_json(l[k as int]) + sp_enc_list(l, k as int + 1) =~=
                        out@ + sp_enc_list(l, k as int + 1));
                    }
                }
                k = k + 1;
            }
            out.push(']');
            proof {
                assert(sp_enc_list(l, es@.len() as int) =~= Seq::<char>::empty());
                assert(out@ =~= out0 + (seq!['['] + sp_enc_list(l, 0) + seq![']']));
            }
        },
        JsonValue::Obj(ms) => {
            let ghost out0 = out@;
            let ghost l = jv_view_members(ms@);
            proof {
                lemma_jv_view_members_index(ms@);
            }
            out.push('{');
            let mut k: usize = 0;
            while k < ms.len()
                invariant
                    0 <= k <= ms@.len(),
                    l == jv_view_members(ms@),
                    l.len() == ms@.len(),
                    forall|m: int|
                        0 <= m < ms@.len() ==> l[m] == (ms@[m].0@, jv_view(ms@[m].1)),
                    *v == JsonValue::Obj(*ms),
                    out0 + seq!['{'] + sp_enc_members(l, 0) == out@ + sp_enc_members(l, k as int),
                decreases ms@.len() - k,
            {
                let ghost outk = out@;
                out.push('"');
                let keyc = chars_of(ms[k].0.as_str());
                append_escaped(out, &keyc);
                out.push('"');
                out.push(':');
                proof {
                    assert(decreases_to!(*v => v->Obj_0));
                    assert(*ms == v->Obj_0);
                    assert(decreases_to!(*ms => ms@));
                    assert(decreases_to!(ms@ => ms@[k as int]));
                    assert(decreases_to!(ms@[k as int] => ms@[k as int].1));
                }
                enc_json(&ms[k].1, out);
                proof {
                    assert(out@ =~= outk + (seq!['"'] + sp_esc(l[k as int].0) + seq!['"', ':']
                        + sp_enc_json(l[k as int].1)));
                }
                if k + 1 < ms.len() {
                    out.push(',');
                    proof {
                        assert(outk + (seq!['"'] + sp_esc(l[k as int].0) + seq!['"', ':']
                            + sp_enc_json(l[k as int].1) + seq![','] + sp_enc_members(
                            l,
                            k as int + 1,
                        )) =~= out@ + sp_enc_members(l, k as int + 1));
                    }
                } else {
                    proof {
                        assert(outk + (seq!['"'] + sp_esc(l[k as int].0) + seq!['"', ':']
                            + sp_enc_json(l[k as int].1)) + sp_enc_members(l, k as int + 1) =~=
                        out@ + sp_enc_members(l, k as int + 1));
                    }
                }
                k = k + 1;
            }
            out.push('}');
            proof {
                assert(sp_enc_members(l, ms@.len() as int) =~= Seq::<char>::empty());
                assert(out@ =~= out0 + (seq!['{'] + sp_enc_members(l, 0) + seq!['}']));
            }
        },
    }
}

/// No newline, carriage return or tab occurs in `s`.
pub open spec fn no_breaks(s: Seq<char>) -> bool {
    forall|k: int| 0 <= k < s.len() ==> s[k] != '\n' && s[k] != '\r' && s[k] != '\t'
}

pub proof fn lemma_no_breaks_concat(a: Seq<char>, b: Seq<char>)
    requires
        no_breaks(a),
        no_breaks(b),
    ensures
        no_breaks(a + b),
{
    assert forall|k: int| 0 <= k < (a + b).len() implies ((a + b)[k] != '\n' && (a + b)[k] != '\r'
        && (a + b)[k] != '\t') by {
        if k < a.len() {
            assert((a + b)[k] == a[k]);
        } else {
            assert((a + b)[k] == b[k - a.len()]);
        }
    }
}

pub proof fn lemma_dec_u64_no_breaks(n: int)
    requires
        n >= 0,
    ensures
        no_breaks(sp_dec_u64(n)),
    decreases n,
{
    if n < 10 {
        assert forall|k: int| 0 <= k < sp_dec_u64(n).len() implies (sp_dec_u64(n)[k] != '\n'
            && sp_dec_u64(n)[k] != '\r' && sp_dec_u64(n)[k] != '\t') by {
            assert(sp_dec_u64(n)[k] == sp_digit_char(n));
        }
    } else {
        lemma_dec_u64_no_breaks(n / 10);
        assert(no_breaks(seq![sp_digit_char(n % 10)])) by {
            assert(seq![sp_digit_char(n % 10)][0] == sp_digit_char(n % 10));
        }
        lemma_no_breaks_concat(sp_dec_u64(n / 10), seq![sp_digit_char(n % 10)]);
    }
}

pub proof fn lemma_esc_no_breaks(cs: Seq<char>, k: int)
    requires
        0 <= k,
    ensures
        no_breaks(sp_esc_from(cs, k)),
    decreases cs.len() - k,
{
    if k >= cs.len() {
    } else {
        lemma_esc_no_breaks(cs, k + 1);
        let head = sp_esc_char(cs[k]);
        assert(no_breaks(head)) by {
            let c = cs[k];
            if c == '"' || c == '\\' || c == '\n' || c == '\r' || c == '\t' {
                assert(head[0] == '\\');
                assert(head.len() == 2);
            } else if (c as u32) < 0x20 {
                assert(head.len() == 6);
                assert(head[4] == sp_hex_char((c as u32) as int / 16));
                assert(head[5] == sp_hex_char((c as u32) as int % 16));
            } else {
                assert(head[0] == c);
            }
        }
        lemma_no_breaks_concat(head, sp_esc_from(cs, k + 1));
    }
}

proof fn lemma_lit_no_breaks()
    ensures
        no_breaks("null"@),
        no_breaks("true"@),
        no_breaks("false"@),
{
    reveal_strlit("null");
    reveal_strlit("true");
    reveal_strlit("false");
    assert forall|k: int| 0 <= k < "null"@.len() implies ("null"@[k] != '\n' && "null"@[k] != '\r'
        && "null"@[k] != '\t') by {
        if k == 0 {
        } else if k == 1 {
        } else if k == 2 {
        } else {
        }
    }
    assert forall|k: int| 0 <= k < "true"@.len() implies ("true"@[k] != '\n' && "true"@[k] != '\r'
        && "true"@[k] != '\t') by {
        if k == 0 {
        } else if k == 1 {
        } else if k == 2 {
        } else {
        }
    }
    assert forall|k: int| 0 <= k < "false"@.len() implies ("false"@[k] != '\n' && "false"@[k]
        != '\r' && "false"@[k] != '\t') by {
        if k == 0 {
        } else if k == 1 {
        } else if k == 2 {
        } else if k == 3 {
        } else {
        }
    }
}

/// The canonical encoding holds no newline, carriage return or tab: those
/// are escaped inside strings and occur nowhere else.
pub proof fn lemma_enc_json_no_breaks(v: JsonV)
    requires
        jv_encodable(v),
    ensures
        no_breaks(sp_enc_json(v)),
    decreases v, 0int,
{
    lemma_lit_no_breaks();
    assert(no_breaks(seq!['"'])) by {
        assert(seq!['"'][0] == '"');
    }
    assert(no_breaks(seq!['['])) by {
        assert(seq!['['][0] == '[');
    }
    assert(no_breaks(seq![']'])) by {
        assert(seq![']'][0] == ']');
    }
    assert(no_breaks(seq!['{'])) by {
        assert(seq!['{'][0] == '{');
    }
    assert(no_breaks(seq!['}'])) by {
        assert(seq!['}'][0] == '}');
    }
    match v {
        JsonV::Null => {},
        JsonV::Bool(b) => {},
        JsonV::Num(n) => {
            lemma_dec_u64_no_breaks(n as int);
        },
        JsonV::NumRaw(cs) => {
            assert(false);
        },
        JsonV::Str(cs) => {
            lemma_esc_no_breaks(cs, 0);
            lemma_no_breaks_concat(seq!['"'], sp_esc(cs));
            lemma_no_breaks_concat(seq!['"'] + sp_esc(cs), seq!['"']);
        },
        JsonV::Arr(es) => {
            lemma_enc_list_no_breaks(es, 0);
            lemma_no_breaks_concat(seq!['['], sp_enc_list(es, 0));
            lemma_no_breaks_concat(seq!['['] + sp_enc_list(es, 0), seq![']']);
        },
        JsonV::Obj(ms) => {
            lemma_enc_members_no_breaks(ms, 0);
            lemma_no_breaks_concat(seq!['{'], sp_enc_members(ms, 0));
            lemma_no_breaks_concat(seq!['{'] + sp_enc_members(ms, 0), seq!['}']);
        },
    }
}

pub proof fn lemma_enc_list_no_breaks(es: Seq<JsonV>, k: int)
    requires
        jv_wf_list(es),
        0 <= k <= es.len(),
    ensures
        no_breaks(sp_enc_list(es, k)),
    decreases es, es.len() - k,
{
    lemma_jv_wf_list_index(es);
    if k >= es.len() {
    } else if k == es.len() - 1 {
        lemma_enc_json_no_breaks(es[k]);
    } else {
        lemma_enc_json_no_breaks(es[k]);
        lemma_enc_list_no_breaks(es, k + 1);
        assert(no_breaks(seq![','])) by {
            assert(seq![','][0] == ',');
        }
        lemma_no_breaks_concat(sp_enc_json(es[k]), seq![',']);
        lemma_no_breaks_concat(sp_enc_json(es[k]) + seq![','], sp_enc_list(es, k + 1));
    }
}

pub proof fn lemma_enc_members_no_breaks(ms: Seq<(Seq<char>, JsonV)>, k: int)
    requires
        jv_wf_members(ms),
        0 <= k <= ms.len(),
    ensures
        no_breaks(sp_enc_members(ms, k)),
    decreases ms, ms.len() - k,
{
    lemma_jv_wf_members_index(ms);
    if k >= ms.len() {
    } else {
        lemma_enc_json_no_breaks(ms[k].1);
        lemma_esc_no_breaks(ms[k].0, 0);
        assert(no_breaks(seq!['"'])) by {
            assert(seq!['"'][0] == '"');
        }
        assert(no_breaks(seq!['"', ':'])) by {
            assert(seq!['"', ':'][0] == '"');
            assert(seq!['"', ':'][1] == ':');
        }
        lemma_no_breaks_concat(seq!['"'], sp_esc(ms[k].0));
        lemma_no_breaks_concat(seq!['"'] + sp_esc(ms[k].0), seq!['"', ':']);
        lemma_no_breaks_concat(seq!['"'] + sp_esc(ms[k].0) + seq!['"', ':'], sp_enc_json(ms[k].1));
        if k == ms.len() - 1 {
        } else {
            lemma_enc_members_no_breaks(ms, k + 1);
            assert(no_breaks(seq![','])) by {
                assert(seq![','][0] == ',');
            }
            lemma_no_breaks_concat(
                seq!['"'] + sp_esc(ms[k].0) + seq!['"', ':'] + sp_enc_json(ms[k].1),
                seq![','],
            );
            lemma_no_breaks_concat(
                seq!['"'] + sp_esc(ms[k].0) + seq!['"', ':'] + sp_enc_json(ms[k].1) + seq![','],
                sp_enc_members(ms, k + 1),
            );
        }
    }
}

/// Every character of a numeral is a digit, its value is the encoded
/// number, and it is never empty.
pub proof fn lemma_dec_digits(n: int)
    requires
        n >= 0,
    ensures
        sp_dec_u64(n).len() >= 1,
        forall|k: int| 0 <= k < sp_dec_u64(n).len() ==> is_digit(#[trigger] sp_dec_u64(n)[k]),
        sp_digits_val(sp_dec_u64(n)) == n,
    decreases n,
{
    if n < 10 {
        let d = sp_dec_u64(n);
        assert(d[0] == sp_digit_char(n));
        assert(d.drop_last() =~= Seq::<char>::empty());
        assert(sp_digits_val(d.drop_last()) == 0);
        assert(d[d.len() - 1] == sp_digit_char(n));
        assert(sp_digits_val(d) == 0 * 10 + digit_val(sp_digit_char(n)));
    } else {
        lemma_dec_u64_no_breaks(n);
        lemma_dec_digits(n / 10);
        let a = sp_dec_u64(n / 10);
        let d = sp_dec_u64(n);
        assert(d == a + seq![sp_digit_char(n % 10)]);
        assert(d.drop_last() =~= a);
        assert(d[d.len() - 1] == sp_digit_char(n % 10));
        assert(sp_digits_val(d) == sp_digits_val(a) * 10 + digit_val(sp_digit_char(n % 10)));
        assert forall|k: int| 0 <= k < d.len() implies is_digit(#[trigger] d[k]) by {
            if k < a.len() {
                assert(d[k] == a[k]);
            } else {
                assert(d[k] == sp_digit_char(n % 10));
            }
        }
    }
}

/// A run of digits ending at a boundary is exactly what `sp_digits_end`
/// finds.
pub proof fn lemma_digits_end_of_run(s: Seq<char>, i: int, e: int)
    requires
        0 <= i <= e <= s.len(),
        forall|k: int| i <= k < e ==> is_digit(s[k]),
        e == s.len() || !is_digit(s[e]),
    ensures
        sp_digits_end(s, i) == e,
    decreases e - i,
{
    if i < e {
        lemma_digits_end_of_run(s, i + 1, e);
    }
}

/// Parsing a number at the start of an encoded numeral, with no digit
/// following it, yields the encoded number.
/// The character cannot extend a preceding number token.
pub open spec fn non_number_follower(c: char) -> bool {
    !is_digit(c) && c != '.' && c != 'e' && c != 'E'
}

/// The document holds no raw numeric token anywhere: every number in it is
/// a plain unsigned integer, so its canonical encoding parses back to it.
pub open spec fn jv_encodable(v: JsonV) -> bool
    decreases v, 0int,
{
    match v {
        JsonV::NumRaw(_) => false,
        JsonV::Arr(es) => jv_wf_list(es),
        JsonV::Obj(ms) => jv_wf_members(ms),
        _ => true,
    }
}

pub open spec fn jv_wf_list(es: Seq<JsonV>) -> bool
    decreases es, 1int,
{
    if es.len() == 0 {
        true
    } else {
        jv_encodable(es[0]) && jv_wf_list(es.drop_first())
    }
}

pub open spec fn jv_wf_members(ms: Seq<(Seq<char>, JsonV)>) -> bool
    decreases ms, 1int,
{
    if ms.len() == 0 {
        true
    } else {
        jv_encodable(ms[0].1) && jv_wf_members(ms.drop_first())
    }
}

pub proof fn lemma_jv_wf_list_index(es: Seq<JsonV>)
    requires
        jv_wf_list(es),
    ensures
        forall|k: int| 0 <= k < es.len() ==> jv_encodable(#[trigger] es[k]),
    decreases es.len(),
{
    if es.len() > 0 {
        lemma_jv_wf_list_index(es.drop_first());
        assert forall|k: int| 0 <= k < es.len() implies jv_encodable(#[trigger] es[k]) by {
            if k > 0 {
                assert(es.drop_first()[k - 1] == es[k]);
            }
        }
    }
}

pub proof fn lemma_jv_wf_members_index(ms: Seq<(Seq<char>, JsonV)>)
    requires
        jv_wf_members(ms),
    ensures
        forall|k: int| 0 <= k < ms.len() ==> jv_encodable(#[trigger] ms[k].1),
    decreases ms.len(),
{
    if ms.len() > 0 {
        lemma_jv_wf_members_index(ms.drop_first());
        assert forall|k: int| 0 <= k < ms.len() implies jv_encodable(#[trigger] ms[k].1) by {
            if k > 0 {
                assert(ms.drop_first()[k - 1] == ms[k]);
            }
        }
    }
}

pub proof fn lemma_parse_dec(n: u64, s: Seq<char>, i: int)
    requires
        0 <= i,
        i + sp_dec_u64(n as int).len() <= s.len(),
        s.subrange(i, i + sp_dec_u64(n as int).len()) == sp_dec_u64(n as int),
        i + sp_dec_u64(n as int).len() == s.len() || non_number_follower(
            s[i + sp_dec_u64(n as int).len()],
        ),
    ensures
        sp_parse_number(s, i) == Some((JsonV::Num(n), i + sp_dec_u64(n as int).len())),
{
    let d = sp_dec_u64(n as int);
    let e = i + d.len();
    lemma_dec_digits(n as int);
    assert forall|k: int| i <= k < e implies is_digit(s[k]) by {
        assert(s[k] == d[k - i]);
    }
    assert(s[i] == d[0]);
    assert(is_digit(s[i]));
    assert(s[i] != '-');
    lemma_digits_end_of_run(s, i, e);
    assert(s.subrange(i, e) == d);
    assert(sp_digits_val(s.subrange(i, e)) == n);
    assert(e < s.len() ==> (s[e] != '.' && s[e] != 'e' && s[e] != 'E'));
}

/// The first character of an encoding: never whitespace, never a closing
/// bracket, brace or comma.
pub proof fn lemma_enc_first(v: JsonV)
    requires
        jv_encodable(v),
    ensures
        sp_enc_json(v).len() >= 1,
        !is_json_space(sp_enc_json(v)[0]),
        sp_enc_json(v)[0] != ']',
        sp_enc_json(v)[0] != '}',
        sp_enc_json(v)[0] != ',',
        sp_enc_json(v)[0] != ':',
{
    reveal_strlit("null");
    reveal_strlit("true");
    reveal_strlit("false");
    match v {
        JsonV::Null => {
            assert("null"@[0] == 'n');
        },
        JsonV::Bool(b) => {
            if b {
                assert("true"@[0] == 't');
            } else {
                assert("false"@[0] == 'f');
            }
        },
        JsonV::Num(n) => {
            lemma_dec_digits(n as int);
            assert(is_digit(sp_enc_json(v)[0]));
        },
        JsonV::NumRaw(cs) => {
            assert(false);
        },
        JsonV::Str(cs) => {
            assert(sp_enc_json(v)[0] == '"');
        },
        JsonV::Arr(es) => {
            assert(sp_enc_json(v)[0] == '[');
        },
        JsonV::Obj(ms) => {
            assert(sp_enc_json(v)[0] == '{');
        },
    }
}

/// Splitting a known subrange: if the characters of `s` from `i` are
/// `a + b`, then `a` and `b` each occupy their own subrange.
pub proof fn lemma_subrange_shift(s: Seq<char>, i: int, a: Seq<char>, b: Seq<char>)
    requires
        0 <= i,
        i + a.len() + b.len() <= s.len(),
        s.subrange(i, i + a.len() + b.len()) == a + b,
    ensures
        s.subrange(i, i + a.len() as int) == a,
        s.subrange(i + a.len() as int, i + a.len() + b.len()) == b,
        forall|m: int| 0 <= m < a.len() ==> s[i + m] == a[m],
        forall|m: int| 0 <= m < b.len() ==> s[i + a.len() + m] == b[m],
        a.len() > 0 ==> s[i] == a[0],
        a.len() > 1 ==> s[i + 1] == a[1],
        b.len() > 0 ==> s[i + a.len()] == b[0],
{
    assert(a.len() > 0 ==> a[0] == (a + b)[0]);
    assert(a.len() > 1 ==> a[1] == (a + b)[1]);
    let whole = s.subrange(i, i + a.len() + b.len());
    assert forall|m: int| 0 <= m < a.len() implies s[i + m] == a[m] by {
        assert(whole[m] == (a + b)[m]);
        assert((a + b)[m] == a[m]);
    }
    assert forall|m: int| 0 <= m < b.len() implies s[i + a.len() + m] == b[m] by {
        assert(whole[a.len() + m] == (a + b)[a.len() + m]);
        assert((a + b)[a.len() + m] == b[m]);
    }
    assert(s.subrange(i, i + a.len() as int) =~= a);
    assert(s.subrange(i + a.len() as int, i + a.len() + b.len()) =~= b);
}

/// Parsing a string-literal body over the escaped form of `cs` from
/// position `j` on, followed by a closing quote, yields the remaining
/// characters of `cs`.
pub proof fn lemma_parse_esc(cs: Seq<char>, j: int, s: Seq<char>, i: int)
    requires
        0 <= j <= cs.len(),
        0 <= i,
        i + sp_esc_from(cs, j).len() + 1 <= s.len(),
        s.subrange(i, i + sp_esc_from(cs, j).len()) == sp_esc_from(cs, j),
        s[i + sp_esc_from(cs, j).len()] == '"',
    ensures
        sp_parse_string_body(s, i) == Some((cs.skip(j), i + sp_esc_from(cs, j).len() + 1)),
    decreases cs.len() - j,
{
    let body = sp_esc_from(cs, j);
    if j == cs.len() {
        assert(body.len() == 0);
        assert(s[i] == '"');
        assert(cs.skip(j) =~= Seq::<char>::empty());
    } else {
        let c = cs[j];
        let head = sp_esc_char(c);
        let rest = sp_esc_from(cs, j + 1);
        assert(body == head + rest);
        assert(s.subrange(i, i + head.len() + rest.len()) == head + rest);
        lemma_subrange_shift(s, i, head, rest);
        lemma_parse_esc(cs, j + 1, s, i + head.len() as int);
        assert(sp_parse_string_body(s, i + head.len() as int) == Some(
            (cs.skip(j + 1), i + body.len() + 1),
        ));
        if c == '"' || c == '\\' || c == '\n' || c == '\r' || c == '\t' {
            assert(head.len() == 2);
            assert(head[0] == '\\');
            assert(s[i] == '\\');
            assert(s[i] != '"');
            let e = head[1];
            assert(s[i + 1] == e);
            assert(e != 'u');
            assert(sp_esc_code(e) == Some(c));
            assert(seq![c] + cs.skip(j + 1) =~= cs.skip(j));
        } else if (c as u32) < 0x20 {
            let cu = c as u32;
            let hi = cu as int / 16;
            let lo = cu as int % 16;
            assert(head.len() == 6);
            assert(head[0] == '\\');
            assert(head[1] == 'u');
            assert(head[2] == '0');
            assert(head[3] == '0');
            assert(head[4] == sp_hex_char(hi));
            assert(head[5] == sp_hex_char(lo));
            assert(s[i] == '\\');
            assert(s[i] != '"');
            assert(s[i + 1] == 'u');
            assert(sp_hex_val('0') == Some(0int));
            lemma_hex_char_val(hi);
            lemma_hex_char_val(lo);
            assert(16 * hi + lo == cu as int);
            let v = sp_hex_val(s[i + 2])->0 * 4096 + sp_hex_val(s[i + 3])->0 * 256 + sp_hex_val(
                s[i + 4],
            )->0 * 16 + sp_hex_val(s[i + 5])->0;
            assert(v == cu as int);
            assert(v < 0xD800);
            vstd::utf8::char_u32_cast(c, cu);
            assert((cu as char) == c);
            assert((v as char) == c);
            assert(seq![c] + cs.skip(j + 1) =~= cs.skip(j));
        } else {
            assert(head.len() == 1);
            assert(head[0] == c);
            assert(s[i] == c);
            assert(s[i] != '"' && s[i] != '\\');
            assert(seq![c] + cs.skip(j + 1) =~= cs.skip(j));
        }
    }
}

/// Parsing a value at the start of its canonical encoding consumes exactly
/// the encoding and yields the value back, for a document whose numbers
/// are all plain unsigned integers. The character after the encoding, if
/// any, must not extend a number token, so that a numeral is read whole.
pub proof fn lemma_parse_of_enc(v: JsonV, s: Seq<char>, i: int)
    requires
        jv_encodable(v),
        0 <= i,
        i + sp_enc_json(v).len() <= s.len(),
        s.subrange(i, i + sp_enc_json(v).len()) == sp_enc_json(v),
        i + sp_enc_json(v).len() == s.len() || non_number_follower(s[i + sp_enc_json(v).len()]),
    ensures
        sp_parse_value(s, i) == Some((v, i + sp_enc_json(v).len())),
    decreases v, 0int,
{
    reveal_strlit("null");
    reveal_strlit("true");
    reveal_strlit("false");
    let enc = sp_enc_json(v);
    lemma_enc_first(v);
    assert forall|k: int| 0 <= k < enc.len() implies s[i + k] == enc[k] by {
        assert(s.subrange(i, i + sp_enc_json(v).len())[k] == enc[k]);
    }
    assert(s[i] == enc[0]);
    assert(sp_skip_spaces(s, i) == i);
    match v {
        JsonV::Null => {
            assert(enc == "null"@);
            assert(s[i] == 'n');
            assert(s.subrange(i, i + 4) == "null"@);
            assert(sp_match_at(s, i, "null"@));
        },
        JsonV::Bool(b) => {
            if b {
                assert(enc == "true"@);
                assert(s[i] == 't');
                assert(s[i] != 'n');
                assert(sp_match_at(s, i, "true"@));
            } else {
                assert(enc == "false"@);
                assert(s[i] == 'f');
                assert(s[i] != 'n' && s[i] != 't');
                assert(sp_match_at(s, i, "false"@));
            }
        },
        JsonV::Num(n) => {
            lemma_dec_digits(n as int);
            assert(is_digit(s[i]));
            assert(s[i] != 'n' && s[i] != 't' && s[i] != 'f' && s[i] != '"');
            lemma_parse_dec(n, s, i);
        },
        JsonV::NumRaw(cs) => {
            assert(false);
        },
        JsonV::Str(cs) => {
            assert(s[i] == '"');
            assert(s[i] != 'n' && s[i] != 't' && s[i] != 'f');
            assert(!is_digit('"'));
            assert(s[i] != '-');
            let body = sp_esc_from(cs, 0);
            assert(enc == seq!['"'] + body + seq!['"']);
            assert forall|k: int| 0 <= k < body.len() implies s[i + 1 + k] == body[k] by {
                assert(s[i + 1 + k] == enc[1 + k]);
            }
            assert(s.subrange(i + 1, i + 1 + body.len()) =~= body);
            assert(s[i + 1 + body.len()] == enc[enc.len() - 1]);
            lemma_parse_esc(cs, 0, s, i + 1);
            assert(cs.skip(0) =~= cs);
        },
        JsonV::Arr(es) => {
            assert(s[i] == '[');
            assert(s[i] != 'n' && s[i] != 't' && s[i] != 'f' && s[i] != '"');
            assert(!is_digit('['));
            assert(s[i] != '-');
            let inner = sp_enc_list(es, 0);
            assert(enc == seq!['['] + inner + seq![']']);
            assert forall|k: int| 0 <= k < inner.len() implies s[i + 1 + k] == inner[k] by {
                assert(s[i + 1 + k] == enc[1 + k]);
            }
            assert(s[i + enc.len() - 1] == enc[enc.len() - 1]);
            assert(s[i + 1 + inner.len()] == ']');
            if es.len() == 0 {
                assert(inner.len() == 0);
                assert(s[i + 1] == ']');
                assert(sp_skip_spaces(s, i + 1) == i + 1);
                assert(sp_parse_value(s, i) == Some((JsonV::Arr(Seq::empty()), i + 2)));
                assert(es =~= Seq::<JsonV>::empty());
            } else {
                lemma_enc_first(es[0]);
                assert(inner[0] == sp_enc_json(es[0])[0]) by {
                    if es.len() == 1 {
                        assert(inner == sp_enc_json(es[0]));
                    } else {
                        assert(inner == sp_enc_json(es[0]) + seq![','] + sp_enc_list(es, 1));
                    }
                }
                assert(s[i + 1] == inner[0]);
                assert(!is_json_space(s[i + 1]));
                assert(sp_skip_spaces(s, i + 1) == i + 1);
                assert(s[i + 1] != ']');
                assert(s.subrange(i + 1, i + 1 + inner.len()) =~= inner);
                lemma_parse_elems_of_enc(es, 0, s, i + 1);
                assert(es.skip(0) =~= es);
            }
        },
        JsonV::Obj(ms) => {
            assert(s[i] == '{');
            assert(s[i] != 'n' && s[i] != 't' && s[i] != 'f' && s[i] != '"' && s[i] != '[');
            assert(!is_digit('{'));
            assert(s[i] != '-');
            let inner = sp_enc_members(ms, 0);
            assert(enc == seq!['{'] + inner + seq!['}']);
            assert forall|k: int| 0 <= k < inner.len() implies s[i + 1 + k] == inner[k] by {
                assert(s[i + 1 + k] == enc[1 + k]);
            }
            assert(s[i + enc.len() - 1] == enc[enc.len() - 1]);
            assert(s[i + 1 + inner.len()] == '}');
            if ms.len() == 0 {
                assert(inner.len() == 0);
                assert(s[i + 1] == '}');
                assert(sp_skip_spaces(s, i + 1) == i + 1);
                assert(ms =~= Seq::<(Seq<char>, JsonV)>::empty());
            } else {
                assert(inner[0] == '"') by {
                    if ms.len() == 1 {
                        assert(inner == seq!['"'] + sp_esc(ms[0].0) + seq!['"', ':']
                            + sp_enc_json(ms[0].1));
                    } else {
                        assert(inner == seq!['"'] + sp_esc(ms[0].0) + seq!['"', ':']
                            + sp_enc_json(ms[0].1) + seq![','] + sp_enc_members(ms, 1));
                    }
                }
                assert(s[i + 1] == '"');
                assert(sp_skip_spaces(s, i + 1) == i + 1);
                assert(s[i + 1] != '}');
                assert(s.subrange(i + 1, i + 1 + inner.len()) =~= inner);
                lemma_parse_members_of_enc(ms, 0, s, i + 1);
                assert(ms.skip(0) =~= ms);
            }
        },
    }
}

/// Parsing array elements over the encoded tail of `es` from index `k`,
/// followed by a closing bracket, yields those elements.
pub proof fn lemma_parse_elems_of_enc(es: Seq<JsonV>, k: int, s: Seq<char>, i: int)
    requires
        jv_wf_list(es),
        0 <= k < es.len(),
        0 <= i,
        i + sp_enc_list(es, k).len() + 1 <= s.len(),
        s.subrange(i, i + sp_enc_list(es, k).len()) == sp_enc_list(es, k),
        s[i + sp_enc_list(es, k).len()] == ']',
    ensures
        sp_parse_elems(s, i) == Some((es.skip(k), i + sp_enc_list(es, k).len() + 1)),
    decreases es, es.len() - k,
{
    let inner = sp_enc_list(es, k);
    let head = sp_enc_json(es[k]);
    lemma_jv_wf_list_index(es);
    lemma_enc_first(es[k]);
    if k == es.len() - 1 {
        assert(inner == head);
        lemma_parse_of_enc(es[k], s, i);
        let i2 = i + head.len();
        assert(s[i2] == ']');
        assert(sp_skip_spaces(s, i2) == i2);
        assert(seq![es[k]] =~= es.skip(k));
    } else {
        let rest = sp_enc_list(es, k + 1);
        assert(inner == head + seq![','] + rest);
        assert(inner =~= head + (seq![','] + rest));
        assert(s.subrange(i, i + head.len() + (seq![','] + rest).len()) == head + (seq![',']
            + rest));
        lemma_subrange_shift(s, i, head, seq![','] + rest);
        let i2 = i + head.len() as int;
        assert(s.subrange(i2, i2 + 1 + rest.len()) == seq![','] + rest);
        lemma_subrange_shift(s, i2, seq![','], rest);
        assert(s[i2] == ',');
        assert(!is_digit(','));
        lemma_parse_of_enc(es[k], s, i);
        assert(sp_skip_spaces(s, i2) == i2);
        assert(s.subrange(i2 + 1, i2 + 1 + rest.len()) == rest);
        assert(s[i2 + 1 + rest.len()] == ']');
        lemma_parse_elems_of_enc(es, k + 1, s, i2 + 1);
        assert(seq![es[k]] + es.skip(k + 1) =~= es.skip(k));
    }
}

/// Parsing object members over the encoded tail of `ms` from index `k`,
/// followed by a closing brace, yields those members.
pub proof fn lemma_parse_members_of_enc(
    ms: Seq<(Seq<char>, JsonV)>,
    k: int,
    s: Seq<char>,
    i: int,
)
    requires
        jv_wf_members(ms),
        0 <= k < ms.len(),
        0 <= i,
        i + sp_enc_members(ms, k).len() + 1 <= s.len(),
        s.subrange(i, i + sp_enc_members(ms, k).len()) == sp_enc_members(ms, k),
        s[i + sp_enc_members(ms, k).len()] == '}',
    ensures
        sp_parse_members(s, i) == Some((ms.skip(k), i + sp_enc_members(ms, k).len() + 1)),
    decreases ms, ms.len() - k,
{
    let inner = sp_enc_members(ms, k);
    let key = ms[k].0;
    let val = ms[k].1;
    let keyesc = sp_esc(key);
    let venc = sp_enc_json(val);
    let head = seq!['"'] + keyesc + seq!['"', ':'] + venc;
    lemma_jv_wf_members_index(ms);
    lemma_enc_first(val);
    if k == ms.len() - 1 {
        assert(inner == head);
        assert(s.subrange(i, i + head.len() as int) == head);
    } else {
        assert(inner == head + seq![','] + sp_enc_members(ms, k + 1));
        assert(inner =~= head + (seq![','] + sp_enc_members(ms, k + 1)));
        assert(s.subrange(i, i + head.len() + (seq![','] + sp_enc_members(ms, k + 1)).len())
            == head + (seq![','] + sp_enc_members(ms, k + 1)));
        lemma_subrange_shift(s, i, head, seq![','] + sp_enc_members(ms, k + 1));
    }
    assert(head =~= seq!['"'] + (keyesc + (seq!['"', ':'] + venc)));
    assert(s.subrange(i, i + 1 + (keyesc + (seq!['"', ':'] + venc)).len()) == seq!['"'] + (
    keyesc + (seq!['"', ':'] + venc)));
    lemma_subrange_shift(s, i, seq!['"'], keyesc + (seq!['"', ':'] + venc));
    assert(s[i] == '"');
    assert(sp_skip_spaces(s, i) == i);
    assert(s.subrange(i + 1, i + 1 + keyesc.len() + (seq!['"', ':'] + venc).len()) == keyesc + (
    seq!['"', ':'] + venc));
    lemma_subrange_shift(s, i + 1, keyesc, seq!['"', ':'] + venc);
    let p2 = i + 1 + keyesc.len() as int;
    assert(s.subrange(p2, p2 + 2 + venc.len()) == seq!['"', ':'] + venc);
    lemma_subrange_shift(s, p2, seq!['"', ':'], venc);
    assert(s[p2] == '"');
    assert(s[p2 + 1] == ':');
    assert(s.subrange(i + 1, i + 1 + sp_esc_from(key, 0).len()) == sp_esc_from(key, 0));
    lemma_parse_esc(key, 0, s, i + 1);
    let i2 = p2 + 1;
    assert(sp_parse_string_body(s, i + 1) == Some((key.skip(0), i2)));
    assert(key.skip(0) =~= key);
    assert(sp_skip_spaces(s, i2) == i2);
    let i3 = i2 + 1;
    assert(s.subrange(i3, i3 + venc.len() as int) == venc);
    let i4 = i3 + venc.len() as int;
    if k == ms.len() - 1 {
        assert(i4 == i + inner.len());
        assert(s[i4] == '}');
        assert(!is_digit('}'));
        lemma_parse_of_enc(val, s, i3);
        assert(sp_skip_spaces(s, i4) == i4);
        assert((key, val) == ms[k]);
        assert(seq![(key, val)] =~= ms.skip(k));
    } else {
        let rest = sp_enc_members(ms, k + 1);
        assert(s.subrange(i4, i4 + 1 + rest.len()) == seq![','] + rest);
        lemma_subrange_shift(s, i4, seq![','], rest);
        assert(s[i4] == ',');
        assert(!is_digit(','));
        lemma_parse_of_enc(val, s, i3);
        assert(sp_skip_spaces(s, i4) == i4);
        assert(s.subrange(i4 + 1, i4 + 1 + rest.len()) == rest);
        assert(s[i4 + 1 + rest.len()] == '}');
        lemma_parse_members_of_enc(ms, k + 1, s, i4 + 1);
        assert((key, val) == ms[k]);
        assert(seq![ms[k]] + ms.skip(k + 1) =~= ms.skip(k));
    }
}

/// Parsing a whole canonical encoding yields the encoded document, for a
/// document whose numbers are all plain unsigned integers.
pub proof fn lemma_parse_json_of_enc(v: JsonV)
    requires
        jv_encodable(v),
    ensures
        sp_parse_json(sp_enc_json(v)) == Some(v),
{
    let enc = sp_enc_json(v);
    assert(enc.subrange(0, enc.len() as int) =~= enc);
    lemma_enc_first(v);
    lemma_parse_of_enc(v, enc, 0);
    assert(sp_skip_spaces(enc, enc.len() as int) == enc.len());
}

/// The canonical encoding of `v` as a string.
pub fn to_json_string(v: &JsonValue) -> (r: String)
    ensures
        r@ == sp_enc_json(v@),
{
    let mut out: Vec<char> = Vec::new();
    enc_json(v, &mut out);
    proof {
        assert(out@ =~= sp_enc_json(v@));
    }
    string_of(&out)
}

} // verus!
