//! Character-sequence utilities shared by the prompt compiler, the JSON
//! codec and the placeholder resolver: whitespace handling, substring
//! search, literal replacement and decimal parsing.

use vstd::prelude::*;

verus! {

/// Relies on `str::chars` and `Iterator::collect` for `Vec`: the collected
/// vector holds exactly the characters of the string, in order.
#[verifier::external_body]
pub fn chars_of(s: &str) -> (r: Vec<char>)
    ensures
        r@ == s@,
{
    s.chars().collect()
}

/// Relies on `Iterator::collect` for `String` from characters: the collected
/// string holds exactly the given characters, in order.
#[verifier::external_body]
pub fn string_of(cs: &Vec<char>) -> (r: String)
    ensures
        r@ == cs@,
{
    cs.iter().collect()
}

/// The four whitespace characters of the JSON grammar: space, tab, line
/// feed and carriage return.
pub open spec fn is_json_space(c: char) -> bool {
    c == ' ' || c == '\t' || c == '\n' || c == '\r'
}

/// Executable mirror of [`is_json_space`].
pub fn json_space(c: char) -> (r: bool)
    ensures
        r == is_json_space(c),
{
    c == ' ' || c == '\t' || c == '\n' || c == '\r'
}

/// Unicode whitespace: the characters with the `White_Space` property,
/// the set that `str::trim` and `str::split_whitespace` go by.
pub open spec fn is_unicode_space(c: char) -> bool {
    c == '\u{9}' || c == '\u{A}' || c == '\u{B}' || c == '\u{C}' || c == '\u{D}' || c == ' '
        || c == '\u{85}' || c == '\u{A0}' || c == '\u{1680}' || c == '\u{2000}' || c
        == '\u{2001}' || c == '\u{2002}' || c == '\u{2003}' || c == '\u{2004}' || c
        == '\u{2005}' || c == '\u{2006}' || c == '\u{2007}' || c == '\u{2008}' || c
        == '\u{2009}' || c == '\u{200A}' || c == '\u{2028}' || c == '\u{2029}' || c
        == '\u{202F}' || c == '\u{205F}' || c == '\u{3000}'
}

/// Executable mirror of [`is_unicode_space`].
pub fn unicode_space(c: char) -> (r: bool)
    ensures
        r == is_unicode_space(c),
{
    match c {
        '\u{9}' | '\u{A}' | '\u{B}' | '\u{C}' | '\u{D}' | ' ' | '\u{85}' | '\u{A0}'
            | '\u{1680}' | '\u{2000}' | '\u{2001}' | '\u{2002}' | '\u{2003}' | '\u{2004}'
            | '\u{2005}' | '\u{2006}' | '\u{2007}' | '\u{2008}' | '\u{2009}' | '\u{200A}'
            | '\u{2028}' | '\u{2029}' | '\u{202F}' | '\u{205F}' | '\u{3000}' => true,
        _ => false,
    }
}

/// Index of the first non-whitespace character at or after `i`.
pub open spec fn sp_skip_spaces(s: Seq<char>, i: int) -> int
    decreases s.len() - i when 0 <= i
{
    if i < s.len() && is_json_space(s[i]) {
        sp_skip_spaces(s, i + 1)
    } else {
        i
    }
}

pub proof fn lemma_skip_spaces_bounds(s: Seq<char>, i: int)
    requires
        0 <= i <= s.len(),
    ensures
        i <= sp_skip_spaces(s, i) <= s.len(),
        sp_skip_spaces(s, i) < s.len() ==> !is_json_space(s[sp_skip_spaces(s, i)]),
    decreases s.len() - i,
{
    if i < s.len() && is_json_space(s[i]) {
        lemma_skip_spaces_bounds(s, i + 1);
    }
}

/// Advances past JSON whitespace.
pub fn skip_spaces(s: &Vec<char>, i: usize) -> (r: usize)
    requires
        i <= s@.len(),
    ensures
        r == sp_skip_spaces(s@, i as int),
        i <= r <= s@.len(),
{
    let mut j = i;
    while j < s.len() && json_space(s[j])
        invariant
            i <= j <= s@.len(),
            sp_skip_spaces(s@, i as int) == sp_skip_spaces(s@, j as int),
        decreases s@.len() - j,
    {
        j = j + 1;
    }
    j
}

/// `s` with leading and trailing Unicode whitespace removed, as
/// `str::trim` removes it.
pub open spec fn sp_trim(s: Seq<char>) -> Seq<char> {
    sp_trim_end(sp_trim_start(s))
}

pub open spec fn sp_trim_start(s: Seq<char>) -> Seq<char>
    decreases s.len(),
{
    if s.len() > 0 && is_unicode_space(s[0]) {
        sp_trim_start(s.drop_first())
    } else {
        s
    }
}

pub open spec fn sp_trim_end(s: Seq<char>) -> Seq<char>
    decreases s.len(),
{
    if s.len() > 0 && is_unicode_space(s[s.len() - 1]) {
        sp_trim_end(s.drop_last())
    } else {
        s
    }
}

/// A sequence that does not start with whitespace is untouched by
/// `sp_trim_start`.
proof fn lemma_trim_start_clean(s: Seq<char>)
    requires
        s.len() > 0 ==> !is_unicode_space(s[0]),
    ensures
        sp_trim_start(s) == s,
{
}

/// A sequence that does not end with whitespace is untouched by
/// `sp_trim_end`.
proof fn lemma_trim_end_clean(s: Seq<char>)
    requires
        s.len() > 0 ==> !is_unicode_space(s[s.len() - 1]),
    ensures
        sp_trim_end(s) == s,
{
}

/// Removes leading and trailing Unicode whitespace.
pub fn trim_chars(s: &Vec<char>) -> (r: Vec<char>)
    ensures
        r@ == sp_trim(s@),
{
    let mut start: usize = 0;
    proof {
        assert(s@.subrange(0, s@.len() as int) =~= s@);
    }
    while start < s.len() && unicode_space(s[start])
        invariant
            0 <= start <= s@.len(),
            sp_trim_start(s@) == sp_trim_start(s@.subrange(start as int, s@.len() as int)),
        decreases s@.len() - start,
    {
        proof {
            let tail = s@.subrange(start as int, s@.len() as int);
            assert(tail.drop_first() =~= s@.subrange(start as int + 1, s@.len() as int));
        }
        start = start + 1;
    }
    let mut end: usize = s.len();
    while end > start && unicode_space(s[end - 1])
        invariant
            0 <= start <= end <= s@.len(),
            sp_trim_start(s@) == sp_trim_start(s@.subrange(start as int, s@.len() as int)),
            start < s@.len() ==> !is_unicode_space(s@[start as int]),
            sp_trim_end(s@.subrange(start as int, s@.len() as int)) == sp_trim_end(
                s@.subrange(start as int, end as int),
            ),
        decreases end,
    {
        proof {
            let cur = s@.subrange(start as int, end as int);
            assert(cur.drop_last() =~= s@.subrange(start as int, end as int - 1));
        }
        end = end - 1;
    }
    let mut out: Vec<char> = Vec::new();
    let mut i: usize = start;
    while i < end
        invariant
            start <= i <= end <= s@.len(),
            out@ =~= s@.subrange(start as int, i as int),
        decreases end - i,
    {
        out.push(s[i]);
        proof {
            assert(out@ =~= s@.subrange(start as int, i as int + 1));
        }
        i = i + 1;
    }
    proof {
        let suffix = s@.subrange(start as int, s@.len() as int);
        lemma_trim_start_clean(suffix);
        let mid = s@.subrange(start as int, end as int);
        lemma_trim_end_clean(mid);
        assert(out@ =~= mid);
    }
    out
}

/// The characters of `pat` occur in `s` starting at index `i`.
pub open spec fn sp_match_at(s: Seq<char>, i: int, pat: Seq<char>) -> bool {
    0 <= i && i + pat.len() <= s.len() && s.subrange(i, i + pat.len()) == pat
}

/// `pat` occurs somewhere in `s`.
pub open spec fn sp_has_sub(s: Seq<char>, pat: Seq<char>) -> bool {
    exists|k: int| sp_match_at(s, k, pat)
}

/// Whether `pat` occurs in `s` at index `i`.
pub fn seq_match(s: &Vec<char>, i: usize, pat: &Vec<char>) -> (r: bool)
    requires
        i <= s@.len(),
    ensures
        r == sp_match_at(s@, i as int, pat@),
{
    if pat.len() > s.len() - i {
        return false;
    }
    let mut j: usize = 0;
    while j < pat.len()
        invariant
            i + pat@.len() <= s@.len(),
            s@.len() <= usize::MAX,
            0 <= j <= pat@.len(),
            forall|k: int| 0 <= k < j ==> s@[i + k] == pat@[k],
        decreases pat@.len() - j,
    {
        if s[i + j] != pat[j] {
            proof {
                assert(s@.subrange(i as int, i + pat@.len())[j as int] != pat@[j as int]);
            }
            return false;
        }
        j = j + 1;
    }
    proof {
        assert(s@.subrange(i as int, i + pat@.len()) =~= pat@);
    }
    true
}

/// Whether `pat` occurs anywhere in `s`.
pub fn has_sub(s: &Vec<char>, pat: &Vec<char>) -> (r: bool)
    ensures
        r == sp_has_sub(s@, pat@),
{
    if pat.len() == 0 {
        proof {
            assert(s@.subrange(0, 0) =~= pat@);
            assert(sp_match_at(s@, 0, pat@));
        }
        return true;
    }
    if pat.len() > s.len() {
        proof {
            assert(forall|k: int| !sp_match_at(s@, k, pat@));
        }
        return false;
    }
    let bound = s.len() - pat.len();
    let mut i: usize = 0;
    while i <= bound
        invariant
            1 <= pat@.len() <= s@.len(),
            s@.len() <= usize::MAX,
            bound == s@.len() - pat@.len(),
            0 <= i <= bound + 1,
            forall|k: int| 0 <= k < i ==> !sp_match_at(s@, k, pat@),
        decreases bound + 1 - i,
    {
        if seq_match(s, i, pat) {
            return true;
        }
        i = i + 1;
    }
    proof {
        assert(forall|k: int| sp_match_at(s@, k, pat@) ==> 0 <= k < i);
    }
    false
}

/// Appends the characters of `add` to `out`.
pub fn append_chars(out: &mut Vec<char>, add: &Vec<char>)
    ensures
        final(out)@ == old(out)@ + add@,
{
    let mut j: usize = 0;
    while j < add.len()
        invariant
            0 <= j <= add@.len(),
            out@ =~= old(out)@ + add@.subrange(0, j as int),
        decreases add@.len() - j,
    {
        out.push(add[j]);
        proof {
            assert(out@ =~= old(out)@ + add@.subrange(0, j as int + 1));
        }
        j = j + 1;
    }
    proof {
        assert(out@ =~= old(out)@ + add@);
    }
}

/// `s` with every occurrence of `pat` replaced by `rep`, scanning left to
/// right without overlap, as `str::replace` does. An empty pattern replaces
/// nothing.
pub open spec fn sp_replace(s: Seq<char>, pat: Seq<char>, rep: Seq<char>) -> Seq<char>
    decreases s.len(),
{
    if pat.len() == 0 || s.len() < pat.len() {
        s
    } else if s.subrange(0, pat.len() as int) == pat {
        rep + sp_replace(s.skip(pat.len() as int), pat, rep)
    } else {
        seq![s[0]] + sp_replace(s.skip(1), pat, rep)
    }
}

/// Copies a character vector.
pub fn copy_chars(s: &Vec<char>) -> (r: Vec<char>)
    ensures
        r@ == s@,
{
    let mut out: Vec<char> = Vec::new();
    let mut i: usize = 0;
    while i < s.len()
        invariant
            0 <= i <= s@.len(),
            out@ =~= s@.subrange(0, i as int),
        decreases s@.len() - i,
    {
        out.push(s[i]);
        proof {
            assert(out@ =~= s@.subrange(0, i as int + 1));
        }
        i = i + 1;
    }
    proof {
        assert(out@ =~= s@);
    }
    out
}

/// Replaces every occurrence of `pat` in `s` by `rep`, left to right,
/// without overlap.
pub fn replace_all(s: &Vec<char>, pat: &Vec<char>, rep: &Vec<char>) -> (r: Vec<char>)
    ensures
        r@ == sp_replace(s@, pat@, rep@),
{
    if pat.len() == 0 {
        return copy_chars(s);
    }
    let mut out: Vec<char> = Vec::new();
    let mut i: usize = 0;
    proof {
        assert(s@.skip(0) =~= s@);
        assert(out@ + sp_replace(s@, pat@, rep@) =~= sp_replace(s@, pat@, rep@));
    }
    while i < s.len()
        invariant
            0 <= i <= s@.len(),
            pat@.len() > 0,
            sp_replace(s@, pat@, rep@) == out@ + sp_replace(
                s@.skip(i as int),
                pat@,
                rep@,
            ),
        decreases s@.len() - i,
    {
        let ghost tail = s@.skip(i as int);
        if seq_match(s, i, pat) {
            proof {
                assert(tail.subrange(0, pat@.len() as int) =~= s@.subrange(
                    i as int,
                    i + pat@.len(),
                ));
                assert(tail.skip(pat@.len() as int) =~= s@.skip(i + pat@.len()));
            }
            append_chars(&mut out, rep);
            i = i + pat.len();
        } else {
            proof {
                if tail.len() >= pat@.len() {
                    assert(tail.subrange(0, pat@.len() as int) =~= s@.subrange(
                        i as int,
                        i + pat@.len(),
                    ));
                }
                assert(tail.skip(1) =~= s@.skip(i + 1));
                assert(seq![tail[0]] =~= s@.subrange(i as int, i + 1));
            }
            out.push(s[i]);
            i = i + 1;
        }
    }
    proof {
        assert(s@.skip(i as int) =~= Seq::<char>::empty());
        assert(out@ + Seq::<char>::empty() =~= out@);
    }
    out
}

/// One left-to-right pass of whitespace normalization, starting at `i`.
/// `emitted` records whether a token character has been produced already,
/// `gap` whether whitespace has been seen since the last token character.
pub open spec fn sp_norm_go(s: Seq<char>, i: int, emitted: bool, gap: bool) -> Seq<char>
    decreases s.len() - i when 0 <= i
{
    if i >= s.len() {
        Seq::empty()
    } else if is_unicode_space(s[i]) {
        sp_norm_go(s, i + 1, emitted, emitted)
    } else if gap {
        seq![' ', s[i]] + sp_norm_go(s, i + 1, true, false)
    } else {
        seq![s[i]] + sp_norm_go(s, i + 1, true, false)
    }
}

/// `s` with every maximal run of Unicode whitespace collapsed to a single
/// space and leading and trailing whitespace removed: the effect of
/// splitting on whitespace and joining the pieces with one space.
pub open spec fn sp_normalize(s: Seq<char>) -> Seq<char> {
    sp_norm_go(s, 0, false, false)
}

/// Collapses whitespace runs to single spaces and trims the ends.
pub fn normalize_ws(s: &Vec<char>) -> (r: Vec<char>)
    ensures
        r@ == sp_normalize(s@),
{
    let mut out: Vec<char> = Vec::new();
    let mut i: usize = 0;
    let mut emitted = false;
    let mut gap = false;
    proof {
        assert(out@ + sp_norm_go(s@, 0, false, false) =~= sp_norm_go(s@, 0, false, false));
    }
    while i < s.len()
        invariant
            0 <= i <= s@.len(),
            sp_normalize(s@) == out@ + sp_norm_go(s@, i as int, emitted, gap),
        decreases s@.len() - i,
    {
        let ghost out0 = out@;
        let c = s[i];
        if unicode_space(c) {
            gap = emitted;
        } else if gap {
            out.push(' ');
            out.push(c);
            proof {
                assert(out@ =~= out0 + seq![' ', c]);
                assert(out0 + (seq![' ', c] + sp_norm_go(s@, i + 1, true, false)) =~= (out0
                    + seq![' ', c]) + sp_norm_go(s@, i + 1, true, false));
            }
            emitted = true;
            gap = false;
        } else {
            out.push(c);
            proof {
                assert(out@ =~= out0 + seq![c]);
                assert(out0 + (seq![c] + sp_norm_go(s@, i + 1, true, false)) =~= (out0 + seq![c])
                    + sp_norm_go(s@, i + 1, true, false));
            }
            emitted = true;
        }
        i = i + 1;
    }
    proof {
        assert(out@ + Seq::<char>::empty() =~= out@);
    }
    out
}

/// Every character that normalization emits is either a plain space or a
/// non-whitespace character of the input; in particular the output holds no
/// newline, tab or carriage return.
pub proof fn lemma_norm_go_no_oddspace(s: Seq<char>, i: int, emitted: bool, gap: bool)
    requires
        0 <= i,
    ensures
        forall|k: int|
            0 <= k < sp_norm_go(s, i, emitted, gap).len() ==> (sp_norm_go(s, i, emitted, gap)[k]
                == ' ' || !is_unicode_space(sp_norm_go(s, i, emitted, gap)[k])),
    decreases s.len() - i,
{
    let whole = sp_norm_go(s, i, emitted, gap);
    if i >= s.len() {
    } else if is_unicode_space(s[i]) {
        lemma_norm_go_no_oddspace(s, i + 1, emitted, emitted);
        let rest = sp_norm_go(s, i + 1, emitted, emitted);
        assert(whole == rest);
        assert forall|k: int| 0 <= k < whole.len() implies (whole[k] == ' ' || !is_unicode_space(
            whole[k],
        )) by {
            assert(whole[k] == rest[k]);
        }
    } else if gap {
        lemma_norm_go_no_oddspace(s, i + 1, true, false);
        let rest = sp_norm_go(s, i + 1, true, false);
        assert(whole == seq![' ', s[i]] + rest);
        assert forall|k: int| 0 <= k < whole.len() implies (whole[k] == ' ' || !is_unicode_space(
            whole[k],
        )) by {
            if k >= 2 {
                assert(whole[k] == rest[k - 2]);
            } else if k == 1 {
                assert(whole[k] == s[i]);
            } else {
                assert(whole[k] == ' ');
            }
        }
    } else {
        lemma_norm_go_no_oddspace(s, i + 1, true, false);
        let rest = sp_norm_go(s, i + 1, true, false);
        assert(whole == seq![s[i]] + rest);
        assert forall|k: int| 0 <= k < whole.len() implies (whole[k] == ' ' || !is_unicode_space(
            whole[k],
        )) by {
            if k >= 1 {
                assert(whole[k] == rest[k - 1]);
            } else {
                assert(whole[k] == s[i]);
            }
        }
    }
}

/// Decimal digits and their values.
pub open spec fn is_digit(c: char) -> bool {
    c == '0' || c == '1' || c == '2' || c == '3' || c == '4' || c == '5' || c == '6' || c == '7'
        || c == '8' || c == '9'
}

pub open spec fn digit_val(c: char) -> int {
    if c == '0' {
        0
    } else if c == '1' {
        1
    } else if c == '2' {
        2
    } else if c == '3' {
        3
    } else if c == '4' {
        4
    } else if c == '5' {
        5
    } else if c == '6' {
        6
    } else if c == '7' {
        7
    } else if c == '8' {
        8
    } else {
        9
    }
}

/// Executable mirror of [`is_digit`] and [`digit_val`]: the value of a
/// decimal digit, or nothing.
pub fn digit_of(c: char) -> (r: Option<u32>)
    ensures
        r is Some <==> is_digit(c),
        is_digit(c) ==> r == Some(digit_val(c) as u32),
{
    match c {
        '0' => Some(0),
        '1' => Some(1),
        '2' => Some(2),
        '3' => Some(3),
        '4' => Some(4),
        '5' => Some(5),
        '6' => Some(6),
        '7' => Some(7),
        '8' => Some(8),
        '9' => Some(9),
        _ => None,
    }
}

pub open spec fn all_digits(s: Seq<char>) -> bool {
    forall|k: int| 0 <= k < s.len() ==> is_digit(s[k])
}

/// The numeric value of a digit string, most significant digit first.
pub open spec fn sp_digits_val(s: Seq<char>) -> int
    decreases s.len(),
{
    if s.len() == 0 {
        0
    } else {
        sp_digits_val(s.drop_last()) * 10 + digit_val(s[s.len() - 1])
    }
}

/// What parsing an unsigned decimal numeral yields, as `u32::from_str`
/// parses one: an optional leading `+`, then at least one digit; the value
/// of the digit string, or nothing if a non-digit remains or the value
/// exceeds `u32::MAX`.
pub open spec fn sp_parse_u32(s: Seq<char>) -> Option<u32> {
    let digits = if s.len() > 0 && s[0] == '+' {
        s.drop_first()
    } else {
        s
    };
    if digits.len() > 0 && all_digits(digits) && 0 <= sp_digits_val(digits) <= u32::MAX {
        Some(sp_digits_val(digits) as u32)
    } else {
        None
    }
}

pub proof fn lemma_digits_val_nonneg(s: Seq<char>)
    requires
        all_digits(s),
    ensures
        sp_digits_val(s) >= 0,
    decreases s.len(),
{
    if s.len() > 0 {
        assert(all_digits(s.drop_last()));
        lemma_digits_val_nonneg(s.drop_last());
    }
}

/// The value of a digit-string prefix never exceeds the value of the whole.
pub proof fn lemma_digits_val_prefix(s: Seq<char>, i: int)
    requires
        all_digits(s),
        0 <= i <= s.len(),
    ensures
        sp_digits_val(s.subrange(0, i)) <= sp_digits_val(s),
    decreases s.len() - i,
{
    if i == s.len() {
        assert(s.subrange(0, s.len() as int) =~= s);
    } else {
        lemma_digits_val_prefix(s, i + 1);
        let p = s.subrange(0, i + 1);
        assert(p.drop_last() =~= s.subrange(0, i));
        assert(all_digits(p.drop_last()));
        lemma_digits_val_nonneg(p.drop_last());
        assert(sp_digits_val(p) == sp_digits_val(s.subrange(0, i)) * 10 + digit_val(p[i]));
    }
}

/// Parses an unsigned decimal numeral, an optional leading `+` allowed,
/// that must fit in a `u32`.
pub fn parse_u32_digits(s: &Vec<char>) -> (r: Option<u32>)
    ensures
        r == sp_parse_u32(s@),
{
    let ghost digits = if s@.len() > 0 && s@[0] == '+' {
        s@.drop_first()
    } else {
        s@
    };
    let start: usize = if s.len() > 0 && s[0] == '+' {
        1
    } else {
        0
    };
    proof {
        assert(digits =~= s@.subrange(start as int, s@.len() as int));
    }
    if s.len() == start {
        return None;
    }
    let mut acc: u32 = 0;
    let mut i: usize = start;
    proof {
        assert(s@.subrange(start as int, start as int) =~= Seq::<char>::empty());
    }
    while i < s.len()
        invariant
            0 < s@.len() <= usize::MAX,
            start <= i <= s@.len(),
            start <= 1,
            digits == (if s@.len() > 0 && s@[0] == '+' {
                s@.drop_first()
            } else {
                s@
            }),
            digits =~= s@.subrange(start as int, s@.len() as int),
            all_digits(s@.subrange(start as int, i as int)),
            acc == sp_digits_val(s@.subrange(start as int, i as int)),
        decreases s@.len() - i,
    {
        let c = s[i];
        let d = match digit_of(c) {
            Some(d) => d,
            None => {
                proof {
                    assert(digits[i - start] == s@[i as int]);
                    assert(!is_digit(digits[i - start]));
                }
                return None;
            },
        };
        proof {
            assert(s@.subrange(start as int, i as int + 1).drop_last() =~= s@.subrange(
                start as int,
                i as int,
            ));
            assert(is_digit(s@[i as int]));
            assert(d == digit_val(s@[i as int]));
        }
        if acc > (u32::MAX - d) / 10 {
            proof {
                let p = s@.subrange(start as int, i as int + 1);
                assert(all_digits(p));
                assert(sp_digits_val(p) == acc * 10 + d);
                assert(acc >= (u32::MAX - d) / 10 + 1);
                assert(((u32::MAX - d) / 10 + 1) * 10 >= u32::MAX - d + 1) by (nonlinear_arith)
                    requires
                        d <= u32::MAX,
                ;
                assert(acc * 10 >= ((u32::MAX - d) / 10 + 1) * 10) by (nonlinear_arith)
                    requires
                        acc >= (u32::MAX - d) / 10 + 1,
                ;
                assert(sp_digits_val(p) > u32::MAX);
                if all_digits(digits) {
                    lemma_digits_val_prefix(digits, i as int + 1 - start);
                    assert(digits.subrange(0, i as int + 1 - start) =~= p);
                }
            }
            return None;
        }
        proof {
            assert(acc <= (u32::MAX - d) / 10);
            assert(((u32::MAX - d) / 10) * 10 <= u32::MAX - d) by (nonlinear_arith)
                requires
                    d <= u32::MAX,
            ;
            assert(acc * 10 <= ((u32::MAX - d) / 10) * 10) by (nonlinear_arith)
                requires
                    acc <= (u32::MAX - d) / 10,
            ;
        }
        acc = acc * 10 + d;
        i = i + 1;
    }
    proof {
        assert(s@.subrange(start as int, s@.len() as int) =~= digits);
        assert(all_digits(digits));
        lemma_digits_val_nonneg(digits);
    }
    Some(acc)
}

} // verus!
