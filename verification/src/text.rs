//! Plain-text helpers the record adapters build on: decimal digits,
//! unsigned-number parsing, splitting on a delimiter character, and
//! blank detection.

use vstd::prelude::*;

verus! {

/// The value of a decimal digit character; anything else maps to ten.
pub open spec fn spec_digit_val(c: char) -> int {
    match c {
        '0' => 0,
        '1' => 1,
        '2' => 2,
        '3' => 3,
        '4' => 4,
        '5' => 5,
        '6' => 6,
        '7' => 7,
        '8' => 8,
        '9' => 9,
        _ => 10,
    }
}

/// The character of a decimal digit value; anything else maps to `'?'`.
pub open spec fn spec_digit_char(v: int) -> char {
    if v == 0 { '0' }
    else if v == 1 { '1' }
    else if v == 2 { '2' }
    else if v == 3 { '3' }
    else if v == 4 { '4' }
    else if v == 5 { '5' }
    else if v == 6 { '6' }
    else if v == 7 { '7' }
    else if v == 8 { '8' }
    else if v == 9 { '9' }
    else { '?' }
}

/// A digit's character maps back to its value.
pub proof fn lemma_digit_char_val(v: int)
    requires
        0 <= v <= 9,
    ensures
        spec_digit_val(spec_digit_char(v)) == v,
{
}

pub fn digit_val(c: char) -> (v: u8)
    ensures
        v as int == spec_digit_val(c),
{
    match c {
        '0' => 0,
        '1' => 1,
        '2' => 2,
        '3' => 3,
        '4' => 4,
        '5' => 5,
        '6' => 6,
        '7' => 7,
        '8' => 8,
        '9' => 9,
        _ => 10,
    }
}

/// Whether every character of `s` is a decimal digit.
pub open spec fn spec_all_digits(s: Seq<char>) -> bool {
    forall|i: int| 0 <= i < s.len() ==> spec_digit_val(#[trigger] s[i]) < 10
}

/// The number the digit characters of `s` spell in decimal.
pub open spec fn spec_digits_val(s: Seq<char>) -> int
    decreases s.len(),
{
    if s.len() == 0 {
        0
    } else {
        spec_digits_val(s.drop_last()) * 10 + spec_digit_val(s.last())
    }
}

proof fn lemma_digits_val_nonneg(s: Seq<char>)
    ensures
        spec_digits_val(s) >= 0,
    decreases s.len(),
{
    if s.len() > 0 {
        lemma_digits_val_nonneg(s.drop_last());
    }
}

proof fn lemma_digits_val_prefix(s: Seq<char>, i: int)
    requires
        0 <= i <= s.len(),
    ensures
        spec_digits_val(s.subrange(0, i)) <= spec_digits_val(s),
    decreases s.len() - i,
{
    if i == s.len() {
        assert(s.subrange(0, i) =~= s);
    } else {
        assert(s.subrange(0, i + 1).drop_last() =~= s.subrange(0, i));
        assert(s.subrange(0, i + 1).last() == s[i]);
        lemma_digits_val_nonneg(s.subrange(0, i));
        lemma_digits_val_prefix(s, i + 1);
    }
}

/// What parsing `s` as an unsigned decimal number yields: its value when
/// `s` is one or more digits spelling a number that fits, else nothing.
pub open spec fn spec_parse_u64(s: Seq<char>) -> Option<u64> {
    if s.len() > 0 && spec_all_digits(s) && spec_digits_val(s) <= u64::MAX {
        Some(spec_digits_val(s) as u64)
    } else {
        None
    }
}

/// Parses `s` as an unsigned decimal number.
pub fn parse_u64(s: &str) -> (r: Option<u64>)
    ensures
        r == spec_parse_u64(s@),
{
    let n = s.unicode_len();
    if n == 0 {
        return None;
    }
    let mut acc: u64 = 0;
    let mut i: usize = 0;
    while i < n
        invariant
            n == s@.len(),
            0 <= i <= n,
            spec_all_digits(s@.subrange(0, i as int)),
            acc == spec_digits_val(s@.subrange(0, i as int)),
        decreases n - i,
    {
        let c = s.get_char(i);
        let v = digit_val(c);
        proof {
            assert(s@.subrange(0, i + 1).drop_last() =~= s@.subrange(0, i as int));
            assert(s@.subrange(0, i + 1).last() == s@[i as int]);
        }
        if v >= 10 {
            proof {
                assert(spec_digit_val(s@[i as int]) >= 10);
                assert(!spec_all_digits(s@));
            }
            return None;
        }
        if acc > (u64::MAX - (v as u64)) / 10 {
            proof {
                let m = u64::MAX - (v as u64);
                assert(m == (m / 10) * 10 + m % 10) by {
                    vstd::arithmetic::div_mod::lemma_fundamental_div_mod(m as int, 10);
                }
                assert(m % 10 <= 9);
                assert(acc * 10 >= (m / 10) * 10 + 10) by (nonlinear_arith)
                    requires
                        acc >= m / 10 + 1,
                {
                }
                assert(acc * 10 + v > u64::MAX);
                assert(spec_digits_val(s@.subrange(0, i + 1)) > u64::MAX);
                lemma_digits_val_prefix(s@, i + 1);
                assert(s@.subrange(0, s@.len() as int) =~= s@);
                assert(spec_digits_val(s@) > u64::MAX);
            }
            return None;
        }
        proof {
            assert(acc * 10 + v <= u64::MAX) by {
                let m = u64::MAX - (v as u64);
                assert(m == (m / 10) * 10 + m % 10) by {
                    vstd::arithmetic::div_mod::lemma_fundamental_div_mod(m as int, 10);
                }
                assert(acc * 10 <= (m / 10) * 10) by (nonlinear_arith)
                    requires
                        acc <= m / 10,
                {
                }
            }
        }
        acc = acc * 10 + (v as u64);
        i += 1;
    }
    proof {
        assert(s@.subrange(0, n as int) =~= s@);
    }
    Some(acc)
}

/// Splitting `s` on `delim`: the pieces between the delimiters, in order,
/// each possibly empty; one more piece than there are delimiters.
pub open spec fn spec_split(s: Seq<char>, delim: char) -> Seq<Seq<char>>
    decreases s.len(),
{
    if s.len() == 0 {
        seq![Seq::<char>::empty()]
    } else if s.last() == delim {
        spec_split(s.drop_last(), delim).push(Seq::<char>::empty())
    } else {
        let r = spec_split(s.drop_last(), delim);
        r.update(r.len() - 1, r.last().push(s.last()))
    }
}

/// Splits `s` on the delimiter character, never losing or trimming text:
/// the pieces joined by the delimiter again spell `s`.
pub fn split_on(s: &str, delim: char) -> (r: Vec<String>)
    ensures
        r@.map_values(|t: String| t@) == spec_split(s@, delim),
{
    let n = s.unicode_len();
    let mut pieces: Vec<String> = Vec::new();
    let mut start: usize = 0;
    let mut i: usize = 0;
    proof {
        assert(s@.subrange(0, 0) =~= Seq::<char>::empty());
        assert(pieces@.map_values(|t: String| t@).push(s@.subrange(0, 0))
            =~= seq![Seq::<char>::empty()]);
    }
    while i < n
        invariant
            n == s@.len(),
            0 <= start <= i <= n,
            spec_split(s@.subrange(0, i as int), delim)
                == pieces@.map_values(|t: String| t@).push(
                    s@.subrange(start as int, i as int)),
        decreases n - i,
    {
        let ghost pre = s@.subrange(0, i as int);
        let ghost cur = s@.subrange(start as int, i as int);
        let c = s.get_char(i);
        proof {
            assert(s@.subrange(0, i + 1).drop_last() =~= pre);
            assert(s@.subrange(0, i + 1).last() == s@[i as int]);
        }
        if c == delim {
            let piece = s.substring_char(start, i).to_owned();
            proof {
                assert(piece@ == cur);
                assert(spec_split(s@.subrange(0, i + 1), delim)
                    == spec_split(pre, delim).push(Seq::<char>::empty()));
                assert(pieces@.push(piece).map_values(|t: String| t@)
                    =~= pieces@.map_values(|t: String| t@).push(cur));
                assert(s@.subrange(i + 1, i + 1) =~= Seq::<char>::empty());
                assert(spec_split(s@.subrange(0, i + 1), delim)
                    =~= pieces@.push(piece).map_values(|t: String| t@).push(
                        s@.subrange(i + 1, i + 1)));
            }
            pieces.push(piece);
            start = i + 1;
        } else {
            proof {
                let r = spec_split(pre, delim);
                assert(r == pieces@.map_values(|t: String| t@).push(cur));
                assert(r.len() == pieces@.map_values(|t: String| t@).len() + 1);
                assert(r.last() == cur);
                assert(spec_split(s@.subrange(0, i + 1), delim)
                    == r.update(r.len() - 1, cur.push(s@[i as int])));
                assert(r.update(r.len() - 1, cur.push(s@[i as int]))
                    =~= pieces@.map_values(|t: String| t@).push(cur.push(s@[i as int])));
                assert(cur.push(s@[i as int]) =~= s@.subrange(start as int, i + 1));
            }
        }
        i += 1;
    }
    let piece = s.substring_char(start, n).to_owned();
    proof {
        assert(s@.subrange(0, n as int) =~= s@);
        assert(piece@ == s@.subrange(start as int, n as int));
        assert(pieces@.push(piece).map_values(|t: String| t@)
            =~= pieces@.map_values(|t: String| t@).push(piece@));
    }
    pieces.push(piece);
    pieces
}

/// Whether `c` is plain whitespace.
pub open spec fn spec_is_space(c: char) -> bool {
    c == ' ' || c == '\t' || c == '\r' || c == '\n'
}

/// Whether `s` holds nothing but whitespace.
pub open spec fn spec_is_blank(s: Seq<char>) -> bool {
    forall|i: int| 0 <= i < s.len() ==> spec_is_space(#[trigger] s[i])
}

/// Whether `s` holds nothing but whitespace.
pub fn is_blank(s: &str) -> (r: bool)
    ensures
        r == spec_is_blank(s@),
{
    let n = s.unicode_len();
    let mut i: usize = 0;
    while i < n
        invariant
            n == s@.len(),
            0 <= i <= n,
            forall|k: int| 0 <= k < i ==> spec_is_space(#[trigger] s@[k]),
        decreases n - i,
    {
        let c = s.get_char(i);
        if !(c == ' ' || c == '\t' || c == '\r' || c == '\n') {
            return false;
        }
        i += 1;
    }
    true
}

} // verus!
