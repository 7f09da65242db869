//! Verified text primitives: character-wise string equality and the exact
//! grammar of the operator's numeric arguments (decimal line numbers and
//! `*0x` hexadecimal address literals).

use vstd::prelude::*;

verus! {

/// Whether `c` is a decimal digit.
pub open spec fn is_dec_digit(c: char) -> bool {
    '0' <= c && c <= '9'
}

/// Whether `c` is a hexadecimal digit, either case.
pub open spec fn is_hex_digit(c: char) -> bool {
    is_dec_digit(c) || ('a' <= c && c <= 'f') || ('A' <= c && c <= 'F')
}

/// The numeric value of a digit character (0 for non-digits).
pub open spec fn hex_digit_val(c: char) -> nat {
    if is_dec_digit(c) {
        (c as nat - '0' as nat) as nat
    } else if 'a' <= c && c <= 'f' {
        (c as nat - 'a' as nat + 10) as nat
    } else if 'A' <= c && c <= 'F' {
        (c as nat - 'A' as nat + 10) as nat
    } else {
        0
    }
}

/// The value of `s` read as a base-`radix` numeral, most significant digit
/// first.
pub open spec fn num_val(s: Seq<char>, radix: nat) -> nat
    decreases s.len(),
{
    if s.len() == 0 {
        0
    } else {
        num_val(s.drop_last(), radix) * radix + hex_digit_val(s.last())
    }
}

/// Whether every character of `s` is a digit of base `radix` (only 10 and 16
/// are used).
pub open spec fn all_digits(s: Seq<char>, radix: nat) -> bool {
    forall|i: int|
        0 <= i < s.len() ==> (if radix == 10 {
            is_dec_digit(s[i])
        } else {
            is_hex_digit(s[i])
        })
}

/// Appending digits never decreases the value of a numeral.
proof fn lemma_num_val_monotone(s: Seq<char>, i: int, j: int, radix: nat)
    requires
        0 <= i <= j <= s.len(),
        radix >= 1,
    ensures
        num_val(s.subrange(0, j), radix) >= num_val(s.subrange(0, i), radix),
    decreases j - i,
{
    if i < j {
        lemma_num_val_monotone(s, i, j - 1, radix);
        let p = s.subrange(0, j);
        assert(p.drop_last() =~= s.subrange(0, j - 1));
        assert(num_val(p, radix) == num_val(p.drop_last(), radix) * radix + hex_digit_val(
            p.last(),
        ));
        assert(num_val(p.drop_last(), radix) * radix >= num_val(p.drop_last(), radix)) by (
        nonlinear_arith)
            requires
                radix >= 1,
                num_val(p.drop_last(), radix) >= 0,
        ;
    } else {
        assert(s.subrange(0, i) =~= s.subrange(0, j));
    }
}

/// Character-wise string equality; two strings are equal exactly when their
/// character sequences are.
pub fn str_eq(a: &str, b: &str) -> (r: bool)
    ensures
        r == (a@ == b@),
{
    let alen = a.unicode_len();
    let blen = b.unicode_len();
    if alen != blen {
        proof {
            assert(a@ != b@);
        }
        return false;
    }
    let mut i: usize = 0;
    while i < alen
        invariant
            alen == a@.len(),
            alen == b@.len(),
            i <= alen,
            forall|k: int| 0 <= k < i ==> a@[k] == b@[k],
        decreases alen - i,
    {
        if a.get_char(i) != b.get_char(i) {
            return false;
        }
        i = i + 1;
    }
    proof {
        assert(a@ =~= b@);
    }
    true
}

/// Parses the characters of `s` from position `from` on as a numeral of base
/// `radix` (10 or 16). `None` exactly when there is no digit, a character is
/// not a digit of the base, or the value does not fit in a machine word.
pub fn parse_radix(s: &str, from: usize, radix: usize) -> (r: Option<usize>)
    requires
        from <= s@.len(),
        radix == 10 || radix == 16,
    ensures
        r is Some <==> (from < s@.len() && all_digits(s@.skip(from as int), radix as nat)
            && num_val(s@.skip(from as int), radix as nat) <= usize::MAX),
        r is Some ==> r == Some(
            (num_val(s@.skip(from as int), radix as nat) as usize),
        ),
{
    let len = s.unicode_len();
    if from >= len {
        return None;
    }
    let ghost tail = s@.skip(from as int);
    let mut acc: usize = 0;
    let mut i: usize = from;
    while i < len
        invariant
            from <= i <= len,
            len == s@.len(),
            from < len,
            radix == 10 || radix == 16,
            tail == s@.skip(from as int),
            all_digits(s@.subrange(from as int, i as int), radix as nat),
            acc == num_val(s@.subrange(from as int, i as int), radix as nat),
        decreases len - i,
    {
        let c = s.get_char(i);
        let d: usize = char_digit_val(c, radix == 16);
        if d >= radix {
            proof {
                assert(tail[i - from] == c);
            }
            return None;
        }
        let limit = (usize::MAX - d) / radix;
        if acc > limit {
            proof {
                let pre = s.view().subrange(from as int, i as int + 1);
                assert(pre.drop_last() =~= s@.subrange(from as int, i as int));
                assert(pre.last() == c);
                assert(num_val(pre, radix as nat) > usize::MAX) by (nonlinear_arith)
                    requires
                        num_val(pre, radix as nat) == num_val(pre.drop_last(), radix as nat) * (
                        radix as nat) + hex_digit_val(pre.last()),
                        num_val(pre.drop_last(), radix as nat) > (usize::MAX - hex_digit_val(
                            pre.last(),
                        )) / (radix as int),
                        hex_digit_val(pre.last()) <= usize::MAX,
                        radix == 10 || radix == 16,
                ;
                lemma_num_val_skip_prefix(s@, from as int, i as int + 1, radix as nat);
            }
            return None;
        }
        proof {
            assert(acc * radix + d <= usize::MAX) by (nonlinear_arith)
                requires
                    acc <= (usize::MAX - d) / (radix as int),
                    radix >= 1,
                    d >= 0,
            ;
        }
        acc = acc * radix + d;
        proof {
            let pre = s.view().subrange(from as int, i as int + 1);
            assert(pre.drop_last() =~= s@.subrange(from as int, i as int));
            assert(pre.last() == c);
            assert(hex_digit_val(c) == d);
        }
        i = i + 1;
    }
    proof {
        assert(s@.subrange(from as int, len as int) =~= tail);
    }
    Some(acc)
}

/// A token beginning with `*` is an address argument (whether or not the
/// rest of it is a well-formed literal).
pub open spec fn is_address_form(t: Seq<char>) -> bool {
    t.len() >= 1 && t[0] == '*'
}

/// A token that reads as a non-negative decimal integer fitting a machine
/// word: a source line number.
pub open spec fn is_line_form(t: Seq<char>) -> bool {
    t.len() >= 1 && all_digits(t, 10) && num_val(t, 10) <= usize::MAX
}

/// A well-formed address literal: `*0x` (the `x` in either case) followed
/// by at least one hexadecimal digit, the value fitting a machine word.
pub open spec fn addr_literal_ok(t: Seq<char>) -> bool {
    &&& t.len() > 3
    &&& t[0] == '*'
    &&& t[1] == '0'
    &&& (t[2] == 'x' || t[2] == 'X')
    &&& all_digits(t.skip(3), 16)
    &&& num_val(t.skip(3), 16) <= usize::MAX
}

/// Parses a breakpoint address literal: `*0x` followed by hexadecimal
/// digits. `None` exactly when the token is not a well-formed literal.
pub fn parse_address(s: &str) -> (r: Option<usize>)
    ensures
        r is Some <==> addr_literal_ok(s@),
        r is Some ==> r == Some((num_val(s@.skip(3), 16) as usize)),
{
    let len = s.unicode_len();
    if len < 4 {
        return None;
    }
    let c0 = s.get_char(0);
    let c1 = s.get_char(1);
    let c2 = s.get_char(2);
    if c0 != '*' || c1 != '0' || (c2 != 'x' && c2 != 'X') {
        return None;
    }
    parse_radix(s, 3, 16)
}

/// The numeric value of a digit character for the given base; 99 when the
/// character is not a digit of that base.
fn char_digit_val(c: char, hex: bool) -> (d: usize)
    ensures
        (hex && is_hex_digit(c)) || (!hex && is_dec_digit(c)) ==> d == hex_digit_val(c),
        !((hex && is_hex_digit(c)) || (!hex && is_dec_digit(c))) ==> d == 99,
{
    if c >= '0' && c <= '9' {
        (c as usize) - ('0' as usize)
    } else if hex && c >= 'a' && c <= 'f' {
        (c as usize) - ('a' as usize) + 10
    } else if hex && c >= 'A' && c <= 'F' {
        (c as usize) - ('A' as usize) + 10
    } else {
        99
    }
}

/// If a prefix of the digits already exceeds the word range, the whole
/// numeral does.
proof fn lemma_num_val_skip_prefix(s: Seq<char>, from: int, upto: int, radix: nat)
    requires
        0 <= from <= upto <= s.len(),
        radix >= 1,
        num_val(s.subrange(from, upto), radix) > usize::MAX,
    ensures
        num_val(s.skip(from), radix) > usize::MAX,
{
    let tail = s.skip(from);
    lemma_num_val_monotone(tail, upto - from, tail.len() as int, radix);
    assert(tail.subrange(0, upto - from) =~= s.subrange(from, upto));
    assert(tail.subrange(0, tail.len() as int) =~= tail);
}

/// Appends the decimal rendering of `n` to `out`.
pub(crate) fn push_number(out: &mut String, n: usize)
    decreases n,
{
    proof {
        reveal_strlit("0123456789");
    }
    let digits = "0123456789";
    if n >= 10 {
        push_number(out, n / 10);
    }
    let d = n % 10;
    let piece = digits.substring_ascii(d, d + 1);
    out.append(piece);
}

} // verus!
