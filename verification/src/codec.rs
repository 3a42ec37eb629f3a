//! Text codecs used by the escrow engine: hexadecimal strings (for
//! hashlocks), decimal strings (for event attributes), and the optional
//! `0x` prefix of a hashlock.

use vstd::prelude::*;
use vstd::string::StrSliceExecFns;

verus! {

/// A hexadecimal digit, upper or lower case.
pub open spec fn is_hex_digit(c: char) -> bool {
    (48 <= (c as u32) && (c as u32) <= 57)  // '0' ..= '9'
    || (97 <= (c as u32) && (c as u32) <= 102)  // 'a' ..= 'f'
    || (65 <= (c as u32) && (c as u32) <= 70)  // 'A' ..= 'F'
}

/// The numeric value of a hexadecimal digit (garbage on other characters,
/// which no caller relies on).
pub open spec fn hex_val(c: char) -> u8 {
    if 48 <= (c as u32) && (c as u32) <= 57 {
        ((c as u32) - 48) as u8
    } else if 97 <= (c as u32) && (c as u32) <= 102 {
        ((c as u32) - 87) as u8
    } else {
        ((c as u32) - 55) as u8
    }
}

/// The lower-case hexadecimal digit for a value below 16.
pub open spec fn hex_char(v: u8) -> char {
    if v < 10 {
        ((v + 48) as u8) as char
    } else {
        ((v + 87) as u8) as char
    }
}

/// A string that `hex` decodes: even length, hexadecimal digits throughout.
pub open spec fn valid_hex(s: Seq<char>) -> bool {
    &&& s.len() % 2 == 0
    &&& forall|i: int| 0 <= i < s.len() ==> is_hex_digit(#[trigger] s[i])
}

/// The bytes denoted by a hexadecimal string, two digits per byte.
pub open spec fn hex_bytes(s: Seq<char>) -> Seq<u8>
    decreases s.len(),
{
    if s.len() < 2 {
        Seq::empty()
    } else {
        seq![((hex_val(s[0]) * 16 + hex_val(s[1])) as u8)] + hex_bytes(s.skip(2))
    }
}

/// The canonical lower-case hexadecimal rendering of a byte sequence.
pub open spec fn hex_chars(data: Seq<u8>) -> Seq<char>
    decreases data.len(),
{
    if data.len() == 0 {
        Seq::empty()
    } else {
        seq![hex_char((data[0] / 16) as u8), hex_char((data[0] % 16) as u8)]
            + hex_chars(data.drop_first())
    }
}

pub proof fn lemma_hex_chars_len(data: Seq<u8>)
    ensures
        hex_chars(data).len() == 2 * data.len(),
    decreases data.len(),
{
    if data.len() > 0 {
        lemma_hex_chars_len(data.drop_first());
    }
}

/// Distinct byte values have distinct digit pairs.
proof fn lemma_hex_char_pair_injective(a: u8, b: u8)
    ensures
        hex_char((a / 16) as u8) == hex_char((b / 16) as u8) && hex_char(
            (a % 16) as u8,
        ) == hex_char((b % 16) as u8) ==> a == b,
{
}

/// The canonical hexadecimal rendering is injective: equal renderings come
/// from equal byte sequences.
pub proof fn lemma_hex_chars_injective(a: Seq<u8>, b: Seq<u8>)
    requires
        hex_chars(a) == hex_chars(b),
    ensures
        a == b,
    decreases a.len(),
{
    lemma_hex_chars_len(a);
    lemma_hex_chars_len(b);
    if a.len() == 0 {
        assert(a =~= b);
    } else {
        assert(hex_chars(a)[0] == hex_char((a[0] / 16) as u8));
        assert(hex_chars(a)[1] == hex_char((a[0] % 16) as u8));
        assert(hex_chars(b)[0] == hex_char((b[0] / 16) as u8));
        assert(hex_chars(b)[1] == hex_char((b[0] % 16) as u8));
        lemma_hex_char_pair_injective(a[0], b[0]);
        assert(a[0] == b[0]);
        assert(hex_chars(a).skip(2) =~= hex_chars(a.drop_first()));
        assert(hex_chars(b).skip(2) =~= hex_chars(b.drop_first()));
        lemma_hex_chars_injective(a.drop_first(), b.drop_first());
        assert forall|i: int| 0 <= i < a.len() implies a[i] == b[i] by {
            if i > 0 {
                assert(a[i] == a.drop_first()[i - 1]);
                assert(b[i] == b.drop_first()[i - 1]);
            }
        }
        assert(a =~= b);
    }
}

/// Relies on `hex::decode`: it succeeds exactly on even-length strings of
/// hexadecimal digits (either case) and returns the bytes they denote.
#[verifier::external_body]
pub fn hex_decode(s: &str) -> (r: Option<Vec<u8>>)
    ensures
        r is Some <==> valid_hex(s@),
        r is Some ==> r.unwrap()@ == hex_bytes(s@),
{
    match hex::decode(s) {
        Ok(v) => Some(v),
        Err(_) => None,
    }
}

/// Relies on `hex::encode`: two lower-case digits for each input byte.
#[verifier::external_body]
pub fn hex_encode(data: &[u8]) -> (r: String)
    ensures
        r@ == hex_chars(data@),
{
    hex::encode(data)
}

/// The decimal digit character for a value below 10.
pub open spec fn dec_digit(d: int) -> char {
    ((d + 48) as u8) as char
}

/// The canonical decimal rendering of a natural number, no leading zeros.
pub open spec fn dec_str(n: nat) -> Seq<char>
    decreases n,
{
    if n < 10 {
        seq![dec_digit(n as int)]
    } else {
        dec_str(n / 10).push(dec_digit((n % 10) as int))
    }
}

/// Relies on `String::push` in alloc: it appends one character.
pub assume_specification[ String::push ](s: &mut String, c: char)
    ensures
        final(s)@ == old(s)@.push(c),
;

/// The rendering of decimal digit values, lowest digit first, into the text
/// that reads highest digit first.
pub open spec fn digits_to_str(ds: Seq<u8>) -> Seq<char>
    decreases ds.len(),
{
    if ds.len() == 0 {
        Seq::empty()
    } else {
        seq![dec_digit(ds.last() as int)] + digits_to_str(ds.drop_last())
    }
}

/// Renders a number as its canonical decimal text.
pub fn u128_to_string(n: u128) -> (r: String)
    ensures
        r@ == dec_str(n as nat),
{
    let mut digits: Vec<u8> = Vec::new();
    let mut m: u128 = n;
    proof {
        assert(digits@ =~= Seq::<u8>::empty());
    }
    loop
        invariant_except_break
            m <= n,
            digits@.len() > 0 ==> m > 0,
            forall|j: int| 0 <= j < digits@.len() ==> (#[trigger] digits@[j]) < 10,
            (digits@.len() == 0 && m == n) || dec_str(n as nat) == (if m > 0 {
                dec_str(m as nat) + digits_to_str(digits@)
            } else {
                digits_to_str(digits@)
            }),
        ensures
            dec_str(n as nat) == digits_to_str(digits@),
            digits@.len() > 0,
            forall|j: int| 0 <= j < digits@.len() ==> (#[trigger] digits@[j]) < 10,
        decreases m,
    {
        let ghost before = digits@;
        let ghost m0 = m;
        let d: u8 = (m % 10) as u8;
        digits.push(d);
        m = m / 10;
        proof {
            assert(digits@.last() == d);
            assert(digits@.drop_last() =~= before);
            assert(digits_to_str(digits@) == seq![dec_digit(d as int)] + digits_to_str(before));
            if before.len() == 0 && m0 == n {
                if n >= 10 {
                    assert(dec_str(n as nat) == dec_str((n as nat) / 10).push(
                        dec_digit(((n as nat) % 10) as int),
                    ));
                    assert(dec_str((n as nat) / 10).push(dec_digit(d as int)) =~= dec_str(
                        (n as nat) / 10,
                    ) + digits_to_str(digits@));
                    assert(digits_to_str(before) =~= Seq::<char>::empty());
                } else {
                    assert(dec_str(n as nat) == seq![dec_digit(n as int)]);
                    assert(dec_str(n as nat) =~= digits_to_str(digits@));
                }
            } else {
                if m0 >= 10 {
                    assert(dec_str(m0 as nat) == dec_str((m0 as nat) / 10).push(
                        dec_digit(((m0 as nat) % 10) as int),
                    ));
                    assert(dec_str((m0 as nat) / 10).push(dec_digit(d as int)) + digits_to_str(
                        before,
                    ) =~= dec_str((m0 as nat) / 10) + digits_to_str(digits@));
                } else {
                    assert(dec_str(m0 as nat) == seq![dec_digit(m0 as int)]);
                    assert(seq![dec_digit(d as int)] + digits_to_str(before) =~= digits_to_str(
                        digits@,
                    ));
                }
            }
        }
        if m == 0 {
            break;
        }
    }
    let mut r = String::new();
    let total = digits.len();
    let mut i: usize = total;
    proof {
        assert(digits@.take(total as int) =~= digits@);
        assert(Seq::<char>::empty() + digits_to_str(digits@) =~= digits_to_str(digits@));
    }
    while i > 0
        invariant
            0 <= i <= total,
            total == digits@.len(),
            forall|j: int| 0 <= j < digits@.len() ==> (#[trigger] digits@[j]) < 10,
            digits_to_str(digits@) == r@ + digits_to_str(digits@.take(i as int)),
        decreases i,
    {
        let ghost before = r@;
        let d = digits[i - 1];
        r.push((48 + d) as char);
        i = i - 1;
        proof {
            assert(digits@.take(i as int + 1).last() == digits@[i as int]);
            assert(digits@.take(i as int + 1).drop_last() =~= digits@.take(i as int));
            assert(digits_to_str(digits@.take(i as int + 1)) == seq![dec_digit(d as int)]
                + digits_to_str(digits@.take(i as int)));
            assert(before + digits_to_str(digits@.take(i as int + 1)) =~= r@ + digits_to_str(
                digits@.take(i as int),
            ));
        }
    }
    proof {
        assert(digits@.take(0) =~= Seq::<u8>::empty());
        assert(r@ + Seq::<char>::empty() =~= r@);
    }
    r
}

/// Relies on `str`'s `PartialEq` in core: equality of the character
/// sequences.
pub assume_specification[ <str as PartialEq>::eq ](a: &str, b: &str) -> (r: bool)
    ensures
        r == (a@ == b@),
;

/// Whether two texts hold the same characters.
pub fn str_eq(a: &str, b: &str) -> (r: bool)
    ensures
        r == (a@ == b@),
{
    a.eq(b)
}

/// Lexicographic order on texts, by character codepoint: whether `a` sorts
/// at or before `b`.
pub open spec fn text_le(a: Seq<char>, b: Seq<char>) -> bool
    decreases a.len(),
{
    if a.len() == 0 {
        true
    } else if b.len() == 0 {
        false
    } else if a[0] != b[0] {
        (a[0] as u32) < (b[0] as u32)
    } else {
        text_le(a.drop_first(), b.drop_first())
    }
}

/// An equal prefix does not decide the order: it is settled by what
/// follows.
proof fn lemma_text_le_common_prefix(a: Seq<char>, b: Seq<char>, i: int)
    requires
        0 <= i <= a.len(),
        i <= b.len(),
        forall|j: int| 0 <= j < i ==> a[j] == b[j],
    ensures
        text_le(a, b) == text_le(a.skip(i), b.skip(i)),
    decreases i,
{
    if i == 0 {
        assert(a.skip(0) =~= a);
        assert(b.skip(0) =~= b);
    } else {
        assert(a[0] == b[0]);
        lemma_text_le_common_prefix(a.drop_first(), b.drop_first(), i - 1);
        assert(a.drop_first().skip(i - 1) =~= a.skip(i));
        assert(b.drop_first().skip(i - 1) =~= b.skip(i));
    }
}

/// Whether `a` sorts at or before `b`, by character codepoint.
pub fn str_le(a: &str, b: &str) -> (r: bool)
    ensures
        r == text_le(a@, b@),
{
    let na: usize = a.unicode_len();
    let nb: usize = b.unicode_len();
    let mut i: usize = 0;
    while i < na && i < nb
        invariant
            0 <= i <= na,
            i <= nb,
            na == a@.len(),
            nb == b@.len(),
            forall|j: int| 0 <= j < i ==> a@[j] == b@[j],
        decreases na - i,
    {
        let ca = a.get_char(i);
        let cb = b.get_char(i);
        if ca != cb {
            proof {
                lemma_text_le_common_prefix(a@, b@, i as int);
                assert(a@.skip(i as int)[0] == ca);
                assert(b@.skip(i as int)[0] == cb);
            }
            return (ca as u32) < (cb as u32);
        }
        i = i + 1;
    }
    proof {
        lemma_text_le_common_prefix(a@, b@, i as int);
        if na <= nb {
            assert(a@.skip(i as int) =~= Seq::<char>::empty());
        } else {
            assert(b@.skip(i as int) =~= Seq::<char>::empty());
            assert(a@.skip(i as int).len() > 0);
        }
    }
    na <= nb
}

/// The text of a boolean value.
pub open spec fn bool_str(b: bool) -> Seq<char> {
    if b {
        "true"@
    } else {
        "false"@
    }
}

/// Renders a boolean as `true` or `false`.
pub fn bool_to_string(b: bool) -> (r: String)
    ensures
        r@ == bool_str(b),
{
    if b {
        "true".to_owned()
    } else {
        "false".to_owned()
    }
}

/// A hashlock text with one optional `0x` prefix removed.
pub open spec fn strip_hex_prefix(s: Seq<char>) -> Seq<char> {
    if s.len() >= 2 && s[0] == '0' && s[1] == 'x' {
        s.skip(2)
    } else {
        s
    }
}

/// Removes one leading `0x` from a hashlock text, if present.
pub fn strip_prefix_0x(s: &str) -> (r: &str)
    ensures
        r@ == strip_hex_prefix(s@),
{
    let n: usize = s.unicode_len();
    if n >= 2 && s.get_char(0) == '0' && s.get_char(1) == 'x' {
        s.substring_char(2, n)
    } else {
        s
    }
}

} // verus!
