//! Identifiers in the canonical 8-4-4-4-12 hexadecimal form, version 4.
use vstd::prelude::*;
use std::hash::BuildHasher;

verus! {

/// The lowercase hexadecimal digit for `d` (taken modulo 16).
pub open spec fn hex_char(d: nat) -> char {
    let d = d % 16;
    if d < 10 {
        (('0' as u8) + d) as char
    } else {
        (('a' as u8) + (d - 10)) as char
    }
}

pub open spec fn is_hex_char(c: char) -> bool {
    ('0' <= c && c <= '9') || ('a' <= c && c <= 'f')
}

/// The last `n` hexadecimal digits of `v`, most significant first.
pub open spec fn hex_digits(v: nat, n: nat) -> Seq<char>
    decreases n,
{
    if n == 0 {
        Seq::empty()
    } else {
        hex_digits(v / 16, (n - 1) as nat).push(hex_char(v % 16))
    }
}

/// The text of the version-4 identifier made of the 64-bit halves `hi` and `lo`:
/// the version digit is fixed to `4` and the variant digit to one of `8 9 a b`.
pub open spec fn uuid_text(hi: u64, lo: u64) -> Seq<char> {
    hex_digits(hi as nat / 0x1_0000_0000, 8) + "-"@ + hex_digits(hi as nat / 0x1_0000, 4) + "-"@
        + "4"@ + hex_digits(hi as nat, 3) + "-"@ + hex_digits(8 + (lo as nat / 0x1000_0000_0000_0000) % 4, 1)
        + hex_digits(lo as nat / 0x1_0000_0000_0000, 3) + "-"@ + hex_digits(lo as nat, 12)
}

/// Canonical textual form: 36 characters, hyphens at 8, 13, 18 and 23, lowercase
/// hexadecimal digits everywhere else.
pub open spec fn is_canonical_uuid(s: Seq<char>) -> bool {
    &&& s.len() == 36
    &&& forall|i: int|
        0 <= i < 36 ==> if i == 8 || i == 13 || i == 18 || i == 23 {
            #[trigger] s[i] == '-'
        } else {
            is_hex_char(s[i])
        }
}

pub proof fn lemma_hex_digits_shape(v: nat, n: nat)
    ensures
        hex_digits(v, n).len() == n,
        forall|i: int| 0 <= i < n ==> is_hex_char(#[trigger] hex_digits(v, n)[i]),
    decreases n,
{
    if n > 0 {
        lemma_hex_digits_shape(v / 16, (n - 1) as nat);
        let d = v % 16;
        assert(is_hex_char(hex_char(d)));
    }
}

proof fn lemma_hex_char_injective(a: nat, b: nat)
    requires
        a < 16,
        b < 16,
        hex_char(a) == hex_char(b),
    ensures
        a == b,
{
}

/// Two values below `16^n` with the same `n` digits are equal.
pub proof fn lemma_hex_digits_injective(a: nat, b: nat, n: nat)
    requires
        hex_digits(a, n) == hex_digits(b, n),
        a < pow16(n),
        b < pow16(n),
    ensures
        a == b,
    decreases n,
{
    if n > 0 {
        let m = (n - 1) as nat;
        let pa = hex_digits(a / 16, m);
        let pb = hex_digits(b / 16, m);
        lemma_hex_digits_shape(a / 16, m);
        lemma_hex_digits_shape(b / 16, m);
        assert(hex_digits(a, n) == pa.push(hex_char(a % 16)));
        assert(pa =~= hex_digits(a, n).drop_last());
        assert(pb =~= hex_digits(b, n).drop_last());
        assert(hex_char(a % 16) == hex_digits(a, n).last());
        lemma_hex_char_injective(a % 16, b % 16);
        assert(a / 16 < pow16(m)) by {
            assert(pow16(n) == 16 * pow16(m));
        }
        assert(b / 16 < pow16(m)) by {
            assert(pow16(n) == 16 * pow16(m));
        }
        lemma_hex_digits_injective(a / 16, b / 16, m);
    }
}

pub open spec fn pow16(n: nat) -> nat
    decreases n,
{
    if n == 0 {
        1
    } else {
        16 * pow16((n - 1) as nat)
    }
}

pub proof fn lemma_uuid_text_canonical(hi: u64, lo: u64)
    ensures
        is_canonical_uuid(uuid_text(hi, lo)),
{
    lemma_hex_digits_shape(hi as nat / 0x1_0000_0000, 8);
    lemma_hex_digits_shape(hi as nat / 0x1_0000, 4);
    lemma_hex_digits_shape(hi as nat, 3);
    lemma_hex_digits_shape(8 + (lo as nat / 0x1000_0000_0000_0000) % 4, 1);
    lemma_hex_digits_shape(lo as nat / 0x1_0000_0000_0000, 3);
    lemma_hex_digits_shape(lo as nat, 12);
    reveal_strlit("-");
    reveal_strlit("4");
    let s = uuid_text(hi, lo);
    assert(s.len() == 36);
    assert forall|i: int| 0 <= i < 36 implies if i == 8 || i == 13 || i == 18 || i == 23 {
        #[trigger] s[i] == '-'
    } else {
        is_hex_char(s[i])
    } by {}
}

/// Identifiers with one high half and low halves below `2^48` differ when
/// the low halves differ.
pub proof fn lemma_uuid_text_distinct(hi: u64, a: u64, b: u64)
    requires
        a < 0x1_0000_0000_0000,
        b < 0x1_0000_0000_0000,
        a != b,
    ensures
        uuid_text(hi, a) != uuid_text(hi, b),
{
    if uuid_text(hi, a) == uuid_text(hi, b) {
        lemma_hex_digits_shape(a as nat, 12);
        lemma_hex_digits_shape(b as nat, 12);
        let ta = uuid_text(hi, a);
        let tb = uuid_text(hi, b);
        lemma_uuid_text_canonical(hi, a);
        assert(hex_digits(a as nat, 12) =~= ta.subrange(24, 36));
        assert(hex_digits(b as nat, 12) =~= tb.subrange(24, 36));
        assert(pow16(12) == 0x1_0000_0000_0000) by {
            reveal_with_fuel(pow16, 13);
        }
        lemma_hex_digits_injective(a as nat, b as nat, 12);
    }
}

/// The digit string for one hexadecimal digit value.
fn hex_digit_str(d: u64) -> (r: &'static str)
    requires
        d < 16,
    ensures
        r@ == seq![hex_char(d as nat)],
{
    let digits = "0123456789abcdef";
    proof {
        reveal_strlit("0123456789abcdef");
    }
    assert(digits.is_ascii());
    let r = digits.substring_ascii(d as usize, d as usize + 1);
    assert(r@ =~= seq![hex_char(d as nat)]);
    r
}

/// Appends the last `n` hexadecimal digits of `v`.
fn push_hex(out: &mut String, v: u64, n: u64)
    ensures
        final(out)@ == old(out)@ + hex_digits(v as nat, n as nat),
    decreases n,
{
    if n > 0 {
        push_hex(out, v / 16, n - 1);
        out.append(hex_digit_str(v % 16));
        assert(hex_digits(v as nat, n as nat) == hex_digits(v as nat / 16, (n - 1) as nat).push(
            hex_char(v as nat % 16),
        ));
        assert(final(out)@ =~= old(out)@ + hex_digits(v as nat, n as nat));
    } else {
        assert(final(out)@ =~= old(out)@ + hex_digits(v as nat, n as nat));
    }
}

/// Formats the 128 bits `hi`, `lo` as a version-4 identifier.
pub fn format_uuid(hi: u64, lo: u64) -> (r: String)
    ensures
        r@ == uuid_text(hi, lo),
        is_canonical_uuid(r@),
{
    let mut out = String::new();
    push_hex(&mut out, hi / 0x1_0000_0000, 8);
    out.append("-");
    push_hex(&mut out, hi / 0x1_0000, 4);
    out.append("-");
    out.append("4");
    push_hex(&mut out, hi, 3);
    out.append("-");
    push_hex(&mut out, 8 + (lo / 0x1000_0000_0000_0000) % 4, 1);
    push_hex(&mut out, lo / 0x1_0000_0000_0000, 3);
    out.append("-");
    push_hex(&mut out, lo, 12);
    proof {
        lemma_uuid_text_canonical(hi, lo);
    }
    out
}

/// Relies on std's `RandomState::new` and `BuildHasher::hash_one`: every
/// `RandomState` is keyed afresh from the process's random keys, so the hash of
/// a constant varies between calls and runs. Nothing is promised of the value.
#[verifier::external_body]
pub(crate) fn random_u64() -> (r: u64) {
    std::collections::hash_map::RandomState::new().hash_one(0u8)
}

/// A fresh version-4 identifier with random bits.
pub fn generate_uuid() -> (r: String)
    ensures
        is_canonical_uuid(r@),
{
    let hi = random_u64();
    let lo = random_u64();
    format_uuid(hi, lo)
}

} // verus!
