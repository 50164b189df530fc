use vstd::prelude::*;
use vstd::arithmetic::power::pow;

verus! {

/// Value of a decimal digit character, or -1 for any other character.
pub open spec fn dec_val(c: char) -> int {
    let u = c as u32;
    if 48 <= u <= 57 {
        u - 48
    } else {
        -1
    }
}

/// Every character is a decimal digit.
pub open spec fn all_dec(s: Seq<char>) -> bool {
    forall|i: int| 0 <= i < s.len() ==> dec_val(s[i]) >= 0
}

/// The digit value of a character, with other characters counting as zero.
pub open spec fn dec_digit(c: char) -> nat {
    if dec_val(c) >= 0 {
        dec_val(c) as nat
    } else {
        0
    }
}

/// The number a decimal digit string denotes.
pub open spec fn nat_of_dec(s: Seq<char>) -> nat
    decreases s.len(),
{
    if s.len() == 0 {
        0
    } else {
        (nat_of_dec(s.drop_last()) * 10 + dec_digit(s.last())) as nat
    }
}

/// Whether one string begins with another.
pub fn str_starts_with(s: &str, p: &str) -> (r: bool)
    ensures
        r == (s@.len() >= p@.len() && s@.take(p@.len() as int) == p@),
{
    let n = s.unicode_len();
    let m = p.unicode_len();
    if n < m {
        return false;
    }
    let mut i: usize = 0;
    while i < m
        invariant
            i <= m,
            m <= n,
            n == s@.len(),
            m == p@.len(),
            forall|k: int| 0 <= k < i ==> s@[k] == p@[k],
        decreases m - i,
    {
        if s.get_char(i) != p.get_char(i) {
            proof {
                assert(s@.take(m as int)[i as int] == s@[i as int]);
            }
            return false;
        }
        i = i + 1;
    }
    proof {
        assert(s@.take(m as int) =~= p@);
    }
    true
}

/// Whether two byte vectors hold the same bytes.
pub fn bytes_eq(a: &Vec<u8>, b: &Vec<u8>) -> (r: bool)
    ensures
        r == (a@ == b@),
{
    let n = a.len();
    if n != b.len() {
        return false;
    }
    let mut i: usize = 0;
    while i < n
        invariant
            i <= n,
            n == a@.len(),
            n == b@.len(),
            forall|k: int| 0 <= k < i ==> a@[k] == b@[k],
        decreases n - i,
    {
        if a[i] != b[i] {
            return false;
        }
        i = i + 1;
    }
    proof {
        assert(a@ =~= b@);
    }
    true
}

/// Whether two strings hold the same characters.
pub fn str_eq(a: &str, b: &str) -> (r: bool)
    ensures
        r == (a@ == b@),
{
    let n = a.unicode_len();
    let m = b.unicode_len();
    if n != m {
        return false;
    }
    let mut i: usize = 0;
    while i < n
        invariant
            i <= n,
            n == a@.len(),
            n == b@.len(),
            forall|k: int| 0 <= k < i ==> a@[k] == b@[k],
        decreases n - i,
    {
        if a.get_char(i) != b.get_char(i) {
            return false;
        }
        i = i + 1;
    }
    proof {
        assert(a@ =~= b@);
    }
    true
}

/// Relies on String::push: appends exactly one character at the end.
#[verifier::external_body]
pub fn push_char(s: &mut String, c: char)
    ensures
        final(s)@ == old(s)@.push(c),
{
    s.push(c);
}

/// Writes a number in decimal, without leading zeros.
pub fn u64_to_string(n: u64) -> (r: String)
    ensures
        all_dec(r@),
        r@.len() > 0,
        nat_of_dec(r@) == n,
        n > 0 ==> dec_val(r@[0]) != 0,
{
    let mut digits: Vec<u8> = Vec::new();
    let mut m: u64 = n;
    if m == 0 {
        digits.push(0u8);
        proof {
            assert(digits@ =~= seq![0u8]);
        }
    } else {
        proof {
            vstd::arithmetic::power::lemma_pow0(10);
            assert(digits@.reverse() =~= Seq::<u8>::empty());
        }
        while m > 0
            invariant
                (m as int) * pow(10, digits@.len() as nat)
                    + crate::base58::nat_of_seq(digits@.reverse(), 10) == n,
                forall|i: int| 0 <= i < digits@.len() ==> digits@[i] < 10,
                digits@.len() > 0 ==> (digits@.last() != 0 || m > 0),
            decreases m,
        {
            let ghost pre = digits@;
            let ghost m0 = m as nat;
            let d: u8 = (m % 10) as u8;
            digits.push(d);
            m = m / 10;
            proof {
                vstd::arithmetic::div_mod::lemma_fundamental_div_mod(m0 as int, 10);
                assert(digits@.reverse() =~= seq![d] + pre.reverse());
                crate::base58::lemma_nat_of_seq_concat(seq![d], pre.reverse(), 10);
                crate::base58::lemma_singleton_value(d, 10);
                let p = pow(10, pre.len());
                assert(pow(10, digits@.len() as nat) == 10 * p) by {
                    vstd::arithmetic::power::lemma_pow1(10);
                    vstd::arithmetic::power::lemma_pow_adds(10, 1, pre.len());
                }
                assert(p >= 0) by {
                    vstd::arithmetic::power::lemma_pow_positive(10, pre.len());
                }
                assert((m as int) * (10 * p) + ((d as int) * p
                    + crate::base58::nat_of_seq(pre.reverse(), 10))
                    == (m0 as int) * p + crate::base58::nat_of_seq(pre.reverse(), 10))
                    by (nonlinear_arith)
                    requires m0 == (m as nat) * 10 + d;
                if m == 0 {
                    assert(d == m0 % 10 && m0 < 10 && m0 > 0);
                    assert(digits@.last() == d);
                }
            }
        }
        proof {
            vstd::arithmetic::power::lemma_pow_positive(10, digits@.len() as nat);
        }
    }
    let ghost dseq = digits@;
    let mut out = String::new();
    let mut j: usize = digits.len();
    while j > 0
        invariant
            j <= dseq.len(),
            digits@ == dseq,
            forall|i: int| 0 <= i < dseq.len() ==> dseq[i] < 10,
            out@.len() == dseq.len() - j,
            forall|i: int| 0 <= i < out@.len()
                ==> dec_val(out@[i]) == dseq.reverse()[i],
        decreases j,
    {
        j = j - 1;
        let d = digits[j];
        let c = (d + 48) as char;
        push_char(&mut out, c);
        proof {
            assert(dseq.reverse()[dseq.len() - 1 - j] == dseq[j as int]);
        }
    }
    proof {
        let rev = dseq.reverse();
        assert forall|i: int| 0 <= i < out@.len() implies dec_val(out@[i]) >= 0 by {
            assert(dec_val(out@[i]) == rev[i]);
            assert(rev[i] == dseq[dseq.len() - 1 - i]);
        }
        lemma_dec_digits_value(rev, out@);
        if n == 0 {
            assert(dseq =~= seq![0u8]);
            crate::base58::lemma_singleton_value(0u8, 10);
            assert(rev =~= seq![0u8]);
            assert(crate::base58::nat_of_seq(rev, 10) == 0);
        } else {
            assert(crate::base58::nat_of_seq(rev, 10) == n);
            assert(rev[0] == dseq.last());
            assert(dec_val(out@[0]) == rev[0]);
        }
    }
    out
}

/// A character string whose digit values spell a digit string denotes the
/// same number.
proof fn lemma_dec_digits_value(ds: Seq<u8>, cs: Seq<char>)
    requires
        ds.len() == cs.len(),
        forall|i: int| 0 <= i < ds.len() ==> dec_val(cs[i]) == ds[i],
    ensures
        nat_of_dec(cs) == crate::base58::nat_of_seq(ds, 10),
    decreases ds.len(),
{
    if ds.len() == 0 {
    } else {
        assert(forall|i: int| 0 <= i < ds.len() - 1
            ==> dec_val(cs.drop_last()[i]) == ds.drop_last()[i]);
        lemma_dec_digits_value(ds.drop_last(), cs.drop_last());
        assert(dec_val(cs.last()) == ds.last());
        assert(dec_digit(cs.last()) == ds.last());
    }
}

/// The value of a digit string never shrinks as digits are appended.
proof fn lemma_dec_prefix_le(s: Seq<char>, i: int)
    requires
        0 <= i <= s.len(),
    ensures
        nat_of_dec(s.take(i)) <= nat_of_dec(s),
    decreases s.len() - i,
{
    if i == s.len() {
        assert(s.take(i) =~= s);
    } else {
        lemma_dec_prefix_le(s, i + 1);
        let t = s.take(i + 1);
        assert(t.drop_last() =~= s.take(i));
        let v = nat_of_dec(s.take(i));
        assert(v <= v * 10 + dec_digit(t.last())) by (nonlinear_arith);
    }
}

/// Reads a decimal number. Fails on an empty string, any non-digit
/// character, and any value that does not fit.
pub fn parse_u64(s: &str) -> (r: Option<u64>)
    ensures
        match r {
            Some(n) => all_dec(s@) && s@.len() > 0 && n == nat_of_dec(s@),
            None => s@.len() == 0 || !all_dec(s@)
                || nat_of_dec(s@) > u64::MAX,
        },
{
    let n = s.unicode_len();
    if n == 0 {
        return None;
    }
    let mut acc: u64 = 0;
    let mut i: usize = 0;
    proof {
        assert(s@.take(0) =~= Seq::<char>::empty());
    }
    while i < n
        invariant
            i <= n,
            n == s@.len(),
            forall|k: int| 0 <= k < i ==> dec_val(s@[k]) >= 0,
            acc == nat_of_dec(s@.take(i as int)),
        decreases n - i,
    {
        let c = s.get_char(i);
        let u = c as u32;
        if !(48 <= u && u <= 57) {
            return None;
        }
        let d: u64 = (u - 48) as u64;
        proof {
            let t = s@.take(i + 1);
            assert(t.drop_last() =~= s@.take(i as int));
            assert(t.last() == s@[i as int]);
            assert(dec_digit(s@[i as int]) == d);
        }
        if acc > (u64::MAX - d) / 10 {
            proof {
                let t = s@.take(i + 1);
                assert(nat_of_dec(t) == acc * 10 + d);
                assert(acc * 10 + d > u64::MAX) by (nonlinear_arith)
                    requires acc > ((u64::MAX - d) / 10) as int && d <= 9
                        && acc >= 0 && (u64::MAX - d) / 10 == ((u64::MAX - d) as int) / 10
                        && u64::MAX == 18446744073709551615;
                lemma_dec_prefix_le(s@, i + 1);
                assert(s@.take(s@.len() as int) =~= s@);
            }
            return None;
        }
        proof {
            assert(acc * 10 + d <= u64::MAX) by (nonlinear_arith)
                requires acc <= ((u64::MAX - d) as int) / 10 && d <= 9 && acc >= 0
                    && u64::MAX == 18446744073709551615;
        }
        acc = acc * 10 + d;
        i = i + 1;
    }
    proof {
        assert(s@.take(n as int) =~= s@);
    }
    Some(acc)
}

// ---------------------------------------------------------------------------
// Hexadecimal strings
// ---------------------------------------------------------------------------

/// Value of a hexadecimal digit character (either case), or -1 otherwise.
pub open spec fn hex_val(c: char) -> int {
    let u = c as u32;
    if 48 <= u <= 57 {
        u - 48
    } else if 97 <= u <= 102 {
        u - 87
    } else if 65 <= u <= 70 {
        u - 55
    } else {
        -1
    }
}

/// An even-length string of hexadecimal digit characters.
pub open spec fn is_hex_seq(s: Seq<char>) -> bool {
    s.len() % 2 == 0 && forall|i: int| 0 <= i < s.len() ==> hex_val(s[i]) >= 0
}

/// The bytes a hexadecimal string denotes, two characters per byte.
pub open spec fn spec_hex_decode(s: Seq<char>) -> Seq<u8> {
    Seq::new((s.len() / 2) as nat, |i: int| (hex_val(s[2 * i]) * 16 + hex_val(s[2 * i + 1])) as u8)
}

/// The lower-case hexadecimal spelling of a byte string, named only through
/// what it decodes back to.
pub open spec fn spec_hex_of(b: Seq<u8>) -> Seq<char>
    decreases b.len(),
{
    if b.len() == 0 {
        Seq::empty()
    } else {
        spec_hex_of(b.drop_last()) + seq![
            spec_hex_char((b.last() / 16) as nat),
            spec_hex_char((b.last() % 16) as nat),
        ]
    }
}

/// The lower-case character of one hexadecimal digit value.
pub open spec fn spec_hex_char(d: nat) -> char {
    if d <= 9 {
        ((d + 48) as u8) as char
    } else {
        ((d + 87) as u8) as char
    }
}

/// The character of one hexadecimal digit value.
fn hex_char_of(d: u8) -> (c: char)
    requires
        d < 16,
    ensures
        c == spec_hex_char(d as nat),
        hex_val(c) == d as int,
{
    let u: u8 = if d <= 9 {
        d + 48
    } else {
        d + 87
    };
    u as char
}

/// Writes bytes in lower-case hexadecimal, two characters per byte.
pub fn hex_encode(b: &Vec<u8>) -> (r: String)
    ensures
        r@ == spec_hex_of(b@),
        is_hex_seq(r@),
        r@.len() == 2 * b@.len(),
        spec_hex_decode(r@) == b@,
{
    let n = b.len();
    let mut out = String::new();
    let mut i: usize = 0;
    proof {
        assert(out@ =~= spec_hex_of(b@.take(0)));
    }
    while i < n
        invariant
            i <= n,
            n == b@.len(),
            out@ == spec_hex_of(b@.take(i as int)),
            out@.len() == 2 * i,
            forall|k: int| 0 <= k < out@.len() ==> hex_val(out@[k]) >= 0,
        decreases n - i,
    {
        let byte = b[i];
        let hi = hex_char_of(byte / 16);
        let lo = hex_char_of(byte % 16);
        push_char(&mut out, hi);
        push_char(&mut out, lo);
        proof {
            let t = b@.take(i + 1);
            assert(t.drop_last() =~= b@.take(i as int));
            assert(t.last() == b@[i as int]);
            assert(out@ =~= spec_hex_of(b@.take(i as int)) + seq![hi, lo]);
        }
        i = i + 1;
    }
    proof {
        assert(b@.take(n as int) =~= b@);
        assert forall|k: int| 0 <= k < b@.len()
            implies spec_hex_decode(out@)[k] == b@[k] by {
            lemma_hex_of_index(b@, k);
            assert(b@[k] / 16 * 16 + b@[k] % 16 == b@[k]) by {
                vstd::arithmetic::div_mod::lemma_fundamental_div_mod(b@[k] as int, 16);
            }
        }
        assert(spec_hex_decode(out@) =~= b@);
    }
    out
}

/// The characters of one byte inside the hex spelling of a byte string.
proof fn lemma_hex_of_index(b: Seq<u8>, k: int)
    requires
        0 <= k < b.len(),
    ensures
        spec_hex_of(b).len() == 2 * b.len(),
        spec_hex_of(b)[2 * k] == spec_hex_char((b[k] / 16) as nat),
        spec_hex_of(b)[2 * k + 1] == spec_hex_char((b[k] % 16) as nat),
    decreases b.len(),
{
    lemma_hex_of_len(b);
    if k == b.len() - 1 {
        lemma_hex_of_len(b.drop_last());
    } else {
        lemma_hex_of_index(b.drop_last(), k);
        lemma_hex_of_len(b.drop_last());
    }
}

/// The hex spelling has two characters per byte.
proof fn lemma_hex_of_len(b: Seq<u8>)
    ensures
        spec_hex_of(b).len() == 2 * b.len(),
    decreases b.len(),
{
    if b.len() > 0 {
        lemma_hex_of_len(b.drop_last());
    }
}

/// Reads a hexadecimal string back to bytes; `None` unless the string is an
/// even-length string of hex digits.
pub fn hex_decode(s: &str) -> (r: Option<Vec<u8>>)
    ensures
        match r {
            Some(v) => is_hex_seq(s@) && v@ == spec_hex_decode(s@),
            None => !is_hex_seq(s@),
        },
{
    let n = s.unicode_len();
    if n % 2 != 0 {
        return None;
    }
    let mut out: Vec<u8> = Vec::new();
    let mut i: usize = 0;
    while i < n
        invariant
            i <= n,
            i % 2 == 0,
            n % 2 == 0,
            n == s@.len(),
            forall|k: int| 0 <= k < i ==> hex_val(s@[k]) >= 0,
            out@.len() == i / 2,
            forall|k: int| 0 <= k < out@.len()
                ==> out@[k] == (hex_val(s@[2 * k]) * 16 + hex_val(s@[2 * k + 1])) as u8,
        decreases n - i,
    {
        let c1 = s.get_char(i);
        let c2 = s.get_char(i + 1);
        let d1 = match hex_digit_of(c1) {
            Some(d) => d,
            None => {
                return None;
            },
        };
        let d2 = match hex_digit_of(c2) {
            Some(d) => d,
            None => {
                return None;
            },
        };
        out.push(d1 * 16 + d2);
        i = i + 2;
    }
    proof {
        assert(out@ =~= spec_hex_decode(s@));
    }
    Some(out)
}

/// The value of one hexadecimal digit character.
fn hex_digit_of(c: char) -> (r: Option<u8>)
    ensures
        match r {
            Some(d) => hex_val(c) == d as int && d < 16,
            None => hex_val(c) < 0,
        },
{
    let u = c as u32;
    if 48 <= u && u <= 57 {
        Some((u - 48) as u8)
    } else if 97 <= u && u <= 102 {
        Some((u - 87) as u8)
    } else if 65 <= u && u <= 70 {
        Some((u - 55) as u8)
    } else {
        None
    }
}

} // verus!
