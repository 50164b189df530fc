use vstd::prelude::*;
use vstd::arithmetic::power::pow;

verus! {

// ---------------------------------------------------------------------------
// Base58 alphabet
// ---------------------------------------------------------------------------

/// Value of one base58 alphabet character, or -1 when the character is not in
/// the alphabet. The alphabet is the usual one: digits and letters without
/// `0`, `O`, `I` and `l`.
pub open spec fn b58_val(c: char) -> int {
    let u = c as u32;
    if 49 <= u <= 57 {
        u - 49
    } else if 65 <= u <= 72 {
        u - 56
    } else if 74 <= u <= 78 {
        u - 57
    } else if 80 <= u <= 90 {
        u - 58
    } else if 97 <= u <= 107 {
        u - 64
    } else if 109 <= u <= 122 {
        u - 65
    } else {
        -1
    }
}

/// Every character of the sequence lies in the base58 alphabet.
pub open spec fn all_b58(s: Seq<char>) -> bool {
    forall|i: int| 0 <= i < s.len() ==> b58_val(s[i]) >= 0
}

/// The digit value of a character, with invalid characters counting as zero.
pub open spec fn digit58(c: char) -> nat {
    if b58_val(c) >= 0 {
        b58_val(c) as nat
    } else {
        0
    }
}

// ---------------------------------------------------------------------------
// Values of digit strings
// ---------------------------------------------------------------------------

/// The number a big-endian digit string denotes in the given radix.
pub open spec fn nat_of_seq(s: Seq<u8>, radix: nat) -> nat
    decreases s.len(),
{
    if s.len() == 0 {
        0
    } else {
        (nat_of_seq(s.drop_last(), radix) * radix + s.last()) as nat
    }
}

/// The number a big-endian base58 character string denotes.
pub open spec fn nat_of_b58(s: Seq<char>) -> nat
    decreases s.len(),
{
    if s.len() == 0 {
        0
    } else {
        (nat_of_b58(s.drop_last()) * 58 + digit58(s.last())) as nat
    }
}

/// A big-endian byte string with no leading zero byte.
pub open spec fn min_be(s: Seq<u8>) -> bool {
    s.len() == 0 || s[0] != 0
}

/// The shortest big-endian byte string denoting `n`.
pub open spec fn bytes_of_nat(n: nat) -> Seq<u8>
    decreases n,
{
    if n == 0 {
        Seq::empty()
    } else {
        bytes_of_nat(n / 256).push((n % 256) as u8)
    }
}

/// How many `'1'` characters the string starts with.
pub open spec fn leading_ones(s: Seq<char>) -> int
    decreases s.len(),
{
    if s.len() == 0 {
        0
    } else if s[0] == '1' {
        1 + leading_ones(s.drop_first())
    } else {
        0
    }
}

/// How many zero bytes the string starts with.
pub open spec fn leading_zeros(s: Seq<u8>) -> int
    decreases s.len(),
{
    if s.len() == 0 {
        0
    } else if s[0] == 0 {
        1 + leading_zeros(s.drop_first())
    } else {
        0
    }
}

/// A run of zero bytes.
pub open spec fn zero_bytes(n: nat) -> Seq<u8> {
    Seq::new(n, |i: int| 0u8)
}

/// What a base58 string decodes to: one zero byte for each leading `'1'`,
/// then the bytes of the number the remaining digits denote. `None` when some
/// character is outside the alphabet.
pub open spec fn spec_b58_decode(s: Seq<char>) -> Option<Seq<u8>> {
    if all_b58(s) {
        let z = leading_ones(s);
        Some(zero_bytes(z as nat) + bytes_of_nat(nat_of_b58(s.skip(z))))
    } else {
        None
    }
}

// ---------------------------------------------------------------------------
// Lemmas about digit-string values
// ---------------------------------------------------------------------------

/// The value of a concatenation splits into the two parts' values.
pub proof fn lemma_nat_of_seq_concat(a: Seq<u8>, b: Seq<u8>, radix: nat)
    ensures
        nat_of_seq(a + b, radix) == nat_of_seq(a, radix) * pow(radix as int, b.len())
            + nat_of_seq(b, radix),
    decreases b.len(),
{
    if b.len() == 0 {
        assert(a + b =~= a);
        assert(pow(radix as int, 0) == 1) by {
            vstd::arithmetic::power::lemma_pow0(radix as int);
        }
    } else {
        lemma_nat_of_seq_concat(a, b.drop_last(), radix);
        assert((a + b).drop_last() =~= a + b.drop_last());
        assert((a + b).last() == b.last());
        let p = pow(radix as int, (b.len() - 1) as nat);
        assert(pow(radix as int, b.len()) == radix * p) by {
            vstd::arithmetic::power::lemma_pow1(radix as int);
            vstd::arithmetic::power::lemma_pow_adds(radix as int, 1, (b.len() - 1) as nat);
        }
        let na = nat_of_seq(a, radix) as int;
        let nb1 = nat_of_seq(b.drop_last(), radix) as int;
        let lb = b.last() as int;
        assert((na * p + nb1) * radix + lb == na * (radix * p) + (nb1 * radix + lb))
            by (nonlinear_arith);
    }
}

/// A nonempty byte string without a leading zero denotes a positive number.
pub proof fn lemma_min_be_pos(s: Seq<u8>, radix: nat)
    requires
        min_be(s),
        s.len() > 0,
        radix >= 2,
    ensures
        nat_of_seq(s, radix) > 0,
    decreases s.len(),
{
    if s.len() == 1 {
        assert(s.drop_last() =~= Seq::<u8>::empty());
        assert(nat_of_seq(Seq::<u8>::empty(), radix) == 0);
        assert(s.last() == s[0]);
        assert(nat_of_seq(s.drop_last(), radix) * radix == 0) by (nonlinear_arith)
            requires nat_of_seq(s.drop_last(), radix) == 0;
        assert(nat_of_seq(s, radix) == s[0]);
    } else {
        assert(s.drop_last()[0] == s[0]);
        lemma_min_be_pos(s.drop_last(), radix);
        let n1 = nat_of_seq(s.drop_last(), radix);
        assert(n1 * radix >= radix) by (nonlinear_arith)
            requires n1 >= 1 && radix >= 2;
    }
}

/// A byte string without a leading zero is the unique minimal representation
/// of its value.
pub proof fn lemma_bytes_of_nat_inverse(s: Seq<u8>)
    requires
        min_be(s),
    ensures
        bytes_of_nat(nat_of_seq(s, 256)) =~= s,
    decreases s.len(),
{
    if s.len() == 0 {
    } else {
        let n = nat_of_seq(s, 256);
        let n1 = nat_of_seq(s.drop_last(), 256);
        let lb = s.last();
        assert(n == n1 * 256 + lb);
        lemma_min_be_pos(s, 256);
        assert(n / 256 == n1 && n % 256 == lb) by (nonlinear_arith)
            requires n == n1 * 256 + lb && 0 <= lb < 256;
        if s.len() == 1 {
            assert(s.drop_last() =~= Seq::<u8>::empty());
            assert(nat_of_seq(Seq::<u8>::empty(), 256) == 0);
            assert(n == lb && n > 0);
            assert(bytes_of_nat((n / 256) as nat) =~= Seq::<u8>::empty()) by {
                assert(n / 256 == 0);
            }
            assert(bytes_of_nat(n) =~= Seq::<u8>::empty().push(lb));
            assert(bytes_of_nat(n) =~= s);
        } else {
            assert(s.drop_last()[0] == s[0]);
            lemma_bytes_of_nat_inverse(s.drop_last());
            assert(bytes_of_nat(n) =~= s.drop_last().push(lb));
            assert(s.drop_last().push(lb) =~= s);
        }
    }
}

/// An all-zero byte string denotes zero.
pub proof fn lemma_all_zero_value(s: Seq<u8>, radix: nat)
    requires
        forall|i: int| 0 <= i < s.len() ==> s[i] == 0,
    ensures
        nat_of_seq(s, radix) == 0,
    decreases s.len(),
{
    if s.len() == 0 {
    } else {
        assert(forall|i: int| 0 <= i < s.drop_last().len() ==> s.drop_last()[i] == 0);
        lemma_all_zero_value(s.drop_last(), radix);
        assert(s.last() == 0);
        assert(nat_of_seq(s, radix) == (nat_of_seq(s.drop_last(), radix) * radix
            + s.last()) as nat);
        assert(nat_of_seq(s.drop_last(), radix) * radix == 0) by (nonlinear_arith)
            requires nat_of_seq(s.drop_last(), radix) == 0;
    }
}

/// Leading zero bytes do not change the value.
pub proof fn lemma_zero_prefix_value(s: Seq<u8>, z: int, radix: nat)
    requires
        0 <= z <= s.len(),
        forall|i: int| 0 <= i < z ==> s[i] == 0,
    ensures
        nat_of_seq(s, radix) == nat_of_seq(s.skip(z), radix),
{
    assert(s =~= s.take(z) + s.skip(z));
    lemma_nat_of_seq_concat(s.take(z), s.skip(z), radix);
    lemma_all_zero_value(s.take(z), radix);
}

// ---------------------------------------------------------------------------
// Exec helpers
// ---------------------------------------------------------------------------

/// A one-digit string denotes its digit.
pub proof fn lemma_singleton_value(d: u8, radix: nat)
    ensures
        nat_of_seq(seq![d], radix) == d,
{
    assert(seq![d].len() == 1);
    assert(seq![d].drop_last() =~= Seq::<u8>::empty());
    assert(nat_of_seq(Seq::<u8>::empty(), radix) == 0);
    assert(seq![d].last() == d);
    assert(nat_of_seq(seq![d], radix) == (0 * radix + d) as nat);
}

/// The algebra of one multiply-and-carry step.
proof fn lemma_scale_step(na1: nat, a: nat, c: nat, t: nat, d: nat, c2: nat, p: int, nb: nat, radix: nat, mult: nat)
    by (nonlinear_arith)
    requires
        t == a * mult + c,
        t == c2 * radix + d,
        p >= 0,
    ensures
        ((na1 * radix + a) * mult + c) * p + nb
            == (na1 * mult + c2) * (radix * p) + (d * p + nb),
{
}

/// Multiplies the big-endian digit string by `mult` and adds `add`, in place.
fn scale_add(arr: &mut Vec<u8>, radix: u32, mult: u32, add: u32)
    requires
        2 <= radix <= 256,
        mult <= 256,
        add < 65536,
        forall|i: int| 0 <= i < old(arr)@.len() ==> old(arr)@[i] < radix,
    ensures
        nat_of_seq(final(arr)@, radix as nat)
            == nat_of_seq(old(arr)@, radix as nat) * mult + add,
        forall|i: int| 0 <= i < final(arr)@.len() ==> final(arr)@[i] < radix,
{
    let ghost orig = arr@;
    let ghost rdx = radix as nat;
    let ghost target = nat_of_seq(orig, rdx) * mult + add;
    let length = arr.len();
    let mut c: u32 = add;
    let mut j: usize = length;
    proof {
        assert(orig.take(length as int) =~= orig);
        assert(arr@.skip(length as int) =~= Seq::<u8>::empty());
        vstd::arithmetic::power::lemma_pow0(radix as int);
    }
    while j > 0
        invariant
            j <= length,
            arr@.len() == length,
            orig.len() == length,
            2 <= radix <= 256,
            mult <= 256,
            c < 65536,
            rdx == radix as nat,
            target == nat_of_seq(orig, rdx) * mult + add,
            forall|i: int| 0 <= i < length ==> orig[i] < radix,
            forall|i: int| 0 <= i < j ==> arr@[i] == orig[i],
            forall|i: int| j <= i < length ==> arr@[i] < radix,
            (nat_of_seq(orig.take(j as int), rdx) * mult + c)
                * pow(radix as int, (length - j) as nat)
                + nat_of_seq(arr@.skip(j as int), rdx) == target,
        decreases j,
    {
        let ghost pre = arr@;
        let ghost c0 = c as nat;
        j = j - 1;
        let aj: u8 = arr[j];
        assert(aj as u32 * mult <= 255 * 256) by (nonlinear_arith)
            requires aj <= 255u8 && mult <= 256;
        let t: u32 = aj as u32 * mult + c;
        let d: u8 = (t % radix) as u8;
        arr.set(j, d);
        c = t / radix;
        proof {
            let ji = j as int;
            let a = orig[ji] as nat;
            let tn = t as nat;
            assert(tn == a * mult + c0);
            vstd::arithmetic::div_mod::lemma_fundamental_div_mod(t as int, radix as int);
            vstd::arithmetic::div_mod::lemma_mod_bound(t as int, radix as int);
            assert(d == t % radix);
            assert(c as int == t as int / radix as int);
            assert((c as int) * (radix as int) == (radix as int) * (c as int))
                by (nonlinear_arith);
            assert(tn == (c as nat) * rdx + d);
            assert(c < 65536) by (nonlinear_arith)
                requires
                    t as nat == (c as nat) * (radix as nat) + d,
                    radix >= 2,
                    t <= 130816u32,
                    c == t / radix;
            // value of the processed suffix grew by one digit
            let rest = pre.skip(ji + 1);
            assert(arr@.skip(ji) =~= seq![d] + rest);
            lemma_nat_of_seq_concat(seq![d], rest, rdx);
            lemma_singleton_value(d, rdx);
            // the untouched prefix lost one digit
            assert(orig.take(ji + 1).drop_last() =~= orig.take(ji));
            assert(orig.take(ji + 1).last() == orig[ji]);
            let p = pow(radix as int, (length - j - 1) as nat);
            assert(pow(radix as int, (length - j) as nat) == radix * p) by {
                vstd::arithmetic::power::lemma_pow1(radix as int);
                vstd::arithmetic::power::lemma_pow_adds(
                    radix as int, 1, (length - j - 1) as nat);
            }
            assert(p >= 0) by {
                vstd::arithmetic::power::lemma_pow_positive(
                    radix as int, (length - j - 1) as nat);
            }
            assert(rest.len() == length - j - 1);
            lemma_scale_step(
                nat_of_seq(orig.take(ji), rdx),
                a,
                c0,
                tn,
                d as nat,
                c as nat,
                p,
                nat_of_seq(rest, rdx),
                rdx,
                mult as nat,
            );
        }
    }
    proof {
        assert(orig.take(0) =~= Seq::<u8>::empty());
        assert(nat_of_seq(Seq::<u8>::empty(), rdx) == 0);
        assert(nat_of_seq(orig.take(0), rdx) == 0);
        assert(arr@.skip(0) =~= arr@);
        assert(nat_of_seq(orig.take(0), rdx) * mult == 0) by (nonlinear_arith)
            requires nat_of_seq(orig.take(0), rdx) == 0;
    }
    while c > 0
        invariant
            2 <= radix <= 256,
            rdx == radix as nat,
            forall|i: int| 0 <= i < arr@.len() ==> arr@[i] < radix,
            (c as int) * pow(radix as int, arr@.len() as nat)
                + nat_of_seq(arr@, rdx) == target,
        decreases c,
    {
        let ghost pre = arr@;
        let ghost c0 = c as nat;
        let d: u8 = (c % radix) as u8;
        arr.insert(0, d);
        c = c / radix;
        proof {
            vstd::arithmetic::div_mod::lemma_fundamental_div_mod(c0 as int, radix as int);
            vstd::arithmetic::div_mod::lemma_mod_bound(c0 as int, radix as int);
            assert(d == c0 % rdx);
            assert(c as int == c0 as int / radix as int);
            assert((c as int) * (radix as int) == (radix as int) * (c as int))
                by (nonlinear_arith);
            assert(c0 == (c as nat) * rdx + d);
            assert(arr@ =~= seq![d] + pre);
            lemma_nat_of_seq_concat(seq![d], pre, rdx);
            lemma_singleton_value(d, rdx);
            let p = pow(radix as int, pre.len());
            assert(pow(radix as int, arr@.len() as nat) == radix * p) by {
                vstd::arithmetic::power::lemma_pow1(radix as int);
                vstd::arithmetic::power::lemma_pow_adds(radix as int, 1, pre.len());
            }
            assert(p >= 0) by {
                vstd::arithmetic::power::lemma_pow_positive(radix as int, pre.len());
            }
            assert((c as int) * (radix * p) + ((d as int) * p + nat_of_seq(pre, rdx))
                == (c0 as int) * p + nat_of_seq(pre, rdx)) by (nonlinear_arith)
                requires c0 == (c as nat) * rdx + d && rdx == radix as nat;
            assert(c < c0) by (nonlinear_arith)
                requires
                    c0 == (c as nat) * rdx + d,
                    rdx >= 2,
                    c0 > 0,
                    d < rdx;
        }
    }
    proof {
        vstd::arithmetic::power::lemma_pow_positive(radix as int, arr@.len() as nat);
    }
}

/// Removes leading zero bytes, in place.
fn trim_leading(arr: &mut Vec<u8>)
    ensures
        min_be(final(arr)@),
        forall|radix: nat| nat_of_seq(final(arr)@, radix) == nat_of_seq(old(arr)@, radix),
        final(arr)@.len() <= old(arr)@.len(),
        final(arr)@ == old(arr)@.skip(old(arr)@.len() - final(arr)@.len()),
{
    while arr.len() > 0 && arr[0] == 0u8
        invariant
            forall|radix: nat| nat_of_seq(arr@, radix) == nat_of_seq(old(arr)@, radix),
            arr@.len() <= old(arr)@.len(),
            arr@ == old(arr)@.skip(old(arr)@.len() - arr@.len()),
        decreases arr@.len(),
    {
        let ghost pre = arr@;
        arr.remove(0);
        proof {
            assert(arr@ =~= pre.skip(1));
            assert(arr@ =~= old(arr)@.skip(old(arr)@.len() - arr@.len()));
            assert forall|radix: nat|
                nat_of_seq(arr@, radix) == nat_of_seq(pre, radix) by {
                lemma_zero_prefix_value(pre, 1, radix);
            }
        }
    }
}

// ---------------------------------------------------------------------------
// Alphabet conversions
// ---------------------------------------------------------------------------

/// The alphabet character for one digit value.
fn char_of_digit(d: u8) -> (c: char)
    requires
        d < 58,
    ensures
        b58_val(c) == d as int,
{
    let u: u8 = if d <= 8 {
        d + 49
    } else if d <= 16 {
        d + 56
    } else if d <= 21 {
        d + 57
    } else if d <= 32 {
        d + 58
    } else if d <= 43 {
        d + 64
    } else {
        d + 65
    };
    u as char
}

/// The digit value of one character, or `None` outside the alphabet.
fn digit_of_char(c: char) -> (r: Option<u8>)
    ensures
        match r {
            Some(d) => b58_val(c) == d as int && d < 58,
            None => b58_val(c) < 0,
        },
{
    let u = c as u32;
    if 49 <= u && u <= 57 {
        Some((u - 49) as u8)
    } else if 65 <= u && u <= 72 {
        Some((u - 56) as u8)
    } else if 74 <= u && u <= 78 {
        Some((u - 57) as u8)
    } else if 80 <= u && u <= 90 {
        Some((u - 58) as u8)
    } else if 97 <= u && u <= 107 {
        Some((u - 64) as u8)
    } else if 109 <= u && u <= 122 {
        Some((u - 65) as u8)
    } else {
        None
    }
}

// ---------------------------------------------------------------------------
// Encoding and decoding
// ---------------------------------------------------------------------------

/// A maximal run of `'1'` characters is what `leading_ones` counts.
proof fn lemma_leading_ones(s: Seq<char>, z: int)
    requires
        0 <= z <= s.len(),
        forall|i: int| 0 <= i < z ==> s[i] == '1',
        z < s.len() ==> s[z] != '1',
    ensures
        leading_ones(s) == z,
    decreases z,
{
    if z == 0 {
    } else {
        assert(s[0] == '1');
        assert(forall|i: int| 0 <= i < z - 1 ==> s.drop_first()[i] == s[i + 1]);
        lemma_leading_ones(s.drop_first(), z - 1);
    }
}

/// A character string whose digit values spell a digit string denotes the
/// same number.
proof fn lemma_digits_value(ds: Seq<u8>, cs: Seq<char>)
    requires
        ds.len() == cs.len(),
        forall|i: int| 0 <= i < ds.len() ==> b58_val(cs[i]) == ds[i],
    ensures
        nat_of_b58(cs) == nat_of_seq(ds, 58),
    decreases ds.len(),
{
    if ds.len() == 0 {
    } else {
        assert(forall|i: int| 0 <= i < ds.len() - 1
            ==> b58_val(cs.drop_last()[i]) == ds.drop_last()[i]);
        lemma_digits_value(ds.drop_last(), cs.drop_last());
        assert(b58_val(cs.last()) == ds.last());
        assert(digit58(cs.last()) == ds.last());
    }
}

/// Encodes bytes as a base58 string: one `'1'` per leading zero byte, then
/// the base58 digits of the number the remaining bytes denote.
pub fn to_base58(data: &Vec<u8>) -> (r: String)
    ensures
        spec_b58_decode(r@) == Some(data@),
        all_b58(r@),
{
    let n = data.len();
    let mut z: usize = 0;
    while z < n && data[z] == 0u8
        invariant
            z <= n,
            n == data@.len(),
            forall|i: int| 0 <= i < z ==> data@[i] == 0,
        decreases n - z,
    {
        z = z + 1;
    }
    let mut ds: Vec<u8> = Vec::new();
    let mut i: usize = z;
    proof {
        assert(data@.subrange(z as int, z as int) =~= Seq::<u8>::empty());
    }
    while i < n
        invariant
            z <= i <= n,
            n == data@.len(),
            nat_of_seq(ds@, 58) == nat_of_seq(data@.subrange(z as int, i as int), 256),
            forall|j: int| 0 <= j < ds@.len() ==> ds@[j] < 58,
        decreases n - i,
    {
        let b = data[i];
        scale_add(&mut ds, 58, 256, b as u32);
        proof {
            let sub1 = data@.subrange(z as int, i + 1);
            assert(sub1.drop_last() =~= data@.subrange(z as int, i as int));
            assert(sub1.last() == data@[i as int]);
        }
        i = i + 1;
    }
    let ghost dpre = ds@;
    trim_leading(&mut ds);
    proof {
        let nskip = dpre.len() - ds@.len();
        assert(ds@ == dpre.skip(nskip));
        assert forall|q: int| 0 <= q < ds@.len() implies ds@[q] < 58 by {
            assert(dpre.skip(nskip)[q] == dpre[q + nskip]);
        }
        assert(nat_of_seq(ds@, 58) == nat_of_seq(dpre, 58));
    }
    let mut out = String::new();
    let mut k: usize = 0;
    proof {
        assert(out@ =~= Seq::<char>::empty());
    }
    while k < z
        invariant
            k <= z,
            out@.len() == k,
            forall|i: int| 0 <= i < k ==> out@[i] == '1',
        decreases z - k,
    {
        crate::strutil::push_char(&mut out, '1');
        k = k + 1;
    }
    let ghost ones = out@;
    let m = ds.len();
    let mut j: usize = 0;
    while j < m
        invariant
            j <= m,
            m == ds@.len(),
            forall|i: int| 0 <= i < ds@.len() ==> ds@[i] < 58,
            out@.len() == ones.len() + j,
            out@.take(ones.len() as int) =~= ones,
            forall|i: int| 0 <= i < j
                ==> b58_val(out@[ones.len() + i]) == ds@[i],
        decreases m - j,
    {
        let c = char_of_digit(ds[j]);
        crate::strutil::push_char(&mut out, c);
        j = j + 1;
    }
    proof {
        let zz = z as int;
        let whole = out@;
        let cs = whole.skip(zz);
        // the output splits into the ones and the digit characters
        assert(whole.len() == zz + ds@.len());
        assert(ones.len() == zz);
        assert forall|i: int| 0 <= i < zz implies whole[i] == '1' by {
            assert(whole.take(zz)[i] == whole[i]);
            assert(ones[i] == '1');
        }
        assert forall|i: int| 0 <= i < ds@.len()
            implies b58_val(cs[i]) == ds@[i] by {
            assert(cs[i] == whole[zz + i]);
        }
        // ones count: the first digit character is not '1'
        if ds@.len() > 0 {
            assert(min_be(ds@));
            assert(b58_val(whole[zz]) == ds@[0]);
            assert(ds@[0] != 0);
            assert(b58_val('1') == 0);
            assert(whole[zz] != '1');
        }
        lemma_leading_ones(whole, zz);
        // every character is in the alphabet
        assert forall|i: int| 0 <= i < whole.len() implies b58_val(whole[i]) >= 0 by {
            if i < zz {
                assert(whole[i] == '1');
            } else {
                assert(b58_val(whole[i]) == ds@[i - zz]);
            }
        }
        // the digit characters denote the value of the non-zero bytes
        lemma_digits_value(ds@, cs);
        assert(data@.subrange(zz, data@.len() as int) =~= data@.skip(zz));
        // and those bytes are the minimal representation of that value
        assert(min_be(data@.skip(zz)));
        lemma_bytes_of_nat_inverse(data@.skip(zz));
        assert(zero_bytes(zz as nat) + data@.skip(zz) =~= data@);
    }
    out
}

/// Decodes a base58 string back to bytes. Fails on the first character
/// outside the alphabet, naming that character and its position.
pub fn from_base58(s: &str) -> (r: Result<Vec<u8>, crate::error::ErrorKind>)
    ensures
        match r {
            Ok(v) => all_b58(s@) && Some(v@) == spec_b58_decode(s@),
            Err(e) => !all_b58(s@) && match e {
                crate::error::ErrorKind::InvalidBase58Character(c, i) =>
                    i < s@.len() && c == s@[i as int] && b58_val(c) < 0
                        && forall|k: int| 0 <= k < i ==> b58_val(s@[k]) >= 0,
                _ => false,
            },
        },
{
    let n = s.unicode_len();
    let mut z: usize = 0;
    while z < n && s.get_char(z) == '1'
        invariant
            z <= n,
            n == s@.len(),
            forall|i: int| 0 <= i < z ==> s@[i] == '1',
        decreases n - z,
    {
        z = z + 1;
    }
    proof {
        lemma_leading_ones(s@, z as int);
        assert(s@.subrange(z as int, z as int) =~= Seq::<char>::empty());
    }
    let mut out: Vec<u8> = Vec::new();
    let mut i: usize = z;
    while i < n
        invariant
            z <= i <= n,
            n == s@.len(),
            forall|k: int| 0 <= k < i ==> b58_val(s@[k]) >= 0,
            nat_of_seq(out@, 256) == nat_of_b58(s@.subrange(z as int, i as int)),
            forall|j: int| 0 <= j < out@.len() ==> out@[j] < 256,
        decreases n - i,
    {
        let c = s.get_char(i);
        match digit_of_char(c) {
            None => {
                return Err(crate::error::ErrorKind::InvalidBase58Character(c, i));
            },
            Some(d) => {
                scale_add(&mut out, 256, 58, d as u32);
                proof {
                    let sub1 = s@.subrange(z as int, i + 1);
                    assert(sub1.drop_last() =~= s@.subrange(z as int, i as int));
                    assert(sub1.last() == s@[i as int]);
                    assert(digit58(s@[i as int]) == d);
                }
            },
        }
        i = i + 1;
    }
    trim_leading(&mut out);
    proof {
        lemma_bytes_of_nat_inverse(out@);
        assert(s@.subrange(z as int, n as int) =~= s@.skip(z as int));
    }
    let mut res: Vec<u8> = Vec::new();
    let mut k: usize = 0;
    while k < z
        invariant
            k <= z,
            res@ =~= zero_bytes(k as nat),
        decreases z - k,
    {
        res.push(0u8);
        proof {
            assert(res@ =~= zero_bytes(k as nat).push(0u8));
            assert(zero_bytes(k as nat).push(0u8) =~= zero_bytes((k + 1) as nat));
        }
        k = k + 1;
    }
    res.append(&mut out);
    Ok(res)
}

// ---------------------------------------------------------------------------
// Base58 with a checksum
// ---------------------------------------------------------------------------

/// The four checksum bytes carried at the end of a checked encoding: the
/// first four bytes of the double SHA-256 digest of the payload.
pub open spec fn spec_checksum(payload: Seq<u8>) -> Seq<u8> {
    crate::crypto::spec_sha256(crate::crypto::spec_sha256(payload)).take(4)
}

/// Encodes `version ++ data`, followed by its four checksum bytes.
pub fn to_base58check(data: &Vec<u8>, version: &Vec<u8>) -> (r: String)
    ensures
        all_b58(r@),
        spec_b58_decode(r@)
            == Some(version@ + data@ + spec_checksum(version@ + data@)),
{
    let mut payload: Vec<u8> = Vec::new();
    payload.extend_from_slice(version.as_slice());
    payload.extend_from_slice(data.as_slice());
    proof {
        assert(payload@ =~= version@ + data@);
    }
    let h1 = crate::crypto::sha256(&payload);
    let h2 = crate::crypto::sha256(&h1);
    let mut full = payload;
    full.push(h2[0]);
    full.push(h2[1]);
    full.push(h2[2]);
    full.push(h2[3]);
    proof {
        assert(h2@.take(4) =~= seq![h2@[0], h2@[1], h2@[2], h2@[3]]);
        assert(full@ =~= version@ + data@ + spec_checksum(version@ + data@));
    }
    to_base58(&full)
}

/// Decodes a checked encoding and verifies its checksum, returning the
/// version bytes and the payload separately.
pub fn from_base58check(s: &str, version_len: usize) -> (r: Result<
    (Vec<u8>, Vec<u8>),
    crate::error::ErrorKind,
>)
    ensures
        match r {
            Ok(p) => {
                let v = spec_b58_decode(s@).unwrap();
                &&& all_b58(s@)
                &&& v.len() >= version_len + 4
                &&& p.0@ == v.take(version_len as int)
                &&& p.1@ == v.subrange(version_len as int, v.len() - 4)
                &&& spec_b58_decode(s@)
                    == Some(p.0@ + p.1@ + spec_checksum(p.0@ + p.1@))
            },
            Err(e) => match e {
                crate::error::ErrorKind::InvalidBase58Character(c, i) =>
                    !all_b58(s@) && i < s@.len() && c == s@[i as int]
                        && b58_val(c) < 0
                        && forall|k: int| 0 <= k < i ==> b58_val(s@[k]) >= 0,
                crate::error::ErrorKind::InvalidBase58Length =>
                    all_b58(s@)
                        && spec_b58_decode(s@).unwrap().len() < version_len + 4,
                crate::error::ErrorKind::InvalidBase58Checksum => {
                    let v = spec_b58_decode(s@).unwrap();
                    &&& all_b58(s@)
                    &&& v.len() >= version_len + 4
                    &&& v.skip(v.len() - 4) != spec_checksum(v.take(v.len() - 4))
                },
                _ => false,
            },
        },
{
    let v = match from_base58(s) {
        Ok(v) => v,
        Err(e) => {
            return Err(e);
        },
    };
    if version_len > v.len() || v.len() - version_len < 4 {
        return Err(crate::error::ErrorKind::InvalidBase58Length);
    }
    let split = v.len() - 4;
    let mut payload: Vec<u8> = Vec::new();
    let mut i: usize = 0;
    while i < split
        invariant
            i <= split <= v@.len(),
            payload@ =~= v@.take(i as int),
        decreases split - i,
    {
        payload.push(v[i]);
        proof {
            assert(v@.take(i as int).push(v@[i as int]) =~= v@.take(i + 1));
        }
        i = i + 1;
    }
    let h1 = crate::crypto::sha256(&payload);
    let h2 = crate::crypto::sha256(&h1);
    let ok = v[split] == h2[0] && v[split + 1] == h2[1] && v[split + 2] == h2[2]
        && v[split + 3] == h2[3];
    proof {
        assert(h2@.take(4) =~= seq![h2@[0], h2@[1], h2@[2], h2@[3]]);
        assert(v@.skip(split as int) =~= seq![
            v@[split as int],
            v@[split + 1],
            v@[split + 2],
            v@[split + 3],
        ]);
    }
    if !ok {
        proof {
            assert(v@.skip(split as int) != spec_checksum(v@.take(split as int)));
        }
        return Err(crate::error::ErrorKind::InvalidBase58Checksum);
    }
    let mut ver: Vec<u8> = Vec::new();
    let mut j: usize = 0;
    while j < version_len
        invariant
            j <= version_len <= split <= v@.len(),
            ver@ =~= v@.take(j as int),
        decreases version_len - j,
    {
        ver.push(v[j]);
        proof {
            assert(v@.take(j as int).push(v@[j as int]) =~= v@.take(j + 1));
        }
        j = j + 1;
    }
    let mut data: Vec<u8> = Vec::new();
    let mut k: usize = version_len;
    while k < split
        invariant
            version_len <= k <= split <= v@.len(),
            data@ =~= v@.subrange(version_len as int, k as int),
        decreases split - k,
    {
        data.push(v[k]);
        proof {
            assert(v@.subrange(version_len as int, k as int).push(v@[k as int])
                =~= v@.subrange(version_len as int, k + 1));
        }
        k = k + 1;
    }
    proof {
        assert(ver@ + data@ =~= v@.take(split as int));
        assert(v@ =~= v@.take(split as int) + v@.skip(split as int));
        assert(v@ =~= ver@ + data@ + spec_checksum(ver@ + data@));
    }
    Ok((ver, data))
}

} // verus!
