//! Base32 decoding (RFC 4648), case-insensitive, ignoring padding and whitespace.

use vstd::prelude::*;
use vstd::arithmetic::power2::*;
use vstd::arithmetic::div_mod::*;
use vstd::bits::*;
use crate::text::{chars_of, is_whitespace, is_ws};

verus! {

/// `char::to_ascii_uppercase`: ASCII lowercase letters become uppercase, all else stays.
pub open spec fn ascii_upper(c: char) -> char {
    if 'a' <= c <= 'z' {
        ((c as u32) - 32) as char
    } else {
        c
    }
}

/// The value of a base32 digit (`A`-`Z` then `2`-`7`, either case).
pub open spec fn b32_digit(c: char) -> Option<nat> {
    let u = ascii_upper(c);
    if 'A' <= u <= 'Z' {
        Some((u as nat - 'A' as nat) as nat)
    } else if '2' <= u <= '7' {
        Some((u as nat - '2' as nat + 26) as nat)
    } else {
        None
    }
}

/// The digit values of `s`, skipping `=` and whitespace; `None` if any other character
/// is not a base32 digit.
pub open spec fn b32_digits(s: Seq<char>) -> Option<Seq<nat>>
    decreases s.len(),
{
    if s.len() == 0 {
        Some(seq![])
    } else {
        match b32_digits(s.drop_last()) {
            None => None,
            Some(d) => {
                let c = s.last();
                if c == '=' || is_ws(c) {
                    Some(d)
                } else {
                    match b32_digit(c) {
                        None => None,
                        Some(x) => Some(d.push(x)),
                    }
                }
            },
        }
    }
}

/// The number whose base-32 digits, most significant first, are `d`.
pub open spec fn b32_number(d: Seq<nat>) -> nat
    decreases d.len(),
{
    if d.len() == 0 {
        0
    } else {
        b32_number(d.drop_last()) * 32 + d.last()
    }
}

/// Byte `j` of the bit string that the digits `d` spell, 5 bits per digit.
pub open spec fn b32_byte(d: Seq<nat>, j: int) -> u8 {
    ((b32_number(d) / pow2((5 * d.len() - 8 * j - 8) as nat)) % 256) as u8
}

/// The whole bytes of the bit string that the digits spell; leftover bits are dropped.
pub open spec fn b32_bytes(d: Seq<nat>) -> Seq<u8> {
    Seq::new(5 * d.len() / 8, |j: int| b32_byte(d, j))
}

/// What `base32_decode` returns: the decoded bytes, or `None` when a character is not a
/// base32 digit or no whole byte results.
pub open spec fn base32_decode_spec(s: Seq<char>) -> Option<Seq<u8>> {
    match b32_digits(s) {
        None => None,
        Some(d) => if 5 * d.len() / 8 == 0 {
            None
        } else {
            Some(b32_bytes(d))
        },
    }
}

proof fn lemma_b32_digits_bound(s: Seq<char>)
    ensures
        b32_digits(s) matches Some(d) ==> forall|i: int| 0 <= i < d.len() ==> #[trigger] d[i] < 32,
    decreases s.len(),
{
    if s.len() > 0 {
        lemma_b32_digits_bound(s.drop_last());
    }
}

/// Appending a digit does not change the bytes already complete.
proof fn lemma_shift_digit(a: nat, x: nat, k: nat)
    requires
        x < 32,
    ensures
        (a * 32 + x) / pow2(k + 5) == a / pow2(k),
{
    lemma_pow2_adds(k, 5);
    lemma_pow2_pos(k);
    assert(pow2(5) == 32) by {
        lemma2_to64();
    }
    lemma_div_denominator((a * 32 + x) as int, 32, pow2(k) as int);
    assert((a * 32 + x) / 32 == a) by {
        lemma_fundamental_div_mod_converse((a * 32 + x) as int, 32, a as int, x as int);
    }
    assert(pow2(k + 5) == 32 * pow2(k)) by {
        vstd::arithmetic::mul::lemma_mul_is_commutative(pow2(k) as int, 32);
    }
}

/// Reading a byte below bit 32 sees the same bits in a number and in its low 32 bits.
proof fn lemma_low_word_byte(n: nat, b: nat)
    requires
        b <= 24,
    ensures
        ((n % 0x1_0000_0000) / pow2(b)) % 256 == (n / pow2(b)) % 256,
{
    let q = n / 0x1_0000_0000;
    let r = n % 0x1_0000_0000;
    let p = pow2(b);
    let m = pow2((24 - b) as nat);
    lemma_pow2_pos(b);
    lemma_pow2_adds((24 - b) as nat, b);
    lemma_pow2_adds(8, 24);
    assert(pow2(8) == 256 && pow2(32) == 0x1_0000_0000) by {
        lemma2_to64();
        lemma2_to64_rest();
    }
    assert(0x1_0000_0000 == 256 * (m * p));
    lemma_fundamental_div_mod(n as int, 0x1_0000_0000);
    let big = q * 256 * m;
    assert(n == big * p + r) by (nonlinear_arith)
        requires
            n == 0x1_0000_0000 * q + r,
            0x1_0000_0000 == 256 * (m * p),
            big == q * 256 * m,
    ;
    lemma_hoist_over_denominator(r as int, big as int, p);
    assert(n / p == r / p + big);
    assert(big == 256 * (q * m)) by (nonlinear_arith)
        requires
            big == q * 256 * m,
    ;
    lemma_mod_multiples_vanish((q * m) as int, (r / p) as int, 256);
}

/// One more digit: the new accumulator and the bytes already complete.
proof fn lemma_digit_step(d: Seq<nat>, x: nat, val: u32, out_len: nat)
    requires
        x < 32,
        val as nat == b32_number(d) % 0x1_0000_0000,
        8 * out_len <= 5 * d.len(),
    ensures
        ((val as u64 * 32 + x as u64) % 0x1_0000_0000) as nat == b32_number(d.push(x))
            % 0x1_0000_0000,
        forall|j: int|
            0 <= j < out_len ==> #[trigger] b32_byte(d.push(x), j) == b32_byte(d, j),
{
    let d2 = d.push(x);
    assert(d2.drop_last() =~= d);
    lemma_mul_mod_noop_left(b32_number(d) as int, 32, 0x1_0000_0000);
    lemma_add_mod_noop((b32_number(d) * 32) as int, x as int, 0x1_0000_0000);
    lemma_add_mod_noop(((b32_number(d) % 0x1_0000_0000) * 32) as int, x as int, 0x1_0000_0000);
    lemma_mod_twice(((b32_number(d) % 0x1_0000_0000) * 32) as int, 0x1_0000_0000);
    assert forall|j: int| 0 <= j < out_len implies #[trigger] b32_byte(d2, j) == b32_byte(d, j) by {
        lemma_shift_digit(b32_number(d), x, (5 * d.len() - 8 * j - 8) as nat);
        assert((5 * d2.len() - 8 * j - 8) as nat == (5 * d.len() - 8 * j - 8) as nat + 5);
    }
}

fn b32_value(c: char) -> (r: Option<u32>)
    ensures
        match b32_digit(c) {
            Some(x) => r == Some(x as u32),
            None => r is None,
        },
{
    let up = if 'a' <= c && c <= 'z' {
        ((c as u32) - 32) as u32
    } else {
        c as u32
    };
    if 'A' as u32 <= up && up <= 'Z' as u32 {
        Some(up - 'A' as u32)
    } else if '2' as u32 <= up && up <= '7' as u32 {
        Some(up - '2' as u32 + 26)
    } else {
        None
    }
}

/// Base32 decoding (RFC 4648): case-insensitive, `=` and whitespace are ignored.
pub fn base32_decode(s: &str) -> (r: Option<Vec<u8>>)
    ensures
        match base32_decode_spec(s@) {
            Some(b) => r matches Some(v) && v@ == b,
            None => r is None,
        },
{
    let cs = chars_of(s);
    let mut bits: u32 = 0;
    let mut val: u32 = 0;
    let mut out: Vec<u8> = Vec::new();
    let ghost mut d: Seq<nat> = seq![];
    let mut i: usize = 0;
    assert(cs@.take(0) =~= Seq::<char>::empty());
    while i < cs.len()
        invariant
            i <= cs@.len(),
            cs@ == s@,
            b32_digits(cs@.take(i as int)) == Some(d),
            forall|k: int| 0 <= k < d.len() ==> #[trigger] d[k] < 32,
            val as nat == b32_number(d) % 0x1_0000_0000,
            bits < 8,
            bits + 8 * out@.len() == 5 * d.len(),
            forall|j: int| 0 <= j < out@.len() ==> #[trigger] out@[j] == b32_byte(d, j),
        decreases cs.len() - i,
    {
        let c = cs[i];
        assert(cs@.take(i + 1).drop_last() =~= cs@.take(i as int));
        if c == '=' || is_whitespace(c) {
            i = i + 1;
            continue;
        }
        let x = match b32_value(c) {
            Some(x) => x,
            None => {
                proof {
                    assert(cs@.take(i + 1).last() == c);
                    assert(b32_digit(c) is None);
                    assert(b32_digits(cs@.take(i + 1)) is None);
                    lemma_none_stays(cs@, (i + 1) as nat);
                    assert(b32_digits(s@) is None);
                    assert(base32_decode_spec(s@) is None);
                }
                return None;
            },
        };
        let ghost d2 = d.push(x as nat);
        proof {
            assert((val << 5u32) | x == ((val as u64 * 32 + x as u64) % 0x1_0000_0000) as u32)
                by (bit_vector)
                requires
                    x < 32,
            ;
            lemma_digit_step(d, x as nat, val, out@.len());
        }
        val = (val << 5u32) | x;
        bits = bits + 5;
        if bits >= 8 {
            bits = bits - 8;
            let byte = (val >> bits) as u8;
            proof {
                lemma_u32_shr_is_div(val, bits);
                assert((val >> bits) as u8 == ((val >> bits) % 256) as u8) by (bit_vector);
                lemma_low_word_byte(b32_number(d2), bits as nat);
                assert(bits as nat == (5 * d2.len() - 8 * out@.len() - 8) as nat);
            }
            out.push(byte);
        }
        proof {
            d = d2;
        }
        i = i + 1;
        assert forall|k: int| 0 <= k < d.len() implies #[trigger] d[k] < 32 by {
            if k < d.len() - 1 {
                assert(d[k] == d.drop_last()[k]);
            }
        }
    }
    assert(cs@.take(cs@.len() as int) =~= cs@);
    if out.len() == 0 {
        return None;
    }
    assert(out@ =~= b32_bytes(d));
    Some(out)
}

proof fn lemma_none_stays(s: Seq<char>, k: nat)
    requires
        k <= s.len(),
        b32_digits(s.take(k as int)) is None,
    ensures
        b32_digits(s) is None,
    decreases s.len() - k,
{
    if k < s.len() {
        assert(s.take(k as int + 1).drop_last() =~= s.take(k as int));
        lemma_none_stays(s, k + 1);
    } else {
        assert(s.take(k as int) =~= s);
    }
}

/// A key text in normal form: padding and whitespace left out, letters in upper case.
pub open spec fn b32_normal(s: Seq<char>) -> Seq<char>
    decreases s.len(),
{
    if s.len() == 0 {
        seq![]
    } else if s.last() == '=' || is_ws(s.last()) {
        b32_normal(s.drop_last())
    } else {
        b32_normal(s.drop_last()).push(ascii_upper(s.last()))
    }
}

proof fn lemma_upper_fest(c: char)
    ensures
        ascii_upper(ascii_upper(c)) == ascii_upper(c),
        c != '=' && !is_ws(c) ==> ascii_upper(c) != '=' && !is_ws(ascii_upper(c)),
{
    if 'a' <= c <= 'z' {
        let u = ((c as u32) - 32) as char;
        assert(65 <= (c as u32) - 32 <= 90);
        assert(u as u32 == (c as u32) - 32);
    }
}

proof fn lemma_b32_normal(s: Seq<char>)
    ensures
        b32_digits(s) == b32_digits(b32_normal(s)),
    decreases s.len(),
{
    if s.len() > 0 {
        lemma_b32_normal(s.drop_last());
        let c = s.last();
        if !(c == '=' || is_ws(c)) {
            lemma_upper_fest(c);
            let n = b32_normal(s.drop_last()).push(ascii_upper(c));
            assert(n.drop_last() =~= b32_normal(s.drop_last()));
            assert(b32_digit(ascii_upper(c)) == b32_digit(c));
        }
    }
}

/// Letter case, padding and whitespace do not matter: key texts with the same normal form
/// decode alike.
pub proof fn lemma_b32_schreibweise(s: Seq<char>, t: Seq<char>)
    requires
        b32_normal(s) == b32_normal(t),
    ensures
        base32_decode_spec(s) == base32_decode_spec(t),
{
    lemma_b32_normal(s);
    lemma_b32_normal(t);
}

// ------------------------------------------------------------ encoding (RFC 4648)

/// The character of a base32 digit value: `A` to `Z`, then `2` to `7`.
pub open spec fn b32_zeichen(x: nat) -> char {
    if x < 26 {
        ((65 + x) as u32) as char
    } else {
        ((24 + x) as u32) as char
    }
}

/// The number whose base-256 digits, most significant first, are the bytes `b`.
pub open spec fn byte_zahl(b: Seq<u8>) -> nat
    decreases b.len(),
{
    if b.len() == 0 {
        0
    } else {
        byte_zahl(b.drop_last()) * 256 + b.last() as nat
    }
}

/// How many base32 digits RFC 4648 writes for `n` bytes: their bits in whole digits.
pub open spec fn ziffern_zahl(n: nat) -> nat {
    (8 * n + 4) / 5
}

/// The digit values RFC 4648 writes for the bytes `b`: their bits, filled up with zero bits
/// to whole digits, five bits a digit.
pub open spec fn b32_ziffern_von(b: Seq<u8>) -> Seq<nat> {
    let m = ziffern_zahl(b.len());
    let p = byte_zahl(b) * pow2((5 * m - 8 * b.len()) as nat);
    Seq::new(m, |k: int| (p / pow2((5 * (m - 1 - k)) as nat)) % 32)
}

/// The base32 text RFC 4648 writes for the bytes `b`, without padding.
pub open spec fn base32_ohne_fuellung(b: Seq<u8>) -> Seq<char> {
    b32_ziffern_von(b).map_values(|x: nat| b32_zeichen(x))
}

/// The base32 text RFC 4648 writes for the bytes `b`: the digits, then `=` up to a multiple
/// of eight characters.
pub open spec fn base32_encode_spec(b: Seq<u8>) -> Seq<char> {
    let t = base32_ohne_fuellung(b);
    t + Seq::new(((8 - t.len() % 8) % 8) as nat, |i: int| '=')
}

proof fn lemma_zeichen_liest(x: nat)
    requires
        x < 32,
    ensures
        b32_digit(b32_zeichen(x)) == Some(x),
        b32_zeichen(x) != '=',
        !is_ws(b32_zeichen(x)),
{
    let c = b32_zeichen(x);
    if x < 26 {
        assert(c as u32 == 65 + x);
    } else {
        assert(c as u32 == 24 + x);
    }
}

proof fn lemma_zeichen_lesen(d: Seq<nat>)
    requires
        forall|i: int| 0 <= i < d.len() ==> #[trigger] d[i] < 32,
    ensures
        b32_digits(d.map_values(|x: nat| b32_zeichen(x))) == Some(d),
    decreases d.len(),
{
    if d.len() > 0 {
        let t = d.map_values(|x: nat| b32_zeichen(x));
        assert(t.drop_last() =~= d.drop_last().map_values(|x: nat| b32_zeichen(x)));
        lemma_zeichen_lesen(d.drop_last());
        lemma_zeichen_liest(d.last());
        assert(d.drop_last().push(d.last()) =~= d);
    }
}

proof fn lemma_fuellung_lesen(s: Seq<char>, q: nat)
    ensures
        b32_digits(s + Seq::new(q, |i: int| '=')) == b32_digits(s),
    decreases q,
{
    let t = s + Seq::new(q, |i: int| '=');
    if q == 0 {
        assert(t =~= s);
    } else {
        assert(t.drop_last() =~= s + Seq::new((q - 1) as nat, |i: int| '='));
        lemma_fuellung_lesen(s, (q - 1) as nat);
    }
}

proof fn lemma_byte_zahl_grenze(b: Seq<u8>)
    ensures
        byte_zahl(b) < pow2(8 * b.len()),
    decreases b.len(),
{
    lemma2_to64();
    if b.len() > 0 {
        let v = b.drop_last();
        lemma_byte_zahl_grenze(v);
        lemma_pow2_adds(8 * v.len(), 8);
        assert(8 * b.len() == 8 * v.len() + 8);
        let z = byte_zahl(v);
        let g = pow2(8 * v.len());
        let l = b.last() as nat;
        assert(z * 256 + l < g * 256) by (nonlinear_arith)
            requires
                z < g,
                l < 256,
        ;
    }
}

/// Reading the digits of `p` one by one, most significant first, builds up `p` from its top.
proof fn lemma_ziffern_zahl(p: nat, m: nat, k: nat)
    requires
        k <= m,
        p < pow2(5 * m),
    ensures
        b32_number(Seq::new(m, |i: int| (p / pow2((5 * (m - 1 - i)) as nat)) % 32).take(k as int))
            == p / pow2((5 * (m - k)) as nat),
    decreases k,
{
    let d = Seq::new(m, |i: int| (p / pow2((5 * (m - 1 - i)) as nat)) % 32);
    lemma_pow2_pos(5 * m);
    if k == 0 {
        assert(d.take(0) =~= Seq::<nat>::empty());
        lemma_fundamental_div_mod_converse(p as int, pow2(5 * m) as int, 0, p as int);
    } else {
        lemma_ziffern_zahl(p, m, (k - 1) as nat);
        assert(d.take(k as int).drop_last() =~= d.take(k - 1));
        let e = (5 * (m - k)) as nat;
        assert(d.take(k as int).last() == (p / pow2(e)) % 32);
        assert((5 * (m - (k - 1))) as nat == e + 5);
        lemma_pow2_adds(e, 5);
        lemma_pow2_pos(e);
        assert(pow2(5) == 32) by {
            lemma2_to64();
        }
        lemma_div_denominator(p as int, pow2(e) as int, 32);
        let q = p / pow2(e);
        lemma_fundamental_div_mod(q as int, 32);
    }
}

/// Byte `j` of the bytes, read from their number.
proof fn lemma_byte_lesen(b: Seq<u8>, j: int)
    requires
        0 <= j < b.len(),
    ensures
        (byte_zahl(b) / pow2((8 * (b.len() - 1 - j)) as nat)) % 256 == b[j],
    decreases b.len(),
{
    let v = b.drop_last();
    let z = byte_zahl(v);
    let l = b.last() as nat;
    let x = byte_zahl(b);
    assert(x == z * 256 + l);
    lemma_fundamental_div_mod_converse(x as int, 256, z as int, l as int);
    lemma2_to64();
    if j == b.len() - 1 {
        assert((8 * (b.len() - 1 - j)) as nat == 0);
        assert(x / 1 == x);
    } else {
        lemma_byte_lesen(v, j);
        let e = (8 * (v.len() - 1 - j)) as nat;
        assert((8 * (b.len() - 1 - j)) as nat == 8 + e);
        lemma_pow2_adds(8, e);
        lemma_pow2_pos(e);
        lemma_div_denominator(x as int, 256, pow2(e) as int);
        assert(v[j] == b[j]);
    }
}

/// The bytes come back from the digits RFC 4648 writes for them.
proof fn lemma_ziffern_lesen(b: Seq<u8>)
    requires
        b.len() >= 1,
    ensures
        5 * ziffern_zahl(b.len()) / 8 == b.len(),
        b32_bytes(b32_ziffern_von(b)) == b,
        forall|i: int| 0 <= i < b32_ziffern_von(b).len() ==> #[trigger] b32_ziffern_von(b)[i] < 32,
{
    let n = b.len();
    let m = ziffern_zahl(n);
    assert(8 * n <= 5 * m <= 8 * n + 4);
    let e = (5 * m - 8 * n) as nat;
    let zn = byte_zahl(b);
    let p = zn * pow2(e);
    let d = b32_ziffern_von(b);
    lemma_byte_zahl_grenze(b);
    lemma_pow2_pos(e);
    lemma_pow2_adds(8 * n, e);
    assert(8 * n + e == 5 * m);
    vstd::arithmetic::mul::lemma_mul_strict_inequality(zn as int, pow2(8 * n) as int, pow2(e) as int);
    assert(p < pow2(5 * m));
    lemma_ziffern_zahl(p, m, m);
    let d2 = Seq::new(m, |i: int| (p / pow2((5 * (m - 1 - i)) as nat)) % 32);
    assert(d =~= d2);
    assert(d2.take(m as int) =~= d2);
    assert((5 * (m - m)) as nat == 0);
    assert(pow2(0) == 1) by {
        lemma2_to64();
    }
    assert(p / 1 == p);
    assert(b32_number(d) == p);
    assert forall|j: int| 0 <= j < n implies #[trigger] b32_byte(d, j) == b[j] by {
        let r = (8 * (n - 1 - j)) as nat;
        assert((5 * d.len() - 8 * j - 8) as nat == e + r);
        lemma_pow2_adds(e, r);
        lemma_pow2_pos(r);
        lemma_div_denominator(p as int, pow2(e) as int, pow2(r) as int);
        vstd::arithmetic::div_mod::lemma_div_by_multiple(zn as int, pow2(e) as int);
        lemma_byte_lesen(b, j);
    }
    assert(b32_bytes(d) =~= b);
}

/// Decoding reads what RFC 4648 encoding writes: the base32 text of bytes, with its padding,
/// with none or with any number of `=` after the digits, decodes to those bytes.
pub proof fn lemma_base32_rundreise(b: Seq<u8>, fuellung: nat)
    requires
        b.len() >= 1,
    ensures
        base32_decode_spec(base32_encode_spec(b)) == Some(b),
        base32_decode_spec(base32_ohne_fuellung(b) + Seq::new(fuellung, |i: int| '=')) == Some(b),
{
    lemma_ziffern_lesen(b);
    lemma_zeichen_lesen(b32_ziffern_von(b));
    let t = base32_ohne_fuellung(b);
    lemma_fuellung_lesen(t, fuellung);
    lemma_fuellung_lesen(t, ((8 - t.len() % 8) % 8) as nat);
}

} // verus!
