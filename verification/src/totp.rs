//! TOTP (RFC 6238) over HMAC-SHA1, and the accounts of the authenticator.

use vstd::prelude::*;
use vstd::arithmetic::div_mod::{
    lemma_div_denominator, lemma_fundamental_div_mod_converse, lemma_mod_breakdown, lemma_mod_mod,
};
use crate::sha1::{hashable_len, hmac_sha1, hmac_sha1_spec, u64_bytes};
use crate::text::{
    chars_of, concat, decimal, decimal_padded, decimal_padded_chars, digit_char, is_whitespace,
    is_ws, parse_u32,
    parse_u64, parse_unsigned, same_str, split, split_at_char, split_once, split_once_at,
    string_of, strip_prefix, strip_prefix_chars, trim, trim_chars, trim_str, views, lemma_trim_fest,
};
use crate::base32::{base32_decode, base32_decode_spec};
use vstd::utf8::{decode_utf8, is_continuation_byte, valid_utf8};

verus! {

/// `10^n`.
pub open spec fn pow10(n: nat) -> nat
    decreases n,
{
    if n == 0 {
        1
    } else {
        10 * pow10((n - 1) as nat)
    }
}

/// The time step counter: whole periods since the epoch (a period of 0 counts as 1).
pub open spec fn time_counter(zeit_s: u64, periode: u64) -> nat {
    if periode == 0 {
        zeit_s as nat
    } else {
        (zeit_s / periode) as nat
    }
}

/// Dynamic truncation (RFC 4226, section 5.3): the 31-bit number at the offset that the
/// low nibble of the last byte names.
pub open spec fn dynamic_truncation(h: Seq<u8>) -> nat {
    let off = (h[19] & 0x0f) as int;
    ((h[off] & 0x7f) as nat) * 0x100_0000 + (h[off + 1] as nat) * 0x1_0000 + (h[off + 2] as nat)
        * 0x100 + h[off + 3] as nat
}

/// The TOTP code: the truncated HMAC of the big-endian counter, modulo `10^stellen`,
/// written with `stellen` digits.
pub open spec fn totp_spec(secret: Seq<u8>, zeit_s: u64, periode: u64, stellen: u32) -> Seq<char> {
    let h = hmac_sha1_spec(secret, u64_bytes(time_counter(zeit_s, periode) as u64));
    decimal_padded(dynamic_truncation(h) % pow10(stellen as nat), stellen as nat)
}

/// The last `w` decimal digits of `y`, leading zeros kept.
pub open spec fn stellig(y: nat, w: nat) -> Seq<char>
    decreases w,
{
    if w == 0 {
        seq![]
    } else {
        stellig(y / 10, (w - 1) as nat) + seq![digit_char(y % 10)]
    }
}

proof fn lemma_pow10_positiv(n: nat)
    ensures
        pow10(n) >= 1,
    decreases n,
{
    if n > 0 {
        lemma_pow10_positiv((n - 1) as nat);
    }
}

proof fn lemma_pow10_summe(a: nat, b: nat)
    ensures
        pow10(a + b) == pow10(a) * pow10(b),
    decreases b,
{
    if b > 0 {
        let b1 = (b - 1) as nat;
        lemma_pow10_summe(a, b1);
        let pa = pow10(a);
        let pb1 = pow10(b1);
        assert(a + b == (a + b1) + 1);
        assert(pow10(a + b) == 10 * pow10(a + b1));
        assert(pow10(b) == 10 * pb1);
        assert(pa * (10 * pb1) == 10 * (pa * pb1)) by (nonlinear_arith);
    } else {
        assert(a + b == a);
        assert(pow10(b) == 1);
        assert(pow10(a) * 1 == pow10(a));
    }
}

proof fn lemma_stellig_laenge(y: nat, w: nat)
    ensures
        stellig(y, w).len() == w,
    decreases w,
{
    if w > 0 {
        lemma_stellig_laenge(y / 10, (w - 1) as nat);
    }
}

proof fn lemma_stellig_null(k: nat)
    ensures
        stellig(0, k) == Seq::new(k, |i: int| '0'),
    decreases k,
{
    if k > 0 {
        lemma_stellig_null((k - 1) as nat);
        assert(digit_char(0) == '0');
        assert(stellig(0, k) =~= Seq::new(k, |i: int| '0'));
    }
}

proof fn lemma_decimal_laenge(y: nat, w: nat)
    requires
        w >= 1,
        y < pow10(w),
    ensures
        decimal(y).len() <= w,
    decreases w,
{
    if y >= 10 {
        assert(w >= 2) by {
            if w == 1 {
                assert(pow10(1) == 10 * pow10(0));
            }
        }
        assert(y / 10 < pow10((w - 1) as nat)) by {
            assert(pow10(w) == 10 * pow10((w - 1) as nat));
        }
        lemma_decimal_laenge(y / 10, (w - 1) as nat);
    }
}

/// Below `10^w`, the padded decimal notation is the last `w` digits.
proof fn lemma_gepolstert_stellig(y: nat, w: nat)
    requires
        w >= 1,
        y < pow10(w),
    ensures
        decimal_padded(y, w) == stellig(y, w),
    decreases w,
{
    if y < 10 {
        lemma_stellig_null((w - 1) as nat);
        assert(y / 10 == 0 && y % 10 == y);
        assert(decimal_padded(y, w) =~= stellig(y, w));
    } else {
        assert(w >= 2) by {
            if w == 1 {
                assert(pow10(1) == 10 * pow10(0));
            }
        }
        assert(y / 10 < pow10((w - 1) as nat)) by {
            assert(pow10(w) == 10 * pow10((w - 1) as nat));
        }
        lemma_gepolstert_stellig(y / 10, (w - 1) as nat);
        lemma_decimal_laenge(y / 10, (w - 1) as nat);
        let d = decimal(y / 10);
        assert(decimal(y) == d + seq![digit_char(y % 10)]);
        assert(decimal_padded(y, w) =~= decimal_padded(y / 10, (w - 1) as nat) + seq![
            digit_char(y % 10),
        ]);
    }
}

/// The last `d` digits depend only on the value modulo `10^d`.
proof fn lemma_stellig_rest(y: nat, d: nat)
    ensures
        stellig(y, d) == stellig(y % pow10(d), d),
    decreases d,
{
    if d > 0 {
        let p = pow10((d - 1) as nat);
        lemma_pow10_positiv((d - 1) as nat);
        lemma_stellig_rest(y / 10, (d - 1) as nat);
        lemma_stellig_rest((y % pow10(d)) / 10, (d - 1) as nat);
        assert(pow10(d) == 10 * p);
        lemma_mod_breakdown(y as int, 10, p as int);
        let r = y % pow10(d);
        let q = (y / 10) % p;
        assert(r == 10 * q + y % 10);
        lemma_fundamental_div_mod_converse(r as int, 10, q as int, (y % 10) as int);
        assert(r / 10 == q && r % 10 == y % 10);
        assert(q % p == q) by {
            lemma_mod_mod((y / 10) as int, p as int, 1);
        }
        lemma_stellig_rest(q, (d - 1) as nat);
    }
}

/// Digits split: the last `a + d` digits are the last `a` digits of `y / 10^d` followed by
/// the last `d` digits of `y`.
proof fn lemma_stellig_teilen(y: nat, a: nat, d: nat)
    ensures
        stellig(y, a + d) == stellig(y / pow10(d), a) + stellig(y, d),
    decreases d,
{
    if d == 0 {
        assert(pow10(d) == 1);
        assert(y / 1 == y);
        assert(a + d == a);
        assert(stellig(y, a + d) =~= stellig(y / pow10(d), a) + stellig(y, d));
    } else {
        lemma_stellig_teilen(y / 10, a, (d - 1) as nat);
        lemma_pow10_positiv((d - 1) as nat);
        lemma_div_denominator(y as int, 10, pow10((d - 1) as nat) as int);
        assert(pow10(d) == 10 * pow10((d - 1) as nat));
        let d1 = (d - 1) as nat;
        assert(a + d == (a + d1) + 1);
        assert((y / 10) / pow10(d1) == y / pow10(d));
        assert(stellig(y, a + d) == stellig(y / 10, a + d1) + seq![digit_char(y % 10)]);
        assert(stellig(y / 10, a + d1) == stellig(y / pow10(d), a) + stellig(y / 10, d1));
        assert(stellig(y, d) == stellig(y / 10, d1) + seq![digit_char(y % 10)]);
        let ya = stellig(y / pow10(d), a);
        let yb = stellig(y / 10, d1);
        let c = seq![digit_char(y % 10)];
        assert((ya + yb) + c =~= ya + (yb + c));
    }
}

/// A code with fewer digits is the end of the nine-digit code: only the modulus `10^d`
/// differs.
pub proof fn lemma_kurzer_code(secret: Seq<u8>, zeit_s: u64, periode: u64, d: u32)
    requires
        1 <= d <= 9,
    ensures
        totp_spec(secret, zeit_s, periode, d) == totp_spec(secret, zeit_s, periode, 9).skip(
            9 - d,
        ),
{
    let h = hmac_sha1_spec(secret, u64_bytes(time_counter(zeit_s, periode) as u64));
    let x = dynamic_truncation(h);
    let dn = d as nat;
    lemma_pow10_positiv(dn);
    lemma_pow10_positiv((9 - dn) as nat);
    lemma_pow10_summe(dn, (9 - dn) as nat);
    lemma_pow10_positiv(9);
    let y9 = x % pow10(9);
    let yd = x % pow10(dn);
    lemma_gepolstert_stellig(yd, dn);
    lemma_gepolstert_stellig(y9, 9);
    lemma_stellig_teilen(y9, (9 - dn) as nat, dn);
    lemma_stellig_laenge(y9 / pow10(dn), (9 - dn) as nat);
    lemma_stellig_laenge(y9, dn);
    assert(stellig(y9, 9).skip(9 - d) =~= stellig(y9, dn));
    lemma_stellig_rest(y9, dn);
    lemma_mod_mod(x as int, pow10(dn) as int, pow10((9 - dn) as nat) as int);
}

/// A code stays the same within one time step, and a period of 0 acts as 1.
pub proof fn lemma_code_im_schritt(secret: Seq<u8>, a: u64, b: u64, periode: u64, d: u32)
    ensures
        (if periode == 0 { a as int } else { (a / periode) as int }) == (if periode == 0 {
            b as int
        } else {
            (b / periode) as int
        }) ==> totp_spec(secret, a, periode, d) == totp_spec(secret, b, periode, d),
        totp_spec(secret, a, 0, d) == totp_spec(secret, a, 1, d),
{
}

/// `10u32.pow(n)` for `n <= 9`.
fn pow10_u32(n: u32) -> (r: u32)
    requires
        n <= 9,
    ensures
        r == pow10(n as nat),
        r >= 1,
{
    let mut r: u32 = 1;
    let mut i: u32 = 0;
    while i < n
        invariant
            i <= n <= 9,
            r == pow10(i as nat),
            1 <= r <= 1_000_000_000,
        decreases n - i,
    {
        assert(pow10(i as nat) <= 100_000_000) by {
            lemma_pow10_bound(i as nat);
        }
        r = r * 10;
        i = i + 1;
    }
    r
}

proof fn lemma_pow10_bound(n: nat)
    requires
        n <= 8,
    ensures
        pow10(n) <= 100_000_000,
    decreases n,
{
    reveal_with_fuel(pow10, 9);
}

/// The eight big-endian bytes of `x`.
fn be_bytes(x: u64) -> (msg: Vec<u8>)
    ensures
        msg@ == u64_bytes(x),
{
    let mut msg: Vec<u8> = Vec::new();
    msg.push((x >> 56u64) as u8);
    msg.push((x >> 48u64) as u8);
    msg.push((x >> 40u64) as u8);
    msg.push((x >> 32u64) as u8);
    msg.push((x >> 24u64) as u8);
    msg.push((x >> 16u64) as u8);
    msg.push((x >> 8u64) as u8);
    msg.push(x as u8);
    assert(msg@ =~= u64_bytes(x));
    msg
}

/// Dynamic truncation of a 20-byte HMAC.
fn truncate(hash: &[u8; 20]) -> (bin: u32)
    ensures
        bin as nat == dynamic_truncation(hash@),
{
    let last = hash[19];
    assert(last & 0x0f <= 15) by (bit_vector);
    let offset = (last & 0x0f) as usize;
    let b0 = hash[offset];
    let b1 = hash[offset + 1];
    let b2 = hash[offset + 2];
    let b3 = hash[offset + 3];
    assert(((b0 as u32 & 0x7f) << 24u32) | ((b1 as u32) << 16u32) | ((b2 as u32) << 8u32) | (
    b3 as u32) == (b0 & 0x7f) as u32 * 0x100_0000 + (b1 as u32) * 0x1_0000 + (b2 as u32) * 0x100
        + (b3 as u32)) by (bit_vector);
    ((b0 as u32 & 0x7f) << 24u32) | ((b1 as u32) << 16u32) | ((b2 as u32) << 8u32) | (b3 as u32)
}

/// TOTP code (RFC 6238) for a point in time.
pub fn totp(secret: &[u8], zeit_s: u64, periode: u64, stellen: u32) -> (code: String)
    requires
        hashable_len(secret@.len()),
        stellen <= 9,
    ensures
        code@ == totp_spec(secret@, zeit_s, periode, stellen),
{
    let p = if periode > 1 {
        periode
    } else {
        1
    };
    let counter = zeit_s / p;
    let msg = be_bytes(counter);
    let hash = hmac_sha1(secret, msg.as_slice());
    let bin = truncate(&hash);
    let code = bin % pow10_u32(stellen);
    let digits = decimal_padded_chars(code as u64, stellen as usize);
    string_of(&digits)
}

// ----------------------------------------------------------- percent codes

/// The value of an ASCII hexadecimal digit (either case).
pub open spec fn hex_value(b: u8) -> Option<nat> {
    if 0x30 <= b <= 0x39 {
        Some((b - 0x30) as nat)
    } else if 0x61 <= b <= 0x66 {
        Some((b - 0x61 + 10) as nat)
    } else if 0x41 <= b <= 0x46 {
        Some((b - 0x41 + 10) as nat)
    } else {
        None
    }
}

/// What `u8::from_str_radix(.., 16)` returns for a two-byte text: two hex digits, or `+`
/// and one hex digit.
pub open spec fn hex_pair(b1: u8, b2: u8) -> Option<u8> {
    if b1 == 0x2b {
        match hex_value(b2) {
            Some(v) => Some(v as u8),
            None => None,
        }
    } else {
        match (hex_value(b1), hex_value(b2)) {
            (Some(h), Some(l)) => Some((h * 16 + l) as u8),
            _ => None,
        }
    }
}

/// The bytes with every `%XY` (X, Y hex digits, or X a `+`) replaced by the byte it names.
pub open spec fn pct_bytes(b: Seq<u8>) -> Seq<u8>
    decreases b.len(),
{
    if b.len() == 0 {
        seq![]
    } else if b[0] == 0x25 && 2 < b.len() && hex_pair(b[1], b[2]) is Some {
        seq![hex_pair(b[1], b[2])->0] + pct_bytes(b.skip(3))
    } else {
        seq![b[0]] + pct_bytes(b.skip(1))
    }
}

/// Percent decoding in bytes: bytes without `%` stay as they are, and `%` with two hex
/// digits becomes the byte they write (`%20` a blank, `%C3%A4` the two bytes of `ä`).
pub proof fn lemma_prozent_bytes(a: Seq<u8>, h: u8, l: u8, c: Seq<u8>)
    requires
        !a.contains(0x25u8),
        hex_value(h) is Some,
        hex_value(l) is Some,
    ensures
        pct_bytes(a + seq![0x25u8, h, l] + c) == a + seq![
            (hex_value(h)->0 * 16 + hex_value(l)->0) as u8,
        ] + pct_bytes(c),
        pct_bytes(a) == a,
    decreases a.len(),
{
    let s = a + seq![0x25u8, h, l] + c;
    if a.len() == 0 {
        assert(s =~= seq![0x25u8, h, l] + c);
        assert(s.skip(3) =~= c);
        assert(a + seq![(hex_value(h)->0 * 16 + hex_value(l)->0) as u8] + pct_bytes(c) =~= seq![
            (hex_value(h)->0 * 16 + hex_value(l)->0) as u8,
        ] + pct_bytes(c));
    } else {
        let r = a.skip(1);
        assert(!r.contains(0x25u8)) by {
            if r.contains(0x25u8) {
                let k = choose|k: int| 0 <= k < r.len() && r[k] == 0x25u8;
                assert(a[k + 1] == 0x25u8);
            }
        }
        assert(a[0] != 0x25u8) by {
            assert(a.contains(a[0]) ==> a[0] != 0x25u8);
            assert(a[0] == a[0]);
        }
        lemma_prozent_bytes(r, h, l, c);
        assert(s[0] == a[0]);
        assert(s.skip(1) =~= r + seq![0x25u8, h, l] + c);
        assert(a.skip(1) =~= r);
        assert(a =~= seq![a[0]] + r);
        assert(a + seq![(hex_value(h)->0 * 16 + hex_value(l)->0) as u8] + pct_bytes(c) =~= seq![
            a[0],
        ] + (r + seq![(hex_value(h)->0 * 16 + hex_value(l)->0) as u8] + pct_bytes(c)));
    }
}

/// The inputs on which the scan never cuts a character apart when it looks at the two
/// bytes after a `%` (the text slice there would not fall on a character boundary).
pub open spec fn pct_ok(b: Seq<u8>) -> bool
    decreases b.len(),
{
    if b.len() == 0 {
        true
    } else if b[0] == 0x25 && 2 < b.len() {
        if 3 < b.len() && is_continuation_byte(b[3]) {
            false
        } else if hex_pair(b[1], b[2]) is Some {
            pct_ok(b.skip(3))
        } else {
            pct_ok(b.skip(1))
        }
    } else {
        pct_ok(b.skip(1))
    }
}

/// What `String::from_utf8_lossy` makes of a byte sequence.
pub uninterp spec fn utf8_lossy(b: Seq<u8>) -> Seq<char>;

/// `String::from_utf8_lossy`: the text of the bytes, with U+FFFD for invalid sequences.
/// Stated: the result is a function of the bytes alone, and valid UTF-8 decodes exactly.
#[verifier::external_body]
fn from_utf8_lossy(b: &Vec<u8>) -> (s: String)
    ensures
        s@ == utf8_lossy(b@),
        valid_utf8(b@) ==> s@ == decode_utf8(b@),
{
    String::from_utf8_lossy(b.as_slice()).into_owned()
}

/// The percent decoding of a text, as the authenticator applies it to labels.
pub open spec fn pct_decode_spec(s: Seq<char>) -> Seq<char> {
    utf8_lossy(pct_bytes(vstd::utf8::encode_utf8(s)))
}

fn hex_value_exec(b: u8) -> (r: Option<u8>)
    ensures
        match hex_value(b) {
            Some(v) => r == Some(v as u8),
            None => r is None,
        },
{
    if 0x30 <= b && b <= 0x39 {
        Some(b - 0x30)
    } else if 0x61 <= b && b <= 0x66 {
        Some(b - 0x61 + 10)
    } else if 0x41 <= b && b <= 0x46 {
        Some(b - 0x41 + 10)
    } else {
        None
    }
}

pub(crate) fn hex_pair_exec(b1: u8, b2: u8) -> (r: Option<u8>)
    ensures
        r == hex_pair(b1, b2),
{
    if b1 == 0x2b {
        hex_value_exec(b2)
    } else {
        match (hex_value_exec(b1), hex_value_exec(b2)) {
            (Some(h), Some(l)) => Some(h * 16 + l),
            _ => None,
        }
    }
}

/// Minimal percent decoding for otpauth labels.
pub fn pct_decode(s: &str) -> (r: String)
    requires
        pct_ok(vstd::utf8::encode_utf8(s@)),
    ensures
        r@ == pct_decode_spec(s@),
{
    let b = s.as_bytes();
    let ghost bs = b@;
    let mut out: Vec<u8> = Vec::new();
    let mut i: usize = 0;
    assert(bs.skip(0) =~= bs);
    while i < b.len()
        invariant
            bs == b@,
            i <= b@.len(),
            out@ + pct_bytes(bs.skip(i as int)) == pct_bytes(bs),
        decreases b.len() - i,
    {
        let ghost t = bs.skip(i as int);
        if b[i] == 0x25 && b.len() - i > 2 {
            if let Some(v) = hex_pair_exec(b[i + 1], b[i + 2]) {
                assert(t.skip(3) =~= bs.skip(i + 3));
                assert(out@.push(v) + pct_bytes(bs.skip(i + 3)) =~= out@ + (seq![v] + pct_bytes(
                    bs.skip(i + 3),
                )));
                out.push(v);
                i = i + 3;
                continue;
            }
        }
        assert(t.skip(1) =~= bs.skip(i + 1));
        assert(out@.push(b[i as int]) + pct_bytes(bs.skip(i + 1)) =~= out@ + (seq![b[i as int]]
            + pct_bytes(bs.skip(i + 1))));
        out.push(b[i]);
        i = i + 1;
    }
    assert(out@ + Seq::<u8>::empty() =~= out@);
    from_utf8_lossy(&out)
}

// --------------------------------------------------------------- accounts

/// An account: what is shown, and the decoded secret.
#[derive(Clone)]
pub struct Konto {
    pub name: String,
    pub issuer: String,
    pub secret_b32: String,
    pub secret: Vec<u8>,
    pub stellen: u32,
    pub periode: u64,
}

impl View for Konto {
    /// (name, issuer, secret as typed, secret bytes, digits, period)
    type V = (Seq<char>, Seq<char>, Seq<char>, Seq<u8>, u32, u64);

    open spec fn view(&self) -> Self::V {
        (self.name@, self.issuer@, self.secret_b32@, self.secret@, self.stellen, self.periode)
    }
}

/// `s` with every whitespace character removed.
pub open spec fn without_ws(s: Seq<char>) -> Seq<char> {
    s.filter(|c: char| !is_ws(c))
}

/// The account that `Konto::neu` builds, or `None` for a secret that does not decode.
pub open spec fn konto_spec(
    name: Seq<char>,
    issuer: Seq<char>,
    secret_b32: Seq<char>,
    stellen: u32,
    periode: u64,
) -> Option<(Seq<char>, Seq<char>, Seq<char>, Seq<u8>, u32, u64)> {
    match base32_decode_spec(secret_b32) {
        None => None,
        Some(b) => Some((trim(name), trim(issuer), without_ws(secret_b32), b, stellen, periode)),
    }
}

/// The name shown for an account: the issuer first, then the account name.
pub open spec fn issuer_oder_name_spec(name: Seq<char>, issuer: Seq<char>) -> Seq<char> {
    if issuer.len() == 0 {
        name
    } else if name.len() == 0 || name == "Konto"@ {
        issuer
    } else {
        issuer + " · "@ + name
    }
}

fn without_whitespace(s: &Vec<char>) -> (r: Vec<char>)
    ensures
        r@ == without_ws(s@),
{
    let mut r: Vec<char> = Vec::new();
    let mut i: usize = 0;
    while i < s.len()
        invariant
            i <= s@.len(),
            r@ == without_ws(s@.take(i as int)),
        decreases s.len() - i,
    {
        assert(s@.take(i + 1).drop_last() =~= s@.take(i as int));
        proof {
            reveal(Seq::filter);
        }
        if !is_whitespace(s[i]) {
            r.push(s[i]);
        }
        i = i + 1;
    }
    assert(s@.take(s@.len() as int) =~= s@);
    r
}

/// The otpauth parameters gathered so far: (secret, issuer, digits, period).
pub type Params = (Seq<char>, Seq<char>, u32, u64);

/// One `key=value` pair applied to the parameters; a later pair overrides an earlier one,
/// unparsable numbers fall back to 6 digits and 30 seconds, unknown keys are ignored.
pub open spec fn apply_param(p: Params, pair: Seq<char>) -> Params {
    match split_once(pair, '=') {
        None => p,
        Some((k, v)) => if k == "secret"@ {
            (v, p.1, p.2, p.3)
        } else if k == "issuer"@ {
            (p.0, pct_decode_spec(v), p.2, p.3)
        } else if k == "digits"@ {
            (p.0, p.1, match parse_unsigned(v, u32::MAX as nat) {
                Some(n) => n as u32,
                None => 6,
            }, p.3)
        } else if k == "period"@ {
            (p.0, p.1, p.2, match parse_unsigned(v, u64::MAX as nat) {
                Some(n) => n as u64,
                None => 30,
            })
        } else {
            p
        },
    }
}

/// The parameters after the given pairs, starting from no secret, no issuer, 6 digits and
/// 30 seconds.
pub open spec fn params(pairs: Seq<Seq<char>>) -> Params
    decreases pairs.len(),
{
    if pairs.len() == 0 {
        (seq![], seq![], 6, 30)
    } else {
        apply_param(params(pairs.drop_last()), pairs.last())
    }
}

/// Whether a query pair sets the issuer.
pub open spec fn setzt_issuer(pair: Seq<char>) -> bool {
    split_once(pair, '=') matches Some((k, w)) && k == "issuer"@
}

/// The issuer of an otpauth query is the percent-decoding of the value of its last
/// `issuer` pair (`issuer=ACME%20Corp` names "ACME Corp"), whatever pairs stand before it
/// and whatever other pairs follow.
pub proof fn lemma_issuer_dekodiert(pairs: Seq<Seq<char>>, i: int, v: Seq<char>)
    requires
        0 <= i < pairs.len(),
        split_once(pairs[i], '=') == Some(("issuer"@, v)),
        forall|j: int| i < j < pairs.len() ==> !setzt_issuer(#[trigger] pairs[j]),
    ensures
        params(pairs).1 == pct_decode_spec(v),
    decreases pairs.len(),
{
    reveal_strlit("issuer");
    reveal_strlit("secret");
    assert("issuer"@[0] != "secret"@[0]);
    if i < pairs.len() - 1 {
        let vorne = pairs.drop_last();
        assert forall|j: int| i < j < vorne.len() implies !setzt_issuer(#[trigger] vorne[j]) by {
            assert(vorne[j] == pairs[j]);
        }
        lemma_issuer_dekodiert(vorne, i, v);
        assert(!setzt_issuer(pairs[pairs.len() - 1]));
    } else {
        assert(pairs.last() == pairs[i]);
    }
}

/// An account read from an otpauth URI whose query's last `issuer` pair has a value that
/// decodes to a text has as its issuer that decoded text, trimmed.
pub proof fn lemma_uri_issuer(text: Seq<char>, i: int, v: Seq<char>)
    requires
        strip_prefix(trim(text), "otpauth://totp/"@) is Some,
        ({
            let pairs = split(label_and_query(strip_prefix(trim(text), "otpauth://totp/"@)->0).1, '&');
            &&& 0 <= i < pairs.len()
            &&& split_once(pairs[i], '=') == Some(("issuer"@, v))
            &&& forall|j: int| i < j < pairs.len() ==> !setzt_issuer(#[trigger] pairs[j])
        }),
        pct_decode_spec(v).len() > 0,
    ensures
        aus_eingabe_spec(text) matches Some(k) ==> k.1 == trim(pct_decode_spec(v)),
{
    let rest = strip_prefix(trim(text), "otpauth://totp/"@)->0;
    let (label_raw, query) = label_and_query(rest);
    let pairs = split(query, '&');
    lemma_issuer_dekodiert(pairs, i, v);
    let p = params(pairs);
    let (li, ln) = label_parts(pct_decode_spec(label_raw));
    assert(p.1.len() > 0);
    assert(aus_eingabe_spec(text) == konto_spec(trim(ln), trim(p.1), p.0, p.2, p.3));
    lemma_trim_fest(p.1);
}

/// The label and the query of an otpauth URI body (the part after the scheme and type).
pub open spec fn label_and_query(rest: Seq<char>) -> (Seq<char>, Seq<char>) {
    match split_once(rest, '?') {
        Some(lq) => lq,
        None => (rest, seq![]),
    }
}

/// The issuer and account name that a decoded label `Issuer:Account` names.
pub open spec fn label_parts(label: Seq<char>) -> (Seq<char>, Seq<char>) {
    match split_once(label, ':') {
        Some(p) => p,
        None => (seq![], label),
    }
}

/// What `Konto::aus_eingabe` builds from a text: an otpauth URI, or a bare base32 secret
/// (then named "Konto", six digits, 30 seconds).
pub open spec fn aus_eingabe_spec(text: Seq<char>) -> Option<
    (Seq<char>, Seq<char>, Seq<char>, Seq<u8>, u32, u64),
> {
    let t = trim(text);
    match strip_prefix(t, "otpauth://totp/"@) {
        Some(rest) => {
            let (label_raw, query) = label_and_query(rest);
            let label = pct_decode_spec(label_raw);
            let p = params(split(query, '&'));
            let (li, ln) = label_parts(label);
            let issuer = if p.1.len() == 0 && li.len() != 0 {
                li
            } else {
                p.1
            };
            konto_spec(trim(ln), trim(issuer), p.0, p.2, p.3)
        },
        None => konto_spec("Konto"@, seq![], t, 6, 30),
    }
}

/// The texts on which the percent decoding of the label and of every issuer value never cuts
/// a character apart.
pub open spec fn aus_eingabe_ok(text: Seq<char>) -> bool {
    match strip_prefix(trim(text), "otpauth://totp/"@) {
        Some(rest) => {
            let (label_raw, query) = label_and_query(rest);
            let pairs = split(query, '&');
            &&& pct_ok(vstd::utf8::encode_utf8(label_raw))
            &&& forall|i: int|
                0 <= i < pairs.len() ==> match #[trigger] split_once(pairs[i], '=') {
                    Some((k, v)) => k == "issuer"@ ==> pct_ok(vstd::utf8::encode_utf8(v)),
                    None => true,
                }
        },
        None => true,
    }
}

impl Konto {
    /// Builds an account from a base32 secret and names (`None` for an invalid secret).
    pub fn neu(name: &str, issuer: &str, secret_b32: &str, stellen: u32, periode: u64) -> (r:
        Option<Self>)
        ensures
            match konto_spec(name@, issuer@, secret_b32@, stellen, periode) {
                None => r is None,
                Some(k) => r matches Some(konto) && konto@ == k,
            },
    {
        let secret = match base32_decode(secret_b32) {
            Some(b) => b,
            None => return None,
        };
        let n = trim_str(name);
        let i = trim_str(issuer);
        let sv = chars_of(secret_b32);
        let compact = without_whitespace(&sv);
        Some(Konto {
            name: string_of(&n),
            issuer: string_of(&i),
            secret_b32: string_of(&compact),
            secret,
            stellen,
            periode,
        })
    }

    /// Reads an `otpauth://totp/LABEL?secret=..&issuer=..&digits=..&period=..` URI, or a bare
    /// base32 secret (then the account is named "Konto").
    pub fn aus_eingabe(text: &str) -> (r: Option<Self>)
        requires
            aus_eingabe_ok(text@),
        ensures
            match aus_eingabe_spec(text@) {
                None => r is None,
                Some(k) => r matches Some(konto) && konto@ == k,
            },
    {
        let t = trim_str(text);
        let prefix = chars_of("otpauth://totp/");
        match strip_prefix_chars(&t, &prefix) {
            Some(rest) => {
                let (label_raw, query) = match split_once_at(&rest, '?') {
                    Some(lq) => lq,
                    None => (rest, Vec::new()),
                };
                let label_s = string_of(&label_raw);
                let label = chars_of(pct_decode(label_s.as_str()).as_str());
                let pairs = split_at_char(&query, '&');
                proof {
                    assert((label_raw@, query@) == label_and_query(rest@));
                    let sp = split(query@, '&');
                    assert(views(pairs@) == sp);
                    assert forall|i: int| 0 <= i < pairs@.len() implies match #[trigger] split_once(
                        pairs@[i]@,
                        '=',
                    ) {
                        Some((k, v)) => k == "issuer"@ ==> pct_ok(vstd::utf8::encode_utf8(v)),
                        None => true,
                    } by {
                        assert(sp[i] == pairs@[i]@);
                        assert(match split_once(sp[i], '=') {
                            Some((k, v)) => k == "issuer"@ ==> pct_ok(vstd::utf8::encode_utf8(v)),
                            None => true,
                        });
                    }
                }
                let (secret, issuer, stellen, periode) = read_params(&pairs);
                let (li, ln) = match split_once_at(&label, ':') {
                    Some(p) => p,
                    None => (Vec::new(), label),
                };
                let issuer = if issuer.len() == 0 && li.len() != 0 {
                    li
                } else {
                    issuer
                };
                let ln = trim_chars(&ln);
                let issuer = trim_chars(&issuer);
                Konto::neu(
                    string_of(&ln).as_str(),
                    string_of(&issuer).as_str(),
                    string_of(&secret).as_str(),
                    stellen,
                    periode,
                )
            },
            None => {
                proof {
                    reveal_strlit("");
                }
                Konto::neu("Konto", "", string_of(&t).as_str(), 6, 30)
            },
        }
    }

    /// The name shown: the issuer preferred, else the account name.
    pub fn issuer_oder_name(&self) -> (r: String)
        ensures
            r@ == issuer_oder_name_spec(self.name@, self.issuer@),
    {
        let name = chars_of(self.name.as_str());
        let issuer = chars_of(self.issuer.as_str());
        if issuer.len() == 0 {
            self.name.clone()
        } else if name.len() == 0 || same_str(&name, "Konto") {
            self.issuer.clone()
        } else {
            let mitte = chars_of(" · ");
            let a = concat(&issuer, &mitte);
            let b = concat(&a, &name);
            string_of(&b)
        }
    }

    /// The current code for a point in time.
    pub fn code(&self, jetzt_s: u64) -> (r: String)
        requires
            self.stellen <= 9,
            hashable_len(self.secret@.len()),
        ensures
            r@ == totp_spec(self.secret@, jetzt_s, self.periode, self.stellen),
    {
        totp(self.secret.as_slice(), jetzt_s, self.periode, self.stellen)
    }
}


/// Applies the `key=value` pairs of an otpauth query in order.
fn read_params(pairs: &Vec<Vec<char>>) -> (r: (Vec<char>, Vec<char>, u32, u64))
    requires
        forall|i: int|
            0 <= i < pairs@.len() ==> match #[trigger] split_once(pairs@[i]@, '=') {
                Some((k, v)) => k == "issuer"@ ==> pct_ok(vstd::utf8::encode_utf8(v)),
                None => true,
            },
    ensures
        (r.0@, r.1@, r.2, r.3) == params(views(pairs@)),
{
    let mut secret: Vec<char> = Vec::new();
    let mut issuer: Vec<char> = Vec::new();
    let mut stellen: u32 = 6;
    let mut periode: u64 = 30;
    let mut j: usize = 0;
    assert(views(pairs@).take(0) =~= Seq::<Seq<char>>::empty());
    while j < pairs.len()
        invariant
            j <= pairs@.len(),
            forall|i: int|
                0 <= i < pairs@.len() ==> match #[trigger] split_once(pairs@[i]@, '=') {
                    Some((k, v)) => k == "issuer"@ ==> pct_ok(vstd::utf8::encode_utf8(v)),
                    None => true,
                },
            (secret@, issuer@, stellen, periode) == params(views(pairs@).take(j as int)),
        decreases pairs.len() - j,
    {
        assert(views(pairs@).take(j + 1).drop_last() =~= views(pairs@).take(j as int));
        assert(views(pairs@).take(j + 1).last() == pairs@[j as int]@);
        let ghost pair = pairs@[j as int]@;
        assert(split_once(pairs@[j as int]@, '=') == split_once(pair, '='));
        match split_once_at(&pairs[j], '=') {
            None => {},
            Some((k, v)) => {
                if same_str(&k, "secret") {
                    secret = v;
                } else if same_str(&k, "issuer") {
                    let vs = string_of(&v);
                    issuer = chars_of(pct_decode(vs.as_str()).as_str());
                } else if same_str(&k, "digits") {
                    stellen = match parse_u32(&v) {
                        Some(n) => n,
                        None => 6,
                    };
                } else if same_str(&k, "period") {
                    periode = match parse_u64(&v) {
                        Some(n) => n,
                        None => 30,
                    };
                }
            },
        }
        j = j + 1;
    }
    assert(views(pairs@).take(pairs@.len() as int) =~= views(pairs@));
    (secret, issuer, stellen, periode)
}

} // verus!
