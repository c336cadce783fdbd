//! SHA-1 (RFC 3174) and HMAC-SHA1 (RFC 2104), stated over byte sequences.

use vstd::prelude::*;

verus! {

/// The five chaining words of SHA-1.
pub type Words = (u32, u32, u32, u32, u32);

/// The initial chaining value H0..H4 of RFC 3174, section 6.1.
pub open spec fn sha1_init() -> Words {
    (0x6745_2301u32, 0xEFCD_AB89u32, 0x98BA_DCFEu32, 0x1032_5476u32, 0xC3D2_E1F0u32)
}

/// Circular left shift `S^n(x)` of a 32-bit word, for `0 < n < 32`.
pub open spec fn rotl(x: u32, n: u32) -> u32 {
    (x << n) | (x >> ((32 - n) as u32))
}

/// Addition modulo 2^32.
pub open spec fn add32(x: u32, y: u32) -> u32 {
    ((x as int + y as int) % 0x1_0000_0000) as u32
}

/// The big-endian word made of four bytes.
pub open spec fn be_word(b0: u8, b1: u8, b2: u8, b3: u8) -> u32 {
    (b0 as int * 0x100_0000 + b1 as int * 0x1_0000 + b2 as int * 0x100 + b3 as int) as u32
}

/// The four big-endian bytes of a word.
pub open spec fn word_bytes(x: u32) -> Seq<u8> {
    seq![(x >> 24u32) as u8, (x >> 16u32) as u8, (x >> 8u32) as u8, x as u8]
}

/// The eight big-endian bytes of a 64-bit value.
pub open spec fn u64_bytes(x: u64) -> Seq<u8> {
    seq![
        (x >> 56u64) as u8,
        (x >> 48u64) as u8,
        (x >> 40u64) as u8,
        (x >> 32u64) as u8,
        (x >> 24u64) as u8,
        (x >> 16u64) as u8,
        (x >> 8u64) as u8,
        x as u8,
    ]
}

/// Number of zero bytes between the 0x80 marker and the length field.
pub open spec fn pad_zeros(len: nat) -> nat {
    ((55 - len as int) % 64) as nat
}

/// The padded message of RFC 3174, section 4: the data, one 0x80 byte, zero bytes up to
/// 56 mod 64, and the bit length as a big-endian 64-bit number.
pub open spec fn sha1_pad(data: Seq<u8>) -> Seq<u8> {
    data + seq![0x80u8] + Seq::new(pad_zeros(data.len()), |i: int| 0u8) + u64_bytes(
        (data.len() * 8) as u64,
    )
}

/// Word `t` of the message schedule of a 64-byte block (RFC 3174, section 7, step b-c).
pub open spec fn sched(block: Seq<u8>, t: nat) -> u32
    decreases t,
{
    if t < 16 {
        be_word(block[4 * t as int], block[4 * t as int + 1], block[4 * t as int + 2], block[4 * t as int + 3])
    } else {
        rotl(
            sched(block, (t - 3) as nat) ^ sched(block, (t - 8) as nat) ^ sched(
                block,
                (t - 14) as nat,
            ) ^ sched(block, (t - 16) as nat),
            1,
        )
    }
}

/// The round function f(t; B, C, D).
pub open spec fn round_f(t: nat, b: u32, c: u32, d: u32) -> u32 {
    if t < 20 {
        (b & c) | (!b & d)
    } else if t < 40 {
        b ^ c ^ d
    } else if t < 60 {
        (b & c) | (b & d) | (c & d)
    } else {
        b ^ c ^ d
    }
}

/// The round constant K(t).
pub open spec fn round_k(t: nat) -> u32 {
    if t < 20 {
        0x5A82_7999u32
    } else if t < 40 {
        0x6ED9_EBA1u32
    } else if t < 60 {
        0x8F1B_BCDCu32
    } else {
        0xCA62_C1D6u32
    }
}

/// One round: TEMP = S^5(A) + f(t;B,C,D) + E + W(t) + K(t); E = D; D = C; C = S^30(B);
/// B = A; A = TEMP.
pub open spec fn round(s: Words, t: nat, wt: u32) -> Words {
    let (a, b, c, d, e) = s;
    let tmp = add32(add32(add32(add32(rotl(a, 5), round_f(t, b, c, d)), e), round_k(t)), wt);
    (tmp, a, rotl(b, 30), c, d)
}

/// The working variables after the first `n` rounds over `block`, starting from `h`.
pub open spec fn rounds(h: Words, block: Seq<u8>, n: nat) -> Words
    decreases n,
{
    if n == 0 {
        h
    } else {
        round(rounds(h, block, (n - 1) as nat), (n - 1) as nat, sched(block, (n - 1) as nat))
    }
}

/// The chaining value after processing one 64-byte block.
pub open spec fn compress(h: Words, block: Seq<u8>) -> Words {
    let r = rounds(h, block, 80);
    (add32(h.0, r.0), add32(h.1, r.1), add32(h.2, r.2), add32(h.3, r.3), add32(h.4, r.4))
}

/// The chaining value after the first `n` blocks of `msg`.
pub open spec fn chain(msg: Seq<u8>, n: nat) -> Words
    decreases n,
{
    if n == 0 {
        sha1_init()
    } else {
        compress(chain(msg, (n - 1) as nat), msg.subrange(64 * (n - 1), 64 * n as int))
    }
}

/// The 20 bytes of a chaining value, H0 first, each big-endian.
pub open spec fn digest_bytes(h: Words) -> Seq<u8> {
    word_bytes(h.0) + word_bytes(h.1) + word_bytes(h.2) + word_bytes(h.3) + word_bytes(h.4)
}

/// The SHA-1 digest of `data`.
pub open spec fn sha1_spec(data: Seq<u8>) -> Seq<u8> {
    let m = sha1_pad(data);
    digest_bytes(chain(m, m.len() / 64))
}

/// Inputs whose bit length fits the 64-bit length field and whose padded form fits in memory.
pub open spec fn hashable_len(len: nat) -> bool {
    len * 8 <= u64::MAX && len + 128 <= usize::MAX
}

fn rotate_left(x: u32, n: u32) -> (r: u32)
    requires
        0 < n < 32,
    ensures
        r == rotl(x, n),
{
    (x << n) | (x >> (32 - n))
}

fn wadd(x: u32, y: u32) -> (r: u32)
    ensures
        r == add32(x, y),
{
    x.wrapping_add(y)
}

fn word_from_bytes(b0: u8, b1: u8, b2: u8, b3: u8) -> (r: u32)
    ensures
        r == be_word(b0, b1, b2, b3),
{
    let r = ((b0 as u32) << 24u32) | ((b1 as u32) << 16u32) | ((b2 as u32) << 8u32) | (b3 as u32);
    assert(((b0 as u32) << 24u32) | ((b1 as u32) << 16u32) | ((b2 as u32) << 8u32) | (b3 as u32)
        == (b0 as u32) * 0x100_0000 + (b1 as u32) * 0x1_0000 + (b2 as u32) * 0x100 + (b3 as u32))
        by (bit_vector);
    r
}

proof fn lemma_pad_zeros(len: nat, k: nat)
    requires
        k <= pad_zeros(len),
    ensures
        ((len + 1 + k) % 64 == 56) <==> k == pad_zeros(len),
        pad_zeros(len) < 64,
        (len + 1 + pad_zeros(len) + 8) % 64 == 0,
{
}

/// The message schedule of the block at `base` in `msg`.
fn schedule(msg: &Vec<u8>, base: usize) -> (w: [u32; 80])
    requires
        base + 64 <= msg.len(),
    ensures
        forall|j: int|
            0 <= j < 80 ==> w[j] == sched(msg@.subrange(base as int, base + 64), j as nat),
{
    let ghost block = msg@.subrange(base as int, base + 64);
    let mut w = [0u32; 80];
    let mut i: usize = 0;
    while i < 16
        invariant
            i <= 16,
            base + 64 <= msg.len(),
            block == msg@.subrange(base as int, base + 64),
            forall|j: int| 0 <= j < i ==> w[j] == sched(block, j as nat),
        decreases 16 - i,
    {
        let v = word_from_bytes(
            msg[base + 4 * i],
            msg[base + 4 * i + 1],
            msg[base + 4 * i + 2],
            msg[base + 4 * i + 3],
        );
        w[i] = v;
        i = i + 1;
    }
    while i < 80
        invariant
            16 <= i <= 80,
            forall|j: int| 0 <= j < i ==> w[j] == sched(block, j as nat),
        decreases 80 - i,
    {
        let v = rotate_left(w[i - 3] ^ w[i - 8] ^ w[i - 14] ^ w[i - 16], 1);
        w[i] = v;
        i = i + 1;
    }
    w
}

/// Processes the block at `base` in `msg`: the 80 rounds and the final additions.
fn compress_block(h: (u32, u32, u32, u32, u32), msg: &Vec<u8>, base: usize) -> (r: (
    u32,
    u32,
    u32,
    u32,
    u32,
))
    requires
        base + 64 <= msg.len(),
    ensures
        r == compress(h, msg@.subrange(base as int, base + 64)),
{
    let ghost block = msg@.subrange(base as int, base + 64);
    let w = schedule(msg, base);
    let (mut a, mut b, mut c, mut d, mut e) = h;
    let mut t: usize = 0;
    while t < 80
        invariant
            t <= 80,
            forall|j: int| 0 <= j < 80 ==> w[j] == sched(block, j as nat),
            (a, b, c, d, e) == rounds(h, block, t as nat),
        decreases 80 - t,
    {
        let (f, k) = if t < 20 {
            ((b & c) | ((!b) & d), 0x5A82_7999u32)
        } else if t < 40 {
            (b ^ c ^ d, 0x6ED9_EBA1u32)
        } else if t < 60 {
            ((b & c) | (b & d) | (c & d), 0x8F1B_BCDCu32)
        } else {
            (b ^ c ^ d, 0xCA62_C1D6u32)
        };
        let tmp = wadd(wadd(wadd(wadd(rotate_left(a, 5), f), e), k), w[t]);
        e = d;
        d = c;
        c = rotate_left(b, 30);
        b = a;
        a = tmp;
        t = t + 1;
    }
    (wadd(h.0, a), wadd(h.1, b), wadd(h.2, c), wadd(h.3, d), wadd(h.4, e))
}

/// SHA-1 (RFC 3174).
pub fn sha1(data: &[u8]) -> (out: [u8; 20])
    requires
        hashable_len(data@.len()),
    ensures
        out@ == sha1_spec(data@),
{
    let ml: u64 = (data.len() as u64) * 8;
    let mut msg: Vec<u8> = vstd::slice::slice_to_vec(data);
    msg.push(0x80);
    let ghost len = data@.len();
    proof {
        lemma_pad_zeros(len, 0);
    }
    while msg.len() % 64 != 56
        invariant
            msg@.len() > len,
            msg@.len() - len - 1 <= pad_zeros(len),
            msg@ == data@ + seq![0x80u8] + Seq::new((msg@.len() - len - 1) as nat, |i: int| 0u8),
            len == data@.len(),
            hashable_len(len),
        decreases pad_zeros(len) - (msg@.len() - len - 1),
    {
        proof {
            lemma_pad_zeros(len, (msg@.len() - len - 1) as nat);
        }
        let ghost before = msg@;
        msg.push(0);
        assert(msg@ =~= data@ + seq![0x80u8] + Seq::new((msg@.len() - len - 1) as nat, |i: int| 0u8));
    }
    proof {
        lemma_pad_zeros(len, (msg@.len() - len - 1) as nat);
    }
    msg.push((ml >> 56u64) as u8);
    msg.push((ml >> 48u64) as u8);
    msg.push((ml >> 40u64) as u8);
    msg.push((ml >> 32u64) as u8);
    msg.push((ml >> 24u64) as u8);
    msg.push((ml >> 16u64) as u8);
    msg.push((ml >> 8u64) as u8);
    msg.push(ml as u8);
    assert(msg@ =~= sha1_pad(data@));
    let n = msg.len() / 64;
    let mut h0: u32 = 0x6745_2301;
    let mut h1: u32 = 0xEFCD_AB89;
    let mut h2: u32 = 0x98BA_DCFE;
    let mut h3: u32 = 0x1032_5476;
    let mut h4: u32 = 0xC3D2_E1F0;
    let mut c: usize = 0;
    while c < n
        invariant
            c <= n,
            msg@ == sha1_pad(data@),
            msg.len() == 64 * n,
            (h0, h1, h2, h3, h4) == chain(msg@, c as nat),
        decreases n - c,
    {
        let r = compress_block((h0, h1, h2, h3, h4), &msg, c * 64);
        h0 = r.0;
        h1 = r.1;
        h2 = r.2;
        h3 = r.3;
        h4 = r.4;
        c = c + 1;
    }
    let mut out = [0u8; 20];
    out[0] = (h0 >> 24u32) as u8;
    out[1] = (h0 >> 16u32) as u8;
    out[2] = (h0 >> 8u32) as u8;
    out[3] = h0 as u8;
    out[4] = (h1 >> 24u32) as u8;
    out[5] = (h1 >> 16u32) as u8;
    out[6] = (h1 >> 8u32) as u8;
    out[7] = h1 as u8;
    out[8] = (h2 >> 24u32) as u8;
    out[9] = (h2 >> 16u32) as u8;
    out[10] = (h2 >> 8u32) as u8;
    out[11] = h2 as u8;
    out[12] = (h3 >> 24u32) as u8;
    out[13] = (h3 >> 16u32) as u8;
    out[14] = (h3 >> 8u32) as u8;
    out[15] = h3 as u8;
    out[16] = (h4 >> 24u32) as u8;
    out[17] = (h4 >> 16u32) as u8;
    out[18] = (h4 >> 8u32) as u8;
    out[19] = h4 as u8;
    assert(out@ =~= digest_bytes((h0, h1, h2, h3, h4)));
    out
}

} // verus!

verus! {

/// The HMAC key block: keys longer than 64 bytes are hashed first, then the key is
/// filled up with zero bytes to the block size of 64.
pub open spec fn hmac_key_block(key: Seq<u8>) -> Seq<u8> {
    let k = if key.len() > 64 {
        sha1_spec(key)
    } else {
        key
    };
    k + Seq::new((64 - k.len()) as nat, |i: int| 0u8)
}

/// Every byte of `k` combined with `pad` by exclusive or.
pub open spec fn xor_all(k: Seq<u8>, pad: u8) -> Seq<u8> {
    Seq::new(k.len(), |i: int| k[i] ^ pad)
}

/// HMAC-SHA1 (RFC 2104): H(K ^ opad, H(K ^ ipad, text)).
pub open spec fn hmac_sha1_spec(key: Seq<u8>, msg: Seq<u8>) -> Seq<u8> {
    let k = hmac_key_block(key);
    sha1_spec(xor_all(k, 0x5c) + sha1_spec(xor_all(k, 0x36) + msg))
}

/// The key laws of HMAC: a key longer than a block acts as its digest, and zero bytes
/// appended to a key of at most a block change nothing.
pub proof fn lemma_hmac_schluessel(key: Seq<u8>, nullen: nat, msg: Seq<u8>)
    ensures
        key.len() > 64 ==> hmac_sha1_spec(key, msg) == hmac_sha1_spec(sha1_spec(key), msg),
        key.len() + nullen <= 64 ==> hmac_sha1_spec(
            key + Seq::new(nullen, |i: int| 0u8),
            msg,
        ) == hmac_sha1_spec(key, msg),
{
    if key.len() > 64 {
        let d = sha1_spec(key);
        assert(d.len() == 20);
        assert(hmac_key_block(d) == hmac_key_block(key));
    }
    if key.len() + nullen <= 64 {
        let k2 = key + Seq::new(nullen, |i: int| 0u8);
        assert(hmac_key_block(k2) =~= hmac_key_block(key));
    }
}

/// `k` with every byte combined with `pad`, followed by `tail`.
fn xor_then(k: &Vec<u8>, pad: u8, tail: &[u8]) -> (out: Vec<u8>)
    ensures
        out@ == xor_all(k@, pad) + tail@,
{
    let mut out: Vec<u8> = Vec::new();
    let mut i: usize = 0;
    while i < k.len()
        invariant
            i <= k.len(),
            out@ == xor_all(k@.subrange(0, i as int), pad),
        decreases k.len() - i,
    {
        out.push(k[i] ^ pad);
        i = i + 1;
        assert(out@ =~= xor_all(k@.subrange(0, i as int), pad));
    }
    assert(k@.subrange(0, k.len() as int) =~= k@);
    let mut j: usize = 0;
    while j < tail.len()
        invariant
            i == k.len(),
            j <= tail.len(),
            out@ == xor_all(k@, pad) + tail@.subrange(0, j as int),
        decreases tail.len() - j,
    {
        out.push(tail[j]);
        j = j + 1;
        assert(out@ =~= xor_all(k@, pad) + tail@.subrange(0, j as int));
    }
    assert(tail@.subrange(0, tail.len() as int) =~= tail@);
    out
}

/// HMAC-SHA1 (RFC 2104), block size 64.
pub fn hmac_sha1(key: &[u8], msg: &[u8]) -> (out: [u8; 20])
    requires
        hashable_len(key@.len()),
        hashable_len(msg@.len() + 64),
    ensures
        out@ == hmac_sha1_spec(key@, msg@),
{
    let mut k: Vec<u8> = if key.len() > 64 {
        let d = sha1(key);
        vstd::slice::slice_to_vec(d.as_slice())
    } else {
        vstd::slice::slice_to_vec(key)
    };
    let ghost k0 = k@;
    while k.len() < 64
        invariant
            k@.len() <= 64,
            k0.len() <= k@.len(),
            k@ == k0 + Seq::new((k@.len() - k0.len()) as nat, |i: int| 0u8),
        decreases 64 - k.len(),
    {
        k.push(0);
        assert(k@ =~= k0 + Seq::new((k@.len() - k0.len()) as nat, |i: int| 0u8));
    }
    assert(k@ =~= hmac_key_block(key@));
    let inner = xor_then(&k, 0x36, msg);
    let ih = sha1(inner.as_slice());
    let outer = xor_then(&k, 0x5c, ih.as_slice());
    sha1(outer.as_slice())
}

} // verus!
