//! SHA-256 (FIPS 180-4), used to remember which access token the cached
//! quota belongs to without keeping the token itself.

use vstd::prelude::*;
use vstd::string::*;
use crate::text::push_char;

verus! {

/// The eight working words of SHA-256 (`a` to `h`), also used for the
/// eight words of the running hash value.
#[derive(Clone, Copy)]
pub struct Sha256Words {
    pub a: u32,
    pub b: u32,
    pub c: u32,
    pub d: u32,
    pub e: u32,
    pub f: u32,
    pub g: u32,
    pub h: u32,
}

/// The initial hash value H(0).
pub open spec fn initial_words() -> Sha256Words {
    Sha256Words {
        a: 0x6a09e667,
        b: 0xbb67ae85,
        c: 0x3c6ef372,
        d: 0xa54ff53a,
        e: 0x510e527f,
        f: 0x9b05688c,
        g: 0x1f83d9ab,
        h: 0x5be0cd19,
    }
}

/// The sixty-four round constants K(0) to K(63).
pub open spec fn round_constants() -> Seq<u32> {
    seq![
        0x428a2f98u32, 0x71374491, 0xb5c0fbcf, 0xe9b5dba5, 0x3956c25b, 0x59f111f1, 0x923f82a4,
        0xab1c5ed5, 0xd807aa98, 0x12835b01, 0x243185be, 0x550c7dc3, 0x72be5d74, 0x80deb1fe,
        0x9bdc06a7, 0xc19bf174, 0xe49b69c1, 0xefbe4786, 0x0fc19dc6, 0x240ca1cc, 0x2de92c6f,
        0x4a7484aa, 0x5cb0a9dc, 0x76f988da, 0x983e5152, 0xa831c66d, 0xb00327c8, 0xbf597fc7,
        0xc6e00bf3, 0xd5a79147, 0x06ca6351, 0x14292967, 0x27b70a85, 0x2e1b2138, 0x4d2c6dfc,
        0x53380d13, 0x650a7354, 0x766a0abb, 0x81c2c92e, 0x92722c85, 0xa2bfe8a1, 0xa81a664b,
        0xc24b8b70, 0xc76c51a3, 0xd192e819, 0xd6990624, 0xf40e3585, 0x106aa070, 0x19a4c116,
        0x1e376c08, 0x2748774c, 0x34b0bcb5, 0x391c0cb3, 0x4ed8aa4a, 0x5b9cca4f, 0x682e6ff3,
        0x748f82ee, 0x78a5636f, 0x84c87814, 0x8cc70208, 0x90befffa, 0xa4506ceb, 0xbef9a3f7,
        0xc67178f2,
    ]
}

/// Rotation of a word `n` places to the right (`0 < n < 32`).
pub open spec fn rotr(x: u32, n: u32) -> u32 {
    (x >> n) | (x << ((32 - n) as u32))
}

/// Σ0 of the compression function.
pub open spec fn big_sigma0(x: u32) -> u32 {
    rotr(x, 2) ^ rotr(x, 13) ^ rotr(x, 22)
}

/// Σ1 of the compression function.
pub open spec fn big_sigma1(x: u32) -> u32 {
    rotr(x, 6) ^ rotr(x, 11) ^ rotr(x, 25)
}

/// σ0 of the message schedule.
pub open spec fn small_sigma0(x: u32) -> u32 {
    rotr(x, 7) ^ rotr(x, 18) ^ (x >> 3u32)
}

/// σ1 of the message schedule.
pub open spec fn small_sigma1(x: u32) -> u32 {
    rotr(x, 17) ^ rotr(x, 19) ^ (x >> 10u32)
}

/// Ch: the bits of `f` where `e` is set and of `g` where it is not.
pub open spec fn ch(e: u32, f: u32, g: u32) -> u32 {
    (e & f) ^ (!e & g)
}

/// Maj: the majority of each bit of `a`, `b`, `c`.
pub open spec fn maj(a: u32, b: u32, c: u32) -> u32 {
    (a & b) ^ (a & c) ^ (b & c)
}

/// The big-endian word of four bytes.
pub open spec fn be_word(b0: u8, b1: u8, b2: u8, b3: u8) -> u32 {
    ((b0 as u32) << 24u32) | ((b1 as u32) << 16u32) | ((b2 as u32) << 8u32) | (b3 as u32)
}

/// Word `i` of the message schedule of a 64-byte block.
pub open spec fn schedule_word(block: Seq<u8>, i: nat) -> u32
    decreases i,
{
    if i < 16 {
        {
            let j = 4 * i as int;
            be_word(block[j], block[j + 1], block[j + 2], block[j + 3])
        }
    } else {
        schedule_word(block, (i - 16) as nat).wrapping_add(
            small_sigma0(schedule_word(block, (i - 15) as nat)),
        ).wrapping_add(schedule_word(block, (i - 7) as nat)).wrapping_add(
            small_sigma1(schedule_word(block, (i - 2) as nat)),
        )
    }
}

/// One round of the compression function with schedule word `w` and round
/// constant `k`.
pub open spec fn round(s: Sha256Words, w: u32, k: u32) -> Sha256Words {
    let t1 = s.h.wrapping_add(big_sigma1(s.e)).wrapping_add(ch(s.e, s.f, s.g)).wrapping_add(
        k,
    ).wrapping_add(w);
    let t2 = big_sigma0(s.a).wrapping_add(maj(s.a, s.b, s.c));
    Sha256Words {
        a: t1.wrapping_add(t2),
        b: s.a,
        c: s.b,
        d: s.c,
        e: s.d.wrapping_add(t1),
        f: s.e,
        g: s.f,
        h: s.g,
    }
}

/// The working words after the first `n` rounds on a block.
pub open spec fn rounds(start: Sha256Words, block: Seq<u8>, n: nat) -> Sha256Words
    decreases n,
{
    if n == 0 {
        start
    } else {
        round(
            rounds(start, block, (n - 1) as nat),
            schedule_word(block, (n - 1) as nat),
            round_constants()[n - 1],
        )
    }
}

/// The word-wise wrapping sum of two hash values.
pub open spec fn add_words(x: Sha256Words, y: Sha256Words) -> Sha256Words {
    Sha256Words {
        a: x.a.wrapping_add(y.a),
        b: x.b.wrapping_add(y.b),
        c: x.c.wrapping_add(y.c),
        d: x.d.wrapping_add(y.d),
        e: x.e.wrapping_add(y.e),
        f: x.f.wrapping_add(y.f),
        g: x.g.wrapping_add(y.g),
        h: x.h.wrapping_add(y.h),
    }
}

/// The hash value after one more 64-byte block.
pub open spec fn compress(hv: Sha256Words, block: Seq<u8>) -> Sha256Words {
    add_words(hv, rounds(hv, block, 64))
}

/// The number of zero bytes between the `0x80` byte and the length.
pub open spec fn zero_fill(len: nat) -> nat {
    ((55 - len) % 64) as nat
}

/// The eight big-endian bytes of a 64-bit number.
pub open spec fn be_u64(x: u64) -> Seq<u8> {
    seq![
        (x >> 56u64) as u8,
        (x >> 48u64) as u8,
        (x >> 40u64) as u8,
        (x >> 32u64) as u8,
        (x >> 24u64) as u8,
        (x >> 16u64) as u8,
        (x >> 8u64) as u8,
        x as u8,
    ]
}

/// The padded message: the bytes, `0x80`, zeros, and the bit length, a
/// multiple of 64 bytes in all.
pub open spec fn padded(msg: Seq<u8>) -> Seq<u8> {
    msg + seq![0x80u8] + Seq::new(zero_fill(msg.len()), |i: int| 0u8) + be_u64(
        (msg.len() * 8) as u64,
    )
}

/// The hash value after the first `n` blocks of a padded message.
pub open spec fn hash_after(p: Seq<u8>, n: nat) -> Sha256Words
    decreases n,
{
    if n == 0 {
        initial_words()
    } else {
        compress(hash_after(p, (n - 1) as nat), p.subrange(64 * (n - 1), 64 * n as int))
    }
}

/// The four big-endian bytes of a word.
pub open spec fn be_bytes(x: u32) -> Seq<u8> {
    seq![(x >> 24u32) as u8, (x >> 16u32) as u8, (x >> 8u32) as u8, x as u8]
}

/// The 32 bytes of a hash value.
pub open spec fn words_bytes(hv: Sha256Words) -> Seq<u8> {
    be_bytes(hv.a) + be_bytes(hv.b) + be_bytes(hv.c) + be_bytes(hv.d) + be_bytes(hv.e) + be_bytes(
        hv.f,
    ) + be_bytes(hv.g) + be_bytes(hv.h)
}

/// The SHA-256 digest of a message.
pub open spec fn sha256_digest(msg: Seq<u8>) -> Seq<u8> {
    let p = padded(msg);
    words_bytes(hash_after(p, p.len() / 64))
}

/// A lower-case hexadecimal digit.
pub open spec fn hex_digit(d: u8) -> char {
    if d < 10 {
        (d + 48) as char
    } else {
        (d + 87) as char
    }
}

/// Two lower-case hexadecimal digits per byte.
pub open spec fn hex(bytes: Seq<u8>) -> Seq<char>
    decreases bytes.len(),
{
    if bytes.len() == 0 {
        seq![]
    } else {
        hex(bytes.drop_last()) + seq![
            hex_digit(bytes.last() / 16),
            hex_digit(bytes.last() % 16),
        ]
    }
}

fn rotate(x: u32, n: u32) -> (r: u32)
    requires
        0 < n < 32,
    ensures
        r == rotr(x, n),
{
    let m: u32 = 32 - n;
    (x >> n) | (x << m)
}

fn round_exec(s: Sha256Words, w: u32, k: u32) -> (r: Sha256Words)
    ensures
        r == round(s, w, k),
{
    let s1 = rotate(s.e, 6) ^ rotate(s.e, 11) ^ rotate(s.e, 25);
    let chv = (s.e & s.f) ^ (!s.e & s.g);
    let t1 = s.h.wrapping_add(s1).wrapping_add(chv).wrapping_add(k).wrapping_add(w);
    let s0 = rotate(s.a, 2) ^ rotate(s.a, 13) ^ rotate(s.a, 22);
    let mj = (s.a & s.b) ^ (s.a & s.c) ^ (s.b & s.c);
    let t2 = s0.wrapping_add(mj);
    Sha256Words {
        a: t1.wrapping_add(t2),
        b: s.a,
        c: s.b,
        d: s.c,
        e: s.d.wrapping_add(t1),
        f: s.e,
        g: s.f,
        h: s.g,
    }
}

fn add_words_exec(x: Sha256Words, y: Sha256Words) -> (r: Sha256Words)
    ensures
        r == add_words(x, y),
{
    Sha256Words {
        a: x.a.wrapping_add(y.a),
        b: x.b.wrapping_add(y.b),
        c: x.c.wrapping_add(y.c),
        d: x.d.wrapping_add(y.d),
        e: x.e.wrapping_add(y.e),
        f: x.f.wrapping_add(y.f),
        g: x.g.wrapping_add(y.g),
        h: x.h.wrapping_add(y.h),
    }
}

fn round_constant_table() -> (r: Vec<u32>)
    ensures
        r@ == round_constants(),
{
    let r = vec![
        0x428a2f98u32, 0x71374491, 0xb5c0fbcf, 0xe9b5dba5, 0x3956c25b, 0x59f111f1, 0x923f82a4,
        0xab1c5ed5, 0xd807aa98, 0x12835b01, 0x243185be, 0x550c7dc3, 0x72be5d74, 0x80deb1fe,
        0x9bdc06a7, 0xc19bf174, 0xe49b69c1, 0xefbe4786, 0x0fc19dc6, 0x240ca1cc, 0x2de92c6f,
        0x4a7484aa, 0x5cb0a9dc, 0x76f988da, 0x983e5152, 0xa831c66d, 0xb00327c8, 0xbf597fc7,
        0xc6e00bf3, 0xd5a79147, 0x06ca6351, 0x14292967, 0x27b70a85, 0x2e1b2138, 0x4d2c6dfc,
        0x53380d13, 0x650a7354, 0x766a0abb, 0x81c2c92e, 0x92722c85, 0xa2bfe8a1, 0xa81a664b,
        0xc24b8b70, 0xc76c51a3, 0xd192e819, 0xd6990624, 0xf40e3585, 0x106aa070, 0x19a4c116,
        0x1e376c08, 0x2748774c, 0x34b0bcb5, 0x391c0cb3, 0x4ed8aa4a, 0x5b9cca4f, 0x682e6ff3,
        0x748f82ee, 0x78a5636f, 0x84c87814, 0x8cc70208, 0x90befffa, 0xa4506ceb, 0xbef9a3f7,
        0xc67178f2,
    ];
    assert(r@ =~= round_constants());
    r
}

/// Compresses the block at `off` in `p` into the hash value `hv`.
fn compress_block(hv: Sha256Words, p: &Vec<u8>, off: usize, k: &Vec<u32>) -> (r: Sha256Words)
    requires
        off + 64 <= p@.len(),
        k@ == round_constants(),
    ensures
        r == compress(hv, p@.subrange(off as int, off + 64)),
{
    let ghost block = p@.subrange(off as int, off + 64);
    let plen = p.len();
    let mut w: Vec<u32> = Vec::new();
    let mut i: usize = 0;
    while i < 16
        invariant
            off + 64 <= p@.len(),
            plen == p@.len(),
            block == p@.subrange(off as int, off + 64),
            i <= 16,
            w@.len() == i,
            forall|j: int| 0 <= j < i ==> w@[j] == schedule_word(block, j as nat),
        decreases 16 - i,
    {
        let b0 = p[off + 4 * i];
        let b1 = p[off + 4 * i + 1];
        let b2 = p[off + 4 * i + 2];
        let b3 = p[off + 4 * i + 3];
        let word = ((b0 as u32) << 24u32) | ((b1 as u32) << 16u32) | ((b2 as u32) << 8u32) | (
        b3 as u32);
        proof {
            assert(block[4 * i] == b0);
            assert(block[4 * i + 1] == b1);
            assert(block[4 * i + 2] == b2);
            assert(block[4 * i + 3] == b3);
        }
        w.push(word);
        i = i + 1;
    }
    while i < 64
        invariant
            16 <= i <= 64,
            w@.len() == i,
            forall|j: int| 0 <= j < i ==> w@[j] == schedule_word(block, j as nat),
        decreases 64 - i,
    {
        let x = w[i - 15];
        let y = w[i - 2];
        let s0 = rotate(x, 7) ^ rotate(x, 18) ^ (x >> 3u32);
        let s1 = rotate(y, 17) ^ rotate(y, 19) ^ (y >> 10u32);
        let word = w[i - 16].wrapping_add(s0).wrapping_add(w[i - 7]).wrapping_add(s1);
        w.push(word);
        i = i + 1;
    }
    let mut s = hv;
    let mut j: usize = 0;
    while j < 64
        invariant
            j <= 64,
            w@.len() == 64,
            k@ == round_constants(),
            forall|q: int| 0 <= q < 64 ==> w@[q] == schedule_word(block, q as nat),
            s == rounds(hv, block, j as nat),
        decreases 64 - j,
    {
        s = round_exec(s, w[j], k[j]);
        j = j + 1;
    }
    add_words_exec(hv, s)
}

fn push_be_bytes(out: &mut Vec<u8>, x: u32)
    ensures
        final(out)@ == old(out)@ + be_bytes(x),
{
    out.push((x >> 24u32) as u8);
    out.push((x >> 16u32) as u8);
    out.push((x >> 8u32) as u8);
    out.push(x as u8);
    assert(final(out)@ =~= old(out)@ + be_bytes(x));
}

fn pad_message(data: &[u8]) -> (p: Vec<u8>)
    requires
        data@.len() * 8 <= u64::MAX,
    ensures
        p@ == padded(data@),
        p@.len() % 64 == 0,
{
    let mut p: Vec<u8> = Vec::new();
    let mut i: usize = 0;
    while i < data.len()
        invariant
            i <= data@.len(),
            p@ == data@.take(i as int),
        decreases data@.len() - i,
    {
        p.push(data[i]);
        i = i + 1;
        assert(p@ =~= data@.take(i as int));
    }
    assert(data@.take(data@.len() as int) =~= data@);
    let bits: u64 = (data.len() as u64) * 8;
    p.push(0x80u8);
    let ghost head = p@;
    let fill: usize = (119 - data.len() % 64) % 64;
    assert(fill == zero_fill(data@.len()));
    let mut zeros: usize = 0;
    while zeros < fill
        invariant
            zeros <= fill,
            p@ == head + Seq::new(zeros as nat, |q: int| 0u8),
        decreases fill - zeros,
    {
        p.push(0u8);
        zeros = zeros + 1;
        assert(p@ =~= head + Seq::new(zeros as nat, |q: int| 0u8));
    }
    let ghost before = p@;
    p.push((bits >> 56u64) as u8);
    p.push((bits >> 48u64) as u8);
    p.push((bits >> 40u64) as u8);
    p.push((bits >> 32u64) as u8);
    p.push((bits >> 24u64) as u8);
    p.push((bits >> 16u64) as u8);
    p.push((bits >> 8u64) as u8);
    p.push(bits as u8);
    assert(p@ =~= before + be_u64(bits));
    assert(p@ =~= padded(data@));
    p
}

/// The SHA-256 digest of `data`.
pub fn sha256(data: &[u8]) -> (r: [u8; 32])
    requires
        data@.len() * 8 <= u64::MAX,
    ensures
        r@ == sha256_digest(data@),
{
    let p = pad_message(data);
    let k = round_constant_table();
    let mut hv = Sha256Words {
        a: 0x6a09e667,
        b: 0xbb67ae85,
        c: 0x3c6ef372,
        d: 0xa54ff53a,
        e: 0x510e527f,
        f: 0x9b05688c,
        g: 0x1f83d9ab,
        h: 0x5be0cd19,
    };
    let plen = p.len();
    let blocks = plen / 64;
    let mut n: usize = 0;
    while n < blocks
        invariant
            blocks == p@.len() / 64,
            plen == p@.len(),
            p@.len() % 64 == 0,
            n <= blocks,
            k@ == round_constants(),
            hv == hash_after(p@, n as nat),
        decreases blocks - n,
    {
        assert(64 * n + 64 <= plen) by (nonlinear_arith)
            requires
                n < blocks,
                blocks == plen / 64,
        ;
        hv = compress_block(hv, &p, 64 * n, &k);
        n = n + 1;
    }
    let mut out: Vec<u8> = Vec::new();
    push_be_bytes(&mut out, hv.a);
    push_be_bytes(&mut out, hv.b);
    push_be_bytes(&mut out, hv.c);
    push_be_bytes(&mut out, hv.d);
    push_be_bytes(&mut out, hv.e);
    push_be_bytes(&mut out, hv.f);
    push_be_bytes(&mut out, hv.g);
    push_be_bytes(&mut out, hv.h);
    let mut result = [0u8; 32];
    let mut i: usize = 0;
    while i < 32
        invariant
            out@ == words_bytes(hv),
            out@.len() == 32,
            i <= 32,
            forall|j: int| 0 <= j < i ==> result@[j] == out@[j],
        decreases 32 - i,
    {
        result[i] = out[i];
        i = i + 1;
    }
    assert(result@ =~= out@);
    result
}

/// Hexadecimal text has two digits per byte.
pub proof fn lemma_hex_len(bytes: Seq<u8>)
    ensures
        hex(bytes).len() == 2 * bytes.len(),
    decreases bytes.len(),
{
    if bytes.len() > 0 {
        lemma_hex_len(bytes.drop_last());
    }
}

fn hex_digit_exec(d: u8) -> (c: char)
    requires
        d < 16,
    ensures
        c == hex_digit(d),
{
    if d < 10 {
        (d + 48) as char
    } else {
        (d + 87) as char
    }
}

/// The SHA-256 digest of the UTF-8 bytes of `data`, as 64 lower-case
/// hexadecimal digits.
pub fn sha256_hex(data: &str) -> (r: String)
    requires
        data.spec_bytes().len() * 8 <= u64::MAX,
    ensures
        r@ == hex(sha256_digest(data.spec_bytes())),
        r@.len() == 64,
{
    let digest = sha256(data.as_bytes());
    let mut s = String::new();
    let mut i: usize = 0;
    while i < 32
        invariant
            i <= 32,
            digest@.len() == 32,
            s@ == hex(digest@.take(i as int)),
        decreases 32 - i,
    {
        let byte = digest[i];
        let hi = byte >> 4u8;
        let lo = byte & 0xfu8;
        assert(hi == byte / 16) by (bit_vector)
            requires
                hi == byte >> 4u8,
        ;
        assert(lo == byte % 16) by (bit_vector)
            requires
                lo == byte & 0xfu8,
        ;
        push_char(&mut s, hex_digit_exec(hi));
        push_char(&mut s, hex_digit_exec(lo));
        assert(digest@.take(i + 1).drop_last() =~= digest@.take(i as int));
        i = i + 1;
    }
    assert(digest@.take(32) =~= digest@);
    proof {
        lemma_hex_len(digest@);
    }
    s
}

} // verus!
