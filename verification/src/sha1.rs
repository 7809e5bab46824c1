//! SHA-1, by which a run's whole trace is named.
use vstd::prelude::*;
use vstd::arithmetic::div_mod::{lemma_add_mod_noop, lemma_small_mod};
use crate::text::{hex_digits, push_hex};

verus! {

/// The five chaining words.
#[derive(Clone, Copy)]
pub struct Words {
    pub a: u32,
    pub b: u32,
    pub c: u32,
    pub d: u32,
    pub e: u32,
}

/// Addition modulo two to the thirty-second.
pub open spec fn add32(x: u32, y: u32) -> u32 {
    ((x + y) % 0x1_0000_0000) as u32
}

/// `x` rotated left by `n` bits.
pub open spec fn rotl(x: u32, n: u32) -> u32 {
    (x << n) | (x >> ((32 - n) as u32))
}

/// The words that hashing starts from.
pub open spec fn initial_words() -> Words {
    Words { a: 0x67452301, b: 0xEFCDAB89, c: 0x98BADCFE, d: 0x10325476, e: 0xC3D2E1F0 }
}

/// Four bytes, the most significant first.
pub open spec fn be_word(b0: u8, b1: u8, b2: u8, b3: u8) -> u32 {
    ((b0 as u32) << 24) | ((b1 as u32) << 16) | ((b2 as u32) << 8) | (b3 as u32)
}

/// Byte `i` of a bit count's eight, the most significant first.
pub open spec fn length_byte(bits: nat, i: int) -> u8 {
    (bits / vstd::arithmetic::power2::pow2((8 * (7 - i)) as nat) % 256) as u8
}

/// The message as it is hashed: the data, one set bit, zeros up to eight bytes
/// short of a whole block, and the data's length in bits.
pub open spec fn padded(data: Seq<u8>) -> Seq<u8> {
    data + seq![0x80u8] + Seq::new(((55 - data.len()) % 64) as nat, |i: int| 0u8) + Seq::new(
        8,
        |i: int| length_byte(data.len() * 8, i),
    )
}

/// Word `t` of a block's message schedule.
pub open spec fn schedule(block: Seq<u8>, t: nat) -> u32
    decreases t,
{
    if t < 16 {
        be_word(
            block[4 * t as int],
            block[4 * t as int + 1],
            block[4 * t as int + 2],
            block[4 * t as int + 3],
        )
    } else {
        rotl(
            schedule(block, (t - 3) as nat) ^ schedule(block, (t - 8) as nat) ^ schedule(
                block,
                (t - 14) as nat,
            ) ^ schedule(block, (t - 16) as nat),
            1,
        )
    }
}

/// The function and the constant of round `t`.
pub open spec fn round_mix(t: nat, b: u32, c: u32, d: u32) -> (u32, u32) {
    if t < 20 {
        ((b & c) | ((!b) & d), 0x5A827999)
    } else if t < 40 {
        (b ^ c ^ d, 0x6ED9EBA1)
    } else if t < 60 {
        ((b & c) | (b & d) | (c & d), 0x8F1BBCDC)
    } else {
        (b ^ c ^ d, 0xCA62C1D6)
    }
}

/// One round.
pub open spec fn round(s: Words, t: nat, w: u32) -> Words {
    let (f, k) = round_mix(t, s.b, s.c, s.d);
    Words {
        a: add32(add32(add32(add32(rotl(s.a, 5), f), s.e), k), w),
        b: s.a,
        c: rotl(s.b, 30),
        d: s.c,
        e: s.d,
    }
}

/// The first `t` rounds over a block.
pub open spec fn rounds(s: Words, block: Seq<u8>, t: nat) -> Words
    decreases t,
{
    if t == 0 {
        s
    } else {
        round(rounds(s, block, (t - 1) as nat), (t - 1) as nat, schedule(block, (t - 1) as nat))
    }
}

/// A block folded into the chaining words.
pub open spec fn compress(h: Words, block: Seq<u8>) -> Words {
    let s = rounds(h, block, 80);
    Words {
        a: add32(h.a, s.a),
        b: add32(h.b, s.b),
        c: add32(h.c, s.c),
        d: add32(h.d, s.d),
        e: add32(h.e, s.e),
    }
}

/// Block `n` of a message.
pub open spec fn block_at(msg: Seq<u8>, n: int) -> Seq<u8> {
    msg.subrange(64 * n, 64 * n + 64)
}

/// The chaining words after the first `n` blocks.
pub open spec fn absorbed(msg: Seq<u8>, n: nat) -> Words
    decreases n,
{
    if n == 0 {
        initial_words()
    } else {
        compress(absorbed(msg, (n - 1) as nat), block_at(msg, n - 1))
    }
}

/// The SHA-1 of `data`, as its five words.
pub open spec fn sha1_words(data: Seq<u8>) -> Words {
    let msg = padded(data);
    absorbed(msg, msg.len() / 64)
}

/// The SHA-1 of `data`, as forty hexadecimal digits.
pub open spec fn sha1_text(data: Seq<u8>) -> Seq<char> {
    let h = sha1_words(data);
    hex_digits(h.a as nat, 8) + hex_digits(h.b as nat, 8) + hex_digits(h.c as nat, 8) + hex_digits(
        h.d as nat,
        8,
    ) + hex_digits(h.e as nat, 8)
}

fn rotate(x: u32, n: u32) -> (r: u32)
    requires
        0 < n < 32,
    ensures
        r == rotl(x, n),
{
    (x << n) | (x >> (32 - n))
}

fn pad(data: &[u8]) -> (msg: Vec<u8>)
    requires
        data@.len() * 8 <= u64::MAX,
    ensures
        msg@ == padded(data@),
        msg@.len() % 64 == 0,
{
    let bits: u64 = (data.len() as u64) * 8;
    let mut msg: Vec<u8> = vstd::slice::slice_to_vec(data);
    msg.push(0x80);
    let zeros: usize = (119 - data.len() % 64) % 64;
    let mut i: usize = 0;
    while i < zeros
        invariant
            0 <= i <= zeros,
            msg@ == data@ + seq![0x80u8] + Seq::new(i as nat, |j: int| 0u8),
        decreases zeros - i,
    {
        msg.push(0);
        i += 1;
    }
    let ghost head = msg@;
    let mut k: u64 = 0;
    while k < 8
        invariant
            0 <= k <= 8,
            bits == data@.len() * 8,
            msg@ == head + Seq::new(k as nat, |j: int| length_byte(bits as nat, j)),
        decreases 8 - k,
    {
        let shift: u64 = 8 * (7 - k);
        let x: u64 = bits >> shift;
        proof {
            vstd::bits::lemma_u64_shr_is_div(bits, shift);
            assert(x as u8 == (x % 256) as u8) by (bit_vector);
            assert(shift == 8 * (7 - k));
        }
        msg.push(x as u8);
        k += 1;
    }
    msg
}

fn block_words(block: &[u8]) -> (w: Vec<u32>)
    requires
        block@.len() == 64,
    ensures
        w@ == Seq::new(80, |t: int| schedule(block@, t as nat)),
{
    let mut w: Vec<u32> = Vec::new();
    for i in 0usize..16
        invariant
            block@.len() == 64,
            w@ == Seq::new(i as nat, |t: int| schedule(block@, t as nat)),
    {
        let x: u32 = ((block[i * 4] as u32) << 24) | ((block[i * 4 + 1] as u32) << 16) | ((block[i
            * 4 + 2] as u32) << 8) | (block[i * 4 + 3] as u32);
        w.push(x);
    }
    for i in 16usize..80
        invariant
            block@.len() == 64,
            w@ == Seq::new(i as nat, |t: int| schedule(block@, t as nat)),
    {
        let x: u32 = rotate(w[i - 3] ^ w[i - 8] ^ w[i - 14] ^ w[i - 16], 1);
        w.push(x);
    }
    w
}

fn mix(t: usize, b: u32, c: u32, d: u32) -> (r: (u32, u32))
    ensures
        r == round_mix(t as nat, b, c, d),
{
    if t < 20 {
        ((b & c) | ((!b) & d), 0x5A827999)
    } else if t < 40 {
        (b ^ c ^ d, 0x6ED9EBA1)
    } else if t < 60 {
        ((b & c) | (b & d) | (c & d), 0x8F1BBCDC)
    } else {
        (b ^ c ^ d, 0xCA62C1D6)
    }
}

fn plus(x: u32, y: u32) -> (r: u32)
    ensures
        r == add32(x, y),
{
    x.wrapping_add(y)
}

fn one_round(s: Words, t: usize, w: u32) -> (r: Words)
    ensures
        r == round(s, t as nat, w),
{
    let (f, k): (u32, u32) = mix(t, s.b, s.c, s.d);
    let a: u32 = plus(plus(plus(plus(rotate(s.a, 5), f), s.e), k), w);
    Words { a, b: s.a, c: rotate(s.b, 30), d: s.c, e: s.d }
}

fn compress_block(h: Words, block: &[u8]) -> (r: Words)
    requires
        block@.len() == 64,
    ensures
        r == compress(h, block@),
{
    let w: Vec<u32> = block_words(block);
    let mut s: Words = h;
    for t in 0usize..80
        invariant
            w@ == Seq::new(80, |t: int| schedule(block@, t as nat)),
            s == rounds(h, block@, t as nat),
    {
        s = one_round(s, t, w[t]);
    }
    Words {
        a: plus(h.a, s.a),
        b: plus(h.b, s.b),
        c: plus(h.c, s.c),
        d: plus(h.d, s.d),
        e: plus(h.e, s.e),
    }
}

/// The SHA-1 of `data` in lower-case hexadecimal.
pub fn sha1_hex(data: &[u8]) -> (r: String)
    requires
        data@.len() * 8 <= u64::MAX,
    ensures
        r@ == sha1_text(data@),
{
    let msg: Vec<u8> = pad(data);
    let mut h: Words = Words {
        a: 0x67452301,
        b: 0xEFCDAB89,
        c: 0x98BADCFE,
        d: 0x10325476,
        e: 0xC3D2E1F0,
    };
    let len: usize = msg.len();
    let blocks: usize = len / 64;
    for n in 0usize..blocks
        invariant
            len == msg@.len(),
            blocks == len / 64,
            h == absorbed(msg@, n as nat),
    {
        let block: &[u8] = vstd::slice::slice_subrange(msg.as_slice(), n * 64, n * 64 + 64);
        h = compress_block(h, block);
    }
    let mut out: String = String::new();
    push_hex(&mut out, h.a as u64, 8);
    push_hex(&mut out, h.b as u64, 8);
    push_hex(&mut out, h.c as u64, 8);
    push_hex(&mut out, h.d as u64, 8);
    push_hex(&mut out, h.e as u64, 8);
    out
}

/// A message is hashed as its data, a set bit, as few zeros as bring it to eight
/// bytes short of whole blocks, and its length in bits.
pub proof fn padding_ends_in_the_length(data: Seq<u8>)
    requires
        data.len() * 8 <= u64::MAX,
    ensures
        ({
            let p = padded(data);
            let n = data.len() as int;
            let end = p.len() as int;
            let bits = 8 * n;
            &&& end % 64 == 0
            &&& n + 9 <= end < n + 73
            &&& forall|i: int| 0 <= i < n ==> #[trigger] p[i] == data[i]
            &&& p[n] == 0x80
            &&& forall|i: int| n < i < end - 8 ==> #[trigger] p[i] == 0
            &&& p[end - 1] == bits % 256
            &&& p[end - 2] == bits / 0x100 % 256
            &&& p[end - 3] == bits / 0x1_0000 % 256
            &&& p[end - 4] == bits / 0x100_0000 % 256
            &&& p[end - 5] == bits / 0x1_0000_0000 % 256
            &&& p[end - 6] == bits / 0x100_0000_0000 % 256
            &&& p[end - 7] == bits / 0x1_0000_0000_0000 % 256
            &&& p[end - 8] == bits / 0x100_0000_0000_0000 % 256
        }),
{
    vstd::arithmetic::power2::lemma2_to64();
    vstd::arithmetic::power2::lemma2_to64_rest();
    let p = padded(data);
    let end = p.len() as int;
    let bits = data.len() * 8;
    assert(p[end - 1] == length_byte(bits, 7));
    assert(bits / 1 == bits) by (nonlinear_arith);
    assert(p[end - 2] == length_byte(bits, 6));
    assert(p[end - 3] == length_byte(bits, 5));
    assert(p[end - 4] == length_byte(bits, 4));
    assert(p[end - 5] == length_byte(bits, 3));
    assert(p[end - 6] == length_byte(bits, 2));
    assert(p[end - 7] == length_byte(bits, 1));
    assert(p[end - 8] == length_byte(bits, 0));
}

/// The first sixteen words of a block are its bytes, four to a word, the most
/// significant first; each later one is four earlier ones, combined and turned by
/// a bit.
pub proof fn a_schedule_runs_on_from_its_block(block: Seq<u8>, t: nat)
    ensures
        t < 16 ==> schedule(block, t) == ((block[4 * t as int] as u32) << 24) | ((block[4 * t as int
            + 1] as u32) << 16) | ((block[4 * t as int + 2] as u32) << 8) | (block[4 * t as int
            + 3] as u32),
        t >= 16 ==> {
            let x = schedule(block, (t - 3) as nat) ^ schedule(block, (t - 8) as nat) ^ schedule(
                block,
                (t - 14) as nat,
            ) ^ schedule(block, (t - 16) as nat);
            schedule(block, t) == (x << 1) | (x >> 31)
        },
{
}

/// A round moves four words on by one place, the second of them turned by thirty
/// bits, and makes the first of all five, the round's function, its constant and
/// its word of the schedule, modulo two to the thirty-second.
pub proof fn a_round_mixes_and_moves_on(s: Words, block: Seq<u8>, t: nat)
    requires
        t < 80,
    ensures
        rounds(s, block, 0) == s,
        ({
            let v = rounds(s, block, t);
            let w = rounds(s, block, t + 1);
            let turned = (v.a << 5) | (v.a >> 27);
            let (f, k): (u32, int) = if t < 20 {
                ((v.b & v.c) | ((!v.b) & v.d), 0x5A827999)
            } else if t < 40 {
                (v.b ^ v.c ^ v.d, 0x6ED9EBA1)
            } else if t < 60 {
                ((v.b & v.c) | (v.b & v.d) | (v.c & v.d), 0x8F1BBCDC)
            } else {
                (v.b ^ v.c ^ v.d, 0xCA62C1D6)
            };
            &&& w.a == (turned + f + v.e + k + schedule(block, t)) % 0x1_0000_0000
            &&& w.b == v.a
            &&& w.c == (v.b << 30) | (v.b >> 2)
            &&& w.d == v.c
            &&& w.e == v.d
        }),
{
    let v = rounds(s, block, t);
    let x = schedule(block, t);
    assert(rounds(s, block, t + 1) == round(v, t, x));
    one_round_is(v, t, x);
}

proof fn one_round_is(v: Words, t: nat, x: u32)
    requires
        t < 80,
    ensures
        ({
            let w = round(v, t, x);
            let turned = (v.a << 5) | (v.a >> 27);
            let (f, k): (u32, int) = if t < 20 {
                ((v.b & v.c) | ((!v.b) & v.d), 0x5A827999)
            } else if t < 40 {
                (v.b ^ v.c ^ v.d, 0x6ED9EBA1)
            } else if t < 60 {
                ((v.b & v.c) | (v.b & v.d) | (v.c & v.d), 0x8F1BBCDC)
            } else {
                (v.b ^ v.c ^ v.d, 0xCA62C1D6)
            };
            &&& w.a == (turned + f + v.e + k + x) % 0x1_0000_0000
            &&& w.b == v.a
            &&& w.c == (v.b << 30) | (v.b >> 2)
            &&& w.d == v.c
            &&& w.e == v.d
        }),
{
    let (f, k) = round_mix(t, v.b, v.c, v.d);
    five_added(rotl(v.a, 5), f, v.e, k, x);
}

proof fn five_added(p: u32, q: u32, r: u32, s: u32, t: u32)
    ensures
        add32(add32(add32(add32(p, q), r), s), t) == (p + q + r + s + t) % 0x1_0000_0000,
{
    one_more_added(p + q, r);
    one_more_added(p + q + r, s);
    one_more_added(p + q + r + s, t);
}

proof fn one_more_added(sum: int, y: u32)
    ensures
        (sum % 0x1_0000_0000 + y) % 0x1_0000_0000 == (sum + y) % 0x1_0000_0000,
{
    lemma_small_mod(y as nat, 0x1_0000_0000);
    lemma_add_mod_noop(sum, y as int, 0x1_0000_0000);
}

/// A block is folded in by eighty rounds, added to what was there; the first one
/// is folded into the standard's five words, and the words after the last are the
/// digest, in hexadecimal, eight digits to a word.
pub proof fn blocks_are_folded_in_turn(data: Seq<u8>, msg: Seq<u8>, n: nat)
    ensures
        absorbed(msg, 0).a == 0x67452301,
        absorbed(msg, 0).b == 0xEFCDAB89,
        absorbed(msg, 0).c == 0x98BADCFE,
        absorbed(msg, 0).d == 0x10325476,
        absorbed(msg, 0).e == 0xC3D2E1F0,
        ({
            let h = absorbed(msg, n);
            let s = rounds(h, msg.subrange(64 * n as int, 64 * n as int + 64), 80);
            let next = absorbed(msg, n + 1);
            &&& next.a == (h.a + s.a) % 0x1_0000_0000
            &&& next.b == (h.b + s.b) % 0x1_0000_0000
            &&& next.c == (h.c + s.c) % 0x1_0000_0000
            &&& next.d == (h.d + s.d) % 0x1_0000_0000
            &&& next.e == (h.e + s.e) % 0x1_0000_0000
        }),
        ({
            let end = absorbed(padded(data), padded(data).len() / 64);
            sha1_text(data) == hex_digits(end.a as nat, 8) + hex_digits(end.b as nat, 8)
                + hex_digits(end.c as nat, 8) + hex_digits(end.d as nat, 8) + hex_digits(
                end.e as nat,
                8,
            )
        }),
{
}

} // verus!
