//! The legacy per-extension integrity hash: UTF-16LE encoding of the
//! lowercased input, an MD5 seed, two fixed-constant mixing passes over the
//! input words, and Base64 of the XORed 8-byte result.
//!
//! The mixing constants are a fixed protocol definition; they are not
//! derivable and must read exactly as here for the hash to validate.

use vstd::prelude::*;

use crate::text::lower_char;
use crate::text::push_char;
use crate::text::spec_lower;
use crate::text::spec_lower_char;

use base64::Engine;

verus! {

/// The fixed experience marker the OS includes in the hash input.
pub const USER_EXPERIENCE: &'static str =
    "user choice set via windows user experience {d18b6dd5-6124-4341-9318-804003bafa0b}";

/// The two UTF-16LE bytes of one code unit.
pub open spec fn spec_le2(w: u32) -> Seq<u8> {
    seq![(w % 0x100) as u8, ((w / 0x100) % 0x100) as u8]
}

/// The UTF-16LE bytes of one character: one code unit below 0x10000, a
/// surrogate pair above.
pub open spec fn utf16_unit_bytes(c: char) -> Seq<u8> {
    let u = c as u32;
    if u < 0x10000 {
        spec_le2(u)
    } else {
        let v = (u - 0x10000) as u32;
        spec_le2((0xD800 + v / 0x400) as u32) + spec_le2((0xDC00 + v % 0x400) as u32)
    }
}

/// The UTF-16LE encoding of a character sequence, no terminator added.
pub open spec fn utf16le_of(s: Seq<char>) -> Seq<u8>
    decreases s.len(),
{
    if s.len() == 0 {
        Seq::empty()
    } else {
        utf16_unit_bytes(s[0]) + utf16le_of(s.drop_first())
    }
}

proof fn lemma_utf16le_of_snoc(s: Seq<char>, c: char)
    ensures
        utf16le_of(s.push(c)) == utf16le_of(s) + utf16_unit_bytes(c),
    decreases s.len(),
{
    if s.len() == 0 {
        assert(s.push(c).drop_first() =~= Seq::<char>::empty());
        assert(s.push(c)[0] == c);
        assert(utf16le_of(Seq::<char>::empty()) == Seq::<u8>::empty());
        assert(utf16le_of(s.push(c)) =~= utf16le_of(s) + utf16_unit_bytes(c));
    } else {
        assert(s.push(c).drop_first() =~= s.drop_first().push(c));
        lemma_utf16le_of_snoc(s.drop_first(), c);
        assert(utf16le_of(s.push(c)) =~= utf16le_of(s) + utf16_unit_bytes(c));
    }
}

/// Appends the UTF-16LE bytes of one character.
fn push_utf16_unit(out: &mut Vec<u8>, c: char)
    ensures
        final(out)@ == old(out)@ + utf16_unit_bytes(c),
{
    let u = c as u32;
    proof {
        vstd::utf8::char_is_scalar(c);
    }
    if u < 0x10000 {
        out.push((u % 0x100) as u8);
        out.push(((u / 0x100) % 0x100) as u8);
        proof {
            assert(final(out)@ =~= old(out)@ + utf16_unit_bytes(c));
        }
    } else {
        let v = u - 0x10000;
        proof {
            assert(v / 0x400 <= v) by (nonlinear_arith)
                requires
                    v >= 0,
            ;
        }
        let hi = 0xD800 + v / 0x400;
        let lo = 0xDC00 + v % 0x400;
        out.push((hi % 0x100) as u8);
        out.push(((hi / 0x100) % 0x100) as u8);
        out.push((lo % 0x100) as u8);
        out.push(((lo / 0x100) % 0x100) as u8);
        proof {
            assert(final(out)@ =~= old(out)@ + utf16_unit_bytes(c));
        }
    }
}

/// Encodes a string as UTF-16LE bytes, without a terminating unit.
pub fn utf16le_bytes(s: &str) -> (r: Vec<u8>)
    ensures
        r@ == utf16le_of(s@),
{
    let n = s.unicode_len();
    let mut out: Vec<u8> = Vec::new();
    let mut i: usize = 0;
    while i < n
        invariant
            0 <= i <= n == s@.len(),
            out@ == utf16le_of(s@.subrange(0, i as int)),
        decreases n - i,
    {
        let c = s.get_char(i);
        push_utf16_unit(&mut out, c);
        proof {
            assert(s@.subrange(0, i + 1) =~= s@.subrange(0, i as int).push(s@[i as int]));
            lemma_utf16le_of_snoc(s@.subrange(0, i as int), s@[i as int]);
        }
        i = i + 1;
    }
    proof {
        assert(s@.subrange(0, n as int) =~= s@);
    }
    out
}

/// How many words of the byte buffer the mixing passes consume: the number
/// of whole 32-bit words, rounded down to an even count.
pub open spec fn spec_length_in_dwords(n: nat) -> nat {
    ((n / 4) - (n / 4) % 2) as nat
}

pub fn length_in_dwords(data_len_bytes: usize) -> (r: usize)
    ensures
        r == spec_length_in_dwords(data_len_bytes as nat),
{
    let q = data_len_bytes / 4;
    q - q % 2
}

/// The little-endian 32-bit word starting at byte `4*i`.
pub open spec fn le_word_at(b: Seq<u8>, i: int) -> u32 {
    (b[4 * i] as u32 + b[4 * i + 1] as u32 * 0x100 + b[4 * i + 2] as u32 * 0x10000 + b[4 * i
        + 3] as u32 * 0x1000000) as u32
}

/// The byte buffer reinterpreted as little-endian words, an even count.
pub open spec fn dwords_of(b: Seq<u8>) -> Seq<u32> {
    Seq::new(spec_length_in_dwords(b.len()), |i: int| le_word_at(b, i))
}

/// Converts the byte buffer into its even-length little-endian word array.
pub fn dword_data(data: &Vec<u8>) -> (r: Vec<u32>)
    ensures
        r@ == dwords_of(data@),
{
    let length = length_in_dwords(data.len());
    proof {
        assert(4 * ((data@.len() as int) / 4) <= data@.len() as int) by (nonlinear_arith);
    }
    let mut out: Vec<u32> = Vec::new();
    let mut i: usize = 0;
    while i < length
        invariant
            0 <= i <= length == spec_length_in_dwords(data@.len() as nat),
            4 * length <= data@.len(),
            data@.len() <= usize::MAX,
            out@.len() == i,
            forall|k: int| 0 <= k < i ==> out@[k] == le_word_at(data@, k),
        decreases length - i,
    {
        proof {
            assert(4 * i + 3 < data@.len());
        }
        let off = i * 4;
        let w = data[off] as u32 + data[off + 1] as u32 * 0x100 + data[off + 2] as u32 * 0x10000
            + data[off + 3] as u32 * 0x1000000;
        out.push(w);
        i = i + 1;
    }
    proof {
        assert(out@ =~= dwords_of(data@));
    }
    out
}

/// The first two little-endian words of the MD5 digest, the seeds of the
/// mixing passes.
fn dword_md5(digest: &Vec<u8>) -> (r: (u32, u32))
    requires
        digest@.len() >= 8,
    ensures
        r.0 == le_word_at(digest@, 0),
        r.1 == le_word_at(digest@, 1),
{
    let m0 = digest[0] as u32 + digest[1] as u32 * 0x100 + digest[2] as u32 * 0x10000 + digest[3]
        as u32 * 0x1000000;
    let m1 = digest[4] as u32 + digest[5] as u32 * 0x100 + digest[6] as u32 * 0x10000 + digest[7]
        as u32 * 0x1000000;
    (m0, m1)
}

/// One round of the first mixing pass over a word pair.
#[verifier::opaque]
pub open spec fn sub1_round(st: (u32, u32), d0: u32, d1: u32, v9: u32, v10: u32) -> (u32, u32) {
    let v11 = d0.wrapping_add(st.0);
    let t1 = v10.wrapping_mul(v11).wrapping_sub(0x10FA9605u32.wrapping_mul(v11 >> 16));
    let v12 = 0x79F8A395u32.wrapping_mul(t1).wrapping_add(0x689B6B9Fu32.wrapping_mul(t1 >> 16));
    let v13 = 0xEA970001u32.wrapping_mul(v12).wrapping_sub(0x3C101569u32.wrapping_mul(v12 >> 16));
    let v14 = v13.wrapping_add(st.1);
    let v15i = d1.wrapping_add(v13);
    let v15 = v9.wrapping_mul(v15i).wrapping_sub(0x3CE8EC25u32.wrapping_mul(v15i >> 16));
    let t2 = 0x59C3AF2Du32.wrapping_mul(v15).wrapping_sub(0x2232E0F1u32.wrapping_mul(v15 >> 16));
    let res = 0x1EC90001u32.wrapping_mul(t2).wrapping_add(0x35BD1EC9u32.wrapping_mul(t2 >> 16));
    (res, res.wrapping_add(v14))
}

/// The first pass folded over the first `n` word pairs.
pub open spec fn sub1_fold(words: Seq<u32>, n: int, v9: u32, v10: u32) -> (u32, u32)
    decreases n,
{
    if n <= 0 {
        (0u32, 0u32)
    } else {
        sub1_round(sub1_fold(words, n - 1, v9, v10), words[2 * (n - 1)], words[2 * (n - 1) + 1],
            v9, v10)
    }
}

/// The first mixing pass: two output words from the whole word array, or
/// zeros when fewer than one pair of words is available.
pub open spec fn spec_sub1(words: Seq<u32>, m0: u32, m1: u32) -> (u32, u32) {
    if words.len() <= 1 || words.len() % 2 == 1 {
        (0u32, 0u32)
    } else {
        let v9 = (m1 | 1).wrapping_add(0x13DB0000);
        let v10 = (m0 | 1).wrapping_add(0x69FB0000);
        sub1_fold(words, words.len() as int / 2, v9, v10)
    }
}

fn sub_1(words: &Vec<u32>, m0: u32, m1: u32) -> (r: (u32, u32))
    ensures
        r == spec_sub1(words@, m0, m1),
{
    let len = words.len();
    if len <= 1 || len % 2 == 1 {
        return (0u32, 0u32);
    }
    let v9 = (m1 | 1).wrapping_add(0x13DB0000);
    let v10 = (m0 | 1).wrapping_add(0x69FB0000);
    let pairs = len / 2;
    let mut result: u32 = 0;
    let mut v5: u32 = 0;
    let mut t: usize = 0;
    while t < pairs
        invariant
            0 <= t <= pairs,
            2 * pairs == words@.len(),
            words@.len() <= usize::MAX,
            (result, v5) == sub1_fold(words@, t as int, v9, v10),
        decreases pairs - t,
    {
        let st = sub1_round_exec((result, v5), words[2 * t], words[2 * t + 1], v9, v10);
        proof {
            assert(sub1_fold(words@, t + 1, v9, v10) == sub1_round(
                sub1_fold(words@, t as int, v9, v10),
                words@[2 * (t as int)],
                words@[2 * (t as int) + 1],
                v9,
                v10,
            ));
        }
        result = st.0;
        v5 = st.1;
        t = t + 1;
    }
    (result, v5)
}

fn sub1_round_exec(st: (u32, u32), d0: u32, d1: u32, v9: u32, v10: u32) -> (r: (u32, u32))
    ensures
        r == sub1_round(st, d0, d1, v9, v10),
{
    proof {
        reveal(sub1_round);
    }
    let v11 = d0.wrapping_add(st.0);
    let t1 = v10.wrapping_mul(v11).wrapping_sub(0x10FA9605u32.wrapping_mul(v11 >> 16));
    let v12 = 0x79F8A395u32.wrapping_mul(t1).wrapping_add(0x689B6B9Fu32.wrapping_mul(t1 >> 16));
    let v13 = 0xEA970001u32.wrapping_mul(v12).wrapping_sub(0x3C101569u32.wrapping_mul(v12 >> 16));
    let v14 = v13.wrapping_add(st.1);
    let v15i = d1.wrapping_add(v13);
    let v15 = v9.wrapping_mul(v15i).wrapping_sub(0x3CE8EC25u32.wrapping_mul(v15i >> 16));
    let t2 = 0x59C3AF2Du32.wrapping_mul(v15).wrapping_sub(0x2232E0F1u32.wrapping_mul(v15 >> 16));
    let res = 0x1EC90001u32.wrapping_mul(t2).wrapping_add(0x35BD1EC9u32.wrapping_mul(t2 >> 16));
    (res, res.wrapping_add(v14))
}

/// One round of the second mixing pass over a word pair.
#[verifier::opaque]
pub open spec fn sub2_round(st: (u32, u32), d0: u32, d1: u32, v21: u32, v22: u32, v23: u32,
    v24: u32) -> (u32, u32) {
    let left = d0.wrapping_add(st.0);
    let v9 = left.wrapping_mul(v23).wrapping_sub(
        0x30674EEFu32.wrapping_mul(v21.wrapping_mul(left) >> 16));
    let v10 = v9 >> 16;
    let v11 = 0xE9B30000u32.wrapping_mul(v10).wrapping_add(
        0x12CEB96Du32.wrapping_mul(
            (0x5B9F0000u32.wrapping_mul(v9).wrapping_sub(0x78F7A461u32.wrapping_mul(v10))) >> 16));
    let v12 = 0x1D830000u32.wrapping_mul(v11).wrapping_add(0x257E1D83u32.wrapping_mul(v11 >> 16));
    let right = v12.wrapping_add(d1);
    let t1 = right.wrapping_mul(v24).wrapping_sub(
        0x5D8BE90Bu32.wrapping_mul(v22.wrapping_mul(right) >> 16));
    let v13 = t1 >> 16;
    let v14 = (0x96FF0000u32.wrapping_mul(t1).wrapping_sub(0x2C7C6901u32.wrapping_mul(v13))) >> 16;
    let v5 = 0xF2310000u32.wrapping_mul(v14).wrapping_sub(
        0x405B6097u32.wrapping_mul(
            (0x7C932B89u32.wrapping_mul(v14).wrapping_sub(0x5C890000u32.wrapping_mul(v13))) >> 16));
    (v5, st.1.wrapping_add(v5).wrapping_add(v12))
}

/// The second pass folded over the first `n` word pairs.
pub open spec fn sub2_fold(words: Seq<u32>, n: int, v21: u32, v22: u32, v23: u32, v24: u32) -> (
    u32, u32)
    decreases n,
{
    if n <= 0 {
        (0u32, 0u32)
    } else {
        sub2_round(sub2_fold(words, n - 1, v21, v22, v23, v24), words[2 * (n - 1)], words[2 * (n
            - 1) + 1], v21, v22, v23, v24)
    }
}

/// The second mixing pass, seeded with different constant multipliers.
pub open spec fn spec_sub2(words: Seq<u32>, m0: u32, m1: u32) -> (u32, u32) {
    if words.len() <= 1 || words.len() % 2 == 1 {
        (0u32, 0u32)
    } else {
        let v21 = m0 | 1;
        let v22 = m1 | 1;
        let v23 = 0xB1110000u32.wrapping_mul(v21);
        let v24 = 0x16F50000u32.wrapping_mul(v22);
        sub2_fold(words, words.len() as int / 2, v21, v22, v23, v24)
    }
}

fn sub2_round_exec(st: (u32, u32), d0: u32, d1: u32, v21: u32, v22: u32, v23: u32, v24: u32) -> (r:
    (u32, u32))
    ensures
        r == sub2_round(st, d0, d1, v21, v22, v23, v24),
{
    proof {
        reveal(sub2_round);
    }
    let left = d0.wrapping_add(st.0);
    let v9 = left.wrapping_mul(v23).wrapping_sub(
        0x30674EEFu32.wrapping_mul(v21.wrapping_mul(left) >> 16));
    let v10 = v9 >> 16;
    let v11 = 0xE9B30000u32.wrapping_mul(v10).wrapping_add(
        0x12CEB96Du32.wrapping_mul(
            (0x5B9F0000u32.wrapping_mul(v9).wrapping_sub(0x78F7A461u32.wrapping_mul(v10))) >> 16));
    let v12 = 0x1D830000u32.wrapping_mul(v11).wrapping_add(0x257E1D83u32.wrapping_mul(v11 >> 16));
    let right = v12.wrapping_add(d1);
    let t1 = right.wrapping_mul(v24).wrapping_sub(
        0x5D8BE90Bu32.wrapping_mul(v22.wrapping_mul(right) >> 16));
    let v13 = t1 >> 16;
    let v14 = (0x96FF0000u32.wrapping_mul(t1).wrapping_sub(0x2C7C6901u32.wrapping_mul(v13))) >> 16;
    let v5 = 0xF2310000u32.wrapping_mul(v14).wrapping_sub(
        0x405B6097u32.wrapping_mul(
            (0x7C932B89u32.wrapping_mul(v14).wrapping_sub(0x5C890000u32.wrapping_mul(v13))) >> 16));
    (v5, st.1.wrapping_add(v5).wrapping_add(v12))
}

fn sub_2(words: &Vec<u32>, m0: u32, m1: u32) -> (r: (u32, u32))
    ensures
        r == spec_sub2(words@, m0, m1),
{
    let len = words.len();
    if len <= 1 || len % 2 == 1 {
        return (0u32, 0u32);
    }
    let v21 = m0 | 1;
    let v22 = m1 | 1;
    let v23 = 0xB1110000u32.wrapping_mul(v21);
    let v24 = 0x16F50000u32.wrapping_mul(v22);
    let pairs = len / 2;
    let mut v5: u32 = 0;
    let mut v7: u32 = 0;
    let mut t: usize = 0;
    while t < pairs
        invariant
            0 <= t <= pairs,
            2 * pairs == words@.len(),
            words@.len() <= usize::MAX,
            (v5, v7) == sub2_fold(words@, t as int, v21, v22, v23, v24),
        decreases pairs - t,
    {
        let st = sub2_round_exec((v5, v7), words[2 * t], words[2 * t + 1], v21, v22, v23, v24);
        proof {
            assert(sub2_fold(words@, t + 1, v21, v22, v23, v24) == sub2_round(
                sub2_fold(words@, t as int, v21, v22, v23, v24),
                words@[2 * (t as int)],
                words@[2 * (t as int) + 1],
                v21,
                v22,
                v23,
                v24,
            ));
        }
        v5 = st.0;
        v7 = st.1;
        t = t + 1;
    }
    (v5, v7)
}

/// What the MD5 digest of a byte sequence is; the algorithm itself stays in
/// the md5 crate.
pub uninterp spec fn md5_digest_of(bytes: Seq<u8>) -> Seq<u8>;

/// Relies on md5::compute: the 128-bit MD5 digest of the input, sixteen
/// bytes determined by the input bytes alone.
#[verifier::external_body]
fn md5_digest(bytes: &Vec<u8>) -> (r: Vec<u8>)
    ensures
        r@ == md5_digest_of(bytes@),
        r@.len() == 16,
{
    md5::compute(bytes.as_slice()).0.to_vec()
}

/// What the padded standard-alphabet Base64 text of a byte sequence is; the
/// encoding itself stays in the base64 crate.
pub uninterp spec fn base64_standard_of(bytes: Seq<u8>) -> Seq<char>;

/// Relies on base64's STANDARD engine (Engine::encode): padded Base64 text
/// in the standard alphabet, determined by the input bytes alone, four
/// characters for every started group of three bytes.
#[verifier::external_body]
fn base64_encode(bytes: &Vec<u8>) -> (r: String)
    ensures
        r@ == base64_standard_of(bytes@),
        r@.len() == 4 * ((bytes@.len() + 2) / 3),
{
    base64::engine::general_purpose::STANDARD.encode(bytes.as_slice())
}

/// The four little-endian bytes of a 32-bit word.
pub open spec fn spec_le4(w: u32) -> Seq<u8> {
    seq![
        (w % 0x100) as u8,
        ((w / 0x100) % 0x100) as u8,
        ((w / 0x10000) % 0x100) as u8,
        ((w / 0x1000000) % 0x100) as u8,
    ]
}

fn push_le4(out: &mut Vec<u8>, w: u32)
    ensures
        final(out)@ == old(out)@ + spec_le4(w),
{
    out.push((w % 0x100) as u8);
    out.push(((w / 0x100) % 0x100) as u8);
    out.push(((w / 0x10000) % 0x100) as u8);
    out.push(((w / 0x1000000) % 0x100) as u8);
    proof {
        assert(final(out)@ =~= old(out)@ + spec_le4(w));
    }
}

/// The full hash input: the five parts concatenated, one NUL appended, the
/// whole ASCII-lowercased, encoded as UTF-16LE.
pub open spec fn spec_hash_input_bytes(e: Seq<char>, s: Seq<char>, p: Seq<char>, rd: Seq<char>,
    x: Seq<char>) -> Seq<u8> {
    utf16le_of(spec_lower((e + s + p + rd + x).push('\u{0}')))
}

/// The hash text: Base64 of the XOR of the two mixing passes, both seeded
/// from the MD5 words of the input bytes.
#[verifier::opaque]
pub open spec fn spec_user_choice_hash(e: Seq<char>, s: Seq<char>, p: Seq<char>, rd: Seq<char>,
    x: Seq<char>) -> Seq<char> {
    let bytes = spec_hash_input_bytes(e, s, p, rd, x);
    let digest = md5_digest_of(bytes);
    let m0 = le_word_at(digest, 0);
    let m1 = le_word_at(digest, 1);
    let words = dwords_of(bytes);
    let h1 = spec_sub1(words, m0, m1);
    let h2 = spec_sub2(words, m0, m1);
    base64_standard_of(spec_le4(h1.0 ^ h2.0) + spec_le4(h1.1 ^ h2.1))
}

/// Computes the hash with an explicit experience marker, for verification
/// tooling; the result is a function of the five inputs alone.
pub fn compute_user_choice_hash_with_experience(extension: &str, sid: &str, prog_id: &str,
    regdate_hex: &str, experience: &str) -> (r: String)
    ensures
        r@ == spec_user_choice_hash(extension@, sid@, prog_id@, regdate_hex@, experience@),
{
    proof {
        reveal(spec_user_choice_hash);
    }
    let mut input = String::new();
    input.append(extension);
    input.append(sid);
    input.append(prog_id);
    input.append(regdate_hex);
    input.append(experience);
    push_char(&mut input, '\u{0}');
    let lowered = crate::text::to_ascii_lower(input.as_str());
    let bytes = utf16le_bytes(lowered.as_str());
    let digest = md5_digest(&bytes);
    let (m0, m1) = dword_md5(&digest);
    let words = dword_data(&bytes);
    let h1 = sub_1(&words, m0, m1);
    let h2 = sub_2(&words, m0, m1);
    let mut raw: Vec<u8> = Vec::new();
    push_le4(&mut raw, h1.0 ^ h2.0);
    push_le4(&mut raw, h1.1 ^ h2.1);
    base64_encode(&raw)
}

/// Computes the legacy user-choice hash for an extension, user SID, handler
/// ProgId and clamped key timestamp, with the fixed experience marker.
pub fn compute_user_choice_hash(extension: &str, sid: &str, prog_id: &str, regdate_hex: &str) -> (r:
    String)
    ensures
        r@ == spec_user_choice_hash(extension@, sid@, prog_id@, regdate_hex@, USER_EXPERIENCE@),
{
    compute_user_choice_hash_with_experience(extension, sid, prog_id, regdate_hex, USER_EXPERIENCE)
}

/// The hash is deterministic: any two results of the same five inputs are
/// the same text.
pub proof fn lemma_hash_deterministic(r1: Seq<char>, r2: Seq<char>, e: Seq<char>, s: Seq<char>,
    p: Seq<char>, rd: Seq<char>, x: Seq<char>)
    requires
        r1 == spec_user_choice_hash(e, s, p, rd, x),
        r2 == spec_user_choice_hash(e, s, p, rd, x),
    ensures
        r1 == r2,
{
}

} // verus!
