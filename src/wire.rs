//! Primitive wire encodings: big-endian integers and the variable-length
//! prefix that frames byte strings and sequences.

use vstd::prelude::*;

verus! {

/// Largest content length that a variable-length prefix can announce.
pub const MAX_VL_LEN: usize = 0x3fff_ffff;

/// Why a byte string could not be decoded.
#[derive(Debug, Clone, Copy, PartialEq, Eq, Structural)]
pub enum CodecError {
    /// The input ended before the value did.
    EndOfStream,
    /// A length prefix is malformed or not in its shortest form.
    InvalidVectorLength,
    /// Bytes were left over after the value.
    TrailingData,
    /// A tag byte names no known variant.
    UnknownValue(u8),
    /// An identifier is longer than its bound.
    IdentifierTooLong,
    /// A payload of the protocol layer is malformed in another way.
    MalformedPayload,
}

/// The shortest variable-length prefix announcing `n` content bytes: the top
/// two bits of the first byte give the prefix's width (one, two or four
/// bytes), the remaining bits hold `n` big-endian.
pub open spec fn vl_prefix(n: u32) -> Seq<u8> {
    if n <= 0x3f {
        seq![n as u8]
    } else if n <= 0x3fff {
        seq![(0x40 + n / 0x100) as u8, (n % 0x100) as u8]
    } else {
        seq![
            (0x80 + n / 0x100_0000) as u8,
            ((n / 0x1_0000) % 0x100) as u8,
            ((n / 0x100) % 0x100) as u8,
            (n % 0x100) as u8,
        ]
    }
}

/// Reads a variable-length prefix at the start of `s`: the announced length
/// and the number of prefix bytes, or `None` where the prefix is truncated,
/// uses the reserved eight-byte form, or is not the shortest form.
pub open spec fn parse_vl_prefix(s: Seq<u8>) -> Option<(u32, nat)> {
    if s.len() < 1 {
        None
    } else {
        let tag = s[0] / 64;
        let hi = s[0] % 64;
        if tag == 0 {
            Some((hi as u32, 1))
        } else if tag == 1 {
            if s.len() < 2 {
                None
            } else {
                let n = hi * 0x100 + s[1];
                if n <= 0x3f {
                    None
                } else {
                    Some((n as u32, 2))
                }
            }
        } else if tag == 2 {
            if s.len() < 4 {
                None
            } else {
                let n = ((hi * 0x100 + s[1]) * 0x100 + s[2]) * 0x100 + s[3];
                if n <= 0x3fff {
                    None
                } else {
                    Some((n as u32, 4))
                }
            }
        } else {
            None
        }
    }
}

/// Why a prefix that does not read fails: the input ends inside it, or it is
/// malformed.
pub open spec fn vl_prefix_error(s: Seq<u8>) -> CodecError {
    if s.len() == 0 || (s[0] / 64 == 1 && s.len() < 2) || (s[0] / 64 == 2 && s.len() < 4) {
        CodecError::EndOfStream
    } else {
        CodecError::InvalidVectorLength
    }
}

/// Why a framed byte string that does not read fails: its prefix fails, or
/// the input ends before the content it announces.
pub open spec fn vl_bytes_error(s: Seq<u8>) -> CodecError {
    match parse_vl_prefix(s) {
        Some(_) => CodecError::EndOfStream,
        None => vl_prefix_error(s),
    }
}

/// A byte string framed by its variable-length prefix.
pub open spec fn vl_bytes(c: Seq<u8>) -> Seq<u8> {
    vl_prefix(c.len() as u32) + c
}

/// Reads a framed byte string at the start of `s`: its content and the
/// number of bytes it took.
pub open spec fn parse_vl_bytes(s: Seq<u8>) -> Option<(Seq<u8>, nat)> {
    match parse_vl_prefix(s) {
        Some((n, k)) => if k + n <= s.len() {
            Some((s.subrange(k as int, k + n), (k + n) as nat))
        } else {
            None
        },
        None => None,
    }
}

/// The eight big-endian bytes of `x`.
pub open spec fn u64_bytes(x: u64) -> Seq<u8> {
    seq![
        (x >> 56u64) as u8,
        (x >> 48u64) as u8,
        (x >> 40u64) as u8,
        (x >> 32u64) as u8,
        (x >> 24u64) as u8,
        (x >> 16u64) as u8,
        (x >> 8u64) as u8,
        x as u8,
    ]
}

/// The integer whose big-endian bytes are the first eight of `s`.
pub open spec fn be_u64(s: Seq<u8>) -> u64 {
    ((s[0] as u64) << 56u64) | ((s[1] as u64) << 48u64) | ((s[2] as u64) << 40u64) | ((
    s[3] as u64) << 32u64) | ((s[4] as u64) << 24u64) | ((s[5] as u64) << 16u64) | ((
    s[6] as u64) << 8u64) | (s[7] as u64)
}

/// Reads a big-endian `u64` at the start of `s`.
pub open spec fn parse_u64(s: Seq<u8>) -> Option<(u64, nat)> {
    if s.len() < 8 {
        None
    } else {
        Some((be_u64(s), 8))
    }
}

/// The four big-endian bytes of `x`.
pub open spec fn u32_bytes(x: u32) -> Seq<u8> {
    seq![(x >> 24u32) as u8, (x >> 16u32) as u8, (x >> 8u32) as u8, x as u8]
}

/// The integer whose big-endian bytes are the first four of `s`.
pub open spec fn be_u32(s: Seq<u8>) -> u32 {
    ((s[0] as u32) << 24u32) | ((s[1] as u32) << 16u32) | ((s[2] as u32) << 8u32) | (s[3] as u32)
}

/// Reads a big-endian `u32` at the start of `s`.
pub open spec fn parse_u32(s: Seq<u8>) -> Option<(u32, nat)> {
    if s.len() < 4 {
        None
    } else {
        Some((be_u32(s), 4))
    }
}

proof fn lemma_u64_bits(x: u64)
    by (bit_vector)
    ensures
        ((((x >> 56u64) as u8) as u64) << 56u64) | ((((x >> 48u64) as u8) as u64) << 48u64) | ((((
        x >> 40u64) as u8) as u64) << 40u64) | ((((x >> 32u64) as u8) as u64) << 32u64) | ((((x
            >> 24u64) as u8) as u64) << 24u64) | ((((x >> 16u64) as u8) as u64) << 16u64) | ((((x
            >> 8u64) as u8) as u64) << 8u64) | ((x as u8) as u64) == x,
{
}

/// A big-endian `u64` reads back as itself, whatever follows it.
pub proof fn lemma_u64_round_trip(x: u64, rest: Seq<u8>)
    ensures
        parse_u64(u64_bytes(x) + rest) == Some((x, 8nat)),
{
    let s = u64_bytes(x) + rest;
    lemma_u64_bits(x);
    assert(s[0] == (x >> 56u64) as u8);
    assert(s[7] == x as u8);
    assert(s[1] == (x >> 48u64) as u8 && s[2] == (x >> 40u64) as u8 && s[3] == (x >> 32u64) as u8);
    assert(s[4] == (x >> 24u64) as u8 && s[5] == (x >> 16u64) as u8 && s[6] == (x >> 8u64) as u8);
}

proof fn lemma_u32_bits(x: u32)
    by (bit_vector)
    ensures
        ((((x >> 24u32) as u8) as u32) << 24u32) | ((((x >> 16u32) as u8) as u32) << 16u32) | ((((
        x >> 8u32) as u8) as u32) << 8u32) | ((x as u8) as u32) == x,
{
}

/// A big-endian `u32` reads back as itself, whatever follows it.
pub proof fn lemma_u32_round_trip(x: u32, rest: Seq<u8>)
    ensures
        parse_u32(u32_bytes(x) + rest) == Some((x, 4nat)),
{
    let s = u32_bytes(x) + rest;
    lemma_u32_bits(x);
    assert(s[0] == (x >> 24u32) as u8 && s[1] == (x >> 16u32) as u8);
    assert(s[2] == (x >> 8u32) as u8 && s[3] == x as u8);
}

proof fn lemma_prefix4_digits(n: u32)
    by (bit_vector)
    requires
        0x3fff < n <= 0x3fff_ffff,
    ensures
        n / 0x100_0000 < 64,
        (((n / 0x100_0000) * 0x100 + (n / 0x1_0000) % 0x100) * 0x100 + (n / 0x100) % 0x100)
            * 0x100 + n % 0x100 == n,
{
}

/// The shortest prefix for `n` reads back as `n`, whatever follows it.
pub proof fn lemma_vl_prefix_round_trip(n: u32, rest: Seq<u8>)
    requires
        n <= MAX_VL_LEN,
    ensures
        parse_vl_prefix(vl_prefix(n) + rest) == Some((n, vl_prefix(n).len())),
        1 <= vl_prefix(n).len() <= 4,
{
    let p = vl_prefix(n);
    let s = p + rest;
    if n <= 0x3f {
        assert(s[0] == p[0]);
    } else if n <= 0x3fff {
        assert(s[0] == p[0] && s[1] == p[1]);
    } else {
        lemma_prefix4_digits(n);
        assert(s[0] == p[0] && s[1] == p[1] && s[2] == p[2] && s[3] == p[3]);
    }
}

/// A framed byte string reads back as its content, whatever follows it.
pub proof fn lemma_vl_bytes_round_trip(c: Seq<u8>, rest: Seq<u8>)
    requires
        c.len() <= MAX_VL_LEN,
    ensures
        parse_vl_bytes(vl_bytes(c) + rest) == Some((c, vl_bytes(c).len())),
{
    let p = vl_prefix(c.len() as u32);
    lemma_vl_prefix_round_trip(c.len() as u32, c + rest);
    assert(vl_bytes(c) + rest =~= p + (c + rest));
    assert((p + (c + rest)).subrange(p.len() as int, (p.len() + c.len()) as int) =~= c);
}

/// The bytes of `s` from position `pos` on.
pub open spec fn rest_from(s: Seq<u8>, pos: int) -> Seq<u8> {
    s.subrange(pos, s.len() as int)
}

/// Appends `b` to `out`.
pub fn write_bytes(out: &mut Vec<u8>, b: &[u8])
    ensures
        final(out)@ == old(out)@ + b@,
{
    let ghost start = out@;
    let mut i: usize = 0;
    while i < b.len()
        invariant
            i <= b@.len(),
            out@ == start + b@.subrange(0, i as int),
        decreases b@.len() - i,
    {
        out.push(b[i]);
        i = i + 1;
        assert(out@ =~= start + b@.subrange(0, i as int));
    }
    assert(b@.subrange(0, b@.len() as int) =~= b@);
}

/// Appends the big-endian bytes of `x` to `out`.
pub fn write_u64(out: &mut Vec<u8>, x: u64)
    ensures
        final(out)@ == old(out)@ + u64_bytes(x),
{
    let ghost start = out@;
    out.push((x >> 56u64) as u8);
    out.push((x >> 48u64) as u8);
    out.push((x >> 40u64) as u8);
    out.push((x >> 32u64) as u8);
    out.push((x >> 24u64) as u8);
    out.push((x >> 16u64) as u8);
    out.push((x >> 8u64) as u8);
    out.push(x as u8);
    assert(out@ =~= start + u64_bytes(x));
}

/// Appends the big-endian bytes of `x` to `out`.
pub fn write_u32(out: &mut Vec<u8>, x: u32)
    ensures
        final(out)@ == old(out)@ + u32_bytes(x),
{
    let ghost start = out@;
    out.push((x >> 24u32) as u8);
    out.push((x >> 16u32) as u8);
    out.push((x >> 8u32) as u8);
    out.push(x as u8);
    assert(out@ =~= start + u32_bytes(x));
}

/// Appends the shortest variable-length prefix announcing `n` bytes.
pub fn write_vl_prefix(out: &mut Vec<u8>, n: usize)
    requires
        n <= MAX_VL_LEN,
    ensures
        final(out)@ == old(out)@ + vl_prefix(n as u32),
{
    let ghost start = out@;
    let m = n as u32;
    if m <= 0x3f {
        out.push(m as u8);
    } else if m <= 0x3fff {
        out.push((0x40 + m / 0x100) as u8);
        out.push((m % 0x100) as u8);
    } else {
        proof {
            lemma_prefix4_digits(m);
        }
        out.push((0x80 + m / 0x100_0000) as u8);
        out.push(((m / 0x1_0000) % 0x100) as u8);
        out.push(((m / 0x100) % 0x100) as u8);
        out.push((m % 0x100) as u8);
    }
    assert(out@ =~= start + vl_prefix(m));
}

/// Appends `c` framed by its variable-length prefix.
pub fn write_vl_bytes(out: &mut Vec<u8>, c: &[u8])
    requires
        c@.len() <= MAX_VL_LEN,
    ensures
        final(out)@ == old(out)@ + vl_bytes(c@),
{
    let ghost start = out@;
    write_vl_prefix(out, c.len());
    write_bytes(out, c);
    assert(out@ =~= start + vl_bytes(c@));
}

/// Reads a big-endian `u64` at `pos`.
pub fn read_u64(bytes: &[u8], pos: usize) -> (r: Result<(u64, usize), CodecError>)
    requires
        pos <= bytes@.len(),
    ensures
        match parse_u64(rest_from(bytes@, pos as int)) {
            Some((x, k)) => r matches Ok((v, p)) && v == x && p == pos + k,
            None => r is Err,
        },
{
    if bytes.len() - pos < 8 {
        return Err(CodecError::EndOfStream);
    }
    let ghost s = rest_from(bytes@, pos as int);
    assert(s[0] == bytes@[pos as int] && s[1] == bytes@[pos + 1] && s[2] == bytes@[pos + 2]);
    assert(s[3] == bytes@[pos + 3] && s[4] == bytes@[pos + 4] && s[5] == bytes@[pos + 5]);
    assert(s[6] == bytes@[pos + 6] && s[7] == bytes@[pos + 7]);
    let x = ((bytes[pos] as u64) << 56u64) | ((bytes[pos + 1] as u64) << 48u64) | ((bytes[pos
        + 2] as u64) << 40u64) | ((bytes[pos + 3] as u64) << 32u64) | ((bytes[pos + 4] as u64)
        << 24u64) | ((bytes[pos + 5] as u64) << 16u64) | ((bytes[pos + 6] as u64) << 8u64) | (
    bytes[pos + 7] as u64);
    Ok((x, pos + 8))
}

/// Reads a big-endian `u32` at `pos`.
pub fn read_u32(bytes: &[u8], pos: usize) -> (r: Result<(u32, usize), CodecError>)
    requires
        pos <= bytes@.len(),
    ensures
        match parse_u32(rest_from(bytes@, pos as int)) {
            Some((x, k)) => r matches Ok((v, p)) && v == x && p == pos + k,
            None => r is Err,
        },
{
    if bytes.len() - pos < 4 {
        return Err(CodecError::EndOfStream);
    }
    let ghost s = rest_from(bytes@, pos as int);
    assert(s[0] == bytes@[pos as int] && s[1] == bytes@[pos + 1]);
    assert(s[2] == bytes@[pos + 2] && s[3] == bytes@[pos + 3]);
    let x = ((bytes[pos] as u32) << 24u32) | ((bytes[pos + 1] as u32) << 16u32) | ((bytes[pos
        + 2] as u32) << 8u32) | (bytes[pos + 3] as u32);
    Ok((x, pos + 4))
}

/// Reads a variable-length prefix at `pos`: the announced length and the
/// position after the prefix.
pub fn read_vl_prefix(bytes: &[u8], pos: usize) -> (r: Result<(usize, usize), CodecError>)
    requires
        pos <= bytes@.len(),
    ensures
        match parse_vl_prefix(rest_from(bytes@, pos as int)) {
            Some((n, k)) => r matches Ok((v, p)) && v == n && p == pos + k,
            None => r == Err::<(usize, usize), CodecError>(
                vl_prefix_error(rest_from(bytes@, pos as int)),
            ),
        },
{
    if pos >= bytes.len() {
        return Err(CodecError::EndOfStream);
    }
    let ghost s = rest_from(bytes@, pos as int);
    let b0 = bytes[pos];
    assert(s[0] == b0);
    let tag = b0 / 64;
    let hi = (b0 % 64) as u32;
    if tag == 0 {
        Ok((hi as usize, pos + 1))
    } else if tag == 1 {
        if bytes.len() - pos < 2 {
            return Err(CodecError::EndOfStream);
        }
        assert(s[1] == bytes@[pos + 1]);
        let n = hi * 0x100 + bytes[pos + 1] as u32;
        if n <= 0x3f {
            Err(CodecError::InvalidVectorLength)
        } else {
            Ok((n as usize, pos + 2))
        }
    } else if tag == 2 {
        if bytes.len() - pos < 4 {
            return Err(CodecError::EndOfStream);
        }
        assert(s[1] == bytes@[pos + 1] && s[2] == bytes@[pos + 2] && s[3] == bytes@[pos + 3]);
        let n = ((hi * 0x100 + bytes[pos + 1] as u32) * 0x100 + bytes[pos + 2] as u32) * 0x100
            + bytes[pos + 3] as u32;
        if n <= 0x3fff {
            Err(CodecError::InvalidVectorLength)
        } else {
            Ok((n as usize, pos + 4))
        }
    } else {
        Err(CodecError::InvalidVectorLength)
    }
}

/// Reads a framed byte string at `pos`: its content and the position after it.
pub fn read_vl_bytes(bytes: &[u8], pos: usize) -> (r: Result<(Vec<u8>, usize), CodecError>)
    requires
        pos <= bytes@.len(),
    ensures
        match parse_vl_bytes(rest_from(bytes@, pos as int)) {
            Some((c, k)) => r matches Ok((v, p)) && v@ == c && p == pos + k,
            None => r == Err::<(Vec<u8>, usize), CodecError>(
                vl_bytes_error(rest_from(bytes@, pos as int)),
            ),
        },
{
    let (n, p) = read_vl_prefix(bytes, pos)?;
    if n > bytes.len() - p {
        return Err(CodecError::EndOfStream);
    }
    let v = vstd::slice::slice_to_vec(vstd::slice::slice_subrange(bytes, p, p + n));
    proof {
        let s = rest_from(bytes@, pos as int);
        let k = (p - pos) as int;
        assert(s.subrange(k, k + n) =~= bytes@.subrange(p as int, p + n));
    }
    Ok((v, p + n))
}

/// The encodings of `xs`, one after another.
pub open spec fn seq_wire<T>(xs: Seq<T>, enc: spec_fn(T) -> Seq<u8>) -> Seq<u8>
    decreases xs.len(),
{
    if xs.len() == 0 {
        Seq::empty()
    } else {
        enc(xs[0]) + seq_wire(xs.drop_first(), enc)
    }
}

/// Reads all of `s` as elements one after another, each read by `p`, which
/// must take at least one byte each time.
pub open spec fn parse_seq<T>(s: Seq<u8>, p: spec_fn(Seq<u8>) -> Option<(T, nat)>) -> Option<Seq<T>>
    decreases s.len(),
{
    if s.len() == 0 {
        Some(Seq::empty())
    } else {
        match p(s) {
            Some((x, k)) => if 0 < k <= s.len() {
                match parse_seq(s.subrange(k as int, s.len() as int), p) {
                    Some(xs) => Some(seq![x] + xs),
                    None => None,
                }
            } else {
                None
            },
            None => None,
        }
    }
}

/// `acc` followed by what `o` holds, if it holds anything.
pub open spec fn prepend_opt<T>(acc: Seq<T>, o: Option<Seq<T>>) -> Option<Seq<T>> {
    match o {
        Some(xs) => Some(acc + xs),
        None => None,
    }
}

/// A sequence framed by the variable-length prefix of its byte length.
pub open spec fn vl_seq_wire<T>(xs: Seq<T>, enc: spec_fn(T) -> Seq<u8>) -> Seq<u8> {
    vl_bytes(seq_wire(xs, enc))
}

/// Reads a framed sequence at the start of `s`: its elements and the number
/// of bytes it took.
pub open spec fn parse_vl_seq<T>(s: Seq<u8>, p: spec_fn(Seq<u8>) -> Option<(T, nat)>) -> Option<
    (Seq<T>, nat),
> {
    match parse_vl_bytes(s) {
        Some((c, k)) => match parse_seq(c, p) {
            Some(xs) => Some((xs, k)),
            None => None,
        },
        None => None,
    }
}

/// Elements that each read back as themselves, whatever follows, read back as
/// the whole sequence.
pub proof fn lemma_seq_round_trip<T>(
    xs: Seq<T>,
    enc: spec_fn(T) -> Seq<u8>,
    p: spec_fn(Seq<u8>) -> Option<(T, nat)>,
)
    requires
        forall|i: int, rest: Seq<u8>|
            0 <= i < xs.len() ==> #[trigger] p(enc(xs[i]) + rest) == Some((xs[i], enc(xs[i]).len())),
        forall|i: int| 0 <= i < xs.len() ==> #[trigger] enc(xs[i]).len() > 0,
    ensures
        parse_seq(seq_wire(xs, enc), p) == Some(xs),
    decreases xs.len(),
{
    if xs.len() > 0 {
        let tail = xs.drop_first();
        assert forall|i: int, rest: Seq<u8>|
            0 <= i < tail.len() implies #[trigger] p(enc(tail[i]) + rest) == Some(
                (tail[i], enc(tail[i]).len()),
            ) by {
            assert(tail[i] == xs[i + 1]);
        }
        assert forall|i: int| 0 <= i < tail.len() implies #[trigger] enc(tail[i]).len() > 0 by {
            assert(tail[i] == xs[i + 1]);
        }
        lemma_seq_round_trip(tail, enc, p);
        let s = seq_wire(xs, enc);
        let e = enc(xs[0]);
        assert(p(e + seq_wire(tail, enc)) == Some((xs[0], e.len())));
        assert(s.subrange(e.len() as int, s.len() as int) =~= seq_wire(tail, enc));
        assert(seq![xs[0]] + tail =~= xs);
    }
}

/// Appending one element appends its encoding.
pub proof fn lemma_seq_wire_push<T>(xs: Seq<T>, x: T, enc: spec_fn(T) -> Seq<u8>)
    ensures
        seq_wire(xs.push(x), enc) == seq_wire(xs, enc) + enc(x),
    decreases xs.len(),
{
    if xs.len() == 0 {
        assert(xs.push(x).drop_first() =~= xs);
        assert(xs.push(x)[0] == x);
        assert(seq_wire(xs, enc) == Seq::<u8>::empty());
        assert(seq_wire(xs.push(x), enc) =~= enc(x));
    } else {
        assert(xs.push(x).drop_first() =~= xs.drop_first().push(x));
        lemma_seq_wire_push(xs.drop_first(), x, enc);
        assert(xs.push(x)[0] == xs[0]);
        assert(seq_wire(xs.push(x), enc) =~= seq_wire(xs, enc) + enc(x));
    }
}

/// Reading a sequence from a position on, one element at a time: reading
/// all of `s` is what was read so far followed by reading the rest.
pub proof fn lemma_parse_seq_step<T>(
    s: Seq<u8>,
    cur: int,
    p: spec_fn(Seq<u8>) -> Option<(T, nat)>,
    x: T,
    next: int,
)
    requires
        0 <= cur < next <= s.len(),
        p(rest_from(s, cur)) == Some((x, (next - cur) as nat)),
    ensures
        parse_seq(rest_from(s, cur), p) == prepend_opt(seq![x], parse_seq(rest_from(s, next), p)),
{
    let r = rest_from(s, cur);
    assert(r.subrange(next - cur, r.len() as int) =~= rest_from(s, next));
    match parse_seq(rest_from(s, next), p) {
        Some(xs) => {},
        None => {},
    }
}

/// A framed byte string cut short anywhere does not read.
pub proof fn lemma_truncated_vl_bytes_rejected(c: Seq<u8>, k: int)
    requires
        c.len() <= MAX_VL_LEN,
        0 <= k < vl_bytes(c).len(),
    ensures
        parse_vl_bytes(vl_bytes(c).subrange(0, k)) is None,
{
    let n = c.len() as u32;
    let p = vl_prefix(n);
    let w = vl_bytes(c);
    let t = w.subrange(0, k);
    lemma_vl_prefix_round_trip(n, c);
    if k >= p.len() {
        assert(t =~= p + c.subrange(0, k - p.len()));
        lemma_vl_prefix_round_trip(n, c.subrange(0, k - p.len()));
    } else if k > 0 {
        assert(t[0] == w[0]);
        assert(w[0] == p[0]);
        if n > 0x3fff {
            lemma_prefix4_digits(n);
        }
    }
}

/// Reads one value with `pa`, then one with `pb` from what follows it.
pub open spec fn parse_then<A, B>(
    s: Seq<u8>,
    pa: spec_fn(Seq<u8>) -> Option<(A, nat)>,
    pb: spec_fn(Seq<u8>) -> Option<(B, nat)>,
) -> Option<((A, B), nat)> {
    match pa(s) {
        Some((a, k)) => if k <= s.len() {
            match pb(s.subrange(k as int, s.len() as int)) {
                Some((b, j)) => Some(((a, b), k + j)),
                None => None,
            }
        } else {
            None
        },
        None => None,
    }
}

/// Two values that each read back as themselves, whatever follows, read
/// back as the pair.
pub proof fn lemma_then_round_trip<A, B>(
    a: A,
    b: B,
    wa: Seq<u8>,
    wb: Seq<u8>,
    pa: spec_fn(Seq<u8>) -> Option<(A, nat)>,
    pb: spec_fn(Seq<u8>) -> Option<(B, nat)>,
    rest: Seq<u8>,
)
    requires
        forall|r: Seq<u8>| #[trigger] pa(wa + r) == Some((a, wa.len())),
        forall|r: Seq<u8>| #[trigger] pb(wb + r) == Some((b, wb.len())),
    ensures
        parse_then(wa + wb + rest, pa, pb) == Some(((a, b), wa.len() + wb.len())),
{
    let s = wa + wb + rest;
    assert(s =~= wa + (wb + rest));
    assert(pa(wa + (wb + rest)) == Some((a, wa.len())));
    assert(s.subrange(wa.len() as int, s.len() as int) =~= wb + rest);
    assert(pb(wb + rest) == Some((b, wb.len())));
}

} // verus!
