//! Byte layout of the primitive parts of an envelope: little-endian
//! integers, length-prefixed byte strings and counted lists of them.

use vstd::prelude::*;

verus! {

/// What a list of byte strings holds.
pub open spec fn view_list(v: Seq<Vec<u8>>) -> Seq<Seq<u8>> {
    v.map_values(|x: Vec<u8>| x@)
}

/// Four little-endian bytes of `x`.
#[verifier::opaque]
pub open spec fn enc_u32(x: u32) -> Seq<u8> {
    seq![
        (x & 0xff) as u8,
        ((x >> 8u32) & 0xff) as u8,
        ((x >> 16u32) & 0xff) as u8,
        ((x >> 24u32) & 0xff) as u8,
    ]
}

/// The `u32` whose little-endian bytes are `a, b, c, d`.
pub open spec fn le_u32(a: u8, b: u8, c: u8, d: u8) -> u32 {
    (a as u32) | ((b as u32) << 8u32) | ((c as u32) << 16u32) | ((d as u32) << 24u32)
}

/// Eight little-endian bytes of `x`.
pub open spec fn enc_u64(x: u64) -> Seq<u8> {
    enc_u32((x & 0xffff_ffff) as u32) + enc_u32((x >> 32u64) as u32)
}

/// Reads a `u32` off the front of `b`.
#[verifier::opaque]
pub open spec fn parse_u32(b: Seq<u8>) -> Option<(u32, Seq<u8>)> {
    if b.len() >= 4 {
        Some((le_u32(b[0], b[1], b[2], b[3]), b.skip(4)))
    } else {
        None
    }
}

/// Reads a `u64` off the front of `b`.
pub open spec fn parse_u64(b: Seq<u8>) -> Option<(u64, Seq<u8>)> {
    if b.len() >= 8 {
        let lo = le_u32(b[0], b[1], b[2], b[3]);
        let hi = le_u32(b[4], b[5], b[6], b[7]);
        Some((((hi as u64) << 32u64) | (lo as u64), b.skip(8)))
    } else {
        None
    }
}

/// A byte string with its length in front.
#[verifier::opaque]
pub open spec fn enc_blob(s: Seq<u8>) -> Seq<u8> {
    enc_u64(s.len() as u64) + s
}

/// Reads a length-prefixed byte string off the front of `b`.
#[verifier::opaque]
pub open spec fn parse_blob(b: Seq<u8>) -> Option<(Seq<u8>, Seq<u8>)> {
    match parse_u64(b) {
        Some((n, r)) => if n <= r.len() {
            Some((r.take(n as int), r.skip(n as int)))
        } else {
            None
        },
        None => None,
    }
}

/// The byte strings one after the other, each with its length in front.
pub open spec fn enc_blobs(xs: Seq<Seq<u8>>) -> Seq<u8>
    decreases xs.len(),
{
    if xs.len() == 0 {
        Seq::empty()
    } else {
        enc_blob(xs[0]) + enc_blobs(xs.drop_first())
    }
}

/// A counted list of byte strings.
pub open spec fn enc_list(xs: Seq<Seq<u8>>) -> Seq<u8> {
    enc_u64(xs.len() as u64) + enc_blobs(xs)
}

/// Reads `n` length-prefixed byte strings off the front of `b`.
pub open spec fn parse_blobs(b: Seq<u8>, n: nat) -> Option<(Seq<Seq<u8>>, Seq<u8>)>
    decreases n,
{
    if n == 0 {
        Some((Seq::empty(), b))
    } else {
        match parse_blob(b) {
            Some((x, r)) => match parse_blobs(r, (n - 1) as nat) {
                Some((xs, r2)) => Some((seq![x] + xs, r2)),
                None => None,
            },
            None => None,
        }
    }
}

/// Reads a counted list of byte strings off the front of `b`.
pub open spec fn parse_list(b: Seq<u8>) -> Option<(Seq<Seq<u8>>, Seq<u8>)> {
    match parse_u64(b) {
        Some((n, r)) => parse_blobs(r, n as nat),
        None => None,
    }
}

/// Every byte string, and the list, is short enough for its length prefix.
pub open spec fn list_fits(xs: Seq<Seq<u8>>) -> bool {
    xs.len() <= u64::MAX && forall|i: int| 0 <= i < xs.len() ==> (#[trigger] xs[i]).len()
        <= u64::MAX
}

/// Reading a `u32` back from its bytes gives it, and leaves what follows.
pub proof fn lemma_u32_round_trip(x: u32, tail: Seq<u8>)
    ensures
        parse_u32(enc_u32(x) + tail) == Some((x, tail)),
{
    reveal(enc_u32);
    reveal(parse_u32);
    let b = enc_u32(x) + tail;
    let b0 = (x & 0xff) as u8;
    let b1 = ((x >> 8u32) & 0xff) as u8;
    let b2 = ((x >> 16u32) & 0xff) as u8;
    let b3 = ((x >> 24u32) & 0xff) as u8;
    assert(b[0] == b0 && b[1] == b1 && b[2] == b2 && b[3] == b3);
    assert(le_u32(b0, b1, b2, b3) == x) by (bit_vector)
        requires
            b0 == (x & 0xff) as u8,
            b1 == ((x >> 8u32) & 0xff) as u8,
            b2 == ((x >> 16u32) & 0xff) as u8,
            b3 == ((x >> 24u32) & 0xff) as u8,
    ;
    assert(b.skip(4) =~= tail);
}

/// Reading a `u64` back from its bytes gives it, and leaves what follows.
pub proof fn lemma_u64_round_trip(x: u64, tail: Seq<u8>)
    ensures
        parse_u64(enc_u64(x) + tail) == Some((x, tail)),
{
    reveal(enc_u32);
    reveal(parse_u32);
    let lo = (x & 0xffff_ffff) as u32;
    let hi = (x >> 32u64) as u32;
    let b = enc_u64(x) + tail;
    lemma_u32_round_trip(lo, enc_u32(hi) + tail);
    lemma_u32_round_trip(hi, tail);
    assert(b =~= enc_u32(lo) + (enc_u32(hi) + tail));
    let r1 = enc_u32(hi) + tail;
    assert(le_u32(b[0], b[1], b[2], b[3]) == lo);
    assert(b.skip(4) =~= r1);
    assert(le_u32(b[4], b[5], b[6], b[7]) == le_u32(r1[0], r1[1], r1[2], r1[3]));
    assert(le_u32(b[4], b[5], b[6], b[7]) == hi);
    assert((((hi as u64) << 32u64) | (lo as u64)) == x) by (bit_vector)
        requires
            lo == (x & 0xffff_ffff) as u32,
            hi == (x >> 32u64) as u32,
    ;
    assert(b.skip(8) =~= tail);
}

/// Reading a byte string back from its encoding gives it, and leaves what follows.
pub proof fn lemma_blob_round_trip(s: Seq<u8>, tail: Seq<u8>)
    requires
        s.len() <= u64::MAX,
    ensures
        parse_blob(enc_blob(s) + tail) == Some((s, tail)),
{
    reveal(enc_blob);
    reveal(parse_blob);
    lemma_u64_round_trip(s.len() as u64, s + tail);
    assert(enc_blob(s) + tail =~= enc_u64(s.len() as u64) + (s + tail));
    assert((s + tail).take(s.len() as int) =~= s);
    assert((s + tail).skip(s.len() as int) =~= tail);
}

/// Reading byte strings back from their encoding gives them, and leaves what follows.
pub proof fn lemma_blobs_round_trip(xs: Seq<Seq<u8>>, tail: Seq<u8>)
    requires
        list_fits(xs),
    ensures
        parse_blobs(enc_blobs(xs) + tail, xs.len()) == Some((xs, tail)),
    decreases xs.len(),
{
    if xs.len() > 0 {
        let rest = xs.drop_first();
        assert(list_fits(rest)) by {
            assert forall|i: int| 0 <= i < rest.len() implies (#[trigger] rest[i]).len()
                <= u64::MAX by {
                assert(rest[i] == xs[i + 1]);
            }
        }
        assert(xs[0].len() <= u64::MAX);
        let b = enc_blobs(xs) + tail;
        let r = enc_blobs(rest) + tail;
        lemma_blob_round_trip(xs[0], r);
        lemma_blobs_round_trip(rest, tail);
        assert(b =~= enc_blob(xs[0]) + r);
        assert(parse_blob(b) == Some((xs[0], r)));
        assert(parse_blobs(r, (xs.len() - 1) as nat) == Some((rest, tail)));
        assert(seq![xs[0]] + rest =~= xs);
    }
}

/// Reading a list back from its encoding gives it, and leaves what follows.
pub proof fn lemma_list_round_trip(xs: Seq<Seq<u8>>, tail: Seq<u8>)
    requires
        list_fits(xs),
    ensures
        parse_list(enc_list(xs) + tail) == Some((xs, tail)),
{
    lemma_u64_round_trip(xs.len() as u64, enc_blobs(xs) + tail);
    assert(enc_list(xs) + tail =~= enc_u64(xs.len() as u64) + (enc_blobs(xs) + tail));
    lemma_blobs_round_trip(xs, tail);
}

/// Appends the four little-endian bytes of `x`.
pub fn put_u32(out: &mut Vec<u8>, x: u32)
    ensures
        final(out)@ == old(out)@ + enc_u32(x),
{
    reveal(enc_u32);
    out.push((x & 0xff) as u8);
    out.push(((x >> 8u32) & 0xff) as u8);
    out.push(((x >> 16u32) & 0xff) as u8);
    out.push(((x >> 24u32) & 0xff) as u8);
    proof {
        assert(out@ =~= old(out)@ + enc_u32(x));
    }
}

/// Appends the eight little-endian bytes of `x`.
pub fn put_u64(out: &mut Vec<u8>, x: u64)
    ensures
        final(out)@ == old(out)@ + enc_u64(x),
{
    put_u32(out, (x & 0xffff_ffff) as u32);
    put_u32(out, (x >> 32u64) as u32);
    proof {
        assert(out@ =~= old(out)@ + enc_u64(x));
    }
}

/// Appends `s` with its length in front.
pub fn put_blob(out: &mut Vec<u8>, s: &[u8])
    ensures
        final(out)@ == old(out)@ + enc_blob(s@),
{
    reveal(enc_blob);
    put_u64(out, s.len() as u64);
    let ghost mid = out@;
    let mut i: usize = 0;
    while i < s.len()
        invariant
            i <= s.len(),
            out@ == mid + s@.take(i as int),
        decreases s.len() - i,
    {
        out.push(s[i]);
        i = i + 1;
        proof {
            assert(out@ =~= mid + s@.take(i as int));
        }
    }
    proof {
        assert(s@.take(s.len() as int) =~= s@);
        assert(out@ =~= old(out)@ + enc_blob(s@));
    }
}

/// Relies on `maidsafe_utilities::serialisation::serialise` (bincode 0.8,
/// little-endian, no size limit): a `Vec<Vec<u8>>` is laid out as its `u64`
/// count followed by each string's `u64` length and bytes, and serialising it
/// never fails.
#[verifier::external_body]
pub(crate) fn serialise_list(v: &Vec<Vec<u8>>) -> (r: Option<Vec<u8>>)
    ensures
        r is Some,
        r->Some_0@ == enc_list(view_list(v@)),
{
    maidsafe_utilities::serialisation::serialise(v).ok()
}

/// Appends a counted list of byte strings.
pub fn put_list(out: &mut Vec<u8>, xs: &Vec<Vec<u8>>)
    ensures
        final(out)@ == old(out)@ + enc_list(view_list(xs@)),
{
    if let Some(mut bytes) = serialise_list(xs) {
        out.append(&mut bytes);
    }
}

/// Reads a `u32` at `pos`; on success also where the rest begins.
pub fn read_u32(b: &[u8], pos: usize) -> (r: Option<(u32, usize)>)
    requires
        pos <= b@.len(),
    ensures
        r is None <==> parse_u32(b@.skip(pos as int)) is None,
        r is Some ==> pos <= r->Some_0.1 <= b@.len() && parse_u32(b@.skip(pos as int)) == Some(
            (r->Some_0.0, b@.skip(r->Some_0.1 as int)),
        ),
{
    reveal(parse_u32);
    if b.len() - pos < 4 {
        return None;
    }
    let x = (b[pos] as u32) | ((b[pos + 1] as u32) << 8u32) | ((b[pos + 2] as u32) << 16u32) | ((
    b[pos + 3] as u32) << 24u32);
    proof {
        let s = b@.skip(pos as int);
        assert(s[0] == b@[pos as int] && s[1] == b@[pos + 1] && s[2] == b@[pos + 2] && s[3]
            == b@[pos + 3]);
        assert(s.skip(4) =~= b@.skip(pos + 4));
    }
    Some((x, pos + 4))
}

/// Reads a `u64` at `pos`; on success also where the rest begins.
pub fn read_u64(b: &[u8], pos: usize) -> (r: Option<(u64, usize)>)
    requires
        pos <= b@.len(),
    ensures
        r is None <==> parse_u64(b@.skip(pos as int)) is None,
        r is Some ==> pos <= r->Some_0.1 <= b@.len() && parse_u64(b@.skip(pos as int)) == Some(
            (r->Some_0.0, b@.skip(r->Some_0.1 as int)),
        ),
{
    if b.len() - pos < 8 {
        return None;
    }
    let lo = (b[pos] as u32) | ((b[pos + 1] as u32) << 8u32) | ((b[pos + 2] as u32) << 16u32) | ((
    b[pos + 3] as u32) << 24u32);
    let hi = (b[pos + 4] as u32) | ((b[pos + 5] as u32) << 8u32) | ((b[pos + 6] as u32) << 16u32)
        | ((b[pos + 7] as u32) << 24u32);
    let x = ((hi as u64) << 32u64) | (lo as u64);
    proof {
        let s = b@.skip(pos as int);
        assert(s[0] == b@[pos as int] && s[1] == b@[pos + 1] && s[2] == b@[pos + 2] && s[3]
            == b@[pos + 3]);
        assert(s[4] == b@[pos + 4] && s[5] == b@[pos + 5] && s[6] == b@[pos + 6] && s[7]
            == b@[pos + 7]);
        assert(s.skip(8) =~= b@.skip(pos + 8));
    }
    Some((x, pos + 8))
}

/// Reads a length-prefixed byte string at `pos`.
pub fn read_blob(b: &[u8], pos: usize) -> (r: Option<(Vec<u8>, usize)>)
    requires
        pos <= b@.len(),
    ensures
        r is None <==> parse_blob(b@.skip(pos as int)) is None,
        r is Some ==> pos <= r->Some_0.1 <= b@.len() && parse_blob(b@.skip(pos as int)) == Some(
            (r->Some_0.0@, b@.skip(r->Some_0.1 as int)),
        ),
{
    reveal(parse_blob);
    let (n, start) = match read_u64(b, pos) {
        Some(p) => p,
        None => {
            return None;
        },
    };
    if n > (b.len() - start) as u64 {
        return None;
    }
    let n = n as usize;
    let mut out: Vec<u8> = Vec::new();
    let mut i: usize = 0;
    while i < n
        invariant
            start + n <= b.len(),
            i <= n,
            out@ == b@.subrange(start as int, start + i),
        decreases n - i,
    {
        out.push(b[start + i]);
        i = i + 1;
        proof {
            assert(out@ =~= b@.subrange(start as int, start + i));
        }
    }
    proof {
        let r = b@.skip(start as int);
        assert(r.take(n as int) =~= out@);
        assert(r.skip(n as int) =~= b@.skip(start + n));
    }
    Some((out, start + n))
}

/// Reads a counted list of byte strings at `pos`.
pub fn read_list(b: &[u8], pos: usize) -> (r: Option<(Vec<Vec<u8>>, usize)>)
    requires
        pos <= b@.len(),
    ensures
        r is None <==> parse_list(b@.skip(pos as int)) is None,
        r is Some ==> pos <= r->Some_0.1 <= b@.len() && parse_list(b@.skip(pos as int)) == Some(
            (view_list(r->Some_0.0@), b@.skip(r->Some_0.1 as int)),
        ),
{
    let (n, start) = match read_u64(b, pos) {
        Some(p) => p,
        None => {
            return None;
        },
    };
    let ghost whole = parse_blobs(b@.skip(start as int), n as nat);
    let mut out: Vec<Vec<u8>> = Vec::new();
    let mut at: usize = start;
    let mut i: u64 = 0;
    while i < n
        invariant
            start <= at <= b@.len(),
            i <= n,
            whole == parse_blobs(b@.skip(start as int), n as nat),
            whole == parse_list(b@.skip(pos as int)),
            whole == match parse_blobs(b@.skip(at as int), (n - i) as nat) {
                Some((xs, r2)) => Some((view_list(out@) + xs, r2)),
                None => None::<(Seq<Seq<u8>>, Seq<u8>)>,
            },
        decreases n - i,
    {
        let ghost before = view_list(out@);
        match read_blob(b, at) {
            Some((x, next)) => {
                proof {
                    assert(view_list(out@.push(x)) =~= before.push(x@));
                    match parse_blobs(b@.skip(next as int), (n - i - 1) as nat) {
                        Some((xs, r2)) => {
                            assert(before + (seq![x@] + xs) =~= before.push(x@) + xs);
                        },
                        None => {},
                    }
                }
                out.push(x);
                at = next;
                i = i + 1;
            },
            None => {
                proof {
                    assert(parse_blobs(b@.skip(at as int), (n - i) as nat) is None);
                }
                return None;
            },
        }
    }
    proof {
        assert(view_list(out@) + Seq::<Seq<u8>>::empty() =~= view_list(out@));
    }
    Some((out, at))
}

} // verus!
