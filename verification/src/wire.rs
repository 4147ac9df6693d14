//! Little-endian word framing of the wire format.
//!
//! Every persisted payload of this crate is a sequence of 64-bit words,
//! each written as eight little-endian bytes.  Encoding is injective, so a
//! byte string determines the words it came from.

use vstd::bytes::{
    lemma_auto_spec_u64_to_from_le_bytes, spec_u64_from_le_bytes, spec_u64_to_le_bytes,
    u64_from_le_bytes, u64_to_le_bytes,
};
use vstd::prelude::*;
use vstd::slice::slice_subrange;

verus! {

/// The byte encoding of a word sequence.
pub open spec fn spec_words_to_bytes(ws: Seq<u64>) -> Seq<u8>
    decreases ws.len(),
{
    if ws.len() == 0 {
        Seq::empty()
    } else {
        spec_u64_to_le_bytes(ws[0]) + spec_words_to_bytes(ws.drop_first())
    }
}

pub proof fn lemma_words_to_bytes_len(ws: Seq<u64>)
    ensures
        spec_words_to_bytes(ws).len() == 8 * ws.len(),
    decreases ws.len(),
{
    lemma_auto_spec_u64_to_from_le_bytes();
    if ws.len() > 0 {
        lemma_words_to_bytes_len(ws.drop_first());
    }
}

/// Appending one word appends its eight bytes.
pub proof fn lemma_words_to_bytes_push(s: Seq<u64>, x: u64)
    ensures
        spec_words_to_bytes(s.push(x)) == spec_words_to_bytes(s) + spec_u64_to_le_bytes(x),
    decreases s.len(),
{
    lemma_auto_spec_u64_to_from_le_bytes();
    if s.len() == 0 {
        let t = s.push(x);
        assert(t.len() == 1);
        assert(t[0] == x);
        assert(t.drop_first() =~= Seq::<u64>::empty());
        assert(spec_words_to_bytes(t) == spec_u64_to_le_bytes(x) + spec_words_to_bytes(
            t.drop_first(),
        ));
        assert(spec_words_to_bytes(t.drop_first()).len() == 0);
        assert(spec_words_to_bytes(t) =~= spec_u64_to_le_bytes(x));
        assert(spec_words_to_bytes(s).len() == 0);
        assert(spec_words_to_bytes(s) + spec_u64_to_le_bytes(x) =~= spec_u64_to_le_bytes(x));
    } else {
        lemma_words_to_bytes_push(s.drop_first(), x);
        assert(s.push(x).drop_first() =~= s.drop_first().push(x));
        assert(s.push(x)[0] == s[0]);
        assert(spec_words_to_bytes(s.push(x)) == spec_u64_to_le_bytes(s[0])
            + spec_words_to_bytes(s.drop_first().push(x)));
        assert(spec_u64_to_le_bytes(s[0]) + (spec_words_to_bytes(s.drop_first())
            + spec_u64_to_le_bytes(x)) =~= (spec_u64_to_le_bytes(s[0]) + spec_words_to_bytes(
            s.drop_first(),
        )) + spec_u64_to_le_bytes(x));
    }
}

/// The byte encoding of words is injective: equal bytes, equal words.
pub proof fn lemma_words_to_bytes_injective(a: Seq<u64>, b: Seq<u64>)
    requires
        spec_words_to_bytes(a) == spec_words_to_bytes(b),
    ensures
        a == b,
    decreases a.len(),
{
    lemma_auto_spec_u64_to_from_le_bytes();
    lemma_words_to_bytes_len(a);
    lemma_words_to_bytes_len(b);
    if a.len() == 0 {
        assert(a =~= b);
    } else {
        let ba = spec_words_to_bytes(a);
        assert(spec_u64_to_le_bytes(a[0]) =~= ba.take(8));
        assert(spec_u64_to_le_bytes(b[0]) =~= ba.take(8));
        assert(a[0] == spec_u64_from_le_bytes(spec_u64_to_le_bytes(a[0])));
        assert(b[0] == spec_u64_from_le_bytes(spec_u64_to_le_bytes(b[0])));
        assert(a[0] == b[0]);
        assert(spec_words_to_bytes(a.drop_first()) =~= ba.skip(8));
        assert(spec_words_to_bytes(b.drop_first()) =~= ba.skip(8));
        lemma_words_to_bytes_injective(a.drop_first(), b.drop_first());
        assert(a.len() == b.len());
        assert forall|i: int| 0 <= i < a.len() implies a[i] == b[i] by {
            if i > 0 {
                assert(a.drop_first()[i - 1] == b.drop_first()[i - 1]);
            }
        }
        assert(a =~= b);
    }
}

/// Writes every word as eight little-endian bytes.
pub fn words_to_bytes(ws: &Vec<u64>) -> (r: Vec<u8>)
    ensures
        r@ == spec_words_to_bytes(ws@),
        r@.len() == 8 * ws@.len(),
{
    let mut r: Vec<u8> = Vec::new();
    let mut i: usize = 0;
    proof {
        assert(ws@.take(0) =~= Seq::<u64>::empty());
        lemma_words_to_bytes_len(ws@);
    }
    while i < ws.len()
        invariant
            i <= ws@.len(),
            r@ == spec_words_to_bytes(ws@.take(i as int)),
        decreases ws@.len() - i,
    {
        let mut chunk = u64_to_le_bytes(ws[i]);
        r.append(&mut chunk);
        i = i + 1;
        proof {
            assert(ws@.take(i as int) =~= ws@.take(i - 1).push(ws@[i - 1]));
            lemma_words_to_bytes_push(ws@.take(i - 1), ws@[i - 1]);
        }
    }
    proof {
        assert(ws@.take(ws@.len() as int) =~= ws@);
    }
    r
}

/// Reads a byte string back as words; a length that is not a multiple of
/// eight cannot come from any word sequence.
pub fn bytes_to_words(bytes: &[u8]) -> (r: Option<Vec<u64>>)
    ensures
        match r {
            Some(ws) => spec_words_to_bytes(ws@) == bytes@,
            None => bytes@.len() % 8 != 0,
        },
{
    if bytes.len() % 8 != 0 {
        return None;
    }
    let len = bytes.len();
    let n = len / 8;
    let mut out: Vec<u64> = Vec::new();
    let mut i: usize = 0;
    proof {
        lemma_auto_spec_u64_to_from_le_bytes();
        assert(bytes@.take(0) =~= Seq::<u8>::empty());
        assert(8 * n <= len);
    }
    while i < n
        invariant
            i <= n,
            n == bytes@.len() / 8,
            bytes@.len() % 8 == 0,
            bytes@.len() <= usize::MAX,
            8 * n <= bytes@.len(),
            out@.len() == i,
            spec_words_to_bytes(out@) == bytes@.take(8 * i as int),
        decreases n - i,
    {
        proof {
            lemma_auto_spec_u64_to_from_le_bytes();
        }
        let chunk = slice_subrange(bytes, 8 * i, 8 * i + 8);
        let w = u64_from_le_bytes(chunk);
        let ghost prev = out@;
        out.push(w);
        i = i + 1;
        proof {
            lemma_words_to_bytes_push(prev, w);
            assert(out@ == prev.push(w));
            assert(spec_u64_to_le_bytes(w) =~= bytes@.subrange(8 * (i - 1), 8 * i as int));
            assert(spec_words_to_bytes(out@) == spec_words_to_bytes(prev) + spec_u64_to_le_bytes(
                w,
            ));
            assert(bytes@.take(8 * (i - 1)) + bytes@.subrange(8 * (i - 1), 8 * i as int)
                =~= bytes@.take(8 * i as int));
        }
    }
    proof {
        assert(bytes@.take(8 * n as int) =~= bytes@);
    }
    Some(out)
}

/// Copies the word range `[from, to)` out of a word vector.
pub fn copy_words(ws: &Vec<u64>, from: usize, to: usize) -> (r: Vec<u64>)
    requires
        from <= to,
        to <= ws@.len(),
    ensures
        r@ == ws@.subrange(from as int, to as int),
{
    let mut r: Vec<u64> = Vec::new();
    let mut i: usize = from;
    proof {
        assert(r@ =~= ws@.subrange(from as int, from as int));
    }
    while i < to
        invariant
            from <= i <= to,
            to <= ws@.len(),
            r@ == ws@.subrange(from as int, i as int),
        decreases to - i,
    {
        r.push(ws[i]);
        i = i + 1;
        proof {
            assert(r@ =~= ws@.subrange(from as int, i as int));
        }
    }
    r
}

} // verus!
