//! The heterogeneous packing engine: builder, immutable packed list, and
//! prefix-sum random access.
//!
//! The builder accumulates elementary blocks next to one [`DataKind`] tag
//! per logical value, keeping the sum of the tag widths equal to the block
//! count.  Building packs the block sequence once; a lookup recomputes the
//! block range of entry `i` as the sum of the widths of all preceding tags,
//! so random access needs no stored offset table.

use crate::ciphertext::{Ciphertext, Compressible, DataKind, Expandable};
use crate::compression::{
    par_unpack_range, CompressionKey, DecompressionKey, ShortintCompressedCiphertextList,
};
use crate::Error;
use vstd::prelude::*;

verus! {

/// Total number of elementary blocks of the first `i` kinds.
pub open spec fn blocks_upto(kinds: Seq<DataKind>, i: int) -> int
    decreases i,
{
    if i <= 0 {
        0
    } else {
        blocks_upto(kinds, i - 1) + kinds[i - 1].spec_num_blocks()
    }
}

/// Total block count of a kind sequence.
pub open spec fn total_blocks(kinds: Seq<DataKind>) -> int {
    blocks_upto(kinds, kinds.len() as int)
}

/// Every recorded kind occupies at least one block; zero-width kinds are
/// never recorded.
pub open spec fn kinds_nonzero(kinds: Seq<DataKind>) -> bool {
    forall|i: int| 0 <= i < kinds.len() ==> (#[trigger] kinds[i]).spec_num_blocks() > 0
}

pub proof fn lemma_blocks_upto_monotone(kinds: Seq<DataKind>, i: int, j: int)
    requires
        0 <= i <= j,
        j <= kinds.len(),
    ensures
        blocks_upto(kinds, i) <= blocks_upto(kinds, j),
    decreases j - i,
{
    if i < j {
        lemma_blocks_upto_monotone(kinds, i, j - 1);
        assert(kinds[j - 1].spec_num_blocks() >= 0);
    }
}

/// Prefix sums only read the kinds below their bound.
pub proof fn lemma_blocks_upto_agree(s1: Seq<DataKind>, s2: Seq<DataKind>, i: int)
    requires
        i <= s1.len(),
        i <= s2.len(),
        forall|k: int| 0 <= k < i ==> s1[k] == s2[k],
    ensures
        blocks_upto(s1, i) == blocks_upto(s2, i),
    decreases i,
{
    if i > 0 {
        lemma_blocks_upto_agree(s1, s2, i - 1);
    }
}

/// Appending one kind grows the total by exactly that kind's width.
pub proof fn lemma_total_blocks_push(s: Seq<DataKind>, k: DataKind)
    ensures
        total_blocks(s.push(k)) == total_blocks(s) + k.spec_num_blocks(),
{
    let t = s.push(k);
    assert(blocks_upto(t, t.len() as int) == blocks_upto(t, s.len() as int)
        + t[s.len() as int].spec_num_blocks());
    lemma_blocks_upto_agree(t, s, s.len() as int);
}

/// The blocks `values` contribute to a builder, in push order.
pub open spec fn concat_blocks<T: Compressible>(values: Seq<T>) -> Seq<Ciphertext>
    decreases values.len(),
{
    if values.len() == 0 {
        Seq::empty()
    } else {
        values[0].spec_blocks() + concat_blocks(values.drop_first())
    }
}

/// The kinds `values` record in a builder: one per value, skipping
/// zero-width kinds.
pub open spec fn kept_kinds<T: Compressible>(values: Seq<T>) -> Seq<DataKind>
    decreases values.len(),
{
    if values.len() == 0 {
        Seq::empty()
    } else {
        let rest = kept_kinds(values.drop_first());
        if values[0].spec_kind().spec_num_blocks() == 0 {
            rest
        } else {
            seq![values[0].spec_kind()] + rest
        }
    }
}

proof fn lemma_concat_blocks_snoc<T: Compressible>(s: Seq<T>, i: int)
    requires
        0 <= i < s.len(),
    ensures
        concat_blocks(s.take(i + 1)) == concat_blocks(s.take(i)) + s[i].spec_blocks(),
    decreases i,
{
    if i == 0 {
        assert(s.take(0) =~= Seq::<T>::empty());
        assert(concat_blocks(s.take(0)) =~= Seq::<Ciphertext>::empty());
        assert(s.take(1).len() == 1);
        assert(s.take(1)[0] == s[0]);
        assert(s.take(1).drop_first() =~= Seq::<T>::empty());
        assert(concat_blocks(s.take(1)) == s[0].spec_blocks() + concat_blocks(
            s.take(1).drop_first(),
        ));
        assert(concat_blocks(s.take(1)) =~= s[0].spec_blocks());
        assert(concat_blocks(s.take(0)) + s[0].spec_blocks() =~= s[0].spec_blocks());
    } else {
        let t = s.drop_first();
        lemma_concat_blocks_snoc(t, i - 1);
        assert(s.take(i + 1).drop_first() =~= t.take(i));
        assert(s.take(i).drop_first() =~= t.take(i - 1));
        assert(s.take(i + 1)[0] == s[0]);
        assert(s.take(i)[0] == s[0]);
        assert(concat_blocks(s.take(i + 1)) == s[0].spec_blocks() + concat_blocks(t.take(i)));
        assert(concat_blocks(s.take(i)) == s[0].spec_blocks() + concat_blocks(t.take(i - 1)));
        assert(t[i - 1] == s[i]);
        assert(s[0].spec_blocks() + (concat_blocks(t.take(i - 1)) + s[i].spec_blocks()) =~= (
        s[0].spec_blocks() + concat_blocks(t.take(i - 1))) + s[i].spec_blocks());
    }
}

proof fn lemma_kept_kinds_snoc<T: Compressible>(s: Seq<T>, i: int)
    requires
        0 <= i < s.len(),
    ensures
        s[i].spec_kind().spec_num_blocks() != 0 ==> kept_kinds(s.take(i + 1)) == kept_kinds(
            s.take(i),
        ).push(s[i].spec_kind()),
        s[i].spec_kind().spec_num_blocks() == 0 ==> kept_kinds(s.take(i + 1)) == kept_kinds(
            s.take(i),
        ),
    decreases i,
{
    if i == 0 {
        assert(s.take(0) =~= Seq::<T>::empty());
        assert(kept_kinds(s.take(0)) =~= Seq::<DataKind>::empty());
        assert(s.take(1).len() == 1);
        assert(s.take(1)[0] == s[0]);
        assert(s.take(1).drop_first() =~= Seq::<T>::empty());
        if s[0].spec_kind().spec_num_blocks() != 0 {
            assert(kept_kinds(s.take(1)) == seq![s[0].spec_kind()] + kept_kinds(
                s.take(1).drop_first(),
            ));
            assert(kept_kinds(s.take(1)) =~= kept_kinds(s.take(0)).push(s[0].spec_kind()));
        }
    } else {
        let t = s.drop_first();
        lemma_kept_kinds_snoc(t, i - 1);
        assert(s.take(i + 1).drop_first() =~= t.take(i));
        assert(s.take(i).drop_first() =~= t.take(i - 1));
        assert(s.take(i + 1)[0] == s[0]);
        assert(s.take(i)[0] == s[0]);
        assert(t[i - 1] == s[i]);
        if s[i].spec_kind().spec_num_blocks() != 0 {
            if s[0].spec_kind().spec_num_blocks() == 0 {
                assert(kept_kinds(s.take(i + 1)) == kept_kinds(t.take(i)));
            } else {
                assert(seq![s[0].spec_kind()] + kept_kinds(t.take(i - 1)).push(s[i].spec_kind())
                    =~= (seq![s[0].spec_kind()] + kept_kinds(t.take(i - 1))).push(
                    s[i].spec_kind(),
                ));
            }
        }
    }
}

/// Accumulates elementary blocks and kind tags before one packing call.
/// Single-owner while accumulating; building never consumes it.
#[derive(Clone, Debug, PartialEq)]
pub struct CompressedCiphertextListBuilder {
    /// All accumulated blocks, in push order.
    pub ciphertexts: Vec<Ciphertext>,
    /// One kind tag per recorded logical value.
    pub info: Vec<DataKind>,
}

impl CompressedCiphertextListBuilder {
    /// Builder invariant: the tag widths sum to the block count, and no
    /// recorded tag is zero-width.
    pub open spec fn wf(self) -> bool {
        total_blocks(self.info@) == self.ciphertexts@.len() && kinds_nonzero(self.info@)
    }

    /// An empty builder.
    pub fn new() -> (r: Self)
        ensures
            r.ciphertexts@.len() == 0,
            r.info@.len() == 0,
            r.wf(),
    {
        Self { ciphertexts: Vec::new(), info: Vec::new() }
    }

    /// Appends one logical value: its blocks always, its kind tag unless
    /// the kind is zero-width (reserved for marker values).  The logical
    /// length of the final list is the number of recorded tags, not the
    /// number of pushes.
    pub fn push<T: Compressible>(&mut self, data: T)
        ensures
            final(self).ciphertexts@ == old(self).ciphertexts@ + data.spec_blocks(),
            data.spec_kind().spec_num_blocks() != 0 ==> final(self).info@ == old(
                self,
            ).info@.push(data.spec_kind()),
            data.spec_kind().spec_num_blocks() == 0 ==> final(self).info@ == old(self).info@,
            old(self).wf() ==> final(self).wf(),
    {
        let ghost pre_info = self.info@;
        let ghost pre_cts = self.ciphertexts@;
        let ghost pre_wf = self.wf();
        let n = self.ciphertexts.len();
        let kind = data.compress_into(&mut self.ciphertexts);
        let nb = kind.num_blocks();
        proof {
            // The shape invariant: the reported kind width always matches
            // the number of appended blocks, established statically.
            assert(n + nb == self.ciphertexts@.len());
        }
        if nb != 0 {
            self.info.push(kind);
        }
        proof {
            if pre_wf {
                if nb != 0 {
                    lemma_total_blocks_push(pre_info, kind);
                }
            }
        }
    }

    /// Appends every value of `values`, in order, as repeated `push`.
    pub fn extend<T: Compressible>(&mut self, values: Vec<T>)
        ensures
            final(self).ciphertexts@ == old(self).ciphertexts@ + concat_blocks(values@),
            final(self).info@ == old(self).info@ + kept_kinds(values@),
            old(self).wf() ==> final(self).wf(),
    {
        let ghost vals = values@;
        let ghost pre_info = old(self).info@;
        let ghost pre_cts = old(self).ciphertexts@;
        let mut values = values;
        let mut i: usize = 0;
        proof {
            assert(vstd::std_specs::vec::spec_vec_len(&values) == vals.len());
            assert(values@ =~= vals.skip(0));
            assert(self.ciphertexts@ =~= pre_cts + concat_blocks(vals.take(0)));
            assert(self.info@ =~= pre_info + kept_kinds(vals.take(0)));
        }
        while values.len() > 0
            invariant
                i <= vals.len(),
                vals.len() <= usize::MAX,
                values@ =~= vals.skip(i as int),
                self.ciphertexts@ == pre_cts + concat_blocks(vals.take(i as int)),
                self.info@ == pre_info + kept_kinds(vals.take(i as int)),
                old(self).wf() ==> self.wf(),
            decreases values@.len(),
        {
            proof {
                assert(values@.len() == vals.skip(i as int).len());
                assert(vals.skip(i as int).len() == vals.len() - i);
                assert(i < vals.len());
                assert(vals.skip(i as int)[0] == vals[i as int]);
            }
            let v = values.remove(0);
            proof {
                assert(v == vals[i as int]);
                assert(values@ =~= vals.skip(i as int + 1));
                lemma_concat_blocks_snoc(vals, i as int);
                lemma_kept_kinds_snoc(vals, i as int);
            }
            let ghost mid_cts = self.ciphertexts@;
            let ghost mid_info = self.info@;
            self.push(v);
            i = i + 1;
            proof {
                assert(self.ciphertexts@ =~= pre_cts + concat_blocks(vals.take(i as int)));
                if vals[i - 1].spec_kind().spec_num_blocks() != 0 {
                    assert(self.info@ =~= pre_info + kept_kinds(vals.take(i as int)));
                } else {
                    assert(self.info@ =~= pre_info + kept_kinds(vals.take(i as int)));
                }
            }
        }
        proof {
            assert(i == vals.len());
            assert(vals.take(vals.len() as int) =~= vals);
        }
    }

    /// Packs the accumulated blocks once and snapshots the recorded kinds.
    /// The builder is borrowed, not consumed: later pushes never affect the
    /// returned list.
    pub fn build(&self, comp_key: &CompressionKey) -> (r: CompressedCiphertextList)
        ensures
            r.packed_list.packed_blocks@ == self.ciphertexts@,
            r.packed_list.key_id == comp_key.key_id,
            r.info@ == self.info@,
            self.wf() ==> r.wf(),
    {
        let packed_list = comp_key.compress_ciphertexts_into_list(&self.ciphertexts);
        CompressedCiphertextList { packed_list, info: self.info.clone() }
    }
}

/// Immutable packed container of heterogeneous logical values: one packed
/// blob plus the ordered kind tags, supporting random-access partial
/// unpacking by prefix sum.
#[derive(Clone, Debug, PartialEq)]
pub struct CompressedCiphertextList {
    /// The blob produced by exactly one packing call at build time.
    pub packed_list: ShortintCompressedCiphertextList,
    /// Kind tag of each logical value; index `i` identifies the `i`-th one.
    pub info: Vec<DataKind>,
}

impl CompressedCiphertextList {
    /// List invariant: the tag widths sum to the blob's block count, and no
    /// recorded tag is zero-width.
    pub open spec fn wf(self) -> bool {
        total_blocks(self.info@) == self.packed_list.packed_blocks@.len() && kinds_nonzero(
            self.info@,
        )
    }

    /// The blocks of entry `i`: the blob slice starting at the prefix sum
    /// of the preceding widths.
    pub open spec fn spec_entry_blocks(self, i: int) -> Seq<Ciphertext> {
        self.packed_list.packed_blocks@.subrange(
            blocks_upto(self.info@, i),
            blocks_upto(self.info@, i + 1),
        )
    }

    /// Number of logical entries.
    pub fn len(&self) -> (n: usize)
        ensures
            n == self.info@.len(),
    {
        self.info.len()
    }

    /// Whether the list holds no logical entry.
    pub fn is_empty(&self) -> (b: bool)
        ensures
            b == (self.info@.len() == 0),
    {
        self.len() == 0
    }

    /// The kind tag at `index`, or absence when the index is out of range;
    /// no unpacking involved.
    pub fn get_kind_of(&self, index: usize) -> (r: Option<DataKind>)
        ensures
            index < self.info@.len() ==> r == Some(self.info@[index as int]),
            index >= self.info@.len() ==> r is None,
    {
        if index < self.info.len() {
            Some(self.info[index])
        } else {
            None
        }
    }

    /// Whether a lookup of `index` can reach entry blocks at all: the key
    /// must come from the blob's ceremony and the entry's block range must
    /// lie inside the blob.  Always true on a well-formed list with the
    /// matching key.
    pub open spec fn spec_can_unpack(self, index: int, decomp_key: DecompressionKey) -> bool {
        decomp_key.key_id == self.packed_list.key_id && blocks_upto(self.info@, index + 1)
            <= self.packed_list.packed_blocks@.len()
    }

    /// Unpacks the block range of entry `index` together with its kind.
    fn blocks_of(&self, index: usize, decomp_key: &DecompressionKey) -> (r: Result<
        Option<(Vec<Ciphertext>, DataKind)>,
        Error,
    >)
        ensures
            match r {
                Ok(Some((blocks, kind))) => index < self.info@.len() && self.spec_can_unpack(
                    index as int,
                    *decomp_key,
                ) && blocks@ == self.spec_entry_blocks(index as int) && kind == self.info@[index as int],
                Ok(None) => index >= self.info@.len(),
                Err(e) => e == Error::CapabilityFailure && index < self.info@.len()
                    && !self.spec_can_unpack(index as int, *decomp_key),
            },
    {
        if index >= self.info.len() {
            return Ok(None);
        }
        let current_info = self.info[index];
        let mut start: usize = 0;
        let mut i: usize = 0;
        while i < index
            invariant
                i <= index,
                index < self.info@.len(),
                start == blocks_upto(self.info@, i as int),
            decreases index - i,
        {
            match start.checked_add(self.info[i].num_blocks()) {
                Some(s) => {
                    start = s;
                },
                None => {
                    proof {
                        lemma_blocks_upto_monotone(self.info@, i as int + 1, index as int + 1);
                        assert(vstd::std_specs::vec::spec_vec_len(&self.packed_list.packed_blocks)
                            == self.packed_list.packed_blocks@.len());
                    }
                    return Err(Error::CapabilityFailure);
                },
            }
            i = i + 1;
        }
        let end = match start.checked_add(current_info.num_blocks()) {
            Some(e) => e,
            None => {
                proof {
                    assert(vstd::std_specs::vec::spec_vec_len(&self.packed_list.packed_blocks)
                        == self.packed_list.packed_blocks@.len());
                }
                return Err(Error::CapabilityFailure);
            },
        };
        proof {
            assert(end == blocks_upto(self.info@, index as int + 1));
        }
        if decomp_key.key_id != self.packed_list.key_id || end > self.packed_list.packed_blocks.len()
        {
            return Err(Error::CapabilityFailure);
        }
        let blocks = par_unpack_range(decomp_key, &self.packed_list, start, end);
        proof {
            assert(blocks@ =~= self.spec_entry_blocks(index as int));
        }
        Ok(Some((blocks, current_info)))
    }

    /// Reconstructs the logical value at `index` as `T`.  An out-of-range
    /// index is an absence, not an error; a kind/shape mismatch is a typed
    /// reconstruction error; an unpacking failure propagates.
    pub fn get<T: Expandable>(&self, index: usize, decomp_key: &DecompressionKey) -> (r: Result<
        Option<T>,
        Error,
    >)
        ensures
            index >= self.info@.len() ==> r == Ok::<Option<T>, Error>(None),
            index < self.info@.len() && !self.spec_can_unpack(index as int, *decomp_key) ==> r
                == Err::<Option<T>, Error>(Error::CapabilityFailure),
            index < self.info@.len() && self.spec_can_unpack(index as int, *decomp_key) ==> {
                let blocks = self.spec_entry_blocks(index as int);
                let kind = self.info@[index as int];
                if T::spec_accepts(blocks, kind) {
                    r is Ok && r->Ok_0 is Some && r->Ok_0->Some_0.blocks_view() == blocks
                } else {
                    r == Err::<Option<T>, Error>(Error::ReconstructionMismatch)
                }
            },
    {
        match self.blocks_of(index, decomp_key) {
            Err(e) => Err(e),
            Ok(None) => Ok(None),
            Ok(Some((blocks, kind))) => match T::from_expanded_blocks(blocks, kind) {
                Ok(v) => Ok(Some(v)),
                Err(e) => Err(e),
            },
        }
    }
}

/// Law (prefix-sum addressing): in a well-formed list every entry's block
/// range starts exactly at the sum of the preceding widths, spans exactly
/// its kind's width, and lies inside the blob — so a lookup with a key of
/// the blob's ceremony is always owed its blocks.
pub proof fn lemma_prefix_sum_addressing(l: CompressedCiphertextList, i: int)
    requires
        l.wf(),
        0 <= i < l.info@.len(),
    ensures
        blocks_upto(l.info@, i + 1) == blocks_upto(l.info@, i) + l.info@[i].spec_num_blocks(),
        0 <= blocks_upto(l.info@, i),
        blocks_upto(l.info@, i + 1) <= l.packed_list.packed_blocks@.len(),
        l.spec_entry_blocks(i).len() == l.info@[i].spec_num_blocks(),
        forall|k: DecompressionKey|
            k.key_id == l.packed_list.key_id ==> #[trigger] l.spec_can_unpack(i, k),
{
    lemma_blocks_upto_monotone(l.info@, 0, i);
    lemma_blocks_upto_monotone(l.info@, i + 1, l.info@.len() as int);
}

/// Law (stability of entries): appending one more value to the underlying
/// builder leaves every existing entry's kind and block range unchanged in
/// a list built afterwards.
pub proof fn lemma_push_preserves_entries(
    l1: CompressedCiphertextList,
    l2: CompressedCiphertextList,
    kind: DataKind,
    added: Seq<Ciphertext>,
)
    requires
        l1.wf(),
        kind.spec_num_blocks() == added.len(),
        kind.spec_num_blocks() > 0,
        l2.info@ == l1.info@.push(kind),
        l2.packed_list.packed_blocks@ == l1.packed_list.packed_blocks@ + added,
    ensures
        l2.wf(),
        l2.info@.len() == l1.info@.len() + 1,
        forall|i: int| 0 <= i < l1.info@.len() ==> l2.info@[i] == l1.info@[i],
        forall|i: int|
            0 <= i < l1.info@.len() ==> #[trigger] l2.spec_entry_blocks(i)
                == l1.spec_entry_blocks(i),
        l2.spec_entry_blocks(l1.info@.len() as int) == added,
        l2.info@[l1.info@.len() as int] == kind,
{
    let n = l1.info@.len() as int;
    lemma_total_blocks_push(l1.info@, kind);
    assert forall|i: int| 0 <= i <= n implies blocks_upto(l2.info@, i) == blocks_upto(
        l1.info@,
        i,
    ) by {
        lemma_blocks_upto_agree(l2.info@, l1.info@, i);
    }
    assert forall|i: int| 0 <= i < n implies #[trigger] l2.spec_entry_blocks(i)
        == l1.spec_entry_blocks(i) by {
        lemma_blocks_upto_monotone(l1.info@, 0, i);
        lemma_blocks_upto_monotone(l1.info@, i + 1, n);
        assert(l2.spec_entry_blocks(i) =~= l1.spec_entry_blocks(i));
    }
    assert(blocks_upto(l2.info@, n + 1) == blocks_upto(l2.info@, n) + kind.spec_num_blocks());
    lemma_blocks_upto_monotone(l1.info@, 0, n);
    assert(l2.spec_entry_blocks(n) =~= added);
}

/// Law (push/build/get round trip): a value pushed last into a well-formed
/// builder becomes the last entry of a list built from it, with exactly its
/// own blocks, which its type's reconstruction accepts back.
pub proof fn lemma_push_build_get_round_trip<T: Compressible + Expandable>(
    b: CompressedCiphertextListBuilder,
    v: T,
    l: CompressedCiphertextList,
)
    requires
        b.wf(),
        v.spec_kind().spec_num_blocks() == v.spec_blocks().len(),
        v.spec_kind().spec_num_blocks() > 0,
        T::spec_accepts(v.spec_blocks(), v.spec_kind()),
        l.info@ == b.info@.push(v.spec_kind()),
        l.packed_list.packed_blocks@ == b.ciphertexts@ + v.spec_blocks(),
    ensures
        l.wf(),
        l.info@[l.info@.len() - 1] == v.spec_kind(),
        l.spec_entry_blocks(l.info@.len() - 1) == v.spec_blocks(),
        T::spec_accepts(l.spec_entry_blocks(l.info@.len() - 1), l.info@[l.info@.len() - 1]),
{
    let n = b.info@.len() as int;
    lemma_total_blocks_push(b.info@, v.spec_kind());
    lemma_blocks_upto_agree(l.info@, b.info@, n);
    assert(blocks_upto(l.info@, n) == total_blocks(b.info@));
    assert(blocks_upto(l.info@, n + 1) == blocks_upto(l.info@, n)
        + v.spec_kind().spec_num_blocks());
    assert(l.spec_entry_blocks(n) =~= v.spec_blocks());
}

} // verus!

