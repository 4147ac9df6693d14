//! Versioned wire formats of the packed ciphertext list.
//!
//! Two formats are declared.  The older one stored each packed block as a
//! bare digit, the blob's ceremony applying to every block; the current one
//! stores each block's digit and ceremony.  Decoding accepts both and
//! converts the older layout by tagging every block with the blob's
//! ceremony; encoding always writes the current layout.

use crate::ciphertext::{Ciphertext, DataKind};
use crate::compression::ShortintCompressedCiphertextList;
use crate::list::{CompressedCiphertextList, total_blocks};
use crate::safe_serialization::Versionize;
use crate::wire::copy_words;
use crate::Error;
use vstd::prelude::*;

verus! {

/// The tag word of a kind.
pub open spec fn spec_kind_tag(k: DataKind) -> u64 {
    match k {
        DataKind::Boolean => 0,
        DataKind::Unsigned(_) => 1,
        DataKind::Signed(_) => 2,
    }
}

/// The width word of a kind.
pub open spec fn spec_kind_count(k: DataKind) -> u64 {
    match k {
        DataKind::Boolean => 1,
        DataKind::Unsigned(n) => n as u64,
        DataKind::Signed(n) => n as u64,
    }
}

/// Word pairs no kind ever writes.
pub open spec fn spec_kind_words_bad(tag: u64, count: u64) -> bool {
    (tag == 0 && count != 1) || tag > 2 || (tag >= 1 && count > usize::MAX as u64)
}

/// A kind's words are never bad.
pub proof fn lemma_kind_words_good(k: DataKind)
    ensures
        !spec_kind_words_bad(spec_kind_tag(k), spec_kind_count(k)),
{
}

/// A kind is its tag and width: no two kinds share both.
pub proof fn lemma_kind_words_injective(k1: DataKind, k2: DataKind)
    requires
        spec_kind_tag(k1) == spec_kind_tag(k2),
        spec_kind_count(k1) == spec_kind_count(k2),
    ensures
        k1 == k2,
{
}

impl CompressedCiphertextList {
    /// Every packed block belongs to the blob's own ceremony; what the
    /// older format could not help but mean.
    pub open spec fn spec_blocks_under_list_key(self) -> bool {
        forall|i: int|
            0 <= i < self.packed_list.packed_blocks@.len() ==> (
            #[trigger] self.packed_list.packed_blocks@[i]).key_id == self.packed_list.key_id
    }

    /// Current payload: ceremony, block count, entry count, then the block
    /// digits, the block ceremonies, the kind tags and the kind widths.
    pub open spec fn spec_payload_current(self) -> Seq<u64> {
        seq![
            self.packed_list.key_id,
            self.packed_list.packed_blocks@.len() as u64,
            self.info@.len() as u64,
        ] + self.packed_list.packed_blocks@.map_values(|c: Ciphertext| c.body)
            + self.packed_list.packed_blocks@.map_values(|c: Ciphertext| c.key_id)
            + self.info@.map_values(|k: DataKind| spec_kind_tag(k)) + self.info@.map_values(
            |k: DataKind| spec_kind_count(k),
        )
    }

    /// Older payload: as the current one, without per-block ceremonies.
    pub open spec fn spec_payload_older(self) -> Seq<u64> {
        seq![
            self.packed_list.key_id,
            self.packed_list.packed_blocks@.len() as u64,
            self.info@.len() as u64,
        ] + self.packed_list.packed_blocks@.map_values(|c: Ciphertext| c.body)
            + self.info@.map_values(|k: DataKind| spec_kind_tag(k)) + self.info@.map_values(
            |k: DataKind| spec_kind_count(k),
        )
    }
}

/// Collects one word per block or kind.
fn map_block_bodies(blocks: &Vec<Ciphertext>) -> (r: Vec<u64>)
    ensures
        r@ == blocks@.map_values(|c: Ciphertext| c.body),
{
    let ghost target = blocks@.map_values(|c: Ciphertext| c.body);
    let mut r: Vec<u64> = Vec::new();
    let mut i: usize = 0;
    while i < blocks.len()
        invariant
            i <= blocks@.len(),
            target == blocks@.map_values(|c: Ciphertext| c.body),
            target.len() == blocks@.len(),
            r@ == target.take(i as int),
        decreases blocks@.len() - i,
    {
        r.push(blocks[i].body);
        i = i + 1;
        proof {
            assert(r@ =~= target.take(i as int));
        }
    }
    proof {
        assert(target.take(blocks@.len() as int) =~= target);
    }
    r
}

fn map_block_key_ids(blocks: &Vec<Ciphertext>) -> (r: Vec<u64>)
    ensures
        r@ == blocks@.map_values(|c: Ciphertext| c.key_id),
{
    let ghost target = blocks@.map_values(|c: Ciphertext| c.key_id);
    let mut r: Vec<u64> = Vec::new();
    let mut i: usize = 0;
    while i < blocks.len()
        invariant
            i <= blocks@.len(),
            target == blocks@.map_values(|c: Ciphertext| c.key_id),
            target.len() == blocks@.len(),
            r@ == target.take(i as int),
        decreases blocks@.len() - i,
    {
        r.push(blocks[i].key_id);
        i = i + 1;
        proof {
            assert(r@ =~= target.take(i as int));
        }
    }
    proof {
        assert(target.take(blocks@.len() as int) =~= target);
    }
    r
}

fn map_kind_tags(kinds: &Vec<DataKind>) -> (r: Vec<u64>)
    ensures
        r@ == kinds@.map_values(|k: DataKind| spec_kind_tag(k)),
{
    let ghost target = kinds@.map_values(|k: DataKind| spec_kind_tag(k));
    let mut r: Vec<u64> = Vec::new();
    let mut i: usize = 0;
    while i < kinds.len()
        invariant
            i <= kinds@.len(),
            target == kinds@.map_values(|k: DataKind| spec_kind_tag(k)),
            target.len() == kinds@.len(),
            r@ == target.take(i as int),
        decreases kinds@.len() - i,
    {
        let w: u64 = match kinds[i] {
            DataKind::Boolean => 0,
            DataKind::Unsigned(_) => 1,
            DataKind::Signed(_) => 2,
        };
        r.push(w);
        i = i + 1;
        proof {
            assert(r@ =~= target.take(i as int));
        }
    }
    proof {
        assert(target.take(kinds@.len() as int) =~= target);
    }
    r
}

fn map_kind_counts(kinds: &Vec<DataKind>) -> (r: Vec<u64>)
    ensures
        r@ == kinds@.map_values(|k: DataKind| spec_kind_count(k)),
{
    let ghost target = kinds@.map_values(|k: DataKind| spec_kind_count(k));
    let mut r: Vec<u64> = Vec::new();
    let mut i: usize = 0;
    while i < kinds.len()
        invariant
            i <= kinds@.len(),
            target == kinds@.map_values(|k: DataKind| spec_kind_count(k)),
            target.len() == kinds@.len(),
            r@ == target.take(i as int),
        decreases kinds@.len() - i,
    {
        let w: u64 = match kinds[i] {
            DataKind::Boolean => 1,
            DataKind::Unsigned(n) => n as u64,
            DataKind::Signed(n) => n as u64,
        };
        r.push(w);
        i = i + 1;
        proof {
            assert(r@ =~= target.take(i as int));
        }
    }
    proof {
        assert(target.take(kinds@.len() as int) =~= target);
    }
    r
}

/// Rebuilds blocks from one digit word and one ceremony word each.
fn zip_blocks(digits: &Vec<u64>, key_ids: &Vec<u64>) -> (r: Vec<Ciphertext>)
    requires
        digits@.len() == key_ids@.len(),
    ensures
        r@.len() == digits@.len(),
        forall|i: int|
            0 <= i < r@.len() ==> (#[trigger] r@[i]) == (Ciphertext {
                body: digits@[i],
                key_id: key_ids@[i],
            }),
{
    let mut r: Vec<Ciphertext> = Vec::new();
    let mut i: usize = 0;
    while i < digits.len()
        invariant
            i <= digits@.len(),
            digits@.len() == key_ids@.len(),
            r@.len() == i,
            forall|j: int|
                0 <= j < i ==> (#[trigger] r@[j]) == (Ciphertext {
                    body: digits@[j],
                    key_id: key_ids@[j],
                }),
        decreases digits@.len() - i,
    {
        r.push(Ciphertext { body: digits[i], key_id: key_ids[i] });
        i = i + 1;
    }
    r
}

/// Rebuilds the kind list from tag and width words, rejecting words no
/// kind writes.
fn zip_kinds(tags: &Vec<u64>, counts: &Vec<u64>) -> (r: Option<Vec<DataKind>>)
    requires
        tags@.len() == counts@.len(),
    ensures
        match r {
            Some(kinds) => kinds@.len() == tags@.len() && forall|i: int|
                0 <= i < kinds@.len() ==> spec_kind_tag(#[trigger] kinds@[i]) == tags@[i]
                    && spec_kind_count(kinds@[i]) == counts@[i],
            None => exists|i: int|
                0 <= i < tags@.len() && spec_kind_words_bad(
                    #[trigger] tags@[i],
                    #[trigger] counts@[i],
                ),
        },
{
    let mut r: Vec<DataKind> = Vec::new();
    let mut i: usize = 0;
    while i < tags.len()
        invariant
            i <= tags@.len(),
            tags@.len() == counts@.len(),
            r@.len() == i,
            forall|j: int|
                0 <= j < i ==> spec_kind_tag(#[trigger] r@[j]) == tags@[j] && spec_kind_count(
                    r@[j],
                ) == counts@[j],
        decreases tags@.len() - i,
    {
        let tag = tags[i];
        let count = counts[i];
        let kind: DataKind = if tag == 0 {
            if count != 1 {
                proof {
                    assert(spec_kind_words_bad(tags@[i as int], counts@[i as int]));
                }
                return None;
            }
            DataKind::Boolean
        } else if tag == 1 {
            if count > usize::MAX as u64 {
                proof {
                    assert(spec_kind_words_bad(tags@[i as int], counts@[i as int]));
                }
                return None;
            }
            DataKind::Unsigned(count as usize)
        } else if tag == 2 {
            if count > usize::MAX as u64 {
                proof {
                    assert(spec_kind_words_bad(tags@[i as int], counts@[i as int]));
                }
                return None;
            }
            DataKind::Signed(count as usize)
        } else {
            proof {
                assert(spec_kind_words_bad(tags@[i as int], counts@[i as int]));
            }
            return None;
        };
        r.push(kind);
        i = i + 1;
    }
    Some(r)
}

impl Versionize for CompressedCiphertextList {
    open spec fn inv(&self) -> bool {
        true
    }

    open spec fn conformant(&self) -> bool {
        self.wf()
    }

    open spec fn equiv(&self, other: &Self) -> bool {
        self.packed_list.packed_blocks@ == other.packed_list.packed_blocks@
            && self.packed_list.key_id == other.packed_list.key_id && self.info@ == other.info@
    }

    open spec fn spec_version_count() -> u64 {
        2
    }

    open spec fn spec_payload(&self, compact: bool) -> Seq<u64> {
        self.spec_payload_current()
    }

    open spec fn spec_decoded(version: u64, payload: Seq<u64>, v: Self) -> bool {
        if version == 1 {
            payload == v.spec_payload_current()
        } else {
            payload == v.spec_payload_older() && v.spec_blocks_under_list_key()
        }
    }

    fn version_count() -> (n: u64) {
        2
    }

    fn versionize(&self, compact: bool) -> (out: Vec<u64>) {
        let mut words: Vec<u64> = Vec::new();
        words.push(self.packed_list.key_id);
        words.push(self.packed_list.packed_blocks.len() as u64);
        words.push(self.info.len() as u64);
        let mut digits = map_block_bodies(&self.packed_list.packed_blocks);
        words.append(&mut digits);
        let mut kids = map_block_key_ids(&self.packed_list.packed_blocks);
        words.append(&mut kids);
        let mut tags = map_kind_tags(&self.info);
        words.append(&mut tags);
        let mut counts = map_kind_counts(&self.info);
        words.append(&mut counts);
        proof {
            assert(words@ =~= self.spec_payload_current());
        }
        words
    }

    #[verifier::rlimit(100)]
    #[verifier::spinoff_prover]
    fn unversionize(version: u64, payload: &Vec<u64>) -> (r: Result<Self, Error>) {
        let current = version == 1;
        if payload.len() < 3 {
            proof {
                assert forall|v: Self| !(#[trigger] Self::spec_decoded(version, payload@, v)) by {
                    assert(v.spec_payload_current().len() >= 3);
                    assert(v.spec_payload_older().len() >= 3);
                }
            }
            return Err(Error::MalformedPayload);
        }
        let key_id = payload[0];
        let nbw = payload[1];
        let nkw = payload[2];
        if nbw > usize::MAX as u64 || nkw > usize::MAX as u64 {
            proof {
                assert forall|v: Self| !(#[trigger] Self::spec_decoded(version, payload@, v)) by {
                    assert(vstd::std_specs::vec::spec_vec_len(&v.packed_list.packed_blocks)
                        == v.packed_list.packed_blocks@.len());
                    assert(vstd::std_specs::vec::spec_vec_len(&v.info) == v.info@.len());
                    assert(v.spec_payload_current()[1] == v.packed_list.packed_blocks@.len()
                        as u64);
                    assert(v.spec_payload_current()[2] == v.info@.len() as u64);
                    assert(v.spec_payload_older()[1] == v.packed_list.packed_blocks@.len() as u64);
                    assert(v.spec_payload_older()[2] == v.info@.len() as u64);
                }
            }
            return Err(Error::MalformedPayload);
        }
        let nb = nbw as usize;
        let nk = nkw as usize;
        let rest = (payload.len() - 3) as u128;
        let want: u128 = if current {
            2 * (nb as u128) + 2 * (nk as u128)
        } else {
            (nb as u128) + 2 * (nk as u128)
        };
        if rest != want {
            proof {
                assert forall|v: Self| !(#[trigger] Self::spec_decoded(version, payload@, v)) by {
                    assert(vstd::std_specs::vec::spec_vec_len(&v.packed_list.packed_blocks)
                        == v.packed_list.packed_blocks@.len());
                    assert(vstd::std_specs::vec::spec_vec_len(&v.info) == v.info@.len());
                    if current && payload@ == v.spec_payload_current() {
                        assert(payload@.len() == 3 + 2 * v.packed_list.packed_blocks@.len() + 2
                            * v.info@.len());
                        assert(payload@[1] == v.packed_list.packed_blocks@.len() as u64);
                        assert(payload@[2] == v.info@.len() as u64);
                    }
                    if !current && payload@ == v.spec_payload_older() {
                        assert(payload@.len() == 3 + v.packed_list.packed_blocks@.len() + 2
                            * v.info@.len());
                        assert(payload@[1] == v.packed_list.packed_blocks@.len() as u64);
                        assert(payload@[2] == v.info@.len() as u64);
                    }
                }
            }
            return Err(Error::MalformedPayload);
        }
        let digits = copy_words(payload, 3, 3 + nb);
        let blocks: Vec<Ciphertext>;
        let tags_from: usize;
        if current {
            let kids = copy_words(payload, 3 + nb, 3 + 2 * nb);
            blocks = zip_blocks(&digits, &kids);
            tags_from = 3 + 2 * nb;
        } else {
            let mut kids: Vec<u64> = Vec::new();
            let mut i: usize = 0;
            while i < nb
                invariant
                    i <= nb,
                    kids@.len() == i,
                    forall|j: int| 0 <= j < i ==> (#[trigger] kids@[j]) == key_id,
                decreases nb - i,
            {
                kids.push(key_id);
                i = i + 1;
            }
            blocks = zip_blocks(&digits, &kids);
            tags_from = 3 + nb;
        }
        let tags = copy_words(payload, tags_from, tags_from + nk);
        let counts = copy_words(payload, tags_from + nk, tags_from + 2 * nk);
        let kinds = match zip_kinds(&tags, &counts) {
            Some(k) => k,
            None => {
                proof {
                    let bad = choose|i: int|
                        0 <= i < tags@.len() && spec_kind_words_bad(
                            #[trigger] tags@[i],
                            #[trigger] counts@[i],
                        );
                    assert forall|v: Self| !(#[trigger] Self::spec_decoded(version, payload@, v))
                        by {
                        assert(vstd::std_specs::vec::spec_vec_len(&v.packed_list.packed_blocks)
                            == v.packed_list.packed_blocks@.len());
                        assert(vstd::std_specs::vec::spec_vec_len(&v.info) == v.info@.len());
                        if Self::spec_decoded(version, payload@, v) {
                            assert(spec_kind_tag(v.info@[bad]) == tags@[bad]);
                            assert(spec_kind_count(v.info@[bad]) == counts@[bad]);
                            lemma_kind_words_good(v.info@[bad]);
                        }
                    }
                }
                return Err(Error::MalformedPayload);
            },
        };
        let v = CompressedCiphertextList {
            packed_list: ShortintCompressedCiphertextList { packed_blocks: blocks, key_id },
            info: kinds,
        };
        proof {
            assert(v.packed_list.packed_blocks@.map_values(|c: Ciphertext| c.body)
                =~= payload@.subrange(3, 3 + nb as int));
            assert(v.info@.map_values(|k: DataKind| spec_kind_tag(k)) =~= payload@.subrange(
                tags_from as int,
                tags_from as int + nk as int,
            ));
            assert(v.info@.map_values(|k: DataKind| spec_kind_count(k)) =~= payload@.subrange(
                tags_from as int + nk as int,
                tags_from as int + 2 * nk as int,
            ));
            if current {
                assert(v.packed_list.packed_blocks@.map_values(|c: Ciphertext| c.key_id)
                    =~= payload@.subrange(3 + nb as int, 3 + 2 * nb as int));
                assert(payload@ =~= v.spec_payload_current());
            } else {
                assert(payload@ =~= v.spec_payload_older());
            }
        }
        Ok(v)
    }

    fn is_conformant(&self) -> (b: bool) {
        let n = self.info.len();
        let mut sum: usize = 0;
        let mut i: usize = 0;
        while i < n
            invariant
                i <= n,
                n == self.info@.len(),
                sum == total_blocks(self.info@.take(i as int)),
                sum <= usize::MAX,
                forall|j: int| 0 <= j < i ==> (#[trigger] self.info@[j]).spec_num_blocks() > 0,
        decreases n - i,
        {
            let k = self.info[i];
            let w = k.num_blocks();
            if w == 0 {
                return false;
            }
            let next = match sum.checked_add(w) {
                Some(s) => s,
                None => {
                    proof {
                        lemma_take_push_total(self.info@, i as int);
                        lemma_take_total_monotone(self.info@, i as int + 1);
                        assert(vstd::std_specs::vec::spec_vec_len(&self.packed_list.packed_blocks)
                            == self.packed_list.packed_blocks@.len());
                    }
                    return false;
                },
            };
            sum = next;
            i = i + 1;
            proof {
                lemma_take_push_total(self.info@, i as int - 1);
            }
        }
        proof {
            assert(self.info@.take(n as int) =~= self.info@);
        }
        sum == self.packed_list.packed_blocks.len()
    }

    proof fn lemma_version_count_positive() {
    }

    proof fn lemma_self_decodes(&self, compact: bool) {
    }

    proof fn lemma_decoded_unique(version: u64, payload: Seq<u64>, a: Self, b: Self) {
        assert(vstd::std_specs::vec::spec_vec_len(&a.packed_list.packed_blocks)
            == a.packed_list.packed_blocks@.len());
        assert(vstd::std_specs::vec::spec_vec_len(&b.packed_list.packed_blocks)
            == b.packed_list.packed_blocks@.len());
        assert(vstd::std_specs::vec::spec_vec_len(&a.info) == a.info@.len());
        assert(vstd::std_specs::vec::spec_vec_len(&b.info) == b.info@.len());
        let na = a.packed_list.packed_blocks@.len() as int;
        let ka = a.info@.len() as int;
        assert(payload[0] == a.packed_list.key_id && payload[0] == b.packed_list.key_id);
        assert(payload[1] == a.packed_list.packed_blocks@.len() as u64);
        assert(payload[1] == b.packed_list.packed_blocks@.len() as u64);
        assert(payload[2] == a.info@.len() as u64);
        assert(payload[2] == b.info@.len() as u64);
        assert(a.packed_list.packed_blocks@.len() == b.packed_list.packed_blocks@.len());
        assert(a.info@.len() == b.info@.len());
        assert forall|i: int|
            0 <= i < ka implies #[trigger] a.info@[i] == b.info@[i] by {
            let from = if version == 1 {
                3 + 2 * na
            } else {
                3 + na
            };
            assert(spec_kind_tag(a.info@[i]) == payload[from + i]);
            assert(spec_kind_tag(b.info@[i]) == payload[from + i]);
            assert(spec_kind_count(a.info@[i]) == payload[from + ka + i]);
            assert(spec_kind_count(b.info@[i]) == payload[from + ka + i]);
            lemma_kind_words_injective(a.info@[i], b.info@[i]);
        }
        assert(a.info@ =~= b.info@);
        assert forall|i: int|
            0 <= i < na implies #[trigger] a.packed_list.packed_blocks@[i]
            == b.packed_list.packed_blocks@[i] by {
            assert(a.packed_list.packed_blocks@[i].body == payload[3 + i]);
            assert(b.packed_list.packed_blocks@[i].body == payload[3 + i]);
            if version == 1 {
                assert(a.packed_list.packed_blocks@[i].key_id == payload[3 + na + i]);
                assert(b.packed_list.packed_blocks@[i].key_id == payload[3 + na + i]);
            } else {
                assert(a.packed_list.packed_blocks@[i].key_id == a.packed_list.key_id);
                assert(b.packed_list.packed_blocks@[i].key_id == b.packed_list.key_id);
            }
        }
        assert(a.packed_list.packed_blocks@ =~= b.packed_list.packed_blocks@);
        assert(a.conformant() == b.conformant()) by {
            assert(total_blocks(a.info@) == total_blocks(b.info@));
        }
    }
}

/// Law (version forward-compatibility): the older declared format still
/// decodes, into the current in-memory shape: the older payload of any
/// list whose blocks follow the blob's ceremony is accepted at its version
/// tag, and every value it decodes to observes that list's exact contents.
pub proof fn lemma_older_format_decodes(v: CompressedCiphertextList)
    requires
        v.spec_blocks_under_list_key(),
    ensures
        <CompressedCiphertextList as Versionize>::spec_decoded(0, v.spec_payload_older(), v),
        forall|w: CompressedCiphertextList|
            <CompressedCiphertextList as Versionize>::spec_decoded(0, v.spec_payload_older(), w)
                ==> #[trigger] w.equiv(&v),
{
    assert forall|w: CompressedCiphertextList|
        <CompressedCiphertextList as Versionize>::spec_decoded(0, v.spec_payload_older(), w)
            implies #[trigger] w.equiv(&v) by {
        <CompressedCiphertextList as Versionize>::lemma_decoded_unique(
            0,
            v.spec_payload_older(),
            w,
            v,
        );
    }
}

/// Prefix sums of a take grow with the prefix.
proof fn lemma_take_total_monotone(kinds: Seq<DataKind>, i: int)
    requires
        0 < i <= kinds.len(),
    ensures
        total_blocks(kinds) >= total_blocks(kinds.take(i)),
    decreases kinds.len(),
{
    crate::list::lemma_blocks_upto_agree(kinds, kinds.take(i), i);
    crate::list::lemma_blocks_upto_monotone(kinds, i, kinds.len() as int);
}

/// One more kind in the prefix adds its width to the prefix total.
proof fn lemma_take_push_total(kinds: Seq<DataKind>, i: int)
    requires
        0 <= i < kinds.len(),
    ensures
        total_blocks(kinds.take(i + 1)) == total_blocks(kinds.take(i)) + kinds[
            i
        ].spec_num_blocks(),
{
    assert(kinds.take(i + 1) =~= kinds.take(i).push(kinds[i]));
    crate::list::lemma_total_blocks_push(kinds.take(i), kinds[i]);
}

} // verus!
