//! Assembling the plaintext buffer: random filler first, then each secret
//! overlaid at its offset, in input order, so a later record wins where two
//! ranges overlap.

use vstd::prelude::*;
use crate::crypto::random_filler;
use crate::records::{models_of, RecordModel, SecretRecord};
use crate::BUFFER_LEN;

verus! {

/// Whether record `r` writes buffer position `j`.
pub open spec fn covers(r: RecordModel, j: int) -> bool {
    r.offset <= j < r.offset + r.secret.len()
}

/// The index of the last record in `rs` that writes position `j`, or -1 if
/// none does.
pub open spec fn last_writer(rs: Seq<RecordModel>, j: int) -> int
    decreases rs.len(),
{
    if rs.len() == 0 {
        -1
    } else if covers(rs.last(), j) {
        rs.len() - 1
    } else {
        last_writer(rs.drop_last(), j)
    }
}

/// One record written over a buffer.
pub open spec fn overlay_one(buf: Seq<u8>, r: RecordModel) -> Seq<u8> {
    Seq::new(
        buf.len(),
        |j: int|
            if covers(r, j) {
                r.secret[j - r.offset]
            } else {
                buf[j]
            },
    )
}

/// All records written over a buffer, in order.
pub open spec fn overlay_all(buf: Seq<u8>, rs: Seq<RecordModel>) -> Seq<u8>
    decreases rs.len(),
{
    if rs.len() == 0 {
        buf
    } else {
        overlay_one(overlay_all(buf, rs.drop_last()), rs.last())
    }
}

/// Every position carries the byte of the last record that writes it, and
/// the underlying buffer's byte where no record does.
pub proof fn lemma_overlay_byte(buf: Seq<u8>, rs: Seq<RecordModel>, j: int)
    requires
        0 <= j < buf.len(),
    ensures
        overlay_all(buf, rs).len() == buf.len(),
        last_writer(rs, j) >= 0 ==> overlay_all(buf, rs)[j] == rs[last_writer(rs, j)].secret[j
            - rs[last_writer(rs, j)].offset],
        last_writer(rs, j) < 0 ==> overlay_all(buf, rs)[j] == buf[j],
    decreases rs.len(),
{
    if rs.len() > 0 {
        lemma_overlay_byte(buf, rs.drop_last(), j);
        let prev = overlay_all(buf, rs.drop_last());
        assert(overlay_all(buf, rs) == overlay_one(prev, rs.last()));
        if covers(rs.last(), j) {
            assert(last_writer(rs, j) == rs.len() - 1);
            assert(overlay_all(buf, rs)[j] == rs.last().secret[j - rs.last().offset]);
        } else {
            assert(last_writer(rs, j) == last_writer(rs.drop_last(), j));
            assert(overlay_all(buf, rs)[j] == prev[j]);
            let lw = last_writer(rs.drop_last(), j);
            if lw >= 0 {
                lemma_last_writer_bound(rs.drop_last(), j);
                assert(rs.drop_last()[lw] == rs[lw]);
            }
        }
    }
}

/// The last writer, when there is one, is an index into `rs`.
proof fn lemma_last_writer_bound(rs: Seq<RecordModel>, j: int)
    ensures
        last_writer(rs, j) < rs.len(),
        last_writer(rs, j) >= 0 ==> covers(rs[last_writer(rs, j)], j),
    decreases rs.len(),
{
    if rs.len() > 0 && !covers(rs.last(), j) {
        lemma_last_writer_bound(rs.drop_last(), j);
        let lw = last_writer(rs.drop_last(), j);
        if lw >= 0 {
            assert(rs.drop_last()[lw] == rs[lw]);
        }
    }
}

/// A buffer carries the records of `rs` when every position that some record
/// writes holds the byte of the last record writing it.
pub open spec fn placed(buf: Seq<u8>, rs: Seq<RecordModel>) -> bool {
    forall|j: int|
        0 <= j < buf.len() && #[trigger] last_writer(rs, j) >= 0 ==> buf[j] == rs[last_writer(
            rs,
            j,
        )].secret[j - rs[last_writer(rs, j)].offset]
}

/// The last writer of a position covered by `rs[k]`, when no later record
/// covers that position, is `rs[k]` itself.
proof fn lemma_last_writer_is(rs: Seq<RecordModel>, j: int, k: int)
    requires
        0 <= k < rs.len(),
        covers(rs[k], j),
        forall|m: int| k < m < rs.len() ==> !covers(#[trigger] rs[m], j),
    ensures
        last_writer(rs, j) == k,
    decreases rs.len(),
{
    if k == rs.len() - 1 {
        assert(covers(rs.last(), j));
    } else {
        assert(!covers(rs.last(), j));
        lemma_last_writer_is(rs.drop_last(), j, k);
    }
}

/// Law: a secret stands in the assembled buffer exactly at its declared
/// offset, untouched by the random fill, at every position of its range that
/// no later record overlays.
pub proof fn lemma_secret_survives(filler: Seq<u8>, rs: Seq<RecordModel>, k: int, j: int)
    requires
        0 <= k < rs.len(),
        covers(rs[k], j),
        0 <= j < filler.len(),
        forall|m: int| k < m < rs.len() ==> !covers(#[trigger] rs[m], j),
    ensures
        overlay_all(filler, rs)[j] == rs[k].secret[j - rs[k].offset],
{
    lemma_last_writer_is(rs, j, k);
    lemma_overlay_byte(filler, rs, j);
}

/// Law: two assembled buffers for the same records agree at every position
/// that some record writes, whatever filler each run drew — only the filler
/// and the encryption differ between runs.
pub proof fn lemma_same_secret_placement(b1: Seq<u8>, b2: Seq<u8>, rs: Seq<RecordModel>, j: int)
    requires
        placed(b1, rs),
        placed(b2, rs),
        0 <= j < b1.len(),
        0 <= j < b2.len(),
        last_writer(rs, j) >= 0,
    ensures
        b1[j] == b2[j],
{
}

/// Writes each record's secret over `buf` at its offset, in order.
pub fn overlay_records(buf: &mut Vec<u8>, recs: &Vec<SecretRecord>)
    requires
        old(buf)@.len() == BUFFER_LEN,
        forall|k: int| 0 <= k < recs@.len() ==> (#[trigger] recs@[k]).wf(),
    ensures
        final(buf)@ == overlay_all(old(buf)@, models_of(recs@)),
{
    let ghost orig = buf@;
    let ghost ms = models_of(recs@);
    let mut k: usize = 0;
    proof {
        assert(ms.take(0) =~= Seq::<RecordModel>::empty());
    }
    while k < recs.len()
        invariant
            0 <= k <= recs@.len(),
            ms == models_of(recs@),
            forall|m: int| 0 <= m < recs@.len() ==> (#[trigger] recs@[m]).wf(),
            buf@ == overlay_all(orig, ms.take(k as int)),
            buf@.len() == BUFFER_LEN,
            orig.len() == BUFFER_LEN,
        decreases recs@.len() - k,
    {
        let ghost before = buf@;
        let rec = &recs[k];
        let offset = rec.offset;
        let len = rec.secret.len();
        proof {
            assert(recs@[k as int].wf());
            assert(ms[k as int] == recs@[k as int].model());
        }
        let mut j: usize = 0;
        while j < len
            invariant
                0 <= j <= len,
                len == rec.secret@.len(),
                rec == recs@[k as int],
                0 <= k < recs@.len(),
                recs@[k as int].wf(),
                offset == rec.offset,
                offset + len <= BUFFER_LEN,
                before.len() == BUFFER_LEN,
                buf@.len() == BUFFER_LEN,
                forall|p: int|
                    offset <= p < offset + j ==> buf@[p] == rec.secret@[p - offset],
                forall|p: int|
                    0 <= p < BUFFER_LEN && !(offset <= p < offset + j) ==> buf@[p] == before[p],
            decreases len - j,
        {
            buf.set(offset + j, rec.secret[j]);
            j = j + 1;
        }
        proof {
            let m = ms[k as int];
            assert(buf@ =~= overlay_one(before, m));
            assert(ms.take(k + 1).drop_last() =~= ms.take(k as int));
            assert(ms.take(k + 1).last() == m);
            assert(overlay_all(orig, ms.take(k + 1)) == overlay_one(
                overlay_all(orig, ms.take(k as int)),
                m,
            ));
        }
        k = k + 1;
    }
    proof {
        assert(ms.take(k as int) =~= ms);
    }
}

/// Builds the plaintext buffer: `BUFFER_LEN` bytes of fresh random filler
/// with every record's secret written over it at its offset, in input order.
pub fn assemble_plaintext(recs: &Vec<SecretRecord>) -> (r: Vec<u8>)
    requires
        forall|k: int| 0 <= k < recs@.len() ==> (#[trigger] recs@[k]).wf(),
    ensures
        r@.len() == BUFFER_LEN,
        exists|filler: Seq<u8>|
            filler.len() == BUFFER_LEN && r@ == #[trigger] overlay_all(filler, models_of(recs@)),
        placed(r@, models_of(recs@)),
{
    let mut buf = random_filler(BUFFER_LEN);
    let ghost filler = buf@;
    overlay_records(&mut buf, recs);
    proof {
        let ms = models_of(recs@);
        assert(overlay_all(filler, ms).len() == BUFFER_LEN) by {
            lemma_overlay_byte(filler, ms, 0);
        }
        assert(filler.len() == BUFFER_LEN && buf@ == overlay_all(filler, ms));
        assert forall|j: int| 0 <= j < buf@.len() && #[trigger] last_writer(ms, j) >= 0 implies buf@[j]
            == ms[last_writer(ms, j)].secret[j - ms[last_writer(ms, j)].offset] by {
            lemma_overlay_byte(filler, ms, j);
        }
    }
    buf
}

} // verus!
