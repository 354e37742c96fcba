//! The Frame Walker: following a saved-frame-pointer chain through a stack
//! image, one hop at a time, up to a requested depth.
//!
//! On the modelled calling convention a frame pointer is the address of a
//! two-word record `[saved_frame_pointer, return_address]`, the stack grows
//! toward lower addresses, and a well-formed chain's frame pointers therefore
//! increase strictly toward the caller. The walker emits one [`FrameRecord`]
//! per hop and stops silently at the requested depth or at a record that
//! ends the chain: one that saves zero (the chain's last frame, still
//! emitted), or one that saves a nonzero frame pointer that does not
//! increase (a corrupted frame, dropped without being emitted). Absence of
//! further records is the only signal; there is no error kind.
//!
//! The walker reads from a [`StackImage`], a plain in-memory picture of a
//! stack region. A caller that inspects its own live stack obtains the
//! starting frame pointer from a register probe and copies the region of
//! interest into an image; the walk itself is then an ordinary bounds-checked
//! computation.

use vstd::arithmetic::div_mod::lemma_fundamental_div_mod;
use vstd::arithmetic::div_mod::lemma_fundamental_div_mod_converse;
use vstd::prelude::*;

verus! {

/// Width of one machine word in bytes, in the modelled convention.
pub const WORD_BYTES: u64 = 8;

/// One hop's result while walking a saved-frame-pointer chain.
///
/// `saved_frame_pointer` is the word read at `frame_pointer`, and
/// `return_address` the word read one machine word above it.
#[derive(Clone, Copy, Debug, PartialEq, Eq, Structural)]
pub struct FrameRecord {
    pub frame_pointer: u64,
    pub saved_frame_pointer: u64,
    pub return_address: u64,
}

/// A picture of a contiguous stack region: `words[i]` is the machine word at
/// address `base + WORD_BYTES * i`.
pub struct StackImage {
    pub base: u64,
    pub words: Vec<u64>,
}

impl StackImage {
    /// One past the highest address the image covers.
    pub open spec fn end(self) -> int {
        self.base + WORD_BYTES * self.words@.len()
    }

    /// The image starts at a word-aligned address and covers addresses that
    /// fit in a machine word.
    pub open spec fn wf(self) -> bool {
        &&& self.base % WORD_BYTES == 0
        &&& self.end() <= u64::MAX + 1
    }

    /// `addr` is word-aligned and both words of a frame record at `addr` lie
    /// inside the image.
    pub open spec fn can_read_record(self, addr: u64) -> bool {
        &&& addr % WORD_BYTES == 0
        &&& self.base <= addr
        &&& addr + 2 * WORD_BYTES <= self.end()
    }

    /// The machine word the image holds at address `addr`.
    pub open spec fn word_at(self, addr: int) -> u64 {
        self.words@[(addr - self.base) / (WORD_BYTES as int)]
    }
}

/// The frame record that a hop at `fp` reads out of the image.
pub open spec fn spec_record_at(img: StackImage, fp: u64) -> FrameRecord {
    FrameRecord {
        frame_pointer: fp,
        saved_frame_pointer: img.word_at(fp as int),
        return_address: img.word_at(fp + WORD_BYTES),
    }
}

/// Whether a hop's record ends the walk: a zero saved frame pointer (the
/// chain's last frame, emitted), or a nonzero one that does not increase
/// strictly (a corrupted frame, dropped).
pub open spec fn terminal_record(rec: FrameRecord) -> bool {
    rec.saved_frame_pointer == 0 || rec.saved_frame_pointer <= rec.frame_pointer
}

/// The chain that a walk from `fp` produces in at most `depth` hops.
pub open spec fn spec_walk(img: StackImage, fp: u64, depth: nat) -> Seq<FrameRecord>
    decreases depth,
{
    if depth == 0 || !img.can_read_record(fp) {
        Seq::empty()
    } else {
        let rec = spec_record_at(img, fp);
        if rec.saved_frame_pointer == 0 {
            seq![rec]
        } else if rec.saved_frame_pointer <= fp {
            Seq::empty()
        } else {
            seq![rec] + spec_walk(img, rec.saved_frame_pointer, (depth - 1) as nat)
        }
    }
}

/// Every frame pointer that a walk from `fp` dereferences within `depth`
/// hops can be read from the image. A walk may only start where this holds:
/// a hop through an address outside the image would be a wild read on a live
/// stack, which the platform model leaves undefined.
pub open spec fn chain_ok(img: StackImage, fp: u64, depth: nat) -> bool
    decreases depth,
{
    depth == 0 || {
        &&& img.can_read_record(fp)
        &&& {
            let rec = spec_record_at(img, fp);
            terminal_record(rec) || chain_ok(img, rec.saved_frame_pointer, (depth - 1) as nat)
        }
    }
}

/// An offset between two word-aligned addresses is a whole number of words.
proof fn lemma_aligned_offset(base: u64, addr: u64)
    requires
        base % WORD_BYTES == 0,
        addr % WORD_BYTES == 0,
        base <= addr,
    ensures
        addr - base == WORD_BYTES * ((addr - base) / (WORD_BYTES as int)),
{
    let w = WORD_BYTES as int;
    lemma_fundamental_div_mod(addr as int, w);
    lemma_fundamental_div_mod(base as int, w);
    let q = addr as int / w - base as int / w;
    assert(addr - base == q * w);
    lemma_fundamental_div_mod_converse(addr - base, w, q, 0);
}

/// The word index of a readable record lies inside the image, and the two
/// words at that index are the record's fields.
proof fn lemma_record_index(img: StackImage, fp: u64)
    requires
        img.wf(),
        img.can_read_record(fp),
    ensures
        fp - img.base == WORD_BYTES * ((fp - img.base) / (WORD_BYTES as int)),
        (fp - img.base) / (WORD_BYTES as int) + 2 <= img.words@.len(),
        img.word_at(fp as int) == img.words@[(fp - img.base) / (WORD_BYTES as int)],
        img.word_at(fp + WORD_BYTES) == img.words@[(fp - img.base) / (WORD_BYTES as int) + 1],
{
    let w = WORD_BYTES as int;
    let off = fp - img.base;
    lemma_aligned_offset(img.base, fp);
    let q = off / w;
    assert(off + 2 * w <= w * img.words@.len());
    assert(w * (q + 2) <= w * img.words@.len());
    assert(q + 2 <= img.words@.len());
    lemma_fundamental_div_mod_converse(off + w, w, q + 1, 0);
    assert((fp + WORD_BYTES - img.base) / w == q + 1);
}

/// Reads the two words of the frame record at `fp`.
pub fn frame_record_at(img: &StackImage, fp: u64) -> (rec: FrameRecord)
    requires
        img.wf(),
        img.can_read_record(fp),
    ensures
        rec == spec_record_at(*img, fp),
{
    let off = fp - img.base;
    let idx64 = off / WORD_BYTES;
    let len = img.words.len();
    proof {
        lemma_record_index(*img, fp);
        assert(idx64 + 2 <= len);
    }
    let idx: usize = idx64 as usize;
    FrameRecord {
        frame_pointer: fp,
        saved_frame_pointer: img.words[idx],
        return_address: img.words[idx + 1],
    }
}

/// Runtime test of [`StackImage::can_read_record`].
pub fn can_read_record_at(img: &StackImage, addr: u64) -> (ok: bool)
    requires
        img.wf(),
    ensures
        ok == img.can_read_record(addr),
{
    if addr % WORD_BYTES != 0 || addr < img.base {
        return false;
    }
    proof {
        lemma_aligned_offset(img.base, addr);
    }
    let off_words = (addr - img.base) / WORD_BYTES;
    let len = img.words.len() as u64;
    proof {
        assert(off_words as int <= u64::MAX as int / (WORD_BYTES as int));
    }
    off_words + 2 <= len
}

/// Walks the saved-frame-pointer chain from `start_frame_pointer`, emitting
/// at most `max_depth` records, or reports that some hop would leave the
/// image.
///
/// Returns `Some` exactly when every frame pointer the walk dereferences can
/// be read from the image; the records are then precisely the walked chain.
pub fn try_walk(img: &StackImage, start_frame_pointer: u64, max_depth: usize) -> (result: Option<
    Vec<FrameRecord>,
>)
    requires
        img.wf(),
    ensures
        match result {
            Some(records) => chain_ok(*img, start_frame_pointer, max_depth as nat) && records@
                == spec_walk(*img, start_frame_pointer, max_depth as nat),
            None => !chain_ok(*img, start_frame_pointer, max_depth as nat),
        },
{
    let ghost full = spec_walk(*img, start_frame_pointer, max_depth as nat);
    let mut records: Vec<FrameRecord> = Vec::new();
    let mut fp = start_frame_pointer;
    let mut hops: usize = 0;
    let mut done = false;
    while !done && hops < max_depth
        invariant
            img.wf(),
            hops <= max_depth,
            full == spec_walk(*img, start_frame_pointer, max_depth as nat),
            done ==> chain_ok(*img, start_frame_pointer, max_depth as nat) && records@ == full,
            !done ==> (chain_ok(*img, start_frame_pointer, max_depth as nat) <==> chain_ok(
                *img,
                fp,
                (max_depth - hops) as nat,
            )),
            !done ==> records@ + spec_walk(*img, fp, (max_depth - hops) as nat) == full,
        decreases max_depth - hops,
    {
        let ghost rest = (max_depth - hops) as nat;
        if !can_read_record_at(img, fp) {
            assert(!chain_ok(*img, fp, rest));
            return None;
        }
        let rec = frame_record_at(img, fp);
        let ghost before = records@;
        if rec.saved_frame_pointer == 0 {
            records.push(rec);
            proof {
                assert(terminal_record(rec));
                assert(chain_ok(*img, fp, rest));
                assert(spec_walk(*img, fp, rest) =~= seq![rec]);
                assert(records@ =~= before + seq![rec]);
            }
            done = true;
        } else if rec.saved_frame_pointer <= fp {
            proof {
                assert(terminal_record(rec));
                assert(chain_ok(*img, fp, rest));
                assert(spec_walk(*img, fp, rest) =~= Seq::<FrameRecord>::empty());
                assert(records@ =~= before + Seq::<FrameRecord>::empty());
            }
            done = true;
        } else {
            records.push(rec);
            let ghost tail = spec_walk(*img, rec.saved_frame_pointer, (rest - 1) as nat);
            proof {
                assert(!terminal_record(rec));
                assert(chain_ok(*img, fp, rest) <==> chain_ok(
                    *img,
                    rec.saved_frame_pointer,
                    (rest - 1) as nat,
                ));
                assert(spec_walk(*img, fp, rest) =~= seq![rec] + tail);
                assert(records@ + tail =~= before + (seq![rec] + tail));
            }
            fp = rec.saved_frame_pointer;
        }
        hops = hops + 1;
    }
    proof {
        if !done {
            assert(spec_walk(*img, fp, (max_depth - hops) as nat) == Seq::<FrameRecord>::empty());
            assert(records@ =~= records@ + Seq::<FrameRecord>::empty());
            assert(chain_ok(*img, fp, (max_depth - hops) as nat));
        }
    }
    Some(records)
}

/// Walks the saved-frame-pointer chain from `start_frame_pointer`, emitting
/// at most `max_depth` records.
///
/// The caller guarantees that every dereferenced frame pointer stays inside
/// the image ([`chain_ok`]); use [`try_walk`] to test that at runtime.
pub fn walk(img: &StackImage, start_frame_pointer: u64, max_depth: usize) -> (records: Vec<
    FrameRecord,
>)
    requires
        img.wf(),
        chain_ok(*img, start_frame_pointer, max_depth as nat),
    ensures
        records@ == spec_walk(*img, start_frame_pointer, max_depth as nat),
        records@.len() <= max_depth,
{
    proof {
        lemma_walk_bounded(*img, start_frame_pointer, max_depth as nat);
    }
    match try_walk(img, start_frame_pointer, max_depth) {
        Some(records) => records,
        None => vstd::pervasive::unreached(),
    }
}

/// Bounded termination: a walk never yields more records than the requested
/// depth, and a walk of depth zero yields no records at all.
pub proof fn lemma_walk_bounded(img: StackImage, fp: u64, depth: nat)
    ensures
        spec_walk(img, fp, depth).len() <= depth,
        depth == 0 ==> spec_walk(img, fp, depth) == Seq::<FrameRecord>::empty(),
    decreases depth,
{
    if depth > 0 && img.can_read_record(fp) {
        let rec = spec_record_at(img, fp);
        if !terminal_record(rec) {
            lemma_walk_bounded(img, rec.saved_frame_pointer, (depth - 1) as nat);
        }
    }
}

/// Early termination on corruption: a hop whose saved frame pointer is
/// nonzero and does not increase strictly is corrupted, and is dropped
/// without being emitted, whatever depth was requested.
pub proof fn lemma_early_termination(img: StackImage, fp: u64, depth: nat)
    requires
        img.can_read_record(fp),
        img.word_at(fp as int) != 0,
        img.word_at(fp as int) <= fp,
    ensures
        spec_walk(img, fp, depth) == Seq::<FrameRecord>::empty(),
{
}

/// A chain whose second hop is corrupted yields exactly the first record,
/// not two: the corrupted record itself stays out.
pub proof fn lemma_corrupted_second_hop(img: StackImage, fp: u64, depth: nat)
    requires
        depth >= 1,
        img.can_read_record(fp),
        ({
            let next = img.word_at(fp as int);
            &&& fp < next
            &&& img.can_read_record(next)
            &&& img.word_at(next as int) != 0
            &&& img.word_at(next as int) <= next
        }),
    ensures
        spec_walk(img, fp, depth) == seq![spec_record_at(img, fp)],
{
    let next = img.word_at(fp as int);
    let rec = spec_record_at(img, fp);
    assert(rec.saved_frame_pointer == next && next != 0 && fp < next);
    assert(spec_walk(img, fp, depth) == seq![rec] + spec_walk(img, next, (depth - 1) as nat));
    if depth > 1 {
        lemma_early_termination(img, next, (depth - 1) as nat);
    }
    assert(spec_walk(img, next, (depth - 1) as nat) == Seq::<FrameRecord>::empty());
    assert(seq![rec] + Seq::<FrameRecord>::empty() =~= seq![rec]);
}

/// `fps` is a well-formed linked chain in the image: every entry is
/// readable, each saves the next entry as its strictly greater frame
/// pointer, and the last entry saves zero.
pub open spec fn linked_chain(img: StackImage, fps: Seq<u64>) -> bool {
    &&& forall|i: int| 0 <= i < fps.len() ==> img.can_read_record(#[trigger] fps[i])
    &&& forall|i: int|
        0 <= i < fps.len() - 1 ==> #[trigger] img.word_at(fps[i] as int) == fps[i + 1] && fps[i]
            < fps[i + 1]
    &&& fps.len() > 0 ==> img.word_at(fps[fps.len() - 1] as int) == 0
}

/// What remains of a linked chain after its head is again a linked chain.
proof fn lemma_linked_chain_tail(img: StackImage, fps: Seq<u64>)
    requires
        linked_chain(img, fps),
        fps.len() > 1,
    ensures
        linked_chain(img, fps.drop_first()),
{
    let tail = fps.drop_first();
    assert forall|i: int| 0 <= i < tail.len() implies img.can_read_record(#[trigger] tail[i]) by {
        assert(tail[i] == fps[i + 1]);
        assert(img.can_read_record(fps[i + 1]));
    }
    assert forall|i: int| 0 <= i < tail.len() - 1 implies #[trigger] img.word_at(tail[i] as int)
        == tail[i + 1] && tail[i] < tail[i + 1] by {
        assert(tail[i] == fps[i + 1]);
        assert(tail[i + 1] == fps[i + 2]);
        assert(0 <= i + 1 < fps.len() - 1);
        assert(img.word_at(fps[i + 1] as int) == fps[i + 2] && fps[i + 1] < fps[i + 2]);
    }
    assert(tail[tail.len() - 1] == fps[fps.len() - 1]);
}

/// A well-formed linked chain can be walked: every hop stays inside the
/// image, whatever depth is requested.
pub proof fn lemma_linked_chain_ok(img: StackImage, fps: Seq<u64>, depth: nat)
    requires
        linked_chain(img, fps),
        fps.len() >= 1,
    ensures
        chain_ok(img, fps[0], depth),
    decreases fps.len(),
{
    if depth > 0 {
        let rec = spec_record_at(img, fps[0]);
        if fps.len() == 1 {
            assert(img.word_at(fps[0] as int) == 0);
            assert(terminal_record(rec));
        } else {
            assert(rec.saved_frame_pointer == fps[1]);
            lemma_linked_chain_tail(img, fps);
            lemma_linked_chain_ok(img, fps.drop_first(), (depth - 1) as nat);
            assert(fps.drop_first()[0] == fps[1]);
        }
    }
}

/// Chain consistency: a walk started at the head of a well-formed linked
/// chain of K frames, with depth at least K, yields exactly K records, the
/// i-th holding the i-th frame pointer, the following frame pointer (zero
/// for the last), and the return address stored beside the i-th frame
/// pointer.
pub proof fn lemma_chain_consistency(img: StackImage, fps: Seq<u64>, depth: nat)
    requires
        linked_chain(img, fps),
        0 < fps.len() <= depth,
    ensures
        spec_walk(img, fps[0], depth).len() == fps.len(),
        forall|i: int|
            0 <= i < fps.len() ==> #[trigger] spec_walk(img, fps[0], depth)[i] == (FrameRecord {
                frame_pointer: fps[i],
                saved_frame_pointer: if i == fps.len() - 1 {
                    0u64
                } else {
                    fps[i + 1]
                },
                return_address: img.word_at(fps[i] + WORD_BYTES),
            }),
    decreases fps.len(),
{
    let rec = spec_record_at(img, fps[0]);
    let result = spec_walk(img, fps[0], depth);
    if fps.len() == 1 {
        assert(img.word_at(fps[0] as int) == 0);
        assert(terminal_record(rec));
        assert(result =~= seq![rec]);
    } else {
        assert(img.word_at(fps[0] as int) == fps[1] && fps[0] < fps[1]);
        assert(!terminal_record(rec));
        let tail = fps.drop_first();
        lemma_linked_chain_tail(img, fps);
        lemma_chain_consistency(img, tail, (depth - 1) as nat);
        let tail_walk = spec_walk(img, fps[1], (depth - 1) as nat);
        assert(result =~= seq![rec] + tail_walk);
        assert forall|i: int| 0 <= i < fps.len() implies #[trigger] result[i] == (FrameRecord {
            frame_pointer: fps[i],
            saved_frame_pointer: if i == fps.len() - 1 {
                0u64
            } else {
                fps[i + 1]
            },
            return_address: img.word_at(fps[i] + WORD_BYTES),
        }) by {
            if i == 0 {
                assert(result[0] == rec);
            } else {
                assert(result[i] == tail_walk[i - 1]);
                assert(tail[i - 1] == fps[i]);
                if i < fps.len() - 1 {
                    assert(tail[i] == fps[i + 1]);
                }
            }
        }
    }
}

} // verus!
