//! A rolling membership filter built from two Bloom filters used as a ring buffer.

use crate::config::ConfigType;
use bloomfilter::Bloom;
use vstd::prelude::*;

verus! {

#[verifier::external_type_specification]
#[verifier::external_body]
#[verifier::reject_recursive_types(T)]
pub struct ExBloom<T: ?Sized>(Bloom<T>);

/// What `Bloom::check` answers for an item: it depends on the filter's bits and hash keys alone.
pub uninterp spec fn bloom_reports(b: Bloom<[u8]>, item: Seq<u8>) -> bool;

/// The filter that `Bloom::set` leaves: a function of the filter and the item alone.
pub uninterp spec fn bloom_after_set(b: Bloom<[u8]>, item: Seq<u8>) -> Bloom<[u8]>;

/// The filter that `Bloom::clear` leaves: the same one with every bit clear.
pub uninterp spec fn bloom_cleared(b: Bloom<[u8]>) -> Bloom<[u8]>;

/// `Bloom::number_of_bits`: the size of the filter's bitmap, fixed when it is made.
pub uninterp spec fn bloom_bits(b: Bloom<[u8]>) -> nat;

/// Relies on `Bloom::new`: a bitmap of `8 * bitmap_size` bits, all clear, so that
/// `check` finds every item absent.
#[verifier::external_body]
fn bloom_new(bitmap_size: usize, items_count: usize) -> (r: Bloom<[u8]>)
    requires
        0 < bitmap_size <= usize::MAX / 8,
        0 < items_count,
    ensures
        forall|x: Seq<u8>| !bloom_reports(r, x),
        bloom_bits(r) == 8 * bitmap_size,
{
    Bloom::new(bitmap_size, items_count)
}

/// Relies on `Bloom::check`: true when every bit the item hashes to is set.
#[verifier::external_body]
fn bloom_check(b: &Bloom<[u8]>, item: &[u8]) -> (r: bool)
    ensures
        r == bloom_reports(*b, item@),
{
    b.check(item)
}

/// Relies on `Bloom::set`: sets the item's bits, so it is reported from then on, and
/// only sets bits, so whatever was reported still is; the bitmap keeps its size.
#[verifier::external_body]
fn bloom_set(b: &mut Bloom<[u8]>, item: &[u8])
    ensures
        *final(b) == bloom_after_set(*old(b), item@),
        bloom_reports(*final(b), item@),
        forall|z: Seq<u8>| bloom_reports(*old(b), z) ==> bloom_reports(*final(b), z),
        bloom_bits(*final(b)) == bloom_bits(*old(b)),
{
    b.set(item)
}

/// Relies on `Bloom::clear`: clears every bit, so `check` finds every item absent;
/// the bitmap keeps its size.
#[verifier::external_body]
fn bloom_clear(b: &mut Bloom<[u8]>)
    ensures
        *final(b) == bloom_cleared(*old(b)),
        forall|x: Seq<u8>| !bloom_reports(*final(b), x),
        bloom_bits(*final(b)) == bloom_bits(*old(b)),
{
    b.clear()
}

/// Entries the server-side filter is expected to hold (both slots together).
pub const BF_NUM_ENTRIES_FOR_SERVER: usize = 1_000_000;

/// Entries the client-side filter is expected to hold (both slots together).
pub const BF_NUM_ENTRIES_FOR_CLIENT: usize = 10_000;

/// Bitmap bytes of one server slot: half the server entries at a false-positive
/// rate of one in a million, `ceil(n * ln(1/p) / (8 * ln(2)^2))`.
pub const BF_BITMAP_BYTES_FOR_SERVER: usize = 1_797_199;

/// Bitmap bytes of one client slot: half the client entries at a false-positive
/// rate of one in 10^15, by the same formula.
pub const BF_BITMAP_BYTES_FOR_CLIENT: usize = 44_930;

/// Bitmap bytes of one slot for a role.
pub open spec fn slot_bitmap_bytes_for(ty: ConfigType) -> nat {
    if ty == ConfigType::Local {
        BF_BITMAP_BYTES_FOR_CLIENT as nat
    } else {
        BF_BITMAP_BYTES_FOR_SERVER as nat
    }
}

/// Per-slot capacity for a role: half of the role's total entries.
pub open spec fn slot_capacity_for(ty: ConfigType) -> nat {
    if ty == ConfigType::Local {
        (BF_NUM_ENTRIES_FOR_CLIENT / 2) as nat
    } else {
        (BF_NUM_ENTRIES_FOR_SERVER / 2) as nat
    }
}

/// The filter `b` after setting each of `xs` in order.
pub open spec fn set_all(b: Bloom<[u8]>, xs: Seq<Seq<u8>>) -> Bloom<[u8]>
    decreases xs.len(),
{
    if xs.len() == 0 {
        b
    } else {
        bloom_after_set(set_all(b, xs.drop_last()), xs.last())
    }
}

/// One half of the ring: a Bloom filter and how many items were inserted into it.
pub struct Slot {
    pub bloom: Bloom<[u8]>,
    pub count: usize,
    /// The filter as it was when the slot was last made empty.
    pub blank: Ghost<Bloom<[u8]>>,
}

/// Two Bloom filters used as a ring buffer. New items go into the active slot;
/// when it is full the roles swap and the slot that becomes active is cleared.
pub struct PingPongBloom {
    pub active: Slot,
    pub retiring: Slot,
    pub item_count: usize,
    /// Every item this filter took in, oldest first.
    pub history: Ghost<Seq<Seq<u8>>>,
}

impl PingPongBloom {
    /// What `check_and_set` answers for `x`: whether either slot reports it. This holds
    /// of every item in the window, and of some others (false positives).
    pub open spec fn reports(&self, x: Seq<u8>) -> bool {
        bloom_reports(self.active.bloom, x) || bloom_reports(self.retiring.bloom, x)
    }

    /// How many of the most recent insertions the two slots hold: the retiring
    /// slot's, then the active slot's.
    pub open spec fn window(&self) -> nat {
        (self.active.count + self.retiring.count) as nat
    }

    pub open spec fn slot_capacity(&self) -> nat {
        self.item_count as nat
    }

    /// Bits in each slot's bitmap.
    pub open spec fn bitmap_bits(&self) -> nat {
        bloom_bits(self.active.bloom)
    }

    pub open spec fn wf(&self) -> bool {
        let h = self.history@;
        let n = h.len() as int;
        let a = self.active.count as int;
        let b = self.retiring.count as int;
        &&& 0 < self.item_count
        &&& self.active.count <= self.item_count
        &&& self.retiring.count <= self.item_count
        &&& a + b <= n
        &&& (n > a + b ==> b == self.item_count)
        &&& (n > 0 ==> a > 0)
        &&& bloom_bits(self.retiring.bloom) == bloom_bits(self.active.bloom)
        &&& forall|x: Seq<u8>| !bloom_reports(self.active.blank@, x)
        &&& forall|x: Seq<u8>| !bloom_reports(self.retiring.blank@, x)
        &&& self.active.bloom == set_all(self.active.blank@, h.subrange(n - a, n))
        &&& self.retiring.bloom == set_all(self.retiring.blank@, h.subrange(n - a - b, n - a))
        &&& forall|i: int| n - a <= i < n ==> #[trigger] bloom_reports(self.active.bloom, h[i])
        &&& forall|i: int|
            n - a - b <= i < n - a ==> #[trigger] bloom_reports(self.retiring.bloom, h[i])
    }

    /// The filter after inserting `x`: when the active slot is full, it becomes the
    /// retiring slot and the old retiring slot, cleared, becomes the active one; then
    /// `x` is set in the active slot and its count rises by one.
    pub open spec fn after_record(self, x: Seq<u8>) -> PingPongBloom {
        if self.active.count >= self.item_count {
            PingPongBloom {
                active: Slot {
                    bloom: bloom_after_set(bloom_cleared(self.retiring.bloom), x),
                    count: 1,
                    blank: Ghost(bloom_cleared(self.retiring.bloom)),
                },
                retiring: self.active,
                item_count: self.item_count,
                history: Ghost(self.history@.push(x)),
            }
        } else {
            PingPongBloom {
                active: Slot {
                    bloom: bloom_after_set(self.active.bloom, x),
                    count: (self.active.count + 1) as usize,
                    blank: self.active.blank,
                },
                retiring: self.retiring,
                item_count: self.item_count,
                history: Ghost(self.history@.push(x)),
            }
        }
    }

    /// What one `check_and_set` of `x` does, returning `r`: the answer is what the
    /// slots report; a replay changes nothing; a novel item is recorded as
    /// `after_record` says.
    pub open spec fn marked(self, next: Self, x: Seq<u8>, r: bool) -> bool {
        &&& next.wf()
        &&& r == self.reports(x)
        &&& (r ==> next == self)
        &&& (!r ==> next == self.after_record(x))
        &&& next.reports(x)
        &&& next.item_count == self.item_count
        &&& next.bitmap_bits() == self.bitmap_bits()
    }

    /// A fresh filter sized for the role: each slot holds half of the role's entries
    /// in a bitmap sized for the role's false-positive rate.
    pub fn new(ty: ConfigType) -> (r: PingPongBloom)
        ensures
            r.wf(),
            r.slot_capacity() == slot_capacity_for(ty),
            r.bitmap_bits() == 8 * slot_bitmap_bytes_for(ty),
            r.active.count == 0,
            r.retiring.count == 0,
            r.history@ == Seq::<Seq<u8>>::empty(),
            forall|x: Seq<u8>| !r.reports(x),
    {
        let (total, bitmap_bytes) = if ty.is_local() {
            (BF_NUM_ENTRIES_FOR_CLIENT, BF_BITMAP_BYTES_FOR_CLIENT)
        } else {
            (BF_NUM_ENTRIES_FOR_SERVER, BF_BITMAP_BYTES_FOR_SERVER)
        };
        let item_count: usize = total / 2;
        let a = bloom_new(bitmap_bytes, item_count);
        let b = bloom_new(bitmap_bytes, item_count);
        let ghost blank_a = a;
        let ghost blank_b = b;
        let r = PingPongBloom {
            active: Slot { bloom: a, count: 0, blank: Ghost(blank_a) },
            retiring: Slot { bloom: b, count: 0, blank: Ghost(blank_b) },
            item_count,
            history: Ghost(Seq::empty()),
        };
        assert(r.history@.subrange(0, 0) =~= Seq::<Seq<u8>>::empty());
        r
    }

    /// Records `buf` in the active slot, first rotating when the active slot is full:
    /// the full slot becomes the retiring one and the old retiring slot, cleared, becomes
    /// the active one.
    pub fn record(&mut self, buf: &[u8])
        requires
            old(self).wf(),
        ensures
            *final(self) == old(self).after_record(buf@),
            final(self).wf(),
            final(self).reports(buf@),
            final(self).bitmap_bits() == old(self).bitmap_bits(),
    {
        let ghost h0 = self.history@;
        let ghost a0 = self.active.count as int;
        let ghost b0 = self.retiring.count as int;
        if self.active.count >= self.item_count {
            // The active slot is full: it becomes the retiring one, and the
            // old retiring slot is cleared and reused as the active one.
            core::mem::swap(&mut self.active, &mut self.retiring);
            self.active.count = 0;
            bloom_clear(&mut self.active.bloom);
            let ghost blank = self.active.bloom;
            self.active.blank = Ghost(blank);
        }
        bloom_set(&mut self.active.bloom, buf);
        self.active.count = self.active.count + 1;
        self.history = Ghost(h0.push(buf@));
        proof {
            let h = self.history@;
            let n = h.len() as int;
            assert(h[n - 1] == buf@);
            assert forall|i: int| 0 <= i < n - 1 implies h[i] == h0[i] by {}
            if a0 >= self.item_count {
                assert(h.subrange(n - 1, n).drop_last() =~= Seq::<Seq<u8>>::empty());
                assert(h.subrange(n - 1, n).last() == buf@);
                assert(set_all(self.active.blank@, Seq::<Seq<u8>>::empty()) == self.active.blank@);
                assert(self.active.bloom == set_all(self.active.blank@, h.subrange(n - 1, n)));
                assert(self.retiring == old(self).active);
                assert(old(self).active.bloom == set_all(old(self).active.blank@, h0.subrange(n - 1 - a0, n - 1)));
                assert(h.subrange(n - 1 - a0, n - 1) == h0.subrange(n - 1 - a0, n - 1));
                assert(self.retiring.bloom == set_all(self.retiring.blank@, h.subrange(n - 1 - a0, n - 1)));
                assert(h.subrange(n - 1 - a0, n - 1) =~= h0.subrange(n - 1 - a0, n - 1));
                assert forall|i: int| n - 1 - a0 <= i < n - 1 implies #[trigger] bloom_reports(self.retiring.bloom, h[i]) by {
                    assert(h[i] == h0[i]);
                }
            } else {
                assert(h.subrange(n - 1 - a0, n).drop_last() =~= h0.subrange(n - 1 - a0, n - 1));
                assert(h.subrange(n - 1 - a0, n).last() == buf@);
                assert(self.active.bloom == set_all(self.active.blank@, h.subrange(n - 1 - a0, n)));
                assert(self.retiring == old(self).retiring);
                assert(old(self).retiring.bloom == set_all(old(self).retiring.blank@, h0.subrange(n - 1 - a0 - b0, n - 1 - a0)));
                assert(h.subrange(n - 1 - a0 - b0, n - 1 - a0) == h0.subrange(n - 1 - a0 - b0, n - 1 - a0));
                assert(self.retiring.bloom == set_all(self.retiring.blank@, h.subrange(n - 1 - a0 - b0, n - 1 - a0)));
                assert(h.subrange(n - 1 - a0 - b0, n - 1 - a0) =~= h0.subrange(n - 1 - a0 - b0, n - 1 - a0));
                assert forall|i: int| n - 1 - a0 <= i < n implies #[trigger] bloom_reports(self.active.bloom, h[i]) by {
                    if i < n - 1 {
                        assert(h[i] == h0[i]);
                        assert(bloom_reports(old(self).active.bloom, h0[i]));
                    }
                }
                assert forall|i: int| n - 1 - a0 - b0 <= i < n - 1 - a0 implies #[trigger] bloom_reports(self.retiring.bloom, h[i]) by {
                    assert(h[i] == h0[i]);
                }
            }
        }
    }

    /// Reports whether `buf` was seen before; when it was not, records it in the
    /// active slot, first rotating the slots when the active one is full.
    pub fn check_and_set(&mut self, buf: &[u8]) -> (r: bool)
        requires
            old(self).wf(),
        ensures
            old(self).marked(*final(self), buf@, r),
    {
        if bloom_check(&self.active.bloom, buf) || bloom_check(&self.retiring.bloom, buf) {
            return true;
        }
        self.record(buf);
        false
    }

    /// Nonce replay check: an empty nonce means the cipher has none and is always
    /// novel, leaving the filter untouched; any other nonce goes through `check_and_set`.
    pub fn check_nonce_and_set(&mut self, nonce: &[u8]) -> (r: bool)
        requires
            old(self).wf(),
        ensures
            nonce@.len() == 0 ==> !r && *final(self) == *old(self),
            nonce@.len() > 0 ==> old(self).marked(*final(self), nonce@, r),
            final(self).wf(),
    {
        if nonce.len() == 0 {
            return false;
        }
        self.check_and_set(nonce)
    }
}

/// No false negatives: every one of the `window()` most recent insertions is still
/// reported, and the window covers all insertions so far or at least
/// `slot_capacity() + 1` of them: an item is held until two rotations have passed.
pub proof fn lemma_recent_items_present(b: PingPongBloom, i: int)
    requires
        b.wf(),
        b.history@.len() - b.window() <= i < b.history@.len(),
    ensures
        b.reports(b.history@[i]),
        b.window() >= b.history@.len() || b.window() >= b.slot_capacity() + 1,
{
    let n = b.history@.len() as int;
    if i >= n - b.active.count {
        assert(bloom_reports(b.active.bloom, b.history@[i]));
    } else {
        assert(bloom_reports(b.retiring.bloom, b.history@[i]));
    }
}

/// Old items are forgotten: each slot's filter is a blank filter, which reports
/// nothing, with exactly that slot's part of the window set in it; the items before
/// the window left no trace in the state.
pub proof fn lemma_only_window_retained(b: PingPongBloom)
    requires
        b.wf(),
    ensures
        ({
            let h = b.history@;
            let n = h.len() as int;
            let a = b.active.count as int;
            let r = b.retiring.count as int;
            &&& b.active.bloom == set_all(b.active.blank@, h.subrange(n - a, n))
            &&& b.retiring.bloom == set_all(b.retiring.blank@, h.subrange(n - a - r, n - a))
            &&& forall|x: Seq<u8>| !bloom_reports(b.active.blank@, x)
            &&& forall|x: Seq<u8>| !bloom_reports(b.retiring.blank@, x)
        }),
{
}

/// Rotation bounds memory: however many items were inserted, the two slots hold at
/// most twice the per-slot capacity, in bitmaps whose size never changes.
pub proof fn lemma_retained_bounded(b: PingPongBloom, x: Seq<u8>, r: bool, next: PingPongBloom)
    requires
        b.wf(),
        b.marked(next, x, r),
    ensures
        next.window() <= 2 * next.slot_capacity(),
        next.slot_capacity() == b.slot_capacity(),
        next.bitmap_bits() == b.bitmap_bits(),
        bloom_bits(next.retiring.bloom) == bloom_bits(next.active.bloom),
{
}

/// Once `states[i]` reports `x`, a run of calls with `x` keeps reporting it.
proof fn lemma_stays_reported(states: Seq<PingPongBloom>, results: Seq<bool>, x: Seq<u8>, i: int, k: int)
    requires
        states.len() == results.len() + 1,
        forall|m: int| 0 <= m < results.len() ==> #[trigger] states[m].marked(states[m + 1], x, results[m]),
        0 <= i <= k < states.len(),
        states[i].reports(x),
    ensures
        states[k].reports(x),
    decreases k - i,
{
    if k > i {
        let m = k - 1;
        lemma_stays_reported(states, results, x, i, m);
        assert(states[m].marked(states[m + 1], x, results[m]));
    }
}

/// Exactly-once admission: in any run of `check_and_set` calls with the same item,
/// once one call has reported it novel, every later call reports a replay.
pub proof fn lemma_at_most_one_novel(states: Seq<PingPongBloom>, results: Seq<bool>, x: Seq<u8>)
    requires
        states.len() == results.len() + 1,
        forall|k: int| 0 <= k < results.len() ==> #[trigger] states[k].marked(states[k + 1], x, results[k]),
    ensures
        forall|i: int, j: int| 0 <= i < j < results.len() && !results[i] ==> results[j],
{
    assert forall|i: int, j: int| 0 <= i < j < results.len() && !results[i] implies results[j] by {
        assert(states[i].marked(states[i + 1], x, results[i]));
        lemma_stays_reported(states, results, x, i + 1, j);
        assert(states[j].marked(states[j + 1], x, results[j]));
    }
}

/// Two equal filters given the same item answer alike and end equal: the filter's
/// state is a function of what it was given.
pub proof fn lemma_deterministic(b: PingPongBloom, x: Seq<u8>, r1: bool, n1: PingPongBloom, r2: bool, n2: PingPongBloom)
    requires
        b.marked(n1, x, r1),
        b.marked(n2, x, r2),
    ensures
        r1 == r2,
        n1 == n2,
{
}

} // verus!
