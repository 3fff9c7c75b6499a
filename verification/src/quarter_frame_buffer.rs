use vstd::prelude::*;
use crate::quarter_frame::{QuarterFrame, TimeCodeValue, spec_quarter_frame, decode_quarter_frame, assembled_from};
use crate::timecode::Timecode;

verus! {

/// The eight empty assembly slots.
pub open spec fn spec_empty() -> Seq<Option<TimeCodeValue>> {
    seq![None, None, None, None, None, None, None, None]
}

/// The slots after one fragment arrives: a fragment with a recognized index
/// fills its slot if that slot is empty; a duplicate for a filled slot and a
/// fragment with an unrecognized index leave the slots unchanged.
pub open spec fn spec_add(slots: Seq<Option<TimeCodeValue>>, qf: QuarterFrame) -> Seq<Option<TimeCodeValue>> {
    if qf.index < 8 && slots[qf.index as int] is None {
        slots.update(qf.index as int, Some(qf.value))
    } else {
        slots
    }
}

/// The slots after a sequence of fragments arrives, in arrival order.
pub open spec fn spec_add_all(slots: Seq<Option<TimeCodeValue>>, frags: Seq<QuarterFrame>) -> Seq<Option<TimeCodeValue>>
    decreases frags.len(),
{
    if frags.len() == 0 {
        slots
    } else {
        spec_add_all(spec_add(slots, frags[0]), frags.drop_first())
    }
}

/// Whether every slot holds a fragment.
pub open spec fn spec_all_filled(slots: Seq<Option<TimeCodeValue>>) -> bool {
    forall|i: int| 0 <= i < 8 ==> slots[i] is Some
}

/// The raw timecode value that a complete set of eight fragments denotes: the
/// two nibbles each field was split into are merged back into one byte per
/// field, and the eighth fragment contributes the authoritative frame-rate
/// code.
pub open spec fn spec_merge(slots: Seq<Option<TimeCodeValue>>) -> TimeCodeValue {
    TimeCodeValue {
        frames: slots[0]->0.frames ^ slots[1]->0.frames,
        seconds: slots[2]->0.seconds ^ slots[3]->0.seconds,
        minutes: slots[4]->0.minutes ^ slots[5]->0.minutes,
        hours: slots[6]->0.hours ^ slots[7]->0.hours,
        code_type: slots[7]->0.code_type,
    }
}

/// Whether a byte sequence is one MIDI time-code quarter-frame message: the
/// status byte 0xF1 followed by a data byte.
pub open spec fn spec_is_quarter_frame_msg(bytes: Seq<u8>) -> bool {
    bytes.len() >= 2 && bytes[0] == 0xF1 && bytes[1] < 128
}

/// A buffer for quarter-frame fragments from which a full raw timecode value
/// can be constructed once all 8 fragments have been received.
pub struct TimeCodeQuarterFrameBuffer {
    buffer: Vec<Option<TimeCodeValue>>,
}

impl TimeCodeQuarterFrameBuffer {
    /// The eight assembly slots: slot `i` holds the field values of the
    /// received fragment with index `i`, or nothing.
    pub closed spec fn slots(&self) -> Seq<Option<TimeCodeValue>> {
        self.buffer@
    }

    /// There are eight slots, and a filled slot holds a well-formed fragment's
    /// value for that slot.
    pub open spec fn wf(&self) -> bool {
        &&& self.slots().len() == 8
        &&& forall|i: int| 0 <= i < 8 && (#[trigger] self.slots()[i]) is Some
            ==> (QuarterFrame { index: i as u8, value: self.slots()[i]->0 }).wf()
    }

    /// Return a new, empty buffer.
    pub fn new() -> (b: TimeCodeQuarterFrameBuffer)
        ensures
            b.wf(),
            b.slots() == spec_empty(),
    {
        let buffer: Vec<Option<TimeCodeValue>> = vec![None, None, None, None, None, None, None, None];
        let b = TimeCodeQuarterFrameBuffer { buffer };
        proof {
            assert(b.slots() =~= spec_empty());
        }
        b
    }

    /// Add a fragment to the buffer. The fragment's index selects the slot; a
    /// slot that is already filled keeps its value, so a duplicate cannot
    /// corrupt an assembly in progress, and a fragment with an unrecognized
    /// index is ignored entirely.
    pub fn add(&mut self, qf: QuarterFrame)
        requires
            old(self).wf(),
            qf.wf(),
        ensures
            final(self).wf(),
            final(self).slots() == spec_add(old(self).slots(), qf),
    {
        if qf.index < 8 {
            let idx: usize = qf.index as usize;
            if self.buffer[idx].is_none() {
                self.buffer.set(idx, Some(qf.value));
            }
        }
        proof {
            assert(self.slots() =~= spec_add(old(self).slots(), qf));
        }
    }

    /// Return true if all slots in the buffer have a value, false otherwise.
    fn is_filled(&self) -> (r: bool)
        requires
            self.wf(),
        ensures
            r == spec_all_filled(self.slots()),
    {
        let r = self.buffer[0].is_some() && self.buffer[1].is_some() && self.buffer[2].is_some()
            && self.buffer[3].is_some() && self.buffer[4].is_some() && self.buffer[5].is_some()
            && self.buffer[6].is_some() && self.buffer[7].is_some();
        r
    }

    /// Construct a raw timecode value from the buffered fragments if possible:
    /// while any slot is empty nothing is produced and the buffer is left as it
    /// is; once all eight are present their merge is returned and the buffer is
    /// reset to empty.
    pub fn construct_timecode(&mut self) -> (r: Option<TimeCodeValue>)
        requires
            old(self).wf(),
        ensures
            final(self).wf(),
            spec_all_filled(old(self).slots()) ==> r == Some(spec_merge(old(self).slots()))
                && final(self).slots() == spec_empty(),
            !spec_all_filled(old(self).slots()) ==> r is None && *final(self) == *old(self),
            r is Some ==> r->0.hours < 32,
    {
        // If the buffer is not ready, return None.
        if !self.is_filled() {
            return None;
        }
        // Combine the 4-bit nibbles of the pairs of fragments, e.g. the low
        // nibble of the frames byte stored in slot 0 and the high nibble
        // stored in slot 1.
        let frames: u8 = self.buffer[0].unwrap().frames ^ self.buffer[1].unwrap().frames;
        let seconds: u8 = self.buffer[2].unwrap().seconds ^ self.buffer[3].unwrap().seconds;
        let minutes: u8 = self.buffer[4].unwrap().minutes ^ self.buffer[5].unwrap().minutes;
        let hours: u8 = self.buffer[6].unwrap().hours ^ self.buffer[7].unwrap().hours;
        // The last fragment carries the proper frame-rate code, so extract it
        // from there.
        let code_type = self.buffer[7].unwrap().code_type;
        proof {
            lemma_merged_hours_bound(old(self).slots()[6]->0.hours, old(self).slots()[7]->0.hours,
                (QuarterFrame { index: 6, value: old(self).slots()[6]->0 }).spec_nibble(),
                (QuarterFrame { index: 7, value: old(self).slots()[7]->0 }).spec_nibble());
        }
        // Empty the buffer.
        self.buffer = vec![None, None, None, None, None, None, None, None];
        proof {
            assert(self.slots() =~= spec_empty());
        }
        // Construct and return the raw value.
        Some(TimeCodeValue { frames, seconds, minutes, hours, code_type })
    }

    /// Feed one raw MIDI message to the buffer: a quarter-frame message fills
    /// its slot (any other message is ignored), and when it completes the set
    /// of eight, the assembled timecode is returned and the buffer resets.
    pub fn handle_midi_message(&mut self, bytes: &[u8]) -> (r: Option<Timecode>)
        requires
            old(self).wf(),
        ensures
            final(self).wf(),
            !spec_is_quarter_frame_msg(bytes@) ==> r is None && *final(self) == *old(self),
            spec_is_quarter_frame_msg(bytes@) ==> ({
                let filled = spec_add(old(self).slots(), spec_quarter_frame(bytes@[1]));
                if spec_all_filled(filled) {
                    &&& r is Some
                    &&& assembled_from(r->0, spec_merge(filled))
                    &&& final(self).slots() == spec_empty()
                } else {
                    r is None && final(self).slots() == filled
                }
            }),
    {
        if !is_quarter_frame(bytes) {
            return None;
        }
        let data: u8 = bytes[1];
        let qf = decode_quarter_frame(data);
        self.add(qf);
        match self.construct_timecode() {
            Some(v) => Some(Timecode::from_value(v)),
            None => None,
        }
    }
}

/// The merged hour byte of two well-formed hour fragments stays below 32: the
/// low nibble is below 16 and the eighth fragment contributes only bit 4.
proof fn lemma_merged_hours_bound(low: u8, high: u8, n6: u8, n7: u8)
    requires
        n6 < 16,
        low == n6,
        high == (n7 & 1) << 4,
    ensures
        (low ^ high) < 32,
{
    assert(n6 < 16 && high == (n7 & 1) << 4 ==> (n6 ^ high) < 32) by (bit_vector);
}

/// Relies on midi_msg::MidiMsg::from_midi: parsing with a fresh receiver
/// context yields a system-common time-code quarter-frame message exactly when
/// the bytes begin with the quarter-frame status byte 0xF1 followed by a data
/// byte below 0x80.
#[verifier::external_body]
fn is_quarter_frame(bytes: &[u8]) -> (r: bool)
    ensures
        r == spec_is_quarter_frame_msg(bytes@),
{
    match midi_msg::MidiMsg::from_midi(bytes) {
        Ok((midi_msg::MidiMsg::SystemCommon { msg }, _)) => matches!(msg,
            midi_msg::SystemCommonMsg::TimeCodeQuarterFrame1(_)
                | midi_msg::SystemCommonMsg::TimeCodeQuarterFrame2(_)
                | midi_msg::SystemCommonMsg::TimeCodeQuarterFrame3(_)
                | midi_msg::SystemCommonMsg::TimeCodeQuarterFrame4(_)
                | midi_msg::SystemCommonMsg::TimeCodeQuarterFrame5(_)
                | midi_msg::SystemCommonMsg::TimeCodeQuarterFrame6(_)
                | midi_msg::SystemCommonMsg::TimeCodeQuarterFrame7(_)
                | midi_msg::SystemCommonMsg::TimeCodeQuarterFrame8(_)),
        _ => false,
    }
}

/// Law: a duplicate fragment for an already-filled slot leaves the slots
/// unchanged, so the eventually-produced timecode is the same as if the
/// duplicate had never been sent.
pub proof fn lemma_duplicate_ignored(slots: Seq<Option<TimeCodeValue>>, qf: QuarterFrame)
    requires
        qf.index < 8 ==> slots[qf.index as int] is Some,
    ensures
        spec_add(slots, qf) == slots,
{
}

/// Law: the reset buffer is not complete, so right after a successful
/// completion (which resets the slots) a further completion attempt yields
/// nothing until fresh fragments arrive.
pub proof fn lemma_reset_not_filled()
    ensures
        !spec_all_filled(spec_empty()),
{
    assert(spec_empty()[0] is None);
}

/// Law: feeding eight fragments with pairwise distinct, recognized indices
/// into the empty buffer fills every slot with its own kind's value. The final
/// slots - and with them the completed timecode - therefore depend only on
/// which fragments were fed, not on their arrival order.
pub proof fn lemma_order_independent(frags: Seq<QuarterFrame>)
    requires
        frags.len() == 8,
        forall|i: int| 0 <= i < 8 ==> (#[trigger] frags[i]).index < 8,
        forall|i: int, j: int| 0 <= i < j < 8 ==> frags[i].index != frags[j].index,
    ensures
        spec_add_all(spec_empty(), frags).len() == 8,
        forall|j: int| 0 <= j < frags.len()
            ==> spec_add_all(spec_empty(), frags)[(#[trigger] frags[j]).index as int] == Some(frags[j].value),
        spec_all_filled(spec_add_all(spec_empty(), frags)),
{
    lemma_fill(spec_empty(), frags);
    let result = spec_add_all(spec_empty(), frags);
    assert forall|k: int| 0 <= k < 8 implies result[k] is Some by {
        lemma_distinct_indices_cover(frags, k);
        let j = choose|j: int| 0 <= j < 8 && frags[j].index == k;
        assert(result[frags[j].index as int] == Some(frags[j].value));
    }
}

/// Law: the completed result does not depend on arrival order. Feeding the
/// fragments of `b` - each one of `a`'s fragments, in any order - into the
/// empty buffer leaves exactly the slots that feeding `a` leaves, so the
/// merged timecode is the same.
pub proof fn lemma_permuted_order_same_result(a: Seq<QuarterFrame>, b: Seq<QuarterFrame>)
    requires
        a.len() == 8,
        b.len() == 8,
        forall|i: int| 0 <= i < 8 ==> (#[trigger] a[i]).index < 8,
        forall|i: int, j: int| 0 <= i < j < 8 ==> a[i].index != a[j].index,
        forall|i: int, j: int| 0 <= i < j < 8 ==> b[i].index != b[j].index,
        forall|j: int| 0 <= j < 8 ==> exists|k: int| 0 <= k < 8 && (#[trigger] b[j]) == a[k],
    ensures
        spec_add_all(spec_empty(), a) == spec_add_all(spec_empty(), b),
        spec_merge(spec_add_all(spec_empty(), a)) == spec_merge(spec_add_all(spec_empty(), b)),
{
    lemma_order_independent(a);
    assert forall|i: int| 0 <= i < 8 implies (#[trigger] b[i]).index < 8 by {
        let k = choose|k: int| 0 <= k < 8 && b[i] == a[k];
        assert(a[k].index < 8);
    }
    lemma_order_independent(b);
    let ra = spec_add_all(spec_empty(), a);
    let rb = spec_add_all(spec_empty(), b);
    assert forall|k: int| 0 <= k < 8 implies ra[k] == rb[k] by {
        lemma_distinct_indices_cover(b, k);
        let j = choose|j: int| 0 <= j < 8 && (#[trigger] b[j]).index == k;
        let m = choose|m: int| 0 <= m < 8 && b[j] == a[m];
        assert(ra[a[m].index as int] == Some(a[m].value));
        assert(rb[b[j].index as int] == Some(b[j].value));
    }
    assert(ra =~= rb);
}

/// Eight fragments with pairwise distinct indices below 8 have every index
/// below 8 among them.
proof fn lemma_distinct_indices_cover(frags: Seq<QuarterFrame>, k: int)
    requires
        frags.len() == 8,
        forall|i: int| 0 <= i < 8 ==> (#[trigger] frags[i]).index < 8,
        forall|i: int, j: int| 0 <= i < j < 8 ==> frags[i].index != frags[j].index,
        0 <= k < 8,
    ensures
        exists|j: int| 0 <= j < 8 && (#[trigger] frags[j]).index == k,
{
    let indices = Set::new(|x: int| exists|j: int| 0 <= j < 8 && (#[trigger] frags[j]).index == x);
    let all = Set::new(|x: int| 0 <= x < 8);
    assert(indices.subset_of(all));
    if !indices.contains(k) {
        // indices is the image of 8 distinct values inside a set of at most 8
        // elements missing k, which is impossible.
        lemma_injective_image_size(frags, 8);
        assert(all.remove(k).finite() && all.remove(k).len() == 7) by {
            vstd::set_lib::lemma_int_range(0, 8);
            assert(all =~= vstd::set_lib::set_int_range(0, 8));
        }
        vstd::set_lib::lemma_len_subset(indices, all.remove(k));
        assert(indices.subset_of(all.remove(k)));
    }
}

/// The set of indices of the first `n` fragments of a pairwise-distinct
/// sequence has exactly `n` elements.
proof fn lemma_injective_image_size(frags: Seq<QuarterFrame>, n: int)
    requires
        frags.len() == 8,
        forall|i: int, j: int| 0 <= i < j < 8 ==> frags[i].index != frags[j].index,
        0 <= n <= 8,
    ensures
        Set::new(|x: int| exists|j: int| 0 <= j < n && (#[trigger] frags[j]).index == x).finite(),
        Set::new(|x: int| exists|j: int| 0 <= j < n && (#[trigger] frags[j]).index == x).len() == n,
    decreases n,
{
    let s = Set::new(|x: int| exists|j: int| 0 <= j < n && (#[trigger] frags[j]).index == x);
    if n == 0 {
        assert(s =~= Set::<int>::empty());
    } else {
        lemma_injective_image_size(frags, n - 1);
        let prev = Set::new(|x: int| exists|j: int| 0 <= j < n - 1 && (#[trigger] frags[j]).index == x);
        assert(!prev.contains(frags[n - 1].index as int));
        assert(s =~= prev.insert(frags[n - 1].index as int));
    }
}

/// Feeding fragments with pairwise distinct, recognized indices into slots
/// whose corresponding positions are empty fills exactly those positions with
/// the fragments' values and leaves every other position unchanged.
proof fn lemma_fill(slots: Seq<Option<TimeCodeValue>>, frags: Seq<QuarterFrame>)
    requires
        slots.len() == 8,
        forall|i: int| 0 <= i < frags.len() ==> (#[trigger] frags[i]).index < 8,
        forall|i: int, j: int| 0 <= i < j < frags.len() ==> frags[i].index != frags[j].index,
        forall|i: int| 0 <= i < frags.len() ==> slots[(#[trigger] frags[i]).index as int] is None,
    ensures
        spec_add_all(slots, frags).len() == 8,
        forall|j: int| 0 <= j < frags.len()
            ==> spec_add_all(slots, frags)[(#[trigger] frags[j]).index as int] == Some(frags[j].value),
        forall|k: int| 0 <= k < 8 && !(exists|j: int| 0 <= j < frags.len() && (#[trigger] frags[j]).index == k)
            ==> spec_add_all(slots, frags)[k] == slots[k],
    decreases frags.len(),
{
    if frags.len() > 0 {
        let first = frags[0];
        let s1 = spec_add(slots, first);
        let rest = frags.drop_first();
        assert(s1[first.index as int] == Some(first.value));
        assert(forall|i: int| 0 <= i < rest.len() ==> rest[i] == frags[i + 1]);
        lemma_fill(s1, rest);
        let result = spec_add_all(slots, frags);
        assert(result == spec_add_all(s1, rest));
        // The first fragment's slot is untouched by the rest, whose indices
        // all differ from it.
        assert(!(exists|j: int| 0 <= j < rest.len() && (#[trigger] rest[j]).index == first.index as int));
        assert(result[first.index as int] == Some(first.value));
        assert forall|j: int| 0 <= j < frags.len() implies result[(#[trigger] frags[j]).index as int] == Some(frags[j].value) by {
            if j > 0 {
                assert(frags[j] == rest[j - 1]);
            }
        }
        assert forall|k: int| 0 <= k < 8 && !(exists|j: int| 0 <= j < frags.len() && (#[trigger] frags[j]).index == k)
            implies result[k] == slots[k] by {
            if exists|j: int| 0 <= j < rest.len() && (#[trigger] rest[j]).index == k {
                let j = choose|j: int| 0 <= j < rest.len() && (#[trigger] rest[j]).index == k;
                assert(frags[j + 1].index == k);
                assert(false);
            }
            if first.index as int == k {
                assert(frags[0].index == k);
                assert(false);
            }
            assert(s1[k] == slots[k]);
        }
    }
}

/// Law: while a fragment kind is missing, its slot stays empty and the buffer
/// never completes: feeding any number of fragments none of which has index
/// `k` leaves slot `k` empty.
pub proof fn lemma_missing_kind_never_completes(slots: Seq<Option<TimeCodeValue>>, frags: Seq<QuarterFrame>, k: int)
    requires
        slots.len() == 8,
        0 <= k < 8,
        slots[k] is None,
        forall|i: int| 0 <= i < frags.len() ==> (#[trigger] frags[i]).index != k,
    ensures
        spec_add_all(slots, frags)[k] is None,
        !spec_all_filled(spec_add_all(slots, frags)),
    decreases frags.len(),
{
    if frags.len() > 0 {
        lemma_missing_kind_never_completes(spec_add(slots, frags[0]), frags.drop_first(), k);
    }
}

} // verus!
