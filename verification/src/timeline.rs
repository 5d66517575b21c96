//! The animation timeline: frames keyed by the offset at which their display
//! window ends, and the lookup of the frame that is active at an offset.

use crate::error::CursorError;
use vstd::prelude::*;

verus! {

/// One decoded frame once its pixels are resident: how long it is shown, in
/// milliseconds, and the texture that shows it.
pub struct TimedTexture<T> {
    pub delay: u32,
    pub texture: T,
}

/// One step of the timeline: `texture` is shown up to the offset `key`.
pub struct TimelineEntry<T> {
    pub key: u64,
    pub texture: T,
}

/// The sum of the delays of `frames`.
pub open spec fn total_delay<T>(frames: Seq<TimedTexture<T>>) -> int
    decreases frames.len(),
{
    if frames.len() == 0 {
        0
    } else {
        total_delay(frames.drop_last()) + frames.last().delay
    }
}

/// The timeline that `frames` build, in key order. Each frame is entered at
/// the sum of the delays up to and including its own. A frame with delay 0
/// that is not the first has the key of the frame before it and takes its
/// place, as an insertion into an ordered map does.
pub open spec fn timeline_of<T>(frames: Seq<TimedTexture<T>>) -> Seq<TimelineEntry<T>>
    decreases frames.len(),
{
    if frames.len() == 0 {
        Seq::empty()
    } else {
        let before = timeline_of(frames.drop_last());
        let entry = TimelineEntry {
            key: total_delay(frames) as u64,
            texture: frames.last().texture,
        };
        if before.len() > 0 && frames.last().delay == 0 {
            before.drop_last().push(entry)
        } else {
            before.push(entry)
        }
    }
}

/// Every key is smaller than the one after it.
pub open spec fn strictly_increasing<T>(entries: Seq<TimelineEntry<T>>) -> bool {
    forall|i: int, j: int| 0 <= i < j < entries.len() ==> entries[i].key < entries[j].key
}

/// The index of the first entry whose key is at or after `offset`; the length
/// where there is none. With strictly increasing keys that entry has the
/// smallest key at or after `offset`.
pub open spec fn first_at_or_after<T>(entries: Seq<TimelineEntry<T>>, offset: u64) -> int
    decreases entries.len(),
{
    if entries.len() == 0 {
        0
    } else if entries[0].key >= offset {
        0
    } else {
        1 + first_at_or_after(entries.skip(1), offset)
    }
}

/// A timeline of at least one frame: an ordered mapping from cumulative
/// delay to the texture shown up to that offset.
pub struct AnimationTimeline<T> {
    entries: Vec<TimelineEntry<T>>,
    total_duration: u64,
}

impl<T> AnimationTimeline<T> {
    /// The entries in key order.
    pub closed spec fn view(&self) -> Seq<TimelineEntry<T>> {
        self.entries@
    }

    /// The length of one run of the animation, in milliseconds: the largest key.
    pub closed spec fn spec_total_duration(&self) -> u64 {
        self.total_duration
    }

    /// What holds of every timeline: it has an entry, its keys strictly
    /// increase, and its total duration is its largest key.
    #[verifier::type_invariant]
    pub open spec fn wf(&self) -> bool {
        &&& self@.len() > 0
        &&& strictly_increasing(self@)
        &&& self.spec_total_duration() == self@.last().key
    }

    /// The texture that is active at `offset`: the one at the smallest key at
    /// or after `offset`, or none where every key lies before `offset`.
    pub open spec fn selected(&self, offset: u64) -> Option<&T> {
        let at = first_at_or_after(self@, offset);
        if at < self@.len() {
            Some(&self@[at].texture)
        } else {
            None
        }
    }

    /// Builds the timeline of `frames`, taken in order. An empty sequence is
    /// a decode error.
    pub fn build(frames: Vec<TimedTexture<T>>) -> (built: Result<Self, CursorError>)
        requires
            total_delay(frames@) <= u64::MAX,
        ensures
            built is Err <==> frames@.len() == 0,
            built matches Err(e) ==> e == CursorError::ParseError,
            built matches Ok(timeline) ==> {
                &&& timeline.wf()
                &&& timeline@ == timeline_of(frames@)
                &&& timeline.total_duration() == total_delay(frames@)
            },
    {
        let ghost all = frames@;
        let mut entries: Vec<TimelineEntry<T>> = Vec::new();
        let mut total: u64 = 0;
        for frame in it: frames
            invariant
                it.seq() == all,
                total_delay(all) <= u64::MAX,
                total == total_delay(all.take(it.index() as int)),
                entries@ == timeline_of(all.take(it.index() as int)),
                strictly_increasing(entries@),
                entries@.len() > 0 ==> entries@.last().key == total,
                entries@.len() == 0 <==> it.index() == 0,
        {
            let ghost done = all.take(it.index() as int);
            let ghost next = all.take(it.index() as int + 1);
            proof {
                assert(next.drop_last() == done);
                assert(next.last() == frame);
                lemma_total_delay_prefix(all, it.index() as int + 1);
            }
            total = total + frame.delay as u64;
            if frame.delay == 0 && entries.len() > 0 {
                entries.pop();
            }
            entries.push(TimelineEntry { key: total, texture: frame.texture });
        }
        proof {
            assert(all.take(all.len() as int) == all);
        }
        if entries.len() == 0 {
            Err(CursorError::ParseError)
        } else {
            Ok(AnimationTimeline { entries, total_duration: total })
        }
    }

    /// The texture that is active at `offset`, found by bisection.
    pub fn select(&self, offset: u64) -> (active: Option<&T>)
        ensures
            active == self.selected(offset),
    {
        proof {
            use_type_invariant(self);
        }
        let mut lo: usize = 0;
        let mut hi: usize = self.entries.len();
        while lo < hi
            invariant
                0 <= lo <= hi <= self.entries@.len(),
                strictly_increasing(self.entries@),
                forall|j: int| 0 <= j < lo ==> self.entries@[j].key < offset,
                forall|j: int| hi <= j < self.entries@.len() ==> self.entries@[j].key >= offset,
            decreases hi - lo,
        {
            let mid: usize = lo + (hi - lo) / 2;
            if self.entries[mid].key < offset {
                lo = mid + 1;
            } else {
                hi = mid;
            }
        }
        proof {
            lemma_first_at_or_after(self.entries@, offset, lo as int);
        }
        if lo < self.entries.len() {
            Some(&self.entries[lo].texture)
        } else {
            None
        }
    }

    /// The length of one run of the animation, in milliseconds.
    #[verifier::when_used_as_spec(spec_total_duration)]
    pub fn total_duration(&self) -> (duration: u64)
        ensures
            duration == self.spec_total_duration(),
    {
        self.total_duration
    }

    /// The keys, in order.
    pub fn keys(&self) -> (keys: Vec<u64>)
        ensures
            keys@.len() == self@.len(),
            forall|i: int| 0 <= i < self@.len() ==> keys@[i] == self@[i].key,
    {
        let mut keys: Vec<u64> = Vec::new();
        let mut i: usize = 0;
        while i < self.entries.len()
            invariant
                0 <= i <= self.entries@.len(),
                keys@.len() == i,
                forall|j: int| 0 <= j < i ==> keys@[j] == self.entries@[j].key,
            decreases self.entries@.len() - i,
        {
            keys.push(self.entries[i].key);
            i = i + 1;
        }
        keys
    }
}

/// Whatever the delays, the keys of the built timeline strictly increase,
/// its largest key is the sum of all delays, and it is empty only for no
/// frames. No frame adds more than one entry.
pub proof fn lemma_timeline_of_ordered<T>(frames: Seq<TimedTexture<T>>)
    requires
        total_delay(frames) <= u64::MAX,
    ensures
        strictly_increasing(timeline_of(frames)),
        timeline_of(frames).len() <= frames.len(),
        timeline_of(frames).len() == 0 <==> frames.len() == 0,
        frames.len() > 0 ==> timeline_of(frames).last().key == total_delay(frames),
    decreases frames.len(),
{
    if frames.len() > 0 {
        lemma_total_delay_prefix(frames, frames.len() - 1);
        assert(frames.take(frames.len() - 1) == frames.drop_last());
        lemma_timeline_of_ordered(frames.drop_last());
    }
}

/// Where no frame but the first has delay 0, the built timeline has one
/// entry for each frame, in order: its key is the sum of the delays up to
/// and including that frame's, and its texture is that frame's.
pub proof fn lemma_keys_are_cumulative_delays<T>(frames: Seq<TimedTexture<T>>)
    requires
        total_delay(frames) <= u64::MAX,
        forall|i: int| 1 <= i < frames.len() ==> frames[i].delay > 0,
    ensures
        timeline_of(frames).len() == frames.len(),
        forall|i: int|
            0 <= i < frames.len() ==> {
                &&& (#[trigger] timeline_of(frames)[i]).key == total_delay(frames.take(i + 1))
                &&& timeline_of(frames)[i].texture == frames[i].texture
            },
    decreases frames.len(),
{
    if frames.len() > 0 {
        let before = frames.drop_last();
        lemma_total_delay_prefix(frames, frames.len() - 1);
        assert(frames.take(frames.len() - 1) == before);
        lemma_keys_are_cumulative_delays(before);
        lemma_timeline_of_ordered(before);
        assert forall|i: int| 0 <= i < frames.len() implies {
            &&& (#[trigger] timeline_of(frames)[i]).key == total_delay(frames.take(i + 1))
            &&& timeline_of(frames)[i].texture == frames[i].texture
        } by {
            if i < frames.len() - 1 {
                assert(timeline_of(frames)[i] == timeline_of(before)[i]);
                assert(before.take(i + 1) == frames.take(i + 1));
            } else {
                assert(frames.take(i + 1) == frames);
            }
        }
    }
}

/// A single frame builds a timeline of one entry, keyed at that frame's
/// delay: at 0 for a still image.
pub proof fn lemma_single_frame_timeline<T>(frames: Seq<TimedTexture<T>>)
    requires
        frames.len() == 1,
    ensures
        timeline_of(frames) == seq![
            TimelineEntry { key: frames[0].delay as u64, texture: frames[0].texture },
        ],
{
    assert(frames.drop_last().len() == 0);
    assert(total_delay(frames.drop_last()) == 0);
    assert(timeline_of(frames.drop_last()).len() == 0);
    assert(timeline_of(frames) =~= seq![
        TimelineEntry { key: frames[0].delay as u64, texture: frames[0].texture },
    ]);
}

/// A timeline of more than one entry takes time: its total duration is not 0.
pub proof fn lemma_longer_timeline_takes_time<T>(timeline: AnimationTimeline<T>)
    requires
        timeline.wf(),
        timeline@.len() > 1,
    ensures
        timeline.total_duration() > 0,
{
    assert(timeline@[0].key < timeline@[timeline@.len() - 1].key);
}

/// The selection depends on the entries and the offset alone: timelines with
/// the same entries select the same texture at the same offset.
pub proof fn lemma_selection_is_determined<T>(
    one: AnimationTimeline<T>,
    other: AnimationTimeline<T>,
    offset: u64,
)
    requires
        one@ == other@,
    ensures
        one.selected(offset) == other.selected(offset),
{
}

/// An offset after the key before an entry, and not after the entry's own
/// key, selects that entry.
pub proof fn lemma_window_selects_entry<T>(timeline: AnimationTimeline<T>, offset: u64, at: int)
    requires
        timeline.wf(),
        0 <= at < timeline@.len(),
        at > 0 ==> timeline@[at - 1].key < offset,
        offset <= timeline@[at].key,
    ensures
        timeline.selected(offset) == Some(&timeline@[at].texture),
{
    lemma_first_at_or_after(timeline@, offset, at);
}

/// The selected entry has the smallest key at or after the offset, and
/// there is one exactly where some key is at or after the offset.
pub proof fn lemma_selected_has_smallest_key<T>(timeline: AnimationTimeline<T>, offset: u64)
    requires
        timeline.wf(),
    ensures
        ({
            let at = first_at_or_after(timeline@, offset);
            &&& 0 <= at <= timeline@.len()
            &&& at < timeline@.len() ==> timeline@[at].key >= offset
            &&& forall|j: int|
                0 <= j < timeline@.len() && timeline@[j].key >= offset ==> at <= j
                    && timeline@[at].key <= timeline@[j].key
        }),
        timeline.selected(offset) is Some <==> exists|j: int|
            0 <= j < timeline@.len() && timeline@[j].key >= offset,
{
    lemma_first_at_or_after_bounds(timeline@, offset);
    let at = first_at_or_after(timeline@, offset);
    if at < timeline@.len() {
        assert(0 <= at < timeline@.len() && timeline@[at].key >= offset);
    }
}

/// At offset 0 the first entry is selected.
pub proof fn lemma_offset_zero_selects_first<T>(timeline: AnimationTimeline<T>)
    requires
        timeline.wf(),
    ensures
        timeline.selected(0) == Some(&timeline@[0].texture),
{
}

/// One millisecond before the end of a run the last entry is selected,
/// where the run is not empty and the entry before the last ends earlier
/// than that.
pub proof fn lemma_last_offset_selects_last<T>(timeline: AnimationTimeline<T>)
    requires
        timeline.wf(),
        timeline.total_duration() >= 1,
        timeline@.len() >= 2 ==> timeline@[timeline@.len() - 2].key < timeline.total_duration()
            - 1,
    ensures
        timeline.selected((timeline.total_duration() - 1) as u64) == Some(
            &timeline@.last().texture,
        ),
{
    lemma_window_selects_entry(
        timeline,
        (timeline.total_duration() - 1) as u64,
        timeline@.len() - 1,
    );
}

/// No entry is selected exactly where the offset lies after the end of a
/// run; at the end itself the last entry is selected.
pub proof fn lemma_miss_is_past_the_end<T>(timeline: AnimationTimeline<T>, offset: u64)
    requires
        timeline.wf(),
    ensures
        timeline.selected(offset) is None <==> offset > timeline.total_duration(),
        offset == timeline.total_duration() ==> timeline.selected(offset) == Some(
            &timeline@.last().texture,
        ),
{
    lemma_selected_has_smallest_key(timeline, offset);
    if offset == timeline.total_duration() {
        lemma_window_selects_entry(timeline, offset, timeline@.len() - 1);
    }
    if offset <= timeline.total_duration() {
        assert(timeline@[timeline@.len() - 1].key >= offset);
    }
}

/// An index is the first at or after `offset` when every entry before it lies
/// before `offset` and its own key, if it has one, does not.
pub proof fn lemma_first_at_or_after<T>(entries: Seq<TimelineEntry<T>>, offset: u64, at: int)
    requires
        0 <= at <= entries.len(),
        forall|j: int| 0 <= j < at ==> entries[j].key < offset,
        at < entries.len() ==> entries[at].key >= offset,
    ensures
        first_at_or_after(entries, offset) == at,
    decreases entries.len(),
{
    if entries.len() > 0 && at > 0 {
        let rest = entries.skip(1);
        assert forall|j: int| 0 <= j < at - 1 implies rest[j].key < offset by {
            assert(rest[j] == entries[j + 1]);
        }
        lemma_first_at_or_after(rest, offset, at - 1);
    }
}

/// The first index at or after an offset lies within the sequence or at its
/// end; the entries before it lie before the offset, and its own does not.
pub proof fn lemma_first_at_or_after_bounds<T>(entries: Seq<TimelineEntry<T>>, offset: u64)
    ensures
        0 <= first_at_or_after(entries, offset) <= entries.len(),
        forall|j: int| 0 <= j < first_at_or_after(entries, offset) ==> entries[j].key < offset,
        first_at_or_after(entries, offset) < entries.len() ==> entries[first_at_or_after(
            entries,
            offset,
        )].key >= offset,
    decreases entries.len(),
{
    if entries.len() > 0 && entries[0].key < offset {
        let rest = entries.skip(1);
        lemma_first_at_or_after_bounds(rest, offset);
        assert forall|j: int| 0 <= j < first_at_or_after(entries, offset) implies entries[j].key
            < offset by {
            if j > 0 {
                assert(rest[j - 1] == entries[j]);
            }
        }
    }
}

/// The delays of a prefix sum to no more than those of the whole.
pub proof fn lemma_total_delay_prefix<T>(frames: Seq<TimedTexture<T>>, n: int)
    requires
        0 <= n <= frames.len(),
    ensures
        0 <= total_delay(frames.take(n)) <= total_delay(frames),
    decreases frames.len() - n,
{
    if n == frames.len() {
        assert(frames.take(n) == frames);
        lemma_total_delay_nonnegative(frames);
    } else {
        lemma_total_delay_prefix(frames, n + 1);
        assert(frames.take(n + 1).drop_last() == frames.take(n));
        lemma_total_delay_nonnegative(frames.take(n));
    }
}

/// A sum of delays is not negative.
pub proof fn lemma_total_delay_nonnegative<T>(frames: Seq<TimedTexture<T>>)
    ensures
        0 <= total_delay(frames),
    decreases frames.len(),
{
    if frames.len() > 0 {
        lemma_total_delay_nonnegative(frames.drop_last());
    }
}

} // verus!
