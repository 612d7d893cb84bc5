//! The sample-buffer synthesizer's verified half: replaying a decoded
//! file into a render plan of sample ranges and active-note sets.
//!
//! Producing audible samples means evaluating a waveform at fractional
//! times, which is floating-point work for the embedding application.
//! Everything before that point is exact integer arithmetic and is
//! computed here: the buffer length, and for every track a list of
//! segments, each covering the sample range between two events and
//! carrying the notes active on every channel during that range. A
//! consumer fills each segment of each channel with the mean of the
//! waveform values of its active notes, and silence where none are.

use crate::decode::{file_wf, FileView, MIDIFileData, MIDITrack};
use crate::events::{ChannelEventKind, EventKindView, EventView, MIDIEvent, MIDIEventKind, MetaEvent, MetaEventView};
use crate::metadata::{
    spec_prefix_max_duration,
    spec_track_channels,
    spec_track_duration,
    MidiMetadata,
    MidiTrackMetadata,
    TrackMetaView,
};
use crate::timing::{spec_tick_nanos, Tempo, TimeDivision, TimeSpan};
use vstd::arithmetic::div_mod::lemma_div_is_ordered;
use vstd::arithmetic::mul::{lemma_mul_nonnegative, lemma_mul_upper_bound};
use vstd::prelude::*;

verus! {

/// A note number 0-127; maps deterministically to a frequency via equal
/// temperament. A value type with no identity.
#[derive(Clone, Copy, Debug, PartialEq, Eq, Hash, Structural)]
pub struct MidiNote {
    pub note: u8,
}

impl MidiNote {
    pub fn new(note: u8) -> (r: Self)
        ensures
            r.note == note,
    {
        Self { note }
    }
}

/// The smaller of two integers.
pub open spec fn spec_min(a: int, b: int) -> int {
    if a <= b {
        a
    } else {
        b
    }
}

/// The first position of `x` in `s`, or -1 when absent.
pub open spec fn first_index(s: Seq<u8>, x: u8) -> int
    decreases s.len(),
{
    if s.len() == 0 {
        -1
    } else if s[0] == x {
        0
    } else {
        let r = first_index(s.drop_first(), x);
        if r < 0 {
            -1
        } else {
            r + 1
        }
    }
}

/// `first_index` finds the first occurrence exactly when the element is
/// present.
pub proof fn lemma_first_index_props(s: Seq<u8>, x: u8)
    ensures
        s.contains(x) ==> 0 <= first_index(s, x) < s.len() && s[first_index(s, x)] == x && forall|
            j: int,
        | 0 <= j < first_index(s, x) ==> s[j] != x,
        !s.contains(x) ==> first_index(s, x) == -1,
    decreases s.len(),
{
    if s.len() > 0 && s[0] != x {
        let df = s.drop_first();
        lemma_first_index_props(df, x);
        assert(forall|j: int| 0 <= j < df.len() ==> df[j] == s[j + 1]);
        if df.contains(x) {
            let r = first_index(df, x);
            assert(df[r] == x);
            assert(s.contains(x)) by {
                assert(s[r + 1] == x);
            }
            assert forall|j: int| 0 <= j < r + 1 implies s[j] != x by {
                if j > 0 {
                    assert(df[j - 1] == s[j]);
                    assert(df[j - 1] != x);
                }
            }
        } else {
            if s.contains(x) {
                let w = choose|w: int| 0 <= w < s.len() && s[w] == x;
                if w == 0 {
                    assert(false);
                } else {
                    assert(df[w - 1] == x);
                    assert(false);
                }
            }
        }
    }
}

/// A note list grows only when a note is first pressed.
pub open spec fn insert_note(s: Seq<u8>, n: u8) -> Seq<u8> {
    if s.contains(n) {
        s
    } else {
        s.push(n)
    }
}

/// Releasing a note removes its entry; releasing an inactive note
/// changes nothing.
pub open spec fn remove_note(s: Seq<u8>, n: u8) -> Seq<u8> {
    let i = first_index(s, n);
    if i >= 0 {
        s.remove(i)
    } else {
        s
    }
}

/// One empty note list per channel.
pub open spec fn empty_active(n: nat) -> Seq<Seq<u8>> {
    Seq::new(n, |i: int| Seq::<u8>::empty())
}

/// The views of a list of per-channel note lists.
pub open spec fn seqs_of(v: Seq<Vec<u8>>) -> Seq<Seq<u8>> {
    Seq::new(v.len(), |i: int| v[i]@)
}

/// Samples covered by an event's delta time: its tick count times the
/// samples-per-tick ratio, rounded to the nearest whole sample.
pub open spec fn spec_delta_samples(delta: u32, tick: int, rate: int) -> int {
    (delta * rate * tick + 500000000) / 1000000000
}

/// The length of every sample buffer: the total duration times the
/// sample rate, rounded upward.
pub open spec fn spec_buffer_length(rate: int, total_nanos: int) -> int {
    (rate * total_nanos + 999999999) / 1000000000
}

/// The mathematical value of one render segment: the sample range
/// between two events, and the notes active on each channel throughout
/// that range.
pub struct SegView {
    pub start: int,
    pub end: int,
    pub active: Seq<Seq<u8>>,
}

/// The sample range between two consecutive events, with the notes
/// active on every channel (by dense channel index) during that range.
pub struct Segment {
    pub start: usize,
    pub end: usize,
    pub active: Vec<Vec<u8>>,
}

impl View for Segment {
    type V = SegView;

    open spec fn view(&self) -> SegView {
        SegView { start: self.start as int, end: self.end as int, active: seqs_of(self.active@) }
    }
}

/// The views of a segment list.
pub open spec fn seg_views(s: Seq<Segment>) -> Seq<SegView> {
    Seq::new(s.len(), |i: int| s[i]@)
}

/// The segment scan from event `i` onward: each event contributes the
/// segment between the sample cursor and the cursor advanced by its
/// delta time (clamped to the buffer length), then updates the state.
/// NoteOn and NoteOff maintain the per-channel active-note lists,
/// SetTempo changes the samples-per-tick ratio for subsequent deltas,
/// and EndOfTrack ends the scan after its own segment. A channel with
/// no slot in the channel index leaves the lists unchanged; the index
/// built by the metadata pass has a slot for every channel that
/// appears before EndOfTrack, so on a decoded track this case is never
/// taken.
pub open spec fn spec_segment_scan(
    events: Seq<EventView>,
    i: int,
    cursor: int,
    tick: int,
    active: Seq<Seq<u8>>,
    rate: int,
    bl: int,
    td: TimeDivision,
    chans: Seq<u8>,
) -> Seq<SegView>
    decreases events.len() - i,
{
    if i < 0 || i >= events.len() {
        Seq::empty()
    } else {
        let e = events[i];
        let cursor2 = spec_min(cursor + spec_delta_samples(e.delta_time, tick, rate), bl);
        let seg = SegView { start: cursor, end: cursor2, active };
        match e.kind {
            EventKindView::Channel(ce) => {
                let slot = first_index(chans, ce.channel);
                let active2 = if slot < 0 {
                    active
                } else {
                    match ce.kind {
                        ChannelEventKind::NoteOn { note, .. } => active.update(
                            slot,
                            insert_note(active[slot], note),
                        ),
                        ChannelEventKind::NoteOff { note, .. } => active.update(
                            slot,
                            remove_note(active[slot], note),
                        ),
                        _ => active,
                    }
                };
                seq![seg] + spec_segment_scan(
                    events,
                    i + 1,
                    cursor2,
                    tick,
                    active2,
                    rate,
                    bl,
                    td,
                    chans,
                )
            },
            EventKindView::Meta(m) => match m {
                MetaEventView::EndOfTrack => seq![seg],
                MetaEventView::SetTempo { tempo } => seq![seg] + spec_segment_scan(
                    events,
                    i + 1,
                    cursor2,
                    spec_tick_nanos(td, tempo),
                    active,
                    rate,
                    bl,
                    td,
                    chans,
                ),
                _ => seq![seg] + spec_segment_scan(
                    events,
                    i + 1,
                    cursor2,
                    tick,
                    active,
                    rate,
                    bl,
                    td,
                    chans,
                ),
            },
        }
    }
}

/// The whole plan of one track: its channel numbers by dense index, and
/// its segments in event order.
pub struct TrackPlan {
    pub channels: Vec<u8>,
    pub segments: Vec<Segment>,
}

/// Whether a track plan is exactly the segment scan of track `t` of the
/// file, for the given sample rate and buffer length.
pub open spec fn track_plan_matches(tp: TrackPlan, f: FileView, t: int, rate: int, bl: int) -> bool {
    let evs = f.tracks[t];
    let chans = spec_track_channels(evs, f.time_division);
    &&& tp.channels@ == chans
    &&& seg_views(tp.segments@) == spec_segment_scan(
        evs,
        0,
        0,
        spec_tick_nanos(f.time_division, Tempo { mpqn: 500000 }),
        empty_active(chans.len()),
        rate,
        bl,
        f.time_division,
        chans,
    )
}

/// A precomputed render plan: the common buffer length and one plan per
/// track. Buffers are owned by the caller; nothing aliases decoder
/// state.
pub struct RenderPlan {
    pub buffer_length: usize,
    pub tracks: Vec<TrackPlan>,
}

/// The composite duration of the first `i` tracks of a file: the
/// maximum of their durations.
pub open spec fn spec_file_prefix_duration(f: FileView, i: int) -> int
    decreases i,
{
    if i <= 0 {
        0
    } else {
        let rest = spec_file_prefix_duration(f, i - 1);
        let d = spec_track_duration(f.tracks[i - 1], f.time_division);
        if d >= rest {
            d
        } else {
            rest
        }
    }
}

/// The composite duration of a whole file: the maximum of the per-track
/// durations, zero for a file without tracks.
pub open spec fn spec_file_duration(f: FileView) -> int {
    spec_file_prefix_duration(f, f.tracks.len() as int)
}

/// When every track's metadata records that track's scan duration, the
/// metadata maximum is the file duration.
proof fn lemma_prefix_max_equiv(meta: Seq<TrackMetaView>, f: FileView, i: int)
    requires
        i <= meta.len() == f.tracks.len(),
        forall|j: int| 0 <= j < meta.len() ==> (#[trigger] meta[j]).duration == spec_track_duration(
            f.tracks[j],
            f.time_division,
        ),
    ensures
        spec_prefix_max_duration(meta, i) == spec_file_prefix_duration(f, i),
    decreases i,
{
    if i > 0 {
        lemma_prefix_max_equiv(meta, f, i - 1);
    }
}

/// Copy a byte list.
fn copy_bytes(v: &Vec<u8>) -> (r: Vec<u8>)
    ensures
        r@ == v@,
{
    let mut r: Vec<u8> = Vec::new();
    let mut k: usize = 0;
    while k < v.len()
        invariant
            k <= v@.len(),
            r@ == v@.subrange(0, k as int),
        decreases v@.len() - k,
    {
        r.push(v[k]);
        proof {
            assert(r@ =~= v@.subrange(0, k + 1));
        }
        k = k + 1;
    }
    proof {
        assert(v@.subrange(0, v@.len() as int) =~= v@);
    }
    r
}

/// Copy the per-channel note lists.
fn copy_active(v: &Vec<Vec<u8>>) -> (r: Vec<Vec<u8>>)
    ensures
        seqs_of(r@) == seqs_of(v@),
        r@.len() == v@.len(),
{
    let mut r: Vec<Vec<u8>> = Vec::new();
    let mut k: usize = 0;
    while k < v.len()
        invariant
            k <= v@.len(),
            r@.len() == k,
            forall|j: int| 0 <= j < k ==> (#[trigger] r@[j])@ == v@[j]@,
        decreases v@.len() - k,
    {
        r.push(copy_bytes(&v[k]));
        k = k + 1;
    }
    proof {
        assert(seqs_of(r@) =~= seqs_of(v@));
    }
    r
}

/// The first position of `x` in `v`, if present.
#[verifier::loop_isolation(false)]
fn find_index(v: &Vec<u8>, x: u8) -> (r: Option<usize>)
    ensures
        ({
            let fi = first_index(v@, x);
            match r {
                Some(k) => k as int == fi && 0 <= fi < v@.len() && v@[fi] == x,
                None => fi == -1 && !v@.contains(x),
            }
        }),
{
    proof {
        lemma_first_index_props(v@, x);
    }
    let mut k: usize = 0;
    while k < v.len()
        invariant
            k <= v@.len(),
            forall|j: int| 0 <= j < k ==> v@[j] != x,
        decreases v@.len() - k,
    {
        if v[k] == x {
            proof {
                assert(v@.contains(x)) by {
                    assert(v@[k as int] == x);
                }
                let fi = first_index(v@, x);
                if (k as int) < fi {
                    assert(v@[k as int] != x);
                }
                if fi < (k as int) {
                    assert(v@[fi] != x);
                }
            }
            return Some(k);
        }
        k = k + 1;
    }
    proof {
        if v@.contains(x) {
            let w = choose|w: int| 0 <= w < v@.len() && v@[w] == x;
            assert(false);
        }
    }
    None
}

/// The sample-buffer synthesizer: a decoded file together with its
/// metadata, ready to produce render plans.
pub struct MidiSynth {
    data: MIDIFileData,
    meta: MidiMetadata,
}

impl MidiSynth {
    /// The decoded file this synthesizer replays.
    pub closed spec fn spec_data(&self) -> FileView {
        self.data@
    }

    /// The held metadata describes exactly the held file.
    pub closed spec fn wf(&self) -> bool {
        &&& file_wf(self.data@)
        &&& self.data@.time_division.has_positive_rate()
        &&& self.meta@.len() == self.data@.tracks.len()
        &&& forall|i: int| 0 <= i < self.meta@.len() ==> (#[trigger] self.meta@[i]).duration
            == spec_track_duration(self.data@.tracks[i], self.data@.time_division)
            && self.meta@[i].channels == spec_track_channels(
            self.data@.tracks[i],
            self.data@.time_division,
        )
    }

    /// What well-formedness guarantees about the held file, for use
    /// outside this module.
    pub proof fn wf_properties(&self)
        requires
            self.wf(),
        ensures
            file_wf(self.spec_data()),
            self.spec_data().time_division.has_positive_rate(),
    {
    }

    pub fn new(data: MIDIFileData) -> (r: Self)
        requires
            file_wf(data@),
            data@.time_division.has_positive_rate(),
        ensures
            r.wf(),
            r.spec_data() == data@,
    {
        Self { meta: MidiMetadata::new(&data), data }
    }

    /// The decoded file model.
    pub fn data(&self) -> (r: &MIDIFileData)
        ensures
            r@ == self.spec_data(),
    {
        &self.data
    }

    /// The composite duration of the piece.
    pub fn total_duration(&self) -> (r: TimeSpan)
        requires
            self.wf(),
        ensures
            r.nanos == spec_file_duration(self.spec_data()),
    {
        let d = self.meta.total_duration();
        proof {
            lemma_prefix_max_equiv(
                self.meta@,
                self.data@,
                self.meta@.len() as int,
            );
        }
        d
    }

    /// The plan of one track: walk its events, emitting one segment per
    /// event and maintaining the active-note lists.
    #[verifier::loop_isolation(false)]
    fn plan_track(
        track: &MIDITrack,
        meta: &MidiTrackMetadata,
        td: &TimeDivision,
        sample_rate: u32,
        buffer_length: usize,
    ) -> (r: TrackPlan)
        requires
            td.has_positive_rate(),
            track@.len() <= u32::MAX,
            meta@.channels == spec_track_channels(track@, *td),
        ensures
            r.channels@ == meta@.channels,
            seg_views(r.segments@) == spec_segment_scan(
                track@,
                0,
                0,
                spec_tick_nanos(*td, Tempo { mpqn: 500000 }),
                empty_active(meta@.channels.len()),
                sample_rate as int,
                buffer_length as int,
                *td,
                meta@.channels,
            ),
    {
        let ghost evs = track@;
        let ghost chans = meta@.channels;
        let ghost rate = sample_rate as int;
        let ghost bl = buffer_length as int;
        let channels = copy_bytes(meta.channels());
        let mut active: Vec<Vec<u8>> = Vec::new();
        let mut k: usize = 0;
        while k < channels.len()
            invariant
                k <= channels@.len(),
                active@.len() == k,
                forall|j: int| 0 <= j < k ==> (#[trigger] active@[j])@ == Seq::<u8>::empty(),
            decreases channels@.len() - k,
        {
            active.push(Vec::new());
            k = k + 1;
        }
        proof {
            assert(seqs_of(active@) =~= empty_active(chans.len()));
        }
        let mut segments: Vec<Segment> = Vec::new();
        let mut cursor: usize = 0;
        let mut tick: TimeSpan = td.tick_duration(Tempo::default());
        let ghost tick0 = tick.nanos as int;
        let events = track.events();
        let mut idx: usize = 0;
        while idx < events.len()
            invariant
                idx <= evs.len(),
                events@.len() == evs.len(),
                cursor <= buffer_length,
                tick.nanos <= 0x400_0000_0000,
                active@.len() == chans.len(),
                channels@ == chans,
                seg_views(segments@) + spec_segment_scan(
                    evs,
                    idx as int,
                    cursor as int,
                    tick.nanos as int,
                    seqs_of(active@),
                    rate,
                    bl,
                    *td,
                    chans,
                ) == spec_segment_scan(
                    evs,
                    0,
                    0,
                    tick0,
                    empty_active(chans.len()),
                    rate,
                    bl,
                    *td,
                    chans,
                ),
            decreases evs.len() - idx,
        {
            let ghost segs0 = segments@;
            let ghost active0 = seqs_of(active@);
            let event = &events[idx];
            let delta = event.delta_time();
            proof {
                lemma_mul_upper_bound(delta as int, 0xFFFFFFFF, rate, 0xFFFFFFFF);
                lemma_mul_upper_bound(delta as int * rate, 0xFFFFFFFFFFFFFFFF, tick.nanos as int, 0x400_0000_0000);
                lemma_mul_nonnegative(delta as int, rate);
                lemma_mul_nonnegative(delta as int * rate, tick.nanos as int);
            }
            let ds: u128 = ((delta as u128) * (sample_rate as u128) * tick.nanos + 500000000)
                / 1000000000;
            let target: u128 = cursor as u128 + ds;
            let end: usize = if target >= buffer_length as u128 {
                buffer_length
            } else {
                target as usize
            };
            segments.push(Segment { start: cursor, end, active: copy_active(&active) });
            proof {
                assert(seg_views(segments@) =~= seg_views(segs0) + seq![
                    SegView { start: cursor as int, end: end as int, active: active0 },
                ]);
            }
            cursor = end;
            match event.kind() {
                MIDIEventKind::Channel(channel_event) => {
                    let ch = channel_event.channel();
                    if let Some(slot) = find_index(&channels, ch) {
                        match channel_event.kind() {
                            ChannelEventKind::NoteOn { note, .. } => {
                                let mut inner = copy_bytes(&active[slot]);
                                if find_index(&inner, *note).is_none() {
                                    inner.push(*note);
                                }
                                let ghost inner_view = inner@;
                                active[slot] = inner;
                                proof {
                                    assert(inner_view == insert_note(active0[slot as int], *note));
                                    assert(seqs_of(active@) =~= active0.update(
                                        slot as int,
                                        insert_note(active0[slot as int], *note),
                                    ));
                                }
                            },
                            ChannelEventKind::NoteOff { note, .. } => {
                                let mut inner = copy_bytes(&active[slot]);
                                if let Some(j) = find_index(&inner, *note) {
                                    inner.remove(j);
                                }
                                let ghost inner_view = inner@;
                                active[slot] = inner;
                                proof {
                                    assert(inner_view == remove_note(active0[slot as int], *note));
                                    assert(seqs_of(active@) =~= active0.update(
                                        slot as int,
                                        remove_note(active0[slot as int], *note),
                                    ));
                                }
                            },
                            _ => {
                                proof {
                                    assert(seqs_of(active@) =~= active0);
                                }
                            },
                        }
                    } else {
                        proof {
                            assert(seqs_of(active@) =~= active0);
                        }
                    }
                },
                MIDIEventKind::Meta(MetaEvent::EndOfTrack) => {
                    proof {
                        assert(seqs_of(active@) =~= active0);
                        assert(evs[idx as int].kind matches EventKindView::Meta(m) && m
                            is EndOfTrack);
                    }
                    return TrackPlan { channels, segments };
                },
                MIDIEventKind::Meta(MetaEvent::SetTempo { tempo }) => {
                    tick = td.tick_duration(*tempo);
                    proof {
                        assert(seqs_of(active@) =~= active0);
                    }
                },
                MIDIEventKind::Meta(_) => {
                    proof {
                        assert(seqs_of(active@) =~= active0);
                    }
                },
            }
            idx = idx + 1;
        }
        proof {
            assert(seg_views(segments@) + Seq::<SegView>::empty() =~= seg_views(segments@));
        }
        TrackPlan { channels, segments }
    }

    /// Produce the render plan for a sample rate: the buffer length
    /// from the total duration, and one segment plan per track.
    #[verifier::loop_isolation(false)]
    pub fn render_plan(&self, sample_rate: u32) -> (r: RenderPlan)
        requires
            self.wf(),
            spec_buffer_length(sample_rate as int, spec_file_duration(self.spec_data()))
                <= usize::MAX,
        ensures
            r.buffer_length == spec_buffer_length(
                sample_rate as int,
                spec_file_duration(self.spec_data()),
            ),
            r.tracks@.len() == self.spec_data().tracks.len(),
            forall|t: int| 0 <= t < r.tracks@.len() ==> track_plan_matches(
                #[trigger] r.tracks@[t],
                self.spec_data(),
                t,
                sample_rate as int,
                r.buffer_length as int,
            ),
    {
        let total = self.total_duration();
        let ghost rate = sample_rate as int;
        let ghost total_n = total.nanos as int;
        proof {
            lemma_mul_nonnegative(rate, total_n);
            if rate * total_n + 999999999 >= 0x10000000000000000int * 1000000000 {
                lemma_div_is_ordered(
                    0x10000000000000000int * 1000000000,
                    rate * total_n + 999999999,
                    1000000000,
                );
                assert((0x10000000000000000int * 1000000000) / 1000000000
                    == 0x10000000000000000int) by (nonlinear_arith);
                assert(false);
            }
        }
        let product: u128 = (sample_rate as u128) * total.as_nanos();
        let buffer_length_wide: u128 = (product + 999999999) / 1000000000;
        let buffer_length: usize = buffer_length_wide as usize;
        let mut tracks: Vec<TrackPlan> = Vec::new();
        let data_tracks = self.data.tracks();
        let meta_tracks = self.meta.tracks();
        let td = self.data.time_division();
        let mut t: usize = 0;
        while t < data_tracks.len()
            invariant
                t <= self.spec_data().tracks.len(),
                tracks@.len() == t,
                forall|j: int| 0 <= j < t ==> track_plan_matches(
                    #[trigger] tracks@[j],
                    self.spec_data(),
                    j,
                    rate,
                    buffer_length as int,
                ),
            decreases self.spec_data().tracks.len() - t,
        {
            let plan = Self::plan_track(
                &data_tracks[t],
                &meta_tracks[t],
                td,
                sample_rate,
                buffer_length,
            );
            tracks.push(plan);
            t = t + 1;
        }
        RenderPlan { buffer_length, tracks }
    }
}

} // verus!
