//! Per-track metadata: the dense channel index and the accumulated
//! duration of each track, and the composite duration of the piece.
//!
//! One forward pass per track accumulates `tick duration x delta time`
//! for every event (the EndOfTrack event's delta included), keeps the
//! set of channels seen on channel events in first-appearance order,
//! and reacts to SetTempo events within the same pass. Tempo state is
//! per track: each track starts at the default tempo.

use crate::decode::{file_wf, MIDIFileData, MIDITrack};
use crate::events::{EventKindView, EventView, MIDIEvent, MIDIEventKind, MetaEvent, MetaEventView};
use crate::timing::{spec_tick_nanos, Tempo, TimeDivision, TimeSpan};
use vstd::arithmetic::mul::{lemma_mul_inequality, lemma_mul_nonnegative, lemma_mul_upper_bound};
use vstd::prelude::*;

verus! {

/// The largest value one event can add to a duration: the largest delta
/// time (32 bits) times the largest tick duration.
#[verifier::inline]
pub open spec fn max_event_nanos() -> int {
    0x3FFFFFFFC0000000000int
}

/// A channel list grows only when a channel is first seen, keeping
/// first-appearance order.
pub open spec fn insert_channel(chans: Seq<u8>, c: u8) -> Seq<u8> {
    if chans.contains(c) {
        chans
    } else {
        chans.push(c)
    }
}

/// The metadata scan from event `i` onward, carrying the current tick
/// duration, the duration and channels accumulated so far. Returns the
/// final duration (in nanoseconds) and channel list. The scan stops at
/// EndOfTrack after accounting for its delta time.
pub open spec fn spec_track_scan(
    events: Seq<EventView>,
    i: int,
    tick: int,
    dur: int,
    chans: Seq<u8>,
    td: TimeDivision,
) -> (int, Seq<u8>)
    decreases events.len() - i,
{
    if i < 0 || i >= events.len() {
        (dur, chans)
    } else {
        let e = events[i];
        let dur2 = dur + e.delta_time * tick;
        match e.kind {
            EventKindView::Channel(ce) => spec_track_scan(
                events,
                i + 1,
                tick,
                dur2,
                insert_channel(chans, ce.channel),
                td,
            ),
            EventKindView::Meta(m) => match m {
                MetaEventView::EndOfTrack => (dur2, chans),
                MetaEventView::SetTempo { tempo } => spec_track_scan(
                    events,
                    i + 1,
                    spec_tick_nanos(td, tempo),
                    dur2,
                    chans,
                    td,
                ),
                _ => spec_track_scan(events, i + 1, tick, dur2, chans, td),
            },
        }
    }
}

/// A track's accumulated duration in nanoseconds, starting from the
/// default tempo.
pub open spec fn spec_track_duration(events: Seq<EventView>, td: TimeDivision) -> int {
    spec_track_scan(events, 0, spec_tick_nanos(td, Tempo { mpqn: 500000 }), 0, Seq::empty(), td).0
}

/// A track's channels in order of first appearance.
pub open spec fn spec_track_channels(events: Seq<EventView>, td: TimeDivision) -> Seq<u8> {
    spec_track_scan(events, 0, spec_tick_nanos(td, Tempo { mpqn: 500000 }), 0, Seq::empty(), td).1
}

/// The mathematical value of one track's metadata.
pub struct TrackMetaView {
    pub channels: Seq<u8>,
    pub duration: int,
}

/// Per-track channel index and accumulated duration; derived from a
/// decoded track, never mutated in place.
#[derive(Debug)]
pub struct MidiTrackMetadata {
    channel_idx: Vec<u8>,
    duration: TimeSpan,
}

impl View for MidiTrackMetadata {
    type V = TrackMetaView;

    closed spec fn view(&self) -> TrackMetaView {
        TrackMetaView { channels: self.channel_idx@, duration: self.duration.nanos as int }
    }
}

/// Whether a channel list holds a channel.
fn contains_channel(channels: &Vec<u8>, channel: u8) -> (r: bool)
    ensures
        r == channels@.contains(channel),
{
    let mut k: usize = 0;
    while k < channels.len()
        invariant
            k <= channels@.len(),
            forall|j: int| 0 <= j < k ==> channels@[j] != channel,
        decreases channels@.len() - k,
    {
        if channels[k] == channel {
            return true;
        }
        k = k + 1;
    }
    false
}

impl MidiTrackMetadata {
    pub fn new(channel_idx: Vec<u8>, duration: TimeSpan) -> (r: Self)
        ensures
            r@.channels == channel_idx@,
            r@.duration == duration.nanos,
    {
        Self { channel_idx, duration }
    }

    /// The channel numbers of this track, indexed by their dense
    /// channel index.
    pub fn channels(&self) -> (r: &Vec<u8>)
        ensures
            r@ == self@.channels,
    {
        &self.channel_idx
    }

    /// The track's accumulated duration.
    pub fn duration(&self) -> (r: TimeSpan)
        ensures
            r.nanos == self@.duration,
    {
        self.duration
    }

    /// The dense index of a channel that is part of this track: the
    /// position of its first appearance.
    pub fn channel_index(&self, channel: u8) -> (r: usize)
        requires
            self@.channels.contains(channel),
        ensures
            0 <= r < self@.channels.len(),
            self@.channels[r as int] == channel,
            forall|j: int| 0 <= j < r ==> self@.channels[j] != channel,
    {
        let mut k: usize = 0;
        while k < self.channel_idx.len()
            invariant
                k <= self@.channels.len(),
                forall|j: int| 0 <= j < k ==> self@.channels[j] != channel,
        decreases self@.channels.len() - k,
        {
            if self.channel_idx[k] == channel {
                return k;
            }
            k = k + 1;
        }
        proof {
            assert(false);
        }
        0
    }
}

/// One forward pass over a track, computing its metadata.
#[verifier::loop_isolation(false)]
fn scan_track(track: &MIDITrack, td: &TimeDivision) -> (r: MidiTrackMetadata)
    requires
        td.has_positive_rate(),
        track@.len() <= u32::MAX,
    ensures
        r@.duration == spec_track_duration(track@, *td),
        r@.channels == spec_track_channels(track@, *td),
{
    let ghost evs = track@;
    let mut tick_duration: TimeSpan = td.tick_duration(Tempo::default());
    let mut channels: Vec<u8> = Vec::new();
    let mut duration: u128 = 0;
    let events = track.events();
    let ghost tick0 = tick_duration.nanos as int;
    let mut idx: usize = 0;
    while idx < events.len()
        invariant
            idx <= evs.len(),
            events@.len() == evs.len(),
            tick_duration.nanos <= 0x400_0000_0000,
            duration <= idx * max_event_nanos(),
            spec_track_scan(evs, idx as int, tick_duration.nanos as int, duration as int, channels@, *td)
                == spec_track_scan(evs, 0, tick0, 0, Seq::empty(), *td),
        decreases evs.len() - idx,
    {
        let event = &events[idx];
        let delta = event.delta_time();
        let ghost chans0 = channels@;
        proof {
            lemma_mul_upper_bound(delta as int, 0xFFFFFFFF, tick_duration.nanos as int, 0x400_0000_0000);
            lemma_mul_nonnegative(delta as int, tick_duration.nanos as int);
            lemma_mul_inequality(idx + 1, 0x100000001, max_event_nanos());
        }
        let step: u128 = (delta as u128) * tick_duration.nanos;
        duration = duration + step;
        match event.kind() {
            MIDIEventKind::Channel(channel_event) => {
                let ch = channel_event.channel();
                if !contains_channel(&channels, ch) {
                    channels.push(ch);
                }
                proof {
                    assert(channels@ =~= insert_channel(chans0, ch));
                }
            },
            MIDIEventKind::Meta(MetaEvent::EndOfTrack) => {
                proof {
                    assert(evs[idx as int].kind matches EventKindView::Meta(m) && m
                        is EndOfTrack);
                }
                return MidiTrackMetadata::new(channels, TimeSpan::from_nanos(duration));
            },
            MIDIEventKind::Meta(MetaEvent::SetTempo { tempo }) => {
                tick_duration = td.tick_duration(*tempo);
            },
            MIDIEventKind::Meta(_) => {},
        }
        idx = idx + 1;
    }
    MidiTrackMetadata::new(channels, TimeSpan::from_nanos(duration))
}

/// The largest duration among the first `i` tracks, 0 when there are
/// none.
pub open spec fn spec_prefix_max_duration(tracks: Seq<TrackMetaView>, i: int) -> int
    decreases i,
{
    if i <= 0 {
        0
    } else {
        let rest = spec_prefix_max_duration(tracks, i - 1);
        if tracks[i - 1].duration >= rest {
            tracks[i - 1].duration
        } else {
            rest
        }
    }
}

/// Metadata for every track of a decoded file.
#[derive(Debug)]
pub struct MidiMetadata {
    tracks: Vec<MidiTrackMetadata>,
}

impl View for MidiMetadata {
    type V = Seq<TrackMetaView>;

    closed spec fn view(&self) -> Seq<TrackMetaView> {
        Seq::new(self.tracks@.len(), |i: int| self.tracks@[i]@)
    }
}

impl MidiMetadata {
    /// Compute the metadata of every track of a decoded file.
    #[verifier::loop_isolation(false)]
    pub fn new(data: &MIDIFileData) -> (r: Self)
        requires
            file_wf(data@),
            data@.time_division.has_positive_rate(),
        ensures
            r@.len() == data@.tracks.len(),
            forall|i: int| 0 <= i < r@.len() ==> (#[trigger] r@[i]).duration
                == spec_track_duration(data@.tracks[i], data@.time_division) && r@[i].channels
                == spec_track_channels(data@.tracks[i], data@.time_division),
    {
        let mut tracks: Vec<MidiTrackMetadata> = Vec::new();
        let data_tracks = data.tracks();
        let td = data.time_division();
        let mut t: usize = 0;
        while t < data_tracks.len()
            invariant
                t <= data@.tracks.len(),
                tracks@.len() == t,
                forall|i: int| 0 <= i < t ==> (#[trigger] tracks@[i])@.duration
                    == spec_track_duration(data@.tracks[i], data@.time_division)
                    && tracks@[i]@.channels == spec_track_channels(
                    data@.tracks[i],
                    data@.time_division,
                ),
            decreases data@.tracks.len() - t,
        {
            let meta = scan_track(&data_tracks[t], td);
            tracks.push(meta);
            t = t + 1;
        }
        Self { tracks }
    }

    /// The tracks' metadata, in track order.
    pub fn tracks(&self) -> (r: &Vec<MidiTrackMetadata>)
        ensures
            r@.len() == self@.len(),
            forall|i: int| 0 <= i < r@.len() ==> (#[trigger] r@[i])@ == self@[i],
    {
        &self.tracks
    }

    /// The composite duration of the piece: the maximum of the
    /// per-track durations, zero when there are no tracks.
    pub fn total_duration(&self) -> (r: TimeSpan)
        ensures
            r.nanos == spec_prefix_max_duration(self@, self@.len() as int),
    {
        let mut best: u128 = 0;
        let mut t: usize = 0;
        while t < self.tracks.len()
            invariant
                t <= self@.len(),
                best == spec_prefix_max_duration(self@, t as int),
            decreases self@.len() - t,
        {
            let d = self.tracks[t].duration();
            if d.as_nanos() >= best {
                best = d.as_nanos();
            }
            t = t + 1;
        }
        TimeSpan::from_nanos(best)
    }
}

} // verus!
