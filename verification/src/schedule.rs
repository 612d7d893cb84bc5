//! The event scheduler's verified half: replaying a decoded file into a
//! list of absolute-time note descriptors.
//!
//! A descriptor is emitted for every completed NoteOn/NoteOff pair per
//! (channel, note): its start and stop times, velocities, and the
//! attack and release envelope durations. A NoteOn overwrites any
//! unmatched prior entry for its key; an orphan NoteOff is silently
//! dropped; notes never closed before EndOfTrack are discarded
//! unscheduled. The consumer drives an oscillator/envelope graph from
//! the descriptors; only that playback step stays outside the library.

use crate::decode::{file_wf, FileView, MIDITrack};
use crate::events::ChannelEvent;
use crate::events::{ChannelEventKind, EventKindView, EventView, MIDIEvent, MIDIEventKind, MetaEvent, MetaEventView};
use crate::metadata::max_event_nanos;
use crate::synth::{spec_min, MidiSynth};
use crate::timing::{spec_tick_nanos, Tempo, TimeDivision, TimeSpan};
use vstd::arithmetic::mul::{lemma_mul_inequality, lemma_mul_nonnegative, lemma_mul_upper_bound};
use vstd::prelude::*;

verus! {

/// The mathematical value of a note descriptor, times in nanoseconds.
pub struct DescView {
    pub channel: u8,
    pub note: u8,
    pub on_velocity: u8,
    pub off_velocity: u8,
    pub start: int,
    pub stop: int,
    pub attack: int,
    pub release: int,
}

/// One scheduled note: when it starts and stops, how hard it was
/// pressed and released, and its envelope durations.
#[derive(Clone, Copy, Debug, PartialEq, Eq, Structural)]
pub struct NoteDescriptor {
    pub channel: u8,
    pub note: u8,
    pub on_velocity: u8,
    pub off_velocity: u8,
    pub start: TimeSpan,
    pub stop: TimeSpan,
    pub attack: TimeSpan,
    pub release: TimeSpan,
}

impl View for NoteDescriptor {
    type V = DescView;

    open spec fn view(&self) -> DescView {
        DescView {
            channel: self.channel,
            note: self.note,
            on_velocity: self.on_velocity,
            off_velocity: self.off_velocity,
            start: self.start.nanos as int,
            stop: self.stop.nanos as int,
            attack: self.attack.nanos as int,
            release: self.release.nanos as int,
        }
    }
}

/// The views of a descriptor list.
pub open spec fn desc_views(s: Seq<NoteDescriptor>) -> Seq<DescView> {
    Seq::new(s.len(), |i: int| s[i]@)
}

/// The mathematical value of a note that has been pressed and awaits
/// its release.
pub struct PendingView {
    pub channel: u8,
    pub note: u8,
    pub start: int,
    pub velocity: u8,
}

/// A note between its NoteOn and its matching NoteOff.
struct PendingNote {
    channel: u8,
    note: u8,
    start: TimeSpan,
    velocity: u8,
}

impl View for PendingNote {
    type V = PendingView;

    closed spec fn view(&self) -> PendingView {
        PendingView {
            channel: self.channel,
            note: self.note,
            start: self.start.nanos as int,
            velocity: self.velocity,
        }
    }
}

/// The views of a pending-note list.
spec fn pend_views(s: Seq<PendingNote>) -> Seq<PendingView> {
    Seq::new(s.len(), |i: int| s[i]@)
}

/// The first position holding key (`c`, `n`), or -1 when absent.
pub open spec fn pending_index(s: Seq<PendingView>, c: u8, n: u8) -> int
    decreases s.len(),
{
    if s.len() == 0 {
        -1
    } else if s[0].channel == c && s[0].note == n {
        0
    } else {
        let r = pending_index(s.drop_first(), c, n);
        if r < 0 {
            -1
        } else {
            r + 1
        }
    }
}

/// Whether some entry holds key (`c`, `n`).
pub open spec fn pending_contains(s: Seq<PendingView>, c: u8, n: u8) -> bool {
    exists|j: int| 0 <= j < s.len() && (#[trigger] s[j]).channel == c && s[j].note == n
}

/// `pending_index` finds the first entry with the key exactly when one
/// is present.
pub proof fn lemma_pending_index_props(s: Seq<PendingView>, c: u8, n: u8)
    ensures
        pending_contains(s, c, n) ==> {
            let pi = pending_index(s, c, n);
            &&& 0 <= pi < s.len()
            &&& s[pi].channel == c && s[pi].note == n
            &&& forall|j: int| 0 <= j < pi ==> !((#[trigger] s[j]).channel == c && s[j].note == n)
        },
        !pending_contains(s, c, n) ==> pending_index(s, c, n) == -1,
    decreases s.len(),
{
    if s.len() > 0 && !(s[0].channel == c && s[0].note == n) {
        let df = s.drop_first();
        lemma_pending_index_props(df, c, n);
        assert(forall|j: int| 0 <= j < df.len() ==> df[j] == s[j + 1]);
        if pending_contains(df, c, n) {
            let r = pending_index(df, c, n);
            assert(df[r].channel == c && df[r].note == n);
            assert(pending_contains(s, c, n)) by {
                assert(s[r + 1].channel == c && s[r + 1].note == n);
            }
            assert forall|j: int| 0 <= j < r + 1 implies !((#[trigger] s[j]).channel == c
                && s[j].note == n) by {
                if j > 0 {
                    assert(df[j - 1] == s[j]);
                }
            }
        } else {
            if pending_contains(s, c, n) {
                let w = choose|w: int|
                    0 <= w < s.len() && (#[trigger] s[w]).channel == c && s[w].note == n;
                if w == 0 {
                    assert(false);
                } else {
                    assert(df[w - 1] == s[w]);
                    assert(false);
                }
            }
        }
    }
}

/// Pressing a note records its key, start time and velocity,
/// overwriting any unmatched prior entry for the key.
pub open spec fn spec_insert_pending(
    s: Seq<PendingView>,
    c: u8,
    n: u8,
    start: int,
    velocity: u8,
) -> Seq<PendingView> {
    let e = PendingView { channel: c, note: n, start, velocity };
    let i = pending_index(s, c, n);
    if i >= 0 {
        s.update(i, e)
    } else {
        s.push(e)
    }
}

/// After an insert, the key's first entry is exactly the inserted one.
pub proof fn lemma_insert_pending_found(s: Seq<PendingView>, c: u8, n: u8, start: int, velocity: u8)
    ensures
        ({
            let s2 = spec_insert_pending(s, c, n, start, velocity);
            let pi = pending_index(s2, c, n);
            &&& 0 <= pi < s2.len()
            &&& s2[pi] == PendingView { channel: c, note: n, start, velocity }
        }),
{
    let e = PendingView { channel: c, note: n, start, velocity };
    let s2 = spec_insert_pending(s, c, n, start, velocity);
    lemma_pending_index_props(s, c, n);
    lemma_pending_index_props(s2, c, n);
    let i = pending_index(s, c, n);
    assert(pending_contains(s2, c, n)) by {
        if i >= 0 {
            assert(s2[i] == e);
        } else {
            assert(s2[s.len() as int] == e);
        }
    }
    let pi = pending_index(s2, c, n);
    if i >= 0 {
        if pi < i {
            assert(s2[pi] == s[pi]);
            assert(false);
        }
        if i < pi {
            assert(s2[i] == e);
            assert(false);
        }
        assert(pi == i);
    } else {
        if pi < s.len() {
            assert(s2[pi] == s[pi]);
            assert(pending_contains(s, c, n));
            assert(false);
        }
        assert(pi == s.len());
    }
}

/// The attack duration: up to 100 ms, shorter for harder presses, and
/// never more than a third of the note's duration.
pub open spec fn spec_attack_nanos(on_velocity: u8, dur: int) -> int {
    let base = if on_velocity >= 127 {
        0int
    } else {
        100000000 * (127 - on_velocity) / 127
    };
    spec_min(base, dur / 3)
}

/// The release duration: up to 2000 ms, shorter for harder releases,
/// and never more than half of the note's duration.
pub open spec fn spec_release_nanos(off_velocity: u8, dur: int) -> int {
    let base = if off_velocity >= 127 {
        0int
    } else {
        2000000000 * (127 - off_velocity) / 127
    };
    spec_min(base, dur / 2)
}

/// The descriptor of one completed note.
pub open spec fn spec_descriptor(
    channel: u8,
    note: u8,
    on_velocity: u8,
    off_velocity: u8,
    start: int,
    stop: int,
) -> DescView {
    DescView {
        channel,
        note,
        on_velocity,
        off_velocity,
        start,
        stop,
        attack: spec_attack_nanos(on_velocity, stop - start),
        release: spec_release_nanos(off_velocity, stop - start),
    }
}

/// The scheduling scan from event `i` onward: absolute time advances by
/// `delta x tick` per event; NoteOn records a pending note, NoteOff
/// completes one (or is dropped when unmatched), SetTempo changes the
/// tick duration, and EndOfTrack ends the track's scan.
pub open spec fn spec_sched_scan(
    events: Seq<EventView>,
    i: int,
    time: int,
    tick: int,
    pending: Seq<PendingView>,
    td: TimeDivision,
) -> Seq<DescView>
    decreases events.len() - i,
{
    if i < 0 || i >= events.len() {
        Seq::empty()
    } else {
        let e = events[i];
        let time2 = time + e.delta_time * tick;
        match e.kind {
            EventKindView::Channel(ce) => match ce.kind {
                ChannelEventKind::NoteOff { note, velocity } => {
                    let pi = pending_index(pending, ce.channel, note);
                    if pi >= 0 {
                        let p = pending[pi];
                        seq![
                            spec_descriptor(ce.channel, note, p.velocity, velocity, p.start, time2),
                        ] + spec_sched_scan(events, i + 1, time2, tick, pending.remove(pi), td)
                    } else {
                        spec_sched_scan(events, i + 1, time2, tick, pending, td)
                    }
                },
                ChannelEventKind::NoteOn { note, velocity } => spec_sched_scan(
                    events,
                    i + 1,
                    time2,
                    tick,
                    spec_insert_pending(pending, ce.channel, note, time2, velocity),
                    td,
                ),
                _ => spec_sched_scan(events, i + 1, time2, tick, pending, td),
            },
            EventKindView::Meta(m) => match m {
                MetaEventView::EndOfTrack => Seq::empty(),
                MetaEventView::SetTempo { tempo } => spec_sched_scan(
                    events,
                    i + 1,
                    time2,
                    spec_tick_nanos(td, tempo),
                    pending,
                    td,
                ),
                _ => spec_sched_scan(events, i + 1, time2, tick, pending, td),
            },
        }
    }
}

/// The descriptors of all tracks from `t` onward, in track order. Each
/// track starts at the caller's clock origin with the default tempo and
/// its own empty pending set.
pub open spec fn spec_schedule_tracks(f: FileView, start: int, t: int) -> Seq<DescView>
    decreases f.tracks.len() - t,
{
    if t < 0 || t >= f.tracks.len() {
        Seq::empty()
    } else {
        spec_sched_scan(
            f.tracks[t],
            0,
            start,
            spec_tick_nanos(f.time_division, Tempo { mpqn: 500000 }),
            Seq::empty(),
            f.time_division,
        ) + spec_schedule_tracks(f, start, t + 1)
    }
}

/// A NoteOn followed immediately (zero elapsed ticks) by its NoteOff
/// schedules a descriptor whose stop time equals its start time and
/// whose attack and release durations are both clamped to zero by the
/// duration caps.
pub proof fn lemma_immediate_note_off(
    events: Seq<EventView>,
    i: int,
    time: int,
    tick: int,
    pending: Seq<PendingView>,
    td: TimeDivision,
    channel: u8,
    note: u8,
    on_velocity: u8,
    off_velocity: u8,
    delta: u32,
)
    requires
        0 <= i,
        i + 1 < events.len(),
        events[i] == (EventView {
            delta_time: delta,
            kind: EventKindView::Channel(
                ChannelEvent {
                    channel,
                    kind: ChannelEventKind::NoteOn { note, velocity: on_velocity },
                },
            ),
        }),
        events[i + 1] == (EventView {
            delta_time: 0,
            kind: EventKindView::Channel(
                ChannelEvent {
                    channel,
                    kind: ChannelEventKind::NoteOff { note, velocity: off_velocity },
                },
            ),
        }),
    ensures
        ({
            let time2 = time + delta * tick;
            let out = spec_sched_scan(events, i, time, tick, pending, td);
            let d = spec_descriptor(channel, note, on_velocity, off_velocity, time2, time2);
            &&& out.len() >= 1
            &&& out[0] == d
            &&& d.stop == d.start
            &&& d.attack == 0
            &&& d.release == 0
        }),
{
    let time2 = time + delta * tick;
    let pending2 = spec_insert_pending(pending, channel, note, time2, on_velocity);
    lemma_insert_pending_found(pending, channel, note, time2, on_velocity);
    let pi = pending_index(pending2, channel, note);
    assert(spec_sched_scan(events, i, time, tick, pending, td) == spec_sched_scan(
        events,
        i + 1,
        time2,
        tick,
        pending2,
        td,
    ));
    let e1 = events[i + 1];
    assert(e1.delta_time == 0);
    let time3 = time2 + e1.delta_time * tick;
    assert(e1.delta_time * tick == 0) by (nonlinear_arith)
        requires
            e1.delta_time == 0,
    ;
    assert(time3 == time2);
    assert(pending2[pi] == PendingView { channel, note, start: time2, velocity: on_velocity });
    assert(spec_sched_scan(events, i + 1, time2, tick, pending2, td) == seq![
        spec_descriptor(channel, note, on_velocity, off_velocity, pending2[pi].start, time3),
    ] + spec_sched_scan(events, i + 2, time3, tick, pending2.remove(pi), td));
}

impl MidiSynth {
    /// Walk one track, appending its descriptors to `out`.
    #[verifier::loop_isolation(false)]
    fn schedule_track(
        track: &MIDITrack,
        td: &TimeDivision,
        start: u128,
        out: &mut Vec<NoteDescriptor>,
    )
        requires
            td.has_positive_rate(),
            track@.len() <= u32::MAX,
            start <= u64::MAX,
        ensures
            desc_views(final(out)@) == desc_views(old(out)@) + spec_sched_scan(
                track@,
                0,
                start as int,
                spec_tick_nanos(*td, Tempo { mpqn: 500000 }),
                Seq::empty(),
                *td,
            ),
    {
        let ghost evs = track@;
        let ghost out0 = out@;
        let mut time: u128 = start;
        let mut tick: TimeSpan = td.tick_duration(Tempo::default());
        let ghost tick0 = tick.nanos as int;
        let mut pending: Vec<PendingNote> = Vec::new();
        proof {
            assert(pend_views(pending@) =~= Seq::<PendingView>::empty());
        }
        let events = track.events();
        let mut idx: usize = 0;
        while idx < events.len()
            invariant
                idx <= evs.len(),
                events@.len() == evs.len(),
                tick.nanos <= 0x400_0000_0000,
                time <= start + idx * max_event_nanos(),
                forall|j: int| 0 <= j < pending@.len() ==> (#[trigger] pending@[j])@.start <= time,
                desc_views(out@) + spec_sched_scan(
                    evs,
                    idx as int,
                    time as int,
                    tick.nanos as int,
                    pend_views(pending@),
                    *td,
                ) == desc_views(out0) + spec_sched_scan(evs, 0, start as int, tick0, Seq::empty(), *td),
            decreases evs.len() - idx,
        {
            let ghost pend0 = pend_views(pending@);
            let ghost outprev = out@;
            let event = &events[idx];
            let delta = event.delta_time();
            proof {
                lemma_mul_upper_bound(delta as int, 0xFFFFFFFF, tick.nanos as int, 0x400_0000_0000);
                lemma_mul_nonnegative(delta as int, tick.nanos as int);
                lemma_mul_inequality(idx + 1, 0x100000001, max_event_nanos());
            }
            let step: u128 = (delta as u128) * tick.nanos;
            time = time + step;
            match event.kind() {
                MIDIEventKind::Channel(channel_event) => {
                    let ch = channel_event.channel();
                    match channel_event.kind() {
                        ChannelEventKind::NoteOff { note, velocity } => {
                            if let Some(j) = Self::find_pending(&pending, ch, *note) {
                                let p_start = pending[j].start;
                                let p_velocity = pending[j].velocity;
                                pending.remove(j);
                                proof {
                                    assert(pend_views(pending@) =~= pend0.remove(j as int));
                                }
                                let on_base: u128 = if p_velocity >= 127 {
                                    0
                                } else {
                                    100000000u128 * ((127 - p_velocity) as u128) / 127
                                };
                                let off_base: u128 = if *velocity >= 127 {
                                    0
                                } else {
                                    2000000000u128 * ((127 - *velocity) as u128) / 127
                                };
                                let dur: u128 = time - p_start.nanos;
                                let attack: u128 = if on_base <= dur / 3 {
                                    on_base
                                } else {
                                    dur / 3
                                };
                                let release: u128 = if off_base <= dur / 2 {
                                    off_base
                                } else {
                                    dur / 2
                                };
                                let desc = NoteDescriptor {
                                    channel: ch,
                                    note: *note,
                                    on_velocity: p_velocity,
                                    off_velocity: *velocity,
                                    start: p_start,
                                    stop: TimeSpan::from_nanos(time),
                                    attack: TimeSpan::from_nanos(attack),
                                    release: TimeSpan::from_nanos(release),
                                };
                                let ghost dv = desc@;
                                out.push(desc);
                                proof {
                                    assert(desc_views(out@) =~= desc_views(outprev) + seq![dv]);
                                }
                            }
                        },
                        ChannelEventKind::NoteOn { note, velocity } => {
                            let entry = PendingNote {
                                channel: ch,
                                note: *note,
                                start: TimeSpan::from_nanos(time),
                                velocity: *velocity,
                            };
                            let ghost ev_view = entry@;
                            if let Some(j) = Self::find_pending(&pending, ch, *note) {
                                pending[j] = entry;
                                proof {
                                    assert(pend_views(pending@) =~= pend0.update(j as int, ev_view));
                                    assert(pend_views(pending@) =~= spec_insert_pending(
                                        pend0,
                                        ch,
                                        *note,
                                        time as int,
                                        *velocity,
                                    ));
                                }
                            } else {
                                pending.push(entry);
                                proof {
                                    assert(pend_views(pending@) =~= pend0.push(ev_view));
                                    assert(pend_views(pending@) =~= spec_insert_pending(
                                        pend0,
                                        ch,
                                        *note,
                                        time as int,
                                        *velocity,
                                    ));
                                }
                            }
                        },
                        _ => {
                            proof {
                                assert(pend_views(pending@) =~= pend0);
                            }
                        },
                    }
                },
                MIDIEventKind::Meta(MetaEvent::EndOfTrack) => {
                    proof {
                        assert(evs[idx as int].kind matches EventKindView::Meta(m) && m
                            is EndOfTrack);
                        assert(desc_views(out@) + Seq::<DescView>::empty() =~= desc_views(out@));
                    }
                    return ;
                },
                MIDIEventKind::Meta(MetaEvent::SetTempo { tempo }) => {
                    tick = td.tick_duration(*tempo);
                    proof {
                        assert(pend_views(pending@) =~= pend0);
                    }
                },
                MIDIEventKind::Meta(_) => {
                    proof {
                        assert(pend_views(pending@) =~= pend0);
                    }
                },
            }
            idx = idx + 1;
        }
        proof {
            assert(desc_views(out@) + Seq::<DescView>::empty() =~= desc_views(out@));
        }
    }

    /// The first pending entry for a key, if one exists.
    #[verifier::loop_isolation(false)]
    fn find_pending(pending: &Vec<PendingNote>, channel: u8, note: u8) -> (r: Option<usize>)
        ensures
            ({
                let pi = pending_index(pend_views(pending@), channel, note);
                match r {
                    Some(k) => k as int == pi && 0 <= pi < pending@.len(),
                    None => pi == -1,
                }
            }),
    {
        proof {
            lemma_pending_index_props(pend_views(pending@), channel, note);
        }
        let ghost pv = pend_views(pending@);
        let mut k: usize = 0;
        while k < pending.len()
            invariant
                k <= pending@.len(),
                forall|j: int| 0 <= j < k ==> !((#[trigger] pv[j]).channel == channel && pv[j].note
                    == note),
            decreases pending@.len() - k,
        {
            if pending[k].channel == channel && pending[k].note == note {
                proof {
                    assert(pending_contains(pv, channel, note)) by {
                        assert(pv[k as int].channel == channel && pv[k as int].note == note);
                    }
                    let pi = pending_index(pv, channel, note);
                    if (k as int) < pi {
                        assert(!(pv[k as int].channel == channel && pv[k as int].note == note));
                    }
                    if pi < (k as int) {
                        assert(!(pv[pi].channel == channel && pv[pi].note == note));
                    }
                }
                return Some(k);
            }
            k = k + 1;
        }
        proof {
            if pending_contains(pv, channel, note) {
                let w = choose|w: int|
                    0 <= w < pv.len() && (#[trigger] pv[w]).channel == channel && pv[w].note
                        == note;
                assert(false);
            }
        }
        None
    }

    /// Produce the note descriptors of every track, in track order,
    /// with absolute times measured from the caller's clock origin.
    #[verifier::loop_isolation(false)]
    pub fn schedule(&self, start: TimeSpan) -> (r: Vec<NoteDescriptor>)
        requires
            self.wf(),
            start.nanos <= u64::MAX,
        ensures
            desc_views(r@) == spec_schedule_tracks(self.spec_data(), start.nanos as int, 0),
    {
        proof {
            self.wf_properties();
        }
        let mut out: Vec<NoteDescriptor> = Vec::new();
        let data_tracks = self.data().tracks();
        let td = self.data().time_division();
        let mut t: usize = 0;
        while t < data_tracks.len()
            invariant
                t <= self.spec_data().tracks.len(),
                desc_views(out@) + spec_schedule_tracks(
                    self.spec_data(),
                    start.nanos as int,
                    t as int,
                ) == spec_schedule_tracks(self.spec_data(), start.nanos as int, 0),
            decreases self.spec_data().tracks.len() - t,
        {
            let ghost outprev = out@;
            Self::schedule_track(&data_tracks[t], td, start.nanos, &mut out);
            proof {
                assert(desc_views(outprev) + (spec_sched_scan(
                    self.spec_data().tracks[t as int],
                    0,
                    start.nanos as int,
                    spec_tick_nanos(self.spec_data().time_division, Tempo { mpqn: 500000 }),
                    Seq::empty(),
                    self.spec_data().time_division,
                ) + spec_schedule_tracks(self.spec_data(), start.nanos as int, t + 1)) =~= (
                desc_views(outprev) + spec_sched_scan(
                    self.spec_data().tracks[t as int],
                    0,
                    start.nanos as int,
                    spec_tick_nanos(self.spec_data().time_division, Tempo { mpqn: 500000 }),
                    Seq::empty(),
                    self.spec_data().time_division,
                )) + spec_schedule_tracks(self.spec_data(), start.nanos as int, t + 1));
            }
            t = t + 1;
        }
        proof {
            assert(desc_views(out@) + Seq::<DescView>::empty() =~= desc_views(out@));
        }
        out
    }
}

} // verus!
