//! The decoded event model: channel events, meta events, and the tagged
//! event record that a track is a sequence of.
//!
//! Executable values carry their payloads in `Vec<u8>`; the `*View`
//! twins express the same data over `Seq<u8>` so that contracts and the
//! spec-level parser can speak of events as pure mathematical values.

use crate::timing::Tempo;
use vstd::prelude::*;

verus! {

/// Everything that can go wrong while decoding a MIDI file. Each decode
/// call either produces a whole file model or exactly one of these.
#[derive(Clone, Copy, Debug, PartialEq, Eq, Structural)]
pub enum MIDIFileError {
    HeaderMismatch,
    HeaderSizeMismatch,
    UnsupportedType,
    InvalidTrackCount,
    InvalidTimeDivision,
    InvalidSMPTEValue,
    InvalidTrackChunk,
    InvalidEvent,
    InvalidTrackEventType,
    UnsupportedEvent,
    InvalidMetaEvent,
    UnexpectedMetaLength(u8, u32),
}

/// The seven channel-voice event kinds. Every channel event consumes
/// exactly two parameter bytes on the wire; kinds that conventionally
/// use only one keep the second as a reserved field so that byte
/// accounting stays uniform.
#[derive(Clone, Copy, Debug, PartialEq, Eq, Structural)]
pub enum ChannelEventKind {
    NoteOff { note: u8, velocity: u8 },
    NoteOn { note: u8, velocity: u8 },
    NoteAftertouch { note: u8, aftertouch: u8 },
    Controller { controller_number: u8, controller_value: u8 },
    ProgramChange { program_number: u8, reserved: u8 },
    ChannelAftertouch { aftertouch: u8, reserved: u8 },
    PitchBend { lsb: u8, msb: u8 },
}

/// A channel-voice event: a kind plus the channel (0-15) it addresses.
#[derive(Clone, Copy, Debug, PartialEq, Eq, Structural)]
pub struct ChannelEvent {
    pub channel: u8,
    pub kind: ChannelEventKind,
}

impl ChannelEvent {
    pub fn channel(&self) -> (r: u8)
        ensures
            r == self.channel,
    {
        self.channel
    }

    pub fn kind(&self) -> (r: &ChannelEventKind)
        ensures
            r == self.kind,
    {
        &self.kind
    }
}

/// Meta events, tagged 0xFF on the wire. Text-family payloads are kept
/// as raw bytes; types this decoder does not interpret are preserved
/// under `UnknownEvent`.
#[derive(Debug)]
pub enum MetaEvent {
    SequenceNumber { msb: u8, lsb: u8 },
    TextEvent { text: Vec<u8> },
    CopyrightNotice { text: Vec<u8> },
    SequenceTrackName { text: Vec<u8> },
    InstrumentName { text: Vec<u8> },
    Lyrics { text: Vec<u8> },
    Marker { text: Vec<u8> },
    CuePoint { text: Vec<u8> },
    ChannelPrefix { channel: u8 },
    EndOfTrack,
    SetTempo { tempo: Tempo },
    SMPTEOffset { hour: u8, min: u8, sec: u8, fs: u8, sub_fr: u8 },
    TimeSignature { number: u8, denom: u8, metro: u8, _32nds: u8 },
    KeySignature { key: i8, scale: u8 },
    UnknownEvent { event_type: u8, data: Vec<u8> },
    SequencerSpecific { data: Vec<u8> },
}

/// The mathematical value of a meta event: the same variants with byte
/// payloads as sequences.
pub enum MetaEventView {
    SequenceNumber { msb: u8, lsb: u8 },
    TextEvent { text: Seq<u8> },
    CopyrightNotice { text: Seq<u8> },
    SequenceTrackName { text: Seq<u8> },
    InstrumentName { text: Seq<u8> },
    Lyrics { text: Seq<u8> },
    Marker { text: Seq<u8> },
    CuePoint { text: Seq<u8> },
    ChannelPrefix { channel: u8 },
    EndOfTrack,
    SetTempo { tempo: Tempo },
    SMPTEOffset { hour: u8, min: u8, sec: u8, fs: u8, sub_fr: u8 },
    TimeSignature { number: u8, denom: u8, metro: u8, _32nds: u8 },
    KeySignature { key: i8, scale: u8 },
    UnknownEvent { event_type: u8, data: Seq<u8> },
    SequencerSpecific { data: Seq<u8> },
}

impl View for MetaEvent {
    type V = MetaEventView;

    open spec fn view(&self) -> MetaEventView {
        match self {
            MetaEvent::SequenceNumber { msb, lsb } => MetaEventView::SequenceNumber {
                msb: *msb,
                lsb: *lsb,
            },
            MetaEvent::TextEvent { text } => MetaEventView::TextEvent { text: text@ },
            MetaEvent::CopyrightNotice { text } => MetaEventView::CopyrightNotice { text: text@ },
            MetaEvent::SequenceTrackName { text } => MetaEventView::SequenceTrackName {
                text: text@,
            },
            MetaEvent::InstrumentName { text } => MetaEventView::InstrumentName { text: text@ },
            MetaEvent::Lyrics { text } => MetaEventView::Lyrics { text: text@ },
            MetaEvent::Marker { text } => MetaEventView::Marker { text: text@ },
            MetaEvent::CuePoint { text } => MetaEventView::CuePoint { text: text@ },
            MetaEvent::ChannelPrefix { channel } => MetaEventView::ChannelPrefix {
                channel: *channel,
            },
            MetaEvent::EndOfTrack => MetaEventView::EndOfTrack,
            MetaEvent::SetTempo { tempo } => MetaEventView::SetTempo { tempo: *tempo },
            MetaEvent::SMPTEOffset { hour, min, sec, fs, sub_fr } => MetaEventView::SMPTEOffset {
                hour: *hour,
                min: *min,
                sec: *sec,
                fs: *fs,
                sub_fr: *sub_fr,
            },
            MetaEvent::TimeSignature { number, denom, metro, _32nds } => {
                MetaEventView::TimeSignature {
                    number: *number,
                    denom: *denom,
                    metro: *metro,
                    _32nds: *_32nds,
                }
            },
            MetaEvent::KeySignature { key, scale } => MetaEventView::KeySignature {
                key: *key,
                scale: *scale,
            },
            MetaEvent::UnknownEvent { event_type, data } => MetaEventView::UnknownEvent {
                event_type: *event_type,
                data: data@,
            },
            MetaEvent::SequencerSpecific { data } => MetaEventView::SequencerSpecific {
                data: data@,
            },
        }
    }
}

/// What an event is: a channel-voice event or a meta event.
#[derive(Debug)]
pub enum MIDIEventKind {
    Channel(ChannelEvent),
    Meta(MetaEvent),
}

/// The mathematical value of an event kind.
pub enum EventKindView {
    Channel(ChannelEvent),
    Meta(MetaEventView),
}

/// One element of a track's timeline: ticks elapsed since the previous
/// event, and what happens.
#[derive(Debug)]
pub struct MIDIEvent {
    pub delta_time: u32,
    pub kind: MIDIEventKind,
}

/// The mathematical value of an event.
pub struct EventView {
    pub delta_time: u32,
    pub kind: EventKindView,
}

impl View for MIDIEvent {
    type V = EventView;

    open spec fn view(&self) -> EventView {
        EventView {
            delta_time: self.delta_time,
            kind: match self.kind {
                MIDIEventKind::Channel(ce) => EventKindView::Channel(ce),
                MIDIEventKind::Meta(m) => EventKindView::Meta(m@),
            },
        }
    }
}

impl MIDIEvent {
    pub fn delta_time(&self) -> (r: u32)
        ensures
            r == self@.delta_time,
    {
        self.delta_time
    }

    pub fn kind(&self) -> (r: &MIDIEventKind)
        ensures
            r == self.kind,
    {
        &self.kind
    }
}

} // verus!
