//! The file decoder: validates the header chunk, walks each track chunk,
//! and builds the whole-file event model.
//!
//! The ground truth of this module is the spec-level parser
//! (`spec_parse_file` and its helpers), a direct mathematical reading of
//! the wire format. Every executable parsing function is proved to
//! return exactly what the spec parser says for its input, errors
//! included; decoding is all-or-nothing, never partial.

use crate::events::{
    ChannelEvent,
    ChannelEventKind,
    EventKindView,
    EventView,
    MIDIEvent,
    MIDIEventKind,
    MIDIFileError,
    MetaEvent,
    MetaEventView,
};
use crate::reader::{
    spec_read_range,
    spec_read_u16,
    spec_read_u32,
    spec_read_u8,
    spec_read_var_length,
    BigEndianReader,
};
use crate::timing::{Tempo, TimeDivision, SMPTE};
use vstd::prelude::*;
use vstd::slice::slice_to_vec;

verus! {

/// The four magic bytes that open the header chunk.
pub open spec fn spec_header_magic() -> Seq<u8> {
    seq![0x4Du8, 0x54u8, 0x68u8, 0x64u8]
}

/// The four magic bytes that open every track chunk.
pub open spec fn spec_track_magic() -> Seq<u8> {
    seq![0x4Du8, 0x54u8, 0x72u8, 0x6Bu8]
}

/// Which channel event a status nibble selects, if any.
pub open spec fn spec_channel_kind(event_type: u8, param1: u8, param2: u8) -> Option<
    ChannelEventKind,
> {
    if event_type == 0x8 {
        Some(ChannelEventKind::NoteOff { note: param1, velocity: param2 })
    } else if event_type == 0x9 {
        Some(ChannelEventKind::NoteOn { note: param1, velocity: param2 })
    } else if event_type == 0xA {
        Some(ChannelEventKind::NoteAftertouch { note: param1, aftertouch: param2 })
    } else if event_type == 0xB {
        Some(
            ChannelEventKind::Controller {
                controller_number: param1,
                controller_value: param2,
            },
        )
    } else if event_type == 0xC {
        Some(ChannelEventKind::ProgramChange { program_number: param1, reserved: param2 })
    } else if event_type == 0xD {
        Some(ChannelEventKind::ChannelAftertouch { aftertouch: param1, reserved: param2 })
    } else if event_type == 0xE {
        Some(ChannelEventKind::PitchBend { lsb: param1, msb: param2 })
    } else {
        None
    }
}

/// The channel event built from one status nibble, channel and two
/// parameter bytes, or the error for an unsupported nibble.
pub open spec fn spec_from_track_event(
    delta_time: u32,
    event_type: u8,
    channel: u8,
    param1: u8,
    param2: u8,
) -> Result<EventView, MIDIFileError> {
    match spec_channel_kind(event_type, param1, param2) {
        Some(kind) => Ok(
            EventView {
                delta_time,
                kind: EventKindView::Channel(ChannelEvent { channel, kind }),
            },
        ),
        None => Err(MIDIFileError::InvalidTrackEventType),
    }
}

/// The text-family meta event for types 0x01 through 0x07.
pub open spec fn spec_text_meta(event_type: u8, text: Seq<u8>) -> MetaEventView {
    if event_type == 0x01 {
        MetaEventView::TextEvent { text }
    } else if event_type == 0x02 {
        MetaEventView::CopyrightNotice { text }
    } else if event_type == 0x03 {
        MetaEventView::SequenceTrackName { text }
    } else if event_type == 0x04 {
        MetaEventView::InstrumentName { text }
    } else if event_type == 0x05 {
        MetaEventView::Lyrics { text }
    } else if event_type == 0x06 {
        MetaEventView::Marker { text }
    } else {
        MetaEventView::CuePoint { text }
    }
}

/// Parse the remainder of a meta event (the bytes after the 0xFF status
/// byte): the meta type, a variable-length payload length, and the
/// payload, validating fixed payload lengths where the format mandates
/// them. Returns the event and the position after it.
pub open spec fn spec_parse_meta(b: Seq<u8>, pos: int) -> Result<
    (MetaEventView, int),
    MIDIFileError,
> {
    match spec_read_u8(b, pos) {
        None => Err(MIDIFileError::InvalidMetaEvent),
        Some((event_type, p1)) => match spec_read_var_length(b, p1) {
            None => Err(MIDIFileError::InvalidMetaEvent),
            Some((event_length, p2)) => {
                if event_type == 0x00 {
                    if event_length != 2 {
                        Err(MIDIFileError::UnexpectedMetaLength(event_type, event_length as u32))
                    } else {
                        match spec_read_range(b, p2, 2) {
                            None => Err(MIDIFileError::InvalidMetaEvent),
                            Some((s, p3)) => Ok(
                                (MetaEventView::SequenceNumber { msb: s[0], lsb: s[1] }, p3),
                            ),
                        }
                    }
                } else if 0x01 <= event_type && event_type <= 0x07 {
                    match spec_read_range(b, p2, event_length) {
                        None => Err(MIDIFileError::InvalidMetaEvent),
                        Some((s, p3)) => Ok((spec_text_meta(event_type, s), p3)),
                    }
                } else if event_type == 0x20 {
                    if event_length != 1 {
                        Err(MIDIFileError::UnexpectedMetaLength(event_type, event_length as u32))
                    } else {
                        match spec_read_u8(b, p2) {
                            None => Err(MIDIFileError::InvalidMetaEvent),
                            Some((channel, p3)) => Ok(
                                (MetaEventView::ChannelPrefix { channel }, p3),
                            ),
                        }
                    }
                } else if event_type == 0x2F {
                    if event_length != 0 {
                        Err(MIDIFileError::UnexpectedMetaLength(event_type, event_length as u32))
                    } else {
                        Ok((MetaEventView::EndOfTrack, p2))
                    }
                } else if event_type == 0x51 {
                    if event_length != 3 {
                        Err(MIDIFileError::UnexpectedMetaLength(event_type, event_length as u32))
                    } else {
                        match spec_read_range(b, p2, 3) {
                            None => Err(MIDIFileError::InvalidMetaEvent),
                            Some((s, p3)) => Ok(
                                (
                                    MetaEventView::SetTempo {
                                        tempo: Tempo {
                                            mpqn: (s[0] * 0x10000 + s[1] * 0x100 + s[2]) as u32,
                                        },
                                    },
                                    p3,
                                ),
                            ),
                        }
                    }
                } else if event_type == 0x54 {
                    if event_length != 5 {
                        Err(MIDIFileError::UnexpectedMetaLength(event_type, event_length as u32))
                    } else {
                        match spec_read_range(b, p2, 5) {
                            None => Err(MIDIFileError::InvalidMetaEvent),
                            Some((s, p3)) => Ok(
                                (
                                    MetaEventView::SMPTEOffset {
                                        hour: s[0],
                                        min: s[1],
                                        sec: s[2],
                                        fs: s[3],
                                        sub_fr: s[4],
                                    },
                                    p3,
                                ),
                            ),
                        }
                    }
                } else if event_type == 0x7F {
                    match spec_read_range(b, p2, event_length) {
                        None => Err(MIDIFileError::InvalidMetaEvent),
                        Some((s, p3)) => Ok((MetaEventView::SequencerSpecific { data: s }, p3)),
                    }
                } else {
                    match spec_read_range(b, p2, event_length) {
                        None => Err(MIDIFileError::InvalidMetaEvent),
                        Some((s, p3)) => Ok(
                            (MetaEventView::UnknownEvent { event_type, data: s }, p3),
                        ),
                    }
                }
            },
        },
    }
}

/// A successful meta-event parse consumes at least the type byte and
/// one length byte, and stays within the buffer.
pub proof fn lemma_parse_meta_advances(b: Seq<u8>, pos: int)
    ensures
        spec_parse_meta(b, pos) matches Ok((m, p)) ==> pos + 2 <= p <= b.len(),
{
    if let Some((event_type, p1)) = spec_read_u8(b, pos) {
        crate::reader::lemma_var_loop_advances(b, p1, 0, 4);
    }
}

/// Parse an event stream until its EndOfTrack event: each step reads a
/// delta time, a status byte, and the event the status byte selects.
/// The stream ends exactly at EndOfTrack; running out of bytes first is
/// an error.
pub open spec fn spec_parse_events(b: Seq<u8>, pos: int) -> Result<Seq<EventView>, MIDIFileError>
    decreases b.len() - pos,
{
    match spec_read_var_length(b, pos) {
        None => Err(MIDIFileError::InvalidEvent),
        Some((delta, p1)) => match spec_read_u8(b, p1) {
            None => Err(MIDIFileError::InvalidEvent),
            Some((type_byte, p2)) => {
                if type_byte == 0xFF {
                    match spec_parse_meta(b, p2) {
                        Err(e) => Err(e),
                        Ok((m, p3)) => {
                            let ev = EventView {
                                delta_time: delta as u32,
                                kind: EventKindView::Meta(m),
                            };
                            if m is EndOfTrack {
                                Ok(seq![ev])
                            } else {
                                proof {
                                    crate::reader::lemma_var_loop_advances(b, pos, 0, 4);
                                    lemma_parse_meta_advances(b, p2);
                                }
                                match spec_parse_events(b, p3) {
                                    Err(e) => Err(e),
                                    Ok(rest) => Ok(seq![ev] + rest),
                                }
                            }
                        },
                    }
                } else if type_byte == 0xF0 {
                    Err(MIDIFileError::UnsupportedEvent)
                } else {
                    let event_type = (0xf0u8 & type_byte) >> 4;
                    let channel = 0x0fu8 & type_byte;
                    match spec_read_u8(b, p2) {
                        None => Err(MIDIFileError::InvalidEvent),
                        Some((param1, p3)) => match spec_read_u8(b, p3) {
                            None => Err(MIDIFileError::InvalidEvent),
                            Some((param2, p4)) => match spec_from_track_event(
                                delta as u32,
                                event_type,
                                channel,
                                param1,
                                param2,
                            ) {
                                Err(e) => Err(e),
                                Ok(ev) => {
                                    proof {
                                        crate::reader::lemma_var_loop_advances(b, pos, 0, 4);
                                    }
                                    match spec_parse_events(b, p4) {
                                        Err(e) => Err(e),
                                        Ok(rest) => Ok(seq![ev] + rest),
                                    }
                                },
                            },
                        },
                    }
                }
            },
        },
    }
}

/// Whether an event is the EndOfTrack meta event.
pub open spec fn is_end_of_track(ev: EventView) -> bool {
    ev.kind matches EventKindView::Meta(m) && m is EndOfTrack
}

/// The views of a sequence of decoded events.
pub open spec fn event_views(s: Seq<MIDIEvent>) -> Seq<EventView> {
    Seq::new(s.len(), |i: int| s[i]@)
}

/// A successfully parsed event stream is never empty, ends with its one
/// EndOfTrack event, and holds at most one event per remaining buffer
/// byte.
pub proof fn lemma_parse_events_shape(b: Seq<u8>, pos: int)
    ensures
        spec_parse_events(b, pos) matches Ok(evs) ==> {
            &&& evs.len() >= 1
            &&& is_end_of_track(evs.last())
            &&& forall|i: int| 0 <= i < evs.len() - 1 ==> !is_end_of_track(#[trigger] evs[i])
            &&& evs.len() <= b.len() - pos
        },
    decreases b.len() - pos,
{
    if let Some((delta, p1)) = spec_read_var_length(b, pos) {
        crate::reader::lemma_var_loop_advances(b, pos, 0, 4);
        if let Some((type_byte, p2)) = spec_read_u8(b, p1) {
            if type_byte == 0xFF {
                if let Ok((m, p3)) = spec_parse_meta(b, p2) {
                    lemma_parse_meta_advances(b, p2);
                    if !(m is EndOfTrack) {
                        lemma_parse_events_shape(b, p3);
                    }
                }
            } else if type_byte != 0xF0 {
                if let Some((param1, p3)) = spec_read_u8(b, p2) {
                    if let Some((param2, p4)) = spec_read_u8(b, p3) {
                        lemma_parse_events_shape(b, p4);
                    }
                }
            }
        }
    }
}

impl MIDIEvent {
    /// Build the channel event selected by a status nibble. Channel
    /// events always carry two parameter bytes; nibbles outside
    /// 0x8..=0xE are rejected.
    pub fn from_track_event(
        delta_time: u32,
        event_type: u8,
        channel: u8,
        param1: u8,
        param2: u8,
    ) -> (r: Result<Self, MIDIFileError>)
        ensures
            ({
                match spec_from_track_event(delta_time, event_type, channel, param1, param2) {
                    Ok(v) => r matches Ok(e) && e@ == v,
                    Err(er) => r matches Err(e2) && e2 == er,
                }
            }),
    {
        let kind = match event_type {
            0x8 => ChannelEventKind::NoteOff { note: param1, velocity: param2 },
            0x9 => ChannelEventKind::NoteOn { note: param1, velocity: param2 },
            0xA => ChannelEventKind::NoteAftertouch { note: param1, aftertouch: param2 },
            0xB => ChannelEventKind::Controller {
                controller_number: param1,
                controller_value: param2,
            },
            0xC => ChannelEventKind::ProgramChange { program_number: param1, reserved: param2 },
            0xD => ChannelEventKind::ChannelAftertouch { aftertouch: param1, reserved: param2 },
            0xE => ChannelEventKind::PitchBend { lsb: param1, msb: param2 },
            _ => {
                return Err(MIDIFileError::InvalidTrackEventType);
            },
        };
        Ok(
            MIDIEvent {
                delta_time,
                kind: MIDIEventKind::Channel(ChannelEvent { channel, kind }),
            },
        )
    }

    /// Read one meta event from the reader, which stands just after the
    /// 0xFF status byte. Exactly the bytes the spec parser accounts for
    /// are consumed on success.
    pub fn from_meta_event(event_reader: &mut BigEndianReader) -> (r: Result<
        MetaEvent,
        MIDIFileError,
    >)
        requires
            old(event_reader).wf(),
        ensures
            final(event_reader).wf(),
            final(event_reader).spec_buffer() == old(event_reader).spec_buffer(),
            ({
                match spec_parse_meta(old(event_reader).spec_buffer(), old(event_reader).spec_pos()) {
                    Ok((m, p)) => r matches Ok(me) && me@ == m && final(event_reader).spec_pos()
                        == p,
                    Err(er) => r matches Err(e2) && e2 == er,
                }
            }),
    {
        let event_type = match event_reader.read_u8() {
            Some(t) => t,
            None => {
                return Err(MIDIFileError::InvalidMetaEvent);
            },
        };
        let event_length = match event_reader.read_var_length() {
            Some(l) => l,
            None => {
                return Err(MIDIFileError::InvalidMetaEvent);
            },
        };
        match event_type {
            0x00 => {
                if event_length != 2 {
                    return Err(MIDIFileError::UnexpectedMetaLength(event_type, event_length));
                }
                match event_reader.read_range(2) {
                    None => Err(MIDIFileError::InvalidMetaEvent),
                    Some(s) => Ok(MetaEvent::SequenceNumber { msb: s[0], lsb: s[1] }),
                }
            },
            0x01 => match event_reader.read_range(event_length as usize) {
                None => Err(MIDIFileError::InvalidMetaEvent),
                Some(s) => Ok(MetaEvent::TextEvent { text: slice_to_vec(s) }),
            },
            0x02 => match event_reader.read_range(event_length as usize) {
                None => Err(MIDIFileError::InvalidMetaEvent),
                Some(s) => Ok(MetaEvent::CopyrightNotice { text: slice_to_vec(s) }),
            },
            0x03 => match event_reader.read_range(event_length as usize) {
                None => Err(MIDIFileError::InvalidMetaEvent),
                Some(s) => Ok(MetaEvent::SequenceTrackName { text: slice_to_vec(s) }),
            },
            0x04 => match event_reader.read_range(event_length as usize) {
                None => Err(MIDIFileError::InvalidMetaEvent),
                Some(s) => Ok(MetaEvent::InstrumentName { text: slice_to_vec(s) }),
            },
            0x05 => match event_reader.read_range(event_length as usize) {
                None => Err(MIDIFileError::InvalidMetaEvent),
                Some(s) => Ok(MetaEvent::Lyrics { text: slice_to_vec(s) }),
            },
            0x06 => match event_reader.read_range(event_length as usize) {
                None => Err(MIDIFileError::InvalidMetaEvent),
                Some(s) => Ok(MetaEvent::Marker { text: slice_to_vec(s) }),
            },
            0x07 => match event_reader.read_range(event_length as usize) {
                None => Err(MIDIFileError::InvalidMetaEvent),
                Some(s) => Ok(MetaEvent::CuePoint { text: slice_to_vec(s) }),
            },
            0x20 => {
                if event_length != 1 {
                    return Err(MIDIFileError::UnexpectedMetaLength(event_type, event_length));
                }
                match event_reader.read_u8() {
                    None => Err(MIDIFileError::InvalidMetaEvent),
                    Some(channel) => Ok(MetaEvent::ChannelPrefix { channel }),
                }
            },
            0x2F => {
                if event_length != 0 {
                    return Err(MIDIFileError::UnexpectedMetaLength(event_type, event_length));
                }
                Ok(MetaEvent::EndOfTrack)
            },
            0x51 => {
                if event_length != 3 {
                    return Err(MIDIFileError::UnexpectedMetaLength(event_type, event_length));
                }
                match event_reader.read_range(3) {
                    None => Err(MIDIFileError::InvalidMetaEvent),
                    Some(s) => {
                        let mpqn = (s[0] as u32) * 0x10000 + (s[1] as u32) * 0x100 + (s[2] as u32);
                        Ok(MetaEvent::SetTempo { tempo: Tempo::from_mpqn(mpqn) })
                    },
                }
            },
            0x54 => {
                if event_length != 5 {
                    return Err(MIDIFileError::UnexpectedMetaLength(event_type, event_length));
                }
                match event_reader.read_range(5) {
                    None => Err(MIDIFileError::InvalidMetaEvent),
                    Some(s) => Ok(
                        MetaEvent::SMPTEOffset {
                            hour: s[0],
                            min: s[1],
                            sec: s[2],
                            fs: s[3],
                            sub_fr: s[4],
                        },
                    ),
                }
            },
            0x7F => match event_reader.read_range(event_length as usize) {
                None => Err(MIDIFileError::InvalidMetaEvent),
                Some(s) => Ok(MetaEvent::SequencerSpecific { data: slice_to_vec(s) }),
            },
            _ => match event_reader.read_range(event_length as usize) {
                None => Err(MIDIFileError::InvalidMetaEvent),
                Some(s) => Ok(MetaEvent::UnknownEvent { event_type, data: slice_to_vec(s) }),
            },
        }
    }
}

/// Parse one track chunk: the track magic, a 32-bit chunk length, and
/// exactly that many bytes holding the event stream.
pub open spec fn spec_parse_track(b: Seq<u8>, pos: int) -> Result<
    (Seq<EventView>, int),
    MIDIFileError,
> {
    match spec_read_range(b, pos, 4) {
        None => Err(MIDIFileError::InvalidTrackChunk),
        Some((magic, p1)) => {
            if magic != spec_track_magic() {
                Err(MIDIFileError::InvalidTrackChunk)
            } else {
                match spec_read_u32(b, p1) {
                    None => Err(MIDIFileError::InvalidTrackChunk),
                    Some((size, p2)) => match spec_read_range(b, p2, size as int) {
                        None => Err(MIDIFileError::InvalidTrackChunk),
                        Some((chunk, p3)) => match spec_parse_events(chunk, 0) {
                            Err(e) => Err(e),
                            Ok(evs) => Ok((evs, p3)),
                        },
                    },
                }
            }
        },
    }
}

/// An ordered sequence of events, immutable after decode.
pub struct MIDITrack {
    events: Vec<MIDIEvent>,
}

impl View for MIDITrack {
    type V = Seq<EventView>;

    closed spec fn view(&self) -> Seq<EventView> {
        event_views(self.events@)
    }
}

impl MIDITrack {
    pub fn events(&self) -> (r: &Vec<MIDIEvent>)
        ensures
            r@.len() == self@.len(),
            forall|i: int| 0 <= i < r@.len() ==> (#[trigger] r@[i])@ == self@[i],
    {
        &self.events
    }

    /// Parse the event stream of one track chunk, mirroring
    /// `spec_parse_events` step by step.
    #[verifier::loop_isolation(false)]
    fn parse_events(bytes: &[u8]) -> (r: Result<Vec<MIDIEvent>, MIDIFileError>)
        ensures
            ({
                match spec_parse_events(bytes@, 0) {
                    Ok(evs) => r matches Ok(v) && event_views(v@) == evs,
                    Err(e) => r matches Err(e2) && e2 == e,
                }
            }),
    {
        let mut track_reader = BigEndianReader::new(bytes);
        let mut events: Vec<MIDIEvent> = Vec::new();
        loop
            invariant
                track_reader.wf(),
                track_reader.spec_buffer() == bytes@,
                ({
                    match spec_parse_events(bytes@, track_reader.spec_pos()) {
                        Ok(rest) => spec_parse_events(bytes@, 0) matches Ok(evs) && evs
                            == event_views(events@) + rest,
                        Err(e) => spec_parse_events(bytes@, 0) == Err::<
                            Seq<EventView>,
                            MIDIFileError,
                        >(e),
                    }
                }),
            decreases bytes@.len() - track_reader.spec_pos(),
        {
            let ghost pos0 = track_reader.spec_pos();
            let ghost events0 = events@;
            proof {
                crate::reader::lemma_var_loop_advances(bytes@, pos0, 0, 4);
            }
            let delta_time = match track_reader.read_var_length() {
                Some(d) => d,
                None => {
                    return Err(MIDIFileError::InvalidEvent);
                },
            };
            let type_byte = match track_reader.read_u8() {
                Some(t) => t,
                None => {
                    return Err(MIDIFileError::InvalidEvent);
                },
            };
            if type_byte == 0xFF {
                proof {
                    lemma_parse_meta_advances(bytes@, track_reader.spec_pos());
                }
                match MIDIEvent::from_meta_event(&mut track_reader) {
                    Err(e) => {
                        return Err(e);
                    },
                    Ok(meta) => {
                        let is_end = matches!(meta, MetaEvent::EndOfTrack);
                        let ghost ev = EventView {
                            delta_time,
                            kind: EventKindView::Meta(meta@),
                        };
                        events.push(MIDIEvent { delta_time, kind: MIDIEventKind::Meta(meta) });
                        proof {
                            assert(event_views(events@) =~= event_views(events0) + seq![ev]);
                        }
                        if is_end {
                            proof {
                                let evs0 = spec_parse_events(bytes@, 0)->Ok_0;
                                assert(evs0 =~= event_views(events@));
                            }
                            return Ok(events);
                        }
                    },
                }
            } else if type_byte == 0xF0 {
                return Err(MIDIFileError::UnsupportedEvent);
            } else {
                let event_type = (0xf0u8 & type_byte) >> 4;
                let channel = 0x0fu8 & type_byte;
                let param1 = match track_reader.read_u8() {
                    Some(p) => p,
                    None => {
                        return Err(MIDIFileError::InvalidEvent);
                    },
                };
                let param2 = match track_reader.read_u8() {
                    Some(p) => p,
                    None => {
                        return Err(MIDIFileError::InvalidEvent);
                    },
                };
                match MIDIEvent::from_track_event(delta_time, event_type, channel, param1, param2) {
                    Err(e) => {
                        return Err(e);
                    },
                    Ok(event) => {
                        let ghost ev = event@;
                        events.push(event);
                        proof {
                            assert(event_views(events@) =~= event_views(events0) + seq![ev]);
                        }
                    },
                }
            }
            proof {
                if let Ok(rest0) = spec_parse_events(bytes@, pos0) {
                    if let Ok(rest1) = spec_parse_events(bytes@, track_reader.spec_pos()) {
                        assert(event_views(events0) + rest0 =~= event_views(events@) + rest1);
                    }
                }
            }
        }
    }

    /// Read one track from the reader: magic, chunk length, and the
    /// chunk's event stream.
    pub fn new(reader: &mut BigEndianReader) -> (r: Result<MIDITrack, MIDIFileError>)
        requires
            old(reader).wf(),
        ensures
            final(reader).wf(),
            final(reader).spec_buffer() == old(reader).spec_buffer(),
            ({
                match spec_parse_track(old(reader).spec_buffer(), old(reader).spec_pos()) {
                    Ok((evs, p)) => r matches Ok(t) && t@ == evs && final(reader).spec_pos() == p,
                    Err(e) => r matches Err(e2) && e2 == e,
                }
            }),
    {
        let magic_ok = match reader.read_range(4) {
            Some(m) => {
                let ok = m[0] == 0x4D && m[1] == 0x54 && m[2] == 0x72 && m[3] == 0x6B;
                proof {
                    if ok {
                        assert(m@ =~= spec_track_magic());
                    }
                }
                ok
            },
            None => false,
        };
        if !magic_ok {
            return Err(MIDIFileError::InvalidTrackChunk);
        }
        let chunk_size = match reader.read_u32() {
            Some(s) => s,
            None => {
                return Err(MIDIFileError::InvalidTrackChunk);
            },
        };
        let track_buffer = match reader.read_range(chunk_size as usize) {
            Some(t) => t,
            None => {
                return Err(MIDIFileError::InvalidTrackChunk);
            },
        };
        match Self::parse_events(track_buffer) {
            Ok(events) => Ok(MIDITrack { events }),
            Err(e) => Err(e),
        }
    }
}

/// A successful track parse lands strictly past `pos` within the
/// buffer, and the track holds at most as many events as the chunk had
/// bytes, so never more than a 32-bit count.
pub proof fn lemma_parse_track_bounds(b: Seq<u8>, pos: int)
    requires
        0 <= pos,
    ensures
        spec_parse_track(b, pos) matches Ok((evs, p)) ==> pos < p <= b.len() && 1 <= evs.len()
            <= u32::MAX,
{
    if spec_parse_track(b, pos) matches Ok((evs, p)) {
        let (magic, p1) = spec_read_range(b, pos, 4)->Some_0;
        let (size, p2) = spec_read_u32(b, p1)->Some_0;
        let (chunk, p3) = spec_read_range(b, p2, size as int)->Some_0;
        lemma_parse_events_shape(chunk, 0);
    }
}

/// Parse the 16-bit time-division word: top bit clear means ticks per
/// quarter note from the low 15 bits; top bit set means an SMPTE frame
/// rate in bits 14-8 and subframe ticks in the low byte.
pub open spec fn spec_parse_time_division(value: u16) -> Result<TimeDivision, MIDIFileError> {
    if value & 0x8000 == 0 {
        Ok(TimeDivision::TicksPerBit(value & 0x7FFF))
    } else {
        let code = (value & 0x7F00) >> 8;
        let ticks = value & 0x00FF;
        if code == 24 {
            Ok(TimeDivision::FramesPerSecond(SMPTE::_24, ticks))
        } else if code == 25 {
            Ok(TimeDivision::FramesPerSecond(SMPTE::_25, ticks))
        } else if code == 29 {
            Ok(TimeDivision::FramesPerSecond(SMPTE::_29_97, ticks))
        } else if code == 30 {
            Ok(TimeDivision::FramesPerSecond(SMPTE::_30, ticks))
        } else {
            Err(MIDIFileError::InvalidSMPTEValue)
        }
    }
}

/// Parse `n` consecutive track chunks starting at `pos`.
pub open spec fn spec_parse_tracks(b: Seq<u8>, pos: int, n: nat) -> Result<
    (Seq<Seq<EventView>>, int),
    MIDIFileError,
>
    decreases n,
{
    if n == 0 {
        Ok((Seq::empty(), pos))
    } else {
        match spec_parse_track(b, pos) {
            Err(e) => Err(e),
            Ok((evs, p)) => match spec_parse_tracks(b, p, (n - 1) as nat) {
                Err(e) => Err(e),
                Ok((rest, p2)) => Ok((seq![evs] + rest, p2)),
            },
        }
    }
}

/// The mathematical value of a decoded file: format type, declared
/// track count, time division, and the per-track event sequences.
pub struct FileView {
    pub format: u16,
    pub num_tracks: u16,
    pub time_division: TimeDivision,
    pub tracks: Seq<Seq<EventView>>,
}

/// Parse a whole file: the `MThd` header chunk (magic, length 6, format
/// type, track count, time division) followed by exactly the declared
/// number of track chunks. Bytes after the last track are ignored.
pub open spec fn spec_parse_file(b: Seq<u8>) -> Result<FileView, MIDIFileError> {
    match spec_read_range(b, 0, 4) {
        None => Err(MIDIFileError::HeaderMismatch),
        Some((magic, p1)) => {
            if magic != spec_header_magic() {
                Err(MIDIFileError::HeaderMismatch)
            } else {
                match spec_read_u32(b, p1) {
                    None => Err(MIDIFileError::HeaderSizeMismatch),
                    Some((hsize, p2)) => {
                        if hsize != 6 {
                            Err(MIDIFileError::HeaderSizeMismatch)
                        } else {
                            match spec_read_u16(b, p2) {
                                None => Err(MIDIFileError::UnsupportedType),
                                Some((format, p3)) => {
                                    if format > 1 {
                                        Err(MIDIFileError::UnsupportedType)
                                    } else {
                                        match spec_read_u16(b, p3) {
                                            None => Err(MIDIFileError::InvalidTrackCount),
                                            Some((num_tracks, p4)) => match spec_read_u16(b, p4) {
                                                None => Err(MIDIFileError::InvalidTimeDivision),
                                                Some((td_raw, p5)) => match spec_parse_time_division(
                                                    td_raw,
                                                ) {
                                                    Err(e) => Err(e),
                                                    Ok(td) => match spec_parse_tracks(
                                                        b,
                                                        p5,
                                                        num_tracks as nat,
                                                    ) {
                                                        Err(e) => Err(e),
                                                        Ok((tracks, _)) => Ok(
                                                            FileView {
                                                                format,
                                                                num_tracks,
                                                                time_division: td,
                                                                tracks,
                                                            },
                                                        ),
                                                    },
                                                },
                                            },
                                        }
                                    }
                                },
                            }
                        }
                    },
                }
            }
        },
    }
}

/// The views of a sequence of decoded tracks.
pub open spec fn track_views(s: Seq<MIDITrack>) -> Seq<Seq<EventView>> {
    Seq::new(s.len(), |i: int| s[i]@)
}

/// The file model holds exactly the declared number of tracks, and
/// every track's event count fits a 32-bit number (each event consumes
/// at least one byte of its 32-bit-sized chunk). Every decoded file
/// satisfies this; the renderers rely on it.
pub open spec fn file_wf(f: FileView) -> bool {
    &&& f.tracks.len() == f.num_tracks
    &&& forall|i: int| 0 <= i < f.tracks.len() ==> (#[trigger] f.tracks[i]).len() <= u32::MAX
}

/// The whole-file model produced by one decode call: format type,
/// declared track count, time division and the decoded tracks.
pub struct MIDIFileData {
    format: u16,
    num_tracks: u16,
    tracks: Vec<MIDITrack>,
    time_division: TimeDivision,
}

impl View for MIDIFileData {
    type V = FileView;

    closed spec fn view(&self) -> FileView {
        FileView {
            format: self.format,
            num_tracks: self.num_tracks,
            time_division: self.time_division,
            tracks: track_views(self.tracks@),
        }
    }
}

impl MIDIFileData {
    pub fn num_tracks(&self) -> (r: u16)
        ensures
            r == self@.num_tracks,
    {
        self.num_tracks
    }

    pub fn format(&self) -> (r: u16)
        ensures
            r == self@.format,
    {
        self.format
    }

    pub fn tracks(&self) -> (r: &Vec<MIDITrack>)
        ensures
            r@.len() == self@.tracks.len(),
            forall|i: int| 0 <= i < r@.len() ==> (#[trigger] r@[i])@ == self@.tracks[i],
    {
        &self.tracks
    }

    pub fn time_division(&self) -> (r: &TimeDivision)
        ensures
            *r == self@.time_division,
    {
        &self.time_division
    }

    pub fn parse_time_division(value: u16) -> (r: Result<TimeDivision, MIDIFileError>)
        ensures
            r == spec_parse_time_division(value),
    {
        if value & 0x8000u16 == 0 {
            Ok(TimeDivision::TicksPerBit(value & 0x7FFFu16))
        } else {
            let smpte_value = match (value & 0x7F00u16) >> 8 {
                24 => SMPTE::_24,
                25 => SMPTE::_25,
                29 => SMPTE::_29_97,
                30 => SMPTE::_30,
                _ => {
                    return Err(MIDIFileError::InvalidSMPTEValue);
                },
            };
            let clock_ticks = value & 0x00FFu16;
            Ok(TimeDivision::FramesPerSecond(smpte_value, clock_ticks))
        }
    }

    /// Decode a complete byte buffer into the file model, or report the
    /// first error. The result is exactly what the spec-level parser
    /// says, and a decoded file always satisfies `file_wf`.
    #[verifier::loop_isolation(false)]
    pub fn try_from(buffer: &[u8]) -> (r: Result<MIDIFileData, MIDIFileError>)
        ensures
            ({
                match spec_parse_file(buffer@) {
                    Ok(f) => r matches Ok(d) && d@ == f && file_wf(d@),
                    Err(e) => r matches Err(e2) && e2 == e,
                }
            }),
    {
        let mut reader = BigEndianReader::new(buffer);
        let magic_ok = match reader.read_range(4) {
            Some(m) => {
                let ok = m[0] == 0x4D && m[1] == 0x54 && m[2] == 0x68 && m[3] == 0x64;
                proof {
                    if ok {
                        assert(m@ =~= spec_header_magic());
                    }
                }
                ok
            },
            None => false,
        };
        if !magic_ok {
            return Err(MIDIFileError::HeaderMismatch);
        }
        let hsize_ok = match reader.read_u32() {
            Some(s) => s == 6,
            None => false,
        };
        if !hsize_ok {
            return Err(MIDIFileError::HeaderSizeMismatch);
        }
        let format = match reader.read_u16() {
            Some(f) => f,
            None => {
                return Err(MIDIFileError::UnsupportedType);
            },
        };
        if format > 1 {
            return Err(MIDIFileError::UnsupportedType);
        }
        let num_tracks = match reader.read_u16() {
            Some(n) => n,
            None => {
                return Err(MIDIFileError::InvalidTrackCount);
            },
        };
        let td_raw = match reader.read_u16() {
            Some(v) => v,
            None => {
                return Err(MIDIFileError::InvalidTimeDivision);
            },
        };
        let time_division = match Self::parse_time_division(td_raw) {
            Ok(td) => td,
            Err(e) => {
                return Err(e);
            },
        };
        let ghost p5 = reader.spec_pos();
        let mut tracks: Vec<MIDITrack> = Vec::new();
        let mut i: u16 = 0;
        while i < num_tracks
            invariant
                reader.wf(),
                reader.spec_buffer() == buffer@,
                i <= num_tracks,
                tracks@.len() == i,
                forall|j: int|
                    0 <= j < tracks@.len() ==> (#[trigger] tracks@[j])@.len() <= u32::MAX,
                ({
                    match spec_parse_tracks(
                        buffer@,
                        reader.spec_pos(),
                        (num_tracks - i) as nat,
                    ) {
                        Ok((rest, p)) => spec_parse_tracks(buffer@, p5, num_tracks as nat) matches Ok(
                            (all, p2),
                        ) && all == track_views(tracks@) + rest && p2 == p,
                        Err(e) => spec_parse_tracks(buffer@, p5, num_tracks as nat) == Err::<
                            (Seq<Seq<EventView>>, int),
                            MIDIFileError,
                        >(e),
                    }
                }),
            decreases num_tracks - i,
        {
            let ghost tracks0 = tracks@;
            proof {
                lemma_parse_track_bounds(buffer@, reader.spec_pos());
            }
            match MIDITrack::new(&mut reader) {
                Err(e) => {
                    return Err(e);
                },
                Ok(t) => {
                    let ghost tv = t@;
                    tracks.push(t);
                    proof {
                        assert(track_views(tracks@) =~= track_views(tracks0) + seq![tv]);
                        if let Ok((rest0, _)) = spec_parse_tracks(
                            buffer@,
                            reader.spec_pos(),
                            (num_tracks - i - 1) as nat,
                        ) {
                            assert(track_views(tracks0) + (seq![tv] + rest0) =~= track_views(
                                tracks@,
                            ) + rest0);
                        }
                    }
                },
            }
            i = i + 1;
        }
        let result = MIDIFileData { format, num_tracks, tracks, time_division };
        proof {
            if let Ok((all, _)) = spec_parse_tracks(buffer@, p5, num_tracks as nat) {
                assert(all =~= track_views(tracks@));
            }
        }
        Ok(result)
    }
}

} // verus!
