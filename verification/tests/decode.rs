use midi_player::events::{ChannelEventKind, MIDIEvent, MIDIEventKind, MIDIFileError, MetaEvent};
use midi_player::decode::MIDIFileData;
use midi_player::timing::{TimeDivision, SMPTE};

/// A single-track file at 96 ticks per quarter note: NoteOn (channel 0,
/// note 60, velocity 64), 96 ticks later NoteOff (velocity 32), then
/// EndOfTrack.
fn simple_file() -> Vec<u8> {
    let mut bytes: Vec<u8> = Vec::new();
    bytes.extend_from_slice(b"MThd");
    bytes.extend_from_slice(&[0x00, 0x00, 0x00, 0x06]);
    bytes.extend_from_slice(&[0x00, 0x00]); // format 0
    bytes.extend_from_slice(&[0x00, 0x01]); // one track
    bytes.extend_from_slice(&[0x00, 0x60]); // 96 ticks per quarter note
    bytes.extend_from_slice(b"MTrk");
    bytes.extend_from_slice(&[0x00, 0x00, 0x00, 0x0C]);
    bytes.extend_from_slice(&[0x00, 0x90, 0x3C, 0x40]);
    bytes.extend_from_slice(&[0x60, 0x80, 0x3C, 0x20]);
    bytes.extend_from_slice(&[0x00, 0xFF, 0x2F, 0x00]);
    bytes
}

#[test]
fn test_midi_success() {
    let midi_bytes = simple_file();
    let midi = MIDIFileData::try_from(&midi_bytes[..]).unwrap();

    let track = midi.tracks().first().unwrap();
    let last_event = track.events().last().unwrap();

    assert!(matches!(last_event.kind(), MIDIEventKind::Meta(MetaEvent::EndOfTrack)))
}

#[test]
fn test_decoded_structure() {
    let midi_bytes = simple_file();
    let midi = MIDIFileData::try_from(&midi_bytes[..]).unwrap();

    assert_eq!(midi.format(), 0);
    assert_eq!(midi.num_tracks(), 1);
    assert_eq!(midi.tracks().len(), 1);
    assert!(matches!(midi.time_division(), TimeDivision::TicksPerBit(96)));

    // The event count matches a byte-level count of the events in the
    // track chunk: NoteOn, NoteOff, EndOfTrack.
    let events: &Vec<MIDIEvent> = midi.tracks()[0].events();
    assert_eq!(events.len(), 3);

    assert_eq!(events[0].delta_time(), 0);
    match events[0].kind() {
        MIDIEventKind::Channel(ce) => {
            assert_eq!(ce.channel(), 0);
            assert!(
                matches!(ce.kind(), ChannelEventKind::NoteOn { note: 0x3C, velocity: 0x40 })
            );
        },
        _ => panic!("expected a channel event"),
    }

    assert_eq!(events[1].delta_time(), 0x60);
    match events[1].kind() {
        MIDIEventKind::Channel(ce) => {
            assert!(
                matches!(ce.kind(), ChannelEventKind::NoteOff { note: 0x3C, velocity: 0x20 })
            );
        },
        _ => panic!("expected a channel event"),
    }

    assert_eq!(events[2].delta_time(), 0);
}

#[test]
fn test_header_magic_mismatch() {
    let mut bytes = simple_file();
    bytes[0] = b'X'; // "XThd"
    let result = MIDIFileData::try_from(&bytes[..]);
    assert!(matches!(result, Err(MIDIFileError::HeaderMismatch)));
}

#[test]
fn test_header_size_mismatch() {
    let mut bytes = simple_file();
    bytes[7] = 0x07;
    let result = MIDIFileData::try_from(&bytes[..]);
    assert!(matches!(result, Err(MIDIFileError::HeaderSizeMismatch)));
}

#[test]
fn test_unsupported_format_type() {
    let mut bytes = simple_file();
    bytes[9] = 0x02;
    let result = MIDIFileData::try_from(&bytes[..]);
    assert!(matches!(result, Err(MIDIFileError::UnsupportedType)));
}

#[test]
fn test_multi_track_format_accepted() {
    // Format 1 (multi-track simultaneous) with two copies of the track.
    let mut bytes: Vec<u8> = Vec::new();
    bytes.extend_from_slice(b"MThd");
    bytes.extend_from_slice(&[0x00, 0x00, 0x00, 0x06]);
    bytes.extend_from_slice(&[0x00, 0x01]);
    bytes.extend_from_slice(&[0x00, 0x02]);
    bytes.extend_from_slice(&[0x00, 0x60]);
    for _ in 0..2 {
        bytes.extend_from_slice(b"MTrk");
        bytes.extend_from_slice(&[0x00, 0x00, 0x00, 0x04]);
        bytes.extend_from_slice(&[0x00, 0xFF, 0x2F, 0x00]);
    }
    let midi = MIDIFileData::try_from(&bytes[..]).unwrap();
    assert_eq!(midi.format(), 1);
    assert_eq!(midi.num_tracks(), 2);
    assert_eq!(midi.tracks().len(), 2);
}

#[test]
fn test_truncated_track_count() {
    let bytes: Vec<u8> = vec![
        0x4D, 0x54, 0x68, 0x64, 0x00, 0x00, 0x00, 0x06, 0x00, 0x00,
    ];
    let result = MIDIFileData::try_from(&bytes[..]);
    assert!(matches!(result, Err(MIDIFileError::InvalidTrackCount)));
}

#[test]
fn test_truncated_time_division() {
    let bytes: Vec<u8> = vec![
        0x4D, 0x54, 0x68, 0x64, 0x00, 0x00, 0x00, 0x06, 0x00, 0x00, 0x00, 0x01,
    ];
    let result = MIDIFileData::try_from(&bytes[..]);
    assert!(matches!(result, Err(MIDIFileError::InvalidTimeDivision)));
}

#[test]
fn test_invalid_smpte_code() {
    // Top bit set selects SMPTE mode; frame-rate code 23 is not one of
    // 24, 25, 29 or 30.
    let mut bytes = simple_file();
    bytes[12] = 0x97;
    bytes[13] = 0x04;
    let result = MIDIFileData::try_from(&bytes[..]);
    assert!(matches!(result, Err(MIDIFileError::InvalidSMPTEValue)));
}

#[test]
fn test_smpte_time_division_parsed() {
    let mut bytes = simple_file();
    bytes[12] = 0x99; // code 25
    bytes[13] = 0x28; // 40 subframe ticks
    let midi = MIDIFileData::try_from(&bytes[..]).unwrap();
    assert!(matches!(midi.time_division(), TimeDivision::FramesPerSecond(SMPTE::_25, 40)));
}

#[test]
fn test_invalid_track_magic() {
    let mut bytes = simple_file();
    bytes[17] = b'X'; // "MTrX"
    let result = MIDIFileData::try_from(&bytes[..]);
    assert!(matches!(result, Err(MIDIFileError::InvalidTrackChunk)));
}

#[test]
fn test_track_chunk_underrun() {
    let mut bytes = simple_file();
    bytes.truncate(bytes.len() - 2);
    let result = MIDIFileData::try_from(&bytes[..]);
    assert!(matches!(result, Err(MIDIFileError::InvalidTrackChunk)));
}

#[test]
fn test_sysex_unsupported() {
    let mut bytes = simple_file();
    bytes[23] = 0xF0; // status of the first event
    let result = MIDIFileData::try_from(&bytes[..]);
    assert!(matches!(result, Err(MIDIFileError::UnsupportedEvent)));
}

#[test]
fn test_invalid_track_event_type() {
    let mut bytes = simple_file();
    bytes[23] = 0x70; // status nibble 0x7 selects no channel event
    let result = MIDIFileData::try_from(&bytes[..]);
    assert!(matches!(result, Err(MIDIFileError::InvalidTrackEventType)));
}

#[test]
fn test_missing_end_of_track() {
    // A chunk that runs out before its EndOfTrack event.
    let mut bytes: Vec<u8> = Vec::new();
    bytes.extend_from_slice(b"MThd");
    bytes.extend_from_slice(&[0x00, 0x00, 0x00, 0x06]);
    bytes.extend_from_slice(&[0x00, 0x00, 0x00, 0x01, 0x00, 0x60]);
    bytes.extend_from_slice(b"MTrk");
    bytes.extend_from_slice(&[0x00, 0x00, 0x00, 0x04]);
    bytes.extend_from_slice(&[0x00, 0x90, 0x3C, 0x40]);
    let result = MIDIFileData::try_from(&bytes[..]);
    assert!(matches!(result, Err(MIDIFileError::InvalidEvent)));
}

#[test]
fn test_meta_event_underrun() {
    let mut bytes: Vec<u8> = Vec::new();
    bytes.extend_from_slice(b"MThd");
    bytes.extend_from_slice(&[0x00, 0x00, 0x00, 0x06]);
    bytes.extend_from_slice(&[0x00, 0x00, 0x00, 0x01, 0x00, 0x60]);
    bytes.extend_from_slice(b"MTrk");
    bytes.extend_from_slice(&[0x00, 0x00, 0x00, 0x02]);
    bytes.extend_from_slice(&[0x00, 0xFF]);
    let result = MIDIFileData::try_from(&bytes[..]);
    assert!(matches!(result, Err(MIDIFileError::InvalidMetaEvent)));
}

#[test]
fn test_unexpected_meta_length() {
    let mut bytes: Vec<u8> = Vec::new();
    bytes.extend_from_slice(b"MThd");
    bytes.extend_from_slice(&[0x00, 0x00, 0x00, 0x06]);
    bytes.extend_from_slice(&[0x00, 0x00, 0x00, 0x01, 0x00, 0x60]);
    bytes.extend_from_slice(b"MTrk");
    bytes.extend_from_slice(&[0x00, 0x00, 0x00, 0x05]);
    bytes.extend_from_slice(&[0x00, 0xFF, 0x2F, 0x01, 0x00]);
    let result = MIDIFileData::try_from(&bytes[..]);
    match result {
        Err(MIDIFileError::UnexpectedMetaLength(event_type, length)) => {
            assert_eq!(event_type, 0x2F);
            assert_eq!(length, 1);
        },
        _ => panic!("expected an unexpected-meta-length error"),
    }
}

#[test]
fn test_meta_payloads_decoded() {
    // A track whose events exercise the text, tempo and unknown meta
    // kinds.
    let mut data: Vec<u8> = Vec::new();
    data.extend_from_slice(&[0x00, 0xFF, 0x03, 0x03]);
    data.extend_from_slice(b"abc"); // track name
    data.extend_from_slice(&[0x00, 0xFF, 0x51, 0x03, 0x07, 0xA1, 0x20]); // tempo 500000
    data.extend_from_slice(&[0x00, 0xFF, 0x59, 0x02, 0x01, 0x02]); // unknown type
    data.extend_from_slice(&[0x00, 0xFF, 0x2F, 0x00]);

    let mut bytes: Vec<u8> = Vec::new();
    bytes.extend_from_slice(b"MThd");
    bytes.extend_from_slice(&[0x00, 0x00, 0x00, 0x06]);
    bytes.extend_from_slice(&[0x00, 0x00, 0x00, 0x01, 0x00, 0x60]);
    bytes.extend_from_slice(b"MTrk");
    bytes.extend_from_slice(&[0x00, 0x00, 0x00, data.len() as u8]);
    bytes.extend_from_slice(&data);

    let midi = MIDIFileData::try_from(&bytes[..]).unwrap();
    let events = midi.tracks()[0].events();
    assert_eq!(events.len(), 4);
    match events[0].kind() {
        MIDIEventKind::Meta(MetaEvent::SequenceTrackName { text }) => {
            assert_eq!(text, b"abc");
        },
        _ => panic!("expected a track-name event"),
    }
    match events[1].kind() {
        MIDIEventKind::Meta(MetaEvent::SetTempo { tempo }) => {
            assert_eq!(tempo.as_mpqn(), 500000);
        },
        _ => panic!("expected a tempo event"),
    }
    match events[2].kind() {
        MIDIEventKind::Meta(MetaEvent::UnknownEvent { event_type, data }) => {
            assert_eq!(*event_type, 0x59);
            assert_eq!(data, &vec![0x01, 0x02]);
        },
        _ => panic!("expected an unknown meta event"),
    }
}

#[test]
fn test_zero_track_file() {
    let bytes: Vec<u8> = vec![
        0x4D, 0x54, 0x68, 0x64, 0x00, 0x00, 0x00, 0x06, 0x00, 0x00, 0x00, 0x00, 0x00, 0x60,
    ];
    let midi = MIDIFileData::try_from(&bytes[..]).unwrap();
    assert_eq!(midi.num_tracks(), 0);
    assert_eq!(midi.tracks().len(), 0);
}
