use midi_player::decode::MIDIFileData;
use midi_player::metadata::MidiMetadata;

fn decode(bytes: &[u8]) -> MIDIFileData {
    MIDIFileData::try_from(bytes).unwrap()
}

fn file_with_track(track_data: &[u8]) -> Vec<u8> {
    let mut bytes: Vec<u8> = Vec::new();
    bytes.extend_from_slice(b"MThd");
    bytes.extend_from_slice(&[0x00, 0x00, 0x00, 0x06]);
    bytes.extend_from_slice(&[0x00, 0x00, 0x00, 0x01, 0x00, 0x60]);
    bytes.extend_from_slice(b"MTrk");
    bytes.extend_from_slice(&(track_data.len() as u32).to_be_bytes());
    bytes.extend_from_slice(track_data);
    bytes
}

#[test]
fn test_track_duration() {
    // 96 ticks at the default tempo over 96 ticks per quarter note:
    // 96 x 5208333 nanoseconds.
    let bytes = file_with_track(
        &[
            0x00, 0x90, 0x3C, 0x40, // NoteOn
            0x60, 0x80, 0x3C, 0x20, // 96 ticks later, NoteOff
            0x00, 0xFF, 0x2F, 0x00, // EndOfTrack
        ],
    );
    let midi = decode(&bytes);
    let meta = MidiMetadata::new(&midi);
    assert_eq!(meta.tracks().len(), 1);
    assert_eq!(meta.tracks()[0].duration().as_nanos(), 499999968);
    assert_eq!(meta.total_duration().as_nanos(), 499999968);
}

#[test]
fn test_set_tempo_changes_tick_duration() {
    // 96 ticks at the default tempo, a tempo change to 1000000
    // microseconds per quarter note, then 96 more ticks: the deltas
    // before the change use the old tick duration, those after use the
    // new one.
    let bytes = file_with_track(
        &[
            0x60, 0xFF, 0x51, 0x03, 0x0F, 0x42, 0x40, // SetTempo 1000000 after 96 ticks
            0x60, 0xFF, 0x2F, 0x00, // EndOfTrack after 96 more ticks
        ],
    );
    let midi = decode(&bytes);
    let meta = MidiMetadata::new(&midi);
    assert_eq!(meta.total_duration().as_nanos(), 96 * 5208333 + 96 * 10416666);
}

#[test]
fn test_channel_index_first_seen_order() {
    let bytes = file_with_track(
        &[
            0x00, 0x95, 0x3C, 0x40, // channel 5
            0x00, 0x92, 0x3C, 0x40, // channel 2
            0x00, 0x95, 0x3E, 0x40, // channel 5 again
            0x00, 0xFF, 0x2F, 0x00,
        ],
    );
    let midi = decode(&bytes);
    let meta = MidiMetadata::new(&midi);
    let track_meta = &meta.tracks()[0];
    assert_eq!(track_meta.channels(), &vec![5u8, 2u8]);
    assert_eq!(track_meta.channel_index(5), 0);
    assert_eq!(track_meta.channel_index(2), 1);
}

#[test]
fn test_events_after_end_of_track_ignored() {
    // The metadata pass stops at EndOfTrack: a channel event stored
    // after it contributes neither duration nor channels.
    let bytes = file_with_track(
        &[
            0x00, 0x93, 0x3C, 0x40, // channel 3
            0x60, 0xFF, 0x2F, 0x00, // EndOfTrack after 96 ticks
            0x60, 0x94, 0x3C, 0x40, // channel 4, never reached
        ],
    );
    let midi = decode(&bytes);
    let meta = MidiMetadata::new(&midi);
    assert_eq!(meta.tracks()[0].channels(), &vec![3u8]);
    assert_eq!(meta.total_duration().as_nanos(), 96 * 5208333);
}

#[test]
fn test_total_duration_is_max_over_tracks() {
    let mut bytes: Vec<u8> = Vec::new();
    bytes.extend_from_slice(b"MThd");
    bytes.extend_from_slice(&[0x00, 0x00, 0x00, 0x06]);
    bytes.extend_from_slice(&[0x00, 0x01, 0x00, 0x02, 0x00, 0x60]);
    // First track: 96 ticks long.
    bytes.extend_from_slice(b"MTrk");
    bytes.extend_from_slice(&[0x00, 0x00, 0x00, 0x04]);
    bytes.extend_from_slice(&[0x60, 0xFF, 0x2F, 0x00]);
    // Second track: 32 ticks long.
    bytes.extend_from_slice(b"MTrk");
    bytes.extend_from_slice(&[0x00, 0x00, 0x00, 0x04]);
    bytes.extend_from_slice(&[0x20, 0xFF, 0x2F, 0x00]);
    let midi = decode(&bytes);
    let meta = MidiMetadata::new(&midi);
    assert_eq!(meta.tracks().len(), 2);
    assert_eq!(meta.tracks()[0].duration().as_nanos(), 96 * 5208333);
    assert_eq!(meta.tracks()[1].duration().as_nanos(), 32 * 5208333);
    assert_eq!(meta.total_duration().as_nanos(), 96 * 5208333);
}

#[test]
fn test_no_tracks_zero_duration() {
    let bytes: Vec<u8> = vec![
        0x4D, 0x54, 0x68, 0x64, 0x00, 0x00, 0x00, 0x06, 0x00, 0x00, 0x00, 0x00, 0x00, 0x60,
    ];
    let midi = decode(&bytes);
    let meta = MidiMetadata::new(&midi);
    assert_eq!(meta.tracks().len(), 0);
    assert_eq!(meta.total_duration().as_nanos(), 0);
}
