use midi_player::decode::MIDIFileData;
use midi_player::synth::{MidiNote, MidiSynth};

fn file_with_track(track_data: &[u8]) -> Vec<u8> {
    let mut bytes: Vec<u8> = Vec::new();
    bytes.extend_from_slice(b"MThd");
    bytes.extend_from_slice(&[0x00, 0x00, 0x00, 0x06]);
    bytes.extend_from_slice(&[0x00, 0x00, 0x00, 0x01, 0x00, 0x60]);
    bytes.extend_from_slice(b"MTrk");
    bytes.extend_from_slice(&(track_data.len() as u32).to_be_bytes());
    bytes.extend_from_slice(track_data);
    bytes
}

fn simple_synth() -> MidiSynth {
    let bytes = file_with_track(
        &[
            0x00, 0x90, 0x3C, 0x40, // NoteOn channel 0, note 60
            0x60, 0x80, 0x3C, 0x20, // 96 ticks later, NoteOff
            0x00, 0xFF, 0x2F, 0x00, // EndOfTrack
        ],
    );
    MidiSynth::new(MIDIFileData::try_from(&bytes[..]).unwrap())
}

#[test]
fn test_midi_note() {
    assert_eq!(MidiNote::new(69).note, 69);
    assert_eq!(MidiNote::new(69), MidiNote::new(69));
}

#[test]
fn test_buffer_length_is_rounded_up_duration() {
    let synth = simple_synth();
    // Total duration 96 x 5208333 ns; at 48000 samples per second the
    // buffer holds ceil(48000 x 499999968 / 1e9) = 24000 samples.
    assert_eq!(synth.total_duration().as_nanos(), 499999968);
    let plan = synth.render_plan(48000);
    assert_eq!(plan.buffer_length, 24000);

    // The rounding is upward: at 44100 samples per second,
    // 44100 x 499999968 / 1e9 = 22049.99859 samples.
    let plan2 = synth.render_plan(44100);
    assert_eq!(plan2.buffer_length, 22050);
}

#[test]
fn test_buffer_length_zero_track_file() {
    let bytes: Vec<u8> = vec![
        0x4D, 0x54, 0x68, 0x64, 0x00, 0x00, 0x00, 0x06, 0x00, 0x00, 0x00, 0x00, 0x00, 0x60,
    ];
    let synth = MidiSynth::new(MIDIFileData::try_from(&bytes[..]).unwrap());
    let plan = synth.render_plan(48000);
    assert_eq!(plan.buffer_length, 0);
    assert_eq!(plan.tracks.len(), 0);
}

#[test]
fn test_render_plan_segments() {
    let synth = simple_synth();
    let plan = synth.render_plan(48000);
    assert_eq!(plan.tracks.len(), 1);
    let track_plan = &plan.tracks[0];
    assert_eq!(track_plan.channels, vec![0u8]);

    // One segment per event up to EndOfTrack.
    assert_eq!(track_plan.segments.len(), 3);

    // The NoteOn's delta is zero: an empty range, nothing active yet.
    assert_eq!(track_plan.segments[0].start, 0);
    assert_eq!(track_plan.segments[0].end, 0);
    assert_eq!(track_plan.segments[0].active, vec![Vec::<u8>::new()]);

    // Between NoteOn and NoteOff, note 60 is active on channel index 0
    // for round(96 x 48000 x 5208333 / 1e9) = 24000 samples.
    assert_eq!(track_plan.segments[1].start, 0);
    assert_eq!(track_plan.segments[1].end, 24000);
    assert_eq!(track_plan.segments[1].active, vec![vec![60u8]]);

    // The EndOfTrack segment is empty and silent again.
    assert_eq!(track_plan.segments[2].start, 24000);
    assert_eq!(track_plan.segments[2].end, 24000);
    assert_eq!(track_plan.segments[2].active, vec![Vec::<u8>::new()]);
}

#[test]
fn test_render_plan_chord_mean_range() {
    // Two simultaneous notes on one channel: both appear in the active
    // list of the covered range.
    let bytes = file_with_track(
        &[
            0x00, 0x90, 0x3C, 0x40, // NoteOn 60
            0x00, 0x90, 0x40, 0x40, // NoteOn 64
            0x30, 0x80, 0x3C, 0x20, // 48 ticks later NoteOff 60
            0x30, 0x80, 0x40, 0x20, // 48 ticks later NoteOff 64
            0x00, 0xFF, 0x2F, 0x00,
        ],
    );
    let synth = MidiSynth::new(MIDIFileData::try_from(&bytes[..]).unwrap());
    let plan = synth.render_plan(48000);
    let track_plan = &plan.tracks[0];
    assert_eq!(track_plan.segments.len(), 5);
    assert_eq!(track_plan.segments[2].active, vec![vec![60u8, 64u8]]);
    assert_eq!(track_plan.segments[3].active, vec![vec![64u8]]);
    // Releasing an already-inactive note leaves the list unchanged.
    assert_eq!(track_plan.segments[4].active, vec![Vec::<u8>::new()]);
}

#[test]
fn test_render_plan_segments_clamped_to_buffer() {
    // A channel event after the EndOfTrack of the longest track cannot
    // exist, but rounding can push a cursor past the buffer end; ranges
    // are clamped to the buffer length. With one track the cursor ends
    // exactly at the buffer length.
    let synth = simple_synth();
    let plan = synth.render_plan(1);
    // ceil(1 x 499999968 / 1e9) = 1 sample; round(96 x 1 x 5208333/1e9)
    // rounds 0.49999968 down to 0.
    assert_eq!(plan.buffer_length, 1);
    let track_plan = &plan.tracks[0];
    assert_eq!(track_plan.segments[1].start, 0);
    assert_eq!(track_plan.segments[1].end, 0);
}
