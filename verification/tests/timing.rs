use midi_player::timing::{Tempo, TimeDivision, TimeSpan, SMPTE};

#[test]
fn test_tempo_conversions() {
    assert_eq!(Tempo::from_bpm(120).as_mpqn(), 500000);
    assert_eq!(Tempo::from_bpm(120).as_bpm(), 120);
    assert_eq!(Tempo::from_mpqn(250000).as_bpm(), 240);
    assert_eq!(Tempo::from_mpqn(1000000).as_bpm(), 60);
    assert_eq!(Tempo::default().as_mpqn(), 500000);
}

#[test]
fn test_tick_duration_ticks_per_quarter_note() {
    // 500000 microseconds per quarter note over 96 ticks, truncated to
    // whole nanoseconds.
    let td = TimeDivision::TicksPerBit(96);
    let tick = td.tick_duration(Tempo::default());
    assert_eq!(tick.as_nanos(), 5208333);

    let td1 = TimeDivision::TicksPerBit(1);
    assert_eq!(td1.tick_duration(Tempo::from_mpqn(1000000)).as_nanos(), 1000000000);
}

#[test]
fn test_tick_duration_smpte() {
    let td = TimeDivision::FramesPerSecond(SMPTE::_24, 8);
    assert_eq!(td.tick_duration(Tempo::default()).as_nanos(), 5208333);

    // The 29.97 rate rounds 29.97 x 4 down to 119 ticks per second.
    let td2997 = TimeDivision::FramesPerSecond(SMPTE::_29_97, 4);
    assert_eq!(td2997.tick_duration(Tempo::default()).as_nanos(), 8403361);

    // SMPTE mode ignores the tempo.
    assert_eq!(td2997.tick_duration(Tempo::from_mpqn(1)).as_nanos(), 8403361);
}

#[test]
fn test_time_span() {
    assert_eq!(TimeSpan::zero().as_nanos(), 0);
    assert_eq!(TimeSpan::from_nanos(42).as_nanos(), 42);
    assert_eq!(TimeSpan::from_nanos(7), TimeSpan::from_nanos(7));
}
