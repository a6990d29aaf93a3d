use metronome::composition::{Beat, SoundSource};
use metronome::configuration::{build_config, Args};
use metronome::playback::{
    is_playable, nominal_delay, sleep_duration, Action, PlaybackEngine, NANOS_PER_MILLI,
    SIXTEENTH_MILLIS,
};
use metronome::scheduling::{schedule, Schedule};

fn segment(tempo: u32, bars: u32, beats: &[(u8, SoundSource, Option<char>)], lf: Option<char>) -> Schedule {
    Schedule {
        tempo,
        bars,
        bar: beats.iter().map(|&(weight, sound, marker)| Beat { weight, sound, marker }).collect(),
        lf,
        stop: false,
    }
}

fn stop() -> Schedule {
    Schedule { tempo: 0, bars: 0, bar: vec![], lf: None, stop: true }
}

fn ms(n: u64) -> u64 {
    n * 1_000_000
}

#[test]
fn nominal_delay_is_the_length_of_the_note_in_whole_milliseconds() {
    assert_eq!((SIXTEENTH_MILLIS, NANOS_PER_MILLI), (15000, 1_000_000));
    assert_eq!(nominal_delay(4, 60), ms(1000));
    assert_eq!(nominal_delay(4, 120), ms(500));
    assert_eq!(nominal_delay(16, 60), ms(4000));
    assert_eq!(nominal_delay(1, 60), ms(250));
    assert_eq!(nominal_delay(0, 60), 0);
    assert_eq!(nominal_delay(4, 7), ms(8571));
    assert_eq!(nominal_delay(1, 500), ms(30));
    assert_eq!(nominal_delay(1, 499), ms(30));
    assert_eq!(nominal_delay(2, 499), ms(60));
    assert_eq!(nominal_delay(255, 1), ms(3_825_000));
}

#[test]
fn nominal_delay_agrees_with_the_division_in_floating_point() {
    for tempo in 1u32..=2000 {
        for weight in [0u8, 1, 2, 4, 8, 16] {
            let sixteenth: f64 = (60000f64 / tempo as f64) / 4f64;
            let expected = (weight as f64 * sixteenth) as u64;
            assert_eq!(nominal_delay(weight, tempo), ms(expected), "{} at {}", weight, tempo);
        }
    }
}

#[test]
fn sleep_is_what_is_left_of_the_delay_and_never_negative() {
    assert_eq!(sleep_duration(1000, 0), 1000);
    assert_eq!(sleep_duration(1000, 1), 999);
    assert_eq!(sleep_duration(1000, 999), 1);
    assert_eq!(sleep_duration(1000, 1000), 0);
    assert_eq!(sleep_duration(1000, 1001), 0);
    assert_eq!(sleep_duration(0, u64::MAX), 0);
    assert_eq!(sleep_duration(u64::MAX, 0), u64::MAX);
    assert_eq!(sleep_duration(0, 0), 0);
}

#[test]
fn engine_walks_a_bar_beat_by_beat() {
    let sched = vec![
        segment(
            60,
            2,
            &[(4, SoundSource::Kick, Some('*')), (2, SoundSource::Pause, None)],
            Some('\n'),
        ),
        stop(),
    ];
    let mut engine = PlaybackEngine::new(sched, 2).unwrap();
    assert_eq!(engine.channels(), 2);
    let expected = [
        Action::Announce { tempo: 60 },
        Action::Beat { sleep: 0, position: 0, sound: SoundSource::Kick, marker: Some('*') },
        Action::Beat { sleep: ms(1000), position: 1, sound: SoundSource::Pause, marker: None },
        Action::EndOfBar { lf: Some('\n') },
        Action::Beat { sleep: ms(500), position: 0, sound: SoundSource::Kick, marker: Some('*') },
        Action::Beat { sleep: ms(1000), position: 1, sound: SoundSource::Pause, marker: None },
        Action::EndOfBar { lf: Some('\n') },
        Action::Advance,
        Action::Stop,
        Action::Stop,
    ];
    for want in expected {
        assert_eq!(engine.step(0), want);
    }
}

#[test]
fn engine_takes_the_elapsed_time_off_the_delay() {
    let sched = vec![segment(120, 1, &[(4, SoundSource::HiHat, None); 4], None), stop()];
    let mut engine = PlaybackEngine::new(sched, 4).unwrap();
    assert_eq!(engine.step(123), Action::Announce { tempo: 120 });
    // the first beat follows no note: it is due at once, whatever has passed
    assert_eq!(
        engine.step(ms(3)),
        Action::Beat { sleep: 0, position: 0, sound: SoundSource::HiHat, marker: None }
    );
    assert_eq!(
        engine.step(ms(2)),
        Action::Beat { sleep: ms(498), position: 1, sound: SoundSource::HiHat, marker: None }
    );
    assert_eq!(
        engine.step(ms(500)),
        Action::Beat { sleep: 0, position: 2, sound: SoundSource::HiHat, marker: None }
    );
    assert_eq!(
        engine.step(ms(700)),
        Action::Beat { sleep: 0, position: 3, sound: SoundSource::HiHat, marker: None }
    );
    assert_eq!(engine.step(17), Action::EndOfBar { lf: None });
}

#[test]
fn engine_reports_a_tempo_only_when_it_changes() {
    let beat = [(4, SoundSource::Kick, None)];
    let sched = vec![
        segment(60, 1, &beat, None),
        segment(60, 1, &beat, None),
        segment(90, 0, &beat, None),
        segment(60, 1, &beat, None),
    ];
    let mut engine = PlaybackEngine::new(sched, 1).unwrap();
    let mut seen: Vec<Action> = Vec::new();
    for _ in 0..16 {
        seen.push(engine.step(0));
    }
    let kick = |sleep: u64| Action::Beat { sleep, position: 0, sound: SoundSource::Kick, marker: None };
    assert_eq!(
        seen,
        vec![
            Action::Announce { tempo: 60 },
            kick(0),
            Action::EndOfBar { lf: None },
            Action::Advance,
            // the same tempo again: nothing to report
            kick(ms(1000)),
            Action::EndOfBar { lf: None },
            Action::Advance,
            // a segment that plays nothing still reports its tempo
            Action::Announce { tempo: 90 },
            Action::Advance,
            Action::Announce { tempo: 60 },
            kick(ms(1000)),
            Action::EndOfBar { lf: None },
            Action::Advance,
            // round again from the first segment, whose tempo was the last reported
            kick(ms(1000)),
            Action::EndOfBar { lf: None },
            Action::Advance,
        ]
    );
}

#[test]
fn engine_carries_the_last_weight_across_segments() {
    let sched = vec![
        segment(60, 1, &[(16, SoundSource::Kick, None)], None),
        segment(120, 1, &[(1, SoundSource::Kick, None)], None),
        stop(),
    ];
    let mut engine = PlaybackEngine::new(sched, 1).unwrap();
    let mut sleeps: Vec<u64> = Vec::new();
    loop {
        match engine.step(0) {
            Action::Stop => break,
            Action::Beat { sleep, .. } => sleeps.push(sleep),
            _ => {}
        }
    }
    // the whole note of the first segment is waited for at the tempo of the second
    assert_eq!(sleeps, vec![0, ms(2000)]);
}

#[test]
fn engine_stays_at_the_stop() {
    let mut engine = PlaybackEngine::new(vec![stop(), segment(60, 1, &[(4, SoundSource::Kick, None)], None)], 1).unwrap();
    for _ in 0..5 {
        assert_eq!(engine.step(0), Action::Stop);
    }
}

#[test]
fn engine_plays_an_empty_bar_as_its_line_ends() {
    let mut engine = PlaybackEngine::new(vec![segment(60, 2, &[], Some('\n')), stop()], 0).unwrap();
    assert_eq!(engine.step(0), Action::Announce { tempo: 60 });
    assert_eq!(engine.step(0), Action::EndOfBar { lf: Some('\n') });
    assert_eq!(engine.step(0), Action::EndOfBar { lf: Some('\n') });
    assert_eq!(engine.step(0), Action::Advance);
    assert_eq!(engine.step(0), Action::Stop);
}

#[test]
fn there_is_no_engine_for_what_cannot_be_played() {
    let beat = [(4, SoundSource::Kick, None)];
    assert!(PlaybackEngine::new(vec![], 4).is_none());
    assert!(PlaybackEngine::new(vec![segment(0, 1, &beat, None)], 4).is_none());
    assert!(PlaybackEngine::new(vec![segment(60, 1, &[beat[0]; 5], None)], 4).is_none());
    assert!(PlaybackEngine::new(vec![segment(60, 1, &[beat[0]; 4], None)], 4).is_some());
    assert!(PlaybackEngine::new(vec![stop()], 0).is_some());
    assert!(is_playable(&vec![], 0));
    assert!(is_playable(&vec![stop(), segment(1, 0, &beat, None)], 1));
    assert!(!is_playable(&vec![stop(), segment(1, 0, &beat, None)], 0));
    assert!(!is_playable(&vec![segment(60, 1, &beat, None), segment(0, 1, &beat, None)], 1));
}

#[test]
fn engine_plays_a_built_schedule_to_its_stop() {
    let conf = build_config(Args {
        lower: 60,
        upper: 80,
        increase: 10,
        decrease: 0,
        n_bars: 1,
        burst: 0,
        sweep: false,
        adaptive: false,
        composition: Some("4kp 8hs 8ps".to_string()),
        warn: Some(None),
    })
    .unwrap();
    let sched = schedule(&conf).unwrap();
    let mut engine = PlaybackEngine::new(sched, conf.max_ticks()).unwrap();
    let mut tempos: Vec<u32> = Vec::new();
    let mut beats = 0;
    let mut heard = 0;
    let mut lines = 0;
    let mut steps = 0;
    loop {
        steps += 1;
        assert!(steps < 1000);
        match engine.step(0) {
            Action::Stop => break,
            Action::Advance => {}
            Action::Announce { tempo } => tempos.push(tempo),
            Action::Beat { position, sound, .. } => {
                assert!(position < conf.max_ticks());
                beats += 1;
                if sound.is_audible() {
                    heard += 1;
                }
            }
            Action::EndOfBar { lf } => {
                if lf.is_some() {
                    lines += 1;
                }
            }
        }
    }
    assert_eq!(tempos, vec![60, 70, 80]);
    // three bars of three beats, two warn bars of four
    assert_eq!(beats, 3 * 3 + 2 * 4);
    assert_eq!(heard, 3 * 2 + 2 * 4);
    assert_eq!(lines, 3);
}

#[test]
fn a_cyclic_schedule_is_played_round_and_round() {
    let conf = build_config(Args {
        lower: 60,
        upper: 120,
        increase: 0,
        decrease: 0,
        n_bars: 1,
        burst: 1,
        sweep: false,
        adaptive: false,
        composition: Some("4k".to_string()),
        warn: None,
    })
    .unwrap();
    let sched = schedule(&conf).unwrap();
    let mut engine = PlaybackEngine::new(sched, conf.max_ticks()).unwrap();
    let mut tempos: Vec<u32> = Vec::new();
    // each segment takes four steps: its tempo, its beat, the end of its bar, the way on
    for _ in 0..20 {
        match engine.step(0) {
            Action::Stop => panic!("a burst has no end"),
            Action::Announce { tempo } => tempos.push(tempo),
            _ => {}
        }
    }
    assert_eq!(tempos, vec![60, 120, 60, 120, 60]);
}

/// Drives an engine against a clock that only the simulated work and the
/// sleeps move, and returns the instants at which the beats were triggered
/// next to their nominal delays.
fn simulate(sched: Vec<Schedule>, channels: usize, work: &[u64]) -> (Vec<u64>, Vec<u64>) {
    let mut engine = PlaybackEngine::new(sched, channels).unwrap();
    let mut now: u64 = 0;
    let mut reference: u64 = 0;
    let mut instants: Vec<u64> = Vec::new();
    let mut nominal: Vec<u64> = Vec::new();
    let mut prior: u8 = 0;
    let mut tempo: u32 = 0;
    let mut turn = 0;
    loop {
        now += work[turn % work.len()];
        turn += 1;
        let elapsed = now - reference;
        match engine.step(elapsed) {
            Action::Stop => break,
            Action::Announce { tempo: t } => tempo = t,
            Action::Beat { sleep, sound: _, position: _, marker: _ } => {
                let due = nominal_delay(prior, tempo);
                assert_eq!(sleep, due.saturating_sub(elapsed));
                now += sleep;
                reference = now;
                instants.push(now);
                nominal.push(due);
                prior = 4;
            }
            _ => {}
        }
    }
    (instants, nominal)
}

#[test]
fn work_between_beats_builds_up_no_lag() {
    let sched = vec![segment(120, 50, &[(4, SoundSource::Kick, None); 4], Some('\n')), stop()];
    // some work before every step, always well below half a second a beat
    let work = [ms(1), 250_000, ms(40), 17, ms(3), 0, ms(90)];
    let (instants, nominal) = simulate(sched, 4, &work);
    assert_eq!(instants.len(), 200);
    let start = instants[0];
    let mut due = start;
    for (i, at) in instants.iter().enumerate().skip(1) {
        due += nominal[i];
        assert_eq!(*at, due, "beat {}", i);
    }
    assert_eq!(instants[199] - start, ms(500) * 199);
}

#[test]
fn work_longer_than_a_beat_delays_by_what_it_is_longer() {
    let sched = vec![segment(120, 1, &[(4, SoundSource::Kick, None); 4], None), stop()];
    // steps: announce, beat, beat, beat, beat
    let work = [0, 0, ms(10), ms(650), ms(20), 0, 0, 0];
    let (instants, _) = simulate(sched, 4, &work);
    assert_eq!(instants, vec![0, ms(500), ms(1150), ms(1650)]);
}
