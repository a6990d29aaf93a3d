use metronome::configuration::{build_config, Args, Configuration};
use metronome::scheduling::{schedule, Conflict, Schedule, ScheduleError, Step};

fn base(lower: u16, upper: u16, increase: u8, decrease: u8) -> Args {
    Args {
        lower,
        upper,
        increase,
        decrease,
        n_bars: 1,
        burst: 0,
        sweep: false,
        adaptive: false,
        composition: None,
        warn: None,
    }
}

fn config(args: Args) -> Configuration {
    assert!(args.is_valid());
    build_config(args).unwrap()
}

fn tempos(sched: &[Schedule]) -> Vec<u32> {
    sched.iter().map(|s| s.tempo).collect()
}

/// How the segments read: (tempo, repetitions, kind), the kind `m` for the
/// bar, `w` for the bar that announces a tempo, `s` for the stop.
fn shape(conf: &Configuration, sched: &[Schedule]) -> Vec<(u32, u32, char)> {
    sched
        .iter()
        .map(|s| {
            let kind = if s.stop {
                's'
            } else if s.bar == conf.warn_bar().beats && s.lf == conf.warn_bar().line_terminator {
                'w'
            } else {
                'm'
            };
            if kind == 'm' || kind == 's' {
                assert_eq!(s.bar, conf.bar().beats);
                assert_eq!(s.lf, conf.bar().line_terminator);
            }
            (s.tempo, s.bars, kind)
        })
        .collect()
}

/// The schedule as the loops of a plain program would build it.
fn by_hand(a: &Args) -> Result<Vec<(u32, u32, char)>, ScheduleError> {
    let lower = a.lower as i64;
    let upper = if a.upper > a.lower { a.upper as i64 } else { lower };
    let inc = a.increase as i64;
    let dec = a.decrease as i64;
    let warn = a.warn.is_some();
    let n_bars = a.n_bars as i64;
    let count = |tempo: i64| -> i64 {
        if a.adaptive {
            f64::round(tempo as f64 / (lower * n_bars) as f64) as i64
        } else {
            n_bars
        }
    };
    let mut out: Vec<(u32, u32, char)> = Vec::new();
    if inc > upper - lower {
        return Err(ScheduleError::RangeViolation(Step::Increase));
    }
    if dec > upper - lower {
        return Err(ScheduleError::RangeViolation(Step::Decrease));
    }
    if a.sweep {
        if inc == 0 || dec == 0 {
            return Err(ScheduleError::ModeConflict(Conflict::SweepStep));
        }
        let mut tempo = lower;
        let mut last = lower;
        let mut step = inc;
        out.push((lower as u32, n_bars as u32, 'm'));
        loop {
            tempo += step;
            if tempo > upper {
                step = -dec;
                tempo = upper + step;
            } else if tempo <= lower {
                break;
            }
            if warn && tempo != last {
                out.push((tempo as u32, 1, 'w'));
            }
            out.push((tempo as u32, count(tempo) as u32, 'm'));
            last = tempo;
        }
        if warn && last != lower {
            out.push((lower as u32, 1, 'w'));
        }
    } else if a.burst > 0 {
        out.push((lower as u32, n_bars as u32, 'm'));
        if warn && lower != upper {
            out.push((upper as u32, 1, 'w'));
        }
        out.push((upper as u32, a.burst as u32, 'm'));
        if warn && lower != upper {
            out.push((lower as u32, 1, 'w'));
        }
    } else if inc == dec {
        out.push((lower as u32, n_bars as u32, 'm'));
        if warn && inc > 0 {
            out.push(((lower + inc) as u32, 1, 'w'));
        }
        out.push(((lower + inc) as u32, n_bars as u32, 'm'));
        if warn && inc > 0 {
            out.push((lower as u32, 1, 'w'));
        }
    } else {
        if inc < dec {
            return Err(ScheduleError::ModeConflict(Conflict::Descent));
        }
        let steps = [inc, if dec > 0 { -dec } else { inc }];
        let mut turn = 0;
        let mut tempo = lower;
        let mut last = lower;
        out.push((lower as u32, n_bars as u32, 'm'));
        loop {
            tempo += steps[turn];
            turn ^= 1;
            if tempo > upper || tempo < lower {
                out.push((0, 0, 's'));
                break;
            }
            if warn && tempo != last {
                out.push((tempo as u32, 1, 'w'));
            }
            out.push((tempo as u32, count(tempo) as u32, 'm'));
            last = tempo;
        }
    }
    Ok(out)
}

fn copy(a: &Args) -> Args {
    Args {
        lower: a.lower,
        upper: a.upper,
        increase: a.increase,
        decrease: a.decrease,
        n_bars: a.n_bars,
        burst: a.burst,
        sweep: a.sweep,
        adaptive: a.adaptive,
        composition: a.composition.clone(),
        warn: a.warn.clone(),
    }
}

fn check_against_hand(a: &Args) {
    let conf = config(copy(a));
    let expected = by_hand(a);
    match schedule(&conf) {
        Ok(sched) => assert_eq!(Ok(shape(&conf, &sched)), expected),
        Err(e) => assert_eq!(Err(e), expected),
    }
}

#[test]
fn sweep_with_a_zero_step_is_a_mode_conflict() {
    let conf = config(Args { sweep: true, ..base(60, 120, 0, 10) });
    assert_eq!(schedule(&conf).err(), Some(ScheduleError::ModeConflict(Conflict::SweepStep)));
    let conf = config(Args { sweep: true, ..base(60, 120, 10, 0) });
    assert_eq!(schedule(&conf).err(), Some(ScheduleError::ModeConflict(Conflict::SweepStep)));
    let conf = config(Args { sweep: true, ..base(60, 120, 0, 0) });
    assert!(matches!(schedule(&conf), Err(ScheduleError::ModeConflict(_))));
}

#[test]
fn steps_beyond_the_span_are_range_violations() {
    let conf = config(base(60, 120, 61, 0));
    assert_eq!(schedule(&conf).err(), Some(ScheduleError::RangeViolation(Step::Increase)));
    let conf = config(base(60, 120, 10, 61));
    assert_eq!(schedule(&conf).err(), Some(ScheduleError::RangeViolation(Step::Decrease)));
    // the step up is looked at first
    let conf = config(base(60, 120, 100, 100));
    assert_eq!(schedule(&conf).err(), Some(ScheduleError::RangeViolation(Step::Increase)));
    // the range goes before the mode
    let conf = config(Args { sweep: true, ..base(60, 120, 0, 100) });
    assert_eq!(schedule(&conf).err(), Some(ScheduleError::RangeViolation(Step::Decrease)));
    // a step as large as the span is in range
    let conf = config(base(60, 120, 60, 0));
    assert!(schedule(&conf).is_ok());
    // an upper tempo below the lower one leaves no room for a step
    let conf = config(base(120, 60, 1, 0));
    assert_eq!(schedule(&conf).err(), Some(ScheduleError::RangeViolation(Step::Increase)));
}

#[test]
fn ramp_with_the_larger_step_down_is_a_mode_conflict() {
    let conf = config(base(60, 120, 5, 10));
    assert_eq!(schedule(&conf).err(), Some(ScheduleError::ModeConflict(Conflict::Descent)));
    // a burst does not mind
    let conf = config(Args { burst: 2, ..base(60, 120, 5, 10) });
    assert!(schedule(&conf).is_ok());
}

#[test]
fn ramp_climbs_by_its_step_and_ends_with_a_stop() {
    let conf = config(base(60, 180, 5, 0));
    let sched = schedule(&conf).unwrap();
    assert_eq!(sched.len(), 26);
    for k in 0..25 {
        assert_eq!(sched[k].tempo, 60 + 5 * k as u32);
        assert_eq!(sched[k].bars, 1);
        assert!(!sched[k].stop);
        assert_eq!(sched[k].bar, conf.bar().beats);
    }
    assert_eq!(sched[24].tempo, 180);
    let last = sched.last().unwrap();
    assert!(last.stop);
    assert_eq!((last.tempo, last.bars), (0, 0));
    assert_eq!(sched.iter().filter(|s| s.stop).count(), 1);
}

#[test]
fn ramp_that_does_not_reach_the_upper_tempo_stops_below_it() {
    let conf = config(base(60, 100, 15, 0));
    let sched = schedule(&conf).unwrap();
    assert_eq!(shape(&conf, &sched), vec![(60, 1, 'm'), (75, 1, 'm'), (90, 1, 'm'), (0, 0, 's')]);
}

#[test]
fn ramp_with_a_step_down_goes_up_and_down_by_turns() {
    let conf = config(base(60, 100, 10, 5));
    let sched = schedule(&conf).unwrap();
    assert_eq!(
        tempos(&sched),
        vec![60, 70, 65, 75, 70, 80, 75, 85, 80, 90, 85, 95, 90, 100, 95, 0]
    );
    assert!(sched.last().unwrap().stop);
    assert_eq!(sched.iter().filter(|s| s.stop).count(), 1);
}

#[test]
fn ramp_announces_each_new_tempo() {
    let conf = config(Args { warn: Some(None), n_bars: 3, ..base(60, 80, 10, 0) });
    let sched = schedule(&conf).unwrap();
    assert_eq!(
        shape(&conf, &sched),
        vec![(60, 3, 'm'), (70, 1, 'w'), (70, 3, 'm'), (80, 1, 'w'), (80, 3, 'm'), (0, 0, 's')]
    );
    assert_eq!(sched[1].bar, conf.warn_bar().beats);
    assert_eq!(sched[1].lf, None);
    assert_eq!(sched[0].lf, Some('\n'));
}

#[test]
fn sweep_goes_up_and_comes_down_again() {
    let conf = config(Args { sweep: true, ..base(60, 120, 10, 10) });
    let sched = schedule(&conf).unwrap();
    let t = tempos(&sched);
    assert_eq!(t, vec![60, 70, 80, 90, 100, 110, 120, 110, 100, 90, 80, 70]);
    let top = t.iter().position(|&x| x == 120).unwrap();
    assert_eq!(*t.iter().max().unwrap(), 120);
    assert!(t[..=top].windows(2).all(|w| w[0] <= w[1]));
    assert!(t[top..].windows(2).all(|w| w[0] >= w[1]));
    assert!(t.iter().all(|&x| (60..=120).contains(&x)));
    assert!(sched.iter().all(|s| !s.stop));
    assert!(sched.iter().all(|s| s.bars == 1));
}

#[test]
fn sweep_announces_its_way_back_to_the_start() {
    let conf = config(Args { sweep: true, warn: Some(None), ..base(60, 80, 10, 10) });
    let sched = schedule(&conf).unwrap();
    assert_eq!(
        shape(&conf, &sched),
        vec![
            (60, 1, 'm'),
            (70, 1, 'w'),
            (70, 1, 'm'),
            (80, 1, 'w'),
            (80, 1, 'm'),
            (70, 1, 'w'),
            (70, 1, 'm'),
            (60, 1, 'w'),
        ]
    );
}

#[test]
fn sweep_that_passes_the_upper_tempo_turns_one_step_below_it() {
    let conf = config(Args { sweep: true, ..base(60, 125, 10, 20) });
    let sched = schedule(&conf).unwrap();
    assert_eq!(tempos(&sched), vec![60, 70, 80, 90, 100, 110, 120, 105, 85, 65]);
}

#[test]
fn sweep_that_ends_on_its_first_tempo_announces_nothing_at_the_end() {
    let conf = config(Args { sweep: true, warn: Some(None), ..base(60, 70, 10, 10) });
    let sched = schedule(&conf).unwrap();
    assert_eq!(
        shape(&conf, &sched),
        vec![(60, 1, 'm'), (70, 1, 'w'), (70, 1, 'm'), (60, 1, 'w'), (60, 1, 'm')]
    );
}

#[test]
fn burst_alternates_the_two_tempos() {
    let conf = config(Args { burst: 2, n_bars: 4, ..base(60, 120, 0, 0) });
    let sched = schedule(&conf).unwrap();
    assert_eq!(shape(&conf, &sched), vec![(60, 4, 'm'), (120, 2, 'm')]);
    let conf = config(Args { burst: 2, n_bars: 4, warn: Some(None), ..base(60, 120, 0, 0) });
    let sched = schedule(&conf).unwrap();
    assert_eq!(
        shape(&conf, &sched),
        vec![(60, 4, 'm'), (120, 1, 'w'), (120, 2, 'm'), (60, 1, 'w')]
    );
    // no change of tempo, nothing to announce
    let conf = config(Args { burst: 2, n_bars: 4, warn: Some(None), ..base(60, 60, 0, 0) });
    let sched = schedule(&conf).unwrap();
    assert_eq!(sched.len(), 2);
    assert_eq!(tempos(&sched), vec![60, 60]);
    assert_eq!((sched[0].bars, sched[1].bars), (4, 2));
}

#[test]
fn sweep_goes_before_burst() {
    let conf = config(Args { sweep: true, burst: 3, ..base(60, 80, 10, 10) });
    let sched = schedule(&conf).unwrap();
    assert_eq!(tempos(&sched), vec![60, 70, 80, 70]);
}

#[test]
fn equal_steps_give_a_loop() {
    let conf = config(Args { n_bars: 2, ..base(60, 360, 0, 0) });
    let sched = schedule(&conf).unwrap();
    assert_eq!(shape(&conf, &sched), vec![(60, 2, 'm'), (60, 2, 'm')]);
    let conf = config(Args { n_bars: 2, warn: Some(None), ..base(60, 360, 0, 0) });
    assert_eq!(schedule(&conf).unwrap().len(), 2);
    let conf = config(Args { n_bars: 2, warn: Some(None), ..base(60, 360, 7, 7) });
    let sched = schedule(&conf).unwrap();
    assert_eq!(
        shape(&conf, &sched),
        vec![(60, 2, 'm'), (67, 1, 'w'), (67, 2, 'm'), (60, 1, 'w')]
    );
    // the count does not adapt in a loop
    let conf = config(Args { n_bars: 2, adaptive: true, ..base(60, 360, 7, 7) });
    let sched = schedule(&conf).unwrap();
    assert_eq!(shape(&conf, &sched), vec![(60, 2, 'm'), (67, 2, 'm')]);
}

#[test]
fn adaptive_count_is_the_rounded_ratio() {
    // 60, 90, 120, 150, 180 over 60: 1, 1.5, 2, 2.5, 3
    let conf = config(Args { adaptive: true, ..base(60, 180, 30, 0) });
    let sched = schedule(&conf).unwrap();
    assert_eq!(
        shape(&conf, &sched),
        vec![(60, 1, 'm'), (90, 2, 'm'), (120, 2, 'm'), (150, 3, 'm'), (180, 3, 'm'), (0, 0, 's')]
    );
    // 89 over 60 is below one and a half
    let conf = config(Args { adaptive: true, ..base(60, 100, 29, 0) });
    let sched = schedule(&conf).unwrap();
    assert_eq!(shape(&conf, &sched), vec![(60, 1, 'm'), (89, 1, 'm'), (0, 0, 's')]);
    // with three bars at the first tempo, the later tempos get none or one
    let conf = config(Args { adaptive: true, n_bars: 3, ..base(60, 120, 29, 0) });
    let sched = schedule(&conf).unwrap();
    assert_eq!(shape(&conf, &sched), vec![(60, 3, 'm'), (89, 0, 'm'), (118, 1, 'm'), (0, 0, 's')]);
}

#[test]
fn adaptive_count_never_falls_as_the_tempo_rises() {
    let conf = config(Args { adaptive: true, n_bars: 2, ..base(20, 500, 1, 0) });
    let sched = schedule(&conf).unwrap();
    assert_eq!(sched.len(), 482);
    // the first stage plays the bar as often as was asked for
    assert_eq!((sched[0].tempo, sched[0].bars), (20, 2));
    assert!(sched[1..481].windows(2).all(|w| w[0].tempo < w[1].tempo && w[0].bars <= w[1].bars));
    // 21 over 40 rounds up to 1, 500 over 40 is twelve and a half
    assert_eq!((sched[1].tempo, sched[1].bars), (21, 1));
    assert_eq!((sched[480].tempo, sched[480].bars), (500, 13));
}

#[test]
fn building_twice_gives_the_same_schedule() {
    let all = [
        Args { sweep: true, warn: Some(None), adaptive: true, ..base(60, 120, 10, 7) },
        Args { burst: 3, warn: Some(None), ..base(60, 120, 10, 7) },
        base(60, 120, 10, 10),
        Args { adaptive: true, warn: Some(Some("8sp 8ss".to_string())), ..base(60, 120, 10, 7) },
        Args { sweep: true, ..base(60, 120, 0, 7) },
    ];
    for a in all.iter() {
        let conf = config(copy(a));
        let first = schedule(&conf);
        let second = schedule(&conf);
        let again = schedule(&config(copy(a)));
        match (first, second, again) {
            (Ok(x), Ok(y), Ok(z)) => {
                assert_eq!(x.len(), y.len());
                for (p, q) in x.iter().zip(y.iter()).chain(x.iter().zip(z.iter())) {
                    assert_eq!(
                        (p.tempo, p.bars, &p.bar, p.lf, p.stop),
                        (q.tempo, q.bars, &q.bar, q.lf, q.stop)
                    );
                }
                assert_eq!(x.len(), z.len());
            }
            (Err(x), Err(y), Err(z)) => {
                assert_eq!(x, y);
                assert_eq!(x, z);
            }
            _ => panic!("the outcomes differ"),
        }
    }
}

#[test]
fn every_schedule_fits_its_channels() {
    let conf = config(Args {
        sweep: true,
        warn: Some(Some("16s 16s 16s 16s 16s 16s".to_string())),
        ..base(60, 120, 10, 10)
    });
    let sched = schedule(&conf).unwrap();
    assert_eq!(conf.max_ticks(), 6);
    assert!(sched.iter().all(|s| s.stop || (s.tempo >= 1 && s.bar.len() <= conf.max_ticks())));
    assert_eq!((sched[0].tempo, sched[0].bars, sched[0].stop), (60, 1, false));
}

#[test]
fn only_a_ramp_holds_a_stop() {
    for a in [
        Args { sweep: true, ..base(60, 120, 10, 10) },
        Args { burst: 1, ..base(60, 120, 10, 5) },
        base(60, 120, 10, 10),
    ] {
        let conf = config(a);
        assert!(schedule(&conf).unwrap().iter().all(|s| !s.stop));
    }
    let conf = config(base(60, 120, 10, 5));
    let sched = schedule(&conf).unwrap();
    assert_eq!(sched.iter().position(|s| s.stop), Some(sched.len() - 1));
}

#[test]
fn schedules_match_the_loops_written_out() {
    let spans: [(u16, u16); 7] =
        [(60, 60), (60, 61), (60, 67), (60, 90), (20, 500), (480, 500), (100, 40)];
    let steps: [u8; 9] = [0, 1, 2, 3, 7, 10, 30, 31, 255];
    for (lower, upper) in spans {
        for inc in steps {
            for dec in steps {
                for flags in 0..16u8 {
                    let a = Args {
                        lower,
                        upper,
                        increase: inc,
                        decrease: dec,
                        n_bars: if flags & 8 != 0 { 3 } else { 1 },
                        burst: 0,
                        sweep: flags & 1 != 0,
                        adaptive: flags & 2 != 0,
                        composition: None,
                        warn: if flags & 4 != 0 { Some(None) } else { None },
                    };
                    check_against_hand(&a);
                }
            }
        }
    }
}

#[test]
fn bursts_match_the_loops_written_out() {
    for (lower, upper) in [(60u16, 60u16), (60, 61), (60, 200), (200, 60)] {
        for inc in [0u8, 1, 5, 141] {
            for dec in [0u8, 1, 9, 141] {
                for warn in [None, Some(None)] {
                    let a = Args { burst: 2, warn, n_bars: 5, ..base(lower, upper, inc, dec) };
                    check_against_hand(&a);
                }
            }
        }
    }
}

#[test]
fn small_sweeps_and_ramps_match_the_loops_written_out() {
    for upper in 20u16..=46 {
        for inc in 0u8..=27 {
            for dec in 0u8..=27 {
                for sweep in [false, true] {
                    let a = Args {
                        sweep,
                        adaptive: true,
                        warn: Some(None),
                        n_bars: 2,
                        ..base(20, upper, inc, dec)
                    };
                    check_against_hand(&a);
                }
            }
        }
    }
}

#[test]
fn schedule_errors_read_as_sentences() {
    assert_eq!(
        ScheduleError::RangeViolation(Step::Increase).message(),
        "Increase argument can't be higher than difference between low and high"
    );
    assert_eq!(
        ScheduleError::RangeViolation(Step::Decrease).message(),
        "Decrease argument can't be higher than difference between low and high"
    );
    assert_eq!(
        ScheduleError::ModeConflict(Conflict::SweepStep).message(),
        "Both increase and decrease argument must be non zero when in sweep mode"
    );
    assert_eq!(
        ScheduleError::ModeConflict(Conflict::Descent).message(),
        "Increase must be larger or equal to decrease (unless in sweep mode)"
    );
}
