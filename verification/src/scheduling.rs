//! From a configuration to the schedule of a run: the segments to play,
//! in order, each a bar at one tempo for a number of repetitions.

use vstd::prelude::*;
use crate::composition::Beat;
use crate::configuration::{Configuration, Settings};

verus! {

/// One stretch of a run: a bar, a tempo, and how often the bar is played
/// at that tempo. A segment marked `stop` plays nothing: the run ends
/// where it is reached.
#[derive(Debug)]
pub struct Schedule {
    /// Quarter notes a minute.
    pub tempo: u32,
    /// How often the bar is played.
    pub bars: u32,
    pub bar: Vec<Beat>,
    /// What ends the line of each repetition, if anything.
    pub lf: Option<char>,
    pub stop: bool,
}

/// A segment as a plain record.
pub struct Segment {
    pub tempo: int,
    pub bars: int,
    pub bar: Seq<Beat>,
    pub lf: Option<char>,
    pub stop: bool,
}

impl View for Schedule {
    type V = Segment;

    open spec fn view(&self) -> Segment {
        Segment {
            tempo: self.tempo as int,
            bars: self.bars as int,
            bar: self.bar@,
            lf: self.lf,
            stop: self.stop,
        }
    }
}

/// The segments that a schedule holds.
pub open spec fn segments(schedule: Seq<Schedule>) -> Seq<Segment> {
    Seq::new(schedule.len(), |i: int| schedule[i]@)
}

/// The step that is out of range.
#[derive(Clone, Copy, Debug, PartialEq, Eq, Structural)]
pub enum Step {
    Increase,
    Decrease,
}

/// What is amiss between the mode and the steps.
#[derive(Clone, Copy, Debug, PartialEq, Eq, Structural)]
pub enum Conflict {
    /// A sweep with a step of zero.
    SweepStep,
    /// A ramp whose step down is the larger one.
    Descent,
}

/// Why no schedule could be built.
#[derive(Clone, Copy, Debug, PartialEq, Eq, Structural)]
pub enum ScheduleError {
    /// A step is larger than the distance between the two tempos.
    RangeViolation(Step),
    /// The steps do not go with the mode.
    ModeConflict(Conflict),
}

impl ScheduleError {
    pub open spec fn text(self) -> Seq<char> {
        match self {
            ScheduleError::RangeViolation(Step::Increase) =>
                "Increase argument can't be higher than difference between low and high"@,
            ScheduleError::RangeViolation(Step::Decrease) =>
                "Decrease argument can't be higher than difference between low and high"@,
            ScheduleError::ModeConflict(Conflict::SweepStep) =>
                "Both increase and decrease argument must be non zero when in sweep mode"@,
            ScheduleError::ModeConflict(Conflict::Descent) =>
                "Increase must be larger or equal to decrease (unless in sweep mode)"@,
        }
    }

    /// The error as a sentence for the user.
    pub fn message(&self) -> (m: String)
        ensures
            m@ == self.text(),
    {
        match self {
            ScheduleError::RangeViolation(Step::Increase) => String::from_str(
                "Increase argument can't be higher than difference between low and high",
            ),
            ScheduleError::RangeViolation(Step::Decrease) => String::from_str(
                "Decrease argument can't be higher than difference between low and high",
            ),
            ScheduleError::ModeConflict(Conflict::SweepStep) => String::from_str(
                "Both increase and decrease argument must be non zero when in sweep mode",
            ),
            ScheduleError::ModeConflict(Conflict::Descent) => String::from_str(
                "Increase must be larger or equal to decrease (unless in sweep mode)",
            ),
        }
    }
}

/// The four ways in which the tempo moves through a run.
#[derive(Clone, Copy, Debug, PartialEq, Eq, Structural)]
pub enum Mode {
    /// Up from the lower tempo, down again, and so on for ever.
    Sweep,
    /// The lower tempo and the upper tempo in turn, for ever.
    Burst,
    /// The lower tempo and one step above it in turn, for ever.
    Loop,
    /// Up and down by turns, the steps up the larger, until the upper
    /// tempo is passed.
    Ramp,
}

/// The distance between the two tempos.
pub open spec fn span(c: Settings) -> int {
    c.upper_tempo - c.lower_tempo
}

/// The mode that a configuration asks for: a sweep goes before a burst,
/// a burst before the loop that equal steps ask for.
pub open spec fn mode_of(c: Settings) -> Mode {
    if c.sweep {
        Mode::Sweep
    } else if c.burst > 0 {
        Mode::Burst
    } else if c.increase == c.decrease {
        Mode::Loop
    } else {
        Mode::Ramp
    }
}

/// What stands in the way of a schedule, if anything. The steps are held
/// against the distance between the tempos first, the step up before the
/// step down; then the steps are held against the mode.
pub open spec fn schedule_error(c: Settings) -> Option<ScheduleError> {
    if c.increase > span(c) {
        Some(ScheduleError::RangeViolation(Step::Increase))
    } else if c.decrease > span(c) {
        Some(ScheduleError::RangeViolation(Step::Decrease))
    } else if mode_of(c) == Mode::Sweep && (c.increase == 0 || c.decrease == 0) {
        Some(ScheduleError::ModeConflict(Conflict::SweepStep))
    } else if mode_of(c) == Mode::Ramp && c.increase < c.decrease {
        Some(ScheduleError::ModeConflict(Conflict::Descent))
    } else {
        None
    }
}

/// The bar of the configuration at `tempo`, `bars` times.
pub open spec fn main_segment(c: Settings, tempo: int, bars: int) -> Segment {
    Segment { tempo, bars, bar: c.bar, lf: c.bar_lf, stop: false }
}

/// The bar that announces `tempo`, once.
pub open spec fn warn_segment(c: Settings, tempo: int) -> Segment {
    Segment { tempo, bars: 1, bar: c.warn_bar, lf: c.warn_bar_lf, stop: false }
}

/// The segment at which a run ends.
pub open spec fn stop_segment(c: Settings) -> Segment {
    Segment { tempo: 0, bars: 0, bar: c.bar, lf: c.bar_lf, stop: true }
}

/// The whole number nearest to `n / d`, the halves taken upwards.
pub open spec fn rounded(n: int, d: int) -> int {
    (2 * n + d) / (2 * d)
}

/// How often the bar is played at `tempo`, once the run has left its
/// first tempo: as often as at the first, or, where the count adapts, the
/// more often the higher the tempo.
pub open spec fn count_at(c: Settings, tempo: int) -> int {
    if c.adaptive {
        rounded(tempo, c.lower_tempo * c.bars)
    } else {
        c.bars
    }
}

/// A tempo and how often the bar is played at it.
pub struct Stage {
    pub tempo: int,
    pub bars: int,
}

/// The segments that play `stages` one after the other. Each stage
/// becomes a segment of the bar. Where changes of tempo are announced, a
/// stage whose tempo differs from that of the stage before it follows a
/// segment of the announcing bar at the new tempo.
pub open spec fn rollout(c: Settings, stages: Seq<Stage>) -> Seq<Segment>
    decreases stages.len(),
{
    if stages.len() == 0 {
        Seq::empty()
    } else {
        let before = rollout(c, stages.drop_last());
        let stage = stages.last();
        if c.warn && stages.len() >= 2 && stages[stages.len() - 2].tempo != stage.tempo {
            before.push(warn_segment(c, stage.tempo)).push(
                main_segment(c, stage.tempo, stage.bars),
            )
        } else {
            before.push(main_segment(c, stage.tempo, stage.bars))
        }
    }
}

/// The segments of a run that plays `stages` again and again. Where
/// changes of tempo are announced and the last tempo is not the first,
/// the first tempo is announced at the end.
pub open spec fn cycle(c: Settings, stages: Seq<Stage>) -> Seq<Segment> {
    if c.warn && stages.len() >= 1 && stages.last().tempo != stages[0].tempo {
        rollout(c, stages).push(warn_segment(c, stages[0].tempo))
    } else {
        rollout(c, stages)
    }
}

/// The stage that stands at place `k` of a run and has `tempo`: the
/// first stage plays the bar as often as the configuration says, the
/// later ones as often as their tempo asks for.
pub open spec fn stage_at(c: Settings, k: int, tempo: int) -> Stage {
    Stage { tempo, bars: if k == 0 { c.bars } else { count_at(c, tempo) } }
}

/// A burst: the lower tempo, then the upper tempo for as long as the
/// burst lasts.
pub open spec fn burst_stages(c: Settings) -> Seq<Stage> {
    seq![
        Stage { tempo: c.lower_tempo, bars: c.bars },
        Stage { tempo: c.upper_tempo, bars: c.burst },
    ]
}

/// A loop: the lower tempo, then one step above it.
pub open spec fn loop_stages(c: Settings) -> Seq<Stage> {
    seq![
        Stage { tempo: c.lower_tempo, bars: c.bars },
        Stage { tempo: c.lower_tempo + c.increase, bars: c.bars },
    ]
}

/// Adds the bar at `tempo`, `bars` times.
fn add_bar(conf: &Configuration, tempo: u32, bars: u32, sched: &mut Vec<Schedule>)
    ensures
        segments(final(sched)@) == segments(old(sched)@).push(
            main_segment(conf@, tempo as int, bars as int),
        ),
{
    sched.push(
        Schedule {
            tempo,
            bars,
            bar: conf.bar().beats.clone(),
            lf: conf.bar().line_terminator,
            stop: false,
        },
    );
    assert(segments(sched@) == segments(old(sched)@).push(
        main_segment(conf@, tempo as int, bars as int),
    ));
}

/// Adds the bar that announces `tempo`, once.
fn add_warn_bar(conf: &Configuration, tempo: u32, sched: &mut Vec<Schedule>)
    ensures
        segments(final(sched)@) == segments(old(sched)@).push(warn_segment(conf@, tempo as int)),
{
    sched.push(
        Schedule {
            tempo,
            bars: 1,
            bar: conf.warn_bar().beats.clone(),
            lf: conf.warn_bar().line_terminator,
            stop: false,
        },
    );
    assert(segments(sched@) == segments(old(sched)@).push(warn_segment(conf@, tempo as int)));
}

/// Adds the segment at which the run ends.
fn add_stop_bar(conf: &Configuration, sched: &mut Vec<Schedule>)
    ensures
        segments(final(sched)@) == segments(old(sched)@).push(stop_segment(conf@)),
{
    sched.push(
        Schedule {
            tempo: 0,
            bars: 0,
            bar: conf.bar().beats.clone(),
            lf: conf.bar().line_terminator,
            stop: true,
        },
    );
    assert(segments(sched@) == segments(old(sched)@).push(stop_segment(conf@)));
}

/// What `rollout` makes of two stages.
pub proof fn lemma_rollout_pair(c: Settings, first: Stage, second: Stage)
    ensures
        rollout(c, seq![first, second]) == if c.warn && first.tempo != second.tempo {
            seq![
                main_segment(c, first.tempo, first.bars),
                warn_segment(c, second.tempo),
                main_segment(c, second.tempo, second.bars),
            ]
        } else {
            seq![
                main_segment(c, first.tempo, first.bars),
                main_segment(c, second.tempo, second.bars),
            ]
        },
{
    let both = seq![first, second];
    assert(both.drop_last() == seq![first]);
    assert(seq![first].drop_last() == Seq::<Stage>::empty());
    reveal_with_fuel(rollout, 3);
}

/// Fills an empty schedule with a burst.
fn schedule_burst(conf: &Configuration, sched: &mut Vec<Schedule>)
    requires
        old(sched)@.len() == 0,
    ensures
        segments(final(sched)@) == cycle(conf@, burst_stages(conf@)),
{
    proof {
        lemma_rollout_pair(conf@, burst_stages(conf@)[0], burst_stages(conf@)[1]);
        assert(burst_stages(conf@) == seq![burst_stages(conf@)[0], burst_stages(conf@)[1]]);
    }
    let lower: u32 = conf.lower_tempo() as u32;
    let upper: u32 = conf.upper_tempo() as u32;
    add_bar(conf, lower, conf.bars() as u32, sched);
    if conf.warn() && lower != upper {
        add_warn_bar(conf, upper, sched);
    }
    add_bar(conf, upper, conf.burst() as u32, sched);
    if conf.warn() && lower != upper {
        add_warn_bar(conf, lower, sched);
    }
}

/// Fills an empty schedule with a loop.
fn schedule_loop(conf: &Configuration, sched: &mut Vec<Schedule>)
    requires
        old(sched)@.len() == 0,
    ensures
        segments(final(sched)@) == cycle(conf@, loop_stages(conf@)),
{
    proof {
        lemma_rollout_pair(conf@, loop_stages(conf@)[0], loop_stages(conf@)[1]);
        assert(loop_stages(conf@) == seq![loop_stages(conf@)[0], loop_stages(conf@)[1]]);
    }
    proof {
        use_type_invariant(conf);
    }
    assert(conf@.wf());
    let first: u32 = conf.lower_tempo() as u32;
    let second: u32 = first + conf.increase() as u32;
    add_bar(conf, first, conf.bars() as u32, sched);
    if conf.warn() && conf.increase() > 0 {
        add_warn_bar(conf, second, sched);
    }
    add_bar(conf, second, conf.bars() as u32, sched);
    if conf.warn() && conf.increase() > 0 {
        add_warn_bar(conf, first, sched);
    }
}

// ---------------------------------------------------------------------
// Sweep
// ---------------------------------------------------------------------

/// The number of steps up that a sweep takes from the lower tempo
/// without passing the upper one.
pub open spec fn climb(c: Settings) -> int {
    span(c) / c.increase
}

/// The number of stages on the way down. The way down begins one step
/// below the upper tempo, whatever that step leads to, and goes on as
/// long as the tempo stays above the lower one.
pub open spec fn descent(c: Settings) -> int {
    let above = (span(c) - 1) / c.decrease;
    if above >= 1 {
        above
    } else {
        1
    }
}

/// The tempo of stage `k` of a sweep: `k` steps above the lower tempo
/// on the way up; on the way down, below the upper tempo by as many
/// steps as the way down has taken.
pub open spec fn sweep_tempo(c: Settings, k: int) -> int {
    if k <= climb(c) {
        c.lower_tempo + k * c.increase
    } else {
        c.upper_tempo - (k - climb(c)) * c.decrease
    }
}

/// The stages of one round of a sweep.
pub open spec fn sweep_stages(c: Settings) -> Seq<Stage> {
    Seq::new((climb(c) + 1 + descent(c)) as nat, |k: int| stage_at(c, k, sweep_tempo(c, k)))
}

/// As many copies of a positive `d` as `n` says fit into `x` just when
/// `n` is no more than the quotient of the two.
proof fn lemma_fits(n: int, x: int, d: int)
    requires
        d > 0,
    ensures
        n * d <= x <==> n <= x / d,
{
    vstd::arithmetic::div_mod::lemma_fundamental_div_mod(x, d);
    vstd::arithmetic::div_mod::lemma_mod_bound(x, d);
    let q = x / d;
    if n <= q {
        assert(n * d <= q * d) by (nonlinear_arith)
            requires
                n <= q,
                d > 0,
        ;
        assert(d * q == q * d) by (nonlinear_arith);
    } else {
        assert(n * d >= (q + 1) * d) by (nonlinear_arith)
            requires
                n >= q + 1,
                d > 0,
        ;
        assert((q + 1) * d == d * q + d) by (nonlinear_arith);
    }
}

/// One copy more.
proof fn lemma_one_more(n: int, d: int)
    ensures
        (n + 1) * d == n * d + d,
{
    assert((n + 1) * d == n * d + d) by (nonlinear_arith);
}

/// How the rollout grows by the stage at place `k`.
proof fn lemma_rollout_next(c: Settings, stages: Seq<Stage>, k: int)
    requires
        1 <= k < stages.len(),
    ensures
        rollout(c, stages.take(k + 1)) == if c.warn && stages[k - 1].tempo != stages[k].tempo {
            rollout(c, stages.take(k)).push(warn_segment(c, stages[k].tempo)).push(
                main_segment(c, stages[k].tempo, stages[k].bars),
            )
        } else {
            rollout(c, stages.take(k)).push(main_segment(c, stages[k].tempo, stages[k].bars))
        },
{
    let grown = stages.take(k + 1);
    assert(grown.drop_last() == stages.take(k));
    assert(grown.last() == stages[k]);
    assert(grown[grown.len() - 2] == stages[k - 1]);
}

/// The rollout of the first stage alone.
proof fn lemma_rollout_first(c: Settings, stages: Seq<Stage>)
    requires
        stages.len() >= 1,
    ensures
        rollout(c, stages.take(1)) == seq![main_segment(c, stages[0].tempo, stages[0].bars)],
{
    let one = stages.take(1);
    assert(one.drop_last() == Seq::<Stage>::empty());
    assert(one.last() == stages[0]);
    reveal_with_fuel(rollout, 2);
}

/// The way down of a sweep begins one step below the upper tempo.
proof fn lemma_first_step_down(c: Settings)
    ensures
        sweep_tempo(c, climb(c) + 1) == c.upper_tempo - c.decrease,
{
    let one = climb(c) + 1 - climb(c);
    assert(one * c.decrease == c.decrease) by (nonlinear_arith)
        requires
            one == 1,
    ;
}

/// How a sweep gets from one stage to the next.
proof fn lemma_sweep_step(c: Settings, k: int)
    requires
        c.wf(),
        1 <= c.increase <= span(c),
        1 <= c.decrease <= span(c),
        1 <= k <= climb(c) + 1 + descent(c),
    ensures
        climb(c) >= 1,
        c.lower_tempo <= sweep_tempo(c, k - 1) <= c.upper_tempo,
        // on the way up
        k - 1 <= climb(c) && sweep_tempo(c, k - 1) + c.increase <= c.upper_tempo ==> k <= climb(c)
            && sweep_tempo(c, k) == sweep_tempo(c, k - 1) + c.increase,
        k - 1 <= climb(c) && sweep_tempo(c, k - 1) + c.increase > c.upper_tempo ==> k == climb(c)
            + 1 && sweep_tempo(c, k) == c.upper_tempo - c.decrease,
        // on the way down
        k - 1 > climb(c) && sweep_tempo(c, k - 1) - c.decrease > c.lower_tempo ==> k < climb(c)
            + 1 + descent(c) && sweep_tempo(c, k) == sweep_tempo(c, k - 1) - c.decrease,
        k - 1 > climb(c) && sweep_tempo(c, k - 1) - c.decrease <= c.lower_tempo ==> k == climb(c)
            + 1 + descent(c),
{
    let up = c.increase;
    let down = c.decrease;
    let top = climb(c);
    lemma_fits(1, span(c), up);
    lemma_fits(k - 1, span(c), up);
    lemma_fits(k, span(c), up);
    lemma_one_more(k - 1, up);
    if k - 1 <= top {
        assert((k - 1) * up >= 0) by (nonlinear_arith)
            requires
                k - 1 >= 0,
                up >= 0,
        ;
        if k == top + 1 {
            lemma_first_step_down(c);
        }
    } else {
        let j = k - 1 - top;
        lemma_one_more(j, down);
        lemma_fits(j, span(c) - 1, down);
        lemma_fits(j + 1, span(c) - 1, down);
        lemma_fits(1, span(c) - 1, down);
        assert(j * down >= down) by (nonlinear_arith)
            requires
                j >= 1,
                down >= 0,
        ;
        if j >= 2 {
            // the way down is past its first stage, which only a tempo
            // above the lower one allows
            assert(descent(c) >= 2);
            assert(j <= (span(c) - 1) / down);
        }
    }
}

/// How often the bar is played at `tempo` where the count adapts.
fn adaptive_bars(conf: &Configuration, tempo: u32) -> (count: u32)
    requires
        tempo <= 1000,
    ensures
        count == rounded(tempo as int, conf@.lower_tempo * conf@.bars),
{
    proof {
        use_type_invariant(conf);
    }
    let lower: u32 = conf.lower_tempo() as u32;
    let bars: u32 = conf.bars() as u32;
    assert(1 <= lower * bars <= 500 * 255) by (nonlinear_arith)
        requires
            1 <= lower <= 500,
            1 <= bars <= 255,
    ;
    let unit: u32 = lower * bars;
    (2 * tempo + unit) / (2 * unit)
}

/// Fills an empty schedule with one round of a sweep: up by the step up
/// until the upper tempo would be passed, then down by the step down,
/// beginning one step below the upper tempo, as long as the tempo stays
/// above the lower one.
fn schedule_sweep(conf: &Configuration, sched: &mut Vec<Schedule>)
    requires
        old(sched)@.len() == 0,
        1 <= conf@.increase <= span(conf@),
        1 <= conf@.decrease <= span(conf@),
    ensures
        segments(final(sched)@) == cycle(conf@, sweep_stages(conf@)),
{
    proof {
        use_type_invariant(conf);
    }
    let lower: i64 = conf.lower_tempo() as i64;
    let upper: i64 = conf.upper_tempo() as i64;
    let mut bars: u32 = conf.bars() as u32;
    let mut tempo: i64 = lower;
    let mut last_tempo: i64 = lower;
    let mut incrementor: i64 = conf.increase() as i64;
    let ghost stages = sweep_stages(conf@);
    let ghost mut k: int = 1;

    add_bar(conf, tempo as u32, bars, sched);
    proof {
        lemma_sweep_step(conf@, 1);
        lemma_rollout_first(conf@, stages);
        assert(segments(sched@) == rollout(conf@, stages.take(1)));
    }

    loop
        invariant_except_break
            tempo == last_tempo,
            incrementor == conf@.increase ==> k - 1 <= climb(conf@),
            incrementor != conf@.increase ==> incrementor == -conf@.decrease && k - 1 > climb(
                conf@,
            ),
        invariant
            conf@.wf(),
            1 <= conf@.increase <= span(conf@),
            1 <= conf@.decrease <= span(conf@),
            lower == conf@.lower_tempo,
            upper == conf@.upper_tempo,
            stages == sweep_stages(conf@),
            1 <= k <= stages.len(),
            segments(sched@) == rollout(conf@, stages.take(k)),
            last_tempo == stages[k - 1].tempo,
            lower <= last_tempo <= upper,
            !conf@.adaptive ==> bars == conf@.bars,
        ensures
            k == stages.len(),
        decreases stages.len() - k,
    {
        proof {
            lemma_sweep_step(conf@, k);
        }
        tempo += incrementor;
        if tempo > upper {
            incrementor = -(conf.decrease() as i64);
            tempo = upper;
            tempo += incrementor;
        } else if tempo <= lower {
            break ;
        }
        if conf.adaptive() {
            bars = adaptive_bars(conf, tempo as u32);
        }
        proof {
            lemma_rollout_next(conf@, stages, k);
        }
        if conf.warn() && tempo != last_tempo {
            add_warn_bar(conf, tempo as u32, sched);
        }
        add_bar(conf, tempo as u32, bars, sched);
        last_tempo = tempo;
        proof {
            k = k + 1;
        }
    }
    assert(stages.take(k) == stages);
    if conf.warn() && last_tempo != lower {
        add_warn_bar(conf, lower as u32, sched);
    }
}

// ---------------------------------------------------------------------
// Ramp
// ---------------------------------------------------------------------

/// The tempo of stage `k` of a ramp. With a step down, the steps go up
/// and down by turns, the first of them up, so that stage `k` has gone up
/// once more than down where `k` is odd. Without one, every step goes up.
pub open spec fn ramp_tempo(c: Settings, k: int) -> int {
    if c.decrease == 0 {
        c.lower_tempo + k * c.increase
    } else {
        c.lower_tempo + ((k + 1) / 2) * c.increase - (k / 2) * c.decrease
    }
}

/// The number of stages of a ramp: those before the first whose tempo
/// would be above the upper one.
pub open spec fn ramp_len(c: Settings) -> int {
    if c.decrease == 0 {
        span(c) / c.increase + 1
    } else {
        2 * ((span(c) - c.increase) / (c.increase - c.decrease)) + 3
    }
}

/// The stages of a ramp.
pub open spec fn ramp_stages(c: Settings) -> Seq<Stage> {
    Seq::new(ramp_len(c) as nat, |k: int| stage_at(c, k, ramp_tempo(c, k)))
}

/// How a ramp gets from one stage to the next, and where it ends.
proof fn lemma_ramp_step(c: Settings, k: int)
    requires
        c.wf(),
        c.decrease < c.increase <= span(c),
        1 <= k <= ramp_len(c),
    ensures
        c.lower_tempo <= ramp_tempo(c, k - 1) <= c.upper_tempo,
        ramp_tempo(c, k) == ramp_tempo(c, k - 1) + if c.decrease == 0 || k % 2 == 1 {
            c.increase
        } else {
            -c.decrease
        },
        ramp_tempo(c, k) >= c.lower_tempo,
        ramp_tempo(c, k) > c.upper_tempo <==> k == ramp_len(c),
{
    let up = c.increase;
    let down = c.decrease;
    if down == 0 {
        lemma_one_more(k - 1, up);
        lemma_fits(k - 1, span(c), up);
        lemma_fits(k, span(c), up);
        assert((k - 1) * up >= 0) by (nonlinear_arith)
            requires
                k - 1 >= 0,
                up >= 0,
        ;
    } else {
        let gain = up - down;
        let rounds = (span(c) - up) / gain;
        let j = k / 2;
        assert(j * gain == j * up - j * down) by (nonlinear_arith)
            requires
                gain == up - down,
        ;
        assert(j * gain >= 0) by (nonlinear_arith)
            requires
                j >= 0,
                gain >= 0,
        ;
        lemma_one_more(j, up);
        lemma_one_more(j - 1, up);
        lemma_one_more(j - 1, down);
        lemma_fits(j, span(c) - up, gain);
        lemma_fits(j - 1, span(c) - up, gain);
        lemma_one_more(j - 1, gain);
        if k % 2 == 1 {
            // stage k - 1 is stage 2j, stage k is stage 2j + 1
            assert((k + 1) / 2 == j + 1);
            assert((k - 1) / 2 == j);
        } else {
            // stage k - 1 is stage 2j - 1, stage k is stage 2j
            assert((k + 1) / 2 == j);
            assert((k - 1) / 2 == j - 1);
        }
    }
}

/// Fills an empty schedule with a ramp: up and down by turns until the
/// tempo leaves the range between the two tempos, and the stop after
/// that.
fn schedule_increase(conf: &Configuration, sched: &mut Vec<Schedule>)
    requires
        old(sched)@.len() == 0,
        conf@.decrease < conf@.increase <= span(conf@),
    ensures
        segments(final(sched)@) == rollout(conf@, ramp_stages(conf@)).push(stop_segment(conf@)),
{
    proof {
        use_type_invariant(conf);
    }
    let lower: i64 = conf.lower_tempo() as i64;
    let upper: i64 = conf.upper_tempo() as i64;
    let mut bars: u32 = conf.bars() as u32;
    let mut tempo: i64 = lower;
    let mut last_tempo: i64 = lower;
    let up: i64 = conf.increase() as i64;
    let down: i64 = if conf.decrease() > 0 {
        -(conf.decrease() as i64)
    } else {
        up
    };
    let mut rising: bool = true;
    let ghost stages = ramp_stages(conf@);
    let ghost mut k: int = 1;

    add_bar(conf, tempo as u32, bars, sched);
    proof {
        lemma_ramp_step(conf@, 1);
        lemma_rollout_first(conf@, stages);
        assert(segments(sched@) == rollout(conf@, stages.take(1)));
    }

    loop
        invariant_except_break
            tempo == last_tempo,
            rising == (k % 2 == 1),
            segments(sched@) == rollout(conf@, stages.take(k)),
        invariant
            conf@.wf(),
            conf@.decrease < conf@.increase <= span(conf@),
            lower == conf@.lower_tempo,
            upper == conf@.upper_tempo,
            up == conf@.increase,
            down == if conf@.decrease == 0 {
                conf@.increase
            } else {
                -conf@.decrease
            },
            stages == ramp_stages(conf@),
            1 <= k <= stages.len(),
            last_tempo == stages[k - 1].tempo,
            lower <= last_tempo <= upper,
            !conf@.adaptive ==> bars == conf@.bars,
        ensures
            segments(sched@) == rollout(conf@, stages).push(stop_segment(conf@)),
        decreases stages.len() - k,
    {
        proof {
            lemma_ramp_step(conf@, k);
        }
        tempo += if rising {
            up
        } else {
            down
        };
        rising = !rising;
        if tempo > upper || tempo < lower {
            assert(stages.take(k) == stages);
            add_stop_bar(conf, sched);
            break ;
        }
        if conf.adaptive() {
            bars = adaptive_bars(conf, tempo as u32);
        }
        proof {
            lemma_rollout_next(conf@, stages, k);
        }
        if conf.warn() && tempo != last_tempo {
            add_warn_bar(conf, tempo as u32, sched);
        }
        add_bar(conf, tempo as u32, bars, sched);
        last_tempo = tempo;
        proof {
            k = k + 1;
        }
    }
}

// ---------------------------------------------------------------------
// The schedule
// ---------------------------------------------------------------------

/// The stages that a configuration asks for.
pub open spec fn stages_of(c: Settings) -> Seq<Stage> {
    match mode_of(c) {
        Mode::Sweep => sweep_stages(c),
        Mode::Burst => burst_stages(c),
        Mode::Loop => loop_stages(c),
        Mode::Ramp => ramp_stages(c),
    }
}

/// The segments of the run that a configuration asks for. A ramp ends
/// with the segment that stops the run. The other modes are played again
/// and again and hold no such segment.
pub open spec fn plan(c: Settings) -> Seq<Segment> {
    match mode_of(c) {
        Mode::Ramp => rollout(c, stages_of(c)).push(stop_segment(c)),
        _ => cycle(c, stages_of(c)),
    }
}

/// What `schedule` makes of a configuration.
pub open spec fn schedule_of(c: Settings) -> Result<Seq<Segment>, ScheduleError> {
    match schedule_error(c) {
        Some(e) => Err(e),
        None => Ok(plan(c)),
    }
}

/// That `r` is what `schedule` returns for `c`.
pub open spec fn built(c: Settings, r: Result<Vec<Schedule>, ScheduleError>) -> bool {
    match schedule_of(c) {
        Ok(plan) => r matches Ok(sched) && segments(sched@) == plan,
        Err(e) => r matches Err(f) && f == e,
    }
}

/// Builds the schedule of a run. The steps are checked first: no
/// schedule is begun where one of them is turned down.
pub fn schedule(conf: &Configuration) -> (r: Result<Vec<Schedule>, ScheduleError>)
    ensures
        built(conf@, r),
        r matches Ok(sched) ==> sched@.len() >= 1 && playable(segments(sched@), conf@.max_ticks),
{
    proof {
        use_type_invariant(conf);
        if schedule_error(conf@) is None {
            lemma_plan_playable(conf@);
        }
    }
    let mut sched: Vec<Schedule> = Vec::new();
    let span: u16 = conf.upper_tempo() - conf.lower_tempo();

    if conf.increase() as u16 > span {
        return Err(ScheduleError::RangeViolation(Step::Increase));
    }
    if conf.decrease() as u16 > span {
        return Err(ScheduleError::RangeViolation(Step::Decrease));
    }
    if conf.sweep() {
        if conf.increase() == 0 || conf.decrease() == 0 {
            return Err(ScheduleError::ModeConflict(Conflict::SweepStep));
        }
        schedule_sweep(conf, &mut sched);
    } else if conf.burst() > 0 {
        schedule_burst(conf, &mut sched);
    } else if conf.increase() == conf.decrease() {
        schedule_loop(conf, &mut sched);
    } else {
        if conf.increase() < conf.decrease() {
            return Err(ScheduleError::ModeConflict(Conflict::Descent));
        }
        schedule_increase(conf, &mut sched);
    }
    Ok(sched)
}

// ---------------------------------------------------------------------
// What holds of every schedule
// ---------------------------------------------------------------------

/// That a schedule can be played on `channels` channels: every segment
/// that is played has a tempo, and a bar with no more beats than there
/// are channels.
pub open spec fn playable(plan: Seq<Segment>, channels: int) -> bool {
    forall|i: int|
        0 <= i < plan.len() && !(#[trigger] plan[i]).stop ==> plan[i].tempo >= 1
            && plan[i].bar.len() <= channels
}

/// That `segment` plays one of the two bars of `c` at the tempo of one of
/// `stages`.
pub open spec fn plays_stage(c: Settings, stages: Seq<Stage>, segment: Segment) -> bool {
    &&& !segment.stop
    &&& (segment.bar == c.bar && segment.lf == c.bar_lf) || (segment.bar == c.warn_bar
        && segment.lf == c.warn_bar_lf && segment.bars == 1)
    &&& exists|k: int| 0 <= k < stages.len() && segment.tempo == (#[trigger] stages[k]).tempo
}

/// A rollout holds a segment for each stage at least, stops nowhere, and
/// plays nothing but the two bars at the tempos of the stages.
pub proof fn lemma_rollout_members(c: Settings, stages: Seq<Stage>)
    ensures
        stages.len() <= rollout(c, stages).len() <= 2 * stages.len(),
        forall|i: int|
            0 <= i < rollout(c, stages).len() ==> plays_stage(
                c,
                stages,
                #[trigger] rollout(c, stages)[i],
            ),
    decreases stages.len(),
{
    if stages.len() > 0 {
        let shorter = stages.drop_last();
        lemma_rollout_members(c, shorter);
        let before = rollout(c, shorter);
        let all = rollout(c, stages);
        assert forall|i: int| 0 <= i < all.len() implies plays_stage(c, stages, #[trigger] all[i]) by {
            if i < before.len() {
                assert(all[i] == before[i]);
                assert(plays_stage(c, shorter, before[i]));
                let k = choose|k: int|
                    0 <= k < shorter.len() && before[i].tempo == (#[trigger] shorter[k]).tempo;
                assert(stages[k] == shorter[k]);
            } else {
                assert(all[i].tempo == stages[stages.len() - 1].tempo);
            }
        }
    }
}

/// The stages of a run are at least one, and none of them leaves the
/// range between the two tempos.
pub proof fn lemma_stages_in_range(c: Settings)
    requires
        c.wf(),
        schedule_error(c) is None,
    ensures
        stages_of(c).len() >= 1,
        stages_of(c)[0].tempo == c.lower_tempo,
        stages_of(c)[0].bars == c.bars,
        forall|k: int|
            0 <= k < stages_of(c).len() ==> c.lower_tempo <= (#[trigger] stages_of(c)[k]).tempo
                <= c.upper_tempo,
{
    let stages = stages_of(c);
    match mode_of(c) {
        Mode::Sweep => {
            lemma_sweep_step(c, 1);
            assert forall|k: int| 0 <= k < stages.len() implies c.lower_tempo <= (
            #[trigger] stages[k]).tempo <= c.upper_tempo by {
                lemma_sweep_step(c, k + 1);
            }
        },
        Mode::Ramp => {
            lemma_ramp_step(c, 1);
            assert forall|k: int| 0 <= k < stages.len() implies c.lower_tempo <= (
            #[trigger] stages[k]).tempo <= c.upper_tempo by {
                lemma_ramp_step(c, k + 1);
            }
        },
        _ => {},
    }
}

/// Every schedule that is built can be played on as many channels as
/// the longer bar has beats, and begins with the bar at the lower tempo.
pub proof fn lemma_plan_playable(c: Settings)
    requires
        c.wf(),
        schedule_error(c) is None,
    ensures
        plan(c).len() >= 1,
        plan(c)[0] == main_segment(c, c.lower_tempo, c.bars),
        playable(plan(c), c.max_ticks),
{
    let stages = stages_of(c);
    lemma_stages_in_range(c);
    lemma_rollout_members(c, stages);
    lemma_rollout_begins(c, stages);
    let rolled = rollout(c, stages);
    let all = plan(c);
    assert forall|i: int| 0 <= i < all.len() && !(#[trigger] all[i]).stop implies all[i].tempo >= 1
        && all[i].bar.len() <= c.max_ticks by {
        if i < rolled.len() {
            assert(all[i] == rolled[i]);
            assert(plays_stage(c, stages, rolled[i]));
        }
    }
}

/// A rollout begins with the first stage.
pub proof fn lemma_rollout_begins(c: Settings, stages: Seq<Stage>)
    requires
        stages.len() >= 1,
    ensures
        rollout(c, stages).len() >= 1,
        rollout(c, stages)[0] == main_segment(c, stages[0].tempo, stages[0].bars),
    decreases stages.len(),
{
    if stages.len() == 1 {
        assert(stages.take(1) == stages);
        lemma_rollout_first(c, stages);
    } else {
        let shorter = stages.drop_last();
        lemma_rollout_begins(c, shorter);
        assert(shorter[0] == stages[0]);
    }
}

/// A ramp ends with the segment that stops the run, and holds no other
/// such segment: nothing behind a stop is ever reached. The schedules of
/// the other modes hold none.
pub proof fn lemma_stop_placement(c: Settings)
    requires
        c.wf(),
        schedule_error(c) is None,
    ensures
        mode_of(c) == Mode::Ramp ==> plan(c).last().stop && forall|i: int|
            0 <= i < plan(c).len() - 1 ==> !(#[trigger] plan(c)[i]).stop,
        mode_of(c) != Mode::Ramp ==> forall|i: int|
            0 <= i < plan(c).len() ==> !(#[trigger] plan(c)[i]).stop,
{
    let stages = stages_of(c);
    lemma_rollout_members(c, stages);
    let rolled = rollout(c, stages);
    let all = plan(c);
    assert forall|i: int| 0 <= i < rolled.len() implies !(#[trigger] all[i]).stop by {
        assert(all[i] == rolled[i]);
        assert(plays_stage(c, stages, rolled[i]));
    }
}

/// Building twice from one configuration gives the same outcome: the
/// same segments in the same order, or the same error.
pub proof fn lemma_schedule_repeatable(
    c: Settings,
    first: Result<Vec<Schedule>, ScheduleError>,
    second: Result<Vec<Schedule>, ScheduleError>,
)
    requires
        built(c, first),
        built(c, second),
    ensures
        first is Ok <==> second is Ok,
        first is Ok ==> segments(first->Ok_0@) == segments(second->Ok_0@),
        first is Err ==> first->Err_0 == second->Err_0,
{
}

/// A sweep whose steps are in range, one of them zero, is turned down
/// for the conflict between the mode and the steps.
pub proof fn lemma_sweep_needs_steps(c: Settings)
    requires
        c.sweep,
        c.increase <= span(c),
        c.decrease <= span(c),
        c.increase == 0 || c.decrease == 0,
    ensures
        schedule_of(c) == Err::<Seq<Segment>, ScheduleError>(
            ScheduleError::ModeConflict(Conflict::SweepStep),
        ),
{
}

/// A ramp without a step down climbs by its step up from stage to stage,
/// from the lower tempo to the last tempo that is not above the upper
/// one.
pub proof fn lemma_ramp_climbs(c: Settings)
    requires
        c.wf(),
        schedule_error(c) is None,
        mode_of(c) == Mode::Ramp,
        c.decrease == 0,
    ensures
        forall|k: int|
            0 <= k < ramp_stages(c).len() ==> (#[trigger] ramp_stages(c)[k]).tempo
                == c.lower_tempo + k * c.increase,
        forall|j: int, k: int|
            0 <= j && k == j + 1 && k < ramp_stages(c).len() ==> (#[trigger] ramp_stages(
                c,
            )[k]).tempo == (#[trigger] ramp_stages(c)[j]).tempo + c.increase,
        ramp_stages(c).last().tempo <= c.upper_tempo < ramp_stages(c).last().tempo + c.increase,
{
    let stages = ramp_stages(c);
    lemma_ramp_step(c, 1);
    lemma_ramp_step(c, ramp_len(c));
    assert forall|j: int, k: int| 0 <= j && k == j + 1 && k < stages.len() implies (
    #[trigger] stages[k]).tempo == (#[trigger] stages[j]).tempo + c.increase by {
        lemma_ramp_step(c, k);
    }
}

/// How the stage at place `k` of a ramp follows from the one before it.
proof fn lemma_ramp_stage(c: Settings, k: int)
    requires
        c.wf(),
        c.decrease < c.increase <= span(c),
        1 <= k < ramp_len(c),
    ensures
        ramp_stages(c).len() == ramp_len(c),
        ramp_stages(c)[k].tempo == ramp_stages(c)[k - 1].tempo + if c.decrease == 0 || k % 2
            == 1 {
            c.increase
        } else {
            -c.decrease
        },
{
    lemma_ramp_step(c, k);
}

/// A ramp with a step down has an odd number of stages, and one step up
/// from its last stage leads above the upper tempo.
proof fn lemma_ramp_end(c: Settings)
    requires
        c.wf(),
        0 < c.decrease < c.increase <= span(c),
    ensures
        ramp_len(c) % 2 == 1,
        ramp_len(c) >= 3,
        ramp_tempo(c, ramp_len(c) - 1) + c.increase > c.upper_tempo,
{
    let rounds = (span(c) - c.increase) / (c.increase - c.decrease);
    lemma_fits(0, span(c) - c.increase, c.increase - c.decrease);
    assert(rounds >= 0);
    assert(ramp_len(c) == 2 * rounds + 3);
    lemma_ramp_step(c, ramp_len(c));
}

/// A ramp with a step down goes up by its step up and down by its step
/// down by turns, the first step up. It has an odd number of stages, and
/// one step up from the last of them leads above the upper tempo.
pub proof fn lemma_ramp_alternates(c: Settings)
    requires
        c.wf(),
        schedule_error(c) is None,
        mode_of(c) == Mode::Ramp,
        c.decrease > 0,
    ensures
        ramp_stages(c).len() % 2 == 1,
        forall|j: int, k: int|
            0 <= j && k == j + 1 && k < ramp_stages(c).len() ==> (#[trigger] ramp_stages(
                c,
            )[k]).tempo == (#[trigger] ramp_stages(c)[j]).tempo + if k % 2 == 1 {
                c.increase
            } else {
                -c.decrease
            },
        ramp_stages(c).last().tempo + c.increase > c.upper_tempo,
{
    let stages = ramp_stages(c);
    lemma_ramp_end(c);
    assert(stages.last() == stages[ramp_len(c) - 1]);
    assert forall|j: int, k: int| 0 <= j && k == j + 1 && k < stages.len() implies (
    #[trigger] stages[k]).tempo == (#[trigger] stages[j]).tempo + if k % 2 == 1 {
        c.increase
    } else {
        -c.decrease
    } by {
        lemma_ramp_stage(c, k);
    }
}

/// Where the count adapts, a higher tempo never gets fewer repetitions.
pub proof fn lemma_count_grows_with_tempo(c: Settings, slower: int, faster: int)
    requires
        c.wf(),
        0 <= slower <= faster,
    ensures
        0 <= count_at(c, slower) <= count_at(c, faster),
{
    let unit = c.lower_tempo * c.bars;
    assert(unit >= 1) by (nonlinear_arith)
        requires
            unit == c.lower_tempo * c.bars,
            c.lower_tempo >= 1,
            c.bars >= 1,
    ;
    vstd::arithmetic::div_mod::lemma_div_is_ordered(2 * slower + unit, 2 * faster + unit, 2 * unit);
    vstd::arithmetic::div_mod::lemma_div_pos_is_pos(2 * slower + unit, 2 * unit);
}

/// The tempos of a sweep go up by the step up to the stage at which the
/// way up ends, turn one step down from the upper tempo, and go down by
/// the step down from there on. They stay between the two tempos of the
/// configuration.
pub proof fn lemma_sweep_rises_then_falls(c: Settings)
    requires
        c.wf(),
        schedule_error(c) is None,
        mode_of(c) == Mode::Sweep,
    ensures
        1 <= climb(c) < sweep_stages(c).len() - 1,
        forall|j: int, k: int|
            0 <= j && k == j + 1 && k <= climb(c) ==> (#[trigger] sweep_stages(c)[k]).tempo == (
            #[trigger] sweep_stages(c)[j]).tempo + c.increase,
        sweep_stages(c)[climb(c) + 1].tempo == c.upper_tempo - c.decrease,
        forall|j: int, k: int|
            climb(c) < j && k == j + 1 && k < sweep_stages(c).len() ==> (#[trigger] sweep_stages(
                c,
            )[k]).tempo == (#[trigger] sweep_stages(c)[j]).tempo - c.decrease,
        forall|k: int|
            0 <= k < sweep_stages(c).len() ==> c.lower_tempo <= (#[trigger] sweep_stages(
                c,
            )[k]).tempo <= c.upper_tempo,
{
    let stages = sweep_stages(c);
    lemma_sweep_step(c, 1);
    lemma_stages_in_range(c);
    lemma_first_step_down(c);
    assert forall|j: int, k: int| 0 <= j && k == j + 1 && k <= climb(c) implies (
    #[trigger] stages[k]).tempo == (#[trigger] stages[j]).tempo + c.increase by {
        lemma_one_more(j, c.increase);
    }
    assert forall|j: int, k: int| climb(c) < j && k == j + 1 && k < stages.len() implies (
    #[trigger] stages[k]).tempo == (#[trigger] stages[j]).tempo - c.decrease by {
        lemma_one_more(j - climb(c), c.decrease);
    }
}

} // verus!
