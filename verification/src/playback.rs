//! The playback engine: it walks a schedule beat by beat and says, step
//! by step, what is to be done next and how long to wait before it.
//!
//! The engine does no waiting, sounding or printing of its own. Whoever
//! drives it measures the time that has passed since the last beat was
//! triggered, hands it to `step`, and carries out the action that comes
//! back.

use vstd::prelude::*;
use crate::composition::{Beat, SoundSource};
use crate::scheduling::{playable, segments, Schedule, Segment};

verus! {

/// The length of a sixteenth note at one quarter note a minute, in
/// milliseconds.
pub const SIXTEENTH_MILLIS: u64 = 15000;

pub const NANOS_PER_MILLI: u64 = 1000000;

/// The whole milliseconds that a note of `weight` sixteenths lasts at
/// `tempo` quarter notes a minute.
pub open spec fn nominal_millis(weight: int, tempo: int) -> int {
    (weight * SIXTEENTH_MILLIS) / tempo
}

/// The same in nanoseconds.
pub open spec fn nominal_nanos(weight: int, tempo: int) -> int {
    nominal_millis(weight, tempo) * NANOS_PER_MILLI
}

/// The time a beat still has to wait, once the time already spent since
/// the beat before it is taken off its nominal delay. It is never
/// negative: a beat that is late already waits no longer.
pub open spec fn remaining_delay(nominal: int, elapsed: int) -> int {
    if elapsed >= nominal {
        0
    } else {
        nominal - elapsed
    }
}

/// How long to sleep before a beat whose nominal delay is `nominal`,
/// `elapsed` after the beat before it.
pub fn sleep_duration(nominal: u64, elapsed: u64) -> (wait: u64)
    ensures
        wait == remaining_delay(nominal as int, elapsed as int),
        wait <= nominal,
        elapsed <= nominal ==> elapsed + wait == nominal,
{
    if elapsed >= nominal {
        0
    } else {
        nominal - elapsed
    }
}

/// The nominal delay, in nanoseconds, of a beat that follows a note of
/// `weight` sixteenths at `tempo`.
pub fn nominal_delay(weight: u8, tempo: u32) -> (nanos: u64)
    requires
        tempo >= 1,
    ensures
        nanos == nominal_nanos(weight as int, tempo as int),
{
    let total: u64 = weight as u64 * SIXTEENTH_MILLIS;
    let millis: u64 = total / tempo as u64;
    assert(millis <= total) by (nonlinear_arith)
        requires
            millis == total / (tempo as u64),
            tempo >= 1,
    ;
    millis * NANOS_PER_MILLI
}

/// What the driver of the engine is asked to do.
#[derive(Clone, Copy, Debug, PartialEq, Eq)]
pub enum Action {
    /// The run is over.
    Stop,
    /// Nothing: the engine has gone on to the next segment.
    Advance,
    /// Report that the tempo is now `tempo`.
    Announce { tempo: u32 },
    /// Sleep for `sleep` nanoseconds and take the time. Then, unless the
    /// sound is the pause, show the marker, if there is one, and start
    /// the sound on the channel `position`.
    Beat { sleep: u64, position: usize, sound: SoundSource, marker: Option<char> },
    /// The bar has been played once through: end its line with `lf`, if
    /// there is one.
    EndOfBar { lf: Option<char> },
}

/// Where the engine stands in its schedule.
pub struct Cursor {
    /// The segment at hand.
    pub segment: int,
    /// Whether the tempo of the segment has been looked at.
    pub entered: bool,
    /// How often the bar has been played through in this segment.
    pub repetition: int,
    /// The beat of the bar that comes next.
    pub position: int,
    /// The weight of the beat that was triggered last; 0 before the
    /// first.
    pub prior_weight: int,
    /// The tempo that was reported last.
    pub last_tempo: Option<int>,
}

/// The cursor of an engine that has not begun.
pub open spec fn start() -> Cursor {
    Cursor {
        segment: 0,
        entered: false,
        repetition: 0,
        position: 0,
        prior_weight: 0,
        last_tempo: None,
    }
}

/// One step of the engine over `plan`: where it stands afterwards, and
/// what is to be done. `elapsed` is the time in nanoseconds since the
/// last beat was triggered, or since the engine was started.
///
/// At the segment that stops the run the engine stays. On entering any
/// other segment it reports the tempo, where that is not the tempo it
/// reported last. Then it plays the bar as often as the segment says,
/// beat by beat, each repetition followed by the end of its line, and
/// goes on to the next segment, the first one following the last.
pub open spec fn next(plan: Seq<Segment>, at: Cursor, elapsed: int) -> (Cursor, Action) {
    let segment = plan[at.segment];
    if segment.stop {
        (at, Action::Stop)
    } else if !at.entered && at.last_tempo != Some(segment.tempo) {
        (
            Cursor { entered: true, last_tempo: Some(segment.tempo), ..at },
            Action::Announce { tempo: segment.tempo as u32 },
        )
    } else if at.repetition < segment.bars {
        if at.position < segment.bar.len() {
            let beat = segment.bar[at.position];
            (
                Cursor {
                    entered: true,
                    position: at.position + 1,
                    prior_weight: beat.weight as int,
                    ..at
                },
                Action::Beat {
                    sleep: remaining_delay(
                        nominal_nanos(at.prior_weight, segment.tempo),
                        elapsed,
                    ) as u64,
                    position: at.position as usize,
                    sound: beat.sound,
                    marker: beat.marker,
                },
            )
        } else {
            (
                Cursor { entered: true, repetition: at.repetition + 1, position: 0, ..at },
                Action::EndOfBar { lf: segment.lf },
            )
        }
    } else {
        (
            Cursor {
                segment: if at.segment + 1 < plan.len() {
                    at.segment + 1
                } else {
                    0
                },
                entered: false,
                repetition: 0,
                position: 0,
                ..at
            },
            Action::Advance,
        )
    }
}

/// An engine as a plain record.
pub struct Playback {
    pub plan: Seq<Segment>,
    pub channels: int,
    pub at: Cursor,
}

/// The engine of one run. It owns the schedule and the place it has
/// reached in it.
pub struct PlaybackEngine {
    schedule: Vec<Schedule>,
    channels: usize,
    segment: usize,
    entered: bool,
    repetition: u32,
    position: usize,
    prior_weight: u8,
    last_tempo: Option<u32>,
}

impl View for PlaybackEngine {
    type V = Playback;

    closed spec fn view(&self) -> Playback {
        Playback {
            plan: segments(self.schedule@),
            channels: self.channels as int,
            at: Cursor {
                segment: self.segment as int,
                entered: self.entered,
                repetition: self.repetition as int,
                position: self.position as int,
                prior_weight: self.prior_weight as int,
                last_tempo: match self.last_tempo {
                    Some(tempo) => Some(tempo as int),
                    None => None,
                },
            },
        }
    }
}

impl Playback {
    /// What holds of every engine: its schedule holds a segment and can
    /// be played on its channels, and its cursor stands at a segment.
    pub open spec fn wf(self) -> bool {
        &&& self.plan.len() >= 1
        &&& playable(self.plan, self.channels)
        &&& 0 <= self.at.segment < self.plan.len()
    }
}

/// Whether `schedule` can be played on `channels` channels.
pub fn is_playable(schedule: &Vec<Schedule>, channels: usize) -> (ok: bool)
    ensures
        ok == playable(segments(schedule@), channels as int),
{
    let n: usize = schedule.len();
    let mut i: usize = 0;
    while i < n
        invariant
            i <= n,
            n == schedule@.len(),
            forall|j: int|
                0 <= j < i && !(#[trigger] segments(schedule@)[j]).stop ==> segments(
                    schedule@,
                )[j].tempo >= 1 && segments(schedule@)[j].bar.len() <= channels,
        decreases n - i,
    {
        let segment = &schedule[i];
        if !segment.stop && (segment.tempo < 1 || segment.bar.len() > channels) {
            assert(!segments(schedule@)[i as int].stop);
            return false;
        }
        i += 1;
    }
    true
}

impl PlaybackEngine {
    #[verifier::type_invariant]
    pub open spec fn inv(&self) -> bool {
        self@.wf()
    }

    /// An engine at the beginning of `schedule`, with one channel for
    /// each of `max_ticks` places in a bar. There is none for a schedule
    /// without a segment, or for one that cannot be played on so many
    /// channels.
    pub fn new(schedule: Vec<Schedule>, max_ticks: usize) -> (engine: Option<PlaybackEngine>)
        ensures
            engine is Some <==> schedule@.len() >= 1 && playable(
                segments(schedule@),
                max_ticks as int,
            ),
            engine matches Some(e) ==> e@ == (Playback {
                plan: segments(schedule@),
                channels: max_ticks as int,
                at: start(),
            }),
    {
        if schedule.len() == 0 || !is_playable(&schedule, max_ticks) {
            return None;
        }
        Some(
            PlaybackEngine {
                schedule,
                channels: max_ticks,
                segment: 0,
                entered: false,
                repetition: 0,
                position: 0,
                prior_weight: 0,
                last_tempo: None,
            },
        )
    }

    /// The number of channels that the beats are spread over.
    pub fn channels(&self) -> (count: usize)
        ensures
            count == self@.channels,
    {
        self.channels
    }

    /// Takes one step: see `next`. The schedule stays as it is, and a
    /// beat is never sent to a channel that is not there.
    pub fn step(&mut self, elapsed: u64) -> (action: Action)
        ensures
            final(self)@.plan == old(self)@.plan,
            final(self)@.channels == old(self)@.channels,
            (final(self)@.at, action) == next(old(self)@.plan, old(self)@.at, elapsed as int),
            action matches Action::Beat { position, .. } ==> position < old(self)@.channels,
    {
        proof {
            use_type_invariant(&*self);
        }
        let ghost plan = segments(self.schedule@);
        let count: usize = self.schedule.len();
        let segment = &self.schedule[self.segment];
        assert(segment@ == plan[self.segment as int]);
        if segment.stop {
            return Action::Stop;
        }
        let tempo: u32 = segment.tempo;
        let announce: bool = !self.entered && match self.last_tempo {
            Some(last) => last != tempo,
            None => true,
        };
        if announce {
            self.entered = true;
            self.last_tempo = Some(tempo);
            return Action::Announce { tempo };
        }
        if self.repetition < segment.bars {
            if self.position < segment.bar.len() {
                let beat: Beat = segment.bar[self.position];
                let nominal: u64 = nominal_delay(self.prior_weight, tempo);
                let sleep: u64 = sleep_duration(nominal, elapsed);
                let position: usize = self.position;
                self.entered = true;
                self.position = position + 1;
                self.prior_weight = beat.weight;
                Action::Beat { sleep, position, sound: beat.sound, marker: beat.marker }
            } else {
                let lf: Option<char> = segment.lf;
                self.entered = true;
                self.repetition = self.repetition + 1;
                self.position = 0;
                Action::EndOfBar { lf }
            }
        } else {
            let following: usize = if self.segment + 1 < count {
                self.segment + 1
            } else {
                0
            };
            self.entered = false;
            self.repetition = 0;
            self.position = 0;
            self.segment = following;
            Action::Advance
        }
    }
}

/// Once the engine has said that the run is over, it stays where it is
/// and says so again, whatever time passes.
pub proof fn lemma_stop_is_final(plan: Seq<Segment>, at: Cursor, elapsed: int, later: int)
    requires
        next(plan, at, elapsed).1 == Action::Stop,
    ensures
        next(plan, at, elapsed).0 == at,
        next(plan, at, later) == (at, Action::Stop),
{
}

/// No segment behind one that stops the run is ever reached: a cursor
/// that stands at or before such a segment does so after every step.
pub proof fn lemma_never_past_stop(plan: Seq<Segment>, at: Cursor, elapsed: int, stop: int)
    requires
        0 <= at.segment <= stop < plan.len(),
        plan[stop].stop,
    ensures
        0 <= next(plan, at, elapsed).0.segment <= stop,
{
}

// ---------------------------------------------------------------------
// Timing
// ---------------------------------------------------------------------

/// The instant at which beat `n` of a run is triggered, the beats counted
/// from 1 and the run begun at `start`: before beat `i + 1` the driver
/// finds that `elapsed[i]` has passed since the beat before it, sleeps
/// for what remains of the nominal delay `nominal[i]`, and takes the
/// time.
pub open spec fn trigger_instant(start: int, nominal: Seq<int>, elapsed: Seq<int>, n: int) -> int
    decreases n,
{
    if n <= 0 {
        start
    } else {
        trigger_instant(start, nominal, elapsed, n - 1) + elapsed[n - 1] + remaining_delay(
            nominal[n - 1],
            elapsed[n - 1],
        )
    }
}

/// The sum of the first `n` of `delays`.
pub open spec fn total(delays: Seq<int>, n: int) -> int
    decreases n,
{
    if n <= 0 {
        0
    } else {
        total(delays, n - 1) + delays[n - 1]
    }
}

/// By how much the time that has passed is above the nominal delay.
pub open spec fn overrun(nominal: int, elapsed: int) -> int {
    if elapsed > nominal {
        elapsed - nominal
    } else {
        0
    }
}

/// The sum of the first `n` overruns.
pub open spec fn total_overrun(nominal: Seq<int>, elapsed: Seq<int>, n: int) -> int
    decreases n,
{
    if n <= 0 {
        0
    } else {
        total_overrun(nominal, elapsed, n - 1) + overrun(nominal[n - 1], elapsed[n - 1])
    }
}

/// No sleep is negative, whatever time has passed.
pub proof fn lemma_sleep_not_negative(nominal: int, elapsed: int)
    ensures
        remaining_delay(nominal, elapsed) >= 0,
        elapsed + remaining_delay(nominal, elapsed) == nominal + overrun(nominal, elapsed),
{
}

/// A beat is triggered at the start of the run plus the nominal delays
/// up to it, plus the overruns up to it: the time that the work between
/// two beats takes delays a beat only where it is longer than the
/// nominal delay, and then by no more than it is longer.
pub proof fn lemma_trigger_instant(start: int, nominal: Seq<int>, elapsed: Seq<int>, n: int)
    requires
        0 <= n <= nominal.len(),
        n <= elapsed.len(),
    ensures
        trigger_instant(start, nominal, elapsed, n) == start + total(nominal, n) + total_overrun(
            nominal,
            elapsed,
            n,
        ),
        total_overrun(nominal, elapsed, n) >= 0,
    decreases n,
{
    if n > 0 {
        lemma_trigger_instant(start, nominal, elapsed, n - 1);
    }
}

/// Where the work between two beats never takes longer than the nominal
/// delay of the beat that follows, every beat is triggered at the start
/// of the run plus the nominal delays up to it, to the nanosecond:
/// however the work is spread, no lag builds up.
pub proof fn lemma_no_drift(start: int, nominal: Seq<int>, elapsed: Seq<int>, n: int)
    requires
        0 <= n <= nominal.len(),
        n <= elapsed.len(),
        forall|i: int| 0 <= i < n ==> elapsed[i] <= nominal[i],
    ensures
        trigger_instant(start, nominal, elapsed, n) == start + total(nominal, n),
    decreases n,
{
    if n > 0 {
        lemma_no_drift(start, nominal, elapsed, n - 1);
    }
}

} // verus!
