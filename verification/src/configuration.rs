//! The parameters of a run, put together once and read from then on.

use vstd::prelude::*;
use crate::composition::{
    bar_wf, decode, lemma_parsed_bar_wf, parse, terminator_of, Bar, Beat, DecodeError,
};

verus! {

/// The slowest and the fastest tempo that a run may ask for, in quarter
/// notes a minute.
pub const MIN_TEMPO: u16 = 20;

pub const MAX_TEMPO: u16 = 500;

/// What the user asked for.
pub struct Args {
    /// Lower tempo.
    pub lower: u16,
    /// Upper tempo; one that is not above the lower tempo counts as equal
    /// to it.
    pub upper: u16,
    /// The step up.
    pub increase: u8,
    /// The step down.
    pub decrease: u8,
    /// How often the bar is played at each tempo.
    pub n_bars: u8,
    /// How often the bar is played at the upper tempo of a burst; 0 where
    /// no burst is asked for.
    pub burst: u8,
    pub sweep: bool,
    pub adaptive: bool,
    /// The bar, where it is not the usual one.
    pub composition: Option<String>,
    /// Whether a change of tempo is announced by a bar of its own, and
    /// that bar, where it is not the usual one.
    pub warn: Option<Option<String>>,
}

impl Args {
    /// What is asked of the numbers: both tempos within the limits, and
    /// the bar played at least once at each tempo.
    pub open spec fn valid(&self) -> bool {
        &&& MIN_TEMPO <= self.lower <= MAX_TEMPO
        &&& MIN_TEMPO <= self.upper <= MAX_TEMPO
        &&& self.n_bars >= 1
    }

    pub fn is_valid(&self) -> (ok: bool)
        ensures
            ok == self.valid(),
    {
        MIN_TEMPO <= self.lower && self.lower <= MAX_TEMPO && MIN_TEMPO <= self.upper
            && self.upper <= MAX_TEMPO && self.n_bars >= 1
    }

    /// The composition of the bar: the one given, or four quarter notes
    /// on kick and hi-hat, each of them shown.
    pub open spec fn bar_text(&self) -> Seq<char> {
        match self.composition {
            Some(text) => text@,
            None => "4kp 4hp 4hp 4hp"@,
        }
    }

    /// The composition of the bar that announces a change of tempo: the
    /// one given, or four quarter notes on the sticks, none of them shown.
    pub open spec fn warn_text(&self) -> Seq<char> {
        match self.warn {
            Some(Some(text)) => text@,
            _ => "4ss 4ss 4ss 4ss"@,
        }
    }
}

/// A configuration as a plain record.
pub struct Settings {
    pub lower_tempo: int,
    pub upper_tempo: int,
    pub increase: int,
    pub decrease: int,
    pub bars: int,
    pub burst: int,
    pub sweep: bool,
    pub adaptive: bool,
    pub warn: bool,
    pub bar: Seq<Beat>,
    pub bar_lf: Option<char>,
    pub warn_bar: Seq<Beat>,
    pub warn_bar_lf: Option<char>,
    pub max_ticks: int,
}

impl Settings {
    pub open spec fn wf(self) -> bool {
        &&& MIN_TEMPO <= self.lower_tempo <= self.upper_tempo <= MAX_TEMPO
        &&& 0 <= self.increase <= u8::MAX
        &&& 0 <= self.decrease <= u8::MAX
        &&& 1 <= self.bars <= u8::MAX
        &&& 0 <= self.burst <= u8::MAX
        &&& bar_wf(self.bar, self.bar_lf)
        &&& bar_wf(self.warn_bar, self.warn_bar_lf)
        &&& self.max_ticks == if self.bar.len() >= self.warn_bar.len() {
            self.bar.len()
        } else {
            self.warn_bar.len()
        }
    }
}

/// The parameters of a run and its two bars.
pub struct Configuration {
    pub(crate) lower_tempo: u16,
    pub(crate) upper_tempo: u16,
    pub(crate) increase: u8,
    pub(crate) decrease: u8,
    pub(crate) bar: Bar,
    pub(crate) warn_bar: Bar,
    pub(crate) bars: u8,
    pub(crate) burst: u8,
    pub(crate) sweep: bool,
    pub(crate) adaptive: bool,
    pub(crate) warn: bool,
    pub(crate) max_ticks: usize,
}

impl View for Configuration {
    type V = Settings;

    closed spec fn view(&self) -> Settings {
        Settings {
            lower_tempo: self.lower_tempo as int,
            upper_tempo: self.upper_tempo as int,
            increase: self.increase as int,
            decrease: self.decrease as int,
            bars: self.bars as int,
            burst: self.burst as int,
            sweep: self.sweep,
            adaptive: self.adaptive,
            warn: self.warn,
            bar: self.bar.beats@,
            bar_lf: self.bar.line_terminator,
            warn_bar: self.warn_bar.beats@,
            warn_bar_lf: self.warn_bar.line_terminator,
            max_ticks: self.max_ticks as int,
        }
    }
}

/// Why no configuration could be put together.
#[derive(Clone, Copy, Debug, PartialEq, Eq)]
pub enum ConfigError {
    /// The composition of the bar was turned down.
    Bar(DecodeError),
    /// The composition of the bar that announces a change of tempo was
    /// turned down.
    WarnBar(DecodeError),
}

impl ConfigError {
    pub open spec fn text(self) -> Seq<char> {
        match self {
            ConfigError::Bar(e) => "Bar composition: "@ + e.text(),
            ConfigError::WarnBar(e) => "Warn bar composition: "@ + e.text(),
        }
    }

    /// The error as a sentence for the user.
    pub fn message(&self) -> (m: String)
        ensures
            m@ == self.text(),
    {
        match self {
            ConfigError::Bar(e) => {
                let cause = e.message();
                String::from_str("Bar composition: ").concat(cause.as_str())
            },
            ConfigError::WarnBar(e) => {
                let cause = e.message();
                String::from_str("Warn bar composition: ").concat(cause.as_str())
            },
        }
    }
}

/// What `build_config` makes of `args` once both bars are read.
pub open spec fn settings_of(args: Args, bar: Seq<Beat>, warn_bar: Seq<Beat>) -> Settings {
    Settings {
        lower_tempo: args.lower as int,
        upper_tempo: if args.upper > args.lower {
            args.upper as int
        } else {
            args.lower as int
        },
        increase: args.increase as int,
        decrease: args.decrease as int,
        bars: args.n_bars as int,
        burst: args.burst as int,
        sweep: args.sweep,
        adaptive: args.adaptive,
        warn: args.warn is Some,
        bar,
        bar_lf: terminator_of(bar),
        warn_bar,
        warn_bar_lf: terminator_of(warn_bar),
        max_ticks: if bar.len() >= warn_bar.len() {
            bar.len() as int
        } else {
            warn_bar.len() as int
        },
    }
}

/// What `build_config` returns for `args`.
pub open spec fn config_of(args: Args) -> Result<Settings, ConfigError> {
    match parse(args.bar_text()) {
        Err(e) => Err(ConfigError::Bar(e)),
        Ok(bar) => match parse(args.warn_text()) {
            Err(e) => Err(ConfigError::WarnBar(e)),
            Ok(warn_bar) => Ok(settings_of(args, bar, warn_bar)),
        },
    }
}

/// Valid arguments whose compositions are read give a well-formed
/// configuration.
pub proof fn lemma_config_wf(args: Args)
    requires
        args.valid(),
        config_of(args) is Ok,
    ensures
        config_of(args)->Ok_0.wf(),
{
    lemma_parsed_bar_wf(args.bar_text());
    lemma_parsed_bar_wf(args.warn_text());
}

impl Configuration {
    #[verifier::type_invariant]
    pub open spec fn inv(&self) -> bool {
        self@.wf()
    }

    pub fn lower_tempo(&self) -> (tempo: u16)
        ensures
            tempo == self@.lower_tempo,
    {
        self.lower_tempo
    }

    pub fn upper_tempo(&self) -> (tempo: u16)
        ensures
            tempo == self@.upper_tempo,
    {
        self.upper_tempo
    }

    pub fn increase(&self) -> (step: u8)
        ensures
            step == self@.increase,
    {
        self.increase
    }

    pub fn decrease(&self) -> (step: u8)
        ensures
            step == self@.decrease,
    {
        self.decrease
    }

    pub fn bars(&self) -> (count: u8)
        ensures
            count == self@.bars,
    {
        self.bars
    }

    pub fn burst(&self) -> (count: u8)
        ensures
            count == self@.burst,
    {
        self.burst
    }

    pub fn sweep(&self) -> (on: bool)
        ensures
            on == self@.sweep,
    {
        self.sweep
    }

    pub fn adaptive(&self) -> (on: bool)
        ensures
            on == self@.adaptive,
    {
        self.adaptive
    }

    pub fn warn(&self) -> (on: bool)
        ensures
            on == self@.warn,
    {
        self.warn
    }

    pub fn bar(&self) -> (bar: &Bar)
        ensures
            bar.beats@ == self@.bar,
            bar.line_terminator == self@.bar_lf,
    {
        &self.bar
    }

    pub fn warn_bar(&self) -> (bar: &Bar)
        ensures
            bar.beats@ == self@.warn_bar,
            bar.line_terminator == self@.warn_bar_lf,
    {
        &self.warn_bar
    }

    /// The number of beats of the longer of the two bars.
    pub fn max_ticks(&self) -> (count: usize)
        ensures
            count == self@.max_ticks,
    {
        self.max_ticks
    }

}

/// Puts the configuration of a run together: the numbers as they were
/// asked for, the upper tempo raised to the lower one where it is below
/// it, and the two bars read from their compositions. The bar is read
/// first, so where both compositions are turned down the error is that of
/// the bar.
pub fn build_config(args: Args) -> (r: Result<Configuration, ConfigError>)
    requires
        args.valid(),
    ensures
        match config_of(args) {
            Ok(settings) => r matches Ok(conf) && conf@ == settings && settings.wf(),
            Err(e) => r matches Err(f) && f == e,
        },
{
    let lower_tempo: u16 = args.lower;
    let upper_tempo: u16 = if args.upper > args.lower {
        args.upper
    } else {
        lower_tempo
    };
    let bar = match &args.composition {
        Some(text) => decode(text.as_str()),
        None => decode("4kp 4hp 4hp 4hp"),
    };
    let bar = match bar {
        Ok(b) => b,
        Err(e) => {
            return Err(ConfigError::Bar(e));
        },
    };
    let mut warn: bool = false;
    let warn_bar = match &args.warn {
        Some(Some(text)) => {
            warn = true;
            decode(text.as_str())
        },
        Some(None) => {
            warn = true;
            decode("4ss 4ss 4ss 4ss")
        },
        None => decode("4ss 4ss 4ss 4ss"),
    };
    let warn_bar = match warn_bar {
        Ok(b) => b,
        Err(e) => {
            return Err(ConfigError::WarnBar(e));
        },
    };
    let max_ticks: usize = if bar.beats.len() >= warn_bar.beats.len() {
        bar.beats.len()
    } else {
        warn_bar.beats.len()
    };
    Ok(
        Configuration {
            lower_tempo,
            upper_tempo,
            increase: args.increase,
            decrease: args.decrease,
            bar,
            warn_bar,
            bars: args.n_bars,
            burst: args.burst,
            sweep: args.sweep,
            adaptive: args.adaptive,
            warn,
            max_ticks,
        },
    )
}

} // verus!
