//! Bar notation: a composition such as `"4kp 8hs 8hs"` names, beat by beat,
//! a note value, a sound and whether the beat is shown when it plays.

use vstd::prelude::*;

verus! {

/// What a beat sounds like.
#[derive(Clone, Copy, Debug, PartialEq, Eq, Structural)]
pub enum SoundSource {
    Kick,
    KickHiHat,
    HiHat,
    Sticks,
    Pause,
}

impl SoundSource {
    /// The number under which the sound is known: 0 for the kick up to 4
    /// for the pause.
    pub open spec fn index(self) -> nat {
        match self {
            SoundSource::Kick => 0,
            SoundSource::KickHiHat => 1,
            SoundSource::HiHat => 2,
            SoundSource::Sticks => 3,
            SoundSource::Pause => 4,
        }
    }

    pub fn channel(self) -> (n: usize)
        ensures
            n == self.index(),
            n <= 4,
    {
        match self {
            SoundSource::Kick => 0,
            SoundSource::KickHiHat => 1,
            SoundSource::HiHat => 2,
            SoundSource::Sticks => 3,
            SoundSource::Pause => 4,
        }
    }

    /// Every sound but the pause is heard.
    pub fn is_audible(self) -> (heard: bool)
        ensures
            heard == (self != SoundSource::Pause),
            heard == (self.index() < 4),
    {
        match self {
            SoundSource::Pause => false,
            _ => true,
        }
    }
}

/// The glyph shown for a beat that is marked.
pub const MARKER: char = '*';

/// The glyph that ends the line of a bar in which something was shown.
pub const NEWLINE: char = '\n';

/// One note of a bar.
#[derive(Clone, Copy, Debug, PartialEq, Eq)]
pub struct Beat {
    /// Length in sixteenth notes: 16 for a whole note down to 1.
    pub weight: u8,
    pub sound: SoundSource,
    /// The glyph to show when the beat plays, if any.
    pub marker: Option<char>,
}

impl Beat {
    pub open spec fn wf(self) -> bool {
        self.weight == 1 || self.weight == 2 || self.weight == 4 || self.weight == 8
            || self.weight == 16
    }
}

/// Why a composition was turned down.
#[derive(Clone, Copy, Debug, PartialEq, Eq, Structural)]
pub enum DecodeError {
    InvalidNote,
    InvalidSound,
    InvalidIndicator,
    EmptyComposition,
}

impl DecodeError {
    pub open spec fn text(self) -> Seq<char> {
        match self {
            DecodeError::InvalidNote =>
                "Composition decode error: illegal note found, should be one of 1, 2, 4, 8, 16"@,
            DecodeError::InvalidSound =>
                "Composition decode error: illegal sound found, should be one of k, m, h, s, p"@,
            DecodeError::InvalidIndicator =>
                "Composition decode error: illegal play indicator found, should be one of p, s"@,
            DecodeError::EmptyComposition => "Composition decode error: empty composition"@,
        }
    }

    /// The error as a sentence for the user.
    pub fn message(&self) -> (m: String)
        ensures
            m@ == self.text(),
    {
        match self {
            DecodeError::InvalidNote => String::from_str(
                "Composition decode error: illegal note found, should be one of 1, 2, 4, 8, 16",
            ),
            DecodeError::InvalidSound => String::from_str(
                "Composition decode error: illegal sound found, should be one of k, m, h, s, p",
            ),
            DecodeError::InvalidIndicator => String::from_str(
                "Composition decode error: illegal play indicator found, should be one of p, s",
            ),
            DecodeError::EmptyComposition => String::from_str(
                "Composition decode error: empty composition",
            ),
        }
    }
}

/// An ordered, repeatable run of beats, with the glyph that ends its line
/// when it is shown.
#[derive(Debug)]
pub struct Bar {
    pub beats: Vec<Beat>,
    /// A newline where a beat of the bar is marked, nothing otherwise: a
    /// bar that shows nothing breaks no line.
    pub line_terminator: Option<char>,
}

/// The line terminator that goes with `beats`.
pub open spec fn terminator_of(beats: Seq<Beat>) -> Option<char> {
    if exists|i: int| 0 <= i < beats.len() && (#[trigger] beats[i]).marker is Some {
        Some(NEWLINE)
    } else {
        None
    }
}

/// That a bar of `beats` is laid out as a bar must be: it has a beat,
/// each beat has one of the five weights, and `lf` is the line terminator
/// that goes with the beats.
pub open spec fn bar_wf(beats: Seq<Beat>, lf: Option<char>) -> bool {
    &&& beats.len() >= 1
    &&& forall|i: int| 0 <= i < beats.len() ==> (#[trigger] beats[i]).wf()
    &&& lf == terminator_of(beats)
}

impl Bar {
    pub open spec fn wf(&self) -> bool {
        bar_wf(self.beats@, self.line_terminator)
    }
}

// ---------------------------------------------------------------------
// The grammar
// ---------------------------------------------------------------------

/// The characters that part one beat from the next: those with the
/// Unicode property White_Space.
pub open spec fn is_separator(c: char) -> bool {
    let n = c as u32;
    ||| 0x09 <= n <= 0x0D
    ||| n == 0x20
    ||| n == 0x85
    ||| n == 0xA0
    ||| n == 0x1680
    ||| 0x2000 <= n <= 0x200A
    ||| n == 0x2028
    ||| n == 0x2029
    ||| n == 0x202F
    ||| n == 0x205F
    ||| n == 0x3000
}

pub open spec fn is_digit(c: char) -> bool {
    '0' <= c <= '9'
}

pub open spec fn digit_value(c: char) -> nat {
    (c as u32 - '0' as u32) as nat
}

/// The words of `s`: its longest runs of characters that are no
/// separators, in order. Read one character at a time, a separator leaves
/// the words as they are; any other character lengthens the last word
/// where it follows a character of that word, and begins a new word
/// where it does not.
pub open spec fn words(s: Seq<char>) -> Seq<Seq<char>>
    decreases s.len(),
{
    if s.len() == 0 {
        Seq::empty()
    } else {
        let before = words(s.drop_last());
        let c = s.last();
        if is_separator(c) {
            before
        } else if s.len() >= 2 && !is_separator(s[s.len() - 2]) {
            before.drop_last().push(before.last().push(c))
        } else {
            before.push(seq![c])
        }
    }
}

/// Where the digits that begin at `from` end: the first place at or after
/// `from` that holds no digit.
pub open spec fn digit_run(s: Seq<char>, from: int) -> int
    decreases s.len() - from,
{
    if 0 <= from < s.len() && is_digit(s[from]) {
        digit_run(s, from + 1)
    } else {
        from
    }
}

/// The number that a run of digits writes in base ten.
pub open spec fn decimal(digits: Seq<char>) -> nat
    decreases digits.len(),
{
    if digits.len() == 0 {
        0
    } else {
        10 * decimal(digits.drop_last()) + digit_value(digits.last())
    }
}

/// The note value that a word begins with; 0 where it begins with no digit.
pub open spec fn word_note(w: Seq<char>) -> nat {
    decimal(w.take(digit_run(w, 0)))
}

/// The letter that names the sound: the one after the digits, or `h`
/// where the word ends there.
pub open spec fn word_sound(w: Seq<char>) -> char {
    if digit_run(w, 0) < w.len() {
        w[digit_run(w, 0)]
    } else {
        'h'
    }
}

/// The letter that says whether the beat is shown: the second after the
/// digits, or `s` where the word ends before it.
pub open spec fn word_indicator(w: Seq<char>) -> char {
    if digit_run(w, 0) + 1 < w.len() {
        w[digit_run(w, 0) + 1]
    } else {
        's'
    }
}

/// The weight in sixteenth notes of a note value, for the five note
/// values there are.
pub open spec fn weight_of(note: nat) -> Option<u8> {
    if note == 1 {
        Some(16u8)
    } else if note == 2 {
        Some(8u8)
    } else if note == 4 {
        Some(4u8)
    } else if note == 8 {
        Some(2u8)
    } else if note == 16 {
        Some(1u8)
    } else {
        None
    }
}

pub open spec fn sound_of(letter: char) -> Option<SoundSource> {
    if letter == 'k' {
        Some(SoundSource::Kick)
    } else if letter == 'm' {
        Some(SoundSource::KickHiHat)
    } else if letter == 'h' {
        Some(SoundSource::HiHat)
    } else if letter == 's' {
        Some(SoundSource::Sticks)
    } else if letter == 'p' {
        Some(SoundSource::Pause)
    } else {
        None
    }
}

/// What an indicator letter asks for: `p` a marker, `s` none.
pub open spec fn marker_of(letter: char) -> Option<Option<char>> {
    if letter == 'p' {
        Some(Some(MARKER))
    } else if letter == 's' {
        Some(None)
    } else {
        None
    }
}

/// The beat that a word stands for. The note value is looked at first,
/// then the sound, then the indicator; whatever follows the indicator is
/// not looked at.
pub open spec fn parse_beat(w: Seq<char>) -> Result<Beat, DecodeError> {
    match weight_of(word_note(w)) {
        None => Err(DecodeError::InvalidNote),
        Some(weight) => match sound_of(word_sound(w)) {
            None => Err(DecodeError::InvalidSound),
            Some(sound) => match marker_of(word_indicator(w)) {
                None => Err(DecodeError::InvalidIndicator),
                Some(marker) => Ok(Beat { weight, sound, marker }),
            },
        },
    }
}

/// The beats of a run of words, or the error of the first word that
/// stands for no beat.
pub open spec fn parse_words(ws: Seq<Seq<char>>) -> Result<Seq<Beat>, DecodeError>
    decreases ws.len(),
{
    if ws.len() == 0 {
        Ok(Seq::empty())
    } else {
        match parse_words(ws.drop_last()) {
            Err(e) => Err(e),
            Ok(beats) => match parse_beat(ws.last()) {
                Err(e) => Err(e),
                Ok(beat) => Ok(beats.push(beat)),
            },
        }
    }
}

/// The beats that a composition writes down.
pub open spec fn parse(composition: Seq<char>) -> Result<Seq<Beat>, DecodeError> {
    match parse_words(words(composition)) {
        Err(e) => Err(e),
        Ok(beats) => if beats.len() == 0 {
            Err(DecodeError::EmptyComposition)
        } else {
            Ok(beats)
        },
    }
}

// ---------------------------------------------------------------------
// The parser
// ---------------------------------------------------------------------

pub fn separates(c: char) -> (b: bool)
    ensures
        b == is_separator(c),
{
    let n: u32 = c as u32;
    (0x09 <= n && n <= 0x0D) || n == 0x20 || n == 0x85 || n == 0xA0 || n == 0x1680 || (0x2000
        <= n && n <= 0x200A) || n == 0x2028 || n == 0x2029 || n == 0x202F || n == 0x205F || n
        == 0x3000
}

/// The characters of `s`, one by one.
pub fn chars_of(s: &str) -> (v: Vec<char>)
    ensures
        v@ == s@,
{
    let mut v: Vec<char> = Vec::new();
    for c in it: s.chars()
        invariant
            v@ == s@.take(it.index() as int),
            it.seq() == s@,
    {
        v.push(c);
    }
    v
}

/// What each of `ws` holds.
pub open spec fn contents(ws: Seq<Vec<char>>) -> Seq<Seq<char>> {
    Seq::new(ws.len(), |i: int| ws[i]@)
}

/// Cuts `s` into its words.
pub fn split_words(s: &Vec<char>) -> (ws: Vec<Vec<char>>)
    ensures
        contents(ws@) == words(s@),
{
    let mut done: Vec<Vec<char>> = Vec::new();
    let mut word: Vec<char> = Vec::new();
    let n: usize = s.len();
    let mut i: usize = 0;
    while i < n
        invariant
            i <= n,
            n == s@.len(),
            word@.len() > 0 <==> (i > 0 && !is_separator(s@[i - 1])),
            words(s@.take(i as int)) == if word@.len() > 0 {
                contents(done@).push(word@)
            } else {
                contents(done@)
            },
        decreases n - i,
    {
        let c: char = s[i];
        let ghost next = s@.take(i + 1);
        assert(next.drop_last() == s@.take(i as int));
        if separates(c) {
            if word.len() > 0 {
                let ghost shut = contents(done@).push(word@);
                done.push(word);
                assert(contents(done@) == shut);
                word = Vec::new();
            }
        } else {
            let ghost open = word@;
            word.push(c);
            proof {
                if open.len() > 0 {
                    let before = contents(done@).push(open);
                    assert(before.drop_last() == contents(done@));
                } else {
                    assert(open.push(c) == seq![c]);
                }
            }
        }
        i += 1;
    }
    assert(s@.take(n as int) == s@);
    if word.len() > 0 {
        let ghost shut = contents(done@).push(word@);
        done.push(word);
        assert(contents(done@) == shut);
    }
    done
}

pub fn digit(c: char) -> (b: bool)
    ensures
        b == is_digit(c),
{
    '0' <= c && c <= '9'
}

/// Takes a word apart: the note value it begins with, the letter of its
/// sound and the letter of its indicator. The letters that the word
/// leaves out come back as `h` and `s`. The note value comes back as 0
/// where the word begins with no digit, or with a number above 255.
pub fn split_beat(w: &Vec<char>) -> (parts: (u8, char, char))
    ensures
        parts.0 == if word_note(w@) <= 255 { word_note(w@) } else { 0 },
        parts.1 == word_sound(w@),
        parts.2 == word_indicator(w@),
{
    let n: usize = w.len();
    let mut i: usize = 0;
    let mut note: u32 = 0;
    let mut fits: bool = true;
    while i < n && digit(w[i])
        invariant
            i <= n,
            n == w@.len(),
            digit_run(w@, 0) == digit_run(w@, i as int),
            fits ==> note == decimal(w@.take(i as int)) && note <= 255,
            !fits ==> decimal(w@.take(i as int)) > 255,
        decreases n - i,
    {
        let c: char = w[i];
        let d: u32 = c as u32 - '0' as u32;
        proof {
            let next = w@.take(i + 1);
            assert(next.drop_last() == w@.take(i as int));
            assert(next.last() == c);
            assert(d == digit_value(c));
        }
        if fits {
            let grown: u32 = note * 10 + d;
            if grown > 255 {
                fits = false;
            } else {
                note = grown;
            }
        }
        i += 1;
    }
    let value: u8 = if fits { note as u8 } else { 0 };
    let sound: char = if i < n { w[i] } else { 'h' };
    let indicator: char = if i < n && i + 1 < n { w[i + 1] } else { 's' };
    (value, sound, indicator)
}

/// Takes a beat written as text apart, as `split_beat` does a word.
pub fn beat(b: &str) -> (parts: (u8, char, char))
    ensures
        parts.0 == if word_note(b@) <= 255 { word_note(b@) } else { 0 },
        parts.1 == word_sound(b@),
        parts.2 == word_indicator(b@),
{
    let w = chars_of(b);
    split_beat(&w)
}

/// The beat that a word stands for.
pub fn decode_beat(w: &Vec<char>) -> (r: Result<Beat, DecodeError>)
    ensures
        r == parse_beat(w@),
{
    let (note, sound_letter, indicator_letter) = split_beat(w);
    let weight: u8 = if note == 1 {
        16
    } else if note == 2 {
        8
    } else if note == 4 {
        4
    } else if note == 8 {
        2
    } else if note == 16 {
        1
    } else {
        return Err(DecodeError::InvalidNote);
    };
    let sound = if sound_letter == 'k' {
        SoundSource::Kick
    } else if sound_letter == 'm' {
        SoundSource::KickHiHat
    } else if sound_letter == 'h' {
        SoundSource::HiHat
    } else if sound_letter == 's' {
        SoundSource::Sticks
    } else if sound_letter == 'p' {
        SoundSource::Pause
    } else {
        return Err(DecodeError::InvalidSound);
    };
    let marker: Option<char> = if indicator_letter == 'p' {
        Some(MARKER)
    } else if indicator_letter == 's' {
        None
    } else {
        return Err(DecodeError::InvalidIndicator);
    };
    Ok(Beat { weight, sound, marker })
}

/// An error among the first words of a composition is the error of the
/// whole.
pub proof fn lemma_first_error_stands(ws: Seq<Seq<char>>, j: int)
    requires
        0 <= j <= ws.len(),
        parse_words(ws.take(j)) is Err,
    ensures
        parse_words(ws) == parse_words(ws.take(j)),
    decreases ws.len() - j,
{
    if j < ws.len() {
        assert(ws.take(j + 1).drop_last() == ws.take(j));
        lemma_first_error_stands(ws, j + 1);
    } else {
        assert(ws.take(j) == ws);
    }
}

/// The beats read from words have each one of the five weights, and are
/// as many as the words.
pub proof fn lemma_parsed_beats_wf(ws: Seq<Seq<char>>)
    requires
        parse_words(ws) is Ok,
    ensures
        parse_words(ws)->Ok_0.len() == ws.len(),
        forall|i: int| 0 <= i < ws.len() ==> (#[trigger] parse_words(ws)->Ok_0[i]).wf(),
    decreases ws.len(),
{
    if ws.len() > 0 {
        lemma_parsed_beats_wf(ws.drop_last());
    }
}

/// What is read from a composition is a bar: it has a beat, and every
/// beat has one of the five weights.
pub proof fn lemma_parsed_bar_wf(composition: Seq<char>)
    requires
        parse(composition) is Ok,
    ensures
        bar_wf(parse(composition)->Ok_0, terminator_of(parse(composition)->Ok_0)),
{
    lemma_parsed_beats_wf(words(composition));
}

/// The line terminator that goes with `beats`.
pub fn line_terminator(beats: &Vec<Beat>) -> (t: Option<char>)
    ensures
        t == terminator_of(beats@),
{
    let n: usize = beats.len();
    let mut i: usize = 0;
    while i < n
        invariant
            i <= n,
            n == beats@.len(),
            forall|j: int| 0 <= j < i ==> (#[trigger] beats@[j]).marker is None,
        decreases n - i,
    {
        if beats[i].marker.is_some() {
            return Some(NEWLINE);
        }
        i += 1;
    }
    None
}

/// Reads a composition: its beats in order, with the line terminator that
/// goes with them. A composition without a beat is turned down, and so is
/// one with a word that stands for no beat, with the error of the first
/// such word.
pub fn decode(composition: &str) -> (r: Result<Bar, DecodeError>)
    ensures
        match parse(composition@) {
            Ok(beats) => r matches Ok(bar) && bar.beats@ == beats && bar.wf(),
            Err(e) => r matches Err(f) && f == e,
        },
{
    let chars = chars_of(composition);
    let ws = split_words(&chars);
    let ghost all = contents(ws@);
    let n: usize = ws.len();
    let mut beats: Vec<Beat> = Vec::new();
    let mut k: usize = 0;
    while k < n
        invariant
            k <= n,
            n == ws@.len(),
            all == contents(ws@),
            all == words(composition@),
            parse_words(all.take(k as int)) == Ok::<Seq<Beat>, DecodeError>(beats@),
            forall|j: int| 0 <= j < beats@.len() ==> (#[trigger] beats@[j]).wf(),
        decreases n - k,
    {
        proof {
            assert(all.take(k + 1).drop_last() == all.take(k as int));
            assert(all.take(k + 1).last() == ws@[k as int]@);
        }
        match decode_beat(&ws[k]) {
            Ok(b) => {
                beats.push(b);
            },
            Err(e) => {
                proof {
                    lemma_first_error_stands(all, k + 1);
                }
                return Err(e);
            },
        }
        k += 1;
    }
    assert(all.take(n as int) == all);
    if beats.len() == 0 {
        return Err(DecodeError::EmptyComposition);
    }
    let line_terminator = line_terminator(&beats);
    Ok(Bar { beats, line_terminator })
}

} // verus!
