//! The serial command line of the blinking LED program: bytes come in one by
//! one; at a newline the line is read as a command that starts or pauses the
//! blinking or sets its period, and a reply goes back.

use vstd::prelude::*;
use crate::parse::{parse_u32, parse_u32_spec, IntErrorKind};

verus! {

/// How many bytes of a line the receive buffer holds.
pub const BUFFER_SIZE: usize = 128;

/// The byte that ends a command line.
pub const NEWLINE: u8 = 0x0a;

/// The byte that separates the words of a command.
pub const SPACE: u8 = 0x20;

/// The longest blinking period, in milliseconds, that the `period` command
/// accepts.
pub const PERIOD_MAX: u32 = 1000;

/// The byte is a UTF-8 continuation byte.
pub open spec fn is_continuation(b: u8) -> bool {
    0x80 <= b <= 0xbf
}

/// The length of the well-formed UTF-8 sequence that `s` starts with, or 0
/// when `s` does not start with one (the Unicode standard, table 3-7).
pub open spec fn utf8_width(s: Seq<u8>) -> nat {
    if s.len() == 0 {
        0
    } else if s[0] <= 0x7f {
        1
    } else if 0xc2 <= s[0] <= 0xdf {
        if s.len() >= 2 && is_continuation(s[1]) {
            2
        } else {
            0
        }
    } else if 0xe0 <= s[0] <= 0xef {
        let lo: u8 = if s[0] == 0xe0 {
            0xa0
        } else {
            0x80
        };
        let hi: u8 = if s[0] == 0xed {
            0x9f
        } else {
            0xbf
        };
        if s.len() >= 3 && lo <= s[1] <= hi && is_continuation(s[2]) {
            3
        } else {
            0
        }
    } else if 0xf0 <= s[0] <= 0xf4 {
        let lo: u8 = if s[0] == 0xf0 {
            0x90
        } else {
            0x80
        };
        let hi: u8 = if s[0] == 0xf4 {
            0x8f
        } else {
            0xbf
        };
        if s.len() >= 4 && lo <= s[1] <= hi && is_continuation(s[2]) && is_continuation(s[3]) {
            4
        } else {
            0
        }
    } else {
        0
    }
}

/// `s` is well-formed UTF-8: a sequence of well-formed code unit sequences.
pub open spec fn utf8_well_formed(s: Seq<u8>) -> bool
    decreases s.len(),
{
    if s.len() == 0 {
        true
    } else {
        let w = utf8_width(s);
        w > 0 && w <= s.len() && utf8_well_formed(s.skip(w as int))
    }
}

/// ASCII text is UTF-8.
pub proof fn lemma_ascii_is_utf8(s: Seq<u8>)
    requires
        forall|k: int| 0 <= k < s.len() ==> #[trigger] s[k] < 0x80,
    ensures
        utf8_well_formed(s),
    decreases s.len(),
{
    if s.len() > 0 {
        let t = s.skip(1);
        assert forall|k: int| 0 <= k < t.len() implies #[trigger] t[k] < 0x80 by {
            assert(t[k] == s[k + 1]);
        }
        lemma_ascii_is_utf8(t);
    }
}

/// A text that starts with a continuation byte, with 0xc0 or 0xc1 (overlong
/// forms), with 0xf5 to 0xff (beyond U+10FFFF), or with the first two bytes
/// of a surrogate (0xed, then 0xa0 to 0xbf) is not UTF-8. A text that starts
/// with a lead byte of 0xc2 to 0xdf and a continuation byte is UTF-8 exactly
/// when the rest after those two bytes is.
pub proof fn lemma_utf8_starts(s: Seq<u8>)
    requires
        s.len() > 0,
    ensures
        0x80 <= s[0] <= 0xc1 ==> !utf8_well_formed(s),
        s[0] >= 0xf5 ==> !utf8_well_formed(s),
        s.len() >= 2 && s[0] == 0xed && 0xa0 <= s[1] <= 0xbf ==> !utf8_well_formed(s),
        s.len() >= 2 && 0xc2 <= s[0] <= 0xdf && 0x80 <= s[1] <= 0xbf ==> (utf8_well_formed(s)
            <==> utf8_well_formed(s.skip(2))),
{
}

/// Tests the bytes for UTF-8 with `core::str::from_utf8`, which succeeds
/// exactly on well-formed UTF-8.
#[verifier::external_body]
fn is_utf8(bytes: &[u8]) -> (r: bool)
    ensures
        r == utf8_well_formed(bytes@),
{
    core::str::from_utf8(bytes).is_ok()
}

/// The index of the first space in `s` at `from` or after it, or the length
/// of `s` when there is none.
pub open spec fn find_space(s: Seq<u8>, from: int) -> int
    decreases s.len() - from,
{
    if from >= s.len() {
        s.len() as int
    } else if s[from] == SPACE {
        from
    } else {
        find_space(s, from + 1)
    }
}

/// The first word of the line: what comes before the first space.
pub open spec fn first_word(s: Seq<u8>) -> Seq<u8> {
    s.subrange(0, find_space(s, 0))
}

/// The second word of the line: what comes between its first and second
/// spaces (or its end). It is there only when the line holds a space.
pub open spec fn second_word(s: Seq<u8>) -> Seq<u8> {
    let p = find_space(s, 0);
    s.subrange(p + 1, find_space(s, p + 1))
}

/// The line holds a second word.
pub open spec fn has_second_word(s: Seq<u8>) -> bool {
    find_space(s, 0) < s.len()
}

/// The command word `start`.
pub open spec fn word_start() -> Seq<u8> {
    seq![0x73u8, 0x74u8, 0x61u8, 0x72u8, 0x74u8]
}

/// The command word `pause`.
pub open spec fn word_pause() -> Seq<u8> {
    seq![0x70u8, 0x61u8, 0x75u8, 0x73u8, 0x65u8]
}

/// The command word `period`.
pub open spec fn word_period() -> Seq<u8> {
    seq![0x70u8, 0x65u8, 0x72u8, 0x69u8, 0x6fu8, 0x64u8]
}

/// The reply that a command line gets.
#[derive(Clone, Copy, Debug, PartialEq, Eq, Structural)]
pub enum Reply {
    /// `start`: the LED blinks.
    Started,
    /// `pause`: the LED stops blinking.
    Paused,
    /// `period N` with `N` in `1..=1000`: the timer takes the new period.
    PeriodChanged,
    /// `period N` with another number `N`.
    PeriodOutOfRange,
    /// The line is not UTF-8, or the period is not a number.
    ParseError,
    /// The first word is no command.
    Unrecognized,
}

impl Reply {
    /// The text that goes back over the serial line.
    pub fn text(&self) -> (t: &'static str)
        ensures
            *self == Reply::Started ==> t@ == "Blinking started \n \r"@,
            *self == Reply::Paused ==> t@ == "Blinking paused \n \r"@,
            *self == Reply::PeriodChanged ==> t@ == "Blinking period changed \n \r"@,
            *self == Reply::PeriodOutOfRange ==> t@ == "Period must be > 0 and < 1000 ms \n \r"@,
            *self == Reply::ParseError ==> t@ == "Error in parsing message \n \r"@,
            *self == Reply::Unrecognized ==> t@ == "Command not recognized \n \r"@,
    {
        match self {
            Reply::Started => "Blinking started \n \r",
            Reply::Paused => "Blinking paused \n \r",
            Reply::PeriodChanged => "Blinking period changed \n \r",
            Reply::PeriodOutOfRange => "Period must be > 0 and < 1000 ms \n \r",
            Reply::ParseError => "Error in parsing message \n \r",
            Reply::Unrecognized => "Command not recognized \n \r",
        }
    }
}

/// What receiving a byte asks of the hardware: a reply to send, and a new
/// blinking period (milliseconds) for the timer, whose counter restarts.
#[derive(Clone, Copy, Debug, PartialEq, Eq, Structural)]
pub struct CmdEffect {
    pub reply: Option<Reply>,
    pub period: Option<u32>,
}

/// The effect of a byte that only goes into the buffer.
pub open spec fn no_effect() -> CmdEffect {
    CmdEffect { reply: None, period: None }
}

/// The effect of a reply alone.
pub open spec fn reply_only(r: Reply) -> CmdEffect {
    CmdEffect { reply: Some(r), period: None }
}

/// The line is `period` with no number: there is no period to read, and
/// the firmware halts on it rather than carrying it out.
pub open spec fn period_without_value(s: Seq<u8>) -> bool {
    utf8_well_formed(s) && first_word(s) == word_period() && !has_second_word(s)
}

/// What the command line `s` does, with blinking on or off (`enabled`): the
/// blinking flag afterwards and the effect.
pub open spec fn interpret(s: Seq<u8>, enabled: bool) -> (bool, CmdEffect) {
    if !utf8_well_formed(s) {
        (enabled, reply_only(Reply::ParseError))
    } else if first_word(s) == word_start() {
        (true, reply_only(Reply::Started))
    } else if first_word(s) == word_pause() {
        (false, reply_only(Reply::Paused))
    } else if first_word(s) == word_period() {
        match parse_u32_spec(second_word(s)) {
            Ok(v) => if 0 < v && v <= PERIOD_MAX {
                (enabled, CmdEffect { reply: Some(Reply::PeriodChanged), period: Some(v) })
            } else {
                (enabled, reply_only(Reply::PeriodOutOfRange))
            },
            Err(_) => (enabled, reply_only(Reply::ParseError)),
        }
    } else {
        (enabled, reply_only(Reply::Unrecognized))
    }
}

/// What each command does, whatever the blinking state before: on a UTF-8
/// line, a first word `pause` turns blinking off and replies `Paused`; `start`
/// turns it on and replies `Started`; `period` followed by a number from 1 to
/// 1000 keeps the blinking state and sets that period. A line that is not
/// UTF-8 changes nothing and replies `ParseError`.
pub proof fn lemma_command_meanings(s: Seq<u8>, enabled: bool)
    ensures
        utf8_well_formed(s) && first_word(s) == seq![0x70u8, 0x61u8, 0x75u8, 0x73u8, 0x65u8] ==> {
            &&& !interpret(s, enabled).0
            &&& interpret(s, enabled).1 == CmdEffect { reply: Some(Reply::Paused), period: None }
        },
        utf8_well_formed(s) && first_word(s) == seq![0x73u8, 0x74u8, 0x61u8, 0x72u8, 0x74u8] ==> {
            &&& interpret(s, enabled).0
            &&& interpret(s, enabled).1 == CmdEffect { reply: Some(Reply::Started), period: None }
        },
        forall|v: u32|
            utf8_well_formed(s) && first_word(s) == seq![0x70u8, 0x65u8, 0x72u8, 0x69u8, 0x6fu8, 0x64u8]
                && #[trigger] parse_u32_spec(second_word(s)) == Ok::<u32, IntErrorKind>(v) && 1 <= v
                <= 1000 ==> {
            &&& interpret(s, enabled).0 == enabled
            &&& interpret(s, enabled).1 == CmdEffect {
                reply: Some(Reply::PeriodChanged),
                period: Some(v),
            }
        },
        !utf8_well_formed(s) ==> {
            &&& interpret(s, enabled).0 == enabled
            &&& interpret(s, enabled).1 == CmdEffect { reply: Some(Reply::ParseError), period: None }
        },
{
    assert(word_start() != word_pause()) by {
        assert(word_start()[0] != word_pause()[0]);
    }
    assert(word_start() != word_period()) by {
        assert(word_start()[0] != word_period()[0]);
    }
    assert(word_pause() != word_period()) by {
        assert(word_pause()[1] != word_period()[1]);
    }
}

/// The other answers: on a UTF-8 line, `period` with a number outside 1 to
/// 1000 replies `PeriodOutOfRange`, `period` with text that is not a number
/// replies `ParseError`, and a first word that is none of `start`, `pause`
/// and `period` replies `Unrecognized`; none of these changes the blinking
/// state or the period.
pub proof fn lemma_command_refusals(s: Seq<u8>, enabled: bool)
    ensures
        forall|v: u32|
            utf8_well_formed(s) && first_word(s) == seq![0x70u8, 0x65u8, 0x72u8, 0x69u8, 0x6fu8, 0x64u8]
                && #[trigger] parse_u32_spec(second_word(s)) == Ok::<u32, IntErrorKind>(v) && !(1 <= v
                <= 1000) ==> interpret(s, enabled) == (enabled, CmdEffect {
                reply: Some(Reply::PeriodOutOfRange),
                period: None,
            }),
        utf8_well_formed(s) && first_word(s) == seq![0x70u8, 0x65u8, 0x72u8, 0x69u8, 0x6fu8, 0x64u8]
            && parse_u32_spec(second_word(s)) is Err ==> interpret(s, enabled) == (enabled, CmdEffect {
            reply: Some(Reply::ParseError),
            period: None,
        }),
        utf8_well_formed(s) && first_word(s) != seq![0x70u8, 0x65u8, 0x72u8, 0x69u8, 0x6fu8, 0x64u8]
            && first_word(s) != seq![0x73u8, 0x74u8, 0x61u8, 0x72u8, 0x74u8] && first_word(s) != seq![
            0x70u8,
            0x61u8,
            0x75u8,
            0x73u8,
            0x65u8,
        ] ==> interpret(s, enabled) == (enabled, CmdEffect {
            reply: Some(Reply::Unrecognized),
            period: None,
        }),
{
    assert(word_start() != word_period()) by {
        assert(word_start()[0] != word_period()[0]);
    }
    assert(word_pause() != word_period()) by {
        assert(word_pause()[1] != word_period()[1]);
    }
    assert(word_start() =~= seq![0x73u8, 0x74u8, 0x61u8, 0x72u8, 0x74u8]);
    assert(word_pause() =~= seq![0x70u8, 0x61u8, 0x75u8, 0x73u8, 0x65u8]);
}

proof fn lemma_find_space_bounds(s: Seq<u8>, from: int)
    requires
        0 <= from <= s.len(),
    ensures
        from <= find_space(s, from) <= s.len(),
        find_space(s, from) < s.len() ==> s[find_space(s, from)] == SPACE,
        forall|k: int| from <= k < find_space(s, from) ==> s[k] != SPACE,
    decreases s.len() - from,
{
    if from < s.len() && s[from] != SPACE {
        lemma_find_space_bounds(s, from + 1);
    }
}

/// The first word is the part of the line before its first space: a prefix of
/// the line with no space in it, which is the whole line or is followed by a
/// space. The second word starts after that space and holds no space either.
pub proof fn lemma_words_split_at_spaces(s: Seq<u8>)
    ensures
        first_word(s).len() <= s.len(),
        first_word(s) == s.take(first_word(s).len() as int),
        forall|k: int| 0 <= k < first_word(s).len() ==> #[trigger] first_word(s)[k] != 0x20u8,
        first_word(s).len() < s.len() ==> s[first_word(s).len() as int] == 0x20u8,
        has_second_word(s) <==> first_word(s).len() < s.len(),
        has_second_word(s) ==> {
            let p = first_word(s).len() as int;
            &&& p + 1 + second_word(s).len() <= s.len()
            &&& second_word(s) == s.subrange(p + 1, p + 1 + second_word(s).len())
            &&& forall|k: int| 0 <= k < second_word(s).len() ==> #[trigger] second_word(s)[k] != 0x20u8
            &&& p + 1 + second_word(s).len() < s.len() ==> s[p + 1 + second_word(s).len()] == 0x20u8
        },
{
    lemma_find_space_bounds(s, 0);
    let p = find_space(s, 0);
    assert(first_word(s) =~= s.take(p));
    if p < s.len() {
        lemma_find_space_bounds(s, p + 1);
        let q = find_space(s, p + 1);
        assert(second_word(s) =~= s.subrange(p + 1, q));
    }
}

/// The index of the first space in `s` at `from` or after it, or `s.len()`.
fn space_from(s: &[u8], from: usize) -> (r: usize)
    requires
        from <= s@.len(),
    ensures
        r == find_space(s@, from as int),
        from <= r <= s@.len(),
{
    let mut i = from;
    while i < s.len() && s[i] != SPACE
        invariant
            from <= i <= s@.len(),
            find_space(s@, from as int) == find_space(s@, i as int),
        decreases s@.len() - i,
    {
        i = i + 1;
    }
    i
}

/// `s[lo..hi]` is the word `w`.
fn range_is(s: &[u8], lo: usize, hi: usize, w: &[u8]) -> (r: bool)
    requires
        lo <= hi <= s@.len(),
    ensures
        r == (s@.subrange(lo as int, hi as int) == w@),
{
    if hi - lo != w.len() {
        return false;
    }
    let mut k: usize = 0;
    while k < w.len()
        invariant
            hi - lo == w@.len(),
            lo <= hi <= s@.len(),
            k <= w@.len(),
            forall|t: int| 0 <= t < k ==> s@[lo + t] == w@[t],
        decreases w@.len() - k,
    {
        if s[lo + k] != w[k] {
            assert(s@.subrange(lo as int, hi as int)[k as int] != w@[k as int]);
            return false;
        }
        k = k + 1;
    }
    assert(s@.subrange(lo as int, hi as int) =~= w@);
    true
}

/// The bytes `s[lo..hi]`.
fn copy_range(s: &[u8], lo: usize, hi: usize) -> (r: Vec<u8>)
    requires
        lo <= hi <= s@.len(),
    ensures
        r@ == s@.subrange(lo as int, hi as int),
{
    let mut r: Vec<u8> = Vec::new();
    let mut k = lo;
    while k < hi
        invariant
            lo <= k <= hi <= s@.len(),
            r@ =~= s@.subrange(lo as int, k as int),
        decreases hi - k,
    {
        r.push(s[k]);
        k = k + 1;
    }
    r
}

/// Carries out the command line `s` with blinking on or off (`enabled`).
fn run_command(s: &[u8], enabled: bool) -> (r: (bool, CmdEffect))
    requires
        !period_without_value(s@),
    ensures
        r == interpret(s@, enabled),
{
    if !is_utf8(s) {
        return (enabled, CmdEffect { reply: Some(Reply::ParseError), period: None });
    }
    let p = space_from(s, 0);
    let start: [u8; 5] = [0x73, 0x74, 0x61, 0x72, 0x74];
    let pause: [u8; 5] = [0x70, 0x61, 0x75, 0x73, 0x65];
    let period: [u8; 6] = [0x70, 0x65, 0x72, 0x69, 0x6f, 0x64];
    assert(start@ =~= word_start());
    assert(pause@ =~= word_pause());
    assert(period@ =~= word_period());
    if range_is(s, 0, p, start.as_slice()) {
        (true, CmdEffect { reply: Some(Reply::Started), period: None })
    } else if range_is(s, 0, p, pause.as_slice()) {
        (false, CmdEffect { reply: Some(Reply::Paused), period: None })
    } else if range_is(s, 0, p, period.as_slice()) {
        let q = space_from(s, p + 1);
        let value = copy_range(s, p + 1, q);
        match parse_u32(value.as_slice()) {
            Ok(v) => {
                if v > 0 && v <= PERIOD_MAX {
                    (enabled, CmdEffect { reply: Some(Reply::PeriodChanged), period: Some(v) })
                } else {
                    (enabled, CmdEffect { reply: Some(Reply::PeriodOutOfRange), period: None })
                }
            },
            Err(_) => (enabled, CmdEffect { reply: Some(Reply::ParseError), period: None }),
        }
    } else {
        (enabled, CmdEffect { reply: Some(Reply::Unrecognized), period: None })
    }
}

/// The state of the command line: the bytes of the line received so far and
/// whether the LED blinks.
pub struct Console {
    buffer: Vec<u8>,
    blink_enable: bool,
}

impl Console {
    /// The bytes of the current line received so far.
    pub closed spec fn line(&self) -> Seq<u8> {
        self.buffer@
    }

    /// The LED blinks.
    pub closed spec fn enabled(&self) -> bool {
        self.blink_enable
    }

    /// The line fits in the receive buffer.
    pub open spec fn wf(&self) -> bool {
        self.line().len() <= BUFFER_SIZE
    }

    /// An empty line, with blinking off.
    pub fn new() -> (c: Console)
        ensures
            c.wf(),
            c.line() == Seq::<u8>::empty(),
            !c.enabled(),
    {
        Console { buffer: Vec::new(), blink_enable: false }
    }

    /// How many bytes of the current line were received.
    pub fn line_len(&self) -> (n: usize)
        ensures
            n == self.line().len(),
    {
        self.buffer.len()
    }

    /// The current line is `period` with no number, which the firmware halts
    /// on when the newline comes (see [`period_without_value`]).
    pub fn period_lacks_value(&self) -> (r: bool)
        ensures
            r == period_without_value(self.line()),
    {
        let s = self.buffer.as_slice();
        let period: [u8; 6] = [0x70, 0x65, 0x72, 0x69, 0x6f, 0x64];
        assert(period@ =~= word_period());
        is_utf8(s) && space_from(s, 0) == s.len() && range_is(s, 0, s.len(), period.as_slice())
    }

    /// Whether the LED blinks.
    pub fn blink_enabled(&self) -> (b: bool)
        ensures
            b == self.enabled(),
    {
        self.blink_enable
    }

    /// Receives the byte `b`: a newline ends the line, which is carried out
    /// as a command and cleared; any other byte is added to the line.
    pub fn cmd(&mut self, b: u8) -> (e: CmdEffect)
        requires
            old(self).wf(),
            b != NEWLINE ==> old(self).line().len() < BUFFER_SIZE,
            b == NEWLINE ==> !period_without_value(old(self).line()),
        ensures
            final(self).wf(),
            b != NEWLINE ==> {
                &&& final(self).line() == old(self).line().push(b)
                &&& final(self).enabled() == old(self).enabled()
                &&& e == no_effect()
            },
            b == NEWLINE ==> {
                &&& final(self).line() == Seq::<u8>::empty()
                &&& (final(self).enabled(), e) == interpret(old(self).line(), old(self).enabled())
            },
    {
        if b == NEWLINE {
            let (enabled, e) = run_command(self.buffer.as_slice(), self.blink_enable);
            self.blink_enable = enabled;
            self.buffer = Vec::new();
            e
        } else {
            self.buffer.push(b);
            CmdEffect { reply: None, period: None }
        }
    }
}

} // verus!
