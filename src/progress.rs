//! Progress of an installer subprocess: percentages read from its output
//! lines, forwarded only when they rise, with a closing 100 at the end of a
//! stream.

use vstd::prelude::*;

use regex::Regex;

verus! {

#[verifier::external_type_specification]
#[verifier::external_body]
pub struct ExRegex(Regex);

/// The pattern of a progress mark: a run of digits right before `%`.
pub const PERCENT_PATTERN: &'static str = "(\\d+)%";

pub open spec fn percent_pattern() -> Seq<char> {
    seq!['(', '\\', 'd', '+', ')', '%']
}

pub open spec fn is_ascii_digit(c: char) -> bool {
    48 <= (c as u32) <= 57
}

pub open spec fn is_ascii_text(s: Seq<char>) -> bool {
    forall|i: int| 0 <= i < s.len() ==> (#[trigger] s[i] as u32) < 128
}

/// Start of the run of ASCII digits that ends right before position `end`.
pub open spec fn digit_run_start(s: Seq<char>, end: int) -> int
    decreases end,
{
    if 0 < end <= s.len() && is_ascii_digit(s[end - 1]) {
        digit_run_start(s, end - 1)
    } else {
        end
    }
}

/// From position `from` on, the first `%` with a digit right before it, and
/// the whole digit run before that `%`.
pub open spec fn percent_run_from(s: Seq<char>, from: int) -> Option<Seq<char>>
    decreases s.len() - from,
{
    if from < 0 || from >= s.len() {
        None
    } else if s[from] == '%' && from > 0 && is_ascii_digit(s[from - 1]) {
        Some(s.subrange(digit_run_start(s, from), from))
    } else {
        percent_run_from(s, from + 1)
    }
}

/// The digits of the leftmost progress mark of a line of ASCII text.
pub open spec fn first_percent_run(s: Seq<char>) -> Option<Seq<char>> {
    percent_run_from(s, 0)
}

/// Group 1 of the leftmost match of `(\d+)%` in a line, as the regex crate
/// finds it.
pub uninterp spec fn percent_capture(line: Seq<char>) -> Option<Seq<char>>;

pub open spec fn opt_text(r: Option<String>) -> Option<Seq<char>> {
    match r {
        Some(s) => Some(s@),
        None => None,
    }
}

/// Relies on regex::Regex::new: `(\d+)%` is a valid pattern, far below the
/// default size limit, so compiling it succeeds.
#[verifier::external_body]
fn compile_pattern(pattern: &str) -> (r: Option<Regex>)
    ensures
        pattern@ == percent_pattern() ==> r is Some,
{
    Regex::new(pattern).ok()
}

/// Finds progress marks in text lines.
pub struct PercentExtractor {
    re: Regex,
}

/// Relies on regex::Regex::captures and Captures::get on the regex of a
/// `PercentExtractor`, which only `PercentExtractor::new` builds, from
/// `(\d+)%`: the result is group 1 of the leftmost-first match. `\d` is
/// Unicode-aware (`\p{Nd}`); on ASCII text it means `0`-`9`, and the group
/// is then the whole digit run before the first `%` that follows a digit.
#[verifier::external_body]
fn capture_percent(ex: &PercentExtractor, line: &str) -> (r: Option<String>)
    ensures
        opt_text(r) == percent_capture(line@),
        is_ascii_text(line@) ==> opt_text(r) == first_percent_run(line@),
{
    let caps = ex.re.captures(line)?;
    let group = caps.get(1)?;
    Some(group.as_str().to_string())
}

/// The number that a run of ASCII digits denotes.
pub open spec fn digits_value(s: Seq<char>) -> int
    decreases s.len(),
{
    if s.len() == 0 {
        0
    } else {
        digits_value(s.drop_last()) * 10 + (s.last() as u32 - 48)
    }
}

pub open spec fn all_digits(s: Seq<char>) -> bool {
    forall|i: int| 0 <= i < s.len() ==> is_ascii_digit(#[trigger] s[i])
}

/// The percentage that captured digits denote: a non-empty run of ASCII
/// digits whose value lies in 0..=100.
pub open spec fn percent_value(digits: Seq<char>) -> Option<u8> {
    if digits.len() > 0 && all_digits(digits) && digits_value(digits) <= 100 {
        Some(digits_value(digits) as u8)
    } else {
        None
    }
}

/// The percentage that a line of output reports, if any.
pub open spec fn line_percent(line: Seq<char>) -> Option<u8> {
    match percent_capture(line) {
        Some(d) => percent_value(d),
        None => None,
    }
}

proof fn lemma_digits_value_grows(s: Seq<char>, k: int)
    requires
        all_digits(s),
        0 <= k <= s.len(),
    ensures
        0 <= digits_value(s.subrange(0, k)) <= digits_value(s),
    decreases s.len(),
{
    if s.len() > 0 {
        assert(is_ascii_digit(s[s.len() - 1]));
        if k < s.len() {
            assert(s.drop_last().subrange(0, k) =~= s.subrange(0, k));
            lemma_digits_value_grows(s.drop_last(), k);
        } else {
            assert(s.subrange(0, k) =~= s);
            lemma_digits_value_grows(s.drop_last(), k - 1);
        }
    } else {
        assert(s.subrange(0, k) =~= s);
    }
}

/// Reads captured digits as a percentage.
pub fn parse_percent(digits: &str) -> (r: Option<u8>)
    ensures
        r == percent_value(digits@),
{
    let n = digits.unicode_len();
    if n == 0 {
        return None;
    }
    let mut acc: u32 = 0;
    let mut i: usize = 0;
    while i < n
        invariant
            n == digits@.len(),
            i <= n,
            all_digits(digits@.subrange(0, i as int)),
            acc == digits_value(digits@.subrange(0, i as int)),
            acc <= 100,
        decreases n - i,
    {
        let c = digits.get_char(i);
        let u = c as u32;
        if u < 48 || u > 57 {
            assert(!all_digits(digits@));
            return None;
        }
        proof {
            let next = digits@.subrange(0, i + 1);
            assert(next.drop_last() =~= digits@.subrange(0, i as int));
            assert(all_digits(next));
        }
        acc = acc * 10 + (u - 48);
        i = i + 1;
        if acc > 100 {
            proof {
                if all_digits(digits@) {
                    lemma_digits_value_grows(digits@, i as int);
                }
            }
            return None;
        }
    }
    assert(digits@.subrange(0, n as int) =~= digits@);
    Some(acc as u8)
}

impl PercentExtractor {
    pub fn new() -> (r: PercentExtractor) {
        proof {
            reveal_strlit("(\\d+)%");
        }
        assert(PERCENT_PATTERN@ =~= percent_pattern());
        let re = compile_pattern(PERCENT_PATTERN);
        PercentExtractor { re: re.unwrap() }
    }

    /// The percentage that `line` reports: the digits before its first
    /// progress mark, when they read as 0..=100.
    pub fn extract(&self, line: &str) -> (r: Option<u8>)
        ensures
            r == line_percent(line@),
            is_ascii_text(line@) ==> r == match first_percent_run(line@) {
                Some(d) => percent_value(d),
                None => None,
            },
    {
        match capture_percent(self, line) {
            Some(d) => parse_percent(d.as_str()),
            None => None,
        }
    }
}

/// What a stream whose last emitted value is `last` forwards for a reported
/// value: a percentage in 0..=100 strictly above `last`, and nothing else.
pub open spec fn emitted(last: u8, value: Option<u8>) -> Option<u8> {
    match value {
        Some(v) => if last < v && v <= 100 {
            Some(v)
        } else {
            None
        },
        None => None,
    }
}

/// The last emitted value after a reported value.
pub open spec fn advanced(last: u8, value: Option<u8>) -> u8 {
    match emitted(last, value) {
        Some(v) => v,
        None => last,
    }
}

/// The last emitted value after a run of reported values, from 0.
pub open spec fn last_after(values: Seq<Option<u8>>) -> u8
    decreases values.len(),
{
    if values.len() == 0 {
        0
    } else {
        advanced(last_after(values.drop_last()), values.last())
    }
}

/// The events forwarded for a run of reported values, from 0.
pub open spec fn events_of(values: Seq<Option<u8>>) -> Seq<u8>
    decreases values.len(),
{
    if values.len() == 0 {
        Seq::empty()
    } else {
        let before = events_of(values.drop_last());
        match emitted(last_after(values.drop_last()), values.last()) {
            Some(v) => before.push(v),
            None => before,
        }
    }
}

/// The forced event at the end of a stream: 100, unless 100 was the last.
pub open spec fn closing(last: u8) -> Seq<u8> {
    if last < 100 {
        seq![100u8]
    } else {
        Seq::empty()
    }
}

/// Every event of a stream whose lines report `values`, end included.
pub open spec fn stream_events(values: Seq<Option<u8>>) -> Seq<u8> {
    events_of(values) + closing(last_after(values))
}

/// The per-stream progress state: the last percentage emitted.
pub struct ProgressEmitter {
    last: u8,
}

impl View for ProgressEmitter {
    type V = u8;

    closed spec fn view(&self) -> u8 {
        self.last
    }
}

impl ProgressEmitter {
    /// A fresh stream, at 0.
    pub fn new() -> (r: ProgressEmitter)
        ensures
            r@ == 0,
    {
        ProgressEmitter { last: 0 }
    }

    /// The last percentage emitted on this stream.
    pub fn last(&self) -> (r: u8)
        ensures
            r == self@,
    {
        self.last
    }

    /// Takes a reported value; returns the event to forward, if any.
    pub fn offer(&mut self, value: Option<u8>) -> (r: Option<u8>)
        ensures
            r == emitted(old(self)@, value),
            final(self)@ == advanced(old(self)@, value),
    {
        match value {
            Some(v) => {
                if self.last < v && v <= 100 {
                    self.last = v;
                    Some(v)
                } else {
                    None
                }
            },
            None => None,
        }
    }

    /// Takes one line of output; returns the event to forward, if any.
    pub fn on_line(&mut self, extractor: &PercentExtractor, line: &str) -> (r: Option<u8>)
        ensures
            r == emitted(old(self)@, line_percent(line@)),
            final(self)@ == advanced(old(self)@, line_percent(line@)),
    {
        let value = extractor.extract(line);
        self.offer(value)
    }

    /// The end of the stream: returns the forced 100 unless it was the last
    /// value emitted.
    pub fn finish(&mut self) -> (r: Option<u8>)
        ensures
            old(self)@ < 100 ==> r == Some(100u8) && final(self)@ == 100,
            old(self)@ >= 100 ==> r is None && final(self)@ == old(self)@,
    {
        if self.last < 100 {
            self.last = 100;
            Some(100)
        } else {
            None
        }
    }
}

/// The events of a whole stream, given the value that each line reports.
pub fn progress_events(values: &Vec<Option<u8>>) -> (r: Vec<u8>)
    ensures
        r@ == stream_events(values@),
{
    let mut emitter = ProgressEmitter::new();
    let mut events: Vec<u8> = Vec::new();
    let n = values.len();
    let mut i: usize = 0;
    while i < n
        invariant
            n == values@.len(),
            i <= n,
            emitter@ == last_after(values@.subrange(0, i as int)),
            events@ == events_of(values@.subrange(0, i as int)),
        decreases n - i,
    {
        proof {
            assert(values@.subrange(0, i + 1).drop_last() =~= values@.subrange(0, i as int));
        }
        match emitter.offer(values[i]) {
            Some(v) => events.push(v),
            None => {},
        }
        i = i + 1;
    }
    assert(values@.subrange(0, n as int) =~= values@);
    match emitter.finish() {
        Some(v) => {
            events.push(v);
            assert(events@ =~= stream_events(values@));
        },
        None => {
            assert(events@ =~= stream_events(values@));
        },
    }
    events
}

/// The events of a whole stream of output lines.
pub fn stream_progress(extractor: &PercentExtractor, lines: &Vec<String>) -> (r: Vec<u8>)
    ensures
        r@ == stream_events(lines@.map_values(|l: String| line_percent(l@))),
{
    let mut values: Vec<Option<u8>> = Vec::new();
    let n = lines.len();
    let mut i: usize = 0;
    while i < n
        invariant
            n == lines@.len(),
            i <= n,
            values@ =~= lines@.subrange(0, i as int).map_values(|l: String| line_percent(l@)),
        decreases n - i,
    {
        let v = extractor.extract(lines[i].as_str());
        values.push(v);
        i = i + 1;
    }
    assert(lines@.subrange(0, n as int) =~= lines@);
    progress_events(&values)
}

proof fn lemma_events_bounded(values: Seq<Option<u8>>)
    ensures
        last_after(values) <= 100,
        events_of(values).len() == 0 <==> last_after(values) == 0,
        events_of(values).len() > 0 ==> events_of(values).last() == last_after(values),
        forall|i: int| 0 <= i < events_of(values).len() ==> 0 < #[trigger] events_of(values)[i] <= last_after(values),
        forall|i: int, j: int|
            0 <= i < j < events_of(values).len() ==> #[trigger] events_of(values)[i] < #[trigger] events_of(values)[j],
    decreases values.len(),
{
    if values.len() > 0 {
        let rest = values.drop_last();
        lemma_events_bounded(rest);
        let before = events_of(rest);
        let ev = events_of(values);
        match emitted(last_after(rest), values.last()) {
            Some(v) => {
                assert(ev == before.push(v));
                assert forall|i: int, j: int| 0 <= i < j < ev.len() implies #[trigger] ev[i] < #[trigger] ev[j] by {
                    if j < before.len() {
                        assert(before[i] < before[j]);
                    } else {
                        assert(ev[i] == before[i]);
                    }
                }
            },
            None => {},
        }
    }
}

/// The events of a stream rise strictly, stay within 1..=100, and end with
/// exactly one 100.
pub proof fn lemma_stream_rises_to_completion(values: Seq<Option<u8>>)
    ensures
        stream_events(values).len() > 0,
        stream_events(values).last() == 100,
        forall|i: int| 0 <= i < stream_events(values).len() ==> 0 < #[trigger] stream_events(values)[i] <= 100,
        forall|i: int, j: int|
            0 <= i < j < stream_events(values).len() ==> #[trigger] stream_events(values)[i] < #[trigger] stream_events(values)[j],
{
    lemma_events_bounded(values);
    let ev = events_of(values);
    let last = last_after(values);
    if last < 100 {
        assert(stream_events(values) == ev.push(100u8));
    } else {
        assert(stream_events(values) =~= ev);
        assert(ev.len() > 0);
    }
}

/// A stream none of whose lines reports a percentage emits exactly one
/// event, 100, when it ends.
pub proof fn lemma_silent_stream_completes(values: Seq<Option<u8>>)
    requires
        forall|i: int| 0 <= i < values.len() ==> #[trigger] values[i] is None,
    ensures
        stream_events(values) == seq![100u8],
    decreases values.len(),
{
    lemma_silent_stream_stays_at_zero(values);
    assert(stream_events(values) =~= seq![100u8]);
}

proof fn lemma_silent_stream_stays_at_zero(values: Seq<Option<u8>>)
    requires
        forall|i: int| 0 <= i < values.len() ==> #[trigger] values[i] is None,
    ensures
        events_of(values) == Seq::<u8>::empty(),
        last_after(values) == 0,
    decreases values.len(),
{
    if values.len() > 0 {
        let rest = values.drop_last();
        assert forall|i: int| 0 <= i < rest.len() implies #[trigger] rest[i] is None by {
            assert(rest[i] == values[i]);
        }
        lemma_silent_stream_stays_at_zero(rest);
        assert(values.last() is None);
    }
}

} // verus!
