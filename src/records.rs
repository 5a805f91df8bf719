//! Records as they arrive from the browser extension, and the predicates
//! that decide which of them are shown.

use vstd::prelude::*;

verus! {

/// Width of the time window, in milliseconds: fourteen days.
pub const TWO_WEEKS_MS: i64 = 1_209_600_000;

/// One record of a batch. Absent fields are `None`, which is distinct from
/// an empty string.
pub struct Person {
    pub person_guid: String,
    pub first_name: Option<String>,
    pub last_name: Option<String>,
    pub referral_status_id: Option<i32>,
    pub person_status_id: Option<i32>,
    pub zone_name: Option<String>,
    pub area_name: Option<String>,
    pub find_id: Option<i32>,
    pub referral_assigned_date: Option<i64>,
}

/// The characters with the Unicode White_Space property.
pub open spec fn is_white_space(c: char) -> bool {
    let u = c as u32;
    (0x09 <= u && u <= 0x0D) || u == 0x20 || u == 0x85 || u == 0xA0 || u == 0x1680
        || (0x2000 <= u && u <= 0x200A) || u == 0x2028 || u == 0x2029 || u == 0x202F
        || u == 0x205F || u == 0x3000
}

/// A text has content when something is left after trimming white space,
/// that is, when one of its characters is not white space.
pub open spec fn has_content(s: Seq<char>) -> bool {
    exists|i: int| 0 <= i < s.len() && !is_white_space(#[trigger] s[i])
}

/// An optional name is usable when it is present and has content.
pub open spec fn name_present(n: Option<String>) -> bool {
    match n {
        Some(s) => has_content(s@),
        None => false,
    }
}

pub fn white_space(c: char) -> (r: bool)
    ensures
        r == is_white_space(c),
{
    let u = c as u32;
    (0x09 <= u && u <= 0x0D) || u == 0x20 || u == 0x85 || u == 0xA0 || u == 0x1680
        || (0x2000 <= u && u <= 0x200A) || u == 0x2028 || u == 0x2029 || u == 0x202F
        || u == 0x205F || u == 0x3000
}

/// Whether `s` is non-empty once surrounding white space is trimmed.
pub fn content_after_trim(s: &str) -> (r: bool)
    ensures
        r == has_content(s@),
{
    let n = s.unicode_len();
    let mut i: usize = 0;
    while i < n
        invariant
            n == s@.len(),
            i <= n,
            forall|k: int| 0 <= k < i ==> is_white_space(#[trigger] s@[k]),
        decreases n - i,
    {
        let c = s.get_char(i);
        if !white_space(c) {
            return true;
        }
        i = i + 1;
    }
    false
}

/// Status codes of people in an active state.
pub open spec fn spec_green_or_yellow(p: &Person) -> bool {
    match p.person_status_id {
        Some(s) => 1 <= s <= 4,
        None => false,
    }
}

/// Referral status "awaiting contact".
pub const UNATTEMPTED: i32 = 10;

/// Referral status "previously unsuccessful".
pub const UNSUCCESSFUL: i32 = 20;

/// The glyph appended to the name of a person awaiting contact.
pub const MARKER: char = '\u{2757}';

pub open spec fn spec_unattempted(p: &Person) -> bool {
    p.referral_status_id == Some(UNATTEMPTED)
}

pub open spec fn spec_unattempted_or_unsuccessful(p: &Person) -> bool {
    p.referral_status_id == Some(UNATTEMPTED) || p.referral_status_id == Some(UNSUCCESSFUL)
}

/// The assignment instant is known and lies at most fourteen days before `now`
/// (both in milliseconds since the epoch); a later instant does not count.
pub open spec fn assigned_recently(date: Option<i64>, now: i64) -> bool {
    match date {
        Some(t) => 0 <= now - t <= TWO_WEEKS_MS,
        None => false,
    }
}

/// The filter of the aggregation: zone and area have content, the person is
/// active, the referral awaits contact or was unsuccessful, and it was
/// assigned within the last fourteen days.
pub open spec fn spec_should_include(p: &Person, now: i64) -> bool {
    &&& name_present(p.zone_name)
    &&& name_present(p.area_name)
    &&& spec_green_or_yellow(p)
    &&& spec_unattempted_or_unsuccessful(p)
    &&& assigned_recently(p.referral_assigned_date, now)
}

/// The text of an optional name; an absent one reads as empty.
pub open spec fn text_or_empty(n: Option<String>) -> Seq<char> {
    match n {
        Some(s) => s@,
        None => Seq::empty(),
    }
}

/// First and last name run together, without a separator.
pub open spec fn plain_name(p: &Person) -> Seq<char> {
    text_or_empty(p.first_name) + text_or_empty(p.last_name)
}

/// The name shown for a person: the plain name, with the marker glyph
/// appended when the referral awaits contact.
pub open spec fn display_name(p: &Person) -> Seq<char> {
    if spec_unattempted(p) {
        plain_name(p).push(MARKER)
    } else {
        plain_name(p)
    }
}

pub open spec fn ends_with_marker(s: Seq<char>) -> bool {
    s.len() > 0 && s.last() == MARKER
}

/// A person awaiting contact is shown with the marker glyph at the end. A
/// person previously unsuccessful is shown by the plain name, with nothing
/// appended, so the name ends with the glyph only when the names themselves do.
pub proof fn lemma_marker_follows_referral(p: &Person)
    ensures
        p.referral_status_id == Some(UNATTEMPTED) ==> ends_with_marker(display_name(p)),
        p.referral_status_id == Some(UNSUCCESSFUL) ==> display_name(p) == plain_name(p),
        p.referral_status_id == Some(UNSUCCESSFUL) && !ends_with_marker(plain_name(p))
            ==> !ends_with_marker(display_name(p)),
{
}

pub fn is_green_or_yellow(person: &Person) -> (r: bool)
    ensures
        r == spec_green_or_yellow(person),
{
    match person.person_status_id {
        Some(s) => 1 <= s && s <= 4,
        None => false,
    }
}

pub fn unattempted(person: &Person) -> (r: bool)
    ensures
        r == spec_unattempted(person),
{
    match person.referral_status_id {
        Some(s) => s == UNATTEMPTED,
        None => false,
    }
}

pub fn unattempted_or_unsuccessful(person: &Person) -> (r: bool)
    ensures
        r == spec_unattempted_or_unsuccessful(person),
{
    match person.referral_status_id {
        Some(s) => s == UNATTEMPTED || s == UNSUCCESSFUL,
        None => false,
    }
}

fn optional_content(n: &Option<String>) -> (r: bool)
    ensures
        r == name_present(*n),
{
    match n {
        Some(s) => content_after_trim(s.as_str()),
        None => false,
    }
}

/// Whether `date` lies within the fourteen days up to `now_ms`.
pub fn within_two_weeks(date: Option<i64>, now_ms: i64) -> (r: bool)
    ensures
        r == assigned_recently(date, now_ms),
{
    match date {
        Some(t) => {
            let age: i128 = now_ms as i128 - t as i128;
            0 <= age && age <= TWO_WEEKS_MS as i128
        },
        None => false,
    }
}

/// Whether a record is kept by the aggregation, judged at the instant
/// `now_ms` (milliseconds since the epoch).
pub fn should_include(person: &Person, now_ms: i64) -> (r: bool)
    ensures
        r == spec_should_include(person, now_ms),
{
    let zone_ok = optional_content(&person.zone_name);
    let area_ok = optional_content(&person.area_name);
    if !(zone_ok && area_ok) {
        return false;
    }
    let green_or_yellow = is_green_or_yellow(person);
    let awaiting = unattempted_or_unsuccessful(person);
    let recent = within_two_weeks(person.referral_assigned_date, now_ms);
    recent && green_or_yellow && awaiting
}

fn append_optional(name: &mut String, part: &Option<String>)
    ensures
        final(name)@ == old(name)@ + text_or_empty(*part),
{
    match part {
        Some(s) => name.append(s.as_str()),
        None => {
            assert(old(name)@ + Seq::<char>::empty() =~= old(name)@);
        },
    }
}

/// The display name of a person: first and last name without a separator,
/// followed by the marker glyph when the referral awaits contact.
pub fn cleaned_name(person: &Person) -> (r: String)
    ensures
        r@ == display_name(person),
{
    let mut name = String::new();
    append_optional(&mut name, &person.first_name);
    append_optional(&mut name, &person.last_name);
    assert(name@ =~= plain_name(person));
    if unattempted(person) {
        proof {
            reveal_strlit("\u{2757}");
        }
        name.append("\u{2757}");
        assert(name@ =~= plain_name(person).push(MARKER));
    }
    name
}

} // verus!
