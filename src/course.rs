use vstd::prelude::*;
use crate::datetime::{
    datetime_spec, parse_datetime_chars, CivilDateTime, DateTimeType, ScheduleError,
};
use crate::text::{find_char, index_of, same_chars, slice_chars, split_chars, split_spec, to_chars, views};

verus! {

/// How often a recurrence repeats.
#[derive(Clone, Copy, Debug, PartialEq, Eq, Structural)]
pub enum Frequency {
    Daily,
    Weekly,
    Monthly,
}

/// A day of the week.
#[derive(Clone, Copy, Debug, PartialEq, Eq, Structural)]
pub enum Weekday {
    Mon,
    Tue,
    Wed,
    Thu,
    Fri,
    Sat,
    Sun,
}

/// One weekly recurring course, filled field by field from a calendar.
#[derive(Clone, Debug)]
pub struct Course {
    pub summary: Option<String>,
    /// Date and time of day of the first occurrence.
    pub dtstart: Option<CivilDateTime>,
    /// Only its time of day is used: when each occurrence ends.
    pub dtend: Option<CivilDateTime>,
    pub frequency: Option<Frequency>,
    /// A UTC instant: occurrences are valid strictly before it.
    pub until: Option<CivilDateTime>,
    pub days: Option<Vec<Weekday>>,
}

/// The mathematical value of a `Course`.
pub ghost struct CourseView {
    pub summary: Option<Seq<char>>,
    pub dtstart: Option<CivilDateTime>,
    pub dtend: Option<CivilDateTime>,
    pub frequency: Option<Frequency>,
    pub until: Option<CivilDateTime>,
    pub days: Option<Seq<Weekday>>,
}

impl View for Course {
    type V = CourseView;

    open spec fn view(&self) -> CourseView {
        CourseView {
            summary: match self.summary {
                Some(s) => Some(s@),
                None => None,
            },
            dtstart: self.dtstart,
            dtend: self.dtend,
            frequency: self.frequency,
            until: self.until,
            days: match self.days {
                Some(d) => Some(d@),
                None => None,
            },
        }
    }
}

/// A course with no field set.
pub open spec fn empty_course() -> CourseView {
    CourseView {
        summary: None,
        dtstart: None,
        dtend: None,
        frequency: None,
        until: None,
        days: None,
    }
}

impl CourseView {
    /// All six fields are set.
    pub open spec fn complete(self) -> bool {
        &&& self.summary is Some
        &&& self.dtstart is Some
        &&& self.dtend is Some
        &&& self.frequency is Some
        &&& self.until is Some
        &&& self.days is Some
    }
}

impl Course {
    /// A course with no field set.
    pub fn new() -> (r: Course)
        ensures
            r@ == empty_course(),
    {
        Course {
            summary: None,
            dtstart: None,
            dtend: None,
            frequency: None,
            until: None,
            days: None,
        }
    }

    /// Whether all six fields are set.
    pub fn is_complete(&self) -> (r: bool)
        ensures
            r == self@.complete(),
    {
        self.summary.is_some() && self.dtstart.is_some() && self.dtend.is_some()
            && self.frequency.is_some() && self.until.is_some() && self.days.is_some()
    }
}

/// The weekday a two-letter ICS code names.
pub open spec fn weekday_code(t: Seq<char>) -> Option<Weekday> {
    if t.len() != 2 {
        None
    } else if t[0] == 'M' && t[1] == 'O' {
        Some(Weekday::Mon)
    } else if t[0] == 'T' && t[1] == 'U' {
        Some(Weekday::Tue)
    } else if t[0] == 'W' && t[1] == 'E' {
        Some(Weekday::Wed)
    } else if t[0] == 'T' && t[1] == 'H' {
        Some(Weekday::Thu)
    } else if t[0] == 'F' && t[1] == 'R' {
        Some(Weekday::Fri)
    } else if t[0] == 'S' && t[1] == 'A' {
        Some(Weekday::Sat)
    } else if t[0] == 'S' && t[1] == 'U' {
        Some(Weekday::Sun)
    } else {
        None
    }
}

/// The weekdays of the recognized codes among `tokens`, in order.
pub open spec fn days_of(tokens: Seq<Seq<char>>) -> Seq<Weekday>
    decreases tokens.len(),
{
    if tokens.len() == 0 {
        Seq::empty()
    } else {
        let before = days_of(tokens.drop_last());
        match weekday_code(tokens.last()) {
            Some(w) => before.push(w),
            None => before,
        }
    }
}

/// The weekdays of a `BYDAY` value: its `,`-separated codes, unrecognized
/// ones dropped.
pub open spec fn byday_spec(v: Seq<char>) -> Seq<Weekday> {
    days_of(split_spec(v, ','))
}

fn weekday_of_code(t: &Vec<char>) -> (r: Option<Weekday>)
    ensures
        r == weekday_code(t@),
{
    if t.len() != 2 {
        return None;
    }
    let (a, b) = (t[0], t[1]);
    if a == 'M' && b == 'O' {
        Some(Weekday::Mon)
    } else if a == 'T' && b == 'U' {
        Some(Weekday::Tue)
    } else if a == 'W' && b == 'E' {
        Some(Weekday::Wed)
    } else if a == 'T' && b == 'H' {
        Some(Weekday::Thu)
    } else if a == 'F' && b == 'R' {
        Some(Weekday::Fri)
    } else if a == 'S' && b == 'A' {
        Some(Weekday::Sat)
    } else if a == 'S' && b == 'U' {
        Some(Weekday::Sun)
    } else {
        None
    }
}

fn byday_chars(v: &Vec<char>) -> (r: Vec<Weekday>)
    ensures
        r@ == byday_spec(v@),
{
    let tokens = split_chars(v, ',');
    let mut out: Vec<Weekday> = Vec::new();
    let mut i: usize = 0;
    while i < tokens.len()
        invariant
            i <= tokens@.len(),
            views(tokens@) == split_spec(v@, ','),
            out@ == days_of(views(tokens@).take(i as int)),
        decreases tokens@.len() - i,
    {
        assert(views(tokens@).take(i + 1).drop_last() =~= views(tokens@).take(i as int));
        match weekday_of_code(&tokens[i]) {
            Some(w) => out.push(w),
            None => {},
        }
        i = i + 1;
    }
    assert(views(tokens@).take(i as int) =~= views(tokens@));
    out
}

/// Sets the course's weekdays from a `BYDAY` value: the recognized codes of
/// its `,`-separated list, in order. The field is set even where no code
/// is recognized.
pub fn parse_byday(days: &str, course: &mut Course)
    ensures
        final(course)@ == (CourseView { days: Some(byday_spec(days@)), ..old(course)@ }),
{
    let v = to_chars(days);
    course.days = Some(byday_chars(&v));
}


/// The effect of one `KEY=VALUE` item of an `RRULE` on a course, or `None`
/// where its `UNTIL` date-time is malformed. An item without `=`, and keys
/// other than `FREQ`, `UNTIL` and `BYDAY`, leave the course as it is; so do
/// a `FREQ` other than `WEEKLY` and an `UNTIL` without the UTC tag.
pub open spec fn rule_spec(c: CourseView, rule: Seq<char>) -> Option<CourseView> {
    let k = index_of(rule, '=');
    if k == rule.len() {
        Some(c)
    } else {
        let key = rule.subrange(0, k);
        let value = rule.subrange(k + 1, rule.len() as int);
        if key == "FREQ"@ {
            if value == "WEEKLY"@ {
                Some(CourseView { frequency: Some(Frequency::Weekly), ..c })
            } else {
                Some(c)
            }
        } else if key == "UNTIL"@ {
            match datetime_spec(value) {
                Some(DateTimeType::UtcType(dt)) => Some(CourseView { until: Some(dt), ..c }),
                Some(DateTimeType::NaiveType(_)) => Some(c),
                None => None,
            }
        } else if key == "BYDAY"@ {
            Some(CourseView { days: Some(byday_spec(value)), ..c })
        } else {
            Some(c)
        }
    }
}

/// The items of an `RRULE` applied in order.
pub open spec fn rules_spec(c: CourseView, rules: Seq<Seq<char>>) -> Option<CourseView>
    decreases rules.len(),
{
    if rules.len() == 0 {
        Some(c)
    } else {
        match rules_spec(c, rules.drop_last()) {
            Some(c2) => rule_spec(c2, rules.last()),
            None => None,
        }
    }
}

/// The effect of an `RRULE` value: its `;`-separated items applied in
/// order.
pub open spec fn rrule_spec(c: CourseView, rrule: Seq<char>) -> Option<CourseView> {
    rules_spec(c, split_spec(rrule, ';'))
}

proof fn lemma_rules_failed(c: CourseView, rules: Seq<Seq<char>>, i: int)
    requires
        0 <= i <= rules.len(),
        rules_spec(c, rules.take(i)) is None,
    ensures
        rules_spec(c, rules) is None,
    decreases rules.len() - i,
{
    if i < rules.len() {
        assert(rules.take(i + 1).drop_last() =~= rules.take(i));
        lemma_rules_failed(c, rules, i + 1);
    } else {
        assert(rules.take(i) =~= rules);
    }
}

fn apply_rule(rule: &Vec<char>, course: &mut Course) -> (r: Result<(), ScheduleError>)
    ensures
        match rule_spec(old(course)@, rule@) {
            Some(c) => r is Ok && final(course)@ == c,
            None => r == Err::<(), ScheduleError>(ScheduleError::MalformedDateTime),
        },
{
    let k = find_char(rule, '=');
    if k == rule.len() {
        return Ok(());
    }
    let key = slice_chars(rule, 0, k);
    let value = slice_chars(rule, k + 1, rule.len());
    if same_chars(&key, &to_chars("FREQ")) {
        if same_chars(&value, &to_chars("WEEKLY")) {
            course.frequency = Some(Frequency::Weekly);
        }
        Ok(())
    } else if same_chars(&key, &to_chars("UNTIL")) {
        match parse_datetime_chars(&value) {
            Ok(DateTimeType::UtcType(dt)) => {
                course.until = Some(dt);
                Ok(())
            },
            Ok(DateTimeType::NaiveType(_)) => Ok(()),
            Err(e) => Err(e),
        }
    } else if same_chars(&key, &to_chars("BYDAY")) {
        course.days = Some(byday_chars(&value));
        Ok(())
    } else {
        Ok(())
    }
}

pub(crate) fn apply_rrule_chars(rrule: &Vec<char>, course: &mut Course) -> (r: Result<(), ScheduleError>)
    ensures
        match rrule_spec(old(course)@, rrule@) {
            Some(c) => r is Ok && final(course)@ == c,
            None => r == Err::<(), ScheduleError>(ScheduleError::MalformedDateTime),
        },
{
    let rules = split_chars(rrule, ';');
    let ghost start = course@;
    let ghost all = views(rules@);
    let mut i: usize = 0;
    while i < rules.len()
        invariant
            i <= rules@.len(),
            all == views(rules@),
            all == split_spec(rrule@, ';'),
            start == old(course)@,
            rules_spec(start, all.take(i as int)) == Some(course@),
        decreases rules@.len() - i,
    {
        assert(all.take(i + 1).drop_last() =~= all.take(i as int));
        assert(all.take(i + 1).last() == rules@[i as int]@);
        match apply_rule(&rules[i], course) {
            Ok(()) => {},
            Err(e) => {
                proof {
                    lemma_rules_failed(start, all, i + 1);
                }
                return Err(e);
            },
        }
        i = i + 1;
    }
    assert(all.take(i as int) =~= all);
    Ok(())
}

/// Applies an `RRULE` value to a course: each `;`-separated `KEY=VALUE`
/// item in order, split at its first `=`. `FREQ=WEEKLY` sets the
/// frequency, a UTC `UNTIL` the end bound, `BYDAY` the weekdays; anything
/// else is ignored. A malformed `UNTIL` date-time is an error.
pub fn parse_rrule(rrule: &str, course: &mut Course) -> (r: Result<(), ScheduleError>)
    ensures
        match rrule_spec(old(course)@, rrule@) {
            Some(c) => r is Ok && final(course)@ == c,
            None => r == Err::<(), ScheduleError>(ScheduleError::MalformedDateTime),
        },
{
    let v = to_chars(rrule);
    apply_rrule_chars(&v, course)
}

} // verus!
