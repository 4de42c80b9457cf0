use vstd::prelude::*;
use chrono::Datelike;
use crate::aggregate::course_views;
use crate::course::{Course, CourseView, Weekday};
use crate::datetime::{valid_date, CivilDateTime};

verus! {

/// The day of the week of an existing date, counted from Monday as 0.
pub uninterp spec fn weekday_number(year: int, month: int, day: int) -> int;

/// Relies on chrono's `NaiveDate::from_ymd_opt`, `Datelike::weekday` and
/// `Weekday::num_days_from_monday`: the day of the week of an existing
/// date, from Monday = 0 to Sunday = 6.
#[verifier::external_body]
fn weekday_index(year: i32, month: u32, day: u32) -> (r: u32)
    requires
        -262143 <= year <= 262142,
        valid_date(year as int, month as int, day as int),
    ensures
        r as int == weekday_number(year as int, month as int, day as int),
        r < 7,
{
    chrono::NaiveDate::from_ymd_opt(year, month, day).unwrap().weekday().num_days_from_monday()
}

/// The weekday counted `n` days from Monday.
pub open spec fn weekday_from_number(n: int) -> Weekday {
    if n == 0 {
        Weekday::Mon
    } else if n == 1 {
        Weekday::Tue
    } else if n == 2 {
        Weekday::Wed
    } else if n == 3 {
        Weekday::Thu
    } else if n == 4 {
        Weekday::Fri
    } else if n == 5 {
        Weekday::Sat
    } else {
        Weekday::Sun
    }
}

/// The weekday of the date of `now`.
pub open spec fn weekday_of(now: CivilDateTime) -> Weekday {
    weekday_from_number(weekday_number(now.year as int, now.month as int, now.day as int))
}

/// What the selector found: the positions of the courses in session, in
/// input order, and the position of the next course to start today.
#[derive(Clone, Debug)]
pub struct Selection {
    pub current: Vec<usize>,
    pub next: Option<usize>,
}

/// The course repeats on `today`.
pub open spec fn repeats_on(c: CourseView, today: Weekday) -> bool {
    c.days->0.contains(today)
}

/// The recurrence has not yet expired at `now_utc`.
pub open spec fn not_expired(c: CourseView, now_utc: CivilDateTime) -> bool {
    now_utc.before(c.until->0)
}

/// The course is running at `now_local`: its first day lies on an earlier
/// calendar date, it has not expired, and the time of day lies strictly
/// between its start and end.
pub open spec fn in_session(
    c: CourseView,
    now_local: CivilDateTime,
    now_utc: CivilDateTime,
    today: Weekday,
) -> bool {
    &&& repeats_on(c, today)
    &&& c.dtstart->0.date_before(now_local)
    &&& not_expired(c, now_utc)
    &&& c.dtstart->0.seconds_of_day() < now_local.seconds_of_day()
    &&& now_local.seconds_of_day() < c.dtend->0.seconds_of_day()
}

/// Seconds from the time of day of `now_local` to the course's start time.
pub open spec fn start_delta(c: CourseView, now_local: CivilDateTime) -> int {
    c.dtstart->0.seconds_of_day() - now_local.seconds_of_day()
}

/// The course starts later today and has not expired.
pub open spec fn upcoming(
    c: CourseView,
    now_local: CivilDateTime,
    now_utc: CivilDateTime,
    today: Weekday,
) -> bool {
    repeats_on(c, today) && not_expired(c, now_utc) && start_delta(c, now_local) > 0
}

/// The positions, in order, of the courses in session.
pub open spec fn current_spec(
    cs: Seq<CourseView>,
    now_local: CivilDateTime,
    now_utc: CivilDateTime,
    today: Weekday,
) -> Seq<int>
    decreases cs.len(),
{
    if cs.len() == 0 {
        Seq::empty()
    } else {
        let before = current_spec(cs.drop_last(), now_local, now_utc, today);
        if in_session(cs.last(), now_local, now_utc, today) {
            before.push(cs.len() - 1)
        } else {
            before
        }
    }
}

/// The position of the upcoming course with the smallest start delta; of
/// equal deltas the first in order.
pub open spec fn next_spec(
    cs: Seq<CourseView>,
    now_local: CivilDateTime,
    now_utc: CivilDateTime,
    today: Weekday,
) -> Option<int>
    decreases cs.len(),
{
    if cs.len() == 0 {
        None
    } else {
        let best = next_spec(cs.drop_last(), now_local, now_utc, today);
        let c = cs.last();
        if upcoming(c, now_local, now_utc, today) && (best is None || start_delta(c, now_local)
            < start_delta(cs[best->0], now_local)) {
            Some(cs.len() - 1)
        } else {
            best
        }
    }
}

pub open spec fn as_ints(v: Seq<usize>) -> Seq<int> {
    v.map_values(|i: usize| i as int)
}

pub open spec fn as_int_option(o: Option<usize>) -> Option<int> {
    match o {
        Some(i) => Some(i as int),
        None => None,
    }
}

/// Whether `s` describes the selection among `cs` at the given instant on
/// weekday `today`.
pub open spec fn selection_is(
    s: Selection,
    cs: Seq<CourseView>,
    now_local: CivilDateTime,
    now_utc: CivilDateTime,
    today: Weekday,
) -> bool {
    &&& as_ints(s.current@) == current_spec(cs, now_local, now_utc, today)
    &&& as_int_option(s.next) == next_spec(cs, now_local, now_utc, today)
}

pub open spec fn all_complete(cs: Seq<CourseView>) -> bool {
    forall|i: int| 0 <= i < cs.len() ==> (#[trigger] cs[i]).complete()
}

fn seconds_of_day(t: &CivilDateTime) -> (r: i64)
    ensures
        r as int == t.seconds_of_day(),
{
    (t.hour as i64) * 3600 + (t.minute as i64) * 60 + (t.second as i64)
}

fn date_before(a: &CivilDateTime, b: &CivilDateTime) -> (r: bool)
    ensures
        r == a.date_before(*b),
{
    a.year < b.year || (a.year == b.year && (a.month < b.month || (a.month == b.month && a.day
        < b.day)))
}

fn before(a: &CivilDateTime, b: &CivilDateTime) -> (r: bool)
    ensures
        r == a.before(*b),
{
    date_before(a, b) || (a.year == b.year && a.month == b.month && a.day == b.day
        && seconds_of_day(a) < seconds_of_day(b))
}

fn has_day(days: &Vec<Weekday>, d: Weekday) -> (r: bool)
    ensures
        r == days@.contains(d),
{
    let mut i: usize = 0;
    while i < days.len()
        invariant
            i <= days@.len(),
            forall|j: int| 0 <= j < i ==> days@[j] != d,
        decreases days@.len() - i,
    {
        if days[i] == d {
            assert(days@[i as int] == d);
            return true;
        }
        i = i + 1;
    }
    false
}

/// Finds the courses in session and the next course to start, for the
/// instant given as local time `now_local` and as UTC `now_utc`, on
/// weekday `today`. A course counts only on its own weekdays and before its
/// `until` bound. It is in session when its first day lies on an earlier
/// date than `now_local` and the time of day lies strictly between its
/// start and end times. The next course is the one whose start time lies
/// soonest after the time of day of `now_local`; of equal ones the first.
pub fn select_for_weekday(
    courses: &Vec<Course>,
    now_local: CivilDateTime,
    now_utc: CivilDateTime,
    today: Weekday,
) -> (r: Selection)
    requires
        all_complete(course_views(courses@)),
    ensures
        selection_is(r, course_views(courses@), now_local, now_utc, today),
{
    let ghost cs = course_views(courses@);
    let now_secs = seconds_of_day(&now_local);
    let mut current: Vec<usize> = Vec::new();
    let mut next: Option<usize> = None;
    let mut best: i64 = 0;
    let mut i: usize = 0;
    while i < courses.len()
        invariant
            i <= courses@.len(),
            cs == course_views(courses@),
            all_complete(cs),
            now_secs as int == now_local.seconds_of_day(),
            as_ints(current@) == current_spec(cs.take(i as int), now_local, now_utc, today),
            as_int_option(next) == next_spec(cs.take(i as int), now_local, now_utc, today),
            next matches Some(k) ==> k < i && best as int == start_delta(cs[k as int], now_local),
        decreases courses@.len() - i,
    {
        let ghost prefix = cs.take(i as int);
        assert(cs.take(i + 1).drop_last() =~= prefix);
        assert(cs.take(i + 1).last() == cs[i as int]);
        assert(cs[i as int] == courses@[i as int]@);
        assert(cs[i as int].complete());
        let c = &courses[i];
        let start = c.dtstart.unwrap();
        let end = c.dtend.unwrap();
        let until = c.until.unwrap();
        let on_today = match &c.days {
            Some(d) => has_day(d, today),
            None => false,
        };
        let live = before(&now_utc, &until);
        let start_secs = seconds_of_day(&start);
        if on_today && date_before(&start, &now_local) && live && start_secs < now_secs
            && now_secs < seconds_of_day(&end) {
            let ghost old_cur = current@;
            current.push(i);
            assert(as_ints(current@) =~= as_ints(old_cur).push(i as int));
        }
        let delta = start_secs - now_secs;
        if on_today && live && delta > 0 && (next.is_none() || delta < best) {
            proof {
                if next is Some {
                    assert(cs.take(i + 1)[next->0 as int] == cs[next->0 as int]);
                }
            }
            next = Some(i);
            best = delta;
        } else {
            proof {
                if next is Some {
                    assert(cs.take(i + 1)[next->0 as int] == cs[next->0 as int]);
                }
            }
        }
        i = i + 1;
    }
    assert(cs.take(i as int) =~= cs);
    Selection { current, next }
}

fn weekday_from_index(n: u32) -> (r: Weekday)
    requires
        n < 7,
    ensures
        r == weekday_from_number(n as int),
{
    match n {
        0 => Weekday::Mon,
        1 => Weekday::Tue,
        2 => Weekday::Wed,
        3 => Weekday::Thu,
        4 => Weekday::Fri,
        5 => Weekday::Sat,
        _ => Weekday::Sun,
    }
}

/// Finds the courses in session and the next course to start, for the
/// instant given as local time `now_local` and as UTC `now_utc`, on the
/// weekday of `now_local`'s date; see `select_for_weekday`.
pub fn select_courses(courses: &Vec<Course>, now_local: CivilDateTime, now_utc: CivilDateTime) -> (r:
    Selection)
    requires
        all_complete(course_views(courses@)),
        now_local.wf(),
        -262143 <= now_local.year <= 262142,
    ensures
        selection_is(r, course_views(courses@), now_local, now_utc, weekday_of(now_local)),
{
    let n = weekday_index(now_local.year, now_local.month, now_local.day);
    let today = weekday_from_index(n);
    select_for_weekday(courses, now_local, now_utc, today)
}

} // verus!
