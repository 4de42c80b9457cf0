use vstd::prelude::*;
use crate::course::{apply_rrule_chars, empty_course, rrule_spec, Course, CourseView};
use crate::datetime::{datetime_spec, parse_datetime_chars, DateTimeType, ScheduleError};
use crate::text::{same_chars, to_chars};

verus! {

/// The effect of one calendar property on the course being collected, or
/// `None` where it holds a malformed date-time. Only `RRULE`, `DTSTART`,
/// `DTEND` and `SUMMARY` have an effect; a UTC `DTSTART` or `DTEND` is
/// dropped.
pub open spec fn property_spec(c: CourseView, name: Seq<char>, value: Seq<char>) -> Option<
    CourseView,
> {
    if name == "RRULE"@ {
        rrule_spec(c, value)
    } else if name == "DTSTART"@ {
        match datetime_spec(value) {
            Some(DateTimeType::NaiveType(dt)) => Some(CourseView { dtstart: Some(dt), ..c }),
            Some(DateTimeType::UtcType(_)) => Some(c),
            None => None,
        }
    } else if name == "DTEND"@ {
        match datetime_spec(value) {
            Some(DateTimeType::NaiveType(dt)) => Some(CourseView { dtend: Some(dt), ..c }),
            Some(DateTimeType::UtcType(_)) => Some(c),
            None => None,
        }
    } else if name == "SUMMARY"@ {
        Some(CourseView { summary: Some(value), ..c })
    } else {
        Some(c)
    }
}

/// The courses captured from a property stream and the course still being
/// collected at its end, or `None` where a date-time in it is malformed.
/// A course is captured as soon as all six fields are set, and collection
/// starts over from an empty course.
pub open spec fn collect_spec(props: Seq<(Seq<char>, Seq<char>)>) -> Option<
    (Seq<CourseView>, CourseView),
>
    decreases props.len(),
{
    if props.len() == 0 {
        Some((Seq::empty(), empty_course()))
    } else {
        match collect_spec(props.drop_last()) {
            Some((done, acc)) => match property_spec(acc, props.last().0, props.last().1) {
                Some(a) => if a.complete() {
                    Some((done.push(a), empty_course()))
                } else {
                    Some((done, a))
                },
                None => None,
            },
            None => None,
        }
    }
}

/// The views of a sequence of `(name, value)` properties.
pub open spec fn props_view(v: Seq<(String, String)>) -> Seq<(Seq<char>, Seq<char>)> {
    v.map_values(|p: (String, String)| (p.0@, p.1@))
}

/// The views of a sequence of courses.
pub open spec fn course_views(v: Seq<Course>) -> Seq<CourseView> {
    v.map_values(|c: Course| c@)
}

proof fn lemma_collect_failed(props: Seq<(Seq<char>, Seq<char>)>, i: int)
    requires
        0 <= i <= props.len(),
        collect_spec(props.take(i)) is None,
    ensures
        collect_spec(props) is None,
    decreases props.len() - i,
{
    if i < props.len() {
        assert(props.take(i + 1).drop_last() =~= props.take(i));
        lemma_collect_failed(props, i + 1);
    } else {
        assert(props.take(i) =~= props);
    }
}

fn apply_property(name: &Vec<char>, value: &String, course: &mut Course) -> (r: Result<
    (),
    ScheduleError,
>)
    ensures
        match property_spec(old(course)@, name@, value@) {
            Some(c) => r is Ok && final(course)@ == c,
            None => r == Err::<(), ScheduleError>(ScheduleError::MalformedDateTime),
        },
{
    if same_chars(name, &to_chars("RRULE")) {
        apply_rrule_chars(&to_chars(value.as_str()), course)
    } else if same_chars(name, &to_chars("DTSTART")) {
        match parse_datetime_chars(&to_chars(value.as_str())) {
            Ok(DateTimeType::NaiveType(dt)) => {
                course.dtstart = Some(dt);
                Ok(())
            },
            Ok(DateTimeType::UtcType(_)) => Ok(()),
            Err(e) => Err(e),
        }
    } else if same_chars(name, &to_chars("DTEND")) {
        match parse_datetime_chars(&to_chars(value.as_str())) {
            Ok(DateTimeType::NaiveType(dt)) => {
                course.dtend = Some(dt);
                Ok(())
            },
            Ok(DateTimeType::UtcType(_)) => Ok(()),
            Err(e) => Err(e),
        }
    } else if same_chars(name, &to_chars("SUMMARY")) {
        course.summary = Some(value.clone());
        Ok(())
    } else {
        Ok(())
    }
}

/// Folds a stream of calendar `(name, value)` properties, in order, into
/// courses. Each course is captured the moment all six of its fields are
/// set, and collection starts over from an empty course. Any malformed
/// date-time in the stream is an error for the whole stream.
pub fn collect_courses(properties: &Vec<(String, String)>) -> (r: Result<
    Vec<Course>,
    ScheduleError,
>)
    ensures
        match collect_spec(props_view(properties@)) {
            Some(res) => r is Ok && course_views(r->Ok_0@) == res.0,
            None => r == Err::<Vec<Course>, ScheduleError>(ScheduleError::MalformedDateTime),
        },
{
    let ghost pv = props_view(properties@);
    let mut out: Vec<Course> = Vec::new();
    let mut course = Course::new();
    let mut i: usize = 0;
    while i < properties.len()
        invariant
            i <= properties@.len(),
            pv == props_view(properties@),
            collect_spec(pv.take(i as int)) == Some((course_views(out@), course@)),
        decreases properties@.len() - i,
    {
        assert(pv.take(i + 1).drop_last() =~= pv.take(i as int));
        let (name, value) = &properties[i];
        let name_chars = to_chars(name.as_str());
        match apply_property(&name_chars, value, &mut course) {
            Ok(()) => {},
            Err(e) => {
                proof {
                    lemma_collect_failed(pv, i + 1);
                }
                return Err(e);
            },
        }
        if course.is_complete() {
            let ghost before = out@;
            let ghost captured = course@;
            out.push(course);
            course = Course::new();
            assert(course_views(out@) =~= course_views(before).push(captured));
        }
        i = i + 1;
    }
    assert(pv.take(i as int) =~= pv);
    Ok(out)
}

} // verus!
