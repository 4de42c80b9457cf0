//! Weekly course schedule: ICS date-time and recurrence parsing, course
//! aggregation from a property stream, and selection of the current and
//! next course.
pub mod aggregate;
pub mod course;
pub mod datetime;
pub mod laws;
pub mod select;
pub mod text;

pub use aggregate::collect_courses;
pub use course::{parse_byday, parse_rrule, Course, Frequency, Weekday};
pub use datetime::{parse_ics_datetime, CivilDateTime, DateTimeType, ScheduleError};
pub use select::{select_courses, select_for_weekday, Selection};
