use vstd::prelude::*;
use crate::aggregate::{collect_spec, property_spec};
use crate::course::{empty_course, rule_spec, rules_spec, CourseView, Frequency, Weekday};
use crate::datetime::{datetime_spec, fields_of, fields_present, CivilDateTime, DateTimeType};
use crate::select::{next_spec, start_delta, upcoming};
use crate::text::{index_of, lemma_index_of};

verus! {

/// A 15-character date-time with valid fields denotes the local date-time
/// of those fields; with a trailing `Z` added, the UTC date-time of the
/// same fields.
pub proof fn lemma_tag_follows_suffix(s: Seq<char>)
    requires
        s.len() == 15,
        fields_present(s),
        fields_of(s).wf(),
    ensures
        datetime_spec(s) == Some(DateTimeType::NaiveType(fields_of(s))),
        datetime_spec(s.push('Z')) == Some(DateTimeType::UtcType(fields_of(s))),
{
    let z = s.push('Z');
    assert(z.subrange(0, 4) =~= s.subrange(0, 4));
    assert(z.subrange(4, 6) =~= s.subrange(4, 6));
    assert(z.subrange(6, 8) =~= s.subrange(6, 8));
    assert(z.subrange(9, 11) =~= s.subrange(9, 11));
    assert(z.subrange(11, 13) =~= s.subrange(11, 13));
    assert(z.subrange(13, 15) =~= s.subrange(13, 15));
}

/// A date-time with a field that is not an integer, or with a month
/// outside 1..=12, a day outside 1..=31, an hour of 24 or more, or a
/// minute or second of 60 or more, is malformed.
pub proof fn lemma_bad_field_is_malformed(s: Seq<char>)
    requires
        !fields_present(s) || {
            let f = fields_of(s);
            f.month < 1 || f.month > 12 || f.day < 1 || f.day > 31 || f.hour >= 24 || f.minute
                >= 60 || f.second >= 60
        },
    ensures
        datetime_spec(s) is None,
{
}

/// `FREQ=` followed by `v` splits into the key `FREQ` and the value `v`.
spec fn freq_item_splits(v: Seq<char>) -> bool {
    let r = "FREQ="@ + v;
    &&& index_of(r, '=') == 4
    &&& r.subrange(0, 4) == "FREQ"@
    &&& r.subrange(5, r.len() as int) == v
}

proof fn lemma_freq_item(v: Seq<char>)
    ensures
        freq_item_splits(v),
{
    reveal_strlit("FREQ=");
    reveal_strlit("FREQ");
    let r = "FREQ="@ + v;
    assert(r[4] == '=');
    assert forall|j: int| 0 <= j < 4 implies r[j] != '=' by {
        assert(r[j] == "FREQ="@[j]);
    }
    lemma_index_of(r, '=', 4);
    assert(r.subrange(0, 4) =~= "FREQ"@);
    assert(r.subrange(5, r.len() as int) =~= v);
}

/// `FREQ=WEEKLY` sets the frequency to weekly, and applying it twice is
/// the same as applying it once.
pub proof fn lemma_weekly_idempotent(c: CourseView)
    ensures
        rule_spec(c, "FREQ=WEEKLY"@) == Some(CourseView { frequency: Some(Frequency::Weekly), ..c }),
        rules_spec(c, seq!["FREQ=WEEKLY"@, "FREQ=WEEKLY"@]) == rules_spec(c, seq!["FREQ=WEEKLY"@]),
{
    reveal_strlit("FREQ=WEEKLY");
    reveal_strlit("FREQ=");
    reveal_strlit("WEEKLY");
    assert("FREQ=WEEKLY"@ =~= "FREQ="@ + "WEEKLY"@);
    lemma_freq_item("WEEKLY"@);
    let w = CourseView { frequency: Some(Frequency::Weekly), ..c };
    assert(rule_spec(w, "FREQ=WEEKLY"@) == Some(w));
    assert(seq!["FREQ=WEEKLY"@, "FREQ=WEEKLY"@].drop_last() =~= seq!["FREQ=WEEKLY"@]);
    assert(seq!["FREQ=WEEKLY"@].drop_last() =~= Seq::<Seq<char>>::empty());
}

/// A `FREQ` value other than `WEEKLY` leaves the course unchanged.
pub proof fn lemma_other_frequency_ignored(c: CourseView, v: Seq<char>)
    requires
        v != "WEEKLY"@,
    ensures
        rule_spec(c, "FREQ="@ + v) == Some(c),
{
    lemma_freq_item(v);
}

/// Every captured course is complete, and the course still being
/// collected is not.
pub proof fn lemma_captured_complete(props: Seq<(Seq<char>, Seq<char>)>)
    ensures
        collect_spec(props) matches Some((done, acc)) ==> !acc.complete() && forall|i: int|
            0 <= i < done.len() ==> (#[trigger] done[i]).complete(),
    decreases props.len(),
{
    if props.len() > 0 {
        lemma_captured_complete(props.drop_last());
    }
}

/// Where a stream ends just after a capture, the courses captured from it
/// followed by another stream are its own courses followed by those of the
/// other stream, as if collection had started afresh.
pub proof fn lemma_capture_restarts(
    p1: Seq<(Seq<char>, Seq<char>)>,
    p2: Seq<(Seq<char>, Seq<char>)>,
)
    requires
        collect_spec(p1) matches Some((_, acc)) && acc == empty_course(),
    ensures
        collect_spec(p1) matches Some((d1, _)) ==> collect_spec(p1 + p2) == match collect_spec(
            p2,
        ) {
            Some((d2, a2)) => Some((d1 + d2, a2)),
            None => None,
        },
    decreases p2.len(),
{
    let d1 = match collect_spec(p1) {
        Some((d, _)) => d,
        None => Seq::empty(),
    };
    if p2.len() == 0 {
        assert(p1 + p2 =~= p1);
        assert(d1 + Seq::<CourseView>::empty() =~= d1);
    } else {
        lemma_capture_restarts(p1, p2.drop_last());
        assert((p1 + p2).drop_last() =~= p1 + p2.drop_last());
        assert((p1 + p2).last() == p2.last());
        match collect_spec(p2.drop_last()) {
            Some((d2, a2)) => {
                match property_spec(a2, p2.last().0, p2.last().1) {
                    Some(a) => {
                        if a.complete() {
                            assert(d1 + d2.push(a) =~= (d1 + d2).push(a));
                        }
                    },
                    None => {},
                }
            },
            None => {},
        }
    }
}

/// Of two courses that both start later today, the next one is the one
/// with the smaller start delta; on a tie, the first.
pub proof fn lemma_next_of_two(
    a: CourseView,
    b: CourseView,
    now_local: CivilDateTime,
    now_utc: CivilDateTime,
    today: Weekday,
)
    requires
        upcoming(a, now_local, now_utc, today),
        upcoming(b, now_local, now_utc, today),
    ensures
        next_spec(seq![a, b], now_local, now_utc, today) == if start_delta(b, now_local)
            < start_delta(a, now_local) {
            Some(1int)
        } else {
            Some(0int)
        },
{
    assert(seq![a, b].drop_last() =~= seq![a]);
    assert(seq![a].drop_last() =~= Seq::<CourseView>::empty());
    assert(seq![a].last() == a);
    assert(next_spec(Seq::<CourseView>::empty(), now_local, now_utc, today) is None);
    assert(next_spec(seq![a], now_local, now_utc, today) == Some(0int));
    assert(seq![a, b][0] == a);
    assert(seq![a, b].last() == b);
}

} // verus!
