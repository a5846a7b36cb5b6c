//! Compact duration strings such as `2h30m`: runs of digits, each closed by
//! one of the units `s`, `m`, `h` or `d`.

use vstd::prelude::*;
use crate::text::{all_digits, chars_of, digits_value, is_digit, parse_u64_in, unsigned_value};

verus! {

/// A duration as counts of seconds, minutes, hours and days.
#[derive(Debug, Clone, Copy, PartialEq, Eq, Structural)]
pub struct Time {
    /// Number of seconds
    pub seconds: u8,
    /// Number of minutes
    pub minutes: u8,
    /// Number of hours
    pub hours: u8,
    /// Number of days
    pub days: u8,
}

/// Why a duration string was refused.
#[derive(Debug, Clone, Copy, PartialEq, Eq, Structural)]
pub enum TimeErr {
    /// A run ends in a letter that is none of the four units.
    InvalidUnit(char),
    /// A run has no unit at its end.
    MissingUnit,
    /// What stands before a unit is not a number of at most 255.
    NotANumber,
}

pub open spec fn is_unit(c: char) -> bool {
    c == 's' || c == 'm' || c == 'h' || c == 'd'
}

pub open spec fn zero_time() -> Time {
    Time { seconds: 0, minutes: 0, hours: 0, days: 0 }
}

/// The field of `t` that unit `u` names.
pub open spec fn field(t: Time, u: char) -> u8 {
    if u == 's' {
        t.seconds
    } else if u == 'm' {
        t.minutes
    } else if u == 'h' {
        t.hours
    } else {
        t.days
    }
}

/// `t` with the field that unit `u` names set to `v`.
pub open spec fn set_unit(t: Time, u: char, v: u8) -> Time {
    if u == 's' {
        Time { seconds: v, ..t }
    } else if u == 'm' {
        Time { minutes: v, ..t }
    } else if u == 'h' {
        Time { hours: v, ..t }
    } else {
        Time { days: v, ..t }
    }
}

/// `s` read as a `u8`, in the grammar of std's integer parsing.
pub open spec fn u8_value(s: Seq<char>) -> Option<u8> {
    match unsigned_value(s) {
        Some(v) => if v <= 255 {
            Some(v as u8)
        } else {
            None
        },
        None => None,
    }
}

/// The index of the first unit in `s`, or its length where there is none.
pub open spec fn first_unit(s: Seq<char>) -> int
    decreases s.len(),
{
    if s.len() == 0 {
        0
    } else if is_unit(s[0]) {
        0
    } else {
        1 + first_unit(s.drop_first())
    }
}

/// Whether `char::is_alphabetic` holds of `c` (Unicode's `Alphabetic`).
pub uninterp spec fn alphabetic(c: char) -> bool;

/// Whether `c` is a letter in the sense of `char::is_alphabetic`: among
/// ASCII characters exactly `a`-`z` and `A`-`Z`.
pub open spec fn is_letter(c: char) -> bool {
    if (c as u32) < 128 {
        ('a' <= c && c <= 'z') || ('A' <= c && c <= 'Z')
    } else {
        alphabetic(c)
    }
}

/// Reads the runs of `s` one after another into `acc`; a later run of a
/// unit overwrites an earlier one.
pub open spec fn parse_runs(s: Seq<char>, acc: Time) -> Result<Time, TimeErr>
    decreases s.len(),
{
    if s.len() == 0 {
        Ok(acc)
    } else {
        let k = first_unit(s);
        if 0 <= k < s.len() {
            match u8_value(s.subrange(0, k)) {
                Some(v) => parse_runs(s.subrange(k + 1, s.len() as int), set_unit(acc, s[k], v)),
                None => Err(TimeErr::NotANumber),
            }
        } else if is_letter(s.last()) {
            Err(TimeErr::InvalidUnit(s.last()))
        } else {
            Err(TimeErr::MissingUnit)
        }
    }
}

/// The duration that `s` denotes, or why it denotes none.
pub open spec fn parse_time(s: Seq<char>) -> Result<Time, TimeErr> {
    parse_runs(s, zero_time())
}

proof fn lemma_first_unit(s: Seq<char>, k: int)
    requires
        0 <= k <= s.len(),
        forall|j: int| 0 <= j < k ==> !is_unit(#[trigger] s[j]),
        k == s.len() || is_unit(s[k]),
    ensures
        first_unit(s) == k,
    decreases k,
{
    if k > 0 {
        let t = s.drop_first();
        assert forall|j: int| 0 <= j < k - 1 implies !is_unit(#[trigger] t[j]) by {
            assert(t[j] == s[j + 1]);
        }
        if k < s.len() {
            assert(t[k - 1] == s[k]);
        }
        lemma_first_unit(t, k - 1);
    }
}

/// Relies on `char::is_alphabetic`: whether `c` has Unicode's `Alphabetic`
/// property; its ASCII path answers yes for `a`-`z` and `A`-`Z` alone.
#[verifier::external_body]
fn is_alphabetic(c: char) -> (r: bool)
    ensures
        r == alphabetic(c),
        (c as u32) < 128 ==> (r <==> (('a' <= c && c <= 'z') || ('A' <= c && c <= 'Z'))),
{
    c.is_alphabetic()
}

/// The error for a last run that ends in `last`, no unit: `letter` says
/// whether `last` is a letter.
pub fn unit_error(last: char, letter: bool) -> (r: TimeErr)
    ensures
        r == (if letter {
            TimeErr::InvalidUnit(last)
        } else {
            TimeErr::MissingUnit
        }),
{
    if letter {
        TimeErr::InvalidUnit(last)
    } else {
        TimeErr::MissingUnit
    }
}

/// Sets the field of `t` that unit `u` names.
fn set_field(t: &mut Time, u: char, v: u8)
    ensures
        *final(t) == set_unit(*old(t), u, v),
{
    if u == 's' {
        t.seconds = v;
    } else if u == 'm' {
        t.minutes = v;
    } else if u == 'h' {
        t.hours = v;
    } else {
        t.days = v;
    }
}

impl Time {
    /// The duration of no time at all.
    pub fn zero() -> (r: Time)
        ensures
            r == zero_time(),
    {
        Time { seconds: 0, minutes: 0, hours: 0, days: 0 }
    }

    /// Parses a duration string such as `2h30m`. The empty string is no time.
    pub fn parse(s: &str) -> (r: Result<Time, TimeErr>)
        ensures
            r == parse_time(s@),
    {
        let cs = chars_of(s);
        let n = cs.len();
        let mut t = Time::zero();
        let mut start: usize = 0;
        let mut i: usize = 0;
        assert(cs@.subrange(0, n as int) == cs@);
        while i < n
            invariant
                n == cs@.len(),
                cs@ == s@,
                start <= i <= n,
                forall|j: int| start <= j < i ==> !is_unit(#[trigger] cs@[j]),
                parse_time(s@) == parse_runs(cs@.subrange(start as int, n as int), t),
            decreases n - i,
        {
            let c = cs[i];
            if c == 's' || c == 'm' || c == 'h' || c == 'd' {
                let ghost rest = cs@.subrange(start as int, n as int);
                proof {
                    assert forall|j: int| 0 <= j < i - start implies !is_unit(#[trigger] rest[j]) by {
                        assert(rest[j] == cs@[start + j]);
                    }
                    assert(rest[i - start] == c);
                    lemma_first_unit(rest, i - start);
                    assert(rest.subrange(0, i - start) == cs@.subrange(start as int, i as int));
                    assert(rest.subrange(i - start + 1, rest.len() as int) == cs@.subrange(
                        i + 1,
                        n as int,
                    ));
                }
                match parse_u64_in(&cs, start, i) {
                    Some(v) => {
                        if v > 255 {
                            return Err(TimeErr::NotANumber);
                        }
                        set_field(&mut t, c, v as u8);
                    },
                    None => {
                        return Err(TimeErr::NotANumber);
                    },
                }
                start = i + 1;
            }
            i = i + 1;
        }
        if start == n {
            return Ok(t);
        }
        let ghost rest = cs@.subrange(start as int, n as int);
        proof {
            assert forall|j: int| 0 <= j < rest.len() implies !is_unit(#[trigger] rest[j]) by {
                assert(rest[j] == cs@[start + j]);
            }
            lemma_first_unit(rest, rest.len() as int);
        }
        let last = cs[n - 1];
        Err(unit_error(last, is_alphabetic(last)))
    }

    /// The whole duration in seconds.
    pub fn total_seconds(&self) -> (r: u64)
        ensures
            r == self.seconds + 60 * self.minutes + 3600 * self.hours + 86400 * self.days,
    {
        self.seconds as u64 + 60 * (self.minutes as u64) + 3600 * (self.hours as u64) + 86400 * (
        self.days as u64)
    }
}

impl std::str::FromStr for Time {
    type Err = TimeErr;

    fn from_str(s: &str) -> Result<Time, TimeErr> {
        Time::parse(s)
    }
}


/// The string made of each value's digits followed by its unit, in order.
pub open spec fn written(values: Seq<Seq<char>>, units: Seq<char>) -> Seq<char>
    decreases values.len(),
{
    if values.len() == 0 || units.len() == 0 {
        Seq::empty()
    } else {
        values[0] + seq![units[0]] + written(values.drop_first(), units.drop_first())
    }
}

/// `acc` with each unit in turn set to the value written before it.
pub open spec fn set_all(acc: Time, values: Seq<Seq<char>>, units: Seq<char>) -> Time
    decreases values.len(),
{
    if values.len() == 0 || units.len() == 0 {
        acc
    } else {
        set_all(
            set_unit(acc, units[0], digits_value(values[0]) as u8),
            values.drop_first(),
            units.drop_first(),
        )
    }
}

/// What makes `values` and `units` a duration written with one value and
/// unit per unit: each value is one or more digits worth at most 255, each
/// unit is one of the four and appears once.
pub open spec fn one_pair_per_unit(values: Seq<Seq<char>>, units: Seq<char>) -> bool {
    &&& values.len() == units.len()
    &&& forall|i: int| 0 <= i < units.len() ==> is_unit(#[trigger] units[i])
    &&& forall|i: int, j: int| 0 <= i < j < units.len() ==> units[i] != units[j]
    &&& forall|i: int|
        0 <= i < values.len() ==> (#[trigger] values[i]).len() > 0 && all_digits(values[i])
            && digits_value(values[i]) <= 255
}

proof fn lemma_first_unit_after(p: Seq<char>, r: Seq<char>)
    requires
        first_unit(p) < p.len(),
    ensures
        first_unit(p + r) == first_unit(p),
    decreases p.len(),
{
    if !is_unit(p[0]) {
        assert((p + r).drop_first() == p.drop_first() + r);
        lemma_first_unit_after(p.drop_first(), r);
    }
}

/// A prefix that reads without error leaves its result to what follows.
proof fn lemma_runs_concat(p: Seq<char>, r: Seq<char>, acc: Time)
    requires
        parse_runs(p, acc) is Ok,
    ensures
        parse_runs(p + r, acc) == parse_runs(r, parse_runs(p, acc)->Ok_0),
    decreases p.len(),
{
    if p.len() == 0 {
        assert(p + r == r);
    } else {
        let k = first_unit(p);
        lemma_first_unit_after(p, r);
        let v = u8_value(p.subrange(0, k))->Some_0;
        assert((p + r).subrange(0, k) == p.subrange(0, k));
        assert((p + r).subrange(k + 1, (p + r).len() as int) == p.subrange(k + 1, p.len() as int)
            + r);
        assert((p + r)[k] == p[k]);
        lemma_runs_concat(p.subrange(k + 1, p.len() as int), r, set_unit(acc, p[k], v));
    }
}

proof fn lemma_one_run(v: Seq<char>, u: char, r: Seq<char>, acc: Time)
    requires
        v.len() > 0,
        all_digits(v),
        digits_value(v) <= 255,
        is_unit(u),
    ensures
        parse_runs(v + seq![u] + r, acc) == parse_runs(r, set_unit(acc, u, digits_value(v) as u8)),
{
    let s = v + seq![u] + r;
    assert forall|j: int| 0 <= j < v.len() implies !is_unit(#[trigger] s[j]) by {
        assert(s[j] == v[j]);
        assert(is_digit(v[j]));
    }
    assert(s[v.len() as int] == u);
    lemma_first_unit(s, v.len() as int);
    assert(s.subrange(0, v.len() as int) == v);
    assert(is_digit(v[0]));
    assert(unsigned_value(v) == Some(digits_value(v)));
    assert(s.subrange(v.len() as int + 1, s.len() as int) == r);
}

proof fn lemma_written(values: Seq<Seq<char>>, units: Seq<char>, acc: Time)
    requires
        one_pair_per_unit(values, units),
    ensures
        parse_runs(written(values, units), acc) == Ok::<Time, TimeErr>(set_all(acc, values, units)),
    decreases values.len(),
{
    if values.len() > 0 {
        let rest_v = values.drop_first();
        let rest_u = units.drop_first();
        assert(values[0].len() > 0);
        assert(is_unit(units[0]));
        assert(one_pair_per_unit(rest_v, rest_u)) by {
            assert forall|i: int| 0 <= i < rest_u.len() implies is_unit(#[trigger] rest_u[i]) by {
                assert(rest_u[i] == units[i + 1]);
            }
            assert forall|i: int, j: int| 0 <= i < j < rest_u.len() implies rest_u[i]
                != rest_u[j] by {
                assert(rest_u[i] == units[i + 1]);
                assert(rest_u[j] == units[j + 1]);
            }
            assert forall|i: int| 0 <= i < rest_v.len() implies (#[trigger] rest_v[i]).len() > 0
                && all_digits(rest_v[i]) && digits_value(rest_v[i]) <= 255 by {
                assert(rest_v[i] == values[i + 1]);
            }
        }
        lemma_one_run(values[0], units[0], written(rest_v, rest_u), acc);
        lemma_written(
            rest_v,
            rest_u,
            set_unit(acc, units[0], digits_value(values[0]) as u8),
        );
    } else {
        assert(written(values, units) == Seq::<char>::empty());
    }
}

proof fn lemma_set_all_field(acc: Time, values: Seq<Seq<char>>, units: Seq<char>, u: char)
    requires
        one_pair_per_unit(values, units),
        is_unit(u),
    ensures
        field(set_all(acc, values, units), u) == if units.contains(u) {
            digits_value(values[units.index_of(u)]) as u8
        } else {
            field(acc, u)
        },
        forall|i: int|
            0 <= i < units.len() ==> field(set_all(acc, values, units), #[trigger] units[i])
                == digits_value(values[i]) as u8,
    decreases values.len(),
{
    if values.len() > 0 {
        let rest_v = values.drop_first();
        let rest_u = units.drop_first();
        assert(one_pair_per_unit(rest_v, rest_u)) by {
            assert forall|i: int| 0 <= i < rest_u.len() implies is_unit(#[trigger] rest_u[i]) by {
                assert(rest_u[i] == units[i + 1]);
            }
            assert forall|i: int, j: int| 0 <= i < j < rest_u.len() implies rest_u[i]
                != rest_u[j] by {
                assert(rest_u[i] == units[i + 1]);
                assert(rest_u[j] == units[j + 1]);
            }
            assert forall|i: int| 0 <= i < rest_v.len() implies (#[trigger] rest_v[i]).len() > 0
                && all_digits(rest_v[i]) && digits_value(rest_v[i]) <= 255 by {
                assert(rest_v[i] == values[i + 1]);
            }
        }
        let next = set_unit(acc, units[0], digits_value(values[0]) as u8);
        assert(is_unit(units[0]));
        assert forall|i: int| 0 <= i < units.len() implies field(
            set_all(acc, values, units),
            #[trigger] units[i],
        ) == digits_value(values[i]) as u8 by {
            assert(is_unit(units[i]));
            lemma_set_all_field(next, rest_v, rest_u, units[i]);
            if i == 0 {
                assert(!rest_u.contains(units[0])) by {
                    if rest_u.contains(units[0]) {
                        let j = rest_u.index_of(units[0]);
                        assert(rest_u[j] == units[j + 1]);
                    }
                }
            } else {
                assert(rest_u[i - 1] == units[i]);
                assert(rest_v[i - 1] == values[i]);
            }
        }
        lemma_set_all_field(next, rest_v, rest_u, u);
        if units.contains(u) {
            let j = units.index_of(u);
            assert(units[j] == u);
        } else {
            assert(u != units[0]);
            if rest_u.contains(u) {
                let j = rest_u.index_of(u);
                assert(rest_u[j] == units[j + 1]);
            }
        }
    }
}

/// A duration written with one value and unit per unit, in any order, reads
/// as exactly those values in their fields, and zero in the others.
pub proof fn lemma_one_pair_per_unit(values: Seq<Seq<char>>, units: Seq<char>)
    requires
        one_pair_per_unit(values, units),
    ensures
        parse_time(written(values, units)) is Ok,
        forall|i: int|
            0 <= i < units.len() ==> field(
                parse_time(written(values, units))->Ok_0,
                #[trigger] units[i],
            ) == digits_value(values[i]),
        forall|u: char|
            is_unit(u) && !units.contains(u) ==> field(
                parse_time(written(values, units))->Ok_0,
                u,
            ) == 0,
{
    lemma_written(values, units, zero_time());
    let t = set_all(zero_time(), values, units);
    assert forall|u: char| is_unit(u) && !units.contains(u) implies field(t, u) == 0 by {
        lemma_set_all_field(zero_time(), values, units, u);
    }
    assert forall|i: int| 0 <= i < units.len() implies field(t, #[trigger] units[i])
        == digits_value(values[i]) by {
        lemma_set_all_field(zero_time(), values, units, units[i]);
        assert(values[i].len() > 0 && digits_value(values[i]) <= 255);
    }
}

/// The empty string is a duration of no time, not an error.
pub proof fn lemma_empty_is_zero()
    ensures
        parse_time(Seq::empty()) == Ok::<Time, TimeErr>(zero_time()),
{
}

/// A string whose last run ends in a letter that is no unit is refused for
/// that letter, where the runs before it read without error.
pub proof fn lemma_trailing_letter(p: Seq<char>, q: Seq<char>, c: char)
    requires
        parse_time(p) is Ok,
        forall|j: int| 0 <= j < q.len() ==> !is_unit(#[trigger] q[j]),
        is_letter(c),
        !is_unit(c),
    ensures
        parse_time(p + q + seq![c]) == Err::<Time, TimeErr>(TimeErr::InvalidUnit(c)),
{
    let tail = q + seq![c];
    assert(p + q + seq![c] == p + tail);
    lemma_runs_concat(p, tail, zero_time());
    assert forall|j: int| 0 <= j < tail.len() implies !is_unit(#[trigger] tail[j]) by {
        if j < q.len() {
            assert(tail[j] == q[j]);
        }
    }
    lemma_first_unit(tail, tail.len() as int);
}

} // verus!
