//! The `time` setting: a comma-separated list of `hour:minute:second`
//! entries at which the clock pops up. An empty hour or minute matches every
//! value; an empty second matches second 0 only.
use vstd::prelude::*;
use crate::decimal::{decimal, decimal_chars, lemma_decimal_digits, parse_i32, parse_i32_spec};
use crate::text::{same_chars, split_chars, split_on, views};

verus! {

/// Whether an hour or minute field matches a value: empty, the value's
/// decimal notation, or that notation after one `0`.
pub open spec fn field_matches(p: Seq<char>, v: nat) -> bool {
    p.len() == 0 || p == decimal(v) || p == seq!['0'] + decimal(v)
}

/// Whether a second field matches a value: empty at second 0, the value's
/// decimal notation, or that notation after one `0`.
pub open spec fn second_matches(p: Seq<char>, v: nat) -> bool {
    (p.len() == 0 && v == 0) || p == decimal(v) || p == seq!['0'] + decimal(v)
}

/// Whether looking at an entry's fields goes past its end: the hour field
/// matches but there is no minute field, or both match and there is no
/// second field.
pub open spec fn entry_overruns(q: Seq<Seq<char>>, h: nat, m: nat) -> bool {
    field_matches(q[0], h) && (q.len() < 2 || (field_matches(q[1], m) && q.len() < 3))
}

/// Whether an entry (split at `:`) matches the time of day.
pub open spec fn entry_matches(q: Seq<Seq<char>>, h: nat, m: nat, s: nat) -> bool {
    q.len() >= 3 && field_matches(q[0], h) && field_matches(q[1], m) && second_matches(q[2], s)
}

/// The fields of entry `i`.
pub open spec fn entry_fields(items: Seq<Seq<char>>, i: int) -> Seq<Seq<char>> {
    split_on(items[i], ':')
}

/// The first entry from `i` on that matches.
pub open spec fn first_match_from(items: Seq<Seq<char>>, h: nat, m: nat, s: nat, i: nat) -> Option<nat>
    decreases items.len() - i,
{
    if i >= items.len() {
        None
    } else if entry_matches(entry_fields(items, i as int), h, m, s) {
        Some(i)
    } else {
        first_match_from(items, h, m, s, i + 1)
    }
}

/// Whether the entries from `i` on, up to the first that matches, can be
/// looked at without running past their fields.
pub open spec fn readable_from(items: Seq<Seq<char>>, h: nat, m: nat, s: nat, i: nat) -> bool
    decreases items.len() - i,
{
    if i >= items.len() {
        true
    } else {
        !entry_overruns(entry_fields(items, i as int), h, m) && (entry_matches(
            entry_fields(items, i as int),
            h,
            m,
            s,
        ) || readable_from(items, h, m, s, i + 1))
    }
}

/// Whether the `time` setting can be checked against this time of day: it is
/// empty, or each entry that is looked at has the fields that are looked at.
pub open spec fn schedule_readable(t: Seq<char>, h: nat, m: nat, s: nat) -> bool {
    t.len() == 0 || (split_on(t, ',').len() <= 2147483647 && readable_from(
        split_on(t, ','),
        h,
        m,
        s,
        0,
    ))
}

/// The index of the first entry of the `time` setting that matches the time
/// of day, if any.
pub open spec fn schedule_match(t: Seq<char>, h: nat, m: nat, s: nat) -> Option<nat> {
    if t.len() == 0 {
        None
    } else {
        first_match_from(split_on(t, ','), h, m, s, 0)
    }
}

/// `"0"` followed by the characters of `d`.
fn zero_then(d: &[char]) -> (v: Vec<char>)
    ensures
        v@ == seq!['0'] + d@,
{
    let mut v: Vec<char> = Vec::new();
    v.push('0');
    let mut i: usize = 0;
    while i < d.len()
        invariant
            i <= d@.len(),
            v@ == seq!['0'] + d@.take(i as int),
        decreases d@.len() - i,
    {
        v.push(d[i]);
        i = i + 1;
        assert(v@ =~= seq!['0'] + d@.take(i as int));
    }
    assert(d@.take(d@.len() as int) =~= d@);
    v
}

/// Whether a field matches a value whose notations are given.
fn field_is(p: &[char], dec: &[char], zdec: &[char]) -> (r: bool)
    ensures
        r == (p@.len() == 0 || p@ == dec@ || p@ == zdec@),
{
    p.len() == 0 || same_chars(p, dec) || same_chars(p, zdec)
}

/// The index of the first entry of the `time` setting that matches the time
/// of day `hour:minute:second`, if any.
pub fn match_schedule(t: &[char], hour: u32, minute: u32, second: u32) -> (r: Option<usize>)
    requires
        schedule_readable(t@, hour as nat, minute as nat, second as nat),
    ensures
        schedule_match(t@, hour as nat, minute as nat, second as nat) == match r {
            Some(k) => Some(k as nat),
            None => None::<nat>,
        },
{
    if t.len() == 0 {
        return None;
    }
    let ghost (h, m, s) = (hour as nat, minute as nat, second as nat);
    let dh = decimal_chars(hour as u64);
    let zh = zero_then(dh.as_slice());
    let dm = decimal_chars(minute as u64);
    let zm = zero_then(dm.as_slice());
    let ds = decimal_chars(second as u64);
    let zs = zero_then(ds.as_slice());
    proof {
        lemma_decimal_digits(s);
        if decimal(s) == seq!['0'] {
            assert(decimal(s).len() == 1);
            assert(s < 10);
        }
    }
    let items = split_chars(t, ',');
    let ghost its = split_on(t@, ',');
    let mut i: usize = 0;
    while i < items.len()
        invariant
            views(items@) == its,
            its == split_on(t@, ','),
            t@.len() != 0,
            h == hour as nat,
            m == minute as nat,
            s == second as nat,
            i <= items@.len(),
            dh@ == decimal(h),
            zh@ == seq!['0'] + decimal(h),
            dm@ == decimal(m),
            zm@ == seq!['0'] + decimal(m),
            ds@ == decimal(s),
            zs@ == seq!['0'] + decimal(s),
            (decimal(s) == seq!['0']) == (s == 0),
            readable_from(its, h, m, s, i as nat),
            first_match_from(its, h, m, s, 0) == first_match_from(its, h, m, s, i as nat),
        decreases items@.len() - i,
    {
        let q = split_chars(items[i].as_slice(), ':');
        assert(views(q@) == entry_fields(its, i as int));
        proof {
            crate::text::lemma_split_nonempty(its[i as int], ':');
        }
        let ghost fq = entry_fields(its, i as int);
        assert(fq[0] == q@[0]@);
        let c0 = field_is(q[0].as_slice(), dh.as_slice(), zh.as_slice());
        assert(c0 == field_matches(fq[0], h));
        if c0 {
            assert(fq[1] == q@[1]@);
            let c1 = field_is(q[1].as_slice(), dm.as_slice(), zm.as_slice());
            assert(c1 == field_matches(fq[1], m));
            if c1 {
                assert(fq[2] == q@[2]@);
                let p2 = q[2].as_slice();
                let c2 = (p2.len() == 0 && same_chars(ds.as_slice(), &['0'])) || same_chars(
                    p2,
                    ds.as_slice(),
                ) || same_chars(p2, zs.as_slice());
                assert(c2 == second_matches(fq[2], s)) by {
                    assert(['0']@ =~= seq!['0']);
                }
                if c2 {
                    assert(entry_matches(fq, h, m, s));
                    assert(its.len() == items@.len());
                    assert(first_match_from(its, h, m, s, i as nat) == Some(i as nat));
                    return Some(i);
                }
            }
        }
        assert(!entry_matches(fq, h, m, s));
        i = i + 1;
    }
    None
}

/// Whether the `time` setting can be checked against the time of day
/// `hour:minute:second`.
pub fn schedule_is_readable(t: &[char], hour: u32, minute: u32, second: u32) -> (r: bool)
    ensures
        r == schedule_readable(t@, hour as nat, minute as nat, second as nat),
{
    if t.len() == 0 {
        return true;
    }
    let ghost (h, m, s) = (hour as nat, minute as nat, second as nat);
    let dh = decimal_chars(hour as u64);
    let zh = zero_then(dh.as_slice());
    let dm = decimal_chars(minute as u64);
    let zm = zero_then(dm.as_slice());
    let ds = decimal_chars(second as u64);
    let zs = zero_then(ds.as_slice());
    proof {
        lemma_decimal_digits(s);
        if decimal(s) == seq!['0'] {
            assert(decimal(s).len() == 1);
            assert(s < 10);
        }
    }
    let items = split_chars(t, ',');
    let ghost its = split_on(t@, ',');
    if items.len() > 2147483647 {
        return false;
    }
    let mut i: usize = 0;
    while i < items.len()
        invariant
            views(items@) == its,
            its == split_on(t@, ','),
            its.len() <= 2147483647,
            t@.len() != 0,
            h == hour as nat,
            m == minute as nat,
            s == second as nat,
            i <= items@.len(),
            dh@ == decimal(h),
            zh@ == seq!['0'] + decimal(h),
            dm@ == decimal(m),
            zm@ == seq!['0'] + decimal(m),
            ds@ == decimal(s),
            zs@ == seq!['0'] + decimal(s),
            (decimal(s) == seq!['0']) == (s == 0),
            readable_from(its, h, m, s, 0) == readable_from(its, h, m, s, i as nat),
        decreases items@.len() - i,
    {
        let q = split_chars(items[i].as_slice(), ':');
        assert(views(q@) == entry_fields(its, i as int));
        proof {
            crate::text::lemma_split_nonempty(its[i as int], ':');
        }
        let ghost fq = entry_fields(its, i as int);
        assert(fq[0] == q@[0]@);
        let c0 = field_is(q[0].as_slice(), dh.as_slice(), zh.as_slice());
        assert(c0 == field_matches(fq[0], h));
        if c0 {
            if q.len() < 2 {
                return false;
            }
            assert(fq[1] == q@[1]@);
            let c1 = field_is(q[1].as_slice(), dm.as_slice(), zm.as_slice());
            assert(c1 == field_matches(fq[1], m));
            if c1 {
                if q.len() < 3 {
                    return false;
                }
                assert(fq[2] == q@[2]@);
                let p2 = q[2].as_slice();
                let c2 = (p2.len() == 0 && same_chars(ds.as_slice(), &['0'])) || same_chars(
                    p2,
                    ds.as_slice(),
                ) || same_chars(p2, zs.as_slice());
                assert(c2 == second_matches(fq[2], s)) by {
                    assert(['0']@ =~= seq!['0']);
                }
                if c2 {
                    assert(entry_matches(fq, h, m, s));
                    return true;
                }
            }
        }
        assert(!entry_overruns(fq, h, m));
        assert(!entry_matches(fq, h, m, s));
        i = i + 1;
    }
    true
}

/// The seconds into the day of an entry whose three fields are all set to
/// a valid time of day.
pub open spec fn full_time(q: Seq<Seq<char>>) -> Option<u32> {
    if q.len() >= 3 && q[0].len() > 0 && q[1].len() > 0 && q[2].len() > 0 {
        match (parse_i32_spec(q[0]), parse_i32_spec(q[1]), parse_i32_spec(q[2])) {
            (Some(h), Some(m), Some(sec)) => if 0 <= h < 24 && 0 <= m < 60 && 0 <= sec < 60 {
                Some((h * 3600 + m * 60 + sec) as u32)
            } else {
                None
            },
            _ => None,
        }
    } else {
        None
    }
}

/// The first fully set entry from `i` on.
pub open spec fn first_full_from(items: Seq<Seq<char>>, i: nat) -> Option<u32>
    decreases items.len() - i,
{
    if i >= items.len() {
        None
    } else {
        match full_time(split_on(items[i as int], ':')) {
            Some(t) => Some(t),
            None => first_full_from(items, i + 1),
        }
    }
}

/// The time of day, in seconds, of the first entry of the `time` setting
/// whose hour, minute and second are all set.
pub open spec fn target_time(t: Seq<char>) -> Option<u32> {
    if t.len() == 0 {
        None
    } else {
        first_full_from(split_on(t, ','), 0)
    }
}

/// An entry as a full time of day, in seconds.
fn entry_full_time(e: &[char]) -> (r: Option<u32>)
    ensures
        r == full_time(split_on(e@, ':')),
{
    let q = split_chars(e, ':');
    if q.len() >= 3 && q[0].len() > 0 && q[1].len() > 0 && q[2].len() > 0 {
        assert(views(q@)[0] == q@[0]@);
        assert(views(q@)[1] == q@[1]@);
        assert(views(q@)[2] == q@[2]@);
        match (parse_i32(q[0].as_slice()), parse_i32(q[1].as_slice()), parse_i32(q[2].as_slice())) {
            (Some(h), Some(m), Some(sec)) => {
                if 0 <= h && h < 24 && 0 <= m && m < 60 && 0 <= sec && sec < 60 {
                    Some((h * 3600 + m * 60 + sec) as u32)
                } else {
                    None
                }
            },
            _ => None,
        }
    } else {
        None
    }
}

/// The time of day, in seconds, of the first fully set entry of the `time`
/// setting.
pub fn first_full_time(t: &[char]) -> (r: Option<u32>)
    ensures
        r == target_time(t@),
{
    if t.len() == 0 {
        return None;
    }
    let items = split_chars(t, ',');
    let ghost its = split_on(t@, ',');
    let mut i: usize = items.len();
    let mut found: Option<u32> = None;
    while i > 0
        invariant
            i <= items@.len(),
            views(items@) == its,
            found == first_full_from(its, i as nat),
        decreases i,
    {
        i = i - 1;
        assert(views(items@)[i as int] == items@[i as int]@);
        match entry_full_time(items[i].as_slice()) {
            Some(v) => {
                found = Some(v);
            },
            None => {},
        }
    }
    found
}

} // verus!
