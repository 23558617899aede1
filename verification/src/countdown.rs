//! The `countdown` setting: a comma-separated list of `hour:minute:second`
//! durations run one after another and then over again. Without it the
//! countdown runs ten minutes.
use vstd::prelude::*;
use crate::decimal::{pad2, pad2_chars, parse_i32, parse_i32_spec};
use crate::text::{split_chars, split_on, views};

verus! {

pub open spec fn in_i32(x: int) -> bool {
    -2147483648 <= x <= 2147483647
}

/// The seconds a field stands for, `unit` seconds per count: an empty field
/// stands for none; a field that does not read as `i32`, or whose product
/// leaves `i32`, stands for nothing (`None`).
pub open spec fn field_seconds(p: Seq<char>, unit: int) -> Option<int> {
    if p.len() == 0 {
        Some(0)
    } else {
        match parse_i32_spec(p) {
            Some(v) => if in_i32(v * unit) {
                Some(v * unit)
            } else {
                None
            },
            None => None,
        }
    }
}

/// The seconds of one `hour:minute:second` entry (split at `:`), or `None`
/// when it has fewer than three fields or cannot be summed within `i32`.
pub open spec fn entry_seconds(q: Seq<Seq<char>>) -> Option<int> {
    if q.len() < 3 {
        None
    } else {
        match (field_seconds(q[0], 3600), field_seconds(q[1], 60), field_seconds(q[2], 1)) {
            (Some(a), Some(b), Some(c)) => if in_i32(a + b) && in_i32(a + b + c) {
                Some(a + b + c)
            } else {
                None
            },
            _ => None,
        }
    }
}

/// The seconds of entry `k` of the list.
pub open spec fn item_seconds(items: Seq<Seq<char>>, k: int) -> int {
    entry_seconds(split_on(items[k], ':')).unwrap()
}

/// The seconds of the first `k` entries together.
pub open spec fn total_upto(items: Seq<Seq<char>>, k: nat) -> int
    decreases k,
{
    if k == 0 {
        0
    } else {
        total_upto(items, (k - 1) as nat) + item_seconds(items, k - 1)
    }
}

/// Whether the entries from `k` on, up to the one in which `over` seconds
/// fall, read as durations whose running totals stay within `i32`, as does
/// the time left in that entry.
pub open spec fn readable_from(items: Seq<Seq<char>>, over: int, k: nat) -> bool
    decreases items.len() - k,
{
    if k >= items.len() {
        true
    } else {
        &&& entry_seconds(split_on(items[k as int], ':')) is Some
        &&& in_i32(total_upto(items, k + 1))
        &&& if over < total_upto(items, k + 1) {
            in_i32(total_upto(items, k + 1) - over)
        } else {
            readable_from(items, over, k + 1)
        }
    }
}

/// The entry from `k` on in which `over` seconds fall: the first whose
/// running total exceeds `over`.
pub open spec fn break_from(items: Seq<Seq<char>>, over: int, k: nat) -> Option<nat>
    decreases items.len() - k,
{
    if k >= items.len() {
        None
    } else if over < total_upto(items, k + 1) {
        Some(k)
    } else {
        break_from(items, over, k + 1)
    }
}

/// The entry from `k` on that ends exactly `over` seconds in, if one does
/// before the entry in which `over` falls.
pub open spec fn ending_from(items: Seq<Seq<char>>, over: int, k: nat) -> Option<nat>
    decreases items.len() - k,
{
    if k >= items.len() {
        None
    } else if over == total_upto(items, k + 1) {
        Some(k)
    } else if over < total_upto(items, k + 1) {
        None
    } else {
        ending_from(items, over, k + 1)
    }
}

/// The seconds of the first entry from `k` on that is not zero long, or 0.
pub open spec fn first_nonzero_from(items: Seq<Seq<char>>, k: nat) -> int
    decreases items.len() - k,
{
    if k >= items.len() {
        0
    } else if item_seconds(items, k as int) != 0 {
        item_seconds(items, k as int)
    } else {
        first_nonzero_from(items, k + 1)
    }
}

/// Whether a countdown setting can be run `over` seconds after its start.
pub open spec fn countdown_readable(cd: Seq<char>, over: int) -> bool {
    cd.len() == 0 || (split_on(cd, ',').len() <= 2147483647 && readable_from(
        split_on(cd, ','),
        over,
        0,
    ))
}

/// The hours, minutes and seconds shown for `left` seconds: whole hours,
/// whole minutes (not reduced by the hours) and the seconds past the last
/// whole minute; nothing when no time is left.
pub open spec fn clock_parts(left: int) -> (nat, nat, nat) {
    if left <= 0 {
        (0, 0, 0)
    } else {
        ((left / 3600) as nat, (left / 60) as nat, (left % 60) as nat)
    }
}

/// The text shown for `left` seconds of a countdown from the setting:
/// `HH:MM:SS`.
pub open spec fn countdown_text(left: int) -> Seq<char> {
    let (h, m, s) = clock_parts(left);
    pad2(h) + seq![':'] + pad2(m) + seq![':'] + pad2(s)
}

/// The text shown for `left` seconds of the ten-minute countdown:
/// `00:MM:SS`.
pub open spec fn default_countdown_text(left: int) -> Seq<char> {
    let (h, m, s) = clock_parts(left);
    seq!['0', '0', ':'] + pad2(m) + seq![':'] + pad2(s)
}

/// What one look at a countdown list finds.
pub struct CountdownScan {
    /// The entry that ends exactly now, if the popup may fire.
    pub ending: Option<usize>,
    /// The entry in which the elapsed time falls, if any.
    pub current: Option<usize>,
    /// The seconds to show: what is left of the current entry, or, with
    /// none, the length of the first non-empty entry.
    pub left: i32,
}

/// Appends the characters of `s` to `v`.
pub fn append_chars(v: &mut Vec<char>, s: &[char])
    ensures
        final(v)@ == old(v)@ + s@,
{
    let ghost start = v@;
    let mut i: usize = 0;
    while i < s.len()
        invariant
            i <= s@.len(),
            v@ == start + s@.take(i as int),
        decreases s@.len() - i,
    {
        v.push(s[i]);
        i = i + 1;
        assert(v@ =~= start + s@.take(i as int));
    }
    assert(s@.take(s@.len() as int) =~= s@);
}

/// The text for `left` seconds, `HH:MM:SS`, or with `hours` false
/// `00:MM:SS`.
pub fn clock_text(left: i64, hours: bool) -> (v: Vec<char>)
    ensures
        hours ==> v@ == countdown_text(left as int),
        !hours ==> v@ == default_countdown_text(left as int),
{
    let (h, m, s): (u64, u64, u64) = if left <= 0 {
        (0, 0, 0)
    } else {
        ((left / 3600) as u64, (left / 60) as u64, (left % 60) as u64)
    };
    let mut v: Vec<char> = Vec::new();
    if hours {
        let hh = pad2_chars(h);
        append_chars(&mut v, hh.as_slice());
    } else {
        v.push('0');
        v.push('0');
    }
    v.push(':');
    let mm = pad2_chars(m);
    append_chars(&mut v, mm.as_slice());
    v.push(':');
    let ss = pad2_chars(s);
    append_chars(&mut v, ss.as_slice());
    proof {
        if hours {
            assert(v@ =~= countdown_text(left as int));
        } else {
            assert(v@ =~= default_countdown_text(left as int));
        }
    }
    v
}

/// The seconds of a field, `unit` seconds per count.
fn field_seconds_exec(p: &[char], unit: i64) -> (r: i64)
    requires
        field_seconds(p@, unit as int) is Some,
        unit == 1 || unit == 60 || unit == 3600,
    ensures
        r == field_seconds(p@, unit as int).unwrap(),
{
    if p.len() == 0 {
        0
    } else {
        let v = parse_i32(p).unwrap();
        (v as i64) * unit
    }
}

/// The seconds of one entry.
fn entry_seconds_exec(q: &Vec<Vec<char>>) -> (r: i32)
    requires
        entry_seconds(views(q@)) is Some,
    ensures
        r == entry_seconds(views(q@)).unwrap(),
{
    let ghost f = views(q@);
    assert(f[0] == q@[0]@ && f[1] == q@[1]@ && f[2] == q@[2]@);
    let a = field_seconds_exec(q[0].as_slice(), 3600);
    let b = field_seconds_exec(q[1].as_slice(), 60);
    let c = field_seconds_exec(q[2].as_slice(), 1);
    (a + b + c) as i32
}

/// The entries found lie in the list.
pub proof fn lemma_found_in_list(items: Seq<Seq<char>>, over: int, k: nat)
    ensures
        ending_from(items, over, k) matches Some(j) ==> k <= j < items.len(),
        break_from(items, over, k) matches Some(j) ==> k <= j < items.len(),
        ending_from(items, over, k) matches Some(j) ==> (break_from(items, over, k) matches Some(b)
            ==> j < b),
    decreases items.len() - k,
{
    if k < items.len() {
        lemma_found_in_list(items, over, k + 1);
    }
}

proof fn lemma_total_step(items: Seq<Seq<char>>, k: nat)
    ensures
        total_upto(items, k + 1) == total_upto(items, k) + item_seconds(items, k as int),
{
}

/// Looks at a countdown list (the setting split at `,`) `over` seconds after
/// its start.
pub fn scan_countdown(cd: &[char], over: i32, may_fire: bool) -> (r: CountdownScan)
    requires
        cd@.len() > 0,
        countdown_readable(cd@, over as int),
    ensures
        ({
            let items = split_on(cd@, ',');
            &&& r.ending == (if may_fire {
                match ending_from(items, over as int, 0) {
                    Some(k) => Some(k as usize),
                    None => None,
                }
            } else {
                None
            })
            &&& r.current == match break_from(items, over as int, 0) {
                Some(k) => Some(k as usize),
                None => None,
            }
            &&& r.left as int == match break_from(items, over as int, 0) {
                Some(k) => total_upto(items, k + 1) - over,
                None => first_nonzero_from(items, 0),
            }
        }),
{
    let items = split_chars(cd, ',');
    let ghost its = split_on(cd@, ',');
    let mut total: i32 = 0;
    let mut first: i32 = 0;
    let mut ending: Option<usize> = None;
    let mut k: usize = 0;
    while k < items.len()
        invariant
            views(items@) == its,
            its == split_on(cd@, ','),
            its.len() <= 2147483647,
            k <= its.len(),
            total as int == total_upto(its, k as nat),
            readable_from(its, over as int, k as nat),
            break_from(its, over as int, 0) == break_from(its, over as int, k as nat),
            first_nonzero_from(its, 0) == (if first != 0 {
                first as int
            } else {
                first_nonzero_from(its, k as nat)
            }),
            (if may_fire {
                match ending_from(its, over as int, 0) {
                    Some(j) => Some(j as usize),
                    None => None,
                }
            } else {
                None
            }) == match ending {
                Some(j) => Some(j),
                None => if may_fire {
                    match ending_from(its, over as int, k as nat) {
                        Some(j) => Some(j as usize),
                        None => None,
                    }
                } else {
                    None
                },
            },
            ending matches Some(j) ==> j < k,
        decreases its.len() - k,
    {
        let q = split_chars(items[k].as_slice(), ':');
        assert(views(items@)[k as int] == items@[k as int]@);
        let cur = entry_seconds_exec(&q);
        proof {
            lemma_total_step(its, k as nat);
        }
        if first == 0 {
            first = cur;
        }
        total = total + cur;
        if ending.is_none() && may_fire && over == total {
            ending = Some(k);
        } else if over < total {
            let left = total - over;
            return CountdownScan { ending, current: Some(k), left };
        }
        k = k + 1;
    }
    CountdownScan { ending, current: None, left: first }
}

/// The seconds of a field, or `None` when it cannot be read.
fn field_seconds_opt(p: &[char], unit: i64) -> (r: Option<i64>)
    requires
        unit == 1 || unit == 60 || unit == 3600,
    ensures
        r matches Some(v) ==> field_seconds(p@, unit as int) == Some(v as int),
        r is None ==> field_seconds(p@, unit as int) is None,
{
    if p.len() == 0 {
        Some(0)
    } else {
        match parse_i32(p) {
            Some(v) => {
                let x: i64 = (v as i64) * unit;
                if x < -2147483648 || x > 2147483647 {
                    None
                } else {
                    Some(x)
                }
            },
            None => None,
        }
    }
}

/// The seconds of one entry, or `None` when it cannot be read.
fn entry_seconds_opt(q: &Vec<Vec<char>>) -> (r: Option<i32>)
    ensures
        r matches Some(v) ==> entry_seconds(views(q@)) == Some(v as int),
        r is None ==> entry_seconds(views(q@)) is None,
{
    if q.len() < 3 {
        return None;
    }
    let ghost f = views(q@);
    assert(f[0] == q@[0]@ && f[1] == q@[1]@ && f[2] == q@[2]@);
    let a = field_seconds_opt(q[0].as_slice(), 3600);
    let b = field_seconds_opt(q[1].as_slice(), 60);
    let c = field_seconds_opt(q[2].as_slice(), 1);
    match (a, b, c) {
        (Some(a), Some(b), Some(c)) => {
            let ab = a + b;
            let abc = ab + c;
            if ab < -2147483648 || ab > 2147483647 || abc < -2147483648 || abc > 2147483647 {
                None
            } else {
                Some(abc as i32)
            }
        },
        _ => None,
    }
}

/// Whether a countdown setting can be run `over` seconds after its start.
pub fn countdown_is_readable(cd: &[char], over: i32) -> (r: bool)
    ensures
        r == countdown_readable(cd@, over as int),
{
    if cd.len() == 0 {
        return true;
    }
    let items = split_chars(cd, ',');
    let ghost its = split_on(cd@, ',');
    if items.len() > 2147483647 {
        return false;
    }
    let mut total: i64 = 0;
    let mut k: usize = 0;
    while k < items.len()
        invariant
            views(items@) == its,
            its == split_on(cd@, ','),
            its.len() <= 2147483647,
            cd@.len() > 0,
            k <= its.len(),
            total as int == total_upto(its, k as nat),
            in_i32(total as int),
            readable_from(its, over as int, 0) == readable_from(its, over as int, k as nat),
        decreases its.len() - k,
    {
        let q = split_chars(items[k].as_slice(), ':');
        assert(views(items@)[k as int] == items@[k as int]@);
        proof {
            lemma_total_step(its, k as nat);
        }
        assert(views(q@) == split_on(its[k as int], ':'));
        match entry_seconds_opt(&q) {
            None => {
                assert(!readable_from(its, over as int, k as nat));
                return false;
            },
            Some(cur) => {
                total = total + cur as i64;
                if total < -2147483648 || total > 2147483647 {
                    return false;
                }
                if (over as i64) < total {
                    let left = total - over as i64;
                    return -2147483648 <= left && left <= 2147483647;
                }
            },
        }
        k = k + 1;
    }
    true
}

} // verus!
