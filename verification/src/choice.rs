//! Choosing the sound and the tip of a popup. Both settings list the
//! choices for the scheduled times, separated by `|`, and after a `*` those
//! for the countdown; the `n`-th popup time takes the `n`-th choice, or the
//! first when there are fewer.
use vstd::prelude::*;
use crate::countdown::append_chars;
use crate::text::{split_chars, split_on, views};

verus! {

/// Choice `i` of a list, or the first when there are not that many.
pub open spec fn pick(list: Seq<Seq<char>>, i: nat) -> Seq<char> {
    if i < list.len() {
        list[i as int]
    } else {
        list[0]
    }
}

/// Whether a sound setting has the `directory*choices` form it is read in:
/// empty, or with at least one `*`.
pub open spec fn sound_setting_ok(sp: Seq<char>) -> bool {
    sp.len() == 0 || split_on(sp, '*').len() >= 2
}

/// The sound file for popup `i`: the directory before the first `*`
/// followed by choice `i` of the scheduled sounds for a scheduled popup or
/// when there is no countdown list, of the countdown sounds otherwise; empty
/// when there are more than two lists and the popup is the countdown's.
pub open spec fn sound_choice(sp: Seq<char>, i: nat, scheduled: bool) -> Seq<char> {
    let arr = split_on(sp, '*');
    if arr.len() == 2 || scheduled {
        arr[0] + pick(split_on(arr[1], '|'), i)
    } else if arr.len() == 3 {
        arr[0] + pick(split_on(arr[2], '|'), i)
    } else {
        Seq::<char>::empty()
    }
}

/// The tip for popup `i`: choice `i` of the scheduled tips for a scheduled
/// popup or when there is no countdown list, of the countdown tips
/// otherwise; empty when there are more than two lists and the popup is the
/// countdown's.
pub open spec fn tip_choice(ts: Seq<char>, i: nat, scheduled: bool) -> Seq<char> {
    let arr = split_on(ts, '*');
    if arr.len() == 1 || scheduled {
        pick(split_on(arr[0], '|'), i)
    } else if arr.len() == 2 {
        pick(split_on(arr[1], '|'), i)
    } else {
        Seq::<char>::empty()
    }
}

/// Choice `i` of a `|`-separated list.
fn pick_from(list: &[char], i: usize) -> (v: Vec<char>)
    ensures
        v@ == pick(split_on(list@, '|'), i as nat),
{
    let parts = split_chars(list, '|');
    proof {
        crate::text::lemma_split_nonempty(list@, '|');
    }
    let mut v: Vec<char> = Vec::new();
    if i < parts.len() {
        append_chars(&mut v, parts[i].as_slice());
        assert(views(parts@)[i as int] == parts@[i as int]@);
    } else {
        append_chars(&mut v, parts[0].as_slice());
        assert(views(parts@)[0] == parts@[0]@);
    }
    v
}

/// The sound file for popup `i`.
pub fn choose_sound(sp: &[char], i: usize, scheduled: bool) -> (v: Vec<char>)
    requires
        split_on(sp@, '*').len() >= 2,
    ensures
        v@ == sound_choice(sp@, i as nat, scheduled),
{
    let arr = split_chars(sp, '*');
    let ghost a = split_on(sp@, '*');
    assert(views(arr@)[0] == arr@[0]@ && views(arr@)[1] == arr@[1]@);
    if arr.len() == 2 || scheduled {
        let mut v: Vec<char> = Vec::new();
        append_chars(&mut v, arr[0].as_slice());
        let p = pick_from(arr[1].as_slice(), i);
        append_chars(&mut v, p.as_slice());
        v
    } else if arr.len() == 3 {
        assert(views(arr@)[2] == arr@[2]@);
        let mut v: Vec<char> = Vec::new();
        append_chars(&mut v, arr[0].as_slice());
        let p = pick_from(arr[2].as_slice(), i);
        append_chars(&mut v, p.as_slice());
        v
    } else {
        Vec::new()
    }
}

/// The tip for popup `i`.
pub fn choose_tip(ts: &[char], i: usize, scheduled: bool) -> (v: Vec<char>)
    ensures
        v@ == tip_choice(ts@, i as nat, scheduled),
{
    let arr = split_chars(ts, '*');
    proof {
        crate::text::lemma_split_nonempty(ts@, '*');
    }
    assert(views(arr@)[0] == arr@[0]@);
    if arr.len() == 1 || scheduled {
        pick_from(arr[0].as_slice(), i)
    } else if arr.len() == 2 {
        assert(views(arr@)[1] == arr@[1]@);
        pick_from(arr[1].as_slice(), i)
    } else {
        Vec::new()
    }
}

/// Whether a sound setting has the form it is read in.
pub fn sound_setting_is_ok(sp: &[char]) -> (r: bool)
    ensures
        r == sound_setting_ok(sp@),
{
    sp.len() == 0 || split_chars(sp, '*').len() >= 2
}

} // verus!
