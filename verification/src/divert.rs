use vstd::prelude::*;

use crate::action::Action;
use crate::client::{
    ErrorSpec, HidTransport, HidppClient, Step, WireEvent, error_fits, spec_set_control_diverted,
};
use crate::config::Config;
use crate::error::{ForgeError, Result};
use crate::model::ReprogControlInfo;
use crate::router::{ButtonEvent, pairs_map};
use crate::strmap::lookup;
use crate::text::message;
use crate::wire::{keyboard_control_cid, spec_keyboard_control_cid};

verus! {

/// The `(control id, action)` pairs of the keyboard bindings whose labels
/// name media-mode F-row positions, in binding order.
pub open spec fn media_pairs(entries: Seq<(String, Action)>) -> Seq<(u16, Action)>
    decreases entries.len(),
{
    if entries.len() == 0 {
        seq![]
    } else {
        let prior = media_pairs(entries.drop_last());
        match spec_keyboard_control_cid(entries.last().0@) {
            Some(cid) => prior.push((cid, entries.last().1)),
            None => prior,
        }
    }
}

/// The media-mode F-row bindings of the selected keyboard: capture must be
/// enabled and the selected device present, enabled and a keyboard.
pub fn media_bindings_from_config(config: &Config) -> (r: Result<Vec<(u16, Action)>>)
    ensures
        ({
            let found = lookup(config.devices.entry_seq(), config.selected_device@);
            if !config.app_settings.capture_mouse_events {
                r matches Err(ForgeError::ConfigError(_))
            } else {
                match found {
                    None => r matches Err(ForgeError::ConfigError(_)),
                    Some(dev) => if !dev.enabled {
                        r matches Err(ForgeError::ConfigError(_))
                    } else {
                        match dev.keyboard {
                            None => r matches Err(ForgeError::ConfigError(_)),
                            Some(k) => r matches Ok(v) && v@ == media_pairs(k.bindings.entry_seq()),
                        }
                    },
                }
            }
        }),
{
    if !config.app_settings.capture_mouse_events {
        return Err(ForgeError::ConfigError("app_settings.capture_mouse_events is disabled".to_owned()));
    }
    let device = match config.devices.get(config.selected_device.as_str()) {
        Some(device) => device,
        None => {
            return Err(
                ForgeError::ConfigError(
                    message(
                        &message("selected_device ", config.selected_device.as_str()),
                        " is missing from devices",
                    ),
                ),
            );
        },
    };
    if !device.enabled {
        return Err(
            ForgeError::ConfigError(
                message(&message("selected device ", config.selected_device.as_str()), " is disabled"),
            ),
        );
    }
    let keyboard = match &device.keyboard {
        Some(keyboard) => keyboard,
        None => {
            return Err(ForgeError::ConfigError("selected device has no keyboard configuration".to_owned()));
        },
    };
    let entries = keyboard.bindings.entries();
    let mut pairs: Vec<(u16, Action)> = Vec::new();
    let mut i: usize = 0;
    while i < entries.len()
        invariant
            0 <= i <= entries@.len(),
            pairs@ == media_pairs(entries@.take(i as int)),
        decreases entries@.len() - i,
    {
        assert(entries@.take(i + 1).drop_last() =~= entries@.take(i as int));
        if let Some(cid) = keyboard_control_cid(entries[i].0.as_str()) {
            pairs.push((cid, entries[i].1.duplicate()));
        }
        i = i + 1;
    }
    assert(entries@.take(entries@.len() as int) =~= entries@);
    Ok(pairs)
}

/// The control ids a listing reports as divertable.
pub open spec fn divertable(controls: Seq<ReprogControlInfo>, cid: u16) -> bool {
    exists|i: int| 0 <= i < controls.len() && (#[trigger] controls[i]).cid == cid && (controls[i].flags / 32) % 2 == 1
}

/// The control ids of pairs are strictly increasing.
pub open spec fn ascending_cids(pairs: Seq<(u16, Action)>) -> bool {
    forall|i: int, j: int| 0 <= i < j < pairs.len() ==> pairs[i].0 < pairs[j].0
}

/// `armed` lists, by ascending control id, each requested control that the
/// device can divert, with the last action requested for it.
pub open spec fn armed_listing(
    armed: Seq<(u16, Action)>,
    requested: Seq<(u16, Action)>,
    controls: Seq<ReprogControlInfo>,
) -> bool {
    let wanted = pairs_map(requested);
    &&& ascending_cids(armed)
    &&& forall|i: int|
        0 <= i < armed.len() ==> divertable(controls, #[trigger] armed[i].0) && wanted.contains_key(
            armed[i].0,
        ) && wanted[armed[i].0] == armed[i].1
    &&& forall|cid: u16|
        divertable(controls, cid) && #[trigger] wanted.contains_key(cid) ==> exists|i: int|
            0 <= i < armed.len() && (#[trigger] armed[i]).0 == cid
}

fn is_divertable(controls: &Vec<ReprogControlInfo>, cid: u16) -> (r: bool)
    ensures
        r == divertable(controls@, cid),
{
    let mut i: usize = 0;
    while i < controls.len()
        invariant
            0 <= i <= controls@.len(),
            forall|j: int| 0 <= j < i ==> !((#[trigger] controls@[j]).cid == cid && (controls@[j].flags / 32) % 2 == 1),
        decreases controls@.len() - i,
    {
        if controls[i].cid == cid && controls[i].is_divertable() {
            return true;
        }
        i = i + 1;
    }
    false
}

/// After one more requested pair, a listing that stays ascending and keeps
/// every listed pair of the earlier map other than `cid` is a listing of the
/// new map when it holds `cid` exactly when `cid` can be diverted.
proof fn lemma_listing_step(
    before: Seq<(u16, Action)>,
    after: Seq<(u16, Action)>,
    prefix: Seq<(u16, Action)>,
    next: Seq<(u16, Action)>,
    controls: Seq<ReprogControlInfo>,
)
    requires
        next.len() == prefix.len() + 1,
        next.drop_last() == prefix,
        armed_listing(before, prefix, controls),
        ascending_cids(after),
        forall|k: int| 0 <= k < after.len() && (#[trigger] after[k]).0 != next.last().0 ==> exists|j: int|
            0 <= j < before.len() && before[j] == after[k],
        forall|j: int| 0 <= j < before.len() && (#[trigger] before[j]).0 != next.last().0 ==> exists|k: int|
            0 <= k < after.len() && after[k] == before[j],
        divertable(controls, next.last().0) ==> exists|k: int| 0 <= k < after.len() && after[k] == next.last(),
        !divertable(controls, next.last().0) ==> forall|k: int| 0 <= k < after.len() ==> (#[trigger] after[k]).0 != next.last().0,
    ensures
        armed_listing(after, next, controls),
{
    let m0 = pairs_map(prefix);
    let m1 = pairs_map(next);
    let (cid, action) = next.last();
    assert(m1 == m0.insert(cid, action));
    assert forall|k: int| 0 <= k < after.len() implies divertable(controls, #[trigger] after[k].0)
        && m1.contains_key(after[k].0) && m1[after[k].0] == after[k].1 by {
        if after[k].0 == cid {
            if !divertable(controls, cid) {
                assert(after[k].0 != cid);
            }
            let k2 = choose|k2: int| 0 <= k2 < after.len() && after[k2] == next.last();
            if k2 != k {
                if k2 < k {
                    assert(after[k2].0 < after[k].0);
                } else {
                    assert(after[k].0 < after[k2].0);
                }
            }
        } else {
            let j = choose|j: int| 0 <= j < before.len() && before[j] == after[k];
            assert(divertable(controls, before[j].0) && m0.contains_key(before[j].0) && m0[before[j].0] == before[j].1);
        }
    }
    assert forall|c: u16| divertable(controls, c) && #[trigger] m1.contains_key(c) implies exists|k: int|
        0 <= k < after.len() && (#[trigger] after[k]).0 == c by {
        if c == cid {
            let k = choose|k: int| 0 <= k < after.len() && after[k] == next.last();
            assert(after[k].0 == c);
        } else {
            assert(m0.contains_key(c));
            let j = choose|j: int| 0 <= j < before.len() && (#[trigger] before[j]).0 == c;
            let k = choose|k: int| 0 <= k < after.len() && after[k] == before[j];
            assert(after[k].0 == c);
        }
    }
}

/// Puts `(cid, action)` into an ascending listing: it replaces the pair of
/// `cid` or goes where its order puts it.
fn upsert_ascending(armed: &mut Vec<(u16, Action)>, cid: u16, action: Action)
    requires
        ascending_cids(old(armed)@),
    ensures
        ascending_cids(final(armed)@),
        forall|k: int| 0 <= k < final(armed)@.len() && (#[trigger] final(armed)@[k]).0 != cid ==> exists|j: int|
            0 <= j < old(armed)@.len() && old(armed)@[j] == final(armed)@[k],
        forall|j: int| 0 <= j < old(armed)@.len() && (#[trigger] old(armed)@[j]).0 != cid ==> exists|k: int|
            0 <= k < final(armed)@.len() && final(armed)@[k] == old(armed)@[j],
        exists|k: int| 0 <= k < final(armed)@.len() && final(armed)@[k] == (cid, action),
{
    let ghost before = armed@;
    let mut p: usize = 0;
    while p < armed.len() && armed[p].0 < cid
        invariant
            0 <= p <= armed@.len(),
            armed@ == before,
            forall|j: int| 0 <= j < p ==> armed@[j].0 < cid,
        decreases armed@.len() - p,
    {
        p = p + 1;
    }
    if p < armed.len() && armed[p].0 == cid {
        armed.set(p, (cid, action));
        proof {
            assert forall|k: int| 0 <= k < armed@.len() && (#[trigger] armed@[k]).0 != cid implies exists|j: int|
                0 <= j < before.len() && before[j] == armed@[k] by {
                assert(before[k] == armed@[k]);
            }
            assert forall|j: int| 0 <= j < before.len() && (#[trigger] before[j]).0 != cid implies exists|k: int|
                0 <= k < armed@.len() && armed@[k] == before[j] by {
                assert(before[j] == armed@[j]);
            }
            assert(armed@[p as int] == (cid, action));
        }
    } else {
        armed.insert(p, (cid, action));
        proof {
            assert forall|a: int, b: int| 0 <= a < b < armed@.len() implies armed@[a].0 < armed@[b].0 by {
                if b < p {
                } else if a < p && b == p {
                } else if a < p {
                    assert(armed@[b] == before[b - 1]);
                } else if a == p {
                    assert(armed@[b] == before[b - 1]);
                    if p < before.len() {
                        assert(before[p as int].0 > cid);
                        if b - 1 > p {
                            assert(before[p as int].0 < before[b - 1].0);
                        }
                    }
                } else {
                    assert(armed@[a] == before[a - 1]);
                    assert(armed@[b] == before[b - 1]);
                }
            }
            assert forall|k: int| 0 <= k < armed@.len() && (#[trigger] armed@[k]).0 != cid implies exists|j: int|
                0 <= j < before.len() && before[j] == armed@[k] by {
                if k < p {
                    assert(before[k] == armed@[k]);
                } else {
                    assert(before[k - 1] == armed@[k]);
                }
            }
            assert forall|j: int| 0 <= j < before.len() && (#[trigger] before[j]).0 != cid implies exists|k: int|
                0 <= k < armed@.len() && armed@[k] == before[j] by {
                if j < p {
                    assert(before[j] == armed@[j]);
                } else {
                    assert(before[j] == armed@[j + 1]);
                }
            }
            assert(armed@[p as int] == (cid, action));
        }
    }
}

/// The requested controls the device can divert, by ascending control id,
/// each with the last action requested for it.
pub fn armed_controls(requested: &Vec<(u16, Action)>, controls: &Vec<ReprogControlInfo>) -> (r: Vec<(u16, Action)>)
    ensures
        armed_listing(r@, requested@, controls@),
{
    let mut armed: Vec<(u16, Action)> = Vec::new();
    let mut i: usize = 0;
    assert(requested@.take(0) =~= Seq::<(u16, Action)>::empty());
    while i < requested.len()
        invariant
            0 <= i <= requested@.len(),
            armed_listing(armed@, requested@.take(i as int), controls@),
        decreases requested@.len() - i,
    {
        let cid = requested[i].0;
        let ghost before = armed@;
        let ghost prefix = requested@.take(i as int);
        let ghost next = requested@.take(i + 1);
        assert(next.drop_last() =~= prefix);
        assert(next.last() == requested@[i as int]);
        if is_divertable(controls, cid) {
            let action = requested[i].1.duplicate();
            upsert_ascending(&mut armed, cid, action);
            proof {
                lemma_listing_step(before, armed@, prefix, next, controls@);
            }
        } else {
            proof {
                assert forall|k: int| 0 <= k < armed@.len() implies (#[trigger] armed@[k]).0 != cid by {
                    assert(divertable(controls@, before[k].0));
                }
                assert forall|k: int| 0 <= k < armed@.len() && (#[trigger] armed@[k]).0 != cid implies exists|j: int|
                    0 <= j < before.len() && before[j] == armed@[k] by {
                    assert(before[k] == armed@[k]);
                }
                assert forall|j: int| 0 <= j < before.len() && (#[trigger] before[j]).0 != cid implies exists|k: int|
                    0 <= k < armed@.len() && armed@[k] == before[j] by {
                    assert(before[j] == armed@[j]);
                }
                lemma_listing_step(before, armed@, prefix, next, controls@);
            }
        }
        i = i + 1;
    }
    assert(requested@.take(requested@.len() as int) =~= requested@);
    armed
}

/// The code list `s` without repeats, in strictly increasing order.
pub open spec fn strictly_ascending(s: Seq<u16>) -> bool {
    forall|i: int, j: int| 0 <= i < j < s.len() ==> s[i] < s[j]
}

/// Adds `c` to an ascending set of codes, keeping it ascending.
fn insert_ascending(held: &mut Vec<u16>, c: u16)
    requires
        strictly_ascending(old(held)@),
    ensures
        strictly_ascending(final(held)@),
        forall|x: u16| #[trigger] final(held)@.contains(x) <==> (x == c || old(held)@.contains(x)),
{
    let ghost before = held@;
    let mut p: usize = 0;
    while p < held.len() && held[p] < c
        invariant
            0 <= p <= held@.len(),
            held@ == before,
            forall|j: int| 0 <= j < p ==> held@[j] < c,
        decreases held@.len() - p,
    {
        p = p + 1;
    }
    if p < held.len() && held[p] == c {
        assert(before[p as int] == c);
        return;
    }
    held.insert(p, c);
    proof {
        assert forall|a: int, b: int| 0 <= a < b < held@.len() implies held@[a] < held@[b] by {
            if b < p {
            } else if a < p && b == p {
            } else if a < p {
                assert(held@[b] == before[b - 1]);
            } else if a == p {
                assert(held@[b] == before[b - 1]);
                if p < before.len() {
                    assert(before[p as int] > c);
                    if b - 1 > p {
                        assert(before[p as int] < before[b - 1]);
                    }
                }
            } else {
                assert(held@[a] == before[a - 1]);
                assert(held@[b] == before[b - 1]);
            }
        }
        assert forall|x: u16| #[trigger] held@.contains(x) <==> (x == c || before.contains(x)) by {
            if held@.contains(x) {
                let k = choose|k: int| 0 <= k < held@.len() && held@[k] == x;
                if k < p {
                    assert(before[k] == x);
                } else if k > p {
                    assert(before[k - 1] == x);
                }
            }
            if before.contains(x) {
                let k = choose|k: int| 0 <= k < before.len() && before[k] == x;
                if k < p {
                    assert(held@[k] == x);
                } else {
                    assert(held@[k + 1] == x);
                }
            }
            if x == c {
                assert(held@[p as int] == c);
            }
        }
    }
}

/// The held controls of a diverted-buttons snapshot: its non-zero control
/// ids that were diverted, as an ascending set.
pub fn held_controls(snapshot: &[u16; 4], diverted: &Vec<u16>) -> (r: Vec<u16>)
    ensures
        strictly_ascending(r@),
        forall|c: u16| #[trigger] r@.contains(c) <==> (c != 0 && snapshot@.contains(c) && diverted@.contains(c)),
{
    let mut held: Vec<u16> = Vec::new();
    let mut i: usize = 0;
    while i < 4
        invariant
            0 <= i <= 4,
            strictly_ascending(held@),
            forall|c: u16|
                #[trigger] held@.contains(c) <==> (c != 0 && snapshot@.take(i as int).contains(c) && diverted@.contains(c)),
        decreases 4 - i,
    {
        let c = snapshot[i];
        let ghost before = held@;
        let wanted_code = c != 0 && contains_code(diverted, c);
        if wanted_code {
            insert_ascending(&mut held, c);
        }
        proof {
            let t0 = snapshot@.take(i as int);
            let t1 = snapshot@.take(i + 1);
            assert forall|x: u16| #[trigger] t1.contains(x) <==> (t0.contains(x) || x == c) by {
                if t1.contains(x) {
                    let k = choose|k: int| 0 <= k < t1.len() && t1[k] == x;
                    if k < i {
                        assert(t0[k] == x);
                    }
                }
                if t0.contains(x) {
                    let k = choose|k: int| 0 <= k < t0.len() && t0[k] == x;
                    assert(t1[k] == x);
                }
                if x == c {
                    assert(t1[i as int] == x);
                }
            }
        }
        i = i + 1;
    }
    assert(snapshot@.take(4) =~= snapshot@);
    held
}

fn contains_code(codes: &Vec<u16>, c: u16) -> (r: bool)
    ensures
        r == codes@.contains(c),
{
    let mut i: usize = 0;
    while i < codes.len()
        invariant
            0 <= i <= codes@.len(),
            forall|j: int| 0 <= j < i ==> codes@[j] != c,
        decreases codes@.len() - i,
    {
        if codes[i] == c {
            return true;
        }
        i = i + 1;
    }
    false
}

/// The events of the codes of `a` that are not in `b`, in the order of `a`, each with `value`.
pub open spec fn edges_of(a: Seq<u16>, b: Seq<u16>, value: i32) -> Seq<ButtonEvent>
    decreases a.len(),
{
    if a.len() == 0 {
        seq![]
    } else {
        let prior = edges_of(a.drop_last(), b, value);
        if b.contains(a.last()) {
            prior
        } else {
            prior.push(ButtonEvent { code: a.last(), value })
        }
    }
}

fn push_edges(events: &mut Vec<ButtonEvent>, a: &Vec<u16>, b: &Vec<u16>, value: i32)
    ensures
        final(events)@ == old(events)@ + edges_of(a@, b@, value),
{
    let ghost start = events@;
    let mut i: usize = 0;
    while i < a.len()
        invariant
            0 <= i <= a@.len(),
            events@ == start + edges_of(a@.take(i as int), b@, value),
        decreases a@.len() - i,
    {
        assert(a@.take(i + 1).drop_last() =~= a@.take(i as int));
        if !contains_code(b, a[i]) {
            events.push(ButtonEvent { code: a[i], value });
            assert(events@ =~= start + edges_of(a@.take(i + 1), b@, value));
        }
        i = i + 1;
    }
    assert(a@.take(a@.len() as int) =~= a@);
}

/// The button events between two sets of held controls: releases of the
/// controls no longer held, then presses of the newly held ones, each in
/// ascending order when the sets are.
pub fn control_edges(before: &Vec<u16>, after: &Vec<u16>) -> (r: Vec<ButtonEvent>)
    ensures
        r@ == edges_of(before@, after@, 0) + edges_of(after@, before@, 1),
{
    let mut events: Vec<ButtonEvent> = Vec::new();
    push_edges(&mut events, before, after, 0);
    push_edges(&mut events, after, before, 1);
    assert(Seq::<ButtonEvent>::empty() + edges_of(before@, after@, 0) =~= edges_of(before@, after@, 0));
    events
}

/// Restoring diversion of `cids[i..]` to the firmware, every write tried;
/// the result is the first failure, if any.
pub open spec fn spec_restore(
    w: Seq<WireEvent>,
    pos: int,
    d: u8,
    sw: u8,
    fi: u8,
    cids: Seq<u16>,
    i: nat,
    first: Option<ErrorSpec>,
) -> Option<Step<()>>
    decreases cids.len() - i,
{
    if i >= cids.len() {
        Some(
            Step {
                result: match first {
                    None => Ok(()),
                    Some(e) => Err(e),
                },
                next: pos,
                sw,
            },
        )
    } else {
        match spec_set_control_diverted(w, pos, d, sw, fi, cids[i as int], false) {
            None => None,
            Some(s) => spec_restore(
                w,
                s.next,
                d,
                s.sw,
                fi,
                cids,
                i + 1,
                match first {
                    Some(e) => Some(e),
                    None => match s.result {
                        Err(e) => Some(e),
                        Ok(_) => None,
                    },
                },
            ),
        }
    }
}

/// Diverting `cids[i..]` in order; on the first failure the controls
/// `cids[..i]` diverted so far are restored and the failure is reported.
pub open spec fn spec_arm(w: Seq<WireEvent>, pos: int, d: u8, sw: u8, fi: u8, cids: Seq<u16>, i: nat) -> Option<
    Step<()>,
>
    decreases cids.len() - i,
{
    if i >= cids.len() {
        Some(Step { result: Ok(()), next: pos, sw })
    } else {
        match spec_set_control_diverted(w, pos, d, sw, fi, cids[i as int], true) {
            None => None,
            Some(s) => match s.result {
                Err(e) => match spec_restore(w, s.next, d, s.sw, fi, cids.take(i as int), 0, None) {
                    None => None,
                    Some(s2) => Some(Step { result: Err(e), next: s2.next, sw: s2.sw }),
                },
                Ok(_) => spec_arm(w, s.next, d, s.sw, fi, cids, i + 1),
            },
        }
    }
}

/// An optional error agrees with an optional specified error.
spec fn first_fits(e: Option<ForgeError>, s: Option<ErrorSpec>) -> bool {
    match (e, s) {
        (None, None) => true,
        (Some(x), Some(y)) => error_fits(x, y),
        _ => false,
    }
}

fn restore_from<T: HidTransport>(
    client: &mut HidppClient<T>,
    fi: u8,
    cids: &Vec<u16>,
    i: usize,
    first: Option<ForgeError>,
    Ghost(first_spec): Ghost<Option<ErrorSpec>>,
) -> (r: Result<()>)
    requires
        old(client).wf(),
        i <= cids@.len(),
        first_fits(first, first_spec),
    ensures
        final(client).finished(
            old(client),
            spec_restore(final(client).wire(), old(client).wire().len() as int, old(client).device(), old(client).software_id(), fi, cids@, i as nat, first_spec),
            r,
        ),
    decreases cids@.len() - i,
{
    if i >= cids.len() {
        return match first {
            None => Ok(()),
            Some(e) => Err(e),
        };
    }
    let outcome = client.set_control_diverted(fi, cids[i], false);
    let ghost step = spec_set_control_diverted(client.wire(), old(client).wire().len() as int, old(client).device(), old(client).software_id(), fi, cids@[i as int], false)->0;
    let ghost next_spec = match first_spec {
        Some(e) => Some(e),
        None => match step.result {
            Err(e) => Some(e),
            Ok(_) => None,
        },
    };
    let next = match first {
        Some(e) => Some(e),
        None => match outcome {
            Err(e) => Some(e),
            Ok(()) => None,
        },
    };
    restore_from(client, fi, cids, i + 1, next, Ghost(next_spec))
}

/// Hands every diverted control back to the firmware, trying each one; the
/// result is the first failure, if any.
pub fn restore_diverted_controls<T: HidTransport>(client: &mut HidppClient<T>, feature_index: u8, diverted: &Vec<u16>) -> (r: Result<()>)
    requires
        old(client).wf(),
    ensures
        final(client).finished(
            old(client),
            spec_restore(final(client).wire(), old(client).wire().len() as int, old(client).device(), old(client).software_id(), feature_index, diverted@, 0, None),
            r,
        ),
{
    restore_from(client, feature_index, diverted, 0, None, Ghost(None))
}

fn arm_from<T: HidTransport>(client: &mut HidppClient<T>, fi: u8, cids: &Vec<u16>, i: usize) -> (r: Result<()>)
    requires
        old(client).wf(),
        i <= cids@.len(),
    ensures
        final(client).finished(
            old(client),
            spec_arm(final(client).wire(), old(client).wire().len() as int, old(client).device(), old(client).software_id(), fi, cids@, i as nat),
            r,
        ),
    decreases cids@.len() - i,
{
    if i >= cids.len() {
        return Ok(());
    }
    match client.set_control_diverted(fi, cids[i], true) {
        Err(error) => {
            let mut done: Vec<u16> = Vec::new();
            let mut j: usize = 0;
            while j < i
                invariant
                    0 <= j <= i < cids@.len(),
                    done@ == cids@.take(j as int),
                decreases i - j,
            {
                done.push(cids[j]);
                assert(cids@.take(j + 1) =~= cids@.take(j as int).push(cids@[j as int]));
                j = j + 1;
            }
            let _ = restore_diverted_controls(client, fi, &done);
            Err(error)
        },
        Ok(()) => arm_from(client, fi, cids, i + 1),
    }
}

/// Diverts each control in order. When one write fails, the controls
/// diverted so far are handed back to the firmware and the failure is
/// reported.
pub fn arm_controls<T: HidTransport>(client: &mut HidppClient<T>, feature_index: u8, cids: &Vec<u16>) -> (r: Result<()>)
    requires
        old(client).wf(),
    ensures
        final(client).finished(
            old(client),
            spec_arm(final(client).wire(), old(client).wire().len() as int, old(client).device(), old(client).software_id(), feature_index, cids@, 0),
            r,
        ),
{
    arm_from(client, feature_index, cids, 0)
}

} // verus!
