//! Charge thresholds and battery readings, shared by every backend.
//!
//! `charge_control_end_threshold` and its `start` counterpart are kernel
//! names, not vendor ones: the MSI EC driver and a ThinkPad expose the same
//! two files in the same `power_supply` directory.
use vstd::prelude::*;

use crate::backend::{Error, ErrorView, Write, writes_view};
use crate::sysfs::{
    after_writes, join, join_path, lemma_join_lengths_differ, lemma_written_concat,
    lemma_written_elsewhere, written, Tree,
};
use crate::text::{decimal, decimal_string, lemma_decimal_reads_back};
use crate::types::{Battery, HwProfile};

verus! {

pub open spec fn end_path(dir: Seq<char>) -> Seq<char> {
    join(dir, "charge_control_end_threshold"@)
}

pub open spec fn start_path(dir: Seq<char>) -> Seq<char> {
    join(dir, "charge_control_start_threshold"@)
}

/// What the battery and the mains adapter report.
pub open spec fn battery_spec(tree: Tree, battery: Option<Seq<char>>, mains: Option<Seq<char>>) -> Battery {
    Battery {
        on_ac: match mains {
            Some(m) => match tree.read_u8_spec(join(m, "online"@)) {
                Some(v) => Some(v == 1),
                None => None,
            },
            None => None,
        },
        capacity_percent: match battery {
            Some(b) => tree.read_u8_spec(join(b, "capacity"@)),
            None => None,
        },
        charge_end_threshold: match battery {
            Some(b) => tree.read_u8_spec(end_path(b)),
            None => None,
        },
        charge_start_threshold: match battery {
            Some(b) => tree.read_u8_spec(start_path(b)),
            None => None,
        },
    }
}

/// Which of the two threshold files the battery has: `(end, start)`.
pub open spec fn capabilities_spec(tree: Tree, battery: Option<Seq<char>>) -> (bool, bool) {
    match battery {
        Some(b) => (tree.file(end_path(b)) is Some, tree.file(start_path(b)) is Some),
        None => (false, false),
    }
}

/// The range the kernel accepts for a threshold.
pub open spec fn in_range(value: u8) -> bool {
    20 <= value <= 100
}

pub open spec fn bad_threshold(value: u8) -> ErrorView {
    ErrorView::BadValue("charge threshold"@, decimal(value as nat) + " (expected 20-100)"@)
}

pub open spec fn bad_order(start: u8, end: u8) -> ErrorView {
    ErrorView::BadValue(
        "charge start threshold"@,
        decimal(start as nat) + " (must be below the end threshold of "@ + decimal(end as nat)
            + ")"@,
    )
}

/// The end threshold once the profile is applied: the requested one, or the
/// one the battery already has.
pub open spec fn effective_end(tree: Tree, dir: Seq<char>, p: HwProfile) -> Option<u8> {
    match p.charge_end_threshold {
        Some(v) => Some(v),
        None => tree.read_u8_spec(end_path(dir)),
    }
}

pub open spec fn effective_start(tree: Tree, dir: Seq<char>, p: HwProfile) -> Option<u8> {
    match p.charge_start_threshold {
        Some(v) => Some(v),
        None => tree.read_u8_spec(start_path(dir)),
    }
}

/// Raising the pair: the end moves up, or only the start moves.
pub open spec fn raising(tree: Tree, dir: Seq<char>, p: HwProfile) -> bool {
    match (p.charge_end_threshold, tree.read_u8_spec(end_path(dir))) {
        (Some(wanted), Some(current)) => wanted > current,
        _ => true,
    }
}

/// The threshold writes, in order: `(true, v)` sets the end to `v`,
/// `(false, v)` the start. Raising moves the end first, lowering the start
/// first, so the kernel never sees a start at or above the end.
pub open spec fn threshold_steps(tree: Tree, dir: Seq<char>, p: HwProfile) -> Seq<(bool, u8)> {
    let e = match p.charge_end_threshold {
        Some(v) => seq![(true, v)],
        None => Seq::empty(),
    };
    let s = match p.charge_start_threshold {
        Some(v) => seq![(false, v)],
        None => Seq::empty(),
    };
    if raising(tree, dir, p) {
        e + s
    } else {
        s + e
    }
}

/// The outcome of asking for a profile's thresholds: the writes to make, or
/// why nothing may be written.
pub open spec fn threshold_plan(
    tree: Tree,
    battery: Option<Seq<char>>,
    caps: (bool, bool),
    p: HwProfile,
) -> Result<Seq<(bool, u8)>, ErrorView> {
    if p.charge_end_threshold is None && p.charge_start_threshold is None {
        Ok(Seq::empty())
    } else if battery is None {
        Err(ErrorView::Unsupported("charge thresholds"@))
    } else if p.charge_end_threshold is Some && !caps.0 {
        Err(ErrorView::Unsupported("charge thresholds"@))
    } else if p.charge_end_threshold is Some && !in_range(p.charge_end_threshold->0) {
        Err(bad_threshold(p.charge_end_threshold->0))
    } else if p.charge_start_threshold is Some && !caps.1 {
        Err(ErrorView::Unsupported("a start threshold"@))
    } else if p.charge_start_threshold is Some && !in_range(p.charge_start_threshold->0) {
        Err(bad_threshold(p.charge_start_threshold->0))
    } else {
        let dir = battery->0;
        match (effective_start(tree, dir, p), effective_end(tree, dir, p)) {
            (Some(s), Some(e)) => if s >= e {
                Err(bad_order(s, e))
            } else {
                Ok(threshold_steps(tree, dir, p))
            },
            _ => Ok(threshold_steps(tree, dir, p)),
        }
    }
}

/// The file write for one step.
pub open spec fn step_write(dir: Seq<char>, step: (bool, u8)) -> (Seq<char>, Seq<char>) {
    (
        if step.0 {
            end_path(dir)
        } else {
            start_path(dir)
        },
        decimal(step.1 as nat),
    )
}

pub open spec fn step_writes(dir: Seq<char>, steps: Seq<(bool, u8)>) -> Seq<(Seq<char>, Seq<char>)> {
    steps.map_values(|s: (bool, u8)| step_write(dir, s))
}

/// Everything the battery and the mains adapter report.
pub fn read(tree: &Tree, battery: Option<&[char]>, mains: Option<&[char]>) -> (r: Battery)
    ensures
        r == battery_spec(
            *tree,
            match battery {
                Some(b) => Some(b@),
                None => None,
            },
            match mains {
                Some(m) => Some(m@),
                None => None,
            },
        ),
{
    let on_ac = match mains {
        Some(m) => match tree.read_u8(&join_path(m, "online")) {
            Some(v) => Some(v == 1),
            None => None,
        },
        None => None,
    };
    match battery {
        Some(dir) => Battery {
            capacity_percent: tree.read_u8(&join_path(dir, "capacity")),
            charge_end_threshold: tree.read_u8(&join_path(dir, "charge_control_end_threshold")),
            charge_start_threshold: tree.read_u8(&join_path(dir, "charge_control_start_threshold")),
            on_ac,
        },
        None => Battery {
            capacity_percent: None,
            charge_end_threshold: None,
            charge_start_threshold: None,
            on_ac,
        },
    }
}

/// Which of the two thresholds this machine actually exposes, `(end, start)`.
///
/// Kept separate because they are separate files: a driver offering only the
/// end threshold is common, and claiming both would put a key on screen that
/// fails when pressed.
pub fn capabilities(tree: &Tree, battery: Option<&[char]>) -> (r: (bool, bool))
    ensures
        r == capabilities_spec(
            *tree,
            match battery {
                Some(b) => Some(b@),
                None => None,
            },
        ),
{
    match battery {
        Some(dir) => (
            tree.has_file(&join_path(dir, "charge_control_end_threshold")),
            tree.has_file(&join_path(dir, "charge_control_start_threshold")),
        ),
        None => (false, false),
    }
}

/// Reject thresholds the kernel would refuse anyway, with a better message.
pub fn check_range(value: u8) -> (r: Result<(), Error>)
    ensures
        match r {
            Ok(()) => in_range(value),
            Err(e) => !in_range(value) && e@ == bad_threshold(value),
        },
{
    if 20 <= value && value <= 100 {
        Ok(())
    } else {
        let mut text = decimal_string(value as u64);
        text.append(" (expected 20-100)");
        Err(Error::BadValue("charge threshold", text))
    }
}

/// A start threshold must stay below the end one, counting whichever half of
/// the pair the caller left alone.
pub fn check_order(tree: &Tree, dir: &[char], profile: &HwProfile) -> (r: Result<(), Error>)
    ensures
        match (effective_start(*tree, dir@, *profile), effective_end(*tree, dir@, *profile)) {
            (Some(s), Some(e)) => if s >= e {
                r matches Err(err) && err@ == bad_order(s, e)
            } else {
                r is Ok
            },
            _ => r is Ok,
        },
{
    let end = match profile.charge_end_threshold {
        Some(v) => Some(v),
        None => tree.read_u8(&join_path(dir, "charge_control_end_threshold")),
    };
    let start = match profile.charge_start_threshold {
        Some(v) => Some(v),
        None => tree.read_u8(&join_path(dir, "charge_control_start_threshold")),
    };
    match (start, end) {
        (Some(s), Some(e)) => {
            if s >= e {
                let mut text = decimal_string(s as u64);
                text.append(" (must be below the end threshold of ");
                let ev = decimal_string(e as u64);
                text.append(ev.as_str());
                text.append(")");
                Err(Error::BadValue("charge start threshold", text))
            } else {
                Ok(())
            }
        },
        _ => Ok(()),
    }
}

fn step(dir: &[char], is_end: bool, value: u8) -> (w: Write)
    ensures
        (w.path@, w.value@) == step_write(dir@, (is_end, value)),
{
    let path = if is_end {
        join_path(dir, "charge_control_end_threshold")
    } else {
        join_path(dir, "charge_control_start_threshold")
    };
    Write { path: crate::text::string_of(&path), value: decimal_string(value as u64) }
}

/// The writes for whichever thresholds the profile asks for.
///
/// The kernel refuses a start threshold at or above the end one, so the
/// order of the two writes matters: raising the pair has to move the end
/// first, and lowering it has to move the start first.
pub fn apply(tree: &Tree, battery: Option<&[char]>, caps: (bool, bool), profile: &HwProfile) -> (r:
    Result<Vec<Write>, Error>)
    ensures
        match (
            r,
            threshold_plan(
                *tree,
                match battery {
                    Some(b) => Some(b@),
                    None => None,
                },
                caps,
                *profile,
            ),
        ) {
            (Ok(w), Ok(steps)) => writes_view(w@) == step_writes(battery->0@, steps),
            (Err(e), Err(ev)) => e@ == ev,
            _ => false,
        },
{
    let (can_end, can_start) = caps;
    if profile.charge_end_threshold.is_none() && profile.charge_start_threshold.is_none() {
        let w: Vec<Write> = Vec::new();
        proof {
            assert(writes_view(w@) =~= Seq::<(Seq<char>, Seq<char>)>::empty());
            if battery is Some {
                assert(step_writes(battery->0@, Seq::<(bool, u8)>::empty()) =~= Seq::<(Seq<char>, Seq<char>)>::empty());
            }
        }
        return Ok(w);
    }
    let dir = match battery {
        Some(d) => d,
        None => {
            return Err(Error::Unsupported("charge thresholds"));
        },
    };
    if let Some(value) = profile.charge_end_threshold {
        if !can_end {
            return Err(Error::Unsupported("charge thresholds"));
        }
        match check_range(value) {
            Ok(()) => {},
            Err(e) => {
                return Err(e);
            },
        }
    }
    if let Some(value) = profile.charge_start_threshold {
        if !can_start {
            return Err(Error::Unsupported("a start threshold"));
        }
        match check_range(value) {
            Ok(()) => {},
            Err(e) => {
                return Err(e);
            },
        }
    }
    match check_order(tree, dir, profile) {
        Ok(()) => {},
        Err(e) => {
            return Err(e);
        },
    }
    let current_end = tree.read_u8(&join_path(dir, "charge_control_end_threshold"));
    let up = match (profile.charge_end_threshold, current_end) {
        (Some(wanted), Some(current)) => wanted > current,
        _ => true,
    };
    let first = if up {
        (true, profile.charge_end_threshold)
    } else {
        (false, profile.charge_start_threshold)
    };
    let second = if up {
        (false, profile.charge_start_threshold)
    } else {
        (true, profile.charge_end_threshold)
    };
    let mut writes: Vec<Write> = Vec::new();
    let ghost steps = threshold_steps(*tree, dir@, *profile);
    if let Some(v) = first.1 {
        writes.push(step(dir, first.0, v));
    }
    if let Some(v) = second.1 {
        writes.push(step(dir, second.0, v));
    }
    proof {
        let sw = step_writes(dir@, steps);
        let wv = writes_view(writes@);
        assert(wv.len() == sw.len());
        assert forall|i: int| 0 <= i < wv.len() implies wv[i] == sw[i] by {}
        assert(wv =~= sw);
    }
    Ok(writes)
}

/// The thresholds after the first `steps`, starting from `(start, end)`.
pub open spec fn after_steps(start: Option<u8>, end: Option<u8>, steps: Seq<(bool, u8)>) -> (
    Option<u8>,
    Option<u8>,
)
    decreases steps.len(),
{
    if steps.len() == 0 {
        (start, end)
    } else {
        let (s, e) = after_steps(start, end, steps.drop_last());
        let last = steps.last();
        if last.0 {
            (s, Some(last.1))
        } else {
            (Some(last.1), e)
        }
    }
}

/// A pair the kernel accepts: a start only below a known end.
pub open spec fn ordered(start: Option<u8>, end: Option<u8>) -> bool {
    match (start, end) {
        (Some(s), Some(e)) => s < e,
        (Some(_), None) => false,
        _ => true,
    }
}

/// Applying an accepted plan step by step never leaves a start threshold at
/// or above the end threshold: from a pair the kernel accepts, every
/// intermediate pair with both halves known has the start below the end,
/// which is what the kernel insists on after each write.
pub proof fn lemma_steps_keep_order(tree: Tree, dir: Seq<char>, caps: (bool, bool), p: HwProfile)
    requires
        threshold_plan(tree, Some(dir), caps, p) is Ok,
        ordered(tree.read_u8_spec(start_path(dir)), tree.read_u8_spec(end_path(dir))),
    ensures
        forall|k: int|
            #![trigger threshold_steps(tree, dir, p).take(k)]
            0 <= k <= threshold_steps(tree, dir, p).len() ==> {
                let (s, e) = after_steps(
                    tree.read_u8_spec(start_path(dir)),
                    tree.read_u8_spec(end_path(dir)),
                    threshold_steps(tree, dir, p).take(k),
                );
                s is Some && e is Some ==> s->0 < e->0
            },
{
    let s0 = tree.read_u8_spec(start_path(dir));
    let e0 = tree.read_u8_spec(end_path(dir));
    let steps = threshold_steps(tree, dir, p);
    let es = effective_start(tree, dir, p);
    let ee = effective_end(tree, dir, p);
    assert(es is Some && ee is Some ==> es->0 < ee->0);
    assert forall|k: int| 0 <= k <= steps.len() implies {
        let (s, e) = after_steps(s0, e0, #[trigger] steps.take(k));
        s is Some && e is Some ==> s->0 < e->0
    } by {
        let t = steps.take(k);
        if k == 0 {
            assert(t =~= Seq::<(bool, u8)>::empty());
        } else {
            let first = steps[0];
            let t1 = steps.take(1);
            assert(t1.drop_last() =~= Seq::<(bool, u8)>::empty());
            assert(after_steps(s0, e0, t1.drop_last()) == (s0, e0));
            assert(t1.last() == first);
            if raising(tree, dir, p) {
                if p.charge_end_threshold is Some {
                    assert(first == (true, p.charge_end_threshold->0));
                } else {
                    assert(first == (false, p.charge_start_threshold->0));
                }
            } else {
                if p.charge_start_threshold is Some {
                    assert(first == (false, p.charge_start_threshold->0));
                } else {
                    assert(first == (true, p.charge_end_threshold->0));
                }
            }
            let a1 = after_steps(s0, e0, t1);
            assert(a1.0 is Some && a1.1 is Some ==> a1.0->0 < a1.1->0);
            if k == 2 {
                assert(t.drop_last() =~= t1);
                assert(t.last() == steps[1]);
                if raising(tree, dir, p) {
                    assert(steps[1] == (false, p.charge_start_threshold->0));
                } else {
                    assert(steps[1] == (true, p.charge_end_threshold->0));
                }
                let a2 = after_steps(s0, e0, t);
                assert(a2 == (es, ee));
            } else {
                assert(t =~= t1);
            }
        }
    }
}

/// The write for the end threshold, if the profile sets one.
pub open spec fn end_steps(p: HwProfile) -> Seq<(bool, u8)> {
    match p.charge_end_threshold {
        Some(v) => seq![(true, v)],
        None => Seq::empty(),
    }
}

/// The write for the start threshold, if the profile sets one.
pub open spec fn start_steps(p: HwProfile) -> Seq<(bool, u8)> {
    match p.charge_start_threshold {
        Some(v) => seq![(false, v)],
        None => Seq::empty(),
    }
}

proof fn lemma_one_half_written(z: Option<Seq<char>>, dir: Seq<char>, p: HwProfile)
    ensures
        written(z, step_writes(dir, end_steps(p)), end_path(dir)) == match p.charge_end_threshold {
            Some(v) => Some(decimal(v as nat)),
            None => z,
        },
        written(z, step_writes(dir, start_steps(p)), end_path(dir)) == z,
        written(z, step_writes(dir, start_steps(p)), start_path(dir)) == match p.charge_start_threshold {
            Some(v) => Some(decimal(v as nat)),
            None => z,
        },
        written(z, step_writes(dir, end_steps(p)), start_path(dir)) == z,
{
    reveal_strlit("charge_control_end_threshold");
    reveal_strlit("charge_control_start_threshold");
    lemma_join_lengths_differ(dir, "charge_control_end_threshold"@, "charge_control_start_threshold"@);
    let we = step_writes(dir, end_steps(p));
    let ws = step_writes(dir, start_steps(p));
    if p.charge_end_threshold is Some {
        assert(we.drop_last() =~= Seq::<(Seq<char>, Seq<char>)>::empty());
        assert(we.last() == (end_path(dir), decimal(p.charge_end_threshold->0 as nat)));
    }
    if p.charge_start_threshold is Some {
        assert(ws.drop_last() =~= Seq::<(Seq<char>, Seq<char>)>::empty());
        assert(ws.last() == (start_path(dir), decimal(p.charge_start_threshold->0 as nat)));
    }
    lemma_written_elsewhere(z, ws, end_path(dir));
    lemma_written_elsewhere(z, we, start_path(dir));
}

/// Once the writes for a profile's thresholds are carried out, after
/// whatever was written before them, reading the battery back gives the
/// thresholds the profile asked for, and a threshold it leaves alone is not
/// touched.
pub proof fn lemma_thresholds_read_back(
    tree: Tree,
    battery: Option<Seq<char>>,
    caps: (bool, bool),
    p: HwProfile,
    before: Seq<(Seq<char>, Seq<char>)>,
    after: Tree,
)
    requires
        threshold_plan(tree, battery, caps, p) is Ok,
        battery is Some,
        after_writes(
            tree,
            before + step_writes(battery->0, threshold_plan(tree, battery, caps, p)->Ok_0),
            after,
        ),
    ensures
        p.charge_end_threshold is Some ==> after.read_u8_spec(end_path(battery->0))
            == p.charge_end_threshold,
        p.charge_start_threshold is Some ==> after.read_u8_spec(start_path(battery->0))
            == p.charge_start_threshold,
        p.charge_end_threshold is None ==> after.file(end_path(battery->0)) == written(
            tree.file(end_path(battery->0)),
            before,
            end_path(battery->0),
        ),
        p.charge_start_threshold is None ==> after.file(start_path(battery->0)) == written(
            tree.file(start_path(battery->0)),
            before,
            start_path(battery->0),
        ),
{
    let dir = battery->0;
    let e = end_path(dir);
    let st = start_path(dir);
    let steps = threshold_plan(tree, battery, caps, p)->Ok_0;
    let ze = written(tree.file(e), before, e);
    let zs = written(tree.file(st), before, st);
    let we = step_writes(dir, end_steps(p));
    let ws = step_writes(dir, start_steps(p));
    lemma_one_half_written(ze, dir, p);
    lemma_one_half_written(zs, dir, p);
    if p.charge_end_threshold is None && p.charge_start_threshold is None {
        assert(steps =~= Seq::<(bool, u8)>::empty());
        assert(step_writes(dir, steps) =~= Seq::<(Seq<char>, Seq<char>)>::empty());
    } else if raising(tree, dir, p) {
        assert(steps =~= end_steps(p) + start_steps(p));
        assert(step_writes(dir, steps) =~= we + ws);
        lemma_written_concat(ze, we, ws, e);
        lemma_written_concat(zs, we, ws, st);
        lemma_one_half_written(written(ze, we, e), dir, p);
        lemma_one_half_written(written(zs, we, st), dir, p);
    } else {
        assert(steps =~= start_steps(p) + end_steps(p));
        assert(step_writes(dir, steps) =~= ws + we);
        lemma_written_concat(ze, ws, we, e);
        lemma_written_concat(zs, ws, we, st);
        lemma_one_half_written(written(ze, ws, e), dir, p);
        lemma_one_half_written(written(zs, ws, st), dir, p);
    }
    lemma_written_concat(tree.file(e), before, step_writes(dir, steps), e);
    lemma_written_concat(tree.file(st), before, step_writes(dir, steps), st);
    assert(after.file(e) == written(tree.file(e), before + step_writes(dir, steps), e));
    assert(after.file(st) == written(tree.file(st), before + step_writes(dir, steps), st));
    if p.charge_end_threshold is Some {
        lemma_decimal_reads_back(p.charge_end_threshold->0);
    }
    if p.charge_start_threshold is Some {
        lemma_decimal_reads_back(p.charge_start_threshold->0);
    }
}

} // verus!
