//! Who else on this machine writes the charge threshold.
//!
//! A charge limit is the one setting here that silently disappears: another
//! unit rewrites the attribute at boot, the user's 80% is back at 100%, and
//! nothing says why. Rather than fight over the attribute, the daemon asks
//! systemd once which unit files match the known writers and reports the
//! enabled ones; this module decides which of systemd's answers count.
use vstd::prelude::*;

use crate::text::{
    chars_eq, chars_of, insert_sorted, split, split_on, string_of, string_views, strictly_sorted,
    views,
};

verus! {

/// Units known to write a charge threshold of their own: Omarchy's own,
/// which hard-codes a value at every boot, and TLP. A list rather than a
/// heuristic: guessing from unit names would flag every service with
/// "battery" in it.
pub open spec fn known_writer(name: Seq<char>) -> bool {
    name == "battery-charge-threshold.service"@ || name == "tlp.service"@
}

/// Unit file states that mean the unit actually runs. `static` and
/// `disabled` units are installed but never pulled in by anything.
pub open spec fn active_state(state: Seq<char>) -> bool {
    state == "enabled"@ || state == "enabled-runtime"@ || state == "linked"@ || state
        == "linked-runtime"@
}

/// The last `/`-separated component of a path.
pub open spec fn base_name(path: Seq<char>) -> Seq<char> {
    split_on(path, '/').last()
}

/// systemd answers with full paths; the name is what a user types.
pub open spec fn unit_name_spec(path: Seq<char>) -> Option<Seq<char>> {
    if known_writer(base_name(path)) {
        Some(base_name(path))
    } else {
        None
    }
}

/// The unit names among systemd's `(path, state)` answers that will run.
pub open spec fn enabled_set(files: Seq<(String, String)>) -> Set<Seq<char>> {
    Set::new(
        |n: Seq<char>|
            exists|i: int|
                0 <= i < files.len() && active_state(#[trigger] files[i].1@) && unit_name_spec(
                    files[i].0@,
                ) == Some(n),
    )
}

/// The unit names to ask systemd about: exactly the known writers.
pub fn known_writers() -> (r: Vec<&'static str>)
    ensures
        r@.len() == 2,
        forall|i: int| 0 <= i < r@.len() ==> known_writer(#[trigger] r@[i]@),
        forall|n: Seq<char>| known_writer(n) ==> exists|i: int| 0 <= i < r@.len() && #[trigger] r@[i]@ == n,
{
    let r = vec!["battery-charge-threshold.service", "tlp.service"];
    assert(r@[0]@ == "battery-charge-threshold.service"@);
    assert(r@[1]@ == "tlp.service"@);
    r
}

fn is_known(name: &[char]) -> (r: bool)
    ensures
        r == known_writer(name@),
{
    chars_eq(name, &chars_of("battery-charge-threshold.service")) || chars_eq(
        name,
        &chars_of("tlp.service"),
    )
}

fn is_active(state: &str) -> (r: bool)
    ensures
        r == active_state(state@),
{
    let s = chars_of(state);
    chars_eq(&s, &chars_of("enabled")) || chars_eq(&s, &chars_of("enabled-runtime")) || chars_eq(
        &s,
        &chars_of("linked"),
    ) || chars_eq(&s, &chars_of("linked-runtime"))
}

/// systemd answers with full paths; the name is what a user types.
pub fn unit_name(path: &str) -> (r: Option<String>)
    ensures
        match r {
            Some(n) => unit_name_spec(path@) == Some(n@),
            None => unit_name_spec(path@) is None,
        },
{
    let pieces = split(&chars_of(path), '/');
    proof {
        crate::text::lemma_split_nonempty(path@, '/', 0, Seq::empty());
    }
    let last = &pieces[pieces.len() - 1];
    assert(views(pieces@).last() == last@);
    if is_known(last) {
        Some(string_of(last))
    } else {
        None
    }
}

fn unit_name_chars(path: &str) -> (r: Option<Vec<char>>)
    ensures
        match r {
            Some(n) => unit_name_spec(path@) == Some(n@),
            None => unit_name_spec(path@) is None,
        },
{
    let pieces = split(&chars_of(path), '/');
    proof {
        crate::text::lemma_split_nonempty(path@, '/', 0, Seq::empty());
    }
    let last = &pieces[pieces.len() - 1];
    assert(views(pieces@).last() == last@);
    if is_known(last) {
        Some(crate::text::copy_chars(last))
    } else {
        None
    }
}

/// Reduce systemd's answer to the unit names that will run, sorted and
/// without repeats, so the warning line does not reshuffle between reads.
pub fn enabled_writers(files: &[(String, String)]) -> (r: Vec<String>)
    ensures
        strictly_sorted(string_views(r@)),
        forall|n: Seq<char>| #[trigger]
            string_views(r@).contains(n) <==> enabled_set(files@).contains(n),
{
    let mut names: Vec<Vec<char>> = Vec::new();
    let mut i: usize = 0;
    while i < files.len()
        invariant
            i <= files.len(),
            strictly_sorted(views(names@)),
            forall|n: Seq<char>| #[trigger]
                views(names@).contains(n) <==> exists|j: int|
                    0 <= j < i && active_state(#[trigger] files@[j].1@) && unit_name_spec(
                        files@[j].0@,
                    ) == Some(n),
        decreases files.len() - i,
    {
        if is_active(files[i].1.as_str()) {
            match unit_name_chars(files[i].0.as_str()) {
                Some(n) => {
                    let ghost nv = n@;
                    insert_sorted(&mut names, n);
                    proof {
                        assert forall|m: Seq<char>| #[trigger]
                            views(names@).contains(m) <==> exists|j: int|
                                0 <= j < i + 1 && active_state(#[trigger] files@[j].1@)
                                    && unit_name_spec(files@[j].0@) == Some(m) by {
                            if exists|j: int|
                                0 <= j < i + 1 && active_state(#[trigger] files@[j].1@)
                                    && unit_name_spec(files@[j].0@) == Some(m) {
                                let j = choose|j: int|
                                    0 <= j < i + 1 && active_state(#[trigger] files@[j].1@)
                                        && unit_name_spec(files@[j].0@) == Some(m);
                                if j < i {
                                    assert(exists|j: int|
                                        0 <= j < i && active_state(#[trigger] files@[j].1@)
                                            && unit_name_spec(files@[j].0@) == Some(m));
                                }
                            }
                        }
                    }
                },
                None => {
                    proof {
                        assert forall|m: Seq<char>| #[trigger]
                            views(names@).contains(m) <==> exists|j: int|
                                0 <= j < i + 1 && active_state(#[trigger] files@[j].1@)
                                    && unit_name_spec(files@[j].0@) == Some(m) by {
                            if exists|j: int|
                                0 <= j < i + 1 && active_state(#[trigger] files@[j].1@)
                                    && unit_name_spec(files@[j].0@) == Some(m) {
                                let j = choose|j: int|
                                    0 <= j < i + 1 && active_state(#[trigger] files@[j].1@)
                                        && unit_name_spec(files@[j].0@) == Some(m);
                                if j < i {
                                    assert(exists|j: int|
                                        0 <= j < i && active_state(#[trigger] files@[j].1@)
                                            && unit_name_spec(files@[j].0@) == Some(m));
                                }
                            }
                        }
                    }
                },
            }
        } else {
            proof {
                assert forall|m: Seq<char>| #[trigger]
                    views(names@).contains(m) <==> exists|j: int|
                        0 <= j < i + 1 && active_state(#[trigger] files@[j].1@) && unit_name_spec(
                            files@[j].0@,
                        ) == Some(m) by {
                    if exists|j: int|
                        0 <= j < i + 1 && active_state(#[trigger] files@[j].1@) && unit_name_spec(
                            files@[j].0@,
                        ) == Some(m) {
                        let j = choose|j: int|
                            0 <= j < i + 1 && active_state(#[trigger] files@[j].1@)
                                && unit_name_spec(files@[j].0@) == Some(m);
                        if j < i {
                            assert(exists|j: int|
                                0 <= j < i && active_state(#[trigger] files@[j].1@)
                                    && unit_name_spec(files@[j].0@) == Some(m));
                        }
                    }
                }
            }
        }
        i += 1;
    }
    let mut out: Vec<String> = Vec::new();
    let mut k: usize = 0;
    while k < names.len()
        invariant
            k <= names.len(),
            out@.len() == k,
            forall|x: int| 0 <= x < k ==> #[trigger] out@[x]@ == names@[x]@,
        decreases names.len() - k,
    {
        out.push(string_of(&names[k]));
        k += 1;
    }
    proof {
        let a = string_views(out@);
        assert(a =~= views(names@));
        assert forall|n: Seq<char>| #[trigger] a.contains(n) <==> enabled_set(files@).contains(n) by {
            if a.contains(n) {
                let j = choose|j: int|
                    0 <= j < files.len() && active_state(#[trigger] files@[j].1@) && unit_name_spec(
                        files@[j].0@,
                    ) == Some(n);
            }
        }
    }
    out
}

} // verus!
