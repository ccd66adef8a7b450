//! Following the window you are actually working in.
//!
//! A rule says which window class deserves which power profile, and a
//! watcher in the user's session follows the compositor and holds that
//! profile through power-profiles-daemon. A hold ends by itself if the
//! watcher dies, which a direct write would not. This module is the rules,
//! the reading of the compositor's messages, and the bookkeeping of the one
//! hold the watcher owns.
use vstd::prelude::*;

use crate::text::{
    chars_eq, chars_of, lex_less, lex_lt, split, split_on, starts_with, string_of, tail_from,
    trim, trimmed, views,
};

verus! {

/// A window-class rule table: a class, or a prefix ending in `*`, mapped to
/// the profile it deserves; plus what to hold when nothing matches.
pub struct Rules {
    /// What to hold when nothing matches. `None` means "hold nothing".
    default: Option<String>,
    /// Sorted by class pattern, each pattern once.
    classes: Vec<(String, String)>,
}

/// The pattern without its trailing `*`s, whose length ranks a match.
pub open spec fn trim_stars(p: Seq<char>) -> Seq<char>
    decreases p.len(),
{
    if p.len() > 0 && p.last() == '*' {
        trim_stars(p.drop_last())
    } else {
        p
    }
}

/// A key ending in `*` matches any class starting with the rest of it;
/// any other key matches only itself.
pub open spec fn pattern_matches(pattern: Seq<char>, class: Seq<char>) -> bool {
    if pattern.len() > 0 && pattern.last() == '*' {
        let prefix = pattern.drop_last();
        prefix.len() <= class.len() && class.subrange(0, prefix.len() as int) == prefix
    } else {
        pattern == class
    }
}

/// A key ending in `*`, which matches by prefix.
pub open spec fn is_pattern(key: Seq<char>) -> bool {
    key.len() > 0 && key.last() == '*'
}

/// Whether key `p` ranks at least as high as key `q`: a longer match wins,
/// and on equal length an exact key wins over a pattern.
pub open spec fn ranks_over(p: Seq<char>, q: Seq<char>) -> bool {
    trim_stars(p).len() > trim_stars(q).len() || (trim_stars(p).len() == trim_stars(q).len() && (
    !is_pattern(p) || is_pattern(q)))
}

/// Of the first `n` rules, the index of the best match: the longest, an
/// exact key before a pattern of the same length (among patterns of the
/// same length, the last in key order).
pub open spec fn best_upto(rules: Seq<(String, String)>, class: Seq<char>, n: int) -> Option<int>
    decreases n,
{
    if n <= 0 {
        None
    } else {
        let b = best_upto(rules, class, n - 1);
        let p = rules[n - 1].0@;
        if pattern_matches(p, class) && match b {
            Some(i) => ranks_over(p, rules[i].0@),
            None => true,
        } {
            Some(n - 1)
        } else {
            b
        }
    }
}

pub open spec fn sorted_keys(rules: Seq<(String, String)>) -> bool {
    forall|i: int, j: int|
        0 <= i < j < rules.len() ==> lex_lt(#[trigger] rules[i].0@, #[trigger] rules[j].0@)
}

pub open spec fn opt_string(o: Option<String>) -> Option<Seq<char>> {
    match o {
        Some(s) => Some(s@),
        None => None,
    }
}

impl Rules {
    pub closed spec fn rules_spec(&self) -> Seq<(String, String)> {
        self.classes@
    }

    pub closed spec fn default_spec(&self) -> Option<Seq<char>> {
        opt_string(self.default)
    }

    /// The rules as a table keyed by pattern: sorted, each pattern once.
    pub closed spec fn wf(&self) -> bool {
        sorted_keys(self.classes@)
    }

    /// The profile `profile_for` picks.
    pub open spec fn pick(&self, class: Seq<char>) -> Option<Seq<char>> {
        match best_upto(self.rules_spec(), class, self.rules_spec().len() as int) {
            Some(i) => Some(self.rules_spec()[i].1@),
            None => self.default_spec(),
        }
    }

    /// A rule table from rules sorted by pattern, each pattern once, as a
    /// table read from the rules file holds them; `None` when they are not.
    pub fn new(default: Option<String>, classes: Vec<(String, String)>) -> (r: Option<Rules>)
        ensures
            match r {
                Some(rules) => sorted_keys(classes@) && rules.rules_spec() == classes@
                    && rules.default_spec() == opt_string(default),
                None => !sorted_keys(classes@),
            },
    {
        let n = classes.len();
        let mut i: usize = 0;
        while i < n
            invariant
                i <= n,
                n == classes.len(),
                forall|a: int, b: int|
                    0 <= a < i && a < b < n ==> lex_lt(#[trigger] classes@[a].0@, #[trigger] classes@[b].0@),
            decreases n - i,
        {
            let ka = chars_of(classes[i].0.as_str());
            let mut j: usize = i + 1;
            while j < n
                invariant
                    i < n,
                    i + 1 <= j <= n,
                    n == classes.len(),
                    ka@ == classes@[i as int].0@,
                    forall|a: int, b: int|
                        0 <= a < i && a < b < n ==> lex_lt(#[trigger] classes@[a].0@, #[trigger] classes@[b].0@),
                    forall|b: int| i < b < j ==> lex_lt(classes@[i as int].0@, #[trigger] classes@[b].0@),
                decreases n - j,
            {
                if !lex_less(&ka, &chars_of(classes[j].0.as_str())) {
                    return None;
                }
                j += 1;
            }
            i += 1;
        }
        Some(Rules { default, classes })
    }

    /// The profile for a window class, or the default.
    ///
    /// A key ending in `*` matches any class starting with the rest of it,
    /// and the longest match wins, an exact key before a pattern of the same
    /// length. That way `steam_app_*` and `steam_app_570` (or `foot` and
    /// `foot*`) can both appear and the specific one decides.
    pub fn profile_for(&self, class: &str) -> (r: Option<String>)
        ensures
            opt_string(r) == self.pick(class@),
    {
        let c = chars_of(class);
        let mut best: Option<usize> = None;
        let mut best_len: usize = 0;
        let mut best_pattern = false;
        let mut i: usize = 0;
        while i < self.classes.len()
            invariant
                i <= self.classes.len(),
                c@ == class@,
                match best_upto(self.classes@, class@, i as int) {
                    Some(k) => 0 <= k < i && best == Some(k as usize),
                    None => best is None,
                },
                best matches Some(k) ==> best_len == trim_stars(self.classes@[k as int].0@).len()
                    && best_pattern == is_pattern(self.classes@[k as int].0@),
            decreases self.classes.len() - i,
        {
            let p = chars_of(self.classes[i].0.as_str());
            proof {
                lemma_best_is_longest(self.classes@, class@, i as int);
            }
            if matches(&p, &c) {
                let w = stars_trimmed_len(&p);
                let p_pattern = p.len() > 0 && p[p.len() - 1] == '*';
                let take = match best {
                    Some(_) => w > best_len || (w == best_len && (!p_pattern || best_pattern)),
                    None => true,
                };
                if take {
                    best = Some(i);
                    best_len = w;
                    best_pattern = p_pattern;
                }
            }
            i += 1;
        }
        proof {
            lemma_best_is_longest(self.classes@, class@, self.classes@.len() as int);
        }
        match best {
            Some(k) => Some(clone_string(&self.classes[k].1)),
            None => match &self.default {
                Some(d) => Some(clone_string(d)),
                None => None,
            },
        }
    }
}

fn clone_string(s: &String) -> (r: String)
    ensures
        r@ == s@,
{
    string_of(&chars_of(s.as_str()))
}

/// Whether `pattern` matches `class`.
pub fn matches(pattern: &[char], class: &[char]) -> (r: bool)
    ensures
        r == pattern_matches(pattern@, class@),
{
    let n = pattern.len();
    if n > 0 && pattern[n - 1] == '*' {
        let prefix = crate::text::slice_range(pattern, 0, n - 1);
        assert(prefix@ =~= pattern@.drop_last());
        starts_with(class, &prefix)
    } else {
        chars_eq(pattern, class)
    }
}

/// The length of a pattern once its trailing `*`s are gone.
fn stars_trimmed_len(p: &[char]) -> (r: usize)
    ensures
        r == trim_stars(p@).len(),
{
    let mut n = p.len();
    proof {
        assert(p@.subrange(0, p@.len() as int) =~= p@);
    }
    while n > 0 && p[n - 1] == '*'
        invariant
            n <= p.len(),
            trim_stars(p@) == trim_stars(p@.subrange(0, n as int)),
        decreases n,
    {
        let ghost s = p@.subrange(0, n as int);
        assert(s.drop_last() =~= p@.subrange(0, n - 1));
        n -= 1;
    }
    let ghost s = p@.subrange(0, n as int);
    assert(s.len() == 0 || s.last() != '*');
    n
}

/// The best match is a matching rule, and no matching rule ranks higher.
pub proof fn lemma_best_is_longest(rules: Seq<(String, String)>, class: Seq<char>, n: int)
    requires
        0 <= n <= rules.len(),
    ensures
        match best_upto(rules, class, n) {
            Some(i) => 0 <= i < n && pattern_matches(rules[i].0@, class) && forall|j: int|
                0 <= j < n && pattern_matches(#[trigger] rules[j].0@, class) ==> trim_stars(
                    rules[j].0@,
                ).len() <= trim_stars(rules[i].0@).len(),
            None => forall|j: int| 0 <= j < n ==> !pattern_matches(#[trigger] rules[j].0@, class),
        },
    decreases n,
{
    if n > 0 {
        lemma_best_is_longest(rules, class, n - 1);
    }
}

/// A class's own rule wins over every pattern that also matches it,
/// whatever the patterns: a key equal to the class (and so not itself a
/// pattern) decides.
pub proof fn lemma_exact_rule_wins(rules: Seq<(String, String)>, class: Seq<char>, e: int)
    requires
        sorted_keys(rules),
        0 <= e < rules.len(),
        rules[e].0@ == class,
        !is_pattern(class),
    ensures
        best_upto(rules, class, rules.len() as int) == Some(e),
{
    lemma_exact_wins_upto(rules, class, e, rules.len() as int);
}

proof fn lemma_trim_stars_prefix(p: Seq<char>)
    ensures
        trim_stars(p).len() <= p.len(),
        p.subrange(0, trim_stars(p).len() as int) == trim_stars(p),
        trim_stars(p).len() == 0 || trim_stars(p).last() != '*',
        forall|k: int| trim_stars(p).len() <= k < p.len() ==> p[k] == '*',
    decreases p.len(),
{
    if p.len() > 0 && p.last() == '*' {
        lemma_trim_stars_prefix(p.drop_last());
        let t = trim_stars(p.drop_last());
        assert(p.subrange(0, t.len() as int) =~= p.drop_last().subrange(0, t.len() as int));
        assert forall|k: int| t.len() <= k < p.len() implies p[k] == '*' by {
            if k < p.len() - 1 {
                assert(p.drop_last()[k] == p[k]);
            }
        }
    } else {
        assert(p.subrange(0, p.len() as int) =~= p);
    }
}

/// A pattern that matches a class ranks no higher than the class's length,
/// and ranks exactly that only when it is the class followed by `*`s.
proof fn lemma_match_rank(p: Seq<char>, class: Seq<char>)
    requires
        pattern_matches(p, class),
        class.len() == 0 || class.last() != '*',
    ensures
        trim_stars(p).len() <= class.len(),
        trim_stars(p).len() == class.len() ==> trim_stars(p) == class,
{
    lemma_trim_stars_prefix(p);
    let t = trim_stars(p);
    if p.len() > 0 && p.last() == '*' {
        let prefix = p.drop_last();
        lemma_trim_stars_prefix(prefix);
        assert(trim_stars(p) == trim_stars(prefix));
        assert(prefix.subrange(0, t.len() as int) == t);
        assert(class.subrange(0, prefix.len() as int) == prefix);
        assert(class.subrange(0, t.len() as int) =~= t) by {
            assert forall|k: int| 0 <= k < t.len() implies class[k] == t[k] by {
                assert(class.subrange(0, prefix.len() as int)[k] == prefix[k]);
                assert(prefix.subrange(0, t.len() as int)[k] == t[k]);
            }
        }
        if t.len() == class.len() {
            assert(class.subrange(0, class.len() as int) =~= class);
        }
    } else {
        assert(t == p);
    }
}

proof fn lemma_exact_wins_upto(rules: Seq<(String, String)>, class: Seq<char>, e: int, n: int)
    requires
        sorted_keys(rules),
        0 <= e < rules.len(),
        e < n <= rules.len(),
        rules[e].0@ == class,
        !is_pattern(class),
    ensures
        best_upto(rules, class, n) == Some(e),
    decreases n,
{
    assert(trim_stars(class) == class) by {
        lemma_trim_stars_prefix(class);
        if class.len() > 0 {
            assert(class.last() != '*');
        }
    }
    if n == e + 1 {
        lemma_best_is_longest(rules, class, e);
        match best_upto(rules, class, e) {
            Some(i) => {
                lemma_match_rank(rules[i].0@, class);
            },
            None => {},
        }
    } else {
        lemma_exact_wins_upto(rules, class, e, n - 1);
        let p = rules[n - 1].0@;
        if pattern_matches(p, class) {
            lemma_match_rank(p, class);
            if !is_pattern(p) {
                assert(p == class);
                assert(lex_lt(rules[e].0@, rules[n - 1].0@));
                crate::text::lemma_lex_irreflexive(class);
            }
        }
    }
}

/// The class in a compositor reply line: the line, trimmed, after
/// `class: `.
pub open spec fn class_line(line: Seq<char>) -> Option<Seq<char>> {
    let t = trim(line);
    if t.len() >= 7 && t.subrange(0, 7) == "class: "@ {
        Some(t.subrange(7, t.len() as int))
    } else {
        None
    }
}

/// The first line of a reply that carries a class.
pub open spec fn first_class(lines: Seq<Seq<char>>) -> Option<Seq<char>>
    decreases lines.len(),
{
    if lines.len() == 0 {
        None
    } else {
        match class_line(lines[0]) {
            Some(c) => Some(c),
            None => first_class(lines.drop_first()),
        }
    }
}

/// The class in a reply to `activewindow`; an empty class is none.
pub open spec fn class_in_reply_spec(reply: Seq<char>) -> Option<Seq<char>> {
    match first_class(split_on(reply, '\n')) {
        Some(c) => if c.len() > 0 {
            Some(c)
        } else {
            None
        },
        None => None,
    }
}

/// Pull the class out of the compositor's reply to `activewindow`.
///
/// The reply is an indented block of `key: value` lines. `initialClass` is
/// deliberately not accepted: a window that changed its class since mapping
/// should be matched on what it is now.
pub fn class_in_reply(reply: &str) -> (r: Option<String>)
    ensures
        opt_string(r) == class_in_reply_spec(reply@),
{
    let lines = split(&chars_of(reply), '\n');
    let ghost ls = views(lines@);
    let prefix = chars_of("class: ");
    proof {
        reveal_strlit("class: ");
    }
    assert(ls.subrange(0, ls.len() as int) =~= ls);
    let mut i: usize = 0;
    while i < lines.len()
        invariant
            i <= lines.len(),
            ls == views(lines@),
            ls == split_on(reply@, '\n'),
            prefix@ == "class: "@,
            prefix@.len() == 7,
            first_class(ls) == first_class(ls.subrange(i as int, ls.len() as int)),
        decreases lines.len() - i,
    {
        let ghost rest = ls.subrange(i as int, ls.len() as int);
        assert(rest[0] == lines@[i as int]@);
        assert(rest.drop_first() =~= ls.subrange(i + 1, ls.len() as int));
        let t = trimmed(&lines[i]);
        if starts_with(&t, &prefix) {
            let c = tail_from(&t, prefix.len());
            assert(t@ == trim(rest[0]));
            assert(t@.subrange(0, 7) == "class: "@);
            assert(class_line(rest[0]) == Some(c@));
            assert(first_class(rest) == Some(c@));
            if c.len() > 0 {
                return Some(string_of(&c));
            } else {
                return None;
            }
        }
        i += 1;
    }
    None
}

/// The class in an `activewindow>>class,title` event line: everything up to
/// the first comma (titles contain commas, classes never do). An empty class
/// means the last window closed. Any other line is not such an event.
pub open spec fn active_class_spec(line: Seq<char>) -> Option<Seq<char>> {
    let prefix = "activewindow>>"@;
    if prefix.len() <= line.len() && line.subrange(0, prefix.len() as int) == prefix {
        Some(split_on(line.subrange(prefix.len() as int, line.len() as int), ',')[0])
    } else {
        None
    }
}

/// The window class in an `activewindow` event, if the line is one.
pub fn active_class(line: &str) -> (r: Option<String>)
    ensures
        opt_string(r) == active_class_spec(line@),
{
    let l = chars_of(line);
    let prefix = chars_of("activewindow>>");
    if !starts_with(&l, &prefix) {
        return None;
    }
    let payload = tail_from(&l, prefix.len());
    let pieces = split(&payload, ',');
    proof {
        crate::text::lemma_split_nonempty(payload@, ',', 0, Seq::empty());
        assert(views(pieces@)[0] == pieces@[0]@);
    }
    Some(string_of(&pieces[0]))
}

/// What following a window asks of power-profiles-daemon: release the old
/// hold (by its cookie), then hold a profile.
#[derive(Debug, Clone, PartialEq, Eq)]
pub struct HoldStep {
    pub release: Option<u32>,
    pub hold: Option<String>,
}

/// The one profile hold this watcher owns, moved from profile to profile.
pub struct Hold {
    /// The cookie power-profiles-daemon gave us, and the profile it holds.
    current: Option<(u32, String)>,
}

impl Hold {
    pub closed spec fn current_spec(&self) -> Option<(u32, Seq<char>)> {
        match self.current {
            Some((c, p)) => Some((c, p@)),
            None => None,
        }
    }

    pub fn new() -> (h: Hold)
        ensures
            h.current_spec() is None,
    {
        Hold { current: None }
    }

    /// Hold `wanted`, releasing whatever was held before; `None` releases
    /// and holds nothing. Nothing changes when `wanted` is already held.
    /// Release comes first: two holds of different profiles would leave
    /// power-profiles-daemon resolving between them.
    pub fn follow(&mut self, wanted: Option<&str>) -> (step: HoldStep)
        ensures
            ({
                let held = match old(self).current_spec() {
                    Some((_, p)) => Some(p),
                    None => None,
                };
                let w = match wanted {
                    Some(s) => Some(s@),
                    None => None,
                };
                if w == held {
                    step.release is None && step.hold is None && final(self).current_spec()
                        == old(self).current_spec()
                } else {
                    &&& step.release == match old(self).current_spec() {
                        Some((c, _)) => Some(c),
                        None => None,
                    }
                    &&& opt_string(step.hold) == w
                    &&& final(self).current_spec() is None
                }
            }),
    {
        let same = match (&self.current, wanted) {
            (Some((_, p)), Some(w)) => chars_eq(&chars_of(p.as_str()), &chars_of(w)),
            (None, None) => true,
            _ => false,
        };
        if same {
            return HoldStep { release: None, hold: None };
        }
        let release = match &self.current {
            Some((c, _)) => Some(*c),
            None => None,
        };
        self.current = None;
        let hold = match wanted {
            Some(w) => Some(w.to_owned()),
            None => None,
        };
        HoldStep { release, hold }
    }

    /// power-profiles-daemon granted a hold of `profile` under `cookie`.
    pub fn held(&mut self, cookie: u32, profile: &str)
        ensures
            final(self).current_spec() == Some((cookie, profile@)),
    {
        self.current = Some((cookie, profile.to_owned()));
    }
}

} // verus!
