//! What each power profile means in hardware terms.
//!
//! The mapping from a power profile to hardware settings is a matter of taste
//! and of the machine, so it lives in a file rather than in the code. A
//! missing file means built-in defaults, which are what the MSI hardware
//! wants. Reading and parsing the file is the caller's business; this is the
//! configuration itself.
use vstd::prelude::*;

use crate::text::chars_of;
use crate::types::{FanMode, HwProfile, PowerLevel};

verus! {

/// Keeps the fans from being held quiet while the machine cooks.
///
/// Two thresholds rather than one: a single one would flap the fan mode back
/// and forth every few seconds around the trip point.
#[derive(Debug, Clone, Copy, PartialEq, Eq, Structural)]
pub struct Thermal {
    pub enabled: bool,
    /// At or above this CPU temperature, force the fans up.
    pub high_c: u8,
    /// Release the override only once the temperature is back down to this.
    pub low_c: u8,
    /// ...and has stayed there this long.
    pub cooldown_s: u64,
}

impl Thermal {
    pub open spec fn defaults() -> Thermal {
        Thermal { enabled: true, high_c: 90, low_c: 80, cooldown_s: 30 }
    }
}

impl Default for Thermal {
    fn default() -> (r: Thermal)
        ensures
            r == Thermal::defaults(),
    {
        Thermal { enabled: true, high_c: 90, low_c: 80, cooldown_s: 30 }
    }
}

#[derive(Debug, Clone, PartialEq, Eq)]
pub struct Config {
    /// What each power-profiles-daemon profile means in hardware terms, by
    /// profile name. A table read from the configuration, and the defaults,
    /// hold each name once ([`names_unique`]); should a name repeat, the
    /// first entry is the one that counts.
    pub profiles: Vec<(String, HwProfile)>,
    /// Applied on top of the profile while running on battery.
    pub on_battery: HwProfile,
    pub thermal: Thermal,
}

/// The settings for a profile name: the first entry with that name.
pub open spec fn profile_lookup(s: Seq<(String, HwProfile)>, name: Seq<char>) -> Option<HwProfile>
    decreases s.len(),
{
    if s.len() == 0 {
        None
    } else if s[0].0@ == name {
        Some(s[0].1)
    } else {
        profile_lookup(s.drop_first(), name)
    }
}

/// The shipped profiles: one per profile power-profiles-daemon ships.
pub open spec fn default_profiles() -> Seq<(Seq<char>, HwProfile)> {
    seq![
        ("performance"@, HwProfile {
            power_level: Some(PowerLevel::Performance),
            fan_mode: Some(FanMode::Aggressive),
            battery_saver: Some(false),
            ..HwProfile::nothing()
        }),
        ("balanced"@, HwProfile {
            power_level: Some(PowerLevel::Balanced),
            fan_mode: Some(FanMode::Auto),
            battery_saver: Some(false),
            ..HwProfile::nothing()
        }),
        ("power-saver"@, HwProfile {
            power_level: Some(PowerLevel::PowerSaver),
            fan_mode: Some(FanMode::Silent),
            battery_saver: Some(true),
            ..HwProfile::nothing()
        }),
    ]
}

/// Each profile name appears once, as in a table keyed by name.
pub open spec fn names_unique(s: Seq<(String, HwProfile)>) -> bool {
    forall|i: int, j: int|
        0 <= i < j < s.len() ==> (#[trigger] s[i]).0@ != (#[trigger] s[j]).0@
}

/// In a table whose names are unique, looking up an entry's name gives that
/// entry's settings, whatever its position.
pub proof fn lemma_unique_lookup(s: Seq<(String, HwProfile)>, i: int)
    requires
        names_unique(s),
        0 <= i < s.len(),
    ensures
        profile_lookup(s, s[i].0@) == Some(s[i].1),
    decreases i,
{
    if i > 0 {
        let t = s.drop_first();
        assert(s[0].0@ != s[i].0@);
        assert forall|a: int, b: int| 0 <= a < b < t.len() implies (#[trigger] t[a]).0@
            != (#[trigger] t[b]).0@ by {
            assert(t[a] == s[a + 1] && t[b] == s[b + 1]);
        }
        assert(t[i - 1] == s[i]);
        lemma_unique_lookup(t, i - 1);
    }
}

impl Config {
    /// A configuration from a profile table, checking that each name appears
    /// once as a table keyed by name has it; `None` when a name repeats.
    pub fn new(profiles: Vec<(String, HwProfile)>, on_battery: HwProfile, thermal: Thermal) -> (r:
        Option<Config>)
        ensures
            match r {
                Some(c) => names_unique(profiles@) && c.profiles@ == profiles@ && c.on_battery
                    == on_battery && c.thermal == thermal,
                None => !names_unique(profiles@),
            },
    {
        let n = profiles.len();
        let mut i: usize = 0;
        while i < n
            invariant
                i <= n,
                n == profiles.len(),
                forall|a: int, b: int|
                    0 <= a < i && a < b < n ==> (#[trigger] profiles@[a]).0@
                        != (#[trigger] profiles@[b]).0@,
            decreases n - i,
        {
            let a = chars_of(profiles[i].0.as_str());
            let mut j: usize = i + 1;
            while j < n
                invariant
                    i < n,
                    i + 1 <= j <= n,
                    n == profiles.len(),
                    a@ == profiles@[i as int].0@,
                    forall|x: int, y: int|
                        0 <= x < i && x < y < n ==> (#[trigger] profiles@[x]).0@
                            != (#[trigger] profiles@[y]).0@,
                    forall|y: int| i < y < j ==> profiles@[i as int].0@ != (#[trigger] profiles@[y]).0@,
                decreases n - j,
            {
                if crate::text::chars_eq(&a, &chars_of(profiles[j].0.as_str())) {
                    assert(profiles@[i as int].0@ == profiles@[j as int].0@);
                    return None;
                }
                j += 1;
            }
            i += 1;
        }
        Some(Config { profiles, on_battery, thermal })
    }

    pub open spec fn named_profiles(&self) -> Seq<(Seq<char>, HwProfile)> {
        self.profiles@.map_values(|e: (String, HwProfile)| (e.0@, e.1))
    }

    /// The hardware settings for a profile name.
    ///
    /// An unknown name means a newer power-profiles-daemon grew a profile we
    /// have never heard of; leaving the hardware alone beats guessing.
    pub fn for_profile(&self, name: &str) -> (r: Option<HwProfile>)
        ensures
            r == profile_lookup(self.profiles@, name@),
    {
        let wanted = chars_of(name);
        let ghost all = self.profiles@;
        let mut i: usize = 0;
        assert(all.subrange(0, all.len() as int) =~= all);
        while i < self.profiles.len()
            invariant
                i <= self.profiles.len(),
                all == self.profiles@,
                wanted@ == name@,
                profile_lookup(all, name@) == profile_lookup(all.subrange(i as int, all.len() as int), name@),
            decreases self.profiles.len() - i,
        {
            let ghost rest = all.subrange(i as int, all.len() as int);
            assert(rest[0] == all[i as int]);
            assert(rest.drop_first() =~= all.subrange(i + 1, all.len() as int));
            if crate::text::chars_eq(&chars_of(self.profiles[i].0.as_str()), &wanted) {
                return Some(self.profiles[i].1);
            }
            i += 1;
        }
        None
    }
}

impl Default for Config {
    fn default() -> (r: Config)
        ensures
            r.named_profiles() == default_profiles(),
            names_unique(r.profiles@),
            r.on_battery == HwProfile::nothing(),
            r.thermal == Thermal::defaults(),
    {
        let mut profiles: Vec<(String, HwProfile)> = Vec::new();
        profiles.push(
            (
                "performance".to_owned(),
                HwProfile {
                    power_level: Some(PowerLevel::Performance),
                    fan_mode: Some(FanMode::Aggressive),
                    battery_saver: Some(false),
                    ..HwProfile::default()
                },
            ),
        );
        profiles.push(
            (
                "balanced".to_owned(),
                HwProfile {
                    power_level: Some(PowerLevel::Balanced),
                    fan_mode: Some(FanMode::Auto),
                    battery_saver: Some(false),
                    ..HwProfile::default()
                },
            ),
        );
        profiles.push(
            (
                "power-saver".to_owned(),
                HwProfile {
                    power_level: Some(PowerLevel::PowerSaver),
                    fan_mode: Some(FanMode::Silent),
                    battery_saver: Some(true),
                    ..HwProfile::default()
                },
            ),
        );
        let r = Config {
            profiles,
            // Nothing by default: overriding the user's chosen profile the
            // moment they unplug is a surprise, not a feature. Opt in.
            on_battery: HwProfile::default(),
            thermal: Thermal::default(),
        };
        assert(r.named_profiles() =~= default_profiles());
        proof {
            reveal_strlit("performance");
            reveal_strlit("balanced");
            reveal_strlit("power-saver");
            assert(r.profiles@[0].0@ == "performance"@);
            assert(r.profiles@[1].0@ == "balanced"@);
            assert(r.profiles@[2].0@ == "power-saver"@);
            assert("performance"@[1] != "power-saver"@[1]);
        }
        r
    }
}

/// Looking a name up in the named list gives the same as the stored list.
pub proof fn lemma_lookup_named(s: Seq<(String, HwProfile)>, name: Seq<char>)
    ensures
        profile_lookup(s, name) == named_lookup(
            s.map_values(|e: (String, HwProfile)| (e.0@, e.1)),
            name,
        ),
    decreases s.len(),
{
    if s.len() > 0 {
        assert(s.drop_first().map_values(|e: (String, HwProfile)| (e.0@, e.1)) =~= s.map_values(
            |e: (String, HwProfile)| (e.0@, e.1),
        ).drop_first());
        lemma_lookup_named(s.drop_first(), name);
    }
}

/// The settings for a name in a list of named profiles.
pub open spec fn named_lookup(s: Seq<(Seq<char>, HwProfile)>, name: Seq<char>) -> Option<HwProfile>
    decreases s.len(),
{
    if s.len() == 0 {
        None
    } else if s[0].0 == name {
        Some(s[0].1)
    } else {
        named_lookup(s.drop_first(), name)
    }
}

/// The defaults cover every profile power-profiles-daemon ships, and map
/// nothing else.
pub proof fn lemma_defaults_cover_ppd(name: Seq<char>)
    ensures
        (name == "performance"@ || name == "balanced"@ || name == "power-saver"@) <==> named_lookup(
            default_profiles(),
            name,
        ) is Some,
{
    let d = default_profiles();
    reveal_strlit("performance");
    reveal_strlit("balanced");
    reveal_strlit("power-saver");
    let d1 = d.drop_first();
    let d2 = d1.drop_first();
    let d3 = d2.drop_first();
    assert(d3 =~= Seq::<(Seq<char>, HwProfile)>::empty());
    assert(d1[0] == d[1]);
    assert(d2[0] == d[2]);
    assert(named_lookup(d3, name) is None);
    assert(named_lookup(d2, name) == if d[2].0 == name { Some(d[2].1) } else { named_lookup(d3, name) });
    assert(named_lookup(d1, name) == if d[1].0 == name { Some(d[1].1) } else { named_lookup(d2, name) });
    assert(named_lookup(d, name) == if d[0].0 == name { Some(d[0].1) } else { named_lookup(d1, name) });
}

} // verus!
