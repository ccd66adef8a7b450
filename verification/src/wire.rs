//! The encoding of a snapshot for the bus.
//!
//! The bus has no optional type, and every reading here is optional: laptops
//! differ in what they expose, and a sensor that is missing must not be
//! confused with one reading zero. So a snapshot travels as a dictionary in
//! which a key is simply absent when the machine does not report it. Both
//! the daemon and the client use these functions, so the key names have one
//! definition rather than two that drift apart. Turning a [`WireDict`] into
//! the bus's own value type and back is a one-for-one conversion left to the
//! caller.
use vstd::prelude::*;

use crate::gpu::Gpu;
use crate::text::{chars_eq, chars_of};
use crate::types::{Battery, Capabilities, FanMode, HwState, PowerLevel, Sensors};

verus! {

/// One value on the bus, by its type there.
#[derive(Debug, Clone, PartialEq, Eq)]
pub enum WireValue {
    Str(String),
    Bool(bool),
    U8(u8),
    U16(u16),
    U32(u32),
    U32List(Vec<u32>),
    /// A value of a type this encoding never sends.
    Other,
}

/// A [`WireValue`] with its contents as plain values.
pub enum ValueView {
    Str(Seq<char>),
    Bool(bool),
    U8(u8),
    U16(u16),
    U32(u32),
    U32List(Seq<u32>),
    Other,
}

impl View for WireValue {
    type V = ValueView;

    open spec fn view(&self) -> ValueView {
        match self {
            WireValue::Str(s) => ValueView::Str(s@),
            WireValue::Bool(b) => ValueView::Bool(*b),
            WireValue::U8(v) => ValueView::U8(*v),
            WireValue::U16(v) => ValueView::U16(*v),
            WireValue::U32(v) => ValueView::U32(*v),
            WireValue::U32List(v) => ValueView::U32List(v@),
            WireValue::Other => ValueView::Other,
        }
    }
}

/// A dictionary of values by key, as the bus carries it.
#[derive(Debug, Clone, PartialEq, Eq)]
pub struct WireDict {
    entries: Vec<(String, WireValue)>,
}

/// The value of the first entry with key `k`.
pub open spec fn dict_lookup(s: Seq<(String, WireValue)>, k: Seq<char>) -> Option<ValueView>
    decreases s.len(),
{
    if s.len() == 0 {
        None
    } else if s[0].0@ == k {
        Some(s[0].1@)
    } else {
        dict_lookup(s.drop_first(), k)
    }
}

proof fn lemma_dict_skip(s: Seq<(String, WireValue)>, k: Seq<char>, i: int)
    requires
        0 <= i <= s.len(),
        forall|j: int| 0 <= j < i ==> #[trigger] s[j].0@ != k,
    ensures
        dict_lookup(s, k) == dict_lookup(s.subrange(i, s.len() as int), k),
    decreases i,
{
    if i > 0 {
        let t = s.drop_first();
        assert forall|j: int| 0 <= j < i - 1 implies #[trigger] t[j].0@ != k by {
            assert(t[j] == s[j + 1]);
        }
        lemma_dict_skip(t, k, i - 1);
        assert(t.subrange(i - 1, t.len() as int) =~= s.subrange(i, s.len() as int));
    } else {
        assert(s.subrange(0, s.len() as int) =~= s);
    }
}

proof fn lemma_dict_push(s: Seq<(String, WireValue)>, e: (String, WireValue), k: Seq<char>)
    requires
        forall|j: int| 0 <= j < s.len() ==> #[trigger] s[j].0@ != e.0@,
    ensures
        dict_lookup(s.push(e), k) == if k == e.0@ {
            Some(e.1@)
        } else {
            dict_lookup(s, k)
        },
    decreases s.len(),
{
    if s.len() > 0 {
        assert(s.push(e).drop_first() =~= s.drop_first().push(e));
        assert(s.push(e)[0] == s[0]);
        assert forall|j: int| 0 <= j < s.drop_first().len() implies #[trigger] s.drop_first()[j].0@
            != e.0@ by {
            assert(s.drop_first()[j] == s[j + 1]);
        }
        lemma_dict_push(s.drop_first(), e, k);
    } else {
        assert(s.push(e).drop_first() =~= Seq::<(String, WireValue)>::empty());
        assert(s.push(e)[0] == e);
        assert(dict_lookup(s.push(e).drop_first(), k) is None);
    }
}

proof fn lemma_dict_update(s: Seq<(String, WireValue)>, i: int, e: (String, WireValue), k: Seq<char>)
    requires
        0 <= i < s.len(),
        s[i].0@ == e.0@,
        forall|j: int| 0 <= j < i ==> #[trigger] s[j].0@ != e.0@,
    ensures
        dict_lookup(s.update(i, e), k) == if k == e.0@ {
            Some(e.1@)
        } else {
            dict_lookup(s, k)
        },
    decreases s.len(),
{
    if i > 0 {
        assert(s.update(i, e).drop_first() =~= s.drop_first().update(i - 1, e));
        assert forall|j: int| 0 <= j < i - 1 implies #[trigger] s.drop_first()[j].0@ != e.0@ by {
            assert(s.drop_first()[j] == s[j + 1]);
        }
        lemma_dict_update(s.drop_first(), i - 1, e, k);
    } else {
        assert(s.update(i, e).drop_first() =~= s.drop_first());
    }
}

impl WireDict {
    /// The value under key `k`.
    pub closed spec fn get_spec(&self, k: Seq<char>) -> Option<ValueView> {
        dict_lookup(self.entries@, k)
    }

    pub fn new() -> (d: WireDict)
        ensures
            forall|k: Seq<char>| d.get_spec(k) is None,
    {
        WireDict { entries: Vec::new() }
    }

    /// Sets `key` to `value`, replacing what it held.
    pub fn insert(&mut self, key: &str, value: WireValue)
        ensures
            final(self).get_spec(key@) == Some(value@),
            forall|k: Seq<char>| k != key@ ==> final(self).get_spec(k) == old(self).get_spec(k),
    {
        let wanted = chars_of(key);
        let n = self.entries.len();
        let mut i: usize = 0;
        while i < n
            invariant
                i <= n,
                n == self.entries.len(),
                wanted@ == key@,
                self.entries@ == old(self).entries@,
                forall|j: int| 0 <= j < i ==> #[trigger] self.entries@[j].0@ != key@,
            decreases n - i,
        {
            if chars_eq(&chars_of(self.entries[i].0.as_str()), &wanted) {
                let ghost before = self.entries@;
                let entry = (key.to_owned(), value);
                let ghost e = entry;
                self.entries.set(i, entry);
                proof {
                    assert forall|k: Seq<char>| #[trigger] dict_lookup(self.entries@, k) == if k
                        == e.0@ {
                        Some(e.1@)
                    } else {
                        dict_lookup(before, k)
                    } by {
                        lemma_dict_update(before, i as int, e, k);
                    }
                }
                return;
            }
            i += 1;
        }
        let ghost before = self.entries@;
        let entry = (key.to_owned(), value);
        let ghost e = entry;
        self.entries.push(entry);
        proof {
            assert forall|k: Seq<char>| #[trigger] dict_lookup(self.entries@, k) == if k == e.0@ {
                Some(e.1@)
            } else {
                dict_lookup(before, k)
            } by {
                lemma_dict_push(before, e, k);
            }
        }
    }

    /// The value under `key`, if any.
    pub fn get(&self, key: &str) -> (r: Option<&WireValue>)
        ensures
            match r {
                Some(v) => self.get_spec(key@) == Some(v@),
                None => self.get_spec(key@) is None,
            },
    {
        let wanted = chars_of(key);
        let n = self.entries.len();
        let mut i: usize = 0;
        while i < n
            invariant
                i <= n,
                n == self.entries.len(),
                wanted@ == key@,
                forall|j: int| 0 <= j < i ==> #[trigger] self.entries@[j].0@ != key@,
            decreases n - i,
        {
            if chars_eq(&chars_of(self.entries[i].0.as_str()), &wanted) {
                proof {
                    lemma_dict_skip(self.entries@, key@, i as int);
                    assert(self.entries@.subrange(i as int, n as int)[0] == self.entries@[i as int]);
                }
                return Some(&self.entries[i].1);
            }
            i += 1;
        }
        proof {
            lemma_dict_skip(self.entries@, key@, n as int);
        }
        None
    }

    /// Every entry, for handing the dictionary to the bus.
    pub fn entries(&self) -> (r: &Vec<(String, WireValue)>)
        ensures
            forall|k: Seq<char>| self.get_spec(k) == dict_lookup(r@, k),
    {
        &self.entries
    }
}

pub open spec fn key_power_level() -> Seq<char> { "power-level"@ }
pub open spec fn key_fan_mode() -> Seq<char> { "fan-mode"@ }
pub open spec fn key_cooler_boost() -> Seq<char> { "cooler-boost"@ }
pub open spec fn key_battery_saver() -> Seq<char> { "battery-saver"@ }
pub open spec fn key_cpu_temp() -> Seq<char> { "cpu-temp-c"@ }
pub open spec fn key_gpu_temp() -> Seq<char> { "gpu-temp-c"@ }
pub open spec fn key_cpu_fan() -> Seq<char> { "cpu-fan-percent"@ }
pub open spec fn key_gpu_fan() -> Seq<char> { "gpu-fan-percent"@ }
pub open spec fn key_fan_rpm() -> Seq<char> { "fan-rpm"@ }
pub open spec fn key_capacity() -> Seq<char> { "battery-capacity"@ }
pub open spec fn key_end() -> Seq<char> { "charge-end-threshold"@ }
pub open spec fn key_start() -> Seq<char> { "charge-start-threshold"@ }
pub open spec fn key_on_ac() -> Seq<char> { "on-ac"@ }
pub open spec fn key_gpu_power() -> Seq<char> { "gpu-power-w"@ }
pub open spec fn key_gpu_limit() -> Seq<char> { "gpu-power-limit-w"@ }
pub open spec fn key_gpu_clock() -> Seq<char> { "gpu-clock-mhz"@ }

pub open spec fn opt_u8(v: Option<u8>) -> Option<ValueView> {
    match v {
        Some(x) => Some(ValueView::U8(x)),
        None => None,
    }
}

pub open spec fn opt_u16(v: Option<u16>) -> Option<ValueView> {
    match v {
        Some(x) => Some(ValueView::U16(x)),
        None => None,
    }
}

pub open spec fn opt_u32(v: Option<u32>) -> Option<ValueView> {
    match v {
        Some(x) => Some(ValueView::U32(x)),
        None => None,
    }
}

pub open spec fn opt_bool(v: Option<bool>) -> Option<ValueView> {
    match v {
        Some(x) => Some(ValueView::Bool(x)),
        None => None,
    }
}

/// How a snapshot is encoded: each reading under its key, absent when the
/// hardware does not report it; the fan list always present, because an
/// empty list means "no tachometers".
pub open spec fn encodes_state(d: WireDict, s: HwState) -> bool {
    &&& d.get_spec(key_power_level()) == match s.power_level {
        Some(l) => Some(ValueView::Str(l.name())),
        None => None,
    }
    &&& d.get_spec(key_fan_mode()) == match s.fan_mode {
        Some(m) => Some(ValueView::Str(m.name())),
        None => None,
    }
    &&& d.get_spec(key_cooler_boost()) == opt_bool(s.cooler_boost)
    &&& d.get_spec(key_battery_saver()) == opt_bool(s.battery_saver)
    &&& d.get_spec(key_cpu_temp()) == opt_u8(s.sensors.cpu_temp_c)
    &&& d.get_spec(key_gpu_temp()) == opt_u8(s.sensors.gpu_temp_c)
    &&& d.get_spec(key_cpu_fan()) == opt_u8(s.sensors.cpu_fan_percent)
    &&& d.get_spec(key_gpu_fan()) == opt_u8(s.sensors.gpu_fan_percent)
    &&& d.get_spec(key_capacity()) == opt_u8(s.battery.capacity_percent)
    &&& d.get_spec(key_end()) == opt_u8(s.battery.charge_end_threshold)
    &&& d.get_spec(key_start()) == opt_u8(s.battery.charge_start_threshold)
    &&& d.get_spec(key_on_ac()) == opt_bool(s.battery.on_ac)
    &&& d.get_spec(key_fan_rpm()) == Some(ValueView::U32List(s.sensors.fan_rpm@))
}

pub open spec fn get_u8(d: WireDict, k: Seq<char>) -> Option<u8> {
    match d.get_spec(k) {
        Some(ValueView::U8(x)) => Some(x),
        _ => None,
    }
}

pub open spec fn get_u16(d: WireDict, k: Seq<char>) -> Option<u16> {
    match d.get_spec(k) {
        Some(ValueView::U16(x)) => Some(x),
        _ => None,
    }
}

pub open spec fn get_u32(d: WireDict, k: Seq<char>) -> Option<u32> {
    match d.get_spec(k) {
        Some(ValueView::U32(x)) => Some(x),
        _ => None,
    }
}

pub open spec fn get_bool(d: WireDict, k: Seq<char>) -> Option<bool> {
    match d.get_spec(k) {
        Some(ValueView::Bool(x)) => Some(x),
        _ => None,
    }
}

/// How a snapshot is decoded: each reading from its key when the value has
/// the right type; unknown keys are ignored and missing ones stay absent.
pub open spec fn decodes_state(d: WireDict, s: HwState) -> bool {
    &&& s.power_level == match d.get_spec(key_power_level()) {
        Some(ValueView::Str(n)) => PowerLevel::from_name_spec(n),
        _ => None,
    }
    &&& s.fan_mode == match d.get_spec(key_fan_mode()) {
        Some(ValueView::Str(n)) => FanMode::from_name_spec(n),
        _ => None,
    }
    &&& s.cooler_boost == get_bool(d, key_cooler_boost())
    &&& s.battery_saver == get_bool(d, key_battery_saver())
    &&& s.sensors.cpu_temp_c == get_u8(d, key_cpu_temp())
    &&& s.sensors.gpu_temp_c == get_u8(d, key_gpu_temp())
    &&& s.sensors.cpu_fan_percent == get_u8(d, key_cpu_fan())
    &&& s.sensors.gpu_fan_percent == get_u8(d, key_gpu_fan())
    &&& s.battery.capacity_percent == get_u8(d, key_capacity())
    &&& s.battery.charge_end_threshold == get_u8(d, key_end())
    &&& s.battery.charge_start_threshold == get_u8(d, key_start())
    &&& s.battery.on_ac == get_bool(d, key_on_ac())
    &&& s.sensors.fan_rpm@ == match d.get_spec(key_fan_rpm()) {
        Some(ValueView::U32List(l)) => l,
        _ => Seq::empty(),
    }
}

fn insert_u8(d: &mut WireDict, key: &str, v: Option<u8>)
    ensures
        final(d).get_spec(key@) == if v is Some {
            opt_u8(v)
        } else {
            old(d).get_spec(key@)
        },
        forall|k: Seq<char>| k != key@ ==> final(d).get_spec(k) == old(d).get_spec(k),
{
    if let Some(x) = v {
        d.insert(key, WireValue::U8(x));
    }
}

fn insert_u16(d: &mut WireDict, key: &str, v: Option<u16>)
    ensures
        final(d).get_spec(key@) == if v is Some {
            opt_u16(v)
        } else {
            old(d).get_spec(key@)
        },
        forall|k: Seq<char>| k != key@ ==> final(d).get_spec(k) == old(d).get_spec(k),
{
    if let Some(x) = v {
        d.insert(key, WireValue::U16(x));
    }
}

fn insert_u32(d: &mut WireDict, key: &str, v: Option<u32>)
    ensures
        final(d).get_spec(key@) == if v is Some {
            opt_u32(v)
        } else {
            old(d).get_spec(key@)
        },
        forall|k: Seq<char>| k != key@ ==> final(d).get_spec(k) == old(d).get_spec(k),
{
    if let Some(x) = v {
        d.insert(key, WireValue::U32(x));
    }
}

fn insert_bool(d: &mut WireDict, key: &str, v: Option<bool>)
    ensures
        final(d).get_spec(key@) == if v is Some {
            opt_bool(v)
        } else {
            old(d).get_spec(key@)
        },
        forall|k: Seq<char>| k != key@ ==> final(d).get_spec(k) == old(d).get_spec(k),
{
    if let Some(x) = v {
        d.insert(key, WireValue::Bool(x));
    }
}

/// The keys of a snapshot and of the GPU readings are all different.
proof fn lemma_keys_distinct()
    ensures
        key_power_level() != key_fan_mode(),
        key_power_level() != key_cooler_boost(),
        key_power_level() != key_battery_saver(),
        key_power_level() != key_cpu_temp(),
        key_power_level() != key_gpu_temp(),
        key_power_level() != key_cpu_fan(),
        key_power_level() != key_gpu_fan(),
        key_power_level() != key_fan_rpm(),
        key_power_level() != key_capacity(),
        key_power_level() != key_end(),
        key_power_level() != key_start(),
        key_power_level() != key_on_ac(),
        key_power_level() != key_gpu_power(),
        key_power_level() != key_gpu_limit(),
        key_power_level() != key_gpu_clock(),
        key_fan_mode() != key_cooler_boost(),
        key_fan_mode() != key_battery_saver(),
        key_fan_mode() != key_cpu_temp(),
        key_fan_mode() != key_gpu_temp(),
        key_fan_mode() != key_cpu_fan(),
        key_fan_mode() != key_gpu_fan(),
        key_fan_mode() != key_fan_rpm(),
        key_fan_mode() != key_capacity(),
        key_fan_mode() != key_end(),
        key_fan_mode() != key_start(),
        key_fan_mode() != key_on_ac(),
        key_fan_mode() != key_gpu_power(),
        key_fan_mode() != key_gpu_limit(),
        key_fan_mode() != key_gpu_clock(),
        key_cooler_boost() != key_battery_saver(),
        key_cooler_boost() != key_cpu_temp(),
        key_cooler_boost() != key_gpu_temp(),
        key_cooler_boost() != key_cpu_fan(),
        key_cooler_boost() != key_gpu_fan(),
        key_cooler_boost() != key_fan_rpm(),
        key_cooler_boost() != key_capacity(),
        key_cooler_boost() != key_end(),
        key_cooler_boost() != key_start(),
        key_cooler_boost() != key_on_ac(),
        key_cooler_boost() != key_gpu_power(),
        key_cooler_boost() != key_gpu_limit(),
        key_cooler_boost() != key_gpu_clock(),
        key_battery_saver() != key_cpu_temp(),
        key_battery_saver() != key_gpu_temp(),
        key_battery_saver() != key_cpu_fan(),
        key_battery_saver() != key_gpu_fan(),
        key_battery_saver() != key_fan_rpm(),
        key_battery_saver() != key_capacity(),
        key_battery_saver() != key_end(),
        key_battery_saver() != key_start(),
        key_battery_saver() != key_on_ac(),
        key_battery_saver() != key_gpu_power(),
        key_battery_saver() != key_gpu_limit(),
        key_battery_saver() != key_gpu_clock(),
        key_cpu_temp() != key_gpu_temp(),
        key_cpu_temp() != key_cpu_fan(),
        key_cpu_temp() != key_gpu_fan(),
        key_cpu_temp() != key_fan_rpm(),
        key_cpu_temp() != key_capacity(),
        key_cpu_temp() != key_end(),
        key_cpu_temp() != key_start(),
        key_cpu_temp() != key_on_ac(),
        key_cpu_temp() != key_gpu_power(),
        key_cpu_temp() != key_gpu_limit(),
        key_cpu_temp() != key_gpu_clock(),
        key_gpu_temp() != key_cpu_fan(),
        key_gpu_temp() != key_gpu_fan(),
        key_gpu_temp() != key_fan_rpm(),
        key_gpu_temp() != key_capacity(),
        key_gpu_temp() != key_end(),
        key_gpu_temp() != key_start(),
        key_gpu_temp() != key_on_ac(),
        key_gpu_temp() != key_gpu_power(),
        key_gpu_temp() != key_gpu_limit(),
        key_gpu_temp() != key_gpu_clock(),
        key_cpu_fan() != key_gpu_fan(),
        key_cpu_fan() != key_fan_rpm(),
        key_cpu_fan() != key_capacity(),
        key_cpu_fan() != key_end(),
        key_cpu_fan() != key_start(),
        key_cpu_fan() != key_on_ac(),
        key_cpu_fan() != key_gpu_power(),
        key_cpu_fan() != key_gpu_limit(),
        key_cpu_fan() != key_gpu_clock(),
        key_gpu_fan() != key_fan_rpm(),
        key_gpu_fan() != key_capacity(),
        key_gpu_fan() != key_end(),
        key_gpu_fan() != key_start(),
        key_gpu_fan() != key_on_ac(),
        key_gpu_fan() != key_gpu_power(),
        key_gpu_fan() != key_gpu_limit(),
        key_gpu_fan() != key_gpu_clock(),
        key_fan_rpm() != key_capacity(),
        key_fan_rpm() != key_end(),
        key_fan_rpm() != key_start(),
        key_fan_rpm() != key_on_ac(),
        key_fan_rpm() != key_gpu_power(),
        key_fan_rpm() != key_gpu_limit(),
        key_fan_rpm() != key_gpu_clock(),
        key_capacity() != key_end(),
        key_capacity() != key_start(),
        key_capacity() != key_on_ac(),
        key_capacity() != key_gpu_power(),
        key_capacity() != key_gpu_limit(),
        key_capacity() != key_gpu_clock(),
        key_end() != key_start(),
        key_end() != key_on_ac(),
        key_end() != key_gpu_power(),
        key_end() != key_gpu_limit(),
        key_end() != key_gpu_clock(),
        key_start() != key_on_ac(),
        key_start() != key_gpu_power(),
        key_start() != key_gpu_limit(),
        key_start() != key_gpu_clock(),
        key_on_ac() != key_gpu_power(),
        key_on_ac() != key_gpu_limit(),
        key_on_ac() != key_gpu_clock(),
        key_gpu_power() != key_gpu_limit(),
        key_gpu_power() != key_gpu_clock(),
        key_gpu_limit() != key_gpu_clock(),
{
    reveal_strlit("power-level");
    reveal_strlit("fan-mode");
    reveal_strlit("cooler-boost");
    reveal_strlit("battery-saver");
    reveal_strlit("cpu-temp-c");
    reveal_strlit("gpu-temp-c");
    reveal_strlit("cpu-fan-percent");
    reveal_strlit("gpu-fan-percent");
    reveal_strlit("fan-rpm");
    reveal_strlit("battery-capacity");
    reveal_strlit("charge-end-threshold");
    reveal_strlit("charge-start-threshold");
    reveal_strlit("on-ac");
    reveal_strlit("gpu-power-w");
    reveal_strlit("gpu-power-limit-w");
    reveal_strlit("gpu-clock-mhz");
    assert(key_power_level().len() != key_fan_mode().len());
    assert(key_power_level().len() != key_cooler_boost().len());
    assert(key_power_level().len() != key_battery_saver().len());
    assert(key_power_level().len() != key_cpu_temp().len());
    assert(key_power_level().len() != key_gpu_temp().len());
    assert(key_power_level().len() != key_cpu_fan().len());
    assert(key_power_level().len() != key_gpu_fan().len());
    assert(key_power_level().len() != key_fan_rpm().len());
    assert(key_power_level().len() != key_capacity().len());
    assert(key_power_level().len() != key_end().len());
    assert(key_power_level().len() != key_start().len());
    assert(key_power_level().len() != key_on_ac().len());
    assert(key_power_level()[0] != key_gpu_power()[0]);
    assert(key_power_level().len() != key_gpu_limit().len());
    assert(key_power_level().len() != key_gpu_clock().len());
    assert(key_fan_mode().len() != key_cooler_boost().len());
    assert(key_fan_mode().len() != key_battery_saver().len());
    assert(key_fan_mode().len() != key_cpu_temp().len());
    assert(key_fan_mode().len() != key_gpu_temp().len());
    assert(key_fan_mode().len() != key_cpu_fan().len());
    assert(key_fan_mode().len() != key_gpu_fan().len());
    assert(key_fan_mode().len() != key_fan_rpm().len());
    assert(key_fan_mode().len() != key_capacity().len());
    assert(key_fan_mode().len() != key_end().len());
    assert(key_fan_mode().len() != key_start().len());
    assert(key_fan_mode().len() != key_on_ac().len());
    assert(key_fan_mode().len() != key_gpu_power().len());
    assert(key_fan_mode().len() != key_gpu_limit().len());
    assert(key_fan_mode().len() != key_gpu_clock().len());
    assert(key_cooler_boost().len() != key_battery_saver().len());
    assert(key_cooler_boost().len() != key_cpu_temp().len());
    assert(key_cooler_boost().len() != key_gpu_temp().len());
    assert(key_cooler_boost().len() != key_cpu_fan().len());
    assert(key_cooler_boost().len() != key_gpu_fan().len());
    assert(key_cooler_boost().len() != key_fan_rpm().len());
    assert(key_cooler_boost().len() != key_capacity().len());
    assert(key_cooler_boost().len() != key_end().len());
    assert(key_cooler_boost().len() != key_start().len());
    assert(key_cooler_boost().len() != key_on_ac().len());
    assert(key_cooler_boost().len() != key_gpu_power().len());
    assert(key_cooler_boost().len() != key_gpu_limit().len());
    assert(key_cooler_boost().len() != key_gpu_clock().len());
    assert(key_battery_saver().len() != key_cpu_temp().len());
    assert(key_battery_saver().len() != key_gpu_temp().len());
    assert(key_battery_saver().len() != key_cpu_fan().len());
    assert(key_battery_saver().len() != key_gpu_fan().len());
    assert(key_battery_saver().len() != key_fan_rpm().len());
    assert(key_battery_saver().len() != key_capacity().len());
    assert(key_battery_saver().len() != key_end().len());
    assert(key_battery_saver().len() != key_start().len());
    assert(key_battery_saver().len() != key_on_ac().len());
    assert(key_battery_saver().len() != key_gpu_power().len());
    assert(key_battery_saver().len() != key_gpu_limit().len());
    assert(key_battery_saver()[0] != key_gpu_clock()[0]);
    assert(key_cpu_temp()[0] != key_gpu_temp()[0]);
    assert(key_cpu_temp().len() != key_cpu_fan().len());
    assert(key_cpu_temp().len() != key_gpu_fan().len());
    assert(key_cpu_temp().len() != key_fan_rpm().len());
    assert(key_cpu_temp().len() != key_capacity().len());
    assert(key_cpu_temp().len() != key_end().len());
    assert(key_cpu_temp().len() != key_start().len());
    assert(key_cpu_temp().len() != key_on_ac().len());
    assert(key_cpu_temp().len() != key_gpu_power().len());
    assert(key_cpu_temp().len() != key_gpu_limit().len());
    assert(key_cpu_temp().len() != key_gpu_clock().len());
    assert(key_gpu_temp().len() != key_cpu_fan().len());
    assert(key_gpu_temp().len() != key_gpu_fan().len());
    assert(key_gpu_temp().len() != key_fan_rpm().len());
    assert(key_gpu_temp().len() != key_capacity().len());
    assert(key_gpu_temp().len() != key_end().len());
    assert(key_gpu_temp().len() != key_start().len());
    assert(key_gpu_temp().len() != key_on_ac().len());
    assert(key_gpu_temp().len() != key_gpu_power().len());
    assert(key_gpu_temp().len() != key_gpu_limit().len());
    assert(key_gpu_temp().len() != key_gpu_clock().len());
    assert(key_cpu_fan()[0] != key_gpu_fan()[0]);
    assert(key_cpu_fan().len() != key_fan_rpm().len());
    assert(key_cpu_fan().len() != key_capacity().len());
    assert(key_cpu_fan().len() != key_end().len());
    assert(key_cpu_fan().len() != key_start().len());
    assert(key_cpu_fan().len() != key_on_ac().len());
    assert(key_cpu_fan().len() != key_gpu_power().len());
    assert(key_cpu_fan().len() != key_gpu_limit().len());
    assert(key_cpu_fan().len() != key_gpu_clock().len());
    assert(key_gpu_fan().len() != key_fan_rpm().len());
    assert(key_gpu_fan().len() != key_capacity().len());
    assert(key_gpu_fan().len() != key_end().len());
    assert(key_gpu_fan().len() != key_start().len());
    assert(key_gpu_fan().len() != key_on_ac().len());
    assert(key_gpu_fan().len() != key_gpu_power().len());
    assert(key_gpu_fan().len() != key_gpu_limit().len());
    assert(key_gpu_fan().len() != key_gpu_clock().len());
    assert(key_fan_rpm().len() != key_capacity().len());
    assert(key_fan_rpm().len() != key_end().len());
    assert(key_fan_rpm().len() != key_start().len());
    assert(key_fan_rpm().len() != key_on_ac().len());
    assert(key_fan_rpm().len() != key_gpu_power().len());
    assert(key_fan_rpm().len() != key_gpu_limit().len());
    assert(key_fan_rpm().len() != key_gpu_clock().len());
    assert(key_capacity().len() != key_end().len());
    assert(key_capacity().len() != key_start().len());
    assert(key_capacity().len() != key_on_ac().len());
    assert(key_capacity().len() != key_gpu_power().len());
    assert(key_capacity().len() != key_gpu_limit().len());
    assert(key_capacity().len() != key_gpu_clock().len());
    assert(key_end().len() != key_start().len());
    assert(key_end().len() != key_on_ac().len());
    assert(key_end().len() != key_gpu_power().len());
    assert(key_end().len() != key_gpu_limit().len());
    assert(key_end().len() != key_gpu_clock().len());
    assert(key_start().len() != key_on_ac().len());
    assert(key_start().len() != key_gpu_power().len());
    assert(key_start().len() != key_gpu_limit().len());
    assert(key_start().len() != key_gpu_clock().len());
    assert(key_on_ac().len() != key_gpu_power().len());
    assert(key_on_ac().len() != key_gpu_limit().len());
    assert(key_on_ac().len() != key_gpu_clock().len());
    assert(key_gpu_power().len() != key_gpu_limit().len());
    assert(key_gpu_power().len() != key_gpu_clock().len());
    assert(key_gpu_limit().len() != key_gpu_clock().len());
}

/// Encode a snapshot, omitting everything the hardware does not report.
pub fn state_to_dict(state: &HwState) -> (d: WireDict)
    ensures
        encodes_state(d, *state),
        forall|k: Seq<char>| !state_key(k) ==> #[trigger] d.get_spec(k) is None,
{
    proof {
        lemma_keys_distinct();
    }
    let mut d = WireDict::new();
    if let Some(l) = state.power_level {
        d.insert("power-level", WireValue::Str(l.as_str().to_owned()));
    }
    if let Some(m) = state.fan_mode {
        d.insert("fan-mode", WireValue::Str(m.as_str().to_owned()));
    }
    insert_bool(&mut d, "cooler-boost", state.cooler_boost);
    insert_bool(&mut d, "battery-saver", state.battery_saver);
    insert_u8(&mut d, "cpu-temp-c", state.sensors.cpu_temp_c);
    insert_u8(&mut d, "gpu-temp-c", state.sensors.gpu_temp_c);
    insert_u8(&mut d, "cpu-fan-percent", state.sensors.cpu_fan_percent);
    insert_u8(&mut d, "gpu-fan-percent", state.sensors.gpu_fan_percent);
    insert_u8(&mut d, "battery-capacity", state.battery.capacity_percent);
    insert_u8(&mut d, "charge-end-threshold", state.battery.charge_end_threshold);
    insert_u8(&mut d, "charge-start-threshold", state.battery.charge_start_threshold);
    insert_bool(&mut d, "on-ac", state.battery.on_ac);
    // An empty fan list is meaningful ("this machine has no tachometers"),
    // so it is sent rather than omitted.
    d.insert("fan-rpm", WireValue::U32List(copy_u32s(&state.sensors.fan_rpm)));
    d
}

fn copy_u32s(v: &Vec<u32>) -> (r: Vec<u32>)
    ensures
        r@ == v@,
{
    let mut r: Vec<u32> = Vec::new();
    let mut i: usize = 0;
    while i < v.len()
        invariant
            i <= v.len(),
            r@ == v@.take(i as int),
        decreases v.len() - i,
    {
        r.push(v[i]);
        assert(v@.take(i as int).push(v@[i as int]) =~= v@.take(i + 1));
        i += 1;
    }
    assert(v@.take(v.len() as int) =~= v@);
    r
}

fn read_u8(d: &WireDict, key: &str) -> (r: Option<u8>)
    ensures
        r == get_u8(*d, key@),
{
    match d.get(key) {
        Some(WireValue::U8(x)) => Some(*x),
        _ => None,
    }
}

fn read_u16(d: &WireDict, key: &str) -> (r: Option<u16>)
    ensures
        r == get_u16(*d, key@),
{
    match d.get(key) {
        Some(WireValue::U16(x)) => Some(*x),
        _ => None,
    }
}

fn read_u32(d: &WireDict, key: &str) -> (r: Option<u32>)
    ensures
        r == get_u32(*d, key@),
{
    match d.get(key) {
        Some(WireValue::U32(x)) => Some(*x),
        _ => None,
    }
}

fn read_bool(d: &WireDict, key: &str) -> (r: Option<bool>)
    ensures
        r == get_bool(*d, key@),
{
    match d.get(key) {
        Some(WireValue::Bool(x)) => Some(*x),
        _ => None,
    }
}

/// Decode a snapshot. Unknown keys are ignored and missing ones stay
/// absent, so an older client keeps working against a newer daemon.
pub fn state_from_dict(d: &WireDict) -> (s: HwState)
    ensures
        decodes_state(*d, s),
{
    let power_level = match d.get("power-level") {
        Some(WireValue::Str(n)) => PowerLevel::from_name(n.as_str()),
        _ => None,
    };
    let fan_mode = match d.get("fan-mode") {
        Some(WireValue::Str(n)) => FanMode::from_name(n.as_str()),
        _ => None,
    };
    let fan_rpm = match d.get("fan-rpm") {
        Some(WireValue::U32List(l)) => copy_u32s(l),
        _ => Vec::new(),
    };
    HwState {
        power_level,
        fan_mode,
        cooler_boost: read_bool(d, "cooler-boost"),
        battery_saver: read_bool(d, "battery-saver"),
        sensors: Sensors {
            cpu_temp_c: read_u8(d, "cpu-temp-c"),
            gpu_temp_c: read_u8(d, "gpu-temp-c"),
            cpu_fan_percent: read_u8(d, "cpu-fan-percent"),
            gpu_fan_percent: read_u8(d, "gpu-fan-percent"),
            fan_rpm,
        },
        battery: Battery {
            capacity_percent: read_u8(d, "battery-capacity"),
            charge_end_threshold: read_u8(d, "charge-end-threshold"),
            charge_start_threshold: read_u8(d, "charge-start-threshold"),
            on_ac: read_bool(d, "on-ac"),
        },
    }
}

/// A snapshot survives the trip across the bus: decoding what was encoded
/// gives back every reading, and every absent reading stays absent.
pub proof fn lemma_state_round_trip(sent: HwState, d: WireDict, decoded: HwState)
    requires
        encodes_state(d, sent),
        decodes_state(d, decoded),
    ensures
        decoded.power_level == sent.power_level,
        decoded.fan_mode == sent.fan_mode,
        decoded.cooler_boost == sent.cooler_boost,
        decoded.battery_saver == sent.battery_saver,
        decoded.sensors.cpu_temp_c == sent.sensors.cpu_temp_c,
        decoded.sensors.gpu_temp_c == sent.sensors.gpu_temp_c,
        decoded.sensors.cpu_fan_percent == sent.sensors.cpu_fan_percent,
        decoded.sensors.gpu_fan_percent == sent.sensors.gpu_fan_percent,
        decoded.sensors.fan_rpm@ == sent.sensors.fan_rpm@,
        decoded.battery == sent.battery,
{
    if let Some(l) = sent.power_level {
        crate::types::lemma_power_level_name_round_trip(l);
    }
    if let Some(m) = sent.fan_mode {
        crate::types::lemma_fan_mode_name_round_trip(m);
    }
}

/// Add the GPU's readings to a snapshot, omitting whatever it does not
/// report. Kept apart from [`state_to_dict`] because this is not backend
/// data; the shared dictionary is where the two meet.
pub fn gpu_into_dict(d: &mut WireDict, gpu: &Gpu)
    ensures
        get_u16(*final(d), key_gpu_power()) == if gpu.power_w is Some {
            gpu.power_w
        } else {
            get_u16(*old(d), key_gpu_power())
        },
        get_u16(*final(d), key_gpu_limit()) == if gpu.power_limit_w is Some {
            gpu.power_limit_w
        } else {
            get_u16(*old(d), key_gpu_limit())
        },
        get_u32(*final(d), key_gpu_clock()) == if gpu.clock_mhz is Some {
            gpu.clock_mhz
        } else {
            get_u32(*old(d), key_gpu_clock())
        },
        forall|k: Seq<char>|
            k != key_gpu_power() && k != key_gpu_limit() && k != key_gpu_clock()
                ==> final(d).get_spec(k) == old(d).get_spec(k),
{
    proof {
        lemma_keys_distinct();
    }
    insert_u16(d, "gpu-power-w", gpu.power_w);
    insert_u16(d, "gpu-power-limit-w", gpu.power_limit_w);
    insert_u32(d, "gpu-clock-mhz", gpu.clock_mhz);
}

/// Decode the GPU's readings. All absent on a machine without one.
pub fn gpu_from_dict(d: &WireDict) -> (g: Gpu)
    ensures
        g.power_w == get_u16(*d, key_gpu_power()),
        g.power_limit_w == get_u16(*d, key_gpu_limit()),
        g.clock_mhz == get_u32(*d, key_gpu_clock()),
{
    Gpu {
        power_w: read_u16(d, "gpu-power-w"),
        power_limit_w: read_u16(d, "gpu-power-limit-w"),
        clock_mhz: read_u32(d, "gpu-clock-mhz"),
    }
}

/// Adding the GPU's readings leaves every snapshot reading as it was.
pub proof fn lemma_gpu_keys_leave_state_alone(before: WireDict, after: WireDict, s: HwState)
    requires
        encodes_state(before, s),
        forall|k: Seq<char>|
            k != key_gpu_power() && k != key_gpu_limit() && k != key_gpu_clock() ==> after.get_spec(
                k,
            ) == before.get_spec(k),
    ensures
        encodes_state(after, s),
{
    lemma_keys_distinct();
}

/// The keys a capability map is read from.
pub open spec fn caps_key(k: Seq<char>) -> bool {
    ||| k == key_power_level()
    ||| k == key_fan_mode()
    ||| k == key_cooler_boost()
    ||| k == key_battery_saver()
    ||| k == key_end()
    ||| k == key_start()
}

/// Capabilities travel as a plain map of what this machine can do, holding
/// the six flags and nothing else.
pub fn caps_to_dict(caps: &Capabilities) -> (d: WireDict)
    ensures
        forall|k: Seq<char>| !caps_key(k) ==> #[trigger] d.get_spec(k) is None,
        d.get_spec(key_power_level()) == Some(ValueView::Bool(caps.power_level)),
        d.get_spec(key_fan_mode()) == Some(ValueView::Bool(caps.fan_mode)),
        d.get_spec(key_cooler_boost()) == Some(ValueView::Bool(caps.cooler_boost)),
        d.get_spec(key_battery_saver()) == Some(ValueView::Bool(caps.battery_saver)),
        d.get_spec(key_end()) == Some(ValueView::Bool(caps.charge_threshold)),
        d.get_spec(key_start()) == Some(ValueView::Bool(caps.charge_start_threshold)),
{
    proof {
        lemma_keys_distinct();
    }
    let mut d = WireDict::new();
    d.insert("power-level", WireValue::Bool(caps.power_level));
    d.insert("fan-mode", WireValue::Bool(caps.fan_mode));
    d.insert("cooler-boost", WireValue::Bool(caps.cooler_boost));
    d.insert("battery-saver", WireValue::Bool(caps.battery_saver));
    d.insert("charge-end-threshold", WireValue::Bool(caps.charge_threshold));
    d.insert("charge-start-threshold", WireValue::Bool(caps.charge_start_threshold));
    d
}

/// What a capability map says; a key that is missing, or not a flag, is a
/// capability the machine lacks.
pub fn caps_from_dict(d: &WireDict) -> (c: Capabilities)
    ensures
        c.power_level == (get_bool(*d, key_power_level()) == Some(true)),
        c.fan_mode == (get_bool(*d, key_fan_mode()) == Some(true)),
        c.cooler_boost == (get_bool(*d, key_cooler_boost()) == Some(true)),
        c.battery_saver == (get_bool(*d, key_battery_saver()) == Some(true)),
        c.charge_threshold == (get_bool(*d, key_end()) == Some(true)),
        c.charge_start_threshold == (get_bool(*d, key_start()) == Some(true)),
{
    Capabilities {
        power_level: read_bool(d, "power-level") == Some(true),
        fan_mode: read_bool(d, "fan-mode") == Some(true),
        cooler_boost: read_bool(d, "cooler-boost") == Some(true),
        battery_saver: read_bool(d, "battery-saver") == Some(true),
        charge_threshold: read_bool(d, "charge-end-threshold") == Some(true),
        charge_start_threshold: read_bool(d, "charge-start-threshold") == Some(true),
    }
}

/// Capabilities survive the trip across the bus.
pub proof fn lemma_caps_round_trip(caps: Capabilities, d: WireDict, back: Capabilities)
    requires
        d.get_spec(key_power_level()) == Some(ValueView::Bool(caps.power_level)),
        d.get_spec(key_fan_mode()) == Some(ValueView::Bool(caps.fan_mode)),
        d.get_spec(key_cooler_boost()) == Some(ValueView::Bool(caps.cooler_boost)),
        d.get_spec(key_battery_saver()) == Some(ValueView::Bool(caps.battery_saver)),
        d.get_spec(key_end()) == Some(ValueView::Bool(caps.charge_threshold)),
        d.get_spec(key_start()) == Some(ValueView::Bool(caps.charge_start_threshold)),
        back.power_level == (get_bool(d, key_power_level()) == Some(true)),
        back.fan_mode == (get_bool(d, key_fan_mode()) == Some(true)),
        back.cooler_boost == (get_bool(d, key_cooler_boost()) == Some(true)),
        back.battery_saver == (get_bool(d, key_battery_saver()) == Some(true)),
        back.charge_threshold == (get_bool(d, key_end()) == Some(true)),
        back.charge_start_threshold == (get_bool(d, key_start()) == Some(true)),
    ensures
        back == caps,
{
}

/// The keys a snapshot is read from.
pub open spec fn state_key(k: Seq<char>) -> bool {
    ||| k == key_power_level()
    ||| k == key_fan_mode()
    ||| k == key_cooler_boost()
    ||| k == key_battery_saver()
    ||| k == key_cpu_temp()
    ||| k == key_gpu_temp()
    ||| k == key_cpu_fan()
    ||| k == key_gpu_fan()
    ||| k == key_fan_rpm()
    ||| k == key_capacity()
    ||| k == key_end()
    ||| k == key_start()
    ||| k == key_on_ac()
}

/// Keys a snapshot is not read from change nothing about the snapshot read
/// from a dictionary: whatever a newer daemon adds is ignored.
pub proof fn lemma_unknown_keys_ignored(before: WireDict, after: WireDict, s: HwState)
    requires
        decodes_state(before, s),
        forall|k: Seq<char>| #[trigger] state_key(k) ==> after.get_spec(k) == before.get_spec(k),
    ensures
        decodes_state(after, s),
{
    assert(state_key(key_power_level()));
    assert(state_key(key_fan_mode()));
    assert(state_key(key_cooler_boost()));
    assert(state_key(key_battery_saver()));
    assert(state_key(key_cpu_temp()));
    assert(state_key(key_gpu_temp()));
    assert(state_key(key_cpu_fan()));
    assert(state_key(key_gpu_fan()));
    assert(state_key(key_fan_rpm()));
    assert(state_key(key_capacity()));
    assert(state_key(key_end()));
    assert(state_key(key_start()));
    assert(state_key(key_on_ac()));
}

} // verus!
