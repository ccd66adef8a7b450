//! Where the terminal view gets its data and where its changes go.
//!
//! Two sources: the daemon over the bus, and, when the daemon is not running,
//! a direct read-only view of a sysfs tree. The bus itself is the caller's:
//! a daemon source turns each change into the [`Command`] to send, and reads
//! snapshots out of the dictionary the daemon answers with.
use vstd::prelude::*;

use crate::backend::{Backend, Error};
use crate::detect::{
    detect_in, has_msi, has_platform_profile, msi_for, platform_profile_for, state_of, AnyBackend,
};
use crate::gpu::Gpu;
use crate::sysfs::Tree;
use crate::text::{chars_of, string_of, string_views};
use crate::types::{Capabilities, FanMode, HwState, PowerLevel};
use crate::wire::{decodes_state, gpu_from_dict, get_u16, get_u32, key_gpu_clock, key_gpu_limit,
    key_gpu_power, state_from_dict, WireDict};

verus! {

pub enum Source {
    /// The daemon is running: reads and writes both go over the bus.
    Daemon {
        backend: String,
        model: Option<String>,
        capabilities: Capabilities,
        /// Units that overwrite the charge threshold behind our back.
        charge_conflicts: Vec<String>,
    },
    /// No daemon: read straight from sysfs and refuse to write.
    Local { backend: AnyBackend, capabilities: Capabilities },
}

/// A change to ask the daemon for.
#[derive(Debug, Clone, PartialEq, Eq)]
pub enum Command {
    SetPowerLevel(String),
    SetFanMode(String),
    SetCoolerBoost(bool),
    SetBatterySaver(bool),
    SetChargeEndThreshold(u8),
}

/// Why a change cannot be made without the daemon.
pub open spec fn not_running() -> Seq<char> {
    "omarchy-powerd is not running: start it with `systemctl start omarchy-powerd`"@
}

impl Source {
    /// A source for what the daemon reported about itself. An empty model
    /// counts as none.
    pub fn daemon(backend: String, model: String, capabilities: Capabilities, charge_conflicts: Vec<
        String,
    >) -> (r: Source)
        ensures
            r matches Source::Daemon { backend: b, model: m, capabilities: c, charge_conflicts: cc }
                && b@ == backend@ && c == capabilities && cc@ == charge_conflicts@ && match m {
                Some(s) => s@ == model@ && model@.len() > 0,
                None => model@.len() == 0,
            },
    {
        let m = if model.as_str().is_empty() {
            None
        } else {
            Some(model)
        };
        Source::Daemon { backend, model: m, capabilities, charge_conflicts }
    }

    /// The read-only view of a sysfs tree.
    pub fn local(tree: &Tree) -> (r: Result<Source, Error>)
        ensures
            (has_msi(*tree) || has_platform_profile(*tree)) == r is Ok,
            r matches Err(e) ==> e is NoBackend,
            r matches Ok(Source::Local { backend, capabilities }) ==> capabilities
                == backend.caps_of(),
            r is Ok ==> r matches Ok(Source::Local { .. }),
            r matches Ok(Source::Local { backend, .. }) ==> {
                &&& has_msi(*tree) ==> (backend matches AnyBackend::Msi(m) && msi_for(m, *tree))
                &&& !has_msi(*tree) ==> (backend matches AnyBackend::PlatformProfile(b)
                    && platform_profile_for(b, *tree))
            },
    {
        match detect_in(tree) {
            Ok(backend) => {
                let capabilities = backend.capabilities();
                Ok(Source::Local { backend, capabilities })
            },
            Err(e) => Err(e),
        }
    }

    pub fn is_read_only(&self) -> (r: bool)
        ensures
            r == self is Local,
    {
        match self {
            Source::Local { .. } => true,
            Source::Daemon { .. } => false,
        }
    }

    pub fn backend_name(&self) -> (r: String)
        ensures
            r@ == match self {
                Source::Daemon { backend, .. } => backend@,
                Source::Local { backend, .. } => backend.name_of(),
            },
    {
        match self {
            Source::Daemon { backend, .. } => string_of(&chars_of(backend.as_str())),
            Source::Local { backend, .. } => backend.name().to_owned(),
        }
    }

    /// The model: as the daemon reported it, or read from the tree.
    pub fn model(&self, tree: &Tree) -> (r: Option<String>)
        ensures
            match self {
                Source::Daemon { model, .. } => match (r, model) {
                    (Some(a), Some(b)) => a@ == b@,
                    (None, None) => true,
                    _ => false,
                },
                Source::Local { backend, .. } => match (r, backend.model_of(*tree)) {
                    (Some(a), Some(b)) => a@ == b,
                    (None, None) => true,
                    _ => false,
                },
            },
    {
        match self {
            Source::Daemon { model, .. } => match model {
                Some(m) => Some(string_of(&chars_of(m.as_str()))),
                None => None,
            },
            Source::Local { backend, .. } => backend.model(tree),
        }
    }

    pub fn capabilities(&self) -> (r: Capabilities)
        ensures
            r == match self {
                Source::Daemon { capabilities, .. } => *capabilities,
                Source::Local { capabilities, .. } => *capabilities,
            },
    {
        match self {
            Source::Daemon { capabilities, .. } => *capabilities,
            Source::Local { capabilities, .. } => *capabilities,
        }
    }

    /// Who else writes the charge threshold. Empty without a daemon: the
    /// read-only view has no bus to ask systemd over.
    pub fn charge_conflicts(&self) -> (r: Vec<String>)
        ensures
            string_views(r@) == match self {
                Source::Daemon { charge_conflicts, .. } => string_views(charge_conflicts@),
                Source::Local { .. } => Seq::empty(),
            },
    {
        match self {
            Source::Daemon { charge_conflicts, .. } => {
                let mut out: Vec<String> = Vec::new();
                let mut i: usize = 0;
                while i < charge_conflicts.len()
                    invariant
                        i <= charge_conflicts.len(),
                        out@.len() == i,
                        forall|k: int| 0 <= k < i ==> #[trigger] out@[k]@ == charge_conflicts@[k]@,
                    decreases charge_conflicts.len() - i,
                {
                    out.push(string_of(&chars_of(charge_conflicts[i].as_str())));
                    i += 1;
                }
                assert(string_views(out@) =~= string_views(charge_conflicts@));
                out
            },
            Source::Local { .. } => {
                let out: Vec<String> = Vec::new();
                assert(string_views(out@) =~= Seq::<Seq<char>>::empty());
                out
            },
        }
    }

    /// The state and the GPU's readings: decoded from the daemon's `reply`,
    /// or read from `tree` without a daemon (which has no GPU reading).
    pub fn snapshot(&self, reply: &WireDict, tree: &Tree) -> (r: (HwState, Gpu))
        ensures
            match self {
                Source::Daemon { .. } => {
                    &&& decodes_state(*reply, r.0)
                    &&& r.1.power_w == get_u16(*reply, key_gpu_power())
                    &&& r.1.power_limit_w == get_u16(*reply, key_gpu_limit())
                    &&& r.1.clock_mhz == get_u32(*reply, key_gpu_clock())
                },
                Source::Local { backend, .. } => state_of(*backend, r.0, *tree) && r.1
                    == Gpu::blank(),
            },
    {
        match self {
            Source::Daemon { .. } => (state_from_dict(reply), gpu_from_dict(reply)),
            Source::Local { backend, .. } => (backend.read_state(tree), Gpu::default()),
        }
    }

    /// Writes only exist through the daemon; the view never touches sysfs
    /// itself.
    fn send(&self, command: Command) -> (r: Result<Command, String>)
        ensures
            match self {
                Source::Daemon { .. } => r == Ok::<Command, String>(command),
                Source::Local { .. } => r matches Err(e) && e@ == not_running(),
            },
    {
        match self {
            Source::Daemon { .. } => Ok(command),
            Source::Local { .. } => Err(
                "omarchy-powerd is not running: start it with `systemctl start omarchy-powerd`".to_owned(),
            ),
        }
    }

    pub fn set_power_level(&self, level: PowerLevel) -> (r: Result<Command, String>)
        ensures
            match self {
                Source::Daemon { .. } => r matches Ok(Command::SetPowerLevel(n)) && n@ == level.name(),
                Source::Local { .. } => r matches Err(e) && e@ == not_running(),
            },
    {
        self.send(Command::SetPowerLevel(level.as_str().to_owned()))
    }

    pub fn set_fan_mode(&self, mode: FanMode) -> (r: Result<Command, String>)
        ensures
            match self {
                Source::Daemon { .. } => r matches Ok(Command::SetFanMode(n)) && n@ == mode.name(),
                Source::Local { .. } => r matches Err(e) && e@ == not_running(),
            },
    {
        self.send(Command::SetFanMode(mode.as_str().to_owned()))
    }

    pub fn set_cooler_boost(&self, on: bool) -> (r: Result<Command, String>)
        ensures
            match self {
                Source::Daemon { .. } => r == Ok::<Command, String>(Command::SetCoolerBoost(on)),
                Source::Local { .. } => r matches Err(e) && e@ == not_running(),
            },
    {
        self.send(Command::SetCoolerBoost(on))
    }

    pub fn set_battery_saver(&self, on: bool) -> (r: Result<Command, String>)
        ensures
            match self {
                Source::Daemon { .. } => r == Ok::<Command, String>(Command::SetBatterySaver(on)),
                Source::Local { .. } => r matches Err(e) && e@ == not_running(),
            },
    {
        self.send(Command::SetBatterySaver(on))
    }

    pub fn set_charge_end_threshold(&self, percent: u8) -> (r: Result<Command, String>)
        ensures
            match self {
                Source::Daemon { .. } => r == Ok::<Command, String>(
                    Command::SetChargeEndThreshold(percent),
                ),
                Source::Local { .. } => r matches Err(e) && e@ == not_running(),
            },
    {
        self.send(Command::SetChargeEndThreshold(percent))
    }
}

} // verus!
