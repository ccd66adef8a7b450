# omarchy-power

Hardware power management for Linux laptops: power profiles, charge
thresholds, fan modes and thermals, from one terminal view and one small
daemon.

## Layout

- `src/` is the library, written in Verus and verified: the model of a
  captured sysfs tree, the vendor backends (what they read, and which writes
  in which order bring the hardware to a profile), detection, the decision
  engine and its thermal guard, the bus encoding of a snapshot, the
  autoprofile rules, the key bindings and the words the terminal view shows.
  Every public function states what it returns in its `ensures`; the laws
  that span functions (what a read gives back after a plan's writes, that the
  thresholds never pass through an order the kernel refuses, that an
  unchanged decision costs no writes, that a snapshot survives the bus) are
  public proof functions.
- `tests/` exercises the library on hand-built trees.
- `app/` is the programs around it: reading `/sys` into a tree and carrying
  out writes, the D-Bus daemon with polkit, the watchers that follow
  power-profiles-daemon and UPower, the terminal UI, the configuration files
  and the window watcher.
