//! What termination signals do: the first asks for a controlled stop, a second
//! skips it.
use vstd::prelude::*;

verus! {

/// What the signals received so far ask for.
#[derive(Clone, Copy, Debug, PartialEq, Eq, Structural)]
pub struct ShutdownFlags {
    /// No signal yet.
    pub running: bool,
    /// A second signal came.
    pub force_quit: bool,
}

/// How the next cycle runs.
#[derive(Clone, Copy, Debug, PartialEq, Eq, Structural)]
pub enum LoopMode {
    /// Normal operation.
    Run,
    /// The controlled stop.
    Stop,
    /// Leave at once and take the bus down.
    Quit,
}

impl ShutdownFlags {
    pub fn new() -> (r: ShutdownFlags)
        ensures
            r == (ShutdownFlags { running: true, force_quit: false }),
    {
        ShutdownFlags { running: true, force_quit: false }
    }

    /// Take one termination signal.
    pub fn on_signal(&mut self)
        ensures
            *final(self) == signalled(*old(self)),
    {
        if !self.running {
            self.force_quit = true;
        }
        self.running = false;
    }
}

impl Default for ShutdownFlags {
    fn default() -> (r: ShutdownFlags)
        ensures
            r == (ShutdownFlags { running: true, force_quit: false }),
    {
        ShutdownFlags { running: true, force_quit: false }
    }
}

/// The flags after one more signal.
pub open spec fn signalled(f: ShutdownFlags) -> ShutdownFlags {
    ShutdownFlags { running: false, force_quit: f.force_quit || !f.running }
}

/// No signal has come.
pub fn running(flags: &ShutdownFlags) -> (r: bool)
    ensures
        r == flags.running,
{
    flags.running
}

/// A second signal has come.
pub fn force_quit(flags: &ShutdownFlags) -> (r: bool)
    ensures
        r == flags.force_quit,
{
    flags.force_quit
}

/// How a cycle runs under these flags.
pub open spec fn mode_of(f: ShutdownFlags) -> LoopMode {
    if f.running {
        LoopMode::Run
    } else if f.force_quit {
        LoopMode::Quit
    } else {
        LoopMode::Stop
    }
}

/// How the next cycle runs.
pub fn loop_mode(flags: &ShutdownFlags) -> (r: LoopMode)
    ensures
        r == mode_of(*flags),
{
    if running(flags) {
        LoopMode::Run
    } else if force_quit(flags) {
        LoopMode::Quit
    } else {
        LoopMode::Stop
    }
}

/// The first signal starts the controlled stop, any further one cuts it short,
/// and no signal takes either back.
pub proof fn signals_escalate(f: ShutdownFlags)
    requires
        f.running ==> !f.force_quit,
    ensures
        mode_of(f) is Run ==> mode_of(signalled(f)) is Stop,
        !(mode_of(f) is Run) ==> mode_of(signalled(f)) is Quit,
        !signalled(f).running,
{
}

/// A daemon without a signal runs, one that was told to stop stops under
/// control, and one that was told twice leaves at once.
pub proof fn flags_rule_the_loop(f: ShutdownFlags)
    ensures
        f.running ==> mode_of(f) is Run,
        !f.running && !f.force_quit ==> mode_of(f) is Stop,
        !f.running && f.force_quit ==> mode_of(f) is Quit,
        signalled(f).force_quit <==> f.force_quit || !f.running,
{
}

} // verus!
