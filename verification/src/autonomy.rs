//! The simulated autonomous behaviour of the central loop: which event it
//! reports on each tick.
use vstd::prelude::*;
use rand::Rng;

verus! {

/// A kind of background activity a sensor reports.
#[derive(Debug, Clone, Copy, PartialEq, Eq, Structural)]
pub enum SensorKind {
    FileOpen,
    NetSend,
    ProcExec,
}

/// What the loop reports on one tick of autonomous behaviour.
#[derive(Debug, Clone, Copy, PartialEq, Eq, Structural)]
pub enum AutonomousEvent {
    /// Standard background activity of the given kind.
    Background(SensorKind),
    /// A file save in the workspace, a compiler error, and its fix.
    CompilerFix,
    /// A CPU temperature spike and the scheduler tuning that answers it.
    ThermalSpike,
    /// A process that consumed a lot of memory.
    MemoryPressure,
    /// Nothing to report.
    Idle,
}

/// The sensor kind at position `i` of the list file open, net send,
/// process exec.
pub open spec fn spec_sensor_kind(i: usize) -> SensorKind {
    if i == 0 {
        SensorKind::FileOpen
    } else if i == 1 {
        SensorKind::NetSend
    } else {
        SensorKind::ProcExec
    }
}

/// The event for a scenario roll and, where the scenario is background
/// activity, a sensor roll: rolls 0 and 1 report background activity of
/// the sensor kind `sensor`, 2 a compiler fix, 3 a thermal spike, 4 memory
/// pressure, and any other roll nothing.
pub open spec fn spec_autonomous_event(scenario: usize, sensor: usize) -> AutonomousEvent {
    if scenario <= 1 {
        AutonomousEvent::Background(spec_sensor_kind(sensor))
    } else if scenario == 2 {
        AutonomousEvent::CompilerFix
    } else if scenario == 3 {
        AutonomousEvent::ThermalSpike
    } else if scenario == 4 {
        AutonomousEvent::MemoryPressure
    } else {
        AutonomousEvent::Idle
    }
}

impl SensorKind {
    /// The name under which the activity is reported.
    pub fn label(&self) -> (s: &'static str)
        ensures
            *self == SensorKind::FileOpen ==> s@ == "FILE_OPEN"@,
            *self == SensorKind::NetSend ==> s@ == "NET_SEND"@,
            *self == SensorKind::ProcExec ==> s@ == "PROC_EXEC"@,
    {
        match self {
            SensorKind::FileOpen => "FILE_OPEN",
            SensorKind::NetSend => "NET_SEND",
            SensorKind::ProcExec => "PROC_EXEC",
        }
    }
}

/// The sensor kind at position `i` of the list file open, net send,
/// process exec.
pub fn sensor_kind(i: usize) -> (k: SensorKind)
    requires
        i < 3,
    ensures
        k == spec_sensor_kind(i),
{
    if i == 0 {
        SensorKind::FileOpen
    } else if i == 1 {
        SensorKind::NetSend
    } else {
        SensorKind::ProcExec
    }
}

/// The event for the given rolls; `sensor` is read only when the scenario
/// is background activity.
pub fn autonomous_event(scenario: usize, sensor: usize) -> (e: AutonomousEvent)
    requires
        scenario <= 1 ==> sensor < 3,
    ensures
        e == spec_autonomous_event(scenario, sensor),
{
    if scenario <= 1 {
        AutonomousEvent::Background(sensor_kind(sensor))
    } else if scenario == 2 {
        AutonomousEvent::CompilerFix
    } else if scenario == 3 {
        AutonomousEvent::ThermalSpike
    } else if scenario == 4 {
        AutonomousEvent::MemoryPressure
    } else {
        AutonomousEvent::Idle
    }
}

/// A uniformly random number in `0..bound`, drawn from the thread-local
/// generator.
///
/// Calls `rand::thread_rng().gen_range(0..bound)`; the contract claims only
/// that the result lies in the range, which rand documents (it panics on an
/// empty range, which `requires` rules out). That the draw is uniform is not
/// stated.
#[verifier::external_body]
fn random_below(bound: usize) -> (r: usize)
    requires
        bound > 0,
    ensures
        r < bound,
{
    rand::thread_rng().gen_range(0..bound)
}

/// Draws the event for one tick: first a scenario roll in `0..5`, then, for
/// background activity, a sensor roll in `0..3`. Whatever is drawn, the
/// event is the one the two rolls select, and never `Idle`.
pub fn next_autonomous_event() -> (e: AutonomousEvent)
    ensures
        exists|scenario: usize, sensor: usize|
            scenario < 5 && sensor < 3 && e == #[trigger] spec_autonomous_event(scenario, sensor),
        e != AutonomousEvent::Idle,
{
    let scenario = random_below(5);
    let sensor = if scenario <= 1 {
        random_below(3)
    } else {
        0
    };
    let e = autonomous_event(scenario, sensor);
    assert(spec_autonomous_event(scenario, sensor) == e);
    e
}

/// The five scenario rolls `0..5` and three sensor rolls `0..3` reach every
/// event but `Idle`, and each event comes from its own rolls: a thermal
/// spike only from roll 3, memory pressure only from roll 4, a compiler fix
/// only from roll 2, and background activity of the `k`-th sensor kind
/// (file open, net send, process exec) only from rolls 0 and 1 with sensor
/// roll `k`.
pub proof fn lemma_every_scenario_reachable(scenario: usize, sensor: usize)
    ensures
        spec_autonomous_event(3, 0) == AutonomousEvent::ThermalSpike,
        spec_autonomous_event(4, 0) == AutonomousEvent::MemoryPressure,
        spec_autonomous_event(2, 0) == AutonomousEvent::CompilerFix,
        spec_autonomous_event(0, 0) == AutonomousEvent::Background(SensorKind::FileOpen),
        spec_autonomous_event(0, 1) == AutonomousEvent::Background(SensorKind::NetSend),
        spec_autonomous_event(0, 2) == AutonomousEvent::Background(SensorKind::ProcExec),
        scenario < 5 && sensor < 3 ==> {
            &&& spec_autonomous_event(scenario, sensor) != AutonomousEvent::Idle
            &&& (spec_autonomous_event(scenario, sensor) == AutonomousEvent::ThermalSpike
                <==> scenario == 3)
            &&& (spec_autonomous_event(scenario, sensor) == AutonomousEvent::MemoryPressure
                <==> scenario == 4)
            &&& (spec_autonomous_event(scenario, sensor) == AutonomousEvent::CompilerFix
                <==> scenario == 2)
            &&& (spec_autonomous_event(scenario, sensor) is Background <==> scenario <= 1)
            &&& (scenario <= 1 ==> spec_autonomous_event(scenario, sensor)
                == spec_autonomous_event(0, sensor))
        },
{
}

} // verus!
