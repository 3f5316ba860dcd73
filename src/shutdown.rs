//! Coordinated shutdown, exit codes, and the host calls through which a
//! plugin stops the host or calls another plugin.

use vstd::prelude::*;
use vstd::string::*;

use crate::permissions::{Capability, Permissions};
use crate::registrations::PluginRegistrations;

verus! {

/// Why the host stops.
#[derive(Clone, Copy, Debug, PartialEq, Eq, Structural)]
pub enum ShutdownReason {
    Normal,
    SigInt,
    Restart,
}

#[derive(Clone, Copy, Debug, PartialEq, Eq, Structural)]
pub enum ShutdownState {
    Running,
    Stopping(ShutdownReason),
    Stopped(ShutdownReason),
}

/// One step of the stop sequence, performed in order.
pub enum ShutdownStep {
    /// Send the cron engine its shutdown message and await the acknowledgement.
    StopJobScheduler,
    /// Send the chat-service client its shutdown message and await the acknowledgement.
    StopDiscordBotClient,
    /// Call this plugin's shutdown export; an error is logged, not awaited on.
    CallPluginShutdown(String),
    /// Fire the cancellation token.
    Cancel,
}

/// What a caller of shutdown does.
pub enum ShutdownRequest {
    /// Run this stop sequence.
    Begin(Vec<ShutdownStep>),
    /// A stop sequence is already under way: await the cancellation token.
    AwaitCompletion,
}

/// The shutdown state machine.
pub struct ShutdownCoordinator {
    pub state: ShutdownState,
}

/// The state after a shutdown request for `reason`.
pub open spec fn after_request(s: ShutdownState, reason: ShutdownReason) -> ShutdownState {
    match s {
        ShutdownState::Running => ShutdownState::Stopping(reason),
        _ => s,
    }
}

/// The state after the requests `rs` and how many stop sequences they began.
pub open spec fn run_requests(s: ShutdownState, rs: Seq<ShutdownReason>) -> (ShutdownState, nat)
    decreases rs.len(),
{
    if rs.len() == 0 {
        (s, 0)
    } else {
        let (s1, n) = run_requests(s, rs.drop_last());
        (after_request(s1, rs.last()), n + if s1 is Running {
            1nat
        } else {
            0nat
        })
    }
}

/// The stop sequence for the plugins `plugins`: the cron engine, then the
/// chat-service client, then each plugin holding the shutdown capability, in
/// order, then the cancellation token.
pub open spec fn stop_sequence_ok(steps: Seq<ShutdownStep>, plugins: Seq<(String, Permissions)>) -> bool {
    let capable = plugins.filter(|p: (String, Permissions)| p.1.spec_has(Capability::Shutdown));
    &&& steps.len() == capable.len() + 3
    &&& steps[0] is StopJobScheduler
    &&& steps[1] is StopDiscordBotClient
    &&& forall|i: int|
        0 <= i < capable.len() ==> (#[trigger] steps[i + 2] matches ShutdownStep::CallPluginShutdown(
            p,
        ) && p@ == capable[i].0@)
    &&& steps.last() is Cancel
}

impl ShutdownCoordinator {
    pub fn new() -> (r: ShutdownCoordinator)
        ensures
            r.state == ShutdownState::Running,
    {
        ShutdownCoordinator { state: ShutdownState::Running }
    }

    /// Requests a stop for `reason`. The first request moves Running to
    /// Stopping and gets the stop sequence; every later one is told to await
    /// the one under way, and changes nothing.
    pub fn request(&mut self, reason: ShutdownReason, plugins: &Vec<(String, Permissions)>) -> (r:
        ShutdownRequest)
        ensures
            final(self).state == after_request(old(self).state, reason),
            match r {
                ShutdownRequest::Begin(steps) => old(self).state is Running && stop_sequence_ok(
                    steps@,
                    plugins@,
                ),
                ShutdownRequest::AwaitCompletion => !(old(self).state is Running),
            },
    {
        match self.state {
            ShutdownState::Running => {},
            _ => {
                return ShutdownRequest::AwaitCompletion;
            },
        }
        self.state = ShutdownState::Stopping(reason);
        let ghost capable = plugins@.filter(
            |p: (String, Permissions)| p.1.spec_has(Capability::Shutdown),
        );
        let mut steps: Vec<ShutdownStep> = Vec::new();
        steps.push(ShutdownStep::StopJobScheduler);
        steps.push(ShutdownStep::StopDiscordBotClient);
        let n = plugins.len();
        let mut i: usize = 0;
        while i < n
            invariant
                n == plugins@.len(),
                i <= n,
                ({
                    let c = plugins@.subrange(0, i as int).filter(
                        |p: (String, Permissions)| p.1.spec_has(Capability::Shutdown),
                    );
                    &&& steps@.len() == c.len() + 2
                    &&& steps@[0] is StopJobScheduler
                    &&& steps@[1] is StopDiscordBotClient
                    &&& forall|j: int|
                        0 <= j < c.len() ==> (#[trigger] steps@[j + 2] matches ShutdownStep::CallPluginShutdown(
                            p,
                        ) && p@ == c[j].0@)
                }),
            decreases n - i,
        {
            proof {
                reveal(Seq::filter);
                let sub = plugins@.subrange(0, i + 1);
                assert(sub.drop_last() =~= plugins@.subrange(0, i as int));
                assert(sub.last() == plugins@[i as int]);
            }
            if plugins[i].1.has(Capability::Shutdown) {
                steps.push(ShutdownStep::CallPluginShutdown(plugins[i].0.clone()));
            }
            i = i + 1;
        }
        assert(plugins@.subrange(0, n as int) =~= plugins@);
        steps.push(ShutdownStep::Cancel);
        ShutdownRequest::Begin(steps)
    }

    /// The stop sequence has run: Stopping becomes Stopped.
    pub fn finish(&mut self)
        ensures
            final(self).state == match old(self).state {
                ShutdownState::Stopping(r) => ShutdownState::Stopped(r),
                s => s,
            },
    {
        match self.state {
            ShutdownState::Stopping(r) => {
                self.state = ShutdownState::Stopped(r);
            },
            _ => {},
        }
    }

    /// A terminal interrupt: the first starts a stop for `SigInt`; one that
    /// comes while stopping forces an immediate exit with code 130.
    pub fn interrupt(&mut self, plugins: &Vec<(String, Permissions)>) -> (r: InterruptAction)
        ensures
            match old(self).state {
                ShutdownState::Running => r matches InterruptAction::Shutdown(
                    ShutdownRequest::Begin(steps),
                ) && stop_sequence_ok(steps@, plugins@) && final(self).state
                    == ShutdownState::Stopping(ShutdownReason::SigInt),
                _ => r matches InterruptAction::ForceExit(code) && code == 130 && final(self).state
                    == old(self).state,
            },
    {
        match self.state {
            ShutdownState::Running => InterruptAction::Shutdown(
                self.request(ShutdownReason::SigInt, plugins),
            ),
            _ => InterruptAction::ForceExit(130),
        }
    }
}

/// What to do on a terminal interrupt.
pub enum InterruptAction {
    Shutdown(ShutdownRequest),
    ForceExit(u8),
}

/// Shutdown is idempotent: however many requests come, only the first begins
/// a stop sequence, and the state records the first reason.
pub proof fn lemma_shutdown_is_idempotent(rs: Seq<ShutdownReason>)
    ensures
        run_requests(ShutdownState::Running, rs).1 == if rs.len() > 0 {
            1nat
        } else {
            0nat
        },
        rs.len() > 0 ==> run_requests(ShutdownState::Running, rs).0 == ShutdownState::Stopping(
            rs[0],
        ),
    decreases rs.len(),
{
    if rs.len() > 1 {
        lemma_shutdown_is_idempotent(rs.drop_last());
        assert(rs.drop_last()[0] == rs[0]);
        let (s1, n) = run_requests(ShutdownState::Running, rs.drop_last());
        assert(s1 == ShutdownState::Stopping(rs[0]));
        assert(n == 1);
    } else if rs.len() == 1 {
        assert(rs.drop_last().len() == 0);
        assert(run_requests(ShutdownState::Running, rs.drop_last()) == (ShutdownState::Running, 0nat));
    }
}

/// How the process ends.
#[derive(Clone, Copy, Debug, PartialEq, Eq, Structural)]
pub enum ExitPlan {
    Exit(u8),
    /// Start the program anew; exit with code 1 if that fails.
    Restart,
}

/// The exit for a stop reason; `None` is a run that ended without one,
/// which is abnormal.
pub fn exit_plan(reason: Option<ShutdownReason>) -> (r: ExitPlan)
    ensures
        r == match reason {
            Some(ShutdownReason::Normal) => ExitPlan::Exit(0),
            Some(ShutdownReason::SigInt) => ExitPlan::Exit(130),
            Some(ShutdownReason::Restart) => ExitPlan::Restart,
            None => ExitPlan::Exit(1),
        },
{
    match reason {
        Some(ShutdownReason::Normal) => ExitPlan::Exit(0),
        Some(ShutdownReason::SigInt) => ExitPlan::Exit(130),
        Some(ShutdownReason::Restart) => ExitPlan::Restart,
        None => ExitPlan::Exit(1),
    }
}

/// The exit code when a restart could not be started.
pub const RESTART_FAILED_EXIT_CODE: u8 = 1;

/// The error a plugin gets when it asks to stop the host without the capability.
pub open spec fn shutdown_refused() -> Seq<char> {
    "The plugin does not have the shutdown permission"@
}

/// A plugin's `shutdown(restart)` host call: with the shutdown capability it
/// gives the reason to stop for; without it the plugin gets an error and
/// the host carries on.
pub fn shutdown_host_call(permissions: &Permissions, restart: bool) -> (r: Result<
    ShutdownReason,
    String,
>)
    ensures
        permissions.spec_has(Capability::Shutdown) ==> r == Ok::<ShutdownReason, String>(
            if restart {
                ShutdownReason::Restart
            } else {
                ShutdownReason::Normal
            },
        ),
        !permissions.spec_has(Capability::Shutdown) ==> (r matches Err(e) && e@
            == shutdown_refused()),
{
    if !permissions.has(Capability::Shutdown) {
        return Err("The plugin does not have the shutdown permission".to_owned());
    }
    if restart {
        Ok(ShutdownReason::Restart)
    } else {
        Ok(ShutdownReason::Normal)
    }
}

/// The error a plugin gets when it calls a plugin that is not loaded.
pub open spec fn unknown_dependency(id: Seq<char>) -> Seq<char> {
    "The dependency plugin is not loaded: "@ + id
}

/// A plugin's `dependency(plugin_id, ...)` host call may go ahead only if
/// the target plugin is loaded.
pub fn check_dependency_target(store: &PluginRegistrations, plugin_id: &str) -> (r: Result<
    (),
    String,
>)
    ensures
        store.loaded().contains(plugin_id@) ==> r is Ok,
        !store.loaded().contains(plugin_id@) ==> (r matches Err(e) && e@ == unknown_dependency(
            plugin_id@,
        )),
{
    if store.is_loaded(plugin_id) {
        Ok(())
    } else {
        Err("The dependency plugin is not loaded: ".to_owned().concat(plugin_id))
    }
}

/// How a dependency call into a plugin ended.
pub enum DependencyOutcome {
    /// The export returned this.
    Returned(Result<Vec<u8>, String>),
    /// Calling the export failed at host level.
    Failed(String),
}

/// What the calling plugin receives for a dependency call.
pub fn dependency_result(outcome: DependencyOutcome) -> (r: Result<Vec<u8>, String>)
    ensures
        match outcome {
            DependencyOutcome::Returned(Ok(b)) => r == Ok::<Vec<u8>, String>(b),
            DependencyOutcome::Returned(Err(e)) => r matches Err(m) && m@
                == "The plugin returned an error: "@ + e@,
            DependencyOutcome::Failed(e) => r matches Err(m) && m@
                == "Something went wrong while calling the plugin: "@ + e@,
        },
{
    match outcome {
        DependencyOutcome::Returned(Ok(b)) => Ok(b),
        DependencyOutcome::Returned(Err(e)) => Err(
            "The plugin returned an error: ".to_owned().concat(e.as_str()),
        ),
        DependencyOutcome::Failed(e) => Err(
            "Something went wrong while calling the plugin: ".to_owned().concat(e.as_str()),
        ),
    }
}

} // verus!
