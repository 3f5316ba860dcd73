use discord_bot::permissions::{Capability, Permissions};
use discord_bot::registrations::{PluginRegistrationRequests, PluginRegistrations, RegistrationResponse};
use discord_bot::shutdown::{
    check_dependency_target, dependency_result, exit_plan, shutdown_host_call, DependencyOutcome,
    ExitPlan, InterruptAction, ShutdownCoordinator, ShutdownReason, ShutdownRequest, ShutdownState,
    ShutdownStep,
};

fn plugins() -> Vec<(String, Permissions)> {
    let mut no_shutdown = Permissions::all();
    no_shutdown.shutdown = false;
    vec![("a".to_string(), Permissions::all()), ("b".to_string(), no_shutdown)]
}

#[test]
fn interrupt_during_steady_state() {
    let mut c = ShutdownCoordinator::new();
    let steps = match c.interrupt(&plugins()) {
        InterruptAction::Shutdown(ShutdownRequest::Begin(steps)) => steps,
        _ => panic!("expected a stop sequence"),
    };
    assert_eq!(steps.len(), 4);
    assert!(matches!(steps[0], ShutdownStep::StopJobScheduler));
    assert!(matches!(steps[1], ShutdownStep::StopDiscordBotClient));
    assert!(matches!(&steps[2], ShutdownStep::CallPluginShutdown(p) if p == "a"));
    assert!(matches!(steps[3], ShutdownStep::Cancel));
    assert_eq!(c.state, ShutdownState::Stopping(ShutdownReason::SigInt));
    c.finish();
    assert_eq!(c.state, ShutdownState::Stopped(ShutdownReason::SigInt));
    assert_eq!(exit_plan(Some(ShutdownReason::SigInt)), ExitPlan::Exit(130));
}

#[test]
fn second_interrupt_forces_exit() {
    let mut c = ShutdownCoordinator::new();
    c.interrupt(&plugins());
    assert!(matches!(c.interrupt(&plugins()), InterruptAction::ForceExit(130)));
}

#[test]
fn shutdown_is_idempotent() {
    let mut c = ShutdownCoordinator::new();
    assert!(matches!(c.request(ShutdownReason::Restart, &plugins()), ShutdownRequest::Begin(_)));
    for _ in 0..3 {
        assert!(matches!(c.request(ShutdownReason::Normal, &plugins()), ShutdownRequest::AwaitCompletion));
    }
    assert_eq!(c.state, ShutdownState::Stopping(ShutdownReason::Restart));
}

#[test]
fn exit_codes() {
    assert_eq!(exit_plan(Some(ShutdownReason::Normal)), ExitPlan::Exit(0));
    assert_eq!(exit_plan(Some(ShutdownReason::Restart)), ExitPlan::Restart);
    assert_eq!(exit_plan(None), ExitPlan::Exit(1));
}

#[test]
fn shutdown_without_capability_is_refused() {
    let mut p = Permissions::all();
    p.shutdown = false;
    assert!(!p.has(Capability::Shutdown));
    let r = shutdown_host_call(&p, true);
    assert_eq!(r, Err("The plugin does not have the shutdown permission".to_string()));
    assert_eq!(shutdown_host_call(&Permissions::all(), true), Ok(ShutdownReason::Restart));
    assert_eq!(shutdown_host_call(&Permissions::all(), false), Ok(ShutdownReason::Normal));
}

#[test]
fn inter_plugin_call() {
    let mut store = PluginRegistrations::new();
    let mut requests = PluginRegistrationRequests::new();
    let response = RegistrationResponse {
        message_create: false,
        thread_create: false,
        thread_delete: false,
        thread_list_sync: false,
        thread_member_update: false,
        thread_members_update: false,
        thread_update: false,
        application_commands: vec![],
        message_components: vec![],
        modals: vec![],
        scheduled_jobs: vec![],
        dependency_functions: vec!["hello".to_string()],
    };
    store.record_plugin("b".to_string(), Permissions::all(), response, &mut requests);
    assert_eq!(check_dependency_target(&store, "b"), Ok(()));
    assert_eq!(
        dependency_result(DependencyOutcome::Returned(Ok(vec![9, 9]))),
        Ok(vec![9, 9])
    );
    assert_eq!(
        check_dependency_target(&store, "c"),
        Err("The dependency plugin is not loaded: c".to_string())
    );
    assert_eq!(
        dependency_result(DependencyOutcome::Returned(Err("bad".to_string()))),
        Err("The plugin returned an error: bad".to_string())
    );
    assert_eq!(
        dependency_result(DependencyOutcome::Failed("trap".to_string())),
        Err("Something went wrong while calling the plugin: trap".to_string())
    );
}
