use discord_bot::commands::{
    assign_command_names, choose_route, decimal_string, delete_route, deletion_result,
    obsolete_commands, DeleteRoute,
    plan_application_commands, CommandHead, ExistingCommand, PlannedCommand, RegistrationRoute,
};
use discord_bot::permissions::{Capability, Permissions};
use discord_bot::registrations::{
    initialize_registrations, job_registrations, InitializationOutcome,
    PluginRegistrationRequestsScheduledJob, CustomIdKind, EventKind, PluginRegistrationRequests,
    PluginRegistrationRequestsApplicationCommand, PluginRegistrations, RegistrationResponse,
};
use discord_bot::router::{
    after_call, fan_out, route_interaction, route_scheduled_job, router_step, CallOutcome,
    DiscordEvents, InteractionTarget, RouterAction, RouterInput, RuntimeMessages,
};

fn response() -> RegistrationResponse {
    RegistrationResponse {
        message_create: false,
        thread_create: false,
        thread_delete: false,
        thread_list_sync: false,
        thread_member_update: false,
        thread_members_update: false,
        thread_update: false,
        application_commands: vec![],
        message_components: vec![],
        modals: vec![],
        scheduled_jobs: vec![],
        dependency_functions: vec![],
    }
}

fn command_json(name: &str, guild: Option<u64>) -> Vec<u8> {
    match guild {
        Some(g) => format!(
            "{{\"default_member_permissions\":null,\"description\":\"d\",\"type\":1,\"name\":\"{name}\",\"version\":\"1\",\"guild_id\":\"{g}\"}}"
        )
        .into_bytes(),
        None => format!(
            "{{\"default_member_permissions\":null,\"description\":\"d\",\"type\":1,\"name\":\"{name}\",\"version\":\"1\"}}"
        )
        .into_bytes(),
    }
}

fn request(plugin: &str, id: &str, data: Vec<u8>) -> PluginRegistrationRequestsApplicationCommand {
    PluginRegistrationRequestsApplicationCommand { plugin_id: plugin.to_string(), id: id.to_string(), data }
}

#[test]
fn single_plugin_single_command() {
    let mut store = PluginRegistrations::new();
    let mut requests = PluginRegistrationRequests::new();
    let mut r = response();
    r.application_commands = vec![("hi".to_string(), command_json("greet", None))];
    store.record_plugin("greeter".to_string(), Permissions::all(), r, &mut requests);
    let reqs = requests.discord_event_interaction_create.application_commands;
    assert_eq!(reqs.len(), 1);
    let planned = plan_application_commands(reqs);
    assert_eq!(planned.len(), 1);
    assert_eq!(planned[0].name, "greet");
    assert_eq!(planned[0].plugin_id, "greeter");
    assert_eq!(planned[0].internal_id, "hi");
    assert_eq!(choose_route(&vec![], &planned[0].name, planned[0].guild_id), RegistrationRoute::Create);
    store.confirm_application_command(555, planned[0].plugin_id.clone(), planned[0].internal_id.clone());
    assert_eq!(store.command_target(555), Some(("greeter".to_string(), "hi".to_string())));
    assert_eq!(store.command_target(556), None);
}

#[test]
fn name_collision_gets_suffix() {
    let reqs = vec![
        request("a", "p1", command_json("ping", None)),
        request("b", "p2", command_json("ping", None)),
    ];
    let planned = plan_application_commands(reqs);
    assert_eq!(planned.len(), 2);
    assert_eq!(planned[0].name, "ping");
    assert_eq!(planned[0].plugin_id, "a");
    assert_eq!(planned[1].name, "ping~1");
    assert_eq!(planned[1].plugin_id, "b");
    assert_eq!(planned[0].data, Some(command_json("ping", None)));
    let renamed = String::from_utf8(planned[1].data.clone().unwrap()).unwrap();
    assert!(renamed.contains("\"ping~1\""));
    let mut store = PluginRegistrations::new();
    store.confirm_application_command(1, "a".to_string(), "p1".to_string());
    store.confirm_application_command(2, "b".to_string(), "p2".to_string());
    assert_eq!(store.command_target(1), Some(("a".to_string(), "p1".to_string())));
    assert_eq!(store.command_target(2), Some(("b".to_string(), "p2".to_string())));
}

#[test]
fn suffix_counter_is_per_guild() {
    let reqs = vec![
        request("a", "1", command_json("ping", Some(10))),
        request("b", "2", command_json("ping", None)),
        request("c", "3", command_json("ping", Some(10))),
        request("d", "4", command_json("ping", Some(10))),
        request("e", "5", b"not json".to_vec()),
    ];
    let planned = plan_application_commands(reqs);
    let names: Vec<&str> = planned.iter().map(|p| p.name.as_str()).collect();
    assert_eq!(names, vec!["ping", "ping", "ping~1", "ping~2"]);
    assert_eq!(planned[0].guild_id, Some(10));
    assert_eq!(planned[1].guild_id, None);
}

#[test]
fn assign_names_directly() {
    let head = |n: &str| CommandHead { name: n.to_string(), guild_id: None };
    let planned = assign_command_names(vec![
        (request("a", "x", vec![]), head("x")),
        (request("b", "y", vec![]), head("y")),
        (request("c", "x", vec![]), head("x")),
    ]);
    assert_eq!(planned[0].name, "x");
    assert_eq!(planned[1].name, "y");
    assert_eq!(planned[2].name, "x~1");
    // the descriptor of a renamed command that does not decode cannot be re-encoded
    assert_eq!(planned[2].data, None);
    assert_eq!(planned[0].data, Some(vec![]));
    assert_eq!(decimal_string(0), "0");
    assert_eq!(decimal_string(1207), "1207");
}

#[test]
fn reconcile_existing_commands() {
    let existing = vec![
        ExistingCommand { id: 7, name: "ping".to_string(), guild_id: None },
        ExistingCommand { id: 8, name: "old".to_string(), guild_id: None },
        ExistingCommand { id: 9, name: "ping".to_string(), guild_id: Some(3) },
    ];
    let planned = vec![PlannedCommand {
        plugin_id: "a".to_string(),
        internal_id: "p".to_string(),
        name: "ping".to_string(),
        guild_id: None,
        data: Some(vec![]),
    }];
    assert_eq!(choose_route(&existing, &"ping".to_string(), None), RegistrationRoute::Update(7));
    assert_eq!(choose_route(&existing, &"ping".to_string(), Some(3)), RegistrationRoute::Update(9));
    assert_eq!(choose_route(&existing, &"pong".to_string(), None), RegistrationRoute::Create);
    let obsolete = obsolete_commands(&existing, &planned);
    assert_eq!(obsolete, vec![(8, None), (9, Some(3))]);
    assert_eq!(delete_route(obsolete[0]), DeleteRoute::Global { command_id: 8 });
    assert_eq!(delete_route(obsolete[1]), DeleteRoute::Guild { command_id: 9, guild_id: 3 });
}

#[test]
fn deletion_pass_reports_the_first_failure() {
    assert_eq!(deletion_result(&vec![Ok(()), Ok(())]), Ok(()));
    assert_eq!(deletion_result(&vec![]), Ok(()));
    assert_eq!(
        deletion_result(&vec![Ok(()), Err("first".to_string()), Err("second".to_string())]),
        Err("first".to_string())
    );
}

#[test]
fn subscriptions_follow_declarations_and_permissions() {
    let mut store = PluginRegistrations::new();
    let mut requests = PluginRegistrationRequests::new();
    let mut r = response();
    r.message_create = true;
    r.thread_create = true;
    let mut perms = Permissions::empty();
    perms.grant(Capability::MessageCreate);
    store.record_plugin("a".to_string(), perms, r, &mut requests);
    store.record_plugin("quiet".to_string(), Permissions::all(), response(), &mut requests);
    let mut r2 = response();
    r2.message_create = true;
    store.record_plugin("b".to_string(), Permissions::all(), r2, &mut requests);
    assert_eq!(store.subscriber_list(EventKind::MessageCreate), &vec!["a".to_string(), "b".to_string()]);
    assert!(store.subscriber_list(EventKind::ThreadCreate).is_empty());
    for k in [EventKind::MessageCreate, EventKind::ThreadCreate, EventKind::ThreadUpdate] {
        assert!(!store.subscriber_list(k).contains(&"quiet".to_string()));
    }
    assert!(store.is_loaded("quiet"));
}

#[test]
fn custom_id_collision_last_writer_wins() {
    let mut store = PluginRegistrations::new();
    let mut requests = PluginRegistrationRequests::new();
    let mut r = response();
    r.message_components = vec!["btn".to_string()];
    let w1 = store.record_plugin("a".to_string(), Permissions::all(), r, &mut requests);
    assert!(w1.is_empty());
    let mut r = response();
    r.message_components = vec!["btn".to_string()];
    r.modals = vec!["form".to_string()];
    let w2 = store.record_plugin("b".to_string(), Permissions::all(), r, &mut requests);
    assert_eq!(w2, vec!["btn".to_string()]);
    assert_eq!(store.custom_id_target(CustomIdKind::MessageComponent, "btn"), Some("b".to_string()));
    assert_eq!(store.custom_id_target(CustomIdKind::Modal, "form"), Some("b".to_string()));
    assert_eq!(store.custom_id_target(CustomIdKind::Modal, "btn"), None);
}

#[test]
fn jobs_and_dependencies_are_recorded() {
    let mut store = PluginRegistrations::new();
    let mut requests = PluginRegistrationRequests::new();
    let mut r = response();
    r.scheduled_jobs = vec![("tick".to_string(), vec!["0 * * * * *".to_string()])];
    r.dependency_functions = vec!["hello".to_string()];
    store.record_plugin("b".to_string(), Permissions::all(), r, &mut requests);
    assert_eq!(requests.scheduled_jobs.len(), 1);
    assert_eq!(requests.scheduled_jobs[0].plugin_id, "b");
    assert_eq!(requests.scheduled_jobs[0].crons, vec!["0 * * * * *".to_string()]);
    assert_eq!(store.dependency_functions, vec![("b".to_string(), vec!["hello".to_string()])]);
    store.insert_scheduled_job(42, "b".to_string(), "tick".to_string());
    assert_eq!(store.job_target(42), Some(("b".to_string(), "tick".to_string())));
    match route_scheduled_job(&store, 42) {
        Some(RuntimeMessages::CallScheduledJob(p, j)) => {
            assert_eq!(p, "b");
            assert_eq!(j, "tick");
        }
        _ => panic!("expected a timer call"),
    }
    assert!(route_scheduled_job(&store, 43).is_none());
}

#[test]
fn fan_out_in_subscription_order() {
    let mut store = PluginRegistrations::new();
    let mut requests = PluginRegistrationRequests::new();
    for id in ["x", "y"] {
        let mut r = response();
        r.thread_delete = true;
        store.record_plugin(id.to_string(), Permissions::all(), r, &mut requests);
    }
    let msgs = fan_out(&store, EventKind::ThreadDelete, &vec![1, 2, 3]);
    assert_eq!(msgs.len(), 2);
    for (m, id) in msgs.iter().zip(["x", "y"]) {
        match m {
            RuntimeMessages::CallDiscordEvent(p, DiscordEvents::ThreadDelete(b)) => {
                assert_eq!(p, id);
                assert_eq!(b, &vec![1, 2, 3]);
            }
            _ => panic!("expected a thread delete event"),
        }
    }
    assert!(fan_out(&store, EventKind::MessageCreate, &vec![]).is_empty());
}

#[test]
fn interactions_route_to_their_plugin() {
    let mut store = PluginRegistrations::new();
    store.confirm_application_command(9, "a".to_string(), "cmd".to_string());
    let m = route_interaction(&store, &InteractionTarget::ApplicationCommand(9), vec![4]);
    assert!(matches!(m, Some(RuntimeMessages::CallDiscordEvent(ref p, DiscordEvents::InteractionCreate(ref b))) if p == "a" && b == &vec![4]));
    assert!(route_interaction(&store, &InteractionTarget::ApplicationCommand(10), vec![]).is_none());
    assert!(route_interaction(&store, &InteractionTarget::Modal("m".to_string()), vec![]).is_none());
}

#[test]
fn plugin_error_keeps_dispatching_and_trap_removes() {
    let mut store = PluginRegistrations::new();
    let mut requests = PluginRegistrationRequests::new();
    let mut r = response();
    r.message_create = true;
    store.record_plugin("p".to_string(), Permissions::all(), r, &mut requests);
    after_call(&mut store, "p", &CallOutcome::PluginError("bad".to_string()));
    assert!(store.is_loaded("p"));
    let msg = RuntimeMessages::CallDiscordEvent("p".to_string(), DiscordEvents::MessageCreate(vec![]));
    assert!(matches!(router_step(&store, RouterInput::Message(msg)), RouterAction::Deliver(_)));
    after_call(&mut store, "p", &CallOutcome::Trapped("fault".to_string()));
    assert!(!store.is_loaded("p"));
    assert!(store.subscriber_list(EventKind::MessageCreate).is_empty());
    let msg = RuntimeMessages::CallScheduledJob("p".to_string(), "t".to_string());
    assert!(matches!(router_step(&store, RouterInput::Message(msg)), RouterAction::Discard(_)));
    assert!(matches!(router_step(&store, RouterInput::Cancelled), RouterAction::Stop));
    assert!(matches!(router_step(&store, RouterInput::ChannelClosed), RouterAction::Stop));
}

#[test]
fn router_keeps_per_plugin_order() {
    let mut store = PluginRegistrations::new();
    let mut requests = PluginRegistrationRequests::new();
    store.record_plugin("a".to_string(), Permissions::all(), response(), &mut requests);
    let inputs = vec![
        RuntimeMessages::CallScheduledJob("a".to_string(), "1".to_string()),
        RuntimeMessages::CallScheduledJob("gone".to_string(), "x".to_string()),
        RuntimeMessages::CallScheduledJob("a".to_string(), "2".to_string()),
    ];
    let mut delivered = vec![];
    for m in inputs {
        if let RouterAction::Deliver(RuntimeMessages::CallScheduledJob(p, j)) = router_step(&store, RouterInput::Message(m)) {
            delivered.push((p, j));
        }
    }
    assert_eq!(delivered, vec![("a".to_string(), "1".to_string()), ("a".to_string(), "2".to_string())]);
}

#[test]
fn one_timer_per_cron_expression() {
    let jobs = vec![
        PluginRegistrationRequestsScheduledJob {
            plugin_id: "a".to_string(),
            id: "t1".to_string(),
            crons: vec!["c1".to_string(), "c2".to_string()],
        },
        PluginRegistrationRequestsScheduledJob { plugin_id: "b".to_string(), id: "t2".to_string(), crons: vec![] },
        PluginRegistrationRequestsScheduledJob {
            plugin_id: "c".to_string(),
            id: "t3".to_string(),
            crons: vec!["c3".to_string()],
        },
    ];
    let s = |x: &str| x.to_string();
    assert_eq!(
        job_registrations(&jobs),
        vec![(s("a"), s("t1"), s("c1")), (s("a"), s("t1"), s("c2")), (s("c"), s("t3"), s("c3"))]
    );
}

#[test]
fn initialization_pass_skips_failed_plugins() {
    let mut store = PluginRegistrations::new();
    let mut ok = response();
    ok.message_create = true;
    ok.application_commands = vec![("hi".to_string(), command_json("greet", None))];
    let mut again = response();
    again.message_create = true;
    let outcomes = vec![
        InitializationOutcome { plugin_id: "good".to_string(), permissions: Permissions::all(), response: Some(ok) },
        InitializationOutcome { plugin_id: "broken".to_string(), permissions: Permissions::all(), response: None },
        InitializationOutcome { plugin_id: "good".to_string(), permissions: Permissions::all(), response: Some(again) },
    ];
    let (requests, overwritten) = initialize_registrations(&mut store, outcomes);
    assert!(store.is_loaded("good"));
    assert!(!store.is_loaded("broken"));
    assert_eq!(store.plugins, vec!["good".to_string()]);
    assert_eq!(store.subscriber_list(EventKind::MessageCreate), &vec!["good".to_string()]);
    assert_eq!(requests.discord_event_interaction_create.application_commands.len(), 1);
    assert!(overwritten.is_empty());
}

#[test]
fn dependency_functions_are_deduplicated_and_dropped_on_trap() {
    let mut store = PluginRegistrations::new();
    let mut requests = PluginRegistrationRequests::new();
    let mut r = response();
    r.dependency_functions = vec!["hello".to_string(), "bye".to_string(), "hello".to_string()];
    store.record_plugin("b".to_string(), Permissions::all(), r, &mut requests);
    assert_eq!(store.dependency_functions, vec![("b".to_string(), vec!["hello".to_string(), "bye".to_string()])]);
    let mut no_deps = Permissions::all();
    no_deps.dependency_functions = false;
    let mut r = response();
    r.dependency_functions = vec!["x".to_string()];
    store.record_plugin("c".to_string(), no_deps, r, &mut requests);
    assert_eq!(store.dependency_functions.len(), 1);
    after_call(&mut store, "b", &CallOutcome::Trapped("fault".to_string()));
    assert!(store.dependency_functions.is_empty());
}

#[test]
fn initialization_pass_forwards_requests_in_plugin_order() {
    let mut store = PluginRegistrations::new();
    let mut a = response();
    a.application_commands = vec![("ping".to_string(), command_json("ping", None))];
    a.scheduled_jobs = vec![("t".to_string(), vec!["c".to_string()])];
    a.message_components = vec!["btn".to_string()];
    let mut b = response();
    b.application_commands = vec![("ping".to_string(), command_json("ping", None))];
    b.message_components = vec!["btn".to_string()];
    let outcomes = vec![
        InitializationOutcome { plugin_id: "a".to_string(), permissions: Permissions::all(), response: Some(a) },
        InitializationOutcome { plugin_id: "failed".to_string(), permissions: Permissions::all(), response: None },
        InitializationOutcome { plugin_id: "b".to_string(), permissions: Permissions::all(), response: Some(b) },
    ];
    let (requests, overwritten) = initialize_registrations(&mut store, outcomes);
    let cmds = &requests.discord_event_interaction_create.application_commands;
    assert_eq!(cmds.len(), 2);
    assert_eq!(cmds[0].plugin_id, "a");
    assert_eq!(cmds[1].plugin_id, "b");
    assert_eq!(requests.scheduled_jobs.len(), 1);
    assert_eq!(overwritten, vec!["btn".to_string()]);
    assert_eq!(store.custom_id_target(CustomIdKind::MessageComponent, "btn"), Some("b".to_string()));
}

#[test]
fn same_plugin_custom_id_is_no_collision() {
    let mut store = PluginRegistrations::new();
    let mut requests = PluginRegistrationRequests::new();
    let mut r = response();
    r.message_components = vec!["btn".to_string(), "btn".to_string()];
    let w = store.record_plugin("a".to_string(), Permissions::all(), r, &mut requests);
    assert!(w.is_empty());
    assert_eq!(store.custom_id_target(CustomIdKind::MessageComponent, "btn"), Some("a".to_string()));
}
