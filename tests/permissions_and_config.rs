use discord_bot::permissions::{
    capability_from_name, parse_permissions, validate, Capability, CliLogParametersFileRotation,
    Permissions,
};

#[test]
fn permission_names_ignore_case() {
    let p = parse_permissions(&vec!["shutdown".to_string(), "Discord_Event_Message_Create".to_string()]).unwrap();
    assert!(p.has(Capability::Shutdown));
    assert!(p.has(Capability::MessageCreate));
    assert!(!p.has(Capability::ThreadCreate));
}

#[test]
fn unknown_permission_is_rejected() {
    let r = parse_permissions(&vec!["SHUTDOWN".to_string(), "FLY".to_string(), "nope".to_string()]);
    assert_eq!(r, Err("FLY".to_string()));
}

#[test]
fn empty_permission_list_grants_nothing() {
    assert_eq!(parse_permissions(&vec![]), Ok(Permissions::empty()));
    assert!(Permissions::all().has(Capability::DependencyFunctions));
}

#[test]
fn capability_names() {
    assert_eq!(capability_from_name("DISCORD_EVENT_THREAD_MEMBERS_UPDATE"), Some(Capability::ThreadMembersUpdate));
    assert_eq!(capability_from_name("shutdown"), None);
}

#[test]
fn log_rotation_names() {
    assert_eq!(CliLogParametersFileRotation::from_arg("minutely"), CliLogParametersFileRotation::Minutely);
    assert_eq!(CliLogParametersFileRotation::from_arg("Hourly"), CliLogParametersFileRotation::Hourly);
    assert_eq!(CliLogParametersFileRotation::from_arg("NEVER"), CliLogParametersFileRotation::Never);
    assert_eq!(CliLogParametersFileRotation::from_arg("weekly"), CliLogParametersFileRotation::Daily);
}

#[test]
fn token_validation() {
    assert_eq!(validate("abc.def".to_string()), Ok("abc.def".to_string()));
    assert_eq!(validate(String::new()), Err(()));
    assert_eq!(validate("a=b".to_string()), Err(()));
    assert_eq!(validate("a\0b".to_string()), Err(()));
}
