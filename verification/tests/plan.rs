use linexus_orch::params::Params;
use linexus_orch::plan::action;
use linexus_orch::plan::{get, package_step, params_of, plan_intent, provision_steps, service_step, PlanRequest};

fn req(intent: &str) -> PlanRequest {
    PlanRequest {
        intent: intent.to_string(),
        targets: vec!["agent-1".into()],
        requester_id: "user:alice".into(),
        auto_rollback: true,
        params: Params::new(),
        task_id: None,
    }
}

fn is_uuid_v7_text(s: &str) -> bool {
    let c: Vec<char> = s.chars().collect();
    if c.len() != 36 {
        return false;
    }
    for (i, ch) in c.iter().enumerate() {
        let ok = if i == 8 || i == 13 || i == 18 || i == 23 {
            *ch == '-'
        } else {
            ch.is_ascii_digit() || ('a'..='f').contains(ch)
        };
        if !ok {
            return false;
        }
    }
    c[14] == '7' && matches!(c[19], '8' | '9' | 'a' | 'b')
}

#[test]
fn restart_maps_to_reboot() {
    let plan = plan_intent(&req("restart_node"));
    assert_eq!(plan.steps.len(), 1);
    assert_eq!(plan.steps[0].action, action::SYSTEM_REBOOT);
    assert!(plan.steps[0].critical);
    assert!(!plan.task_id.is_empty());
}

#[test]
fn run_command_carries_command_param() {
    let mut r = req("run_command");
    r.params.insert("command".into(), "systemctl status nginx".into());
    let plan = plan_intent(&r);
    assert_eq!(plan.steps[0].action, action::COMMAND_RUN);
    assert_eq!(
        plan.steps[0].params.get("command").map(String::as_str),
        Some("systemctl status nginx")
    );
}

#[test]
fn install_package_maps_to_package_ensure() {
    let mut r = req("install_package");
    r.params.insert("name".into(), "nginx".into());
    r.params.insert("version".into(), "1.24".into());
    let plan = plan_intent(&r);
    assert_eq!(plan.steps[0].action, action::PACKAGE_ENSURE);
    assert_eq!(
        plan.steps[0].params.get("state").map(String::as_str),
        Some("present")
    );
    assert_eq!(
        plan.steps[0].params.get("version").map(String::as_str),
        Some("1.24")
    );
    // Installing carries a remove compensation.
    assert!(plan.steps[0].compensation.is_some());
}

#[test]
fn manage_service_defaults_started_enabled() {
    let mut r = req("manage_service");
    r.params.insert("name".into(), "nginx".into());
    let plan = plan_intent(&r);
    assert_eq!(plan.steps[0].action, action::SERVICE_ENSURE);
    assert_eq!(
        plan.steps[0].params.get("state").map(String::as_str),
        Some("started")
    );
    assert_eq!(
        plan.steps[0].params.get("enabled").map(String::as_str),
        Some("true")
    );
}

#[test]
fn deploy_file_carries_path_and_content() {
    let mut r = req("deploy_file");
    r.params.insert("path".into(), "/etc/motd".into());
    r.params.insert("content".into(), "hello".into());
    r.params.insert("mode".into(), "0644".into());
    let plan = plan_intent(&r);
    assert_eq!(plan.steps[0].action, action::FILE_WRITE);
    assert_eq!(
        plan.steps[0].params.get("path").map(String::as_str),
        Some("/etc/motd")
    );
}

#[test]
fn provision_webserver_expands_to_package_and_service() {
    let plan = plan_intent(&req("provision_webserver"));
    assert_eq!(plan.steps.len(), 2);
    assert_eq!(plan.steps[0].action, action::PACKAGE_ENSURE);
    assert_eq!(
        plan.steps[0].params.get("name").map(String::as_str),
        Some("nginx")
    );
    assert_eq!(plan.steps[1].action, action::SERVICE_ENSURE);
}

#[test]
fn provision_unknown_role_falls_back_to_stub() {
    let plan = plan_intent(&req("provision_mystery"));
    assert_eq!(plan.steps.len(), 1);
    assert_eq!(plan.steps[0].action, action::ROLE_PROVISION);
    assert_eq!(
        plan.steps[0].params.get("role").map(String::as_str),
        Some("mystery")
    );
}

#[test]
fn unknown_intent_degrades_to_custom() {
    let plan = plan_intent(&req("do_something_novel"));
    assert_eq!(plan.steps[0].action, action::INTENT_CUSTOM);
    assert_eq!(
        plan.steps[0].params.get("intent").map(String::as_str),
        Some("do_something_novel")
    );
    assert!(!plan.steps[0].critical);
}

#[test]
fn caller_task_id_is_preserved() {
    let mut r = req("restart_node");
    r.task_id = Some("fixed-task-id".into());
    let plan = plan_intent(&r);
    assert_eq!(plan.task_id, "fixed-task-id");
}

// ---- further scenarios ----

#[test]
fn plan_keeps_intent_targets_and_rollback_flag() {
    let mut r = req("power_off_node");
    r.auto_rollback = false;
    r.targets = vec!["a".into(), "b".into()];
    let plan = plan_intent(&r);
    assert_eq!(plan.intent, "power_off_node");
    assert_eq!(plan.targets, vec!["a".to_string(), "b".to_string()]);
    assert!(!plan.auto_rollback);
    assert_eq!(plan.steps.len(), 1);
    assert_eq!(plan.steps[0].action, action::SYSTEM_POWER_OFF);
    assert!(plan.steps[0].params.entries().is_empty());
}

#[test]
fn power_on_maps_to_power_on() {
    let plan = plan_intent(&req("power_on_node"));
    assert_eq!(plan.steps.len(), 1);
    assert_eq!(plan.steps[0].action, action::SYSTEM_POWER_ON);
    assert!(plan.steps[0].compensation.is_none());
}

#[test]
fn generated_ids_are_v7_uuids_and_distinct() {
    let plan = plan_intent(&req("provision_database"));
    assert!(is_uuid_v7_text(&plan.task_id));
    assert_eq!(plan.steps.len(), 2);
    for s in &plan.steps {
        assert!(is_uuid_v7_text(&s.id));
    }
    assert_ne!(plan.steps[0].id, plan.steps[1].id);
    assert_eq!(
        plan.steps[0].params.get("name").map(String::as_str),
        Some("postgresql")
    );
}

#[test]
fn run_command_keeps_only_command_and_cwd() {
    let mut r = req("run_command");
    r.params.insert("command".into(), "ls".into());
    r.params.insert("cwd".into(), "".into());
    r.params.insert("user".into(), "root".into());
    let plan = plan_intent(&r);
    let p = &plan.steps[0].params;
    assert_eq!(p.entries().len(), 2);
    assert_eq!(p.get("cwd").map(String::as_str), Some(""));
    assert_eq!(p.get("user"), None);
}

#[test]
fn install_package_falls_back_to_package_key() {
    let mut r = req("install_package");
    r.params.insert("package".into(), "curl".into());
    let plan = plan_intent(&r);
    let s = &plan.steps[0];
    assert_eq!(s.params.get("name").map(String::as_str), Some("curl"));
    assert_eq!(s.params.get("version"), None);
    let c = s.compensation.as_ref().expect("install is compensated");
    assert_eq!(c.action, action::PACKAGE_ENSURE);
    assert_eq!(c.params.get("name").map(String::as_str), Some("curl"));
    assert_eq!(c.params.get("state").map(String::as_str), Some("absent"));
    assert_eq!(c.params.entries().len(), 2);
}

#[test]
fn remove_package_is_not_compensated() {
    let mut r = req("remove_package");
    r.params.insert("name".into(), "nginx".into());
    r.params.insert("version".into(), "9".into());
    let plan = plan_intent(&r);
    let s = &plan.steps[0];
    assert_eq!(s.action, action::PACKAGE_ENSURE);
    assert_eq!(s.params.get("state").map(String::as_str), Some("absent"));
    assert_eq!(s.params.get("version"), None);
    assert!(s.compensation.is_none());
    assert!(s.critical);
}

#[test]
fn manage_service_keeps_given_state() {
    let mut r = req("manage_service");
    r.params.insert("name".into(), "sshd".into());
    r.params.insert("state".into(), "stopped".into());
    r.params.insert("enabled".into(), "false".into());
    let plan = plan_intent(&r);
    let p = &plan.steps[0].params;
    assert_eq!(p.get("state").map(String::as_str), Some("stopped"));
    assert_eq!(p.get("enabled").map(String::as_str), Some("false"));
    assert_eq!(p.get("name").map(String::as_str), Some("sshd"));
}

#[test]
fn manage_service_without_name_drops_name() {
    let plan = plan_intent(&req("manage_service"));
    let p = &plan.steps[0].params;
    assert_eq!(p.get("name"), None);
    assert_eq!(p.entries().len(), 2);
}

#[test]
fn deploy_file_skips_missing_fields() {
    let mut r = req("deploy_file");
    r.params.insert("path".into(), "/etc/motd".into());
    r.params.insert("owner".into(), "".into());
    let plan = plan_intent(&r);
    let p = &plan.steps[0].params;
    assert_eq!(p.entries().len(), 1);
    assert_eq!(p.get("owner"), None);
}

#[test]
fn provision_prefix_is_stripped_once() {
    let plan = plan_intent(&req("provision_provision_webserver"));
    assert_eq!(plan.steps.len(), 1);
    assert_eq!(plan.steps[0].action, action::ROLE_PROVISION);
    assert_eq!(
        plan.steps[0].params.get("role").map(String::as_str),
        Some("provision_webserver")
    );
    let plan = plan_intent(&req("provision_"));
    assert_eq!(plan.steps.len(), 1);
    assert_eq!(plan.steps[0].action, action::ROLE_PROVISION);
    assert_eq!(plan.steps[0].params.get("role"), None);
}

#[test]
fn custom_intent_keeps_params_and_overrides_intent_key() {
    let mut r = req("reindex");
    r.params.insert("index".into(), "all".into());
    r.params.insert("intent".into(), "other".into());
    let plan = plan_intent(&r);
    let p = &plan.steps[0].params;
    assert_eq!(p.get("index").map(String::as_str), Some("all"));
    assert_eq!(p.get("intent").map(String::as_str), Some("reindex"));
    assert_eq!(p.entries().len(), 2);
}

#[test]
fn only_custom_steps_are_optional_and_actions_are_canonical() {
    let canonical = [
        action::SYSTEM_REBOOT,
        action::SYSTEM_POWER_OFF,
        action::SYSTEM_POWER_ON,
        action::COMMAND_RUN,
        action::PACKAGE_ENSURE,
        action::SERVICE_ENSURE,
        action::FILE_WRITE,
        action::ROLE_PROVISION,
        action::INTENT_CUSTOM,
    ];
    for intent in [
        "restart_node",
        "power_off_node",
        "power_on_node",
        "run_command",
        "install_package",
        "remove_package",
        "manage_service",
        "deploy_file",
        "provision_webserver",
        "provision_x",
        "anything",
        "",
    ] {
        let plan = plan_intent(&req(intent));
        assert!(!plan.steps.is_empty());
        for s in &plan.steps {
            assert!(canonical.contains(&s.action.as_str()));
            assert_eq!(s.critical, s.action != action::INTENT_CUSTOM);
        }
    }
}

#[test]
fn params_of_skips_empty_values_and_later_pairs_win() {
    let p = params_of(&[("a", "1"), ("b", ""), ("a", "2"), ("c", "3")]);
    assert_eq!(p.get("a").map(String::as_str), Some("2"));
    assert_eq!(p.get("b"), None);
    assert_eq!(p.get("c").map(String::as_str), Some("3"));
    assert_eq!(p.entries().len(), 2);
}

#[test]
fn get_returns_empty_for_missing_key() {
    let mut p = Params::new();
    p.insert("k".into(), "v".into());
    assert_eq!(get(&p, "k"), "v");
    assert_eq!(get(&p, "missing"), "");
}

#[test]
fn package_step_with_version_and_compensation() {
    let s = package_step("vim", "present", "9.0");
    assert_eq!(s.params.get("version").map(String::as_str), Some("9.0"));
    let c = s.compensation.expect("compensated");
    assert_eq!(c.params.get("version"), None);
    assert_eq!(c.params.get("name").map(String::as_str), Some("vim"));
    let s = package_step("vim", "latest", "");
    assert!(s.compensation.is_none());
}

#[test]
fn service_step_params() {
    let s = service_step("nginx", "started", "true");
    assert_eq!(s.action, action::SERVICE_ENSURE);
    assert_eq!(s.params.entries().len(), 3);
    assert!(is_uuid_v7_text(&s.id));
}

#[test]
fn provision_steps_roles() {
    let w = provision_steps("webserver");
    assert_eq!(w.len(), 2);
    assert_eq!(w[1].params.get("state").map(String::as_str), Some("started"));
    let other = provision_steps("cache");
    assert_eq!(other.len(), 1);
    assert_eq!(other[0].params.get("role").map(String::as_str), Some("cache"));
}

#[test]
fn generated_ids_increase_in_creation_order() {
    let plan = plan_intent(&req("provision_webserver"));
    assert!(plan.task_id < plan.steps[0].id);
    assert!(plan.steps[0].id < plan.steps[1].id);
    let steps = provision_steps("database");
    assert!(steps[0].id < steps[1].id);
    let mut r = req("provision_webserver");
    r.task_id = Some("zzz".into());
    let plan = plan_intent(&r);
    assert_eq!(plan.task_id, "zzz");
    assert!(plan.steps[0].id < plan.steps[1].id);
}

#[test]
fn step_params_are_in_key_order() {
    let s = package_step("vim", "present", "9.0");
    let keys: Vec<&str> = s.params.entries().iter().map(|(k, _)| k.as_str()).collect();
    assert_eq!(keys, vec!["name", "state", "version"]);
}
