use hello_rs_k8s::finalizer::{
    finalizers_without, reconcile, Classification, Command, Guard, GuardEvent, Phase,
    MAX_CONFLICT_RETRIES,
};
use hello_rs_k8s::reconciler::{
    create_action, delete_action, desired_deployment, error_policy, record_attempt, IMAGE,
};
use hello_rs_k8s::scheduler::ObjectKey;
use hello_rs_k8s::resource::{
    Action, Config, ErrorKind, Hello, HelloSpec, StoreError, CONFLICT, HELLO_FINALIZER, NOT_FOUND,
};

const SUCCESS: u64 = 60_000;
const FAILURE: u64 = 300_000;

fn config() -> Config {
    Config::new(SUCCESS, FAILURE)
}

fn hello(name: &str, replicas: i32, deleting: bool, finalizers: &[&str]) -> Hello {
    Hello {
        name: name.to_string(),
        namespace: Some("default".to_string()),
        spec: HelloSpec { replicas },
        deletion_timestamp: if deleting { Some(1_700_000_000) } else { None },
        finalizers: finalizers.iter().map(|f| f.to_string()).collect(),
        resource_version: "7".to_string(),
    }
}

fn api_error(code: u16) -> StoreError {
    StoreError::Api { code, message: format!("status {code}") }
}

fn app_labels(name: &str) -> Vec<(String, String)> {
    vec![("app".to_string(), name.to_string())]
}

#[test]
fn apply_on_empty_store_creates_deployment() {
    let h = hello("x", 2, false, &[HELLO_FINALIZER]);
    let d = desired_deployment(&h).unwrap();
    assert_eq!(d.name, "x");
    assert_eq!(d.namespace, "default");
    assert_eq!(d.replicas, 2);
    assert_eq!(d.labels, app_labels("x"));
    assert_eq!(d.selector, app_labels("x"));
    assert_eq!(d.pod_labels, app_labels("x"));
    assert_eq!(d.container_name, "x");
    assert_eq!(d.image, IMAGE);
    assert_eq!(d.ports.len(), 1);
    assert_eq!(d.ports[0].name, "http");
    assert_eq!(d.ports[0].container_port, 80);
    assert_eq!(create_action(&config(), Ok(())).unwrap(), Action::RequeueAfter(SUCCESS));
}

#[test]
fn create_success_requeues_after_success_interval() {
    let h = hello("y", 3, false, &[HELLO_FINALIZER]);
    assert_eq!(desired_deployment(&h).unwrap().replicas, 3);
    assert_eq!(create_action(&config(), Ok(())).unwrap(), Action::RequeueAfter(SUCCESS));
}

#[test]
fn create_already_exists_awaits_change() {
    assert_eq!(create_action(&config(), Err(api_error(CONFLICT))).unwrap(), Action::AwaitChange);
}

#[test]
fn create_other_error_fails() {
    let e = create_action(&config(), Err(api_error(500))).unwrap_err();
    assert!(matches!(e.kind, ErrorKind::CreateDeployment(StoreError::Api { code: 500, .. })));
    let e = create_action(&config(), Err(StoreError::Other { message: "reset".to_string() }))
        .unwrap_err();
    assert!(matches!(e.kind, ErrorKind::CreateDeployment(StoreError::Other { .. })));
}

#[test]
fn applying_twice_is_idempotent() {
    let h = hello("x", 2, false, &[HELLO_FINALIZER]);
    let first = desired_deployment(&h).unwrap();
    let second = desired_deployment(&h).unwrap();
    assert_eq!(first.name, second.name);
    assert_eq!(first.namespace, second.namespace);
    assert_eq!(first.replicas, second.replicas);
    assert_eq!(first.labels, second.labels);
    assert_eq!(first.image, second.image);
    assert_eq!(create_action(&config(), Ok(())).unwrap(), Action::RequeueAfter(SUCCESS));
    assert_eq!(create_action(&config(), Err(api_error(CONFLICT))).unwrap(), Action::AwaitChange);
}

#[test]
fn missing_namespace_is_an_error() {
    let mut h = hello("x", 2, false, &[]);
    h.namespace = None;
    assert!(matches!(desired_deployment(&h).unwrap_err().kind, ErrorKind::MissingNamespace));
    let (g, cmd) = reconcile(Guard::new(), GuardEvent::Observed(h));
    assert!(matches!(g.phase, Phase::Finished));
    match cmd {
        Command::Finish(Err(e)) => assert!(matches!(e.kind, ErrorKind::MissingNamespace)),
        _ => panic!("expected a failure"),
    }
}

#[test]
fn delete_outcomes() {
    assert_eq!(delete_action(Ok(())).unwrap(), Action::AwaitChange);
    assert_eq!(delete_action(Err(api_error(NOT_FOUND))).unwrap(), Action::AwaitChange);
    let e = delete_action(Err(api_error(503))).unwrap_err();
    assert!(matches!(e.kind, ErrorKind::DeleteDeployment(StoreError::Api { code: 503, .. })));
}

#[test]
fn error_policy_requeues_after_error_interval() {
    let h = hello("x", 1, false, &[]);
    let e = create_action(&config(), Err(api_error(500))).unwrap_err();
    assert_eq!(error_policy(&h, &e, &config()), Action::RequeueAfter(FAILURE));
}

#[test]
fn classification_follows_marker_and_finalizer() {
    assert_eq!(hello("x", 1, false, &[]).classify(), Classification::AddFinalizer);
    assert_eq!(hello("x", 1, false, &["other", HELLO_FINALIZER]).classify(), Classification::Apply);
    assert_eq!(hello("x", 1, true, &[HELLO_FINALIZER]).classify(), Classification::Cleanup);
    assert_eq!(hello("x", 1, true, &["other"]).classify(), Classification::Done);
    assert!(!hello("x", 1, false, &["other"]).has_finalizer());
}

#[test]
fn finalizer_removal_keeps_other_entries_in_order() {
    let v: Vec<String> = vec!["a".to_string(), HELLO_FINALIZER.to_string(), "b".to_string()];
    assert_eq!(finalizers_without(&v), vec!["a".to_string(), "b".to_string()]);
}

#[test]
fn apply_adds_finalizer_then_applies() {
    let (g, cmd) = reconcile(Guard::new(), GuardEvent::Observed(hello("x", 2, false, &["other"])));
    match cmd {
        Command::PatchFinalizers { resource_version, finalizers } => {
            assert_eq!(resource_version, "7");
            assert_eq!(finalizers, vec!["other".to_string(), HELLO_FINALIZER.to_string()]);
        }
        _ => panic!("expected a finalizer patch"),
    }
    let (g, cmd) = reconcile(g, GuardEvent::Patched(Ok(())));
    assert!(matches!(cmd, Command::Apply(ref h) if h.name == "x"));
    let (g, cmd) = reconcile(g, GuardEvent::Reconciled(create_action(&config(), Ok(()))));
    assert!(matches!(g.phase, Phase::Finished));
    assert!(matches!(cmd, Command::Finish(Ok(Action::RequeueAfter(SUCCESS)))));
}

#[test]
fn apply_with_finalizer_present_applies_at_once() {
    let (g, cmd) =
        reconcile(Guard::new(), GuardEvent::Observed(hello("x", 2, false, &[HELLO_FINALIZER])));
    assert!(matches!(cmd, Command::Apply(_)));
    assert!(matches!(g.phase, Phase::Applying));
}

#[test]
fn deleted_without_finalizer_does_nothing() {
    let (g, cmd) = reconcile(Guard::new(), GuardEvent::Observed(hello("x", 2, true, &[])));
    assert!(matches!(g.phase, Phase::Finished));
    assert!(matches!(cmd, Command::Finish(Ok(Action::AwaitChange))));
}

#[test]
fn cleanup_of_absent_deployment_removes_finalizer() {
    let (g, cmd) =
        reconcile(Guard::new(), GuardEvent::Observed(hello("x", 2, true, &[HELLO_FINALIZER, "b"])));
    assert!(matches!(cmd, Command::Cleanup(ref h) if h.name == "x"));
    let (g, cmd) = reconcile(g, GuardEvent::Reconciled(delete_action(Err(api_error(NOT_FOUND)))));
    match cmd {
        Command::PatchFinalizers { resource_version, finalizers } => {
            assert_eq!(resource_version, "7");
            assert_eq!(finalizers, vec!["b".to_string()]);
        }
        _ => panic!("expected a finalizer patch"),
    }
    let (g, cmd) = reconcile(g, GuardEvent::Patched(Ok(())));
    assert!(matches!(g.phase, Phase::Finished));
    assert!(matches!(cmd, Command::Finish(Ok(Action::AwaitChange))));
}

#[test]
fn failed_cleanup_keeps_finalizer() {
    let (g, _) = reconcile(Guard::new(), GuardEvent::Observed(hello("x", 2, true, &[HELLO_FINALIZER])));
    let (g, cmd) = reconcile(g, GuardEvent::Reconciled(delete_action(Err(api_error(500)))));
    assert!(matches!(g.phase, Phase::Finished));
    match cmd {
        Command::Finish(Err(e)) => {
            assert!(matches!(e.kind, ErrorKind::DeleteDeployment(StoreError::Api { code: 500, .. })))
        }
        _ => panic!("expected the failure, no patch"),
    }
}

#[test]
fn finalizer_conflict_rereads_without_applying_twice() {
    let (g, _) = reconcile(Guard::new(), GuardEvent::Observed(hello("x", 2, false, &[])));
    let (g, cmd) = reconcile(g, GuardEvent::Patched(Err(api_error(CONFLICT))));
    assert!(matches!(cmd, Command::Reread));
    assert!(matches!(g.phase, Phase::Observing));
    assert_eq!(g.conflicts, 1);
    let mut newer = hello("x", 2, false, &[]);
    newer.resource_version = "8".to_string();
    let (g, cmd) = reconcile(g, GuardEvent::Observed(newer));
    assert!(matches!(cmd, Command::PatchFinalizers { ref resource_version, .. } if resource_version == "8"));
    let (g, cmd) = reconcile(g, GuardEvent::Patched(Ok(())));
    assert!(matches!(cmd, Command::Apply(_)));
    let (g, cmd) = reconcile(g, GuardEvent::Reconciled(Ok(Action::RequeueAfter(SUCCESS))));
    assert!(matches!(g.phase, Phase::Finished));
    assert!(matches!(cmd, Command::Finish(Ok(_))));
}

#[test]
fn finalizer_conflicts_give_up_after_retries() {
    let mut g = Guard::new();
    for _ in 0..MAX_CONFLICT_RETRIES {
        let (next, _) = reconcile(g, GuardEvent::Observed(hello("x", 2, false, &[])));
        let (next, cmd) = reconcile(next, GuardEvent::Patched(Err(api_error(CONFLICT))));
        assert!(matches!(cmd, Command::Reread));
        g = next;
    }
    let (next, _) = reconcile(g, GuardEvent::Observed(hello("x", 2, false, &[])));
    let (next, cmd) = reconcile(next, GuardEvent::Patched(Err(api_error(CONFLICT))));
    assert!(matches!(next.phase, Phase::Finished));
    match cmd {
        Command::Finish(Err(e)) => assert!(matches!(e.kind, ErrorKind::FinalizerConflict)),
        _ => panic!("expected a conflict failure"),
    }
}

#[test]
fn finalizer_patch_failures_propagate() {
    let (g, _) = reconcile(Guard::new(), GuardEvent::Observed(hello("x", 2, false, &[])));
    let (_, cmd) = reconcile(g, GuardEvent::Patched(Err(api_error(500))));
    match cmd {
        Command::Finish(Err(e)) => {
            assert!(matches!(e.kind, ErrorKind::AddFinalizer(StoreError::Api { code: 500, .. })))
        }
        _ => panic!("expected the failure"),
    }
    let (g, _) = reconcile(Guard::new(), GuardEvent::Observed(hello("x", 2, true, &[HELLO_FINALIZER])));
    let (g, _) = reconcile(g, GuardEvent::Reconciled(Ok(Action::AwaitChange)));
    let (_, cmd) = reconcile(g, GuardEvent::Patched(Err(StoreError::Other { message: "io".to_string() })));
    match cmd {
        Command::Finish(Err(e)) => {
            assert!(matches!(e.kind, ErrorKind::RemoveFinalizer(StoreError::Other { .. })))
        }
        _ => panic!("expected the failure"),
    }
}

#[test]
fn guard_accepts_only_awaited_events() {
    let g = Guard::new();
    assert!(g.accepts(&GuardEvent::Observed(hello("x", 1, false, &[]))));
    assert!(!g.accepts(&GuardEvent::Patched(Ok(()))));
    assert!(!g.accepts(&GuardEvent::Reconciled(Ok(Action::AwaitChange))));
}

#[test]
fn attempt_records_take_error_policy_on_failure() {
    let h = hello("x", 1, false, &[]);
    let key = || ObjectKey::new("default".to_string(), "x".to_string());
    let ok = record_attempt(key(), &h, &Ok(Action::RequeueAfter(SUCCESS)), &config());
    assert!(ok.succeeded);
    assert_eq!(ok.action, Action::RequeueAfter(SUCCESS));
    assert_eq!(ok.key.name, "x");
    let failed = record_attempt(key(), &h, &create_action(&config(), Err(api_error(500))), &config());
    assert!(!failed.succeeded);
    assert_eq!(failed.action, Action::RequeueAfter(FAILURE));
}
