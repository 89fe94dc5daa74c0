use vstd::prelude::*;
use crate::scheduler::ObjectKey;
use crate::resource::{
    Action, Config, ContainerPort, Deployment, DeploymentView, Error, ErrorKind, Hello,
    StoreError, CONFLICT, NOT_FOUND, labels_view,
};

verus! {

/// Image that the managed container runs.
pub const IMAGE: &'static str = "hseeberger/hello-rs:0.1.10";

/// Port on which the managed container serves.
pub const HTTP_PORT: i32 = 80;

/// The labels `{app: name}` that tie a deployment to its pods.
pub open spec fn app_labels(name: Seq<char>) -> Seq<(Seq<char>, Seq<char>)> {
    seq![("app"@, name)]
}

/// The deployment that realises a `Hello` named `name` in namespace `ns`.
pub open spec fn desired_view(name: Seq<char>, ns: Seq<char>, replicas: i32) -> DeploymentView {
    DeploymentView {
        name,
        namespace: ns,
        labels: app_labels(name),
        selector: app_labels(name),
        pod_labels: app_labels(name),
        replicas,
        container_name: name,
        image: IMAGE@,
        ports: seq![(HTTP_PORT, "http"@)],
    }
}

/// The desired deployment of `h`, or `None` where `h` has no namespace.
pub open spec fn desired_of(h: Hello) -> Option<DeploymentView> {
    match h.namespace {
        Some(ns) => Some(desired_view(h.name@, ns@, h.spec.replicas)),
        None => None,
    }
}

/// Action of the apply path, given how the store answered the create.
pub open spec fn create_action_spec(config: Config, created: Result<(), StoreError>) -> Result<Action, Error> {
    match created {
        Ok(()) => Ok(Action::RequeueAfter(config.requeue_reconcile_after)),
        Err(e) => if e.has_code(CONFLICT) {
            Ok(Action::AwaitChange)
        } else {
            Err(Error { kind: ErrorKind::CreateDeployment(e) })
        },
    }
}

/// Action of the cleanup path, given how the store answered the delete.
pub open spec fn delete_action_spec(deleted: Result<(), StoreError>) -> Result<Action, Error> {
    match deleted {
        Ok(()) => Ok(Action::AwaitChange),
        Err(e) => if e.has_code(NOT_FOUND) {
            Ok(Action::AwaitChange)
        } else {
            Err(Error { kind: ErrorKind::DeleteDeployment(e) })
        },
    }
}

fn app_label_set(name: &String) -> (r: Vec<(String, String)>)
    ensures
        labels_view(r) == app_labels(name@),
{
    let mut v: Vec<(String, String)> = Vec::new();
    v.push(("app".to_owned(), name.clone()));
    assert(labels_view(v) =~= app_labels(name@));
    v
}

/// Builds the full desired deployment of `hello`; fails where it has no namespace.
pub fn desired_deployment(hello: &Hello) -> (r: Result<Deployment, Error>)
    ensures
        match r {
            Ok(d) => desired_of(*hello) == Some(d@),
            Err(e) => desired_of(*hello) is None && e.kind is MissingNamespace,
        },
{
    let ns = match &hello.namespace {
        Some(ns) => ns.clone(),
        None => {
            return Err(Error { kind: ErrorKind::MissingNamespace });
        },
    };
    let name = hello.name.clone();
    let mut ports: Vec<ContainerPort> = Vec::new();
    ports.push(ContainerPort { container_port: HTTP_PORT, name: "http".to_owned() });
    let d = Deployment {
        name: name.clone(),
        namespace: ns,
        labels: app_label_set(&name),
        selector: app_label_set(&name),
        pod_labels: app_label_set(&name),
        replicas: hello.spec.replicas,
        container_name: name,
        image: IMAGE.to_owned(),
        ports,
    };
    assert(d@.ports =~= seq![(HTTP_PORT, "http"@)]);
    Ok(d)
}

/// Decides the apply path's outcome from the store's answer to the create:
/// created means requeue after the reconcile interval, already existing means
/// wait for the next change, anything else fails.
pub fn create_action(config: &Config, created: Result<(), StoreError>) -> (r: Result<Action, Error>)
    ensures
        r == create_action_spec(*config, created),
{
    match created {
        Ok(()) => Ok(Action::RequeueAfter(config.requeue_reconcile_after)),
        Err(e) => if e.is_code(CONFLICT) {
            Ok(Action::AwaitChange)
        } else {
            Err(Error { kind: ErrorKind::CreateDeployment(e) })
        },
    }
}

/// Decides the cleanup path's outcome from the store's answer to the delete:
/// deleted or already absent means wait for the next change, anything else fails.
pub fn delete_action(deleted: Result<(), StoreError>) -> (r: Result<Action, Error>)
    ensures
        r == delete_action_spec(deleted),
{
    match deleted {
        Ok(()) => Ok(Action::AwaitChange),
        Err(e) => if e.is_code(NOT_FOUND) {
            Ok(Action::AwaitChange)
        } else {
            Err(Error { kind: ErrorKind::DeleteDeployment(e) })
        },
    }
}

/// Every failure is retried after the error interval.
pub fn error_policy(hello: &Hello, error: &Error, config: &Config) -> (r: Action)
    ensures
        r == Action::RequeueAfter(config.requeue_error_after),
{
    Action::RequeueAfter(config.requeue_error_after)
}

/// What one attempt leaves for the log and for the scheduler.
pub struct AttemptRecord {
    pub key: ObjectKey,
    pub succeeded: bool,
    pub action: Action,
}

/// Records the end of an attempt on `key`: a success keeps its action, a
/// failure takes the error policy's.
pub fn record_attempt(
    key: ObjectKey,
    hello: &Hello,
    result: &Result<Action, Error>,
    config: &Config,
) -> (r: AttemptRecord)
    ensures
        r.key@ == key@,
        r.succeeded == result is Ok,
        r.action == match result {
            Ok(a) => *a,
            Err(_) => Action::RequeueAfter(config.requeue_error_after),
        },
{
    let action = match result {
        Ok(a) => *a,
        Err(e) => error_policy(hello, e, config),
    };
    AttemptRecord { key, succeeded: result.is_ok(), action }
}

/// Deployments held by the store, by namespace and name.
pub type DeploymentStore = Map<(Seq<char>, Seq<char>), DeploymentView>;

/// Identity under which the store keeps a deployment.
pub open spec fn store_key(d: DeploymentView) -> (Seq<char>, Seq<char>) {
    (d.namespace, d.name)
}

/// Whether a create of `d` is answered with already-exists.
pub open spec fn create_conflicts(store: DeploymentStore, d: DeploymentView) -> bool {
    store.contains_key(store_key(d))
}

/// The store after a create of `d`: an existing object of that identity is
/// left untouched.
pub open spec fn store_after_create(store: DeploymentStore, d: DeploymentView) -> DeploymentStore {
    if create_conflicts(store, d) {
        store
    } else {
        store.insert(store_key(d), d)
    }
}

/// Applying the same `Hello` twice yields one deployment: the two desired
/// deployments agree, the second create finds the first one's object and
/// changes nothing, exactly one deployment stands under that identity, and
/// the second create's already-exists answer is a success that waits for the
/// next change.
pub proof fn lemma_idempotent_apply(
    store: DeploymentStore,
    hello: Hello,
    first: Deployment,
    second: Deployment,
    config: Config,
    answer: StoreError,
)
    requires
        desired_of(hello) == Some(first@),
        desired_of(hello) == Some(second@),
        answer.has_code(CONFLICT),
    ensures
        ({
            let once = store_after_create(store, first@);
            let twice = store_after_create(once, second@);
            &&& second@ == first@
            &&& create_conflicts(once, second@)
            &&& twice == once
            &&& twice.contains_key(store_key(first@))
            &&& twice.dom().filter(|k: (Seq<char>, Seq<char>)| k == store_key(first@)) == set![
                store_key(first@),
            ]
            &&& !store.contains_key(store_key(first@)) ==> twice[store_key(first@)] == first@
            &&& create_action_spec(config, Err(answer)) == Ok::<Action, Error>(Action::AwaitChange)
        }),
{
    let once = store_after_create(store, first@);
    let k = store_key(first@);
    assert(once.dom().filter(|x: (Seq<char>, Seq<char>)| x == k) =~= set![k]);
}

} // verus!
