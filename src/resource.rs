use vstd::prelude::*;

verus! {

/// Finalizer identifier that marks intent to clean up a `Hello`.
pub const HELLO_FINALIZER: &'static str = "hellos.hello.heikoseeberger.de";

/// Status code with which the store reports that an object already exists,
/// or that a version-checked patch met a newer version.
pub const CONFLICT: u16 = 409;

/// Status code with which the store reports that an object does not exist.
pub const NOT_FOUND: u16 = 404;

/// The finalizer identifier as a sequence of characters.
pub open spec fn finalizer_name() -> Seq<char> {
    HELLO_FINALIZER@
}

/// Desired state of a `Hello`: the replica count of its deployment.
#[derive(Clone, Copy, Debug, PartialEq, Eq, Structural)]
pub struct HelloSpec {
    pub replicas: i32,
}

/// A snapshot of a declared `Hello` object as the store holds it.
#[derive(Debug)]
pub struct Hello {
    pub name: String,
    pub namespace: Option<String>,
    pub spec: HelloSpec,
    /// Deletion marker: the time at which deletion was requested, if it was.
    pub deletion_timestamp: Option<u64>,
    pub finalizers: Vec<String>,
    /// Version of the object, checked by every finalizer patch.
    pub resource_version: String,
}

impl Hello {
    pub open spec fn has_finalizer_spec(&self) -> bool {
        self.finalizers@.map_values(|f: String| f@).contains(finalizer_name())
    }

    pub open spec fn finalizers_view(&self) -> Seq<Seq<char>> {
        self.finalizers@.map_values(|f: String| f@)
    }
}

/// How the store answered a create, delete or patch call that did not succeed.
#[derive(Clone, Debug)]
pub enum StoreError {
    /// The store answered with a status code.
    Api { code: u16, message: String },
    /// The call failed before the store answered (network, encoding).
    Other { message: String },
}

impl StoreError {
    pub open spec fn has_code(&self, c: u16) -> bool {
        match self {
            StoreError::Api { code, .. } => *code == c,
            StoreError::Other { .. } => false,
        }
    }

    /// Whether the store reported the status code `c`.
    pub fn is_code(&self, c: u16) -> (r: bool)
        ensures
            r == self.has_code(c),
    {
        match self {
            StoreError::Api { code, .. } => *code == c,
            StoreError::Other { .. } => false,
        }
    }
}

/// What went wrong in one reconciliation attempt.
#[derive(Clone, Debug)]
pub enum ErrorKind {
    /// The object carries no namespace.
    MissingNamespace,
    /// Creating the deployment failed.
    CreateDeployment(StoreError),
    /// Deleting the deployment failed.
    DeleteDeployment(StoreError),
    /// Adding the finalizer failed.
    AddFinalizer(StoreError),
    /// Removing the finalizer failed.
    RemoveFinalizer(StoreError),
    /// The finalizer patch kept meeting newer versions of the object.
    FinalizerConflict,
    /// Reading the object again after a version conflict failed.
    ReadObject(StoreError),
}

/// Failure of one reconciliation attempt.
#[derive(Clone, Debug)]
pub struct Error {
    pub kind: ErrorKind,
}

/// Outcome of one reconciliation attempt: when to revisit the object.
#[derive(Clone, Copy, Debug, PartialEq, Eq, Structural)]
pub enum Action {
    /// Revisit after the given number of milliseconds.
    RequeueAfter(u64),
    /// Revisit only when the object changes.
    AwaitChange,
}

/// The two intervals that govern requeueing, in milliseconds.
#[derive(Clone, Copy, Debug, PartialEq, Eq, Structural)]
pub struct Config {
    pub requeue_reconcile_after: u64,
    pub requeue_error_after: u64,
}

impl Config {
    /// The error interval is larger than the reconcile interval, so that
    /// failures are retried no more eagerly than healthy objects are polled.
    pub fn new(requeue_reconcile_after: u64, requeue_error_after: u64) -> (r: Config)
        requires
            requeue_error_after > requeue_reconcile_after,
        ensures
            r.requeue_reconcile_after == requeue_reconcile_after,
            r.requeue_error_after == requeue_error_after,
    {
        Config { requeue_reconcile_after, requeue_error_after }
    }
}

/// A network port that the managed container exposes.
#[derive(Debug)]
pub struct ContainerPort {
    pub container_port: i32,
    pub name: String,
}

/// The managed deployment derived from a `Hello`.
#[derive(Debug)]
pub struct Deployment {
    pub name: String,
    pub namespace: String,
    /// Labels of the deployment itself.
    pub labels: Vec<(String, String)>,
    /// Labels the deployment selects its pods by.
    pub selector: Vec<(String, String)>,
    /// Labels of the pod template.
    pub pod_labels: Vec<(String, String)>,
    pub replicas: i32,
    pub container_name: String,
    pub image: String,
    pub ports: Vec<ContainerPort>,
}

/// Mathematical value of a [`Deployment`].
pub struct DeploymentView {
    pub name: Seq<char>,
    pub namespace: Seq<char>,
    pub labels: Seq<(Seq<char>, Seq<char>)>,
    pub selector: Seq<(Seq<char>, Seq<char>)>,
    pub pod_labels: Seq<(Seq<char>, Seq<char>)>,
    pub replicas: i32,
    pub container_name: Seq<char>,
    pub image: Seq<char>,
    pub ports: Seq<(i32, Seq<char>)>,
}

pub open spec fn labels_view(v: Vec<(String, String)>) -> Seq<(Seq<char>, Seq<char>)> {
    v@.map_values(|p: (String, String)| (p.0@, p.1@))
}

impl View for Deployment {
    type V = DeploymentView;

    open spec fn view(&self) -> DeploymentView {
        DeploymentView {
            name: self.name@,
            namespace: self.namespace@,
            labels: labels_view(self.labels),
            selector: labels_view(self.selector),
            pod_labels: labels_view(self.pod_labels),
            replicas: self.replicas,
            container_name: self.container_name@,
            image: self.image@,
            ports: self.ports@.map_values(|p: ContainerPort| (p.container_port, p.name@)),
        }
    }
}

} // verus!
