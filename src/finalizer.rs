use vstd::prelude::*;
use crate::reconciler::delete_action_spec;
use crate::resource::{
    Action, Error, ErrorKind, Hello, StoreError, CONFLICT, NOT_FOUND, HELLO_FINALIZER, finalizer_name,
};

verus! {

/// How many version conflicts one attempt rereads the object for before it
/// gives up and leaves the retry to the error policy.
pub const MAX_CONFLICT_RETRIES: u32 = 3;

/// Which path a snapshot of a `Hello` takes.
#[derive(Clone, Copy, Debug, PartialEq, Eq, Structural)]
pub enum Classification {
    /// Not being deleted, finalizer absent: add it, then apply.
    AddFinalizer,
    /// Not being deleted, finalizer present: apply.
    Apply,
    /// Being deleted, finalizer present: clean up, then remove it.
    Cleanup,
    /// Being deleted, finalizer absent: nothing left to do.
    Done,
}

pub open spec fn classify_spec(deleting: bool, has_finalizer: bool) -> Classification {
    if !deleting {
        if has_finalizer {
            Classification::Apply
        } else {
            Classification::AddFinalizer
        }
    } else if has_finalizer {
        Classification::Cleanup
    } else {
        Classification::Done
    }
}

pub open spec fn not_finalizer(f: Seq<char>) -> bool {
    f != finalizer_name()
}

/// What the guard waits for.
pub enum Phase {
    /// A fresh snapshot of the object.
    Observing,
    /// The answer to the patch that adds the finalizer to this snapshot.
    AddingFinalizer(Hello),
    /// The outcome of the apply path.
    Applying,
    /// The outcome of the cleanup path; then the finalizers to keep are
    /// patched in at the version read.
    CleaningUp { resource_version: String, remaining: Vec<String> },
    /// The answer to the patch that removes the finalizer; cleanup chose the action.
    RemovingFinalizer(Action),
    /// The attempt is over.
    Finished,
}

/// What the program around the guard reports back.
pub enum GuardEvent {
    /// The current snapshot of the object was read.
    Observed(Hello),
    /// The store answered a finalizer patch.
    Patched(Result<(), StoreError>),
    /// The apply or cleanup path ended.
    Reconciled(Result<Action, Error>),
}

/// What the guard asks the program around it to do next.
pub enum Command {
    /// Read the object again.
    Reread,
    /// Replace the object's finalizers, provided it is still at this version.
    PatchFinalizers { resource_version: String, finalizers: Vec<String> },
    /// Run the apply path on this snapshot.
    Apply(Hello),
    /// Run the cleanup path on this snapshot.
    Cleanup(Hello),
    /// The attempt ended with this result.
    Finish(Result<Action, Error>),
}

/// The finalizer guard of one reconciliation attempt.
pub struct Guard {
    pub phase: Phase,
    /// Version conflicts met so far in this attempt.
    pub conflicts: u32,
}

pub open spec fn strings_view(v: Vec<String>) -> Seq<Seq<char>> {
    v@.map_values(|f: String| f@)
}

impl Command {
    pub open spec fn patched_finalizers(&self) -> Option<(Seq<char>, Seq<Seq<char>>)> {
        match self {
            Command::PatchFinalizers { resource_version, finalizers } => Some(
                (resource_version@, strings_view(*finalizers)),
            ),
            _ => None,
        }
    }
}

impl Guard {
    /// The guard at the start of an attempt.
    pub fn new() -> (r: Guard)
        ensures
            r.phase is Observing,
            r.conflicts == 0,
            r.wf(),
    {
        Guard { phase: Phase::Observing, conflicts: 0 }
    }

    /// The snapshot held while the finalizer is added is not being deleted.
    pub open spec fn wf(&self) -> bool {
        &&& self.conflicts <= MAX_CONFLICT_RETRIES
        &&& match self.phase {
            Phase::AddingFinalizer(h) => h.deletion_timestamp is None && h.namespace is Some,
            _ => true,
        }
    }

    pub open spec fn accepts_spec(&self, e: GuardEvent) -> bool {
        match self.phase {
            Phase::Observing => e is Observed,
            Phase::AddingFinalizer(_) => e is Patched,
            Phase::Applying => e is Reconciled,
            Phase::CleaningUp { .. } => e is Reconciled,
            Phase::RemovingFinalizer(_) => e is Patched,
            Phase::Finished => false,
        }
    }

    /// Whether the guard waits for an event of this shape.
    pub fn accepts(&self, e: &GuardEvent) -> (r: bool)
        ensures
            r == self.accepts_spec(*e),
    {
        match self.phase {
            Phase::Observing => matches!(e, GuardEvent::Observed(_)),
            Phase::AddingFinalizer(_) => matches!(e, GuardEvent::Patched(_)),
            Phase::Applying => matches!(e, GuardEvent::Reconciled(_)),
            Phase::CleaningUp { .. } => matches!(e, GuardEvent::Reconciled(_)),
            Phase::RemovingFinalizer(_) => matches!(e, GuardEvent::Patched(_)),
            Phase::Finished => false,
        }
    }
}

impl Hello {
    /// Whether the finalizer is in the object's finalizer set.
    pub fn has_finalizer(&self) -> (r: bool)
        ensures
            r == self.has_finalizer_spec(),
    {
        let name = HELLO_FINALIZER.to_owned();
        let mut i: usize = 0;
        while i < self.finalizers.len()
            invariant
                i <= self.finalizers.len(),
                name@ == finalizer_name(),
                forall|j: int| 0 <= j < i ==> self.finalizers@[j]@ != finalizer_name(),
            decreases self.finalizers.len() - i,
        {
            if self.finalizers[i].eq(&name) {
                assert(self.finalizers_view()[i as int] == finalizer_name());
                return true;
            }
            i += 1;
        }
        assert forall|j: int| 0 <= j < self.finalizers_view().len() implies
            self.finalizers_view()[j] != finalizer_name() by {}
        false
    }

    /// Classifies this snapshot by its deletion marker and finalizer.
    pub fn classify(&self) -> (r: Classification)
        ensures
            r == classify_spec(self.deletion_timestamp is Some, self.has_finalizer_spec()),
    {
        let has = self.has_finalizer();
        match self.deletion_timestamp {
            None => if has {
                Classification::Apply
            } else {
                Classification::AddFinalizer
            },
            Some(_) => if has {
                Classification::Cleanup
            } else {
                Classification::Done
            },
        }
    }
}

/// The finalizer set with the finalizer appended.
pub fn finalizers_with(v: &Vec<String>) -> (r: Vec<String>)
    ensures
        strings_view(r) == strings_view(*v).push(finalizer_name()),
{
    let mut r: Vec<String> = Vec::new();
    let mut i: usize = 0;
    while i < v.len()
        invariant
            i <= v.len(),
            strings_view(r) == strings_view(*v).take(i as int),
        decreases v.len() - i,
    {
        let ghost s = strings_view(*v);
        let ghost before = strings_view(r);
        let f = v[i].clone();
        r.push(f);
        assert(strings_view(r) =~= before.push(f@));
        assert(s.take(i + 1) =~= s.take(i as int).push(s[i as int]));
        i += 1;
    }
    let ghost before = strings_view(r);
    let f = HELLO_FINALIZER.to_owned();
    r.push(f);
    assert(strings_view(r) =~= before.push(f@));
    assert(strings_view(*v).take(v.len() as int) =~= strings_view(*v));
    r
}

/// The finalizer set without the finalizer, other entries in their order.
pub fn finalizers_without(v: &Vec<String>) -> (r: Vec<String>)
    ensures
        strings_view(r) == strings_view(*v).filter(|f: Seq<char>| not_finalizer(f)),
{
    let name = HELLO_FINALIZER.to_owned();
    let mut r: Vec<String> = Vec::new();
    let mut i: usize = 0;
    while i < v.len()
        invariant
            i <= v.len(),
            name@ == finalizer_name(),
            strings_view(r) == strings_view(*v).take(i as int).filter(|f: Seq<char>| not_finalizer(f)),
        decreases v.len() - i,
    {
        let ghost s = strings_view(*v);
        assert(s.take(i + 1).drop_last() =~= s.take(i as int));
        reveal(Seq::filter);
        if !v[i].eq(&name) {
            r.push(v[i].clone());
        }
        i += 1;
        assert(strings_view(r) =~= s.take(i as int).filter(|f: Seq<char>| not_finalizer(f)));
    }
    assert(strings_view(*v).take(v.len() as int) =~= strings_view(*v));
    r
}

/// Outcome of a finalizer patch that failed: a version conflict rereads the
/// object while retries are left, any other failure ends the attempt.
pub open spec fn patch_failed_ok(
    conflicts: u32,
    err: StoreError,
    adding: bool,
    next: Guard,
    cmd: Command,
) -> bool {
    if err.has_code(CONFLICT) {
        if conflicts < MAX_CONFLICT_RETRIES {
            next.phase is Observing && next.conflicts == conflicts + 1 && cmd is Reread
        } else {
            next.phase is Finished && cmd == Command::Finish(
                Err(Error { kind: ErrorKind::FinalizerConflict }),
            )
        }
    } else {
        next.phase is Finished && cmd == Command::Finish(
            Err(
                Error {
                    kind: if adding {
                        ErrorKind::AddFinalizer(err)
                    } else {
                        ErrorKind::RemoveFinalizer(err)
                    },
                },
            ),
        )
    }
}

/// Outcome of a fresh snapshot `h`.
pub open spec fn observed_ok(conflicts: u32, h: Hello, next: Guard, cmd: Command) -> bool {
    match h.namespace {
        None => next.phase is Finished && cmd == Command::Finish(
            Err(Error { kind: ErrorKind::MissingNamespace }),
        ),
        Some(_) => {
            &&& next.conflicts == conflicts
            &&& match classify_spec(h.deletion_timestamp is Some, h.has_finalizer_spec()) {
                Classification::AddFinalizer => next.phase == Phase::AddingFinalizer(h)
                    && cmd.patched_finalizers() == Some(
                    (h.resource_version@, h.finalizers_view().push(finalizer_name())),
                ),
                Classification::Apply => next.phase is Applying && cmd == Command::Apply(h),
                Classification::Cleanup => match next.phase {
                    Phase::CleaningUp { resource_version, remaining } => resource_version@
                        == h.resource_version@ && strings_view(remaining)
                        == h.finalizers_view().filter(|f: Seq<char>| not_finalizer(f)) && cmd
                        == Command::Cleanup(h),
                    _ => false,
                },
                Classification::Done => next.phase is Finished && cmd == Command::Finish(
                    Ok(Action::AwaitChange),
                ),
            }
        },
    }
}

/// One step of the guard: from guard `g` and event `e` to guard `next` and command `cmd`.
pub open spec fn step_ok(g: Guard, e: GuardEvent, next: Guard, cmd: Command) -> bool {
    match g.phase {
        Phase::Observing => match e {
            GuardEvent::Observed(h) => observed_ok(g.conflicts, h, next, cmd),
            _ => false,
        },
        Phase::AddingFinalizer(h) => match e {
            GuardEvent::Patched(Ok(())) => next.phase is Applying && next.conflicts
                == g.conflicts && cmd == Command::Apply(h),
            GuardEvent::Patched(Err(err)) => patch_failed_ok(g.conflicts, err, true, next, cmd),
            _ => false,
        },
        Phase::Applying => match e {
            GuardEvent::Reconciled(r) => next.phase is Finished && cmd == Command::Finish(r),
            _ => false,
        },
        Phase::CleaningUp { resource_version, remaining } => match e {
            GuardEvent::Reconciled(Ok(a)) => next.phase == Phase::RemovingFinalizer(a)
                && next.conflicts == g.conflicts && cmd.patched_finalizers() == Some(
                (resource_version@, strings_view(remaining)),
            ),
            GuardEvent::Reconciled(Err(err)) => next.phase is Finished && cmd == Command::Finish(
                Err(err),
            ),
            _ => false,
        },
        Phase::RemovingFinalizer(a) => match e {
            GuardEvent::Patched(Ok(())) => next.phase is Finished && cmd == Command::Finish(
                Ok(a),
            ),
            GuardEvent::Patched(Err(err)) => patch_failed_ok(g.conflicts, err, false, next, cmd),
            _ => false,
        },
        Phase::Finished => false,
    }
}

fn patch_failed(conflicts: u32, err: StoreError, adding: bool) -> (r: (Guard, Command))
    requires
        conflicts <= MAX_CONFLICT_RETRIES,
    ensures
        patch_failed_ok(conflicts, err, adding, r.0, r.1),
        r.0.wf(),
{
    if err.is_code(CONFLICT) {
        if conflicts < MAX_CONFLICT_RETRIES {
            (Guard { phase: Phase::Observing, conflicts: conflicts + 1 }, Command::Reread)
        } else {
            (
                Guard { phase: Phase::Finished, conflicts },
                Command::Finish(Err(Error { kind: ErrorKind::FinalizerConflict })),
            )
        }
    } else {
        let kind = if adding {
            ErrorKind::AddFinalizer(err)
        } else {
            ErrorKind::RemoveFinalizer(err)
        };
        (Guard { phase: Phase::Finished, conflicts }, Command::Finish(Err(Error { kind })))
    }
}

fn observe(conflicts: u32, h: Hello) -> (r: (Guard, Command))
    requires
        conflicts <= MAX_CONFLICT_RETRIES,
    ensures
        observed_ok(conflicts, h, r.0, r.1),
        r.0.wf(),
{
    if h.namespace.is_none() {
        return (
            Guard { phase: Phase::Finished, conflicts },
            Command::Finish(Err(Error { kind: ErrorKind::MissingNamespace })),
        );
    }
    match h.classify() {
        Classification::AddFinalizer => {
            let finalizers = finalizers_with(&h.finalizers);
            let resource_version = h.resource_version.clone();
            (
                Guard { phase: Phase::AddingFinalizer(h), conflicts },
                Command::PatchFinalizers { resource_version, finalizers },
            )
        },
        Classification::Apply => (Guard { phase: Phase::Applying, conflicts }, Command::Apply(h)),
        Classification::Cleanup => {
            let remaining = finalizers_without(&h.finalizers);
            let resource_version = h.resource_version.clone();
            (
                Guard { phase: Phase::CleaningUp { resource_version, remaining }, conflicts },
                Command::Cleanup(h),
            )
        },
        Classification::Done => (
            Guard { phase: Phase::Finished, conflicts },
            Command::Finish(Ok(Action::AwaitChange)),
        ),
    }
}

/// Advances the finalizer guard by one event.
///
/// A snapshot that is not being deleted gets the finalizer (by a patch checked
/// against its version) before the apply path runs; one that is being deleted
/// and holds the finalizer runs the cleanup path, and only a successful cleanup
/// is followed by the patch that removes the finalizer. A version conflict on
/// either patch rereads the object, up to `MAX_CONFLICT_RETRIES` times; every
/// other failure ends the attempt unchanged.
pub fn reconcile(guard: Guard, event: GuardEvent) -> (r: (Guard, Command))
    requires
        guard.wf(),
        guard.accepts_spec(event),
    ensures
        step_ok(guard, event, r.0, r.1),
        r.0.wf(),
{
    let conflicts = guard.conflicts;
    match guard.phase {
        Phase::Observing => match event {
            GuardEvent::Observed(h) => observe(conflicts, h),
            _ => {
                assert(false);
                (Guard { phase: Phase::Finished, conflicts }, Command::Reread)
            },
        },
        Phase::AddingFinalizer(h) => match event {
            GuardEvent::Patched(Ok(())) => (
                Guard { phase: Phase::Applying, conflicts },
                Command::Apply(h),
            ),
            GuardEvent::Patched(Err(err)) => patch_failed(conflicts, err, true),
            _ => {
                assert(false);
                (Guard { phase: Phase::Finished, conflicts }, Command::Reread)
            },
        },
        Phase::Applying => match event {
            GuardEvent::Reconciled(r) => (
                Guard { phase: Phase::Finished, conflicts },
                Command::Finish(r),
            ),
            _ => {
                assert(false);
                (Guard { phase: Phase::Finished, conflicts }, Command::Reread)
            },
        },
        Phase::CleaningUp { resource_version, remaining } => match event {
            GuardEvent::Reconciled(Ok(a)) => (
                Guard { phase: Phase::RemovingFinalizer(a), conflicts },
                Command::PatchFinalizers { resource_version, finalizers: remaining },
            ),
            GuardEvent::Reconciled(Err(err)) => (
                Guard { phase: Phase::Finished, conflicts },
                Command::Finish(Err(err)),
            ),
            _ => {
                assert(false);
                (Guard { phase: Phase::Finished, conflicts }, Command::Reread)
            },
        },
        Phase::RemovingFinalizer(a) => match event {
            GuardEvent::Patched(Ok(())) => (
                Guard { phase: Phase::Finished, conflicts },
                Command::Finish(Ok(a)),
            ),
            GuardEvent::Patched(Err(err)) => patch_failed(conflicts, err, false),
            _ => {
                assert(false);
                (Guard { phase: Phase::Finished, conflicts }, Command::Reread)
            },
        },
        Phase::Finished => {
            assert(false);
            (Guard { phase: Phase::Finished, conflicts }, Command::Reread)
        },
    }
}

/// A snapshot takes the cleanup path exactly when it is being deleted and holds
/// the finalizer, and the apply path (at once, or once the finalizer is added)
/// exactly when it is not being deleted.
pub proof fn lemma_finalizer_gating(g: Guard, h: Hello, next: Guard, cmd: Command)
    requires
        g.phase is Observing,
        h.namespace is Some,
        step_ok(g, GuardEvent::Observed(h), next, cmd),
    ensures
        cmd is Cleanup <==> (h.deletion_timestamp is Some && h.has_finalizer_spec()),
        (cmd is Apply || next.phase is AddingFinalizer) <==> h.deletion_timestamp is None,
{
}

/// Whatever the step, the apply path is only handed a snapshot that is not
/// being deleted, and the cleanup path only one that is being deleted and
/// holds the finalizer; each is handed out once per attempt, after which the
/// guard only waits for its outcome.
pub proof fn lemma_paths_gated(g: Guard, e: GuardEvent, next: Guard, cmd: Command)
    requires
        g.wf(),
        step_ok(g, e, next, cmd),
    ensures
        cmd matches Command::Apply(h) ==> h.deletion_timestamp is None && next.phase is Applying,
        cmd matches Command::Cleanup(h) ==> h.deletion_timestamp is Some
            && h.has_finalizer_spec() && next.phase is CleaningUp,
{
}

/// A finalizer patch leaves the finalizer out only right after the cleanup
/// path succeeded.
pub proof fn lemma_no_premature_erasure(g: Guard, e: GuardEvent, next: Guard, cmd: Command)
    requires
        g.wf(),
        step_ok(g, e, next, cmd),
        cmd.patched_finalizers() matches Some((_, fs)) && !fs.contains(finalizer_name()),
    ensures
        g.phase is CleaningUp,
        e matches GuardEvent::Reconciled(Ok(_)),
{
    if g.phase is Observing {
        if let Some((_, fs)) = cmd.patched_finalizers() {
            assert(fs[fs.len() - 1] == finalizer_name());
        }
    }
}

/// A cleanup whose delete failed with anything but not-found ends the attempt
/// with that failure and leaves the finalizers as they are.
pub proof fn lemma_failed_cleanup_keeps_finalizer(
    g: Guard,
    err: StoreError,
    next: Guard,
    cmd: Command,
)
    requires
        g.phase is CleaningUp,
        !err.has_code(NOT_FOUND),
        step_ok(g, GuardEvent::Reconciled(delete_action_spec(Err(err))), next, cmd),
    ensures
        cmd.patched_finalizers() is None,
        next.phase is Finished,
        cmd == Command::Finish(Err(Error { kind: ErrorKind::DeleteDeployment(err) })),
{
}

/// A version conflict on the patch that adds the finalizer, while retries are
/// left, rereads the object and does not run the apply path.
pub proof fn lemma_conflict_rereads(g: Guard, err: StoreError, next: Guard, cmd: Command)
    requires
        g.phase is AddingFinalizer,
        g.conflicts < MAX_CONFLICT_RETRIES,
        err.has_code(CONFLICT),
        step_ok(g, GuardEvent::Patched(Err(err)), next, cmd),
    ensures
        cmd is Reread,
        next.phase is Observing,
        next.conflicts == g.conflicts + 1,
{
}

} // verus!
