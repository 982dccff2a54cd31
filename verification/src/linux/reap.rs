//! Waiting for child processes: each wait ends within its deadline and a short
//! grace, and a process that cannot be shown to have ended is kept for later.

use vstd::prelude::*;

use crate::clock;
use crate::clock::LAST_INSTANT;
use crate::contracts::FailureCategory;
use crate::error::ExecutionDomainError;
use crate::linux::cleanup;
use crate::linux::cleanup::{REAP_GRACE, REAP_RESERVE};

verus! {

/// How long to pause between two looks at a child, in nanoseconds.
pub const POLL_PAUSE: u128 = 5_000_000;

/// A wait for a child process. The child is killed a little before the deadline,
/// and has a separate grace after it to be reaped.
#[derive(Debug, Clone, Copy, PartialEq, Eq, Structural)]
pub struct ChildWait {
    pub deadline: u128,
    pub kill_at: u128,
    pub reap_deadline: u128,
    pub killed: bool,
}

/// What a kill did.
#[derive(Debug, Clone, Copy, PartialEq, Eq, Structural)]
pub enum KillOutcome {
    Sent,
    /// The child had been reaped before.
    AlreadyReaped,
    Failed(Option<i32>),
}

/// What comes next in a wait.
pub enum WaitStep {
    /// The wait is over; the child has ended, and `true` stands for success.
    Finished(Result<bool, ExecutionDomainError>),
    /// Kill the child.
    Kill(ChildWait),
    /// Pause so long, and look again.
    Pause(ChildWait, u128),
}

impl ChildWait {
    /// Begins a wait. It fails where the clock cannot tell the end of the grace.
    pub fn begin(deadline: u128) -> (r: Result<ChildWait, ExecutionDomainError>)
        ensures
            match r {
                Ok(w) => deadline + REAP_GRACE <= LAST_INSTANT && w.deadline == deadline && !w.killed
                    && w.reap_deadline == deadline + REAP_GRACE && w.kill_at == (if deadline
                    >= REAP_RESERVE {
                    deadline - REAP_RESERVE
                } else {
                    deadline as int
                }),
                Err(e) => deadline + REAP_GRACE > LAST_INSTANT && e == cleanup::cleanup_error(
                    FailureCategory::InvalidInput,
                ),
            },
    {
        let kill_at: u128 = match deadline.checked_sub(REAP_RESERVE) {
            Some(at) => at,
            None => deadline,
        };
        match clock::after(deadline, REAP_GRACE) {
            Some(reap_deadline) => Ok(ChildWait { deadline, kill_at, reap_deadline, killed: false }),
            None => Err(cleanup::failure(FailureCategory::InvalidInput)),
        }
    }

    /// The moment at which the wait gives up.
    pub open spec fn limit(self) -> u128 {
        if self.killed {
            self.reap_deadline
        } else {
            self.deadline
        }
    }

    /// What comes after a look that found the child running.
    pub open spec fn pause_step(self, now: u128) -> WaitStep {
        if now >= self.limit() {
            WaitStep::Finished(Err(cleanup::cleanup_error(FailureCategory::Timeout)))
        } else if self.limit() - now < POLL_PAUSE {
            WaitStep::Pause(self, (self.limit() - now) as u128)
        } else {
            WaitStep::Pause(self, POLL_PAUSE)
        }
    }

    fn pause(self, now: u128) -> (r: WaitStep)
        ensures
            r == self.pause_step(now),
    {
        let limit: u128 = if self.killed {
            self.reap_deadline
        } else {
            self.deadline
        };
        if now >= limit {
            return WaitStep::Finished(Err(cleanup::failure(FailureCategory::Timeout)));
        }
        let left: u128 = limit - now;
        WaitStep::Pause(
            self,
            if left < POLL_PAUSE {
                left
            } else {
                POLL_PAUSE
            },
        )
    }

    /// What comes after a look at the child. The status of a child that had to be
    /// killed counts as a timeout.
    pub open spec fn look_step(self, status: Result<Option<bool>, Option<i32>>, now: u128) -> WaitStep {
        match status {
            Err(errno) => WaitStep::Finished(Err(cleanup::cleanup_io_error(errno))),
            Ok(Some(success)) => WaitStep::Finished(
                if self.killed {
                    Err(cleanup::cleanup_error(FailureCategory::Timeout))
                } else {
                    Ok(success)
                },
            ),
            Ok(None) => if !self.killed && now >= self.kill_at {
                WaitStep::Kill(self)
            } else {
                self.pause_step(now)
            },
        }
    }

    /// Takes what a look at the child gave: a failure, nothing while it runs, or
    /// whether it ended with success.
    pub fn looked(self, status: Result<Option<bool>, Option<i32>>, now: u128) -> (r: WaitStep)
        ensures
            r == self.look_step(status, now),
    {
        match status {
            Err(errno) => WaitStep::Finished(Err(cleanup::io_failure(errno))),
            Ok(Some(success)) => {
                if self.killed {
                    WaitStep::Finished(Err(cleanup::failure(FailureCategory::Timeout)))
                } else {
                    WaitStep::Finished(Ok(success))
                }
            },
            Ok(None) => {
                if !self.killed && now >= self.kill_at {
                    WaitStep::Kill(self)
                } else {
                    self.pause(now)
                }
            },
        }
    }

    /// What comes after a kill.
    pub open spec fn kill_step(self, outcome: KillOutcome, now: u128) -> WaitStep {
        match outcome {
            KillOutcome::Failed(errno) => WaitStep::Finished(Err(cleanup::cleanup_io_error(errno))),
            _ => (ChildWait { killed: true, ..self }).pause_step(now),
        }
    }

    /// Takes what a kill did.
    pub fn kill_done(self, outcome: KillOutcome, now: u128) -> (r: WaitStep)
        ensures
            r == self.kill_step(outcome, now),
    {
        match outcome {
            KillOutcome::Failed(errno) => WaitStep::Finished(Err(cleanup::io_failure(errno))),
            _ => {
                let wait = ChildWait {
                    deadline: self.deadline,
                    kill_at: self.kill_at,
                    reap_deadline: self.reap_deadline,
                    killed: true,
                };
                wait.pause(now)
            },
        }
    }
}

/// Once the grace is over, every look ends the wait, with at most one kill between,
/// and a child that had to be killed is never reported to have ended well.
pub proof fn law_waits_are_bounded(
    wait: ChildWait,
    status: Result<Option<bool>, Option<i32>>,
    outcome: KillOutcome,
    now: u128,
)
    requires
        wait.deadline <= wait.reap_deadline,
    ensures
        now >= wait.reap_deadline ==> match wait.look_step(status, now) {
            WaitStep::Finished(_) => true,
            WaitStep::Kill(w) => w.kill_step(outcome, now) is Finished,
            WaitStep::Pause(_, _) => false,
        },
        wait.killed ==> !(wait.look_step(status, now) is Kill),
        wait.killed ==> (wait.look_step(status, now) matches WaitStep::Finished(r) ==> r is Err),
        wait.look_step(status, now) matches WaitStep::Pause(w, pause) ==> now + pause <= w.limit(),
{
}

/// What a finished wait means: an end without success is a failure.
pub fn wait_child(status: Result<bool, ExecutionDomainError>) -> (r: Result<(), ExecutionDomainError>)
    ensures
        r == (match status {
            Ok(true) => Ok::<(), ExecutionDomainError>(()),
            Ok(false) => Err(cleanup::cleanup_error(FailureCategory::Unavailable)),
            Err(e) => Err(e),
        }),
{
    match status {
        Ok(success) => {
            if success {
                Ok(())
            } else {
                Err(cleanup::failure(FailureCategory::Unavailable))
            }
        },
        Err(e) => Err(e),
    }
}

/// What one more wait for a kept child gave: the wait itself, and whether the child
/// was then still seen running.
pub struct ChildRetry {
    pub child: u64,
    pub wait: Result<bool, ExecutionDomainError>,
    pub running: Result<bool, ExecutionDomainError>,
}

impl ChildRetry {
    /// Whether the child has to be kept: it runs, or nobody knows.
    pub open spec fn kept(self) -> bool {
        self.running != Ok::<bool, ExecutionDomainError>(false)
    }

    /// Why the child is kept.
    pub open spec fn reason(self) -> ExecutionDomainError {
        match self.running {
            Err(e) => e,
            Ok(_) => match self.wait {
                Err(e) => e,
                Ok(_) => cleanup::cleanup_error(FailureCategory::Timeout),
            },
        }
    }
}

/// The children to keep, in order.
pub open spec fn kept_children(list: Seq<ChildRetry>) -> Seq<u64>
    decreases list.len(),
{
    if list.len() == 0 {
        seq![]
    } else {
        let before = kept_children(list.drop_last());
        if list.last().kept() {
            before.push(list.last().child)
        } else {
            before
        }
    }
}

/// Why the first child is kept.
pub open spec fn first_reason(list: Seq<ChildRetry>) -> Option<ExecutionDomainError>
    decreases list.len(),
{
    if list.len() == 0 {
        None
    } else {
        match first_reason(list.drop_last()) {
            Some(e) => Some(e),
            None => if list.last().kept() {
                Some(list.last().reason())
            } else {
                None
            },
        }
    }
}

/// What a round of retries left over.
pub struct Leftover {
    pub kept: Vec<u64>,
    pub error: Option<ExecutionDomainError>,
}

/// Keeps the children that have not been shown to have ended, with the first reason.
pub fn retry_pending_children(list: Vec<ChildRetry>) -> (r: Leftover)
    ensures
        r.kept@ == kept_children(list@),
        r.error == first_reason(list@),
        r.error is None <==> r.kept@.len() == 0,
{
    let ghost all = list@;
    let mut rest: Vec<ChildRetry> = list;
    let mut kept: Vec<u64> = Vec::new();
    let mut error: Option<ExecutionDomainError> = None;
    let ghost mut done: Seq<ChildRetry> = seq![];
    reverse_children(&mut rest);
    while rest.len() > 0
        invariant
            done + rest@.reverse() == all,
            kept@ == kept_children(done),
            error == first_reason(done),
            error is None <==> kept@.len() == 0,
        decreases rest.len(),
    {
        let ghost before = rest@;
        match rest.pop() {
            Some(retry) => {
                proof {
                    let now = done.push(retry);
                    assert(now.drop_last() =~= done);
                    assert(now + rest@.reverse() =~= all) by {
                        assert(before.reverse() =~= seq![retry] + rest@.reverse());
                    }
                    done = now;
                }
                let ChildRetry { child, wait, running } = retry;
                match running {
                    Ok(alive) => {
                        if alive {
                            if error.is_none() {
                                error = Some(
                                    match wait {
                                        Err(e) => e,
                                        Ok(_) => cleanup::failure(FailureCategory::Timeout),
                                    },
                                );
                            }
                            kept.push(child);
                        }
                    },
                    Err(e) => {
                        if error.is_none() {
                            error = Some(e);
                        }
                        kept.push(child);
                    },
                }
            },
            None => {},
        }
    }
    proof {
        assert(rest@.reverse() =~= Seq::<ChildRetry>::empty());
        assert(done =~= all);
    }
    Leftover { kept, error }
}

fn reverse_children(list: &mut Vec<ChildRetry>)
    ensures
        final(list)@ == old(list)@.reverse(),
{
    let mut taken: Vec<ChildRetry> = Vec::new();
    std::mem::swap(&mut taken, list);
    let ghost all = taken@;
    while taken.len() > 0
        invariant
            taken@.len() + list@.len() == all.len(),
            taken@ == all.take(taken@.len() as int),
            list@ == all.skip(taken@.len() as int).reverse(),
        decreases taken.len(),
    {
        match taken.pop() {
            Some(item) => {
                list.push(item);
                proof {
                    assert(list@ =~= all.skip(taken@.len() as int).reverse());
                }
            },
            None => {},
        }
    }
    proof {
        assert(all.skip(0) =~= all);
    }
}

/// What one more attempt to remove a kept group or directory gave.
pub struct Retried {
    pub item: u64,
    pub outcome: Result<(), ExecutionDomainError>,
}

/// The items that could not be removed, in order.
pub open spec fn kept_items(list: Seq<Retried>) -> Seq<u64>
    decreases list.len(),
{
    if list.len() == 0 {
        seq![]
    } else {
        let before = kept_items(list.drop_last());
        if list.last().outcome is Err {
            before.push(list.last().item)
        } else {
            before
        }
    }
}

/// Why the first item could not be removed.
pub open spec fn first_failure(list: Seq<Retried>) -> Option<ExecutionDomainError>
    decreases list.len(),
{
    if list.len() == 0 {
        None
    } else {
        match (first_failure(list.drop_last()), list.last().outcome) {
            (Some(e), _) => Some(e),
            (None, Err(e)) => Some(e),
            (None, Ok(_)) => None,
        }
    }
}

fn retry_items(list: Vec<Retried>) -> (r: Leftover)
    ensures
        r.kept@ == kept_items(list@),
        r.error == first_failure(list@),
        r.error is None <==> r.kept@.len() == 0,
{
    let ghost all = list@;
    let mut rest: Vec<Retried> = list;
    let mut back: Vec<Retried> = Vec::new();
    while rest.len() > 0
        invariant
            rest@ + back@.reverse() == all,
        decreases rest.len(),
    {
        let ghost before = rest@;
        let ghost behind = back@;
        match rest.pop() {
            Some(item) => {
                back.push(item);
                proof {
                    assert(rest@ + back@.reverse() =~= before + behind.reverse());
                }
            },
            None => {},
        }
    }
    let mut kept: Vec<u64> = Vec::new();
    let mut error: Option<ExecutionDomainError> = None;
    let ghost mut done: Seq<Retried> = seq![];
    proof {
        assert(done + back@.reverse() =~= all);
    }
    while back.len() > 0
        invariant
            done + back@.reverse() == all,
            kept@ == kept_items(done),
            error == first_failure(done),
            error is None <==> kept@.len() == 0,
        decreases back.len(),
    {
        let ghost before = back@;
        match back.pop() {
            Some(retried) => {
                proof {
                    let now = done.push(retried);
                    assert(now.drop_last() =~= done);
                    assert(now + back@.reverse() =~= all) by {
                        assert(before.reverse() =~= seq![retried] + back@.reverse());
                    }
                    done = now;
                }
                let Retried { item, outcome } = retried;
                match outcome {
                    Ok(_) => {},
                    Err(e) => {
                        if error.is_none() {
                            error = Some(e);
                        }
                        kept.push(item);
                    },
                }
            },
            None => {},
        }
    }
    proof {
        assert(back@.reverse() =~= Seq::<Retried>::empty());
        assert(done =~= all);
    }
    Leftover { kept, error }
}

/// What earlier cleanups left over: children, groups and start directories.
pub struct PendingCleanup {
    pub children: Vec<u64>,
    pub cgroups: Vec<u64>,
    pub bootstraps: Vec<u64>,
}

impl Default for PendingCleanup {
    fn default() -> (r: PendingCleanup)
        ensures
            r.children@.len() == 0,
            r.cgroups@.len() == 0,
            r.bootstraps@.len() == 0,
    {
        PendingCleanup { children: Vec::new(), cgroups: Vec::new(), bootstraps: Vec::new() }
    }
}

/// The first of two errors.
pub open spec fn earlier(
    first: Option<ExecutionDomainError>,
    second: Option<ExecutionDomainError>,
) -> Option<ExecutionDomainError> {
    match first {
        Some(e) => Some(e),
        None => second,
    }
}

/// A retry of what earlier cleanups left over, once groups and children were tried.
pub struct PendingRetry {
    pub children: Vec<u64>,
    pub cgroups: Vec<u64>,
    pub error: Option<ExecutionDomainError>,
}

impl PendingRetry {
    /// Whether the start directories may be removed: only once no process can be
    /// left.
    pub open spec fn settled(self) -> bool {
        self.children@.len() == 0 && self.cgroups@.len() == 0
    }

    /// Takes what retrying the groups, and then the children, gave.
    pub fn begin(cgroups: Vec<Retried>, children: Vec<ChildRetry>) -> (r: PendingRetry)
        ensures
            r.cgroups@ == kept_items(cgroups@),
            r.children@ == kept_children(children@),
            r.error == earlier(first_failure(cgroups@), first_reason(children@)),
            r.settled() <==> r.error is None,
    {
        let groups: Leftover = retry_items(cgroups);
        let processes: Leftover = retry_pending_children(children);
        let error: Option<ExecutionDomainError> = match groups.error {
            Some(e) => Some(e),
            None => processes.error,
        };
        PendingRetry { children: processes.kept, cgroups: groups.kept, error }
    }

    /// Whether the start directories may be removed now.
    pub fn try_bootstraps(&self) -> (r: bool)
        ensures
            r == self.settled(),
    {
        self.children.len() == 0 && self.cgroups.len() == 0
    }

    /// Ends the retry without having touched the start directories.
    pub fn keep_bootstraps(self, bootstraps: Vec<u64>) -> (r: (
        PendingCleanup,
        Result<(), ExecutionDomainError>,
    ))
        requires
            !self.settled(),
        ensures
            r.0.children == self.children,
            r.0.cgroups == self.cgroups,
            r.0.bootstraps == bootstraps,
            r.1 == Err::<(), ExecutionDomainError>(
                match self.error {
                    Some(e) => e,
                    None => cleanup::cleanup_error(FailureCategory::Unavailable),
                },
            ),
    {
        let error: ExecutionDomainError = match self.error {
            Some(e) => e,
            None => cleanup::failure(FailureCategory::Unavailable),
        };
        (
            PendingCleanup { children: self.children, cgroups: self.cgroups, bootstraps },
            Err(error),
        )
    }

    /// Ends the retry with what removing the start directories gave.
    pub fn finish(self, bootstraps: Vec<Retried>) -> (r: (
        PendingCleanup,
        Result<(), ExecutionDomainError>,
    ))
        requires
            self.settled(),
            self.error is None,
        ensures
            r.0.children@.len() == 0,
            r.0.cgroups@.len() == 0,
            r.0.bootstraps@ == kept_items(bootstraps@),
            r.1 == (match first_failure(bootstraps@) {
                Some(e) => Err::<(), ExecutionDomainError>(e),
                None => Ok(()),
            }),
            r.1 is Ok <==> r.0.bootstraps@.len() == 0,
    {
        let left: Leftover = retry_items(bootstraps);
        let outcome: Result<(), ExecutionDomainError> = match left.error {
            Some(e) => Err(e),
            None => Ok(()),
        };
        (
            PendingCleanup {
                children: self.children,
                cgroups: self.cgroups,
                bootstraps: left.kept,
            },
            outcome,
        )
    }
}

/// A child whose end could not be observed is never forgotten, and there is a reason
/// to report for it.
pub proof fn law_nothing_is_forgotten(children: Seq<ChildRetry>, i: int)
    requires
        0 <= i < children.len(),
    ensures
        children[i].kept() ==> kept_children(children).contains(children[i].child)
            && first_reason(children) is Some,
    decreases children.len(),
{
    if children[i].kept() {
        let before = kept_children(children.drop_last());
        if i == children.len() - 1 {
            let all = before.push(children[i].child);
            assert(all[all.len() - 1] == children[i].child);
            assert(kept_children(children) == all);
        } else {
            law_nothing_is_forgotten(children.drop_last(), i);
            let j = choose|j: int|
                0 <= j < before.len() && before[j] == children.drop_last()[i].child;
            if children.last().kept() {
                let all = before.push(children.last().child);
                assert(all[j] == children[i].child);
            }
        }
    }
}

/// A wait for a child ends at its deadline; the child is killed 25 milliseconds before,
/// and may then take 250 milliseconds longer to be reaped.
pub proof fn law_waits_kill_before_they_give_up(
    deadline: u128,
    r: Result<ChildWait, ExecutionDomainError>,
)
    requires
        call_ensures(ChildWait::begin, (deadline,), r),
    ensures
        25_000_000 <= deadline && deadline + 250_000_000 <= LAST_INSTANT ==> (r matches Ok(w)
            && w.deadline == deadline && w.kill_at == deadline - 25_000_000 && w.reap_deadline
            == deadline + 250_000_000 && !w.killed),
        deadline + 250_000_000 > LAST_INSTANT ==> r is Err,
{
}

/// A child that has ended ends the wait with how it ended, unless it was killed for
/// being late; one that still runs is waited for, killed once, and then given up.
pub proof fn law_looks_decide_a_wait(
    wait: ChildWait,
    status: Result<Option<bool>, Option<i32>>,
    now: u128,
    r: WaitStep,
)
    requires
        call_ensures(ChildWait::looked, (wait, status, now), r),
    ensures
        status is Ok && status->Ok_0 is Some && !wait.killed ==> r == WaitStep::Finished(
            Ok(status->Ok_0->0),
        ),
        status is Ok && status->Ok_0 is Some && wait.killed ==> (
        r matches WaitStep::Finished(Err(ExecutionDomainError::Backend { category, .. }))
            && category == FailureCategory::Timeout),
        status is Err ==> (r matches WaitStep::Finished(
            Err(ExecutionDomainError::Backend { category, errno, .. }),
        ) && category == FailureCategory::Io && errno == status->Err_0),
        status == Ok::<Option<bool>, Option<i32>>(None) && !wait.killed && now >= wait.kill_at ==> r
            == WaitStep::Kill(wait),
        status == Ok::<Option<bool>, Option<i32>>(None) && !wait.killed && now < wait.kill_at && now
            < wait.deadline ==> (r matches WaitStep::Pause(next, pause) && next == wait && 0 < pause
            <= 5_000_000 && now + pause <= wait.deadline),
        status == Ok::<Option<bool>, Option<i32>>(None) && wait.killed && now < wait.reap_deadline
            ==> (r matches WaitStep::Pause(next, pause) && next == wait && 0 < pause <= 5_000_000
            && now + pause <= wait.reap_deadline),
        status == Ok::<Option<bool>, Option<i32>>(None) && wait.killed && now >= wait.reap_deadline
            ==> (r matches WaitStep::Finished(Err(_))),
{
}

/// A child that was killed, or was already gone, is waited for a little longer.
pub proof fn law_killed_children_are_reaped(
    wait: ChildWait,
    outcome: KillOutcome,
    now: u128,
    r: WaitStep,
)
    requires
        call_ensures(ChildWait::kill_done, (wait, outcome, now), r),
    ensures
        !(outcome is Failed) && now < wait.reap_deadline ==> (r matches WaitStep::Pause(next, pause)
            && next.killed && next.reap_deadline == wait.reap_deadline && next.deadline
            == wait.deadline && now + pause <= wait.reap_deadline),
        !(outcome is Failed) && now >= wait.reap_deadline ==> (r matches WaitStep::Finished(Err(_))),
        outcome is Failed ==> (r matches WaitStep::Finished(Err(_))),
{
}

/// A child that ended badly is a failure.
pub proof fn law_only_success_is_success(
    status: Result<bool, ExecutionDomainError>,
    r: Result<(), ExecutionDomainError>,
)
    requires
        call_ensures(wait_child, (status,), r),
    ensures
        r is Ok <==> status == Ok::<bool, ExecutionDomainError>(true),
        status is Err ==> r is Err && r->Err_0 == status->Err_0,
{
}

/// A retry keeps exactly the children that were not seen to have ended, and reports the
/// first of them: why it could not be observed, or else why it could not be waited for.
pub proof fn law_retries_keep_what_still_runs(list: Vec<ChildRetry>, r: Leftover, k: int)
    requires
        call_ensures(retry_pending_children, (list,), r),
    ensures
        (forall|i: int|
            0 <= i < list@.len() ==> (#[trigger] list@[i]).running == Ok::<
                bool,
                ExecutionDomainError,
            >(false)) ==> r.kept@.len() == 0 && r.error is None,
        0 <= k < list@.len() && list@[k].running != Ok::<bool, ExecutionDomainError>(false)
            ==> r.kept@.contains(list@[k].child),
        0 <= k < list@.len() && list@[k].running != Ok::<bool, ExecutionDomainError>(false) && (
        forall|i: int|
            0 <= i < k ==> (#[trigger] list@[i]).running == Ok::<bool, ExecutionDomainError>(
                false,
            )) ==> r.error == Some(
            match list@[k].running {
                Err(e) => e,
                Ok(_) => match list@[k].wait {
                    Err(e) => e,
                    Ok(_) => ExecutionDomainError::Backend {
                        attempt: None,
                        stage: crate::contracts::Stage::Destroy,
                        category: FailureCategory::Timeout,
                        errno: None,
                    },
                },
            },
        ),
        forall|c: u64| #[trigger]
            r.kept@.contains(c) ==> exists|i: int|
                0 <= i < list@.len() && (#[trigger] list@[i]).child == c && list@[i].running
                    != Ok::<bool, ExecutionDomainError>(false),
{
    if forall|i: int|
        0 <= i < list@.len() ==> (#[trigger] list@[i]).running == Ok::<bool, ExecutionDomainError>(
            false,
        ) {
        lemma_none_kept(list@, list@.len() as int);
        assert(list@.take(list@.len() as int) =~= list@);
    }
    if 0 <= k < list@.len() {
        law_nothing_is_forgotten(list@, k);
        if list@[k].running != Ok::<bool, ExecutionDomainError>(false) && (forall|i: int|
            0 <= i < k ==> (#[trigger] list@[i]).running == Ok::<bool, ExecutionDomainError>(
                false,
            )) {
            lemma_none_kept(list@, k);
            lemma_first_reason_stays(list@, k, list@.len() as int);
            assert(list@.take(list@.len() as int) =~= list@);
        }
    }
    assert forall|c: u64| #[trigger] r.kept@.contains(c) implies exists|i: int|
        0 <= i < list@.len() && (#[trigger] list@[i]).child == c && list@[i].running != Ok::<
            bool,
            ExecutionDomainError,
        >(false) by {
        lemma_kept_ran(list@, c);
    }
}

proof fn lemma_none_kept(list: Seq<ChildRetry>, n: int)
    requires
        0 <= n <= list.len(),
        forall|i: int|
            0 <= i < n ==> (#[trigger] list[i]).running == Ok::<bool, ExecutionDomainError>(false),
    ensures
        kept_children(list.take(n)).len() == 0,
        first_reason(list.take(n)) is None,
    decreases n,
{
    if n > 0 {
        lemma_none_kept(list, n - 1);
        assert(list.take(n).drop_last() =~= list.take(n - 1));
        assert(list.take(n).last() == list[n - 1]);
    }
}

proof fn lemma_first_reason_stays(list: Seq<ChildRetry>, k: int, n: int)
    requires
        0 <= k < n <= list.len(),
        first_reason(list.take(k)) is None,
        list[k].running != Ok::<bool, ExecutionDomainError>(false),
    ensures
        first_reason(list.take(n)) == Some(list[k].reason()),
    decreases n,
{
    assert(list.take(n).drop_last() =~= list.take(n - 1));
    assert(list.take(n).last() == list[n - 1]);
    if k < n - 1 {
        lemma_first_reason_stays(list, k, n - 1);
    }
}

proof fn lemma_kept_ran(list: Seq<ChildRetry>, c: u64)
    requires
        kept_children(list).contains(c),
    ensures
        exists|i: int|
            0 <= i < list.len() && (#[trigger] list[i]).child == c && list[i].running != Ok::<
                bool,
                ExecutionDomainError,
            >(false),
    decreases list.len(),
{
    let short = list.drop_last();
    if list.last().kept() && list.last().child == c {
        assert(list[list.len() - 1].child == c);
    } else {
        let k = choose|k: int| 0 <= k < kept_children(list).len() && kept_children(list)[k] == c;
        assert(kept_children(short)[k] == c);
        lemma_kept_ran(short, c);
        let i = choose|i: int|
            0 <= i < short.len() && (#[trigger] short[i]).child == c && short[i].running != Ok::<
                bool,
                ExecutionDomainError,
            >(false);
        assert(list[i].child == c);
    }
}

/// Start directories are touched only once no process and no group is left over.
pub proof fn law_start_directories_come_last(p: PendingRetry, r: bool)
    requires
        call_ensures(PendingRetry::try_bootstraps, (&p,), r),
    ensures
        r <==> p.children@.len() == 0 && p.cgroups@.len() == 0,
{
}

/// Groups and children that could not be dealt with are kept, and the first error of the
/// groups, or else of the children, is reported.
pub proof fn law_retries_are_settled_or_kept(
    cgroups: Vec<Retried>,
    children: Vec<ChildRetry>,
    p: PendingRetry,
    k: int,
)
    requires
        call_ensures(PendingRetry::begin, (cgroups, children), p),
    ensures
        0 <= k < cgroups@.len() && cgroups@[k].outcome is Err ==> p.cgroups@.contains(
            cgroups@[k].item,
        ) && p.error is Some,
        0 <= k < cgroups@.len() && cgroups@[k].outcome is Err && (forall|i: int|
            0 <= i < k ==> (#[trigger] cgroups@[i]).outcome is Ok) ==> p.error == Some(
            cgroups@[k].outcome->Err_0,
        ),
        0 <= k < children@.len() && children@[k].running != Ok::<bool, ExecutionDomainError>(false)
            ==> p.children@.contains(children@[k].child) && p.error is Some,
        p.error is None ==> p.cgroups@.len() == 0 && p.children@.len() == 0,
{
    if 0 <= k < cgroups@.len() && cgroups@[k].outcome is Err {
        lemma_failed_items_stay(cgroups@, k, cgroups@.len() as int);
        assert(cgroups@.take(cgroups@.len() as int) =~= cgroups@);
    }
    if 0 <= k < children@.len() {
        law_nothing_is_forgotten(children@, k);
    }
}

proof fn lemma_failed_items_stay(list: Seq<Retried>, k: int, n: int)
    requires
        0 <= k < n <= list.len(),
        list[k].outcome is Err,
    ensures
        kept_items(list.take(n)).contains(list[k].item),
        first_failure(list.take(n)) is Some,
        (forall|i: int| 0 <= i < k ==> (#[trigger] list[i]).outcome is Ok) ==> first_failure(
            list.take(n),
        ) == Some(list[k].outcome->Err_0),
    decreases n,
{
    assert(list.take(n).drop_last() =~= list.take(n - 1));
    assert(list.take(n).last() == list[n - 1]);
    if k < n - 1 {
        lemma_failed_items_stay(list, k, n - 1);
        let before = kept_items(list.take(n - 1));
        let i = choose|i: int| 0 <= i < before.len() && before[i] == list[k].item;
        assert(kept_items(list.take(n))[i] == list[k].item);
    } else {
        let all = kept_items(list.take(n));
        assert(all[all.len() - 1] == list[k].item);
        if forall|i: int| 0 <= i < k ==> (#[trigger] list[i]).outcome is Ok {
            lemma_no_failure_so_far(list, k);
        }
    }
}

proof fn lemma_no_failure_so_far(list: Seq<Retried>, n: int)
    requires
        0 <= n <= list.len(),
        forall|i: int| 0 <= i < n ==> (#[trigger] list[i]).outcome is Ok,
    ensures
        first_failure(list.take(n)) is None,
        kept_items(list.take(n)).len() == 0,
    decreases n,
{
    if n > 0 {
        lemma_no_failure_so_far(list, n - 1);
        assert(list.take(n).drop_last() =~= list.take(n - 1));
        assert(list.take(n).last() == list[n - 1]);
    }
}

/// A retry succeeds where every start directory could be removed, and keeps those that
/// could not.
pub proof fn law_start_directories_are_removed_or_kept(
    p: PendingRetry,
    bootstraps: Vec<Retried>,
    k: int,
    r: (PendingCleanup, Result<(), ExecutionDomainError>),
)
    requires
        call_ensures(PendingRetry::finish, (p, bootstraps), r),
    ensures
        (forall|i: int| 0 <= i < bootstraps@.len() ==> (#[trigger] bootstraps@[i]).outcome is Ok)
            ==> r.1 is Ok && r.0.bootstraps@.len() == 0,
        0 <= k < bootstraps@.len() && bootstraps@[k].outcome is Err ==> r.1 is Err
            && r.0.bootstraps@.contains(bootstraps@[k].item),
        r.0.children@.len() == 0,
        r.0.cgroups@.len() == 0,
{
    let n = bootstraps@.len() as int;
    assert(bootstraps@.take(n) =~= bootstraps@);
    if forall|i: int| 0 <= i < n ==> (#[trigger] bootstraps@[i]).outcome is Ok {
        lemma_no_failure_so_far(bootstraps@, n);
    }
    if 0 <= k < n && bootstraps@[k].outcome is Err {
        lemma_failed_items_stay(bootstraps@, k, n);
    }
}

/// While something else is left over, the start directories stay as they are.
pub proof fn law_start_directories_stay_meanwhile(
    p: PendingRetry,
    bootstraps: Vec<u64>,
    r: (PendingCleanup, Result<(), ExecutionDomainError>),
)
    requires
        call_ensures(PendingRetry::keep_bootstraps, (p, bootstraps), r),
    ensures
        r.0.bootstraps == bootstraps,
        r.0.children == p.children,
        r.0.cgroups == p.cgroups,
        r.1 is Err,
        p.error is Some ==> r.1->Err_0 == p.error->0,
{
}

} // verus!
