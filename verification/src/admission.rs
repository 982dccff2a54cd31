//! Admission to the root of all domains: capacity is handed out one domain at a
//! time, and never again once a domain was lost.

use vstd::prelude::*;

use crate::contracts::AttemptIdentity;
use crate::error::ExecutionDomainError;

verus! {

/// Whether an error says that a root was given up.
pub open spec fn is_poisoned_root(e: ExecutionDomainError, root: Seq<char>) -> bool {
    e matches ExecutionDomainError::PoisonedRoot { path } && path@ == root
}

/// Whether an error says that nothing is admitted to a root any more.
pub open spec fn is_closed(e: ExecutionDomainError, root: Seq<char>) -> bool {
    e matches ExecutionDomainError::AdmissionClosed { path } && path@ == root
}

/// The root of all domains, as one request sees it.
pub struct ExecutionDomainRoot {
    path: String,
    poisoned: bool,
}

impl ExecutionDomainRoot {
    pub closed spec fn place(self) -> Seq<char> {
        self.path@
    }

    /// Whether the root was given up: a domain was lost in it.
    pub closed spec fn given_up(self) -> bool {
        self.poisoned
    }

    /// A root in which nothing was lost.
    pub fn prepare(path: &str) -> (r: ExecutionDomainRoot)
        ensures
            r.place() == path@,
            !r.given_up(),
    {
        ExecutionDomainRoot { path: path.to_owned(), poisoned: false }
    }

    /// The path of the root.
    pub fn path(&self) -> (r: &str)
        ensures
            r@ == self.place(),
    {
        self.path.as_str()
    }

    /// Gives the root up. There is no way back.
    pub fn poison(&mut self)
        ensures
            final(self).given_up(),
            final(self).place() == old(self).place(),
    {
        self.poisoned = true;
    }

    /// Fails where the root was given up.
    pub fn ensure_healthy(&self) -> (r: Result<(), ExecutionDomainError>)
        ensures
            match r {
                Ok(_) => !self.given_up(),
                Err(e) => self.given_up() && is_poisoned_root(e, self.place()),
            },
    {
        if self.poisoned {
            return Err(ExecutionDomainError::PoisonedRoot { path: self.path.clone() });
        }
        Ok(())
    }

    /// Reserves capacity, given how waiting for it ended. The root is looked at before
    /// the wait and after it: capacity that became free together with the loss of a
    /// domain is not handed out.
    pub fn reserve(&self, waited: Waited, after: &ExecutionDomainRoot) -> (r: Result<
        DomainPermit,
        ExecutionDomainError,
    >)
        requires
            after.place() == self.place(),
        ensures
            match r {
                Ok(permit) => !self.given_up() && waited == Waited::Acquired && !after.given_up()
                    && permit.root() == self.place(),
                Err(e) => if !self.given_up() && waited == Waited::Closed {
                    is_closed(e, self.place())
                } else {
                    (self.given_up() || waited == Waited::Poisoned || after.given_up())
                        && is_poisoned_root(e, self.place())
                },
            },
    {
        match self.ensure_healthy() {
            Ok(_) => {},
            Err(e) => {
                return Err(e);
            },
        }
        match waited {
            Waited::Poisoned => {
                return Err(ExecutionDomainError::PoisonedRoot { path: self.path.clone() });
            },
            Waited::Closed => {
                return Err(ExecutionDomainError::AdmissionClosed { path: self.path.clone() });
            },
            Waited::Acquired => {},
        }
        match after.ensure_healthy() {
            Ok(_) => {},
            Err(e) => {
                return Err(e);
            },
        }
        Ok(DomainPermit { root: self.path.clone() })
    }
}

/// How waiting for capacity ended.
#[derive(Debug, Clone, Copy, PartialEq, Eq, Structural)]
pub enum Waited {
    Acquired,
    /// Nothing is admitted any more.
    Closed,
    /// The root was given up meanwhile.
    Poisoned,
}

/// Reserved capacity, which is returned where nothing is provisioned with it.
#[derive(Debug)]
pub struct DomainPermit {
    root: String,
}

impl DomainPermit {
    /// The root in which the capacity was reserved.
    pub closed spec fn root(self) -> Seq<char> {
        self.root@
    }

    /// Uses the capacity for a new attempt, whose identity is random and not nil. A root that was given up
    /// in the meantime gets no new domain.
    pub fn provision(self, root: &ExecutionDomainRoot) -> (r: Result<
        AttemptIdentity,
        ExecutionDomainError,
    >)
        requires
            root.place() == self.root(),
        ensures
            match r {
                Ok(attempt) => !root.given_up() && attempt@ != 0 && attempt@
                    & 0xf000_c000_0000_0000_0000 == 0x4000_8000_0000_0000_0000,
                Err(e) => root.given_up() && is_poisoned_root(e, root.place()),
            },
    {
        match root.ensure_healthy() {
            Ok(_) => {},
            Err(e) => {
                return Err(e);
            },
        }
        Ok(AttemptIdentity::new())
    }
}

/// A root that was given up lets nothing in any more, whatever a wait came to, and names
/// itself.
pub proof fn law_roots_given_up_let_nothing_in(
    root: &mut ExecutionDomainRoot,
    waited: Waited,
    after: ExecutionDomainRoot,
    permit: DomainPermit,
    done: (),
    healthy: Result<(), ExecutionDomainError>,
    reserved: Result<DomainPermit, ExecutionDomainError>,
    provisioned: Result<AttemptIdentity, ExecutionDomainError>,
)
    requires
        call_ensures(ExecutionDomainRoot::poison, (root,), done),
        call_ensures(ExecutionDomainRoot::ensure_healthy, (&*final(root),), healthy),
        call_ensures(ExecutionDomainRoot::reserve, (&*final(root), waited, &after), reserved),
        call_ensures(DomainPermit::provision, (permit, &*final(root)), provisioned),
    ensures
        healthy matches Err(ExecutionDomainError::PoisonedRoot { path }) && path@
            == old(root).place(),
        reserved matches Err(ExecutionDomainError::PoisonedRoot { path }) && path@
            == old(root).place(),
        provisioned matches Err(ExecutionDomainError::PoisonedRoot { path }) && path@
            == old(root).place(),
{
}

/// A root that was prepared and not given up lets everyone in who got a place, under its
/// own path.
pub proof fn law_prepared_roots_let_in(
    path: &str,
    root: ExecutionDomainRoot,
    healthy: Result<(), ExecutionDomainError>,
    reserved: Result<DomainPermit, ExecutionDomainError>,
    provisioned: Result<AttemptIdentity, ExecutionDomainError>,
)
    requires
        call_ensures(ExecutionDomainRoot::prepare, (path,), root),
        call_ensures(ExecutionDomainRoot::ensure_healthy, (&root,), healthy),
        call_ensures(ExecutionDomainRoot::reserve, (&root, Waited::Acquired, &root), reserved),
        call_ensures(DomainPermit::provision, (reserved->Ok_0, &root), provisioned),
    ensures
        healthy is Ok,
        reserved is Ok && reserved->Ok_0.root() == path@,
        provisioned is Ok && provisioned->Ok_0@ != 0,
{
}

/// A place is given only where the root was sound before the wait and after it, and the
/// wait got one; a wait that was closed is told apart from a root that was given up.
pub proof fn law_places_are_given_once_waited_for(
    before: ExecutionDomainRoot,
    waited: Waited,
    after: ExecutionDomainRoot,
    r: Result<DomainPermit, ExecutionDomainError>,
    sound_before: Result<(), ExecutionDomainError>,
    sound_after: Result<(), ExecutionDomainError>,
)
    requires
        after.place() == before.place(),
        call_ensures(ExecutionDomainRoot::reserve, (&before, waited, &after), r),
        call_ensures(ExecutionDomainRoot::ensure_healthy, (&before,), sound_before),
        call_ensures(ExecutionDomainRoot::ensure_healthy, (&after,), sound_after),
    ensures
        r is Ok <==> sound_before is Ok && sound_after is Ok && waited is Acquired,
        sound_before is Ok && waited is Closed ==> (r matches Err(
            ExecutionDomainError::AdmissionClosed { path },
        ) && path@ == before.place()),
        sound_before is Err || waited is Poisoned || waited is Acquired && sound_after is Err ==> (
        r matches Err(ExecutionDomainError::PoisonedRoot { path }) && path@ == before.place()),
{
}

} // verus!
