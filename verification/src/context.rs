//! The foreign computation session.
//!
//! A `Context` owns one session of the foreign runtime: the ledger of
//! foreign objects allocated and freed, the operation counter and quota,
//! the mutable last-error slot, and a failure-injection switch with which a
//! test can make the next fallible entry point return a null result — with
//! or without recording an error kind — exactly as an instrumented foreign
//! stub would.
//!
//! Every fallible operation of the binding layer runs the same admission check
//! (`admit_call`): an injected failure or an exhausted operation quota
//! makes the entry point fail, and the caller then reads
//! `last_error_or_unknown` from the context reference it captured before
//! consuming its arguments.

use vstd::prelude::*;

use crate::error::{Error, ISLError, ISLErrorKind};

verus! {

/// A borrowed, copyable reference to a context.  It carries no ownership
/// and identifies which session a handle belongs to.
#[derive(Debug, Clone, Copy, PartialEq, Eq, Structural)]
pub struct ContextRef {
    pub(crate) id: u64,
}

/// One foreign computation session: object ledger, operation quota,
/// last-error slot and failure injection.
pub struct Context {
    pub(crate) ctx_id: u64,
    /// Operation quota; zero means unlimited.
    pub(crate) max_n_ops: u64,
    /// Operations charged since creation or the last reset.
    pub(crate) n_ops: u64,
    /// The last-error slot.  The next failing call overwrites it; reading
    /// it leaves it untouched, as the foreign library does.
    pub(crate) err_slot: Option<ISLError>,
    /// A pending injected failure: `Some(Some(k))` makes the next fallible
    /// entry point fail and record kind `k`; `Some(None)` makes it fail
    /// without recording anything.
    pub(crate) inject: Option<Option<ISLErrorKind>>,
    /// How many foreign objects this session has handed out.
    pub(crate) n_alloc: u64,
    /// How many foreign objects this session has destroyed.
    pub(crate) n_free: u64,
    /// The identities of the objects currently alive.
    pub(crate) live_set: Ghost<Set<nat>>,
    /// The identity the next allocated object will get.
    pub(crate) next_id: Ghost<nat>,
}

impl Context {
    /// The session is consistent: the objects alive are exactly those
    /// allocated and not yet freed, and every live identity was handed out.
    pub open(crate) spec fn wf(self) -> bool {
        &&& self.live_set@.finite()
        &&& self.live_set@.len() + self.n_free == self.n_alloc
        &&& forall|i: nat| self.live_set@.contains(i) ==> i < self.next_id@
    }

    pub open(crate) spec fn ctx_ref(self) -> ContextRef {
        ContextRef { id: self.ctx_id }
    }

    pub open(crate) spec fn allocs(self) -> u64 {
        self.n_alloc
    }

    pub open(crate) spec fn frees(self) -> u64 {
        self.n_free
    }

    pub open(crate) spec fn live(self) -> Set<nat> {
        self.live_set@
    }

    pub open(crate) spec fn fresh_id(self) -> nat {
        self.next_id@
    }

    pub open(crate) spec fn operations(self) -> u64 {
        self.n_ops
    }

    pub open(crate) spec fn max_operations(self) -> u64 {
        self.max_n_ops
    }

    pub open(crate) spec fn slot(self) -> Option<ISLError> {
        self.err_slot
    }

    pub open(crate) spec fn injection(self) -> Option<Option<ISLErrorKind>> {
        self.inject
    }

    /// The error slot holds an error of this kind with this message.
    pub open(crate) spec fn slot_is(self, k: ISLErrorKind, msg: Seq<char>) -> bool {
        match self.err_slot {
            Some(e) => e.kind == k && e.message@ == msg,
            None => false,
        }
    }

    /// The kind that reading the slot with an `Unknown` default yields.
    pub open(crate) spec fn reported_kind(self) -> ISLErrorKind {
        match self.err_slot {
            Some(e) => e.kind,
            None => ISLErrorKind::Unknown,
        }
    }

    /// The message that reading the slot with an `Unknown` default yields.
    pub open(crate) spec fn reported_msg(self) -> Seq<char> {
        match self.err_slot {
            Some(e) => e.message@,
            None => ISLErrorKind::Unknown.spec_text(),
        }
    }

    /// The operation counter after charging one operation.
    pub open(crate) spec fn charged_ops(self) -> u64 {
        if self.n_ops == u64::MAX {
            u64::MAX
        } else {
            (self.n_ops + 1) as u64
        }
    }

    /// Charging one more operation would exceed the quota.
    pub open(crate) spec fn quota_hit(self) -> bool {
        self.max_n_ops > 0 && self.charged_ops() > self.max_n_ops
    }

    /// The next fallible entry point will fail.
    pub open(crate) spec fn call_blocked(self) -> bool {
        self.inject is Some || self.quota_hit()
    }

    /// The kind a call blocked in this state reports.
    pub open(crate) spec fn blocked_kind(self) -> ISLErrorKind {
        match self.inject {
            Some(Some(k)) => k,
            Some(None) => self.reported_kind(),
            None => ISLErrorKind::Quota,
        }
    }

    /// The message a call blocked in this state reports.
    pub open(crate) spec fn blocked_msg(self) -> Seq<char> {
        match self.inject {
            Some(Some(k)) => k.spec_text(),
            Some(None) => self.reported_msg(),
            None => ISLErrorKind::Quota.spec_text(),
        }
    }
}

/// The fields a foreign call never changes: session identity and quota
/// configuration.
pub open(crate) spec fn same_session(pre: Context, post: Context) -> bool {
    &&& post.ctx_id == pre.ctx_id
    &&& post.max_n_ops == pre.max_n_ops
}

/// The ledger is untouched.
pub open(crate) spec fn same_ledger(pre: Context, post: Context) -> bool {
    &&& post.n_alloc == pre.n_alloc
    &&& post.n_free == pre.n_free
    &&& post.live_set == pre.live_set
    &&& post.next_id == pre.next_id
}

/// The call was admitted: one operation was charged, nothing else
/// changed.
pub open(crate) spec fn call_admitted(pre: Context, post: Context) -> bool {
    &&& !pre.call_blocked()
    &&& same_session(pre, post)
    &&& same_ledger(pre, post)
    &&& post.n_ops == pre.charged_ops()
    &&& post.err_slot == pre.err_slot
    &&& post.inject == None::<Option<ISLErrorKind>>
}

/// What refusing a call does to the operation counter and the error slot:
/// an injected failure is consumed (recording its kind, if it carried
/// one); an exhausted quota charges the operation and records a quota
/// error.
pub open(crate) spec fn refusal_effect(pre: Context, post: Context) -> bool {
    match pre.inject {
        Some(Some(k)) => post.n_ops == pre.n_ops && post.slot_is(k, k.spec_text()),
        Some(None) => post.n_ops == pre.n_ops && post.err_slot == pre.err_slot,
        None => post.n_ops == pre.charged_ops() && post.slot_is(
            ISLErrorKind::Quota,
            ISLErrorKind::Quota.spec_text(),
        ),
    }
}

/// The call was refused; the ledger is untouched.
pub open(crate) spec fn call_refused(pre: Context, post: Context) -> bool {
    &&& pre.call_blocked()
    &&& same_session(pre, post)
    &&& same_ledger(pre, post)
    &&& post.inject == None::<Option<ISLErrorKind>>
    &&& refusal_effect(pre, post)
}

/// One fresh object was allocated; nothing else changed.
pub open(crate) spec fn alloc_one(pre: Context, post: Context, out: nat) -> bool {
    &&& same_session(pre, post)
    &&& post.n_ops == pre.n_ops
    &&& post.err_slot == pre.err_slot
    &&& post.inject == pre.inject
    &&& post.n_alloc == pre.n_alloc + 1
    &&& post.n_free == pre.n_free
    &&& out == pre.next_id@
    &&& post.next_id@ == pre.next_id@ + 1
    &&& post.live_set@ == pre.live_set@.insert(out)
}

/// One object was freed; nothing else changed.
pub open(crate) spec fn free_one(pre: Context, post: Context, a: nat) -> bool {
    &&& same_session(pre, post)
    &&& post.n_ops == pre.n_ops
    &&& post.err_slot == pre.err_slot
    &&& post.inject == pre.inject
    &&& post.n_alloc == pre.n_alloc
    &&& post.n_free == pre.n_free + 1
    &&& post.next_id == pre.next_id
    &&& post.live_set@ == pre.live_set@.remove(a)
}

/// An error of this kind was recorded in the slot; nothing else changed.
pub open(crate) spec fn recorded(pre: Context, post: Context, k: ISLErrorKind) -> bool {
    &&& same_session(pre, post)
    &&& same_ledger(pre, post)
    &&& post.n_ops == pre.n_ops
    &&& post.inject == pre.inject
    &&& post.slot_is(k, k.spec_text())
}


/// Two objects were freed; nothing else changed.
pub open(crate) spec fn free_two(pre: Context, post: Context, a: nat, b: nat) -> bool {
    &&& same_session(pre, post)
    &&& post.n_ops == pre.n_ops
    &&& post.err_slot == pre.err_slot
    &&& post.inject == pre.inject
    &&& post.n_alloc == pre.n_alloc
    &&& post.n_free == pre.n_free + 2
    &&& post.next_id == pre.next_id
    &&& post.live_set@ == pre.live_set@.remove(a).remove(b)
}

/// A fallible constructor succeeded: the admission check charged one operation and
/// one fresh object was entered into the ledger.
pub open(crate) spec fn ctor_ok(pre: Context, post: Context, out: nat) -> bool {
    &&& !pre.call_blocked()
    &&& same_session(pre, post)
    &&& post.n_ops == pre.charged_ops()
    &&& post.err_slot == pre.err_slot
    &&& post.inject == None::<Option<ISLErrorKind>>
    &&& post.n_alloc == pre.n_alloc + 1
    &&& post.n_free == pre.n_free
    &&& out == pre.next_id@
    &&& post.next_id@ == pre.next_id@ + 1
    &&& post.live_set@ == pre.live_set@.insert(out)
}

/// A consuming unary operation succeeded: its input was freed by the call
/// and one fresh result entered the ledger.
pub open(crate) spec fn op1_ok(pre: Context, post: Context, a: nat, out: nat) -> bool {
    &&& !pre.call_blocked()
    &&& same_session(pre, post)
    &&& post.n_ops == pre.charged_ops()
    &&& post.err_slot == pre.err_slot
    &&& post.inject == None::<Option<ISLErrorKind>>
    &&& post.n_alloc == pre.n_alloc + 1
    &&& post.n_free == pre.n_free + 1
    &&& out == pre.next_id@
    &&& post.next_id@ == pre.next_id@ + 1
    &&& post.live_set@ == pre.live_set@.remove(a).insert(out)
}

/// A consuming unary operation was refused admission; the foreign call
/// still consumed its argument.
pub open(crate) spec fn op1_refused(pre: Context, post: Context, a: nat) -> bool {
    &&& pre.call_blocked()
    &&& same_session(pre, post)
    &&& post.inject == None::<Option<ISLErrorKind>>
    &&& refusal_effect(pre, post)
    &&& post.n_alloc == pre.n_alloc
    &&& post.n_free == pre.n_free + 1
    &&& post.next_id == pre.next_id
    &&& post.live_set@ == pre.live_set@.remove(a)
}

/// A consuming unary operation passed the admission check but the foreign side then
/// failed, recording an error of the given kind; the input was consumed.
pub open(crate) spec fn op1_fail_recorded(pre: Context, post: Context, a: nat, k: ISLErrorKind) -> bool {
    &&& !pre.call_blocked()
    &&& same_session(pre, post)
    &&& post.n_ops == pre.charged_ops()
    &&& post.inject == None::<Option<ISLErrorKind>>
    &&& post.slot_is(k, k.spec_text())
    &&& post.n_alloc == pre.n_alloc
    &&& post.n_free == pre.n_free + 1
    &&& post.next_id == pre.next_id
    &&& post.live_set@ == pre.live_set@.remove(a)
}

/// The admission check charged one operation and the inputs of a consuming unary
/// operation were freed; nothing was allocated yet.
pub open(crate) spec fn op1_passed(pre: Context, post: Context, a: nat) -> bool {
    &&& !pre.call_blocked()
    &&& same_session(pre, post)
    &&& post.n_ops == pre.charged_ops()
    &&& post.err_slot == pre.err_slot
    &&& post.inject == None::<Option<ISLErrorKind>>
    &&& post.n_alloc == pre.n_alloc
    &&& post.n_free == pre.n_free + 1
    &&& post.next_id == pre.next_id
    &&& post.live_set@ == pre.live_set@.remove(a)
}

/// A consuming binary operation succeeded.
pub open(crate) spec fn op2_ok(pre: Context, post: Context, a: nat, b: nat, out: nat) -> bool {
    &&& !pre.call_blocked()
    &&& same_session(pre, post)
    &&& post.n_ops == pre.charged_ops()
    &&& post.err_slot == pre.err_slot
    &&& post.inject == None::<Option<ISLErrorKind>>
    &&& post.n_alloc == pre.n_alloc + 1
    &&& post.n_free == pre.n_free + 2
    &&& out == pre.next_id@
    &&& post.next_id@ == pre.next_id@ + 1
    &&& post.live_set@ == pre.live_set@.remove(a).remove(b).insert(out)
}

/// A consuming binary operation was refused admission; both inputs were
/// still consumed by the foreign call.
pub open(crate) spec fn op2_refused(pre: Context, post: Context, a: nat, b: nat) -> bool {
    &&& pre.call_blocked()
    &&& same_session(pre, post)
    &&& post.inject == None::<Option<ISLErrorKind>>
    &&& refusal_effect(pre, post)
    &&& post.n_alloc == pre.n_alloc
    &&& post.n_free == pre.n_free + 2
    &&& post.next_id == pre.next_id
    &&& post.live_set@ == pre.live_set@.remove(a).remove(b)
}

/// A consuming binary operation passed the admission check but the foreign side then
/// failed, recording an error of the given kind; both inputs were
/// consumed.
pub open(crate) spec fn op2_fail_recorded(pre: Context, post: Context, a: nat, b: nat, k: ISLErrorKind) -> bool {
    &&& !pre.call_blocked()
    &&& same_session(pre, post)
    &&& post.n_ops == pre.charged_ops()
    &&& post.inject == None::<Option<ISLErrorKind>>
    &&& post.slot_is(k, k.spec_text())
    &&& post.n_alloc == pre.n_alloc
    &&& post.n_free == pre.n_free + 2
    &&& post.next_id == pre.next_id
    &&& post.live_set@ == pre.live_set@.remove(a).remove(b)
}

/// The admission check charged one operation and the inputs of a consuming binary
/// operation were freed; nothing was allocated yet.
pub open(crate) spec fn op2_passed(pre: Context, post: Context, a: nat, b: nat) -> bool {
    &&& !pre.call_blocked()
    &&& same_session(pre, post)
    &&& post.n_ops == pre.charged_ops()
    &&& post.err_slot == pre.err_slot
    &&& post.inject == None::<Option<ISLErrorKind>>
    &&& post.n_alloc == pre.n_alloc
    &&& post.n_free == pre.n_free + 2
    &&& post.next_id == pre.next_id
    &&& post.live_set@ == pre.live_set@.remove(a).remove(b)
}

/// A fallible constructor passed the admission check but the foreign side then
/// failed, recording an error of the given kind; the ledger is untouched.
pub open(crate) spec fn ctor_fail_recorded(pre: Context, post: Context, k: ISLErrorKind) -> bool {
    &&& !pre.call_blocked()
    &&& same_session(pre, post)
    &&& same_ledger(pre, post)
    &&& post.n_ops == pre.charged_ops()
    &&& post.inject == None::<Option<ISLErrorKind>>
    &&& post.slot_is(k, k.spec_text())
}

/// A consuming binary operation succeeded with three results, as the
/// extended greatest-common-divisor entry point does.
pub open(crate) spec fn op2_ok3(pre: Context, post: Context, a: nat, b: nat, o1: nat, o2: nat, o3: nat) -> bool {
    &&& !pre.call_blocked()
    &&& same_session(pre, post)
    &&& post.n_ops == pre.charged_ops()
    &&& post.err_slot == pre.err_slot
    &&& post.inject == None::<Option<ISLErrorKind>>
    &&& post.n_alloc == pre.n_alloc + 3
    &&& post.n_free == pre.n_free + 2
    &&& o1 == pre.next_id@ && o2 == pre.next_id@ + 1 && o3 == pre.next_id@ + 2
    &&& post.next_id@ == pre.next_id@ + 3
    &&& post.live_set@ == pre.live_set@.remove(a).remove(b).insert(o1).insert(o2).insert(o3)
}

/// An infallible consuming unary transform: the input was freed, the
/// result allocated, and neither the operation counter nor the error slot
/// moved.
pub open(crate) spec fn xform1(pre: Context, post: Context, a: nat, out: nat) -> bool {
    &&& same_session(pre, post)
    &&& post.n_ops == pre.n_ops
    &&& post.err_slot == pre.err_slot
    &&& post.inject == pre.inject
    &&& post.n_alloc == pre.n_alloc + 1
    &&& post.n_free == pre.n_free + 1
    &&& out == pre.next_id@
    &&& post.next_id@ == pre.next_id@ + 1
    &&& post.live_set@ == pre.live_set@.remove(a).insert(out)
}

/// An infallible consuming binary transform.
pub open(crate) spec fn xform2(pre: Context, post: Context, a: nat, b: nat, out: nat) -> bool {
    &&& same_session(pre, post)
    &&& post.n_ops == pre.n_ops
    &&& post.err_slot == pre.err_slot
    &&& post.inject == pre.inject
    &&& post.n_alloc == pre.n_alloc + 1
    &&& post.n_free == pre.n_free + 2
    &&& out == pre.next_id@
    &&& post.next_id@ == pre.next_id@ + 1
    &&& post.live_set@ == pre.live_set@.remove(a).remove(b).insert(out)
}

/// The error an operation reports after the foreign side recorded a
/// failure of the given kind.
pub open(crate) spec fn recorded_err_matches(e: Error, k: ISLErrorKind) -> bool {
    match e {
        Error::IslError(ie) => ie.kind == k && ie.message@ == k.spec_text(),
        _ => false,
    }
}

/// The error a blocked call in state `pre` surfaces to its caller.
pub open(crate) spec fn refusal_err_matches(pre: Context, e: Error) -> bool {
    match e {
        Error::IslError(ie) => ie.kind == pre.blocked_kind() && ie.message@ == pre.blocked_msg(),
        _ => false,
    }
}

impl Context {
    /// Open a fresh foreign session.  The creation itself cannot fail
    /// observably; the session starts with an empty ledger, an empty error
    /// slot, no quota and the record-and-continue error policy, so every
    /// later failure is observable as a typed error rather than an abort.
    pub fn new() -> (r: Context)
        ensures
            r.wf(),
            r.allocs() == 0,
            r.frees() == 0,
            r.live() == Set::<nat>::empty(),
            r.operations() == 0,
            r.max_operations() == 0,
            r.slot() is None,
            r.injection() is None,
            !r.call_blocked(),
    {
        Context {
            ctx_id: 0,
            max_n_ops: 0,
            n_ops: 0,
            err_slot: None,
            inject: None,
            n_alloc: 0,
            n_free: 0,
            live_set: Ghost(Set::empty()),
            next_id: Ghost(0),
        }
    }

    /// The borrowed reference to this session.
    pub fn context_ref(&self) -> (r: ContextRef)
        ensures
            r == self.ctx_ref(),
    {
        ContextRef { id: self.ctx_id }
    }

    /// Hand a borrowed context reference to a closure; the reference must
    /// not outlive the context, which the borrow guarantees.
    pub fn scope<T, F: FnOnce(ContextRef) -> T>(&self, f: F) -> (r: T)
        requires
            call_requires(f, (self.ctx_ref(),)),
        ensures
            call_ensures(f, (self.ctx_ref(),), r),
    {
        f(self.context_ref())
    }

    /// Read the last-error slot without clearing it: `None` when no error
    /// is pending.
    pub fn last_error(&self) -> (r: Option<ISLError>)
        ensures
            match r {
                Some(e) => self.slot() is Some && e.kind == self.reported_kind() && e.message@
                    == self.reported_msg(),
                None => self.slot() is None,
            },
    {
        match &self.err_slot {
            None => None,
            Some(e) => Some(ISLError { kind: e.kind, message: e.message.clone() }),
        }
    }

    /// Read the last-error slot, defaulting to an `Unknown` error when the
    /// foreign library failed without recording one: every failing call
    /// thereby has a concrete error to report.
    pub fn last_error_or_unknown(&self) -> (r: ISLError)
        ensures
            r.kind == self.reported_kind(),
            r.message@ == self.reported_msg(),
    {
        match self.last_error() {
            Some(e) => e,
            None => ISLError {
                kind: ISLErrorKind::Unknown,
                message: ISLErrorKind::Unknown.text(),
            },
        }
    }

    /// Limit how many foreign operations this session may still perform;
    /// zero removes the limit.
    pub fn set_max_operations(&mut self, max_operations: u64)
        ensures
            same_ledger(*old(self), *final(self)),
            final(self).ctx_ref() == old(self).ctx_ref(),
            final(self).max_operations() == max_operations,
            final(self).operations() == old(self).operations(),
            final(self).slot() == old(self).slot(),
            final(self).injection() == old(self).injection(),
            old(self).wf() ==> final(self).wf(),
    {
        self.max_n_ops = max_operations;
    }

    /// Reset the operation counter to zero.
    pub fn reset_operations(&mut self)
        ensures
            same_session(*old(self), *final(self)),
            same_ledger(*old(self), *final(self)),
            final(self).operations() == 0,
            final(self).slot() == old(self).slot(),
            final(self).injection() == old(self).injection(),
            old(self).wf() ==> final(self).wf(),
    {
        self.n_ops = 0;
    }

    /// Make the next fallible foreign entry point fail: with `Some(kind)`
    /// the stub records that kind in the error slot, with `None` it fails
    /// silently, leaving the slot as it was.
    pub fn inject_failure(&mut self, kind: Option<ISLErrorKind>)
        ensures
            same_session(*old(self), *final(self)),
            same_ledger(*old(self), *final(self)),
            final(self).operations() == old(self).operations(),
            final(self).slot() == old(self).slot(),
            final(self).injection() == Some(kind),
            old(self).wf() ==> final(self).wf(),
    {
        self.inject = Some(kind);
    }

    /// How many foreign objects this session has handed out.
    pub fn alloc_count(&self) -> (r: u64)
        ensures
            r == self.allocs(),
    {
        self.n_alloc
    }

    /// How many foreign objects this session has destroyed.
    pub fn free_count(&self) -> (r: u64)
        ensures
            r == self.frees(),
    {
        self.n_free
    }

    /// How many foreign objects are currently alive.
    pub fn live_count(&self) -> (r: u64)
        requires
            self.wf(),
        ensures
            r == self.allocs() - self.frees(),
    {
        self.n_alloc - self.n_free
    }

    /// How many operations this session has charged.
    pub fn operation_count(&self) -> (r: u64)
        ensures
            r == self.operations(),
    {
        self.n_ops
    }

    /// The common admission check of every fallible foreign entry point: consume a
    /// pending injected failure, or charge one operation and check the
    /// quota.  Returns whether the entry point may proceed.
    pub(crate) fn admit_call(&mut self) -> (ok: bool)
        ensures
            ok == !old(self).call_blocked(),
            ok ==> call_admitted(*old(self), *final(self)),
            !ok ==> call_refused(*old(self), *final(self)),
            old(self).wf() ==> final(self).wf(),
    {
        match self.inject {
            Some(kind_opt) => {
                self.inject = None;
                if let Some(k) = kind_opt {
                    let msg = k.text();
                    self.err_slot = Some(ISLError { kind: k, message: msg });
                }
                false
            },
            None => {
                let charged: u64 = if self.n_ops == u64::MAX {
                    u64::MAX
                } else {
                    self.n_ops + 1
                };
                self.n_ops = charged;
                if self.max_n_ops > 0 && charged > self.max_n_ops {
                    self.err_slot = Some(
                        ISLError {
                            kind: ISLErrorKind::Quota,
                            message: ISLErrorKind::Quota.text(),
                        },
                    );
                    false
                } else {
                    true
                }
            },
        }
    }

    /// Record an error of the given kind in the slot, as a failing foreign
    /// entry point does.
    pub(crate) fn record_error(&mut self, k: ISLErrorKind)
        ensures
            recorded(*old(self), *final(self), k),
            old(self).wf() ==> final(self).wf(),
    {
        let msg = k.text();
        self.err_slot = Some(ISLError { kind: k, message: msg });
    }

    /// Enter one fresh object into the ledger and hand out its identity.
    pub(crate) fn ledger_alloc(&mut self) -> (id: Ghost<nat>)
        requires
            old(self).wf(),
            old(self).n_alloc < u64::MAX,
        ensures
            alloc_one(*old(self), *final(self), id@),
            final(self).wf(),
            !old(self).live_set@.contains(id@),
    {
        proof {
            assert(!self.live_set@.contains(self.next_id@));
        }
        self.n_alloc = self.n_alloc + 1;
        let ghost id: nat = self.next_id@;
        proof {
            self.live_set@ = self.live_set@.insert(id);
            self.next_id@ = self.next_id@ + 1;
        }
        Ghost(id)
    }

    /// Retire one live object from the ledger: the foreign free entry
    /// point, invoked exactly once per object.
    pub(crate) fn ledger_free(&mut self, Ghost(id): Ghost<nat>)
        requires
            old(self).wf(),
            old(self).live_set@.contains(id),
        ensures
            free_one(*old(self), *final(self), id),
            final(self).wf(),
    {
        proof {
            assert(self.live_set@.remove(id).len() + 1 == self.live_set@.len());
        }
        self.n_free = self.n_free + 1;
        proof {
            self.live_set@ = self.live_set@.remove(id);
        }
    }
}


impl Context {
    /// Run the admission check and retire one consumed input, as a consuming unary
    /// entry point does whether or not it succeeds; `Some` carries the
    /// error read back through the error-retrieval protocol.
    pub(crate) fn consume1(&mut self, Ghost(a): Ghost<nat>) -> (r: Option<ISLError>)
        requires
            old(self).wf(),
            old(self).live_set@.contains(a),
        ensures
            final(self).wf(),
            r is None <==> !old(self).call_blocked(),
            r is None ==> op1_passed(*old(self), *final(self), a),
            match r {
                Some(e) => op1_refused(*old(self), *final(self), a) && e.kind == old(
                    self,
                ).blocked_kind() && e.message@ == old(self).blocked_msg(),
                None => true,
            },
    {
        let ok = self.admit_call();
        self.ledger_free(Ghost(a));
        if ok {
            None
        } else {
            Some(self.last_error_or_unknown())
        }
    }

    /// Run the admission check and retire two consumed inputs, as a consuming binary
    /// entry point does whether or not it succeeds.
    pub(crate) fn consume2(&mut self, Ghost(a): Ghost<nat>, Ghost(b): Ghost<nat>) -> (r: Option<
        ISLError,
    >)
        requires
            old(self).wf(),
            old(self).live_set@.contains(a),
            old(self).live_set@.contains(b),
            a != b,
        ensures
            final(self).wf(),
            r is None <==> !old(self).call_blocked(),
            r is None ==> op2_passed(*old(self), *final(self), a, b),
            match r {
                Some(e) => op2_refused(*old(self), *final(self), a, b) && e.kind == old(
                    self,
                ).blocked_kind() && e.message@ == old(self).blocked_msg(),
                None => true,
            },
    {
        let ok = self.admit_call();
        self.ledger_free(Ghost(a));
        self.ledger_free(Ghost(b));
        if ok {
            None
        } else {
            Some(self.last_error_or_unknown())
        }
    }

    /// Record a failure of the given kind and read it back, as the
    /// error-retrieval protocol does right after a failing foreign call.
    pub(crate) fn fail_with(&mut self, k: ISLErrorKind) -> (e: ISLError)
        requires
            old(self).wf(),
        ensures
            final(self).wf(),
            recorded(*old(self), *final(self), k),
            e.kind == k,
            e.message@ == k.spec_text(),
    {
        self.record_error(k);
        self.last_error_or_unknown()
    }
}

impl ContextRef {
    /// Read the last-error slot of the session this reference names; the
    /// reference must belong to that session.
    pub fn last_error(&self, ctx: &Context) -> (r: Option<ISLError>)
        requires
            *self == ctx.ctx_ref(),
        ensures
            match r {
                Some(e) => ctx.slot() is Some && e.kind == ctx.reported_kind() && e.message@
                    == ctx.reported_msg(),
                None => ctx.slot() is None,
            },
    {
        ctx.last_error()
    }

    /// Read the last-error slot with an `Unknown` default, as the
    /// consuming protocol does right after a failing call.
    pub fn last_error_or_unknown(&self, ctx: &Context) -> (r: ISLError)
        requires
            *self == ctx.ctx_ref(),
        ensures
            r.kind == ctx.reported_kind(),
            r.message@ == ctx.reported_msg(),
    {
        ctx.last_error_or_unknown()
    }

    /// Limit how many foreign operations the session may still perform.
    pub fn set_max_operations(&self, max_operations: u64, ctx: &mut Context)
        requires
            *self == old(ctx).ctx_ref(),
        ensures
            same_ledger(*old(ctx), *final(ctx)),
            final(ctx).ctx_ref() == old(ctx).ctx_ref(),
            final(ctx).max_operations() == max_operations,
            final(ctx).operations() == old(ctx).operations(),
            final(ctx).slot() == old(ctx).slot(),
            final(ctx).injection() == old(ctx).injection(),
            old(ctx).wf() ==> final(ctx).wf(),
    {
        ctx.set_max_operations(max_operations)
    }

    /// Reset the session's operation counter to zero.
    pub fn reset_operations(&self, ctx: &mut Context)
        requires
            *self == old(ctx).ctx_ref(),
        ensures
            same_session(*old(ctx), *final(ctx)),
            same_ledger(*old(ctx), *final(ctx)),
            final(ctx).operations() == 0,
            final(ctx).slot() == old(ctx).slot(),
            final(ctx).injection() == old(ctx).injection(),
            old(ctx).wf() ==> final(ctx).wf(),
    {
        ctx.reset_operations()
    }
}

impl Default for Context {
    /// A fresh foreign session, as `new` opens it.
    fn default() -> (r: Context)
        ensures
            r.wf(),
            r.allocs() == 0,
            r.frees() == 0,
            r.operations() == 0,
            r.max_operations() == 0,
            r.slot() is None,
            r.injection() is None,
    {
        Context::new()
    }
}

/// Unwrap a result that the foreign library promises to be present; a
/// missing one would mean allocation exhaustion, the one condition this
/// layer treats as fatal rather than as a recoverable error, so callers
/// must have ruled it out.
pub fn nonnull_or_alloc_error<T>(ptr: Option<T>) -> (r: T)
    requires
        ptr is Some,
    ensures
        r == ptr->Some_0,
{
    match ptr {
        Some(v) => v,
        None => vstd::pervasive::unreached(),
    }
}

} // verus!
