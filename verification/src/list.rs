//! The generic ordered collection: a typed, growable sequence of owned
//! foreign handles backed by a foreign dynamic array.
//!
//! Elements are consumed into the array, which keeps owning them; reading
//! an element hands out a freshly owned copy, never a borrow.  A mutating
//! call may reallocate the backing array, so the stored handle is always
//! replaced with the freshest one.  Destroying the collection destroys the
//! array and every element it still owns, each exactly once.

use vstd::prelude::*;

use crate::context::{alloc_one, xform1, xform2, Context, ContextRef};

verus! {

/// What the collection needs of an owned foreign handle kind: its ledger
/// identity, session, well-formedness and payload reading, together with
/// the foreign copy and free entry points.
pub trait IslHandle: Sized {
    /// The ledger identity of the foreign object behind this handle.
    spec fn hid(&self) -> nat;

    /// The session this handle belongs to.
    spec fn hctx(&self) -> ContextRef;

    /// The payload is well formed.
    spec fn hwf(&self) -> bool;

    /// Both handles carry the same payload.
    spec fn payload_eq(&self, other: &Self) -> bool;

    /// The foreign copy entry point.
    fn copy_h(&self, ctx: &mut Context) -> (r: Self)
        requires
            old(ctx).wf(),
            old(ctx).live().contains(self.hid()),
            self.hctx() == old(ctx).ctx_ref(),
            self.hwf(),
            old(ctx).allocs() < u64::MAX,
        ensures
            final(ctx).wf(),
            alloc_one(*old(ctx), *final(ctx), r.hid()),
            r.payload_eq(self),
            r.hctx() == self.hctx(),
            r.hwf(),
    ;

    /// The foreign free entry point.
    fn free_h(self, ctx: &mut Context)
        requires
            old(ctx).wf(),
            old(ctx).live().contains(self.hid()),
            self.hctx() == old(ctx).ctx_ref(),
            self.hwf(),
        ensures
            final(ctx).wf(),
            crate::context::free_one(*old(ctx), *final(ctx), self.hid()),
    ;
}

/// An owned handle to a foreign dynamic array of handles of one kind.
pub struct List<T: IslHandle> {
    pub(crate) ctx: ContextRef,
    pub(crate) items: Vec<T>,
    pub(crate) id: Ghost<nat>,
}

impl<T: IslHandle> List<T> {
    pub open(crate) spec fn id(&self) -> nat {
        self.id@
    }

    pub open(crate) spec fn ctx_of(&self) -> ContextRef {
        self.ctx
    }

    pub open(crate) spec fn elems(&self) -> Seq<T> {
        self.items@
    }

    /// The collection and every element it owns are live objects of this
    /// session, with pairwise distinct identities.
    pub open(crate) spec fn inv(&self, c: Context) -> bool {
        &&& self.ctx == c.ctx_ref()
        &&& c.live().contains(self.id@)
        &&& forall|i: int|
            0 <= i < self.items@.len() ==> (#[trigger] self.items@[i]).hwf()
        &&& forall|i: int|
            0 <= i < self.items@.len() ==> (#[trigger] self.items@[i]).hctx() == c.ctx_ref()
        &&& forall|i: int|
            0 <= i < self.items@.len() ==> c.live().contains((#[trigger] self.items@[i]).hid())
        &&& forall|i: int|
            0 <= i < self.items@.len() ==> (#[trigger] self.items@[i]).hid() != self.id@
        &&& forall|i: int, j: int|
            0 <= i < j < self.items@.len() ==> (#[trigger] self.items@[i].hid()) != (
            #[trigger] self.items@[j].hid())
    }

    /// The element is a live handle of this session that is not already
    /// owned by the collection.
    pub open(crate) spec fn fresh_elem(&self, el: T, c: Context) -> bool {
        &&& el.hwf()
        &&& el.hctx() == c.ctx_ref()
        &&& c.live().contains(el.hid())
        &&& el.hid() != self.id@
        &&& forall|i: int|
            0 <= i < self.items@.len() ==> (#[trigger] self.items@[i]).hid() != el.hid()
    }

    pub fn context(&self) -> (r: ContextRef)
        ensures
            r == self.ctx_of(),
    {
        self.ctx
    }

    /// Diagnostic print entry point; no observable effect.
    pub fn dump(&self) {
    }

    /// An empty collection; the capacity is a foreign allocation hint
    /// with no observable meaning.
    pub fn new(ctx: &mut Context, capacity: usize) -> (r: List<T>)
        requires
            old(ctx).wf(),
            old(ctx).allocs() < u64::MAX,
        ensures
            final(ctx).wf(),
            alloc_one(*old(ctx), *final(ctx), r.id()),
            r.elems().len() == 0,
            r.ctx_of() == old(ctx).ctx_ref(),
            r.inv(*final(ctx)),
    {
        let _ = capacity;
        let id = ctx.ledger_alloc();
        List { ctx: ctx.context_ref(), items: Vec::new(), id }
    }

    /// The element count, as the foreign array reports it.
    pub fn len(&self) -> (r: usize)
        ensures
            r == self.elems().len(),
    {
        self.items.len()
    }

    pub fn is_empty(&self) -> (r: bool)
        ensures
            r == (self.elems().len() == 0),
    {
        self.items.len() == 0
    }

    /// A collection owning exactly the given element.
    pub fn new_singleton(el: T, ctx: &mut Context) -> (r: List<T>)
        requires
            old(ctx).wf(),
            el.hwf(),
            el.hctx() == old(ctx).ctx_ref(),
            old(ctx).live().contains(el.hid()),
            old(ctx).allocs() < u64::MAX,
        ensures
            final(ctx).wf(),
            alloc_one(*old(ctx), *final(ctx), r.id()),
            r.elems() == Seq::empty().push(el),
            r.ctx_of() == old(ctx).ctx_ref(),
            r.inv(*final(ctx)),
    {
        let id = ctx.ledger_alloc();
        let mut items: Vec<T> = Vec::new();
        items.push(el);
        List { ctx: ctx.context_ref(), items, id }
    }

    /// Consume an element into the collection.  The foreign call may
    /// reallocate the array, returning a fresh backing handle that
    /// replaces the stored one.
    pub fn push(&mut self, el: T, ctx: &mut Context)
        requires
            old(ctx).wf(),
            old(self).inv(*old(ctx)),
            old(self).fresh_elem(el, *old(ctx)),
            old(ctx).allocs() < u64::MAX,
        ensures
            final(ctx).wf(),
            xform1(*old(ctx), *final(ctx), old(self).id(), final(self).id()),
            final(self).elems() == old(self).elems().push(el),
            final(self).ctx_of() == old(self).ctx_of(),
            final(self).inv(*final(ctx)),
    {
        let ghost lid = self.id@;
        ctx.ledger_free(Ghost(lid));
        self.items.push(el);
        let id = ctx.ledger_alloc();
        self.id = id;
    }

    /// A freshly owned copy of the element at the given position; a
    /// position out of range reads as "not found", allocating nothing.
    pub fn get(&self, index: usize, ctx: &mut Context) -> (r: Option<T>)
        requires
            old(ctx).wf(),
            self.inv(*old(ctx)),
            old(ctx).allocs() < u64::MAX,
        ensures
            final(ctx).wf(),
            self.inv(*final(ctx)),
            match r {
                Some(v) => {
                    &&& index < self.elems().len()
                    &&& alloc_one(*old(ctx), *final(ctx), v.hid())
                    &&& v.payload_eq(&self.elems()[index as int])
                    &&& v.hctx() == self.ctx_of()
                    &&& v.hwf()
                },
                None => index >= self.elems().len() && *final(ctx) == *old(ctx),
            },
    {
        if index < self.items.len() {
            let v = self.items[index].copy_h(ctx);
            Some(v)
        } else {
            None
        }
    }

    /// Consume an element into the given position, destroying the element
    /// it replaces; the backing handle is replaced with the fresh one.
    pub fn set(&mut self, index: usize, el: T, ctx: &mut Context)
        requires
            old(ctx).wf(),
            old(self).inv(*old(ctx)),
            old(self).fresh_elem(el, *old(ctx)),
            index < old(self).elems().len(),
            old(ctx).allocs() < u64::MAX,
        ensures
            final(ctx).wf(),
            xform2(
                *old(ctx),
                *final(ctx),
                old(self).id(),
                old(self).elems()[index as int].hid(),
                final(self).id(),
            ),
            final(self).elems() == old(self).elems().update(index as int, el),
            final(self).ctx_of() == old(self).ctx_of(),
            final(self).inv(*final(ctx)),
    {
        let ghost lid = self.id@;
        let ghost old_el = self.items@[index as int].hid();
        ctx.ledger_free(Ghost(lid));
        ctx.ledger_free(Ghost(old_el));
        self.items.set(index, el);
        let id = ctx.ledger_alloc();
        self.id = id;
    }

    /// The foreign copy entry point on the array: a fresh array owning a
    /// fresh copy of every element, in order.
    pub fn copy(&self, ctx: &mut Context) -> (r: List<T>)
        requires
            old(ctx).wf(),
            self.inv(*old(ctx)),
            old(ctx).allocs() <= u64::MAX - self.elems().len() - 1,
        ensures
            final(ctx).wf(),
            final(ctx).allocs() == old(ctx).allocs() + 1 + self.elems().len(),
            final(ctx).frees() == old(ctx).frees(),
            final(ctx).operations() == old(ctx).operations(),
            final(ctx).slot() == old(ctx).slot(),
            final(ctx).injection() == old(ctx).injection(),
            final(ctx).ctx_ref() == old(ctx).ctx_ref(),
            final(ctx).max_operations() == old(ctx).max_operations(),
            forall|n: nat| old(ctx).live().contains(n) ==> final(ctx).live().contains(n),
            r.elems().len() == self.elems().len(),
            forall|i: int|
                0 <= i < self.elems().len() ==> (#[trigger] r.elems()[i]).payload_eq(
                    &self.elems()[i],
                ),
            r.ctx_of() == self.ctx_of(),
            r.inv(*final(ctx)),
            self.inv(*final(ctx)),
    {
        let ghost pre = *ctx;
        let mut items: Vec<T> = Vec::new();
        let mut i: usize = 0;
        while i < self.items.len()
            invariant
                i <= self.elems().len(),
                ctx.wf(),
                self.inv(*ctx),
                self.inv(pre),
                pre.wf(),
                ctx.allocs() == pre.allocs() + i,
                pre.allocs() <= u64::MAX - self.elems().len() - 1,
                ctx.frees() == pre.frees(),
                ctx.operations() == pre.operations(),
                ctx.slot() == pre.slot(),
                ctx.injection() == pre.injection(),
                ctx.ctx_ref() == pre.ctx_ref(),
                ctx.max_operations() == pre.max_operations(),
                forall|n: nat| pre.live().contains(n) ==> ctx.live().contains(n),
                items@.len() == i,
                forall|k: int|
                    0 <= k < i ==> (#[trigger] items@[k]).payload_eq(&self.elems()[k]),
                forall|k: int| 0 <= k < i ==> (#[trigger] items@[k]).hwf(),
                forall|k: int|
                    0 <= k < i ==> (#[trigger] items@[k]).hctx() == pre.ctx_ref(),
                forall|k: int|
                    0 <= k < i ==> ctx.live().contains((#[trigger] items@[k]).hid()),
                forall|k: int|
                    0 <= k < i ==> (#[trigger] items@[k]).hid() >= pre.fresh_id(),
                forall|k: int, m: int|
                    0 <= k < m < i ==> (#[trigger] items@[k].hid()) != (#[trigger] items@[m].hid()),
                ctx.fresh_id() >= pre.fresh_id(),
                forall|k: int|
                    0 <= k < i ==> (#[trigger] items@[k]).hid() < ctx.fresh_id(),
            decreases self.elems().len() - i,
        {
            let v = self.items[i].copy_h(ctx);
            items.push(v);
            i = i + 1;
        }
        let id = ctx.ledger_alloc();
        List { ctx: self.ctx, items, id }
    }

    /// Destroy the array and every element it owns, each exactly once.
    pub fn free(self, ctx: &mut Context)
        requires
            old(ctx).wf(),
            self.inv(*old(ctx)),
        ensures
            final(ctx).wf(),
            final(ctx).allocs() == old(ctx).allocs(),
            final(ctx).frees() == old(ctx).frees() + 1 + self.elems().len(),
            final(ctx).operations() == old(ctx).operations(),
            final(ctx).slot() == old(ctx).slot(),
            final(ctx).injection() == old(ctx).injection(),
            final(ctx).ctx_ref() == old(ctx).ctx_ref(),
            final(ctx).max_operations() == old(ctx).max_operations(),
            forall|n: nat| final(ctx).live().contains(n) ==> old(ctx).live().contains(n),
            !final(ctx).live().contains(self.id()),
    {
        let ghost pre = *ctx;
        let ghost orig = self.items@;
        let ghost n = self.items@.len();
        let mut items = self.items;
        while items.len() > 0
            invariant
                ctx.wf(),
                items@.len() <= n,
                forall|k: int| 0 <= k < items@.len() ==> items@[k] == orig[k],
                ctx.allocs() == pre.allocs(),
                ctx.frees() == pre.frees() + (n - items@.len()),
                ctx.operations() == pre.operations(),
                ctx.slot() == pre.slot(),
                ctx.injection() == pre.injection(),
                ctx.ctx_ref() == pre.ctx_ref(),
                ctx.max_operations() == pre.max_operations(),
                forall|m: nat| ctx.live().contains(m) ==> pre.live().contains(m),
                ctx.live().contains(self.id@),
                forall|k: int|
                    0 <= k < items@.len() ==> (#[trigger] items@[k]).hid() != self.id@,
                forall|k: int|
                    0 <= k < items@.len() ==> ctx.live().contains(
                        (#[trigger] items@[k]).hid(),
                    ),
                forall|k: int, m: int|
                    0 <= k < m < items@.len() ==> (#[trigger] items@[k].hid()) != (
                    #[trigger] items@[m].hid()),
            decreases items@.len(),
        {
            let el = items.pop();
            match el {
                Some(e) => {
                    let ghost eid = e.hid();
                    ctx.ledger_free(Ghost(eid));
                },
                None => {},
            }
        }
        ctx.ledger_free(Ghost(self.id@));
    }
}

} // verus!
