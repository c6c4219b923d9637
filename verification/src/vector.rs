//! The owned handle for foreign vectors of values.

use vstd::prelude::*;

use crate::context::{alloc_one, free_one, xform1, Context, ContextRef};
use crate::rat::ValRepr;
use crate::value::Value;

verus! {

/// An owned handle to a foreign vector object; its elements start at
/// zero.
pub struct Vector {
    pub(crate) ctx: ContextRef,
    pub(crate) vals: Vec<i64>,
    pub(crate) id: Ghost<nat>,
}

impl Vector {
    pub open(crate) spec fn elems(&self) -> Seq<i64> {
        self.vals@
    }

    pub open(crate) spec fn id(&self) -> nat {
        self.id@
    }

    pub open(crate) spec fn ctx_of(&self) -> ContextRef {
        self.ctx
    }

    pub open(crate) spec fn vwf(&self) -> bool {
        &&& self.vals@.len() <= u32::MAX
        &&& forall|i: int| 0 <= i < self.vals@.len() ==> #[trigger] self.vals@[i] > i64::MIN
    }

    pub open(crate) spec fn owned_by(&self, c: Context) -> bool {
        &&& self.ctx == c.ctx_ref()
        &&& c.live().contains(self.id@)
        &&& self.vwf()
    }

    pub fn context_ref(&self) -> (r: ContextRef)
        ensures
            r == self.ctx_of(),
    {
        self.ctx
    }

    /// Diagnostic print entry point; no observable effect.
    pub fn dump(&self) {
    }

    /// A fresh vector of the given size, zero-filled.
    pub fn new(ctx: &mut Context, dim: u32) -> (r: Vector)
        requires
            old(ctx).wf(),
            old(ctx).allocs() < u64::MAX,
        ensures
            final(ctx).wf(),
            alloc_one(*old(ctx), *final(ctx), r.id()),
            r.elems().len() == dim,
            forall|i: int| 0 <= i < dim ==> r.elems()[i] == 0i64,
            r.ctx_of() == old(ctx).ctx_ref(),
            r.owned_by(*final(ctx)),
    {
        let mut vals: Vec<i64> = Vec::new();
        let mut i: u32 = 0;
        while i < dim
            invariant
                i <= dim,
                vals@.len() == i,
                forall|k: int| 0 <= k < i ==> vals@[k] == 0i64,
            decreases dim - i,
        {
            vals.push(0);
            i = i + 1;
        }
        let id = ctx.ledger_alloc();
        Vector { ctx: ctx.context_ref(), vals, id }
    }

    /// A fresh zero vector of the given size.
    pub fn new_zero(ctx: &mut Context, dim: u32) -> (r: Vector)
        requires
            old(ctx).wf(),
            old(ctx).allocs() < u64::MAX,
        ensures
            final(ctx).wf(),
            alloc_one(*old(ctx), *final(ctx), r.id()),
            r.elems().len() == dim,
            forall|i: int| 0 <= i < dim ==> r.elems()[i] == 0i64,
            r.ctx_of() == old(ctx).ctx_ref(),
            r.owned_by(*final(ctx)),
    {
        Vector::new(ctx, dim)
    }

    /// The element count; the foreign sentinel convention reports an
    /// error as `None`, which this model never needs.
    pub fn size(&self) -> (r: Option<u32>)
        requires
            self.vwf(),
        ensures
            r == Some(self.elems().len() as u32),
    {
        Some(self.vals.len() as u32)
    }

    /// The element at the given position as a newly owned value; a
    /// position out of range reads as "not found", allocating nothing.
    pub fn get(&self, index: u32, ctx: &mut Context) -> (r: Option<Value>)
        requires
            old(ctx).wf(),
            self.owned_by(*old(ctx)),
            old(ctx).allocs() < u64::MAX,
        ensures
            final(ctx).wf(),
            match r {
                Some(v) => {
                    &&& index < self.elems().len()
                    &&& alloc_one(*old(ctx), *final(ctx), v.id())
                    &&& v.repr() == (ValRepr::Rat { num: self.elems()[index as int], den: 1 })
                    &&& v.ctx_of() == self.ctx_of()
                    &&& v.owned_by(*final(ctx))
                },
                None => index >= self.elems().len() && *final(ctx) == *old(ctx),
            },
    {
        if (index as usize) < self.vals.len() {
            let id = ctx.ledger_alloc();
            Some(Value { ctx: self.ctx, v: ValRepr::Rat { num: self.vals[index as usize], den: 1 }, id })
        } else {
            None
        }
    }

    /// Put a signed word at the given position, consuming this handle; a
    /// position out of range makes the foreign call fail, which destroys
    /// the vector and yields "not found".
    pub fn set_si(self, pos: u32, val: i32, ctx: &mut Context) -> (r: Option<Vector>)
        requires
            old(ctx).wf(),
            self.owned_by(*old(ctx)),
            old(ctx).allocs() < u64::MAX,
        ensures
            final(ctx).wf(),
            match r {
                Some(v) => {
                    &&& pos < self.elems().len()
                    &&& xform1(*old(ctx), *final(ctx), self.id(), v.id())
                    &&& v.elems() == self.elems().update(pos as int, val as i64)
                    &&& v.ctx_of() == old(ctx).ctx_ref()
                    &&& v.owned_by(*final(ctx))
                },
                None => pos >= self.elems().len() && free_one(
                    *old(ctx),
                    *final(ctx),
                    self.id(),
                ),
            },
    {
        let ghost ida = self.id@;
        if (pos as usize) < self.vals.len() {
            ctx.ledger_free(Ghost(ida));
            let mut out = self;
            out.vals.set(pos as usize, val as i64);
            let id = ctx.ledger_alloc();
            out.id = id;
            Some(out)
        } else {
            ctx.ledger_free(Ghost(ida));
            None
        }
    }

    /// Destroy the foreign object behind this handle.
    pub fn free(self, ctx: &mut Context)
        requires
            old(ctx).wf(),
            self.owned_by(*old(ctx)),
        ensures
            final(ctx).wf(),
            free_one(*old(ctx), *final(ctx), self.id()),
    {
        ctx.ledger_free(Ghost(self.id@));
    }
}

} // verus!
