//! The string bridge: a printer object that foreign objects are fed
//! into, accumulating their textual form, which is read back before the
//! printer is freed.

use vstd::prelude::*;
use vstd::string::StringSliceAdditionalSpecFns;

use crate::context::{alloc_one, free_one, xform1, Context, ContextRef};

verus! {

/// An owned handle to a foreign printer object writing to memory.
pub struct Printer {
    pub(crate) ctx: ContextRef,
    pub(crate) buf: Vec<u8>,
    pub(crate) id: Ghost<nat>,
}

impl Printer {
    pub open(crate) spec fn contents(&self) -> Seq<u8> {
        self.buf@
    }

    pub open(crate) spec fn id(&self) -> nat {
        self.id@
    }

    pub open(crate) spec fn ctx_of(&self) -> ContextRef {
        self.ctx
    }

    pub open(crate) spec fn owned_by(&self, c: Context) -> bool {
        &&& self.ctx == c.ctx_ref()
        &&& c.live().contains(self.id@)
    }

    /// A fresh printer writing to memory; the creation is fallible in the
    /// foreign convention, and `None` stands for its null result.
    pub fn new(ctx: &mut Context) -> (r: Option<Printer>)
        requires
            old(ctx).wf(),
            old(ctx).allocs() < u64::MAX,
        ensures
            final(ctx).wf(),
            match r {
                Some(p) => {
                    &&& alloc_one(*old(ctx), *final(ctx), p.id())
                    &&& p.contents().len() == 0
                    &&& p.ctx_of() == old(ctx).ctx_ref()
                    &&& p.owned_by(*final(ctx))
                },
                None => false,
            },
    {
        let id = ctx.ledger_alloc();
        Some(Printer { ctx: ctx.context_ref(), buf: Vec::new(), id })
    }

    /// The raw handle of the underlying printer object, as the foreign
    /// composition entry points take it: in this model, the accumulated
    /// bytes.
    pub fn as_ptr(&self) -> (r: &Vec<u8>)
        ensures
            r@ == self.contents(),
    {
        &self.buf
    }

    /// Feed text through the printer, which replaces the backing handle
    /// with the fresh one the foreign call returns.
    pub fn print_str(&mut self, s: &str, ctx: &mut Context)
        requires
            old(ctx).wf(),
            old(self).owned_by(*old(ctx)),
            old(ctx).allocs() < u64::MAX,
            old(self).contents().len() + s.spec_bytes().len() <= usize::MAX,
        ensures
            final(ctx).wf(),
            xform1(*old(ctx), *final(ctx), old(self).id(), final(self).id()),
            final(self).contents() == old(self).contents() + s.spec_bytes(),
            final(self).ctx_of() == old(self).ctx_of(),
            final(self).owned_by(*final(ctx)),
    {
        let ghost ida = self.id@;
        ctx.ledger_free(Ghost(ida));
        let bytes = s.as_bytes();
        let mut i: usize = 0;
        while i < bytes.len()
            invariant
                i <= bytes@.len(),
                bytes@ == s.spec_bytes(),
                self.buf@ == old(self).buf@ + bytes@.subrange(0, i as int),
                self.ctx == old(self).ctx,
            decreases bytes@.len() - i,
        {
            self.buf.push(bytes[i]);
            proof {
                assert(self.buf@ =~= old(self).buf@ + bytes@.subrange(0, i + 1));
            }
            i = i + 1;
        }
        let id = ctx.ledger_alloc();
        self.id = id;
        proof {
            assert(bytes@.subrange(0, bytes@.len() as int) =~= bytes@);
        }
    }

    /// Destroy the foreign object behind this handle.
    pub fn free(self, ctx: &mut Context)
        requires
            old(ctx).wf(),
            self.owned_by(*old(ctx)),
        ensures
            final(ctx).wf(),
            free_one(*old(ctx), *final(ctx), self.id()),
    {
        ctx.ledger_free(Ghost(self.id@));
    }
}

} // verus!
