//! The owned handle for identifiers: a name, with an optional user
//! payload whose lifetime is tied to the identifier's.

use vstd::prelude::*;
use vstd::string::StringSliceAdditionalSpecFns;

use crate::context::{alloc_one, free_one, Context, ContextRef};
use crate::error::Error;
use crate::value::{has_nul, has_nul_scan};

verus! {

/// An owned handle to a foreign identifier object.
pub struct Ident {
    pub(crate) ctx: ContextRef,
    pub(crate) name: String,
    pub(crate) user: Option<i64>,
    pub(crate) id: Ghost<nat>,
}

impl Ident {
    pub open(crate) spec fn name_of(&self) -> Seq<char> {
        self.name@
    }

    pub open(crate) spec fn user_of(&self) -> Option<i64> {
        self.user
    }

    pub open(crate) spec fn id(&self) -> nat {
        self.id@
    }

    pub open(crate) spec fn ctx_of(&self) -> ContextRef {
        self.ctx
    }

    pub open(crate) spec fn owned_by(&self, c: Context) -> bool {
        &&& self.ctx == c.ctx_ref()
        &&& c.live().contains(self.id@)
    }

    /// A new identifier with the given name and no user payload.  An
    /// embedded NUL in the name is a local validation failure that never
    /// reaches the foreign call.
    pub fn new(ctx: &mut Context, name: &str) -> (r: Result<Ident, Error>)
        requires
            old(ctx).wf(),
            old(ctx).allocs() < u64::MAX,
        ensures
            final(ctx).wf(),
            match r {
                Ok(i) => {
                    &&& !has_nul(name.spec_bytes())
                    &&& alloc_one(*old(ctx), *final(ctx), i.id())
                    &&& i.name_of() == name@
                    &&& i.user_of() is None
                    &&& i.ctx_of() == old(ctx).ctx_ref()
                    &&& i.owned_by(*final(ctx))
                },
                Err(e) => has_nul(name.spec_bytes()) && e is NulError && *final(ctx) == *old(ctx),
            },
    {
        if has_nul_scan(name.as_bytes()) {
            return Err(Error::NulError);
        }
        let id = ctx.ledger_alloc();
        Ok(Ident { ctx: ctx.context_ref(), name: name.to_string(), user: None, id })
    }

    /// A new identifier carrying a user payload, destroyed exactly once
    /// with the identifier's foreign object.
    pub fn new_with_user(ctx: &mut Context, name: &str, user_data: i64) -> (r: Result<Ident, Error>)
        requires
            old(ctx).wf(),
            old(ctx).allocs() < u64::MAX,
        ensures
            final(ctx).wf(),
            match r {
                Ok(i) => {
                    &&& !has_nul(name.spec_bytes())
                    &&& alloc_one(*old(ctx), *final(ctx), i.id())
                    &&& i.name_of() == name@
                    &&& i.user_of() == Some(user_data)
                    &&& i.ctx_of() == old(ctx).ctx_ref()
                    &&& i.owned_by(*final(ctx))
                },
                Err(e) => has_nul(name.spec_bytes()) && e is NulError && *final(ctx) == *old(ctx),
            },
    {
        if has_nul_scan(name.as_bytes()) {
            return Err(Error::NulError);
        }
        let id = ctx.ledger_alloc();
        Ok(Ident { ctx: ctx.context_ref(), name: name.to_string(), user: Some(user_data), id })
    }

    /// The identifier's name, borrowed through this handle.
    pub fn name(&self) -> (r: Result<&str, Error>)
        ensures
            r matches Ok(s) && s@ == self.name_of(),
    {
        Ok(self.name.as_str())
    }

    /// A borrowed view of the user payload, shared for the identifier's
    /// lifetime; never a copy.
    pub fn get_user_ref(&self) -> (r: Option<&i64>)
        ensures
            match r {
                Some(u) => self.user_of() == Some(*u),
                None => self.user_of() is None,
            },
    {
        match &self.user {
            Some(u) => Some(u),
            None => None,
        }
    }

    /// The user payload read at its stored type.
    pub fn get_user_as(&self) -> (r: Option<&i64>)
        ensures
            match r {
                Some(u) => self.user_of() == Some(*u),
                None => self.user_of() is None,
            },
    {
        self.get_user_ref()
    }

    pub fn context_ref(&self) -> (r: ContextRef)
        ensures
            r == self.ctx_of(),
    {
        self.ctx
    }

    /// Diagnostic print entry point; no observable effect.
    pub fn dump(&self) {
    }

    /// The foreign copy entry point; the payload is shared, not copied.
    pub fn copy(&self, ctx: &mut Context) -> (r: Ident)
        requires
            old(ctx).wf(),
            self.owned_by(*old(ctx)),
            old(ctx).allocs() < u64::MAX,
        ensures
            final(ctx).wf(),
            alloc_one(*old(ctx), *final(ctx), r.id()),
            r.name_of() == self.name_of(),
            r.user_of() == self.user_of(),
            r.ctx_of() == self.ctx_of(),
            r.owned_by(*final(ctx)),
            self.owned_by(*final(ctx)),
    {
        let id = ctx.ledger_alloc();
        Ident { ctx: self.ctx, name: self.name.clone(), user: self.user, id }
    }

    /// Destroy the foreign object behind this handle; its user payload is
    /// destroyed with it, exactly once.
    pub fn free(self, ctx: &mut Context)
        requires
            old(ctx).wf(),
            self.owned_by(*old(ctx)),
        ensures
            final(ctx).wf(),
            free_one(*old(ctx), *final(ctx), self.id()),
    {
        ctx.ledger_free(Ghost(self.id@));
    }
}

} // verus!
