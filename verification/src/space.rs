//! The owned handle for spaces: the dimension signature — parameter,
//! input and output counts, with optional tuple names — that every other
//! object is built on.

use vstd::prelude::*;
use vstd::string::StringSliceAdditionalSpecFns;

use crate::context::{
    alloc_one, ctor_ok, free_one, refusal_err_matches, call_refused, op1_refused, op1_ok,
    op2_refused, op2_ok, Context, ContextRef,
};
use crate::error::Error;
use crate::DimType;

verus! {

/// What a space describes: pure parameters, a set, or a map.
#[derive(Debug, Clone, Copy, PartialEq, Eq, Structural)]
pub enum SpaceKind {
    Params,
    SetSpace,
    MapSpace,
}

/// The stored form of a space.
#[derive(Debug)]
pub struct SpaceRepr {
    pub kind: SpaceKind,
    pub n_param: u32,
    pub n_in: u32,
    pub n_out: u32,
    pub in_name: Option<String>,
    pub out_name: Option<String>,
}

/// The mathematical reading of a space: its kind, dimension counts and
/// tuple names.
pub struct SpaceV {
    pub kind: SpaceKind,
    pub n_param: u32,
    pub n_in: u32,
    pub n_out: u32,
    pub in_name: Option<Seq<char>>,
    pub out_name: Option<Seq<char>>,
}

impl SpaceRepr {
    pub open spec fn sv(&self) -> SpaceV {
        SpaceV {
            kind: self.kind,
            n_param: self.n_param,
            n_in: self.n_in,
            n_out: self.n_out,
            in_name: match self.in_name {
                Some(ref s) => Some(s@),
                None => None,
            },
            out_name: match self.out_name {
                Some(ref s) => Some(s@),
                None => None,
            },
        }
    }

    /// A deep copy with the same reading.
    pub(crate) fn clone_repr(&self) -> (r: SpaceRepr)
        ensures
            r.sv() == self.sv(),
    {
        SpaceRepr {
            kind: self.kind,
            n_param: self.n_param,
            n_in: self.n_in,
            n_out: self.n_out,
            in_name: match &self.in_name {
                Some(s) => Some(s.clone()),
                None => None,
            },
            out_name: match &self.out_name {
                Some(s) => Some(s.clone()),
                None => None,
            },
        }
    }
}

impl SpaceV {
    /// The count this space has in the given dimension kind.
    pub open spec fn dim_of(self, dt: DimType) -> u32 {
        match dt {
            DimType::Param => self.n_param,
            DimType::In => self.n_in,
            DimType::Out => self.n_out,
            DimType::All => ((self.n_param + self.n_in + self.n_out) as u32),
            _ => 0u32,
        }
    }
}

/// Whether two stored spaces have the same reading, names included.
pub(crate) fn space_eq_exec(a: &SpaceRepr, b: &SpaceRepr) -> (r: bool)
    ensures
        r == (a.sv() == b.sv()),
{
    let kind_eq = match (a.kind, b.kind) {
        (SpaceKind::Params, SpaceKind::Params) => true,
        (SpaceKind::SetSpace, SpaceKind::SetSpace) => true,
        (SpaceKind::MapSpace, SpaceKind::MapSpace) => true,
        _ => false,
    };
    let in_eq = match (&a.in_name, &b.in_name) {
        (Some(x), Some(y)) => x.eq(y),
        (None, None) => true,
        _ => false,
    };
    let out_eq = match (&a.out_name, &b.out_name) {
        (Some(x), Some(y)) => x.eq(y),
        (None, None) => true,
        _ => false,
    };
    kind_eq && a.n_param == b.n_param && a.n_in == b.n_in && a.n_out == b.n_out && in_eq && out_eq
}

/// An owned handle to a foreign space object.
pub struct Space {
    pub(crate) ctx: ContextRef,
    pub(crate) s: SpaceRepr,
    pub(crate) id: Ghost<nat>,
}

impl Space {
    pub open(crate) spec fn sv(&self) -> SpaceV {
        self.s.sv()
    }

    pub open(crate) spec fn id(&self) -> nat {
        self.id@
    }

    pub open(crate) spec fn ctx_of(&self) -> ContextRef {
        self.ctx
    }

    /// The stored dimension counts do not overflow their sum.
    pub open(crate) spec fn swf(&self) -> bool {
        self.s.n_param + self.s.n_in + self.s.n_out <= u32::MAX
    }

    pub open(crate) spec fn owned_by(&self, c: Context) -> bool {
        &&& self.ctx == c.ctx_ref()
        &&& c.live().contains(self.id@)
        &&& self.swf()
    }

    pub fn context_ref(&self) -> (r: ContextRef)
        ensures
            r == self.ctx_of(),
    {
        self.ctx
    }

    /// Diagnostic print entry point; no observable effect.
    pub fn dump(&self) {
    }

    /// A map space with the given parameter, input and output counts.
    pub fn new(ctx: &mut Context, num_params: u32, num_inputs: u32, num_outputs: u32) -> (r:
        Result<Space, Error>)
        requires
            old(ctx).wf(),
            old(ctx).allocs() < u64::MAX,
            num_params + num_inputs + num_outputs <= u32::MAX,
        ensures
            final(ctx).wf(),
            match r {
                Ok(s) => {
                    &&& ctor_ok(*old(ctx), *final(ctx), s.id())
                    &&& s.sv() == (SpaceV {
                        kind: SpaceKind::MapSpace,
                        n_param: num_params,
                        n_in: num_inputs,
                        n_out: num_outputs,
                        in_name: None,
                        out_name: None,
                    })
                    &&& s.ctx_of() == old(ctx).ctx_ref()
                    &&& s.owned_by(*final(ctx))
                },
                Err(e) => old(ctx).call_blocked() && call_refused(*old(ctx), *final(ctx))
                    && refusal_err_matches(*old(ctx), e),
            },
    {
        let ok = ctx.admit_call();
        if !ok {
            return Err(Error::IslError(ctx.last_error_or_unknown()));
        }
        let id = ctx.ledger_alloc();
        Ok(
            Space {
                ctx: ctx.context_ref(),
                s: SpaceRepr {
                    kind: SpaceKind::MapSpace,
                    n_param: num_params,
                    n_in: num_inputs,
                    n_out: num_outputs,
                    in_name: None,
                    out_name: None,
                },
                id,
            },
        )
    }

    /// A set space with the given parameter and set dimension counts.
    pub fn set(ctx: &mut Context, num_params: u32, num_dims: u32) -> (r: Result<Space, Error>)
        requires
            old(ctx).wf(),
            old(ctx).allocs() < u64::MAX,
            num_params + num_dims <= u32::MAX,
        ensures
            final(ctx).wf(),
            match r {
                Ok(s) => {
                    &&& ctor_ok(*old(ctx), *final(ctx), s.id())
                    &&& s.sv() == (SpaceV {
                        kind: SpaceKind::SetSpace,
                        n_param: num_params,
                        n_in: 0u32,
                        n_out: num_dims,
                        in_name: None,
                        out_name: None,
                    })
                    &&& s.ctx_of() == old(ctx).ctx_ref()
                    &&& s.owned_by(*final(ctx))
                },
                Err(e) => old(ctx).call_blocked() && call_refused(*old(ctx), *final(ctx))
                    && refusal_err_matches(*old(ctx), e),
            },
    {
        let ok = ctx.admit_call();
        if !ok {
            return Err(Error::IslError(ctx.last_error_or_unknown()));
        }
        let id = ctx.ledger_alloc();
        Ok(
            Space {
                ctx: ctx.context_ref(),
                s: SpaceRepr {
                    kind: SpaceKind::SetSpace,
                    n_param: num_params,
                    n_in: 0,
                    n_out: num_dims,
                    in_name: None,
                    out_name: None,
                },
                id,
            },
        )
    }

    /// A parameter-only space.
    pub fn params(ctx: &mut Context, num_params: u32) -> (r: Result<Space, Error>)
        requires
            old(ctx).wf(),
            old(ctx).allocs() < u64::MAX,
        ensures
            final(ctx).wf(),
            match r {
                Ok(s) => {
                    &&& ctor_ok(*old(ctx), *final(ctx), s.id())
                    &&& s.sv() == (SpaceV {
                        kind: SpaceKind::Params,
                        n_param: num_params,
                        n_in: 0u32,
                        n_out: 0u32,
                        in_name: None,
                        out_name: None,
                    })
                    &&& s.ctx_of() == old(ctx).ctx_ref()
                    &&& s.owned_by(*final(ctx))
                },
                Err(e) => old(ctx).call_blocked() && call_refused(*old(ctx), *final(ctx))
                    && refusal_err_matches(*old(ctx), e),
            },
    {
        let ok = ctx.admit_call();
        if !ok {
            return Err(Error::IslError(ctx.last_error_or_unknown()));
        }
        let id = ctx.ledger_alloc();
        Ok(
            Space {
                ctx: ctx.context_ref(),
                s: SpaceRepr {
                    kind: SpaceKind::Params,
                    n_param: num_params,
                    n_in: 0,
                    n_out: 0,
                    in_name: None,
                    out_name: None,
                },
                id,
            },
        )
    }

    /// The zero-dimensional set space.
    pub fn unit(ctx: &mut Context) -> (r: Result<Space, Error>)
        requires
            old(ctx).wf(),
            old(ctx).allocs() < u64::MAX,
        ensures
            final(ctx).wf(),
            match r {
                Ok(s) => {
                    &&& ctor_ok(*old(ctx), *final(ctx), s.id())
                    &&& s.sv() == (SpaceV {
                        kind: SpaceKind::SetSpace,
                        n_param: 0u32,
                        n_in: 0u32,
                        n_out: 0u32,
                        in_name: None,
                        out_name: None,
                    })
                    &&& s.ctx_of() == old(ctx).ctx_ref()
                    &&& s.owned_by(*final(ctx))
                },
                Err(e) => old(ctx).call_blocked() && call_refused(*old(ctx), *final(ctx))
                    && refusal_err_matches(*old(ctx), e),
            },
    {
        Space::set(ctx, 0, 0)
    }

    /// Whether this is a parameter-only space.
    pub fn is_params(&self) -> (r: Result<bool, Error>)
        ensures
            r == Ok::<bool, Error>(self.sv().kind == SpaceKind::Params),
    {
        Ok(matches!(self.s.kind, SpaceKind::Params))
    }

    /// Whether this is a set space.
    pub fn is_set(&self) -> (r: Result<bool, Error>)
        ensures
            r == Ok::<bool, Error>(self.sv().kind == SpaceKind::SetSpace),
    {
        Ok(matches!(self.s.kind, SpaceKind::SetSpace))
    }

    /// Whether this is a map space.
    pub fn is_map(&self) -> (r: Result<bool, Error>)
        ensures
            r == Ok::<bool, Error>(self.sv().kind == SpaceKind::MapSpace),
    {
        Ok(matches!(self.s.kind, SpaceKind::MapSpace))
    }

    /// The count of the given dimension kind.
    pub fn get_dim(&self, dim_type: DimType) -> (r: Result<u32, Error>)
        requires
            self.swf(),
        ensures
            r == Ok::<u32, Error>(self.sv().dim_of(dim_type)),
    {
        Ok(
            match dim_type {
                DimType::Param => self.s.n_param,
                DimType::In => self.s.n_in,
                DimType::Out => self.s.n_out,
                DimType::All => self.s.n_param + self.s.n_in + self.s.n_out,
                _ => 0,
            },
        )
    }

    /// Whether the given tuple carries a name.
    pub fn has_tuple_name(&self, dim_type: DimType) -> (r: Result<bool, Error>)
        ensures
            r == Ok::<bool, Error>(
                match dim_type {
                    DimType::In => self.sv().in_name is Some,
                    DimType::Out => self.sv().out_name is Some,
                    _ => false,
                },
            ),
    {
        Ok(
            match dim_type {
                DimType::In => self.s.in_name.is_some(),
                DimType::Out => self.s.out_name.is_some(),
                _ => false,
            },
        )
    }

    /// The tuple name, borrowed through this handle; a tuple without one
    /// is a foreign error, read from the owning context's error slot.
    pub fn get_tuple_name(&self, dim_type: DimType, ctx: &Context) -> (r: Result<&str, Error>)
        ensures
            match (match dim_type {
                DimType::In => self.sv().in_name,
                DimType::Out => self.sv().out_name,
                _ => None::<Seq<char>>,
            }) {
                Some(name) => r matches Ok(s) && s@ == name,
                None => r matches Err(e) && (match e {
                    Error::IslError(ie) => ie.kind == ctx.reported_kind() && ie.message@
                        == ctx.reported_msg(),
                    _ => false,
                }),
            },
    {
        let name = match dim_type {
            DimType::In => &self.s.in_name,
            DimType::Out => &self.s.out_name,
            _ => &None,
        };
        match name {
            Some(s) => Ok(s.as_str()),
            None => Err(Error::IslError(ctx.last_error_or_unknown())),
        }
    }

    /// Name a tuple, consuming this handle; an embedded NUL in the name is
    /// a local validation failure that never reaches the foreign call.
    pub fn set_tuple_name(self, dim_type: DimType, name: &str, ctx: &mut Context) -> (r: Result<
        Space,
        Error,
    >)
        requires
            old(ctx).wf(),
            self.owned_by(*old(ctx)),
            old(ctx).allocs() < u64::MAX,
        ensures
            final(ctx).wf(),
            match r {
                Ok(s) => {
                    &&& !crate::value::has_nul(name.spec_bytes())
                    &&& op1_ok(*old(ctx), *final(ctx), self.id(), s.id())
                    &&& s.sv() == (match dim_type {
                        DimType::In => SpaceV { in_name: Some(name@), ..self.sv() },
                        DimType::Out => SpaceV { out_name: Some(name@), ..self.sv() },
                        _ => self.sv(),
                    })
                    &&& s.ctx_of() == old(ctx).ctx_ref()
                    &&& s.owned_by(*final(ctx))
                },
                Err(e) => {
                    &&& (crate::value::has_nul(name.spec_bytes()) ==> e is NulError && free_one(
                        *old(ctx),
                        *final(ctx),
                        self.id(),
                    ))
                    &&& (!crate::value::has_nul(name.spec_bytes()) ==> old(ctx).call_blocked()
                        && op1_refused(*old(ctx), *final(ctx), self.id()) && refusal_err_matches(
                        *old(ctx),
                        e,
                    ))
                },
            },
    {
        let cref = self.context_ref();
        let ghost ida = self.id@;
        if crate::value::has_nul_scan(name.as_bytes()) {
            ctx.ledger_free(Ghost(ida));
            return Err(Error::NulError);
        }
        match ctx.consume1(Ghost(ida)) {
            Some(e) => Err(Error::IslError(e)),
            None => {
                let mut s = self.s;
                match dim_type {
                    DimType::In => {
                        s.in_name = Some(name.to_string());
                    },
                    DimType::Out => {
                        s.out_name = Some(name.to_string());
                    },
                    _ => {},
                }
                let id = ctx.ledger_alloc();
                Ok(Space { ctx: cref, s, id })
            },
        }
    }

    /// Add dimensions of the given kind, consuming this handle.  Adding
    /// input dimensions turns a set space into a map space.
    pub fn add_dims(self, dim_type: DimType, num: u32, ctx: &mut Context) -> (r: Result<
        Space,
        Error,
    >)
        requires
            old(ctx).wf(),
            self.owned_by(*old(ctx)),
            old(ctx).allocs() < u64::MAX,
            self.sv().n_param + self.sv().n_in + self.sv().n_out + num <= u32::MAX,
            dim_type is Param || dim_type is In || dim_type is Out,
        ensures
            final(ctx).wf(),
            match r {
                Ok(s) => {
                    &&& op1_ok(*old(ctx), *final(ctx), self.id(), s.id())
                    &&& s.sv() == (match dim_type {
                        DimType::Param => SpaceV {
                            n_param: (self.sv().n_param + num) as u32,
                            ..self.sv()
                        },
                        DimType::In => SpaceV {
                            n_in: (self.sv().n_in + num) as u32,
                            kind: if self.sv().kind == SpaceKind::SetSpace {
                                SpaceKind::MapSpace
                            } else {
                                self.sv().kind
                            },
                            ..self.sv()
                        },
                        _ => SpaceV { n_out: (self.sv().n_out + num) as u32, ..self.sv() },
                    })
                    &&& s.ctx_of() == old(ctx).ctx_ref()
                    &&& s.owned_by(*final(ctx))
                },
                Err(e) => old(ctx).call_blocked() && op1_refused(
                    *old(ctx),
                    *final(ctx),
                    self.id(),
                ) && refusal_err_matches(*old(ctx), e),
            },
    {
        let cref = self.context_ref();
        let ghost ida = self.id@;
        match ctx.consume1(Ghost(ida)) {
            Some(e) => Err(Error::IslError(e)),
            None => {
                let mut s = self.s;
                match dim_type {
                    DimType::Param => {
                        s.n_param = s.n_param + num;
                    },
                    DimType::In => {
                        s.n_in = s.n_in + num;
                        if matches!(s.kind, SpaceKind::SetSpace) {
                            s.kind = SpaceKind::MapSpace;
                        }
                    },
                    _ => {
                        s.n_out = s.n_out + num;
                    },
                }
                let id = ctx.ledger_alloc();
                Ok(Space { ctx: cref, s, id })
            },
        }
    }

    /// Add one parameter dimension carrying the given identifier; both
    /// handles are consumed.
    pub fn add_param_id(self, ident: crate::ident::Ident, ctx: &mut Context) -> (r: Result<
        Space,
        Error,
    >)
        requires
            old(ctx).wf(),
            self.owned_by(*old(ctx)),
            ident.owned_by(*old(ctx)),
            self.id() != ident.id(),
            old(ctx).allocs() < u64::MAX,
            self.sv().n_param < u32::MAX,
            self.sv().n_param + self.sv().n_in + self.sv().n_out < u32::MAX,
        ensures
            final(ctx).wf(),
            match r {
                Ok(s) => {
                    &&& op2_ok(*old(ctx), *final(ctx), self.id(), ident.id(), s.id())
                    &&& s.sv() == (SpaceV { n_param: (self.sv().n_param + 1) as u32, ..self.sv() })
                    &&& s.ctx_of() == old(ctx).ctx_ref()
                    &&& s.owned_by(*final(ctx))
                },
                Err(e) => old(ctx).call_blocked() && op2_refused(
                    *old(ctx),
                    *final(ctx),
                    self.id(),
                    ident.id(),
                ) && refusal_err_matches(*old(ctx), e),
            },
    {
        let cref = self.context_ref();
        let ghost ida = self.id@;
        let ghost idb = ident.id@;
        match ctx.consume2(Ghost(ida), Ghost(idb)) {
            Some(e) => Err(Error::IslError(e)),
            None => {
                let mut s = self.s;
                s.n_param = s.n_param + 1;
                let id = ctx.ledger_alloc();
                Ok(Space { ctx: cref, s, id })
            },
        }
    }

    /// The foreign copy entry point.
    pub fn copy(&self, ctx: &mut Context) -> (r: Space)
        requires
            old(ctx).wf(),
            self.owned_by(*old(ctx)),
            old(ctx).allocs() < u64::MAX,
        ensures
            final(ctx).wf(),
            alloc_one(*old(ctx), *final(ctx), r.id()),
            r.sv() == self.sv(),
            r.ctx_of() == self.ctx_of(),
            r.owned_by(*final(ctx)),
            self.owned_by(*final(ctx)),
    {
        let id = ctx.ledger_alloc();
        Space { ctx: self.ctx, s: self.s.clone_repr(), id }
    }

    /// Destroy the foreign object behind this handle.
    pub fn free(self, ctx: &mut Context)
        requires
            old(ctx).wf(),
            self.owned_by(*old(ctx)),
        ensures
            final(ctx).wf(),
            free_one(*old(ctx), *final(ctx), self.id()),
    {
        ctx.ledger_free(Ghost(self.id@));
    }
}

} // verus!
