//! The owned handle for affine expressions over a local space.
//!
//! Like the quasi-polynomials they feed into, affine expressions are kept
//! symbolically, folding constant operands eagerly.  Division is its own
//! checked entry point with its own stored form — never a disguise for
//! multiplication.

use vstd::prelude::*;
use vstd::string::StringSliceAdditionalSpecFns;

use crate::context::{
    alloc_one, free_one, op1_fail_recorded, op1_refused, op1_ok, op2_fail_recorded, op2_refused,
    op2_ok, recorded_err_matches, refusal_err_matches, Context, ContextRef,
};
use crate::error::{Error, ISLErrorKind};
use crate::local_space::{LocalSpace, LocalSpaceV, LsRepr};
use crate::polynomial::QpRepr;
use crate::rat::{fits, repr_add, repr_div, repr_mul, repr_sub, rv_add, rv_div, rv_mul, rv_sub,
    ValRepr};
use crate::space::Space;
use crate::value::{has_nul, has_nul_scan, Value};
use crate::DimType;

verus! {

/// An owned handle to a foreign affine-expression object, over the local
/// space it was built on.
pub struct Affine {
    pub(crate) ctx: ContextRef,
    pub(crate) ls: LsRepr,
    pub(crate) e: QpRepr,
    pub(crate) id: Ghost<nat>,
}

impl Affine {
    pub open(crate) spec fn lv(&self) -> LocalSpaceV {
        self.ls.lv()
    }

    pub open(crate) spec fn expr(&self) -> QpRepr {
        self.e
    }

    pub open(crate) spec fn id(&self) -> nat {
        self.id@
    }

    pub open(crate) spec fn ctx_of(&self) -> ContextRef {
        self.ctx
    }

    pub open(crate) spec fn awf(&self) -> bool {
        &&& self.e.qwf()
        &&& self.ls.lwf()
    }

    pub open(crate) spec fn owned_by(&self, c: Context) -> bool {
        &&& self.ctx == c.ctx_ref()
        &&& c.live().contains(self.id@)
        &&& self.awf()
    }

    pub fn context_ref(&self) -> (r: ContextRef)
        ensures
            r == self.ctx_of(),
    {
        self.ctx
    }

    /// Diagnostic print entry point; no observable effect.
    pub fn dump(&self) {
    }

    /// The zero expression on the given local space, which is consumed.
    pub fn zero_on_domain(space: LocalSpace, ctx: &mut Context) -> (r: Result<Affine, Error>)
        requires
            old(ctx).wf(),
            space.owned_by(*old(ctx)),
            old(ctx).allocs() < u64::MAX,
        ensures
            final(ctx).wf(),
            match r {
                Ok(a) => {
                    &&& op1_ok(*old(ctx), *final(ctx), space.id(), a.id())
                    &&& a.expr() == QpRepr::Cst(ValRepr::Rat { num: 0, den: 1 })
                    &&& a.lv() == space.lv()
                    &&& a.ctx_of() == old(ctx).ctx_ref()
                    &&& a.owned_by(*final(ctx))
                },
                Err(e) => old(ctx).call_blocked() && op1_refused(
                    *old(ctx),
                    *final(ctx),
                    space.id(),
                ) && refusal_err_matches(*old(ctx), e),
            },
    {
        let cref = space.context_ref();
        let ghost ida = space.id@;
        let ls = space.rep;
        match ctx.consume1(Ghost(ida)) {
            Some(e) => Err(Error::IslError(e)),
            None => {
                let id = ctx.ledger_alloc();
                Ok(Affine { ctx: cref, ls, e: QpRepr::Cst(ValRepr::Rat { num: 0, den: 1 }), id })
            },
        }
    }

    /// The zero expression on the given space, which is consumed.
    pub fn zero_on_domain_space(space: Space, ctx: &mut Context) -> (r: Result<Affine, Error>)
        requires
            old(ctx).wf(),
            space.owned_by(*old(ctx)),
            old(ctx).allocs() < u64::MAX - 1,
        ensures
            final(ctx).wf(),
            match r {
                Ok(a) => {
                    &&& a.expr() == QpRepr::Cst(ValRepr::Rat { num: 0, den: 1 })
                    &&& a.lv().sp == space.sv()
                    &&& a.lv().n_div == 0
                    &&& a.ctx_of() == old(ctx).ctx_ref()
                    &&& a.owned_by(*final(ctx))
                    &&& final(ctx).allocs() == old(ctx).allocs() + 2
                    &&& final(ctx).frees() == old(ctx).frees() + 2
                },
                Err(e) => e is IslError,
            },
    {
        let ls = LocalSpace::try_from(space, ctx)?;
        Affine::zero_on_domain(ls, ctx)
    }

    /// The constant expression of the given value on the given local
    /// space; both handles are consumed.
    pub fn val_on_domain(space: LocalSpace, val: Value, ctx: &mut Context) -> (r: Result<
        Affine,
        Error,
    >)
        requires
            old(ctx).wf(),
            space.owned_by(*old(ctx)),
            val.owned_by(*old(ctx)),
            space.id() != val.id(),
            old(ctx).allocs() < u64::MAX,
        ensures
            final(ctx).wf(),
            match r {
                Ok(a) => {
                    &&& op2_ok(*old(ctx), *final(ctx), space.id(), val.id(), a.id())
                    &&& a.expr() == QpRepr::Cst(val.repr())
                    &&& a.lv() == space.lv()
                    &&& a.ctx_of() == old(ctx).ctx_ref()
                    &&& a.owned_by(*final(ctx))
                },
                Err(e) => old(ctx).call_blocked() && op2_refused(
                    *old(ctx),
                    *final(ctx),
                    space.id(),
                    val.id(),
                ) && refusal_err_matches(*old(ctx), e),
            },
    {
        let cref = space.context_ref();
        let ghost ida = space.id@;
        let ghost idb = val.id@;
        let ls = space.rep;
        let v = val.v;
        match ctx.consume2(Ghost(ida), Ghost(idb)) {
            Some(e) => Err(Error::IslError(e)),
            None => {
                let id = ctx.ledger_alloc();
                Ok(Affine { ctx: cref, ls, e: QpRepr::Cst(v), id })
            },
        }
    }

    /// The single-variable expression for one dimension of the given
    /// local space, which is consumed; a position out of range is an
    /// invalid argument reported by the foreign side.
    pub fn var_on_domain(space: LocalSpace, dim_type: DimType, pos: u32, ctx: &mut Context) -> (r:
        Result<Affine, Error>)
        requires
            old(ctx).wf(),
            space.owned_by(*old(ctx)),
            old(ctx).allocs() < u64::MAX,
        ensures
            final(ctx).wf(),
            match r {
                Ok(a) => {
                    &&& pos < space.lv().dim_of(dim_type)
                    &&& op1_ok(*old(ctx), *final(ctx), space.id(), a.id())
                    &&& a.expr() == (QpRepr::Var { dt: dim_type, pos })
                    &&& a.lv() == space.lv()
                    &&& a.ctx_of() == old(ctx).ctx_ref()
                    &&& a.owned_by(*final(ctx))
                },
                Err(e) => {
                    &&& (old(ctx).call_blocked() ==> op1_refused(
                        *old(ctx),
                        *final(ctx),
                        space.id(),
                    ) && refusal_err_matches(*old(ctx), e))
                    &&& (!old(ctx).call_blocked() ==> pos >= space.lv().dim_of(dim_type)
                        && op1_fail_recorded(
                        *old(ctx),
                        *final(ctx),
                        space.id(),
                        ISLErrorKind::Invalid,
                    ) && recorded_err_matches(e, ISLErrorKind::Invalid))
                },
            },
    {
        let cref = space.context_ref();
        let ghost ida = space.id@;
        let bound = match dim_type {
            DimType::Param => space.rep.s.n_param,
            DimType::In => space.rep.s.n_in,
            DimType::Out => space.rep.s.n_out,
            DimType::Div => space.rep.n_div,
            DimType::All => space.rep.s.n_param + space.rep.s.n_in + space.rep.s.n_out
                + space.rep.n_div,
            _ => 0,
        };
        let ls = space.rep;
        match ctx.consume1(Ghost(ida)) {
            Some(e) => Err(Error::IslError(e)),
            None => {
                if pos >= bound {
                    return Err(Error::IslError(ctx.fail_with(ISLErrorKind::Invalid)));
                }
                let id = ctx.ledger_alloc();
                Ok(Affine { ctx: cref, ls, e: QpRepr::Var { dt: dim_type, pos }, id })
            },
        }
    }

    /// The constant value of a constant expression, as a newly owned
    /// value; an expression that is not stored as a constant is an
    /// invalid argument reported by the foreign side.
    pub fn get_constant_val(&self, ctx: &mut Context) -> (r: Result<Value, Error>)
        requires
            old(ctx).wf(),
            self.owned_by(*old(ctx)),
            old(ctx).allocs() < u64::MAX,
        ensures
            final(ctx).wf(),
            match r {
                Ok(v) => {
                    &&& self.expr() matches QpRepr::Cst(c) && v.repr() == c
                    &&& alloc_one(*old(ctx), *final(ctx), v.id())
                    &&& v.ctx_of() == self.ctx_of()
                    &&& v.owned_by(*final(ctx))
                    &&& self.owned_by(*final(ctx))
                },
                Err(e) => !(self.expr() is Cst) && crate::context::recorded(
                    *old(ctx),
                    *final(ctx),
                    ISLErrorKind::Invalid,
                ) && recorded_err_matches(e, ISLErrorKind::Invalid) && self.owned_by(*final(ctx)),
            },
    {
        match self.e {
            QpRepr::Cst(c) => {
                let id = ctx.ledger_alloc();
                Ok(Value { ctx: self.ctx, v: c, id })
            },
            _ => Err(Error::IslError(ctx.fail_with(ISLErrorKind::Invalid))),
        }
    }

    /// Whether this expression is stored as a constant.
    pub fn is_cst(&self) -> (r: Result<bool, Error>)
        ensures
            r == Ok::<bool, Error>(self.expr() is Cst),
    {
        Ok(matches!(self.e, QpRepr::Cst(_)))
    }

    /// The expression's local space, as a newly owned copy.
    pub fn get_local_space(&self, ctx: &mut Context) -> (r: Result<LocalSpace, Error>)
        requires
            old(ctx).wf(),
            self.owned_by(*old(ctx)),
            old(ctx).allocs() < u64::MAX,
        ensures
            final(ctx).wf(),
            match r {
                Ok(ls) => {
                    &&& alloc_one(*old(ctx), *final(ctx), ls.id())
                    &&& ls.lv() == self.lv()
                    &&& ls.ctx_of() == self.ctx_of()
                    &&& ls.owned_by(*final(ctx))
                    &&& self.owned_by(*final(ctx))
                },
                Err(_) => false,
            },
    {
        let id = ctx.ledger_alloc();
        Ok(LocalSpace { ctx: self.ctx, rep: self.ls.clone_repr(), id })
    }

    /// Name one dimension of the underlying local space, consuming this
    /// handle; an embedded NUL is a local validation failure, and a
    /// position out of range an invalid argument reported by the foreign
    /// side.
    pub fn set_dim_name(self, dim_type: DimType, pos: u32, name: &str, ctx: &mut Context) -> (r:
        Result<Affine, Error>)
        requires
            old(ctx).wf(),
            self.owned_by(*old(ctx)),
            old(ctx).allocs() < u64::MAX,
            dim_type is Param || dim_type is In || dim_type is Out,
        ensures
            final(ctx).wf(),
            match r {
                Ok(a) => {
                    &&& !has_nul(name.spec_bytes())
                    &&& pos < self.lv().dim_of(dim_type)
                    &&& op1_ok(*old(ctx), *final(ctx), self.id(), a.id())
                    &&& a.expr() == self.expr()
                    &&& a.lv().names_of(dim_type) == self.lv().names_of(dim_type).update(
                        pos as int,
                        Some(name@),
                    )
                    &&& a.lv().sp == self.lv().sp
                    &&& a.lv().n_div == self.lv().n_div
                    &&& a.ctx_of() == old(ctx).ctx_ref()
                    &&& a.owned_by(*final(ctx))
                },
                Err(e) => {
                    &&& (has_nul(name.spec_bytes()) ==> e is NulError && free_one(
                        *old(ctx),
                        *final(ctx),
                        self.id(),
                    ))
                    &&& (!has_nul(name.spec_bytes()) && old(ctx).call_blocked() ==> op1_refused(
                        *old(ctx),
                        *final(ctx),
                        self.id(),
                    ) && refusal_err_matches(*old(ctx), e))
                    &&& (!has_nul(name.spec_bytes()) && !old(ctx).call_blocked() ==> pos
                        >= self.lv().dim_of(dim_type) && op1_fail_recorded(
                        *old(ctx),
                        *final(ctx),
                        self.id(),
                        ISLErrorKind::Invalid,
                    ) && recorded_err_matches(e, ISLErrorKind::Invalid))
                },
            },
    {
        let cref = self.context_ref();
        let ghost ida = self.id@;
        if has_nul_scan(name.as_bytes()) {
            ctx.ledger_free(Ghost(ida));
            return Err(Error::NulError);
        }
        match ctx.consume1(Ghost(ida)) {
            Some(e) => Err(Error::IslError(e)),
            None => {
                let mut out = self;
                out.ctx = cref;
                let ok = match dim_type {
                    DimType::Param => {
                        if (pos as usize) < out.ls.p_names.len() {
                            out.ls.p_names.set(pos as usize, Some(name.to_string()));
                            true
                        } else {
                            false
                        }
                    },
                    DimType::In => {
                        if (pos as usize) < out.ls.i_names.len() {
                            out.ls.i_names.set(pos as usize, Some(name.to_string()));
                            true
                        } else {
                            false
                        }
                    },
                    _ => {
                        if (pos as usize) < out.ls.o_names.len() {
                            out.ls.o_names.set(pos as usize, Some(name.to_string()));
                            true
                        } else {
                            false
                        }
                    },
                };
                if ok {
                    let id = ctx.ledger_alloc();
                    out.id = id;
                    proof {
                        if dim_type is Param {
                            assert(crate::local_space::names_v(out.ls.p_names@)
                                =~= crate::local_space::names_v(self.ls.p_names@).update(
                                pos as int,
                                Some(name@),
                            ));
                        } else if dim_type is In {
                            assert(crate::local_space::names_v(out.ls.i_names@)
                                =~= crate::local_space::names_v(self.ls.i_names@).update(
                                pos as int,
                                Some(name@),
                            ));
                        } else {
                            assert(crate::local_space::names_v(out.ls.o_names@)
                                =~= crate::local_space::names_v(self.ls.o_names@).update(
                                pos as int,
                                Some(name@),
                            ));
                        }
                    }
                    Ok(out)
                } else {
                    Err(Error::IslError(ctx.fail_with(ISLErrorKind::Invalid)))
                }
            },
        }
    }


    /// Consuming checked addition: constant operands fold into one\n    /// constant, checked for fit; anything else stays symbolic.
    pub fn checked_add(self, aff: Affine, ctx: &mut Context) -> (r: Result<Affine, Error>)
        requires
            old(ctx).wf(),
            self.owned_by(*old(ctx)),
            aff.owned_by(*old(ctx)),
            self.id() != aff.id(),
            old(ctx).allocs() < u64::MAX,
        ensures
            final(ctx).wf(),
            match r {
                Ok(a) => {
                    &&& op2_ok(*old(ctx), *final(ctx), self.id(), aff.id(), a.id())
                    &&& (!(self.expr() is Cst && aff.expr() is Cst) ==> a.expr() == QpRepr::Add(
                        Box::new(self.expr()),
                        Box::new(aff.expr()),
                    ))
                    &&& (self.expr() matches QpRepr::Cst(x) ==> (aff.expr() matches QpRepr::Cst(y)
                        ==> fits(rv_add(x.v(), y.v())) && (a.expr() matches QpRepr::Cst(z) && z.v()
                        == rv_add(x.v(), y.v()))))
                    &&& a.lv() == self.lv()
                    &&& a.ctx_of() == old(ctx).ctx_ref()
                    &&& a.owned_by(*final(ctx))
                },
                Err(e) => {
                    &&& (old(ctx).call_blocked() ==> op2_refused(
                        *old(ctx),
                        *final(ctx),
                        self.id(),
                        aff.id(),
                    ) && refusal_err_matches(*old(ctx), e))
                    &&& (!old(ctx).call_blocked() ==> (self.expr() matches QpRepr::Cst(x)
                        && aff.expr() matches QpRepr::Cst(y) && !fits(rv_add(x.v(), y.v())))
                        && op2_fail_recorded(
                        *old(ctx),
                        *final(ctx),
                        self.id(),
                        aff.id(),
                        ISLErrorKind::Alloc,
                    ) && recorded_err_matches(e, ISLErrorKind::Alloc))
                },
            },
    {
        let cref = self.context_ref();
        let ghost ida = self.id@;
        let ghost idb = aff.id@;
        let ls = self.ls;
        let ea = self.e;
        let eb = aff.e;
        match ctx.consume2(Ghost(ida), Ghost(idb)) {
            Some(e) => Err(Error::IslError(e)),
            None => {
                let folded = match (&ea, &eb) {
                    (QpRepr::Cst(x), QpRepr::Cst(y)) => match repr_add(*x, *y) {
                        Some(z) => Ok(Some(QpRepr::Cst(z))),
                        None => Err(()),
                    },
                    _ => Ok(None),
                };
                match folded {
                    Ok(Some(e2)) => {
                        let id = ctx.ledger_alloc();
                        Ok(Affine { ctx: cref, ls, e: e2, id })
                    },
                    Ok(None) => {
                        let id = ctx.ledger_alloc();
                        Ok(
                            Affine {
                                ctx: cref,
                                ls,
                                e: QpRepr::Add(Box::new(ea), Box::new(eb)),
                                id,
                            },
                        )
                    },
                    Err(()) => Err(Error::IslError(ctx.fail_with(ISLErrorKind::Alloc))),
                }
            },
        }
    }

    /// Consuming checked subtraction, folding constants.
    pub fn checked_sub(self, aff: Affine, ctx: &mut Context) -> (r: Result<Affine, Error>)
        requires
            old(ctx).wf(),
            self.owned_by(*old(ctx)),
            aff.owned_by(*old(ctx)),
            self.id() != aff.id(),
            old(ctx).allocs() < u64::MAX,
        ensures
            final(ctx).wf(),
            match r {
                Ok(a) => {
                    &&& op2_ok(*old(ctx), *final(ctx), self.id(), aff.id(), a.id())
                    &&& (!(self.expr() is Cst && aff.expr() is Cst) ==> a.expr() == QpRepr::Sub(
                        Box::new(self.expr()),
                        Box::new(aff.expr()),
                    ))
                    &&& (self.expr() matches QpRepr::Cst(x) ==> (aff.expr() matches QpRepr::Cst(y)
                        ==> fits(rv_sub(x.v(), y.v())) && (a.expr() matches QpRepr::Cst(z) && z.v()
                        == rv_sub(x.v(), y.v()))))
                    &&& a.lv() == self.lv()
                    &&& a.ctx_of() == old(ctx).ctx_ref()
                    &&& a.owned_by(*final(ctx))
                },
                Err(e) => {
                    &&& (old(ctx).call_blocked() ==> op2_refused(
                        *old(ctx),
                        *final(ctx),
                        self.id(),
                        aff.id(),
                    ) && refusal_err_matches(*old(ctx), e))
                    &&& (!old(ctx).call_blocked() ==> (self.expr() matches QpRepr::Cst(x)
                        && aff.expr() matches QpRepr::Cst(y) && !fits(rv_sub(x.v(), y.v())))
                        && op2_fail_recorded(
                        *old(ctx),
                        *final(ctx),
                        self.id(),
                        aff.id(),
                        ISLErrorKind::Alloc,
                    ) && recorded_err_matches(e, ISLErrorKind::Alloc))
                },
            },
    {
        let cref = self.context_ref();
        let ghost ida = self.id@;
        let ghost idb = aff.id@;
        let ls = self.ls;
        let ea = self.e;
        let eb = aff.e;
        match ctx.consume2(Ghost(ida), Ghost(idb)) {
            Some(e) => Err(Error::IslError(e)),
            None => {
                let folded = match (&ea, &eb) {
                    (QpRepr::Cst(x), QpRepr::Cst(y)) => match repr_sub(*x, *y) {
                        Some(z) => Ok(Some(QpRepr::Cst(z))),
                        None => Err(()),
                    },
                    _ => Ok(None),
                };
                match folded {
                    Ok(Some(e2)) => {
                        let id = ctx.ledger_alloc();
                        Ok(Affine { ctx: cref, ls, e: e2, id })
                    },
                    Ok(None) => {
                        let id = ctx.ledger_alloc();
                        Ok(
                            Affine {
                                ctx: cref,
                                ls,
                                e: QpRepr::Sub(Box::new(ea), Box::new(eb)),
                                id,
                            },
                        )
                    },
                    Err(()) => Err(Error::IslError(ctx.fail_with(ISLErrorKind::Alloc))),
                }
            },
        }
    }

    /// Consuming checked multiplication, folding constants.
    pub fn checked_mul(self, aff: Affine, ctx: &mut Context) -> (r: Result<Affine, Error>)
        requires
            old(ctx).wf(),
            self.owned_by(*old(ctx)),
            aff.owned_by(*old(ctx)),
            self.id() != aff.id(),
            old(ctx).allocs() < u64::MAX,
        ensures
            final(ctx).wf(),
            match r {
                Ok(a) => {
                    &&& op2_ok(*old(ctx), *final(ctx), self.id(), aff.id(), a.id())
                    &&& (!(self.expr() is Cst && aff.expr() is Cst) ==> a.expr() == QpRepr::Mul(
                        Box::new(self.expr()),
                        Box::new(aff.expr()),
                    ))
                    &&& (self.expr() matches QpRepr::Cst(x) ==> (aff.expr() matches QpRepr::Cst(y)
                        ==> fits(rv_mul(x.v(), y.v())) && (a.expr() matches QpRepr::Cst(z) && z.v()
                        == rv_mul(x.v(), y.v()))))
                    &&& a.lv() == self.lv()
                    &&& a.ctx_of() == old(ctx).ctx_ref()
                    &&& a.owned_by(*final(ctx))
                },
                Err(e) => {
                    &&& (old(ctx).call_blocked() ==> op2_refused(
                        *old(ctx),
                        *final(ctx),
                        self.id(),
                        aff.id(),
                    ) && refusal_err_matches(*old(ctx), e))
                    &&& (!old(ctx).call_blocked() ==> (self.expr() matches QpRepr::Cst(x)
                        && aff.expr() matches QpRepr::Cst(y) && !fits(rv_mul(x.v(), y.v())))
                        && op2_fail_recorded(
                        *old(ctx),
                        *final(ctx),
                        self.id(),
                        aff.id(),
                        ISLErrorKind::Alloc,
                    ) && recorded_err_matches(e, ISLErrorKind::Alloc))
                },
            },
    {
        let cref = self.context_ref();
        let ghost ida = self.id@;
        let ghost idb = aff.id@;
        let ls = self.ls;
        let ea = self.e;
        let eb = aff.e;
        match ctx.consume2(Ghost(ida), Ghost(idb)) {
            Some(e) => Err(Error::IslError(e)),
            None => {
                let folded = match (&ea, &eb) {
                    (QpRepr::Cst(x), QpRepr::Cst(y)) => match repr_mul(*x, *y) {
                        Some(z) => Ok(Some(QpRepr::Cst(z))),
                        None => Err(()),
                    },
                    _ => Ok(None),
                };
                match folded {
                    Ok(Some(e2)) => {
                        let id = ctx.ledger_alloc();
                        Ok(Affine { ctx: cref, ls, e: e2, id })
                    },
                    Ok(None) => {
                        let id = ctx.ledger_alloc();
                        Ok(
                            Affine {
                                ctx: cref,
                                ls,
                                e: QpRepr::Mul(Box::new(ea), Box::new(eb)),
                                id,
                            },
                        )
                    },
                    Err(()) => Err(Error::IslError(ctx.fail_with(ISLErrorKind::Alloc))),
                }
            },
        }
    }

    /// Consuming checked division, folding constants: division is its\n    /// own entry point with its own stored form, and a zero constant\n    /// divisor folds to not-a-number as the foreign library defines it.
    pub fn checked_div(self, aff: Affine, ctx: &mut Context) -> (r: Result<Affine, Error>)
        requires
            old(ctx).wf(),
            self.owned_by(*old(ctx)),
            aff.owned_by(*old(ctx)),
            self.id() != aff.id(),
            old(ctx).allocs() < u64::MAX,
        ensures
            final(ctx).wf(),
            match r {
                Ok(a) => {
                    &&& op2_ok(*old(ctx), *final(ctx), self.id(), aff.id(), a.id())
                    &&& (!(self.expr() is Cst && aff.expr() is Cst) ==> a.expr() == QpRepr::Div(
                        Box::new(self.expr()),
                        Box::new(aff.expr()),
                    ))
                    &&& (self.expr() matches QpRepr::Cst(x) ==> (aff.expr() matches QpRepr::Cst(y)
                        ==> fits(rv_div(x.v(), y.v())) && (a.expr() matches QpRepr::Cst(z) && z.v()
                        == rv_div(x.v(), y.v()))))
                    &&& a.lv() == self.lv()
                    &&& a.ctx_of() == old(ctx).ctx_ref()
                    &&& a.owned_by(*final(ctx))
                },
                Err(e) => {
                    &&& (old(ctx).call_blocked() ==> op2_refused(
                        *old(ctx),
                        *final(ctx),
                        self.id(),
                        aff.id(),
                    ) && refusal_err_matches(*old(ctx), e))
                    &&& (!old(ctx).call_blocked() ==> (self.expr() matches QpRepr::Cst(x)
                        && aff.expr() matches QpRepr::Cst(y) && !fits(rv_div(x.v(), y.v())))
                        && op2_fail_recorded(
                        *old(ctx),
                        *final(ctx),
                        self.id(),
                        aff.id(),
                        ISLErrorKind::Alloc,
                    ) && recorded_err_matches(e, ISLErrorKind::Alloc))
                },
            },
    {
        let cref = self.context_ref();
        let ghost ida = self.id@;
        let ghost idb = aff.id@;
        let ls = self.ls;
        let ea = self.e;
        let eb = aff.e;
        match ctx.consume2(Ghost(ida), Ghost(idb)) {
            Some(e) => Err(Error::IslError(e)),
            None => {
                let folded = match (&ea, &eb) {
                    (QpRepr::Cst(x), QpRepr::Cst(y)) => match repr_div(*x, *y) {
                        Some(z) => Ok(Some(QpRepr::Cst(z))),
                        None => Err(()),
                    },
                    _ => Ok(None),
                };
                match folded {
                    Ok(Some(e2)) => {
                        let id = ctx.ledger_alloc();
                        Ok(Affine { ctx: cref, ls, e: e2, id })
                    },
                    Ok(None) => {
                        let id = ctx.ledger_alloc();
                        Ok(
                            Affine {
                                ctx: cref,
                                ls,
                                e: QpRepr::Div(Box::new(ea), Box::new(eb)),
                                id,
                            },
                        )
                    },
                    Err(()) => Err(Error::IslError(ctx.fail_with(ISLErrorKind::Alloc))),
                }
            },
        }
    }

    /// The foreign copy entry point.
    pub fn copy(&self, ctx: &mut Context) -> (r: Affine)
        requires
            old(ctx).wf(),
            self.owned_by(*old(ctx)),
            old(ctx).allocs() < u64::MAX,
        ensures
            final(ctx).wf(),
            alloc_one(*old(ctx), *final(ctx), r.id()),
            r.expr() == self.expr(),
            r.lv() == self.lv(),
            r.ctx_of() == self.ctx_of(),
            r.owned_by(*final(ctx)),
            self.owned_by(*final(ctx)),
    {
        let id = ctx.ledger_alloc();
        Affine {
            ctx: self.ctx,
            ls: self.ls.clone_repr(),
            e: crate::polynomial::clone_qp_pub(&self.e),
            id,
        }
    }

    /// Destroy the foreign object behind this handle.
    pub fn free(self, ctx: &mut Context)
        requires
            old(ctx).wf(),
            self.owned_by(*old(ctx)),
        ensures
            final(ctx).wf(),
            free_one(*old(ctx), *final(ctx), self.id()),
    {
        ctx.ledger_free(Ghost(self.id@));
    }
}

} // verus!
