//! The owned handles for quasi-polynomials, their terms, and piecewise
//! quasi-polynomials, together with the callback marshaling bridge that
//! walks their decompositions.
//!
//! The model keeps a quasi-polynomial as a symbolic expression over the
//! dimensions of its domain space, folding constant operands eagerly; a
//! piecewise quasi-polynomial is a row of pieces, each an expression with
//! its domain.  The decompositions the bridges enumerate are those of this
//! stored form; the foreign library's own decomposition order is a
//! property of the external collaborator.

use vstd::prelude::*;

use crate::context::{
    alloc_one, free_one, refusal_err_matches, call_refused, call_admitted, op1_refused, op1_ok,
    op2_refused, op2_ok, recorded_err_matches, Context, ContextRef,
};
use crate::error::{Error, ISLErrorKind};
use crate::rat::{fits, repr_add, repr_mul, repr_sub, rv_add, rv_mul, rv_sub, ValRepr};
use crate::space::{Space, SpaceRepr, SpaceV};
use crate::value::Value;
use crate::DimType;

verus! {

/// The stored form of a quasi-polynomial: a symbolic expression over the
/// dimensions of its domain.
pub enum QpRepr {
    Cst(ValRepr),
    Var { dt: DimType, pos: u32 },
    Add(Box<QpRepr>, Box<QpRepr>),
    Sub(Box<QpRepr>, Box<QpRepr>),
    Mul(Box<QpRepr>, Box<QpRepr>),
    Div(Box<QpRepr>, Box<QpRepr>),
}

impl QpRepr {
    /// Every constant in the expression is well formed.
    pub open spec fn qwf(self) -> bool
        decreases self,
    {
        match self {
            QpRepr::Cst(c) => c.wf(),
            QpRepr::Var { dt, pos } => true,
            QpRepr::Add(a, b) => a.qwf() && b.qwf(),
            QpRepr::Sub(a, b) => a.qwf() && b.qwf(),
            QpRepr::Mul(a, b) => a.qwf() && b.qwf(),
            QpRepr::Div(a, b) => a.qwf() && b.qwf(),
        }
    }
}

/// A deep copy of an expression.
pub(crate) fn clone_qp_pub(e: &QpRepr) -> (r: QpRepr)
    ensures
        r == *e,
    decreases *e,
{
    match e {
        QpRepr::Cst(c) => QpRepr::Cst(*c),
        QpRepr::Var { dt, pos } => QpRepr::Var { dt: *dt, pos: *pos },
        QpRepr::Add(a, b) => QpRepr::Add(Box::new(clone_qp_pub(a)), Box::new(clone_qp_pub(b))),
        QpRepr::Sub(a, b) => QpRepr::Sub(Box::new(clone_qp_pub(a)), Box::new(clone_qp_pub(b))),
        QpRepr::Mul(a, b) => QpRepr::Mul(Box::new(clone_qp_pub(a)), Box::new(clone_qp_pub(b))),
        QpRepr::Div(a, b) => QpRepr::Div(Box::new(clone_qp_pub(a)), Box::new(clone_qp_pub(b))),
    }
}

/// Structural equality of expressions.
fn qp_eq(a: &QpRepr, b: &QpRepr) -> (r: bool)
    ensures
        r == (*a == *b),
    decreases *a,
{
    match (a, b) {
        (QpRepr::Cst(x), QpRepr::Cst(y)) => x == y,
        (QpRepr::Var { dt: d1, pos: p1 }, QpRepr::Var { dt: d2, pos: p2 }) => d1 == d2 && p1
            == p2,
        (QpRepr::Add(a1, b1), QpRepr::Add(a2, b2)) => qp_eq(a1, a2) && qp_eq(b1, b2),
        (QpRepr::Sub(a1, b1), QpRepr::Sub(a2, b2)) => qp_eq(a1, a2) && qp_eq(b1, b2),
        (QpRepr::Mul(a1, b1), QpRepr::Mul(a2, b2)) => qp_eq(a1, a2) && qp_eq(b1, b2),
        (QpRepr::Div(a1, b1), QpRepr::Div(a2, b2)) => qp_eq(a1, a2) && qp_eq(b1, b2),
        _ => false,
    }
}

/// Whether the expression holds a not-a-number constant.
fn qp_has_nan(e: &QpRepr) -> (r: bool)
    ensures
        r == e.spec_has_nan(),
    decreases *e,
{
    match e {
        QpRepr::Cst(c) => matches!(c, ValRepr::Nan),
        QpRepr::Var { dt, pos } => false,
        QpRepr::Add(a, b) => qp_has_nan(a) || qp_has_nan(b),
        QpRepr::Sub(a, b) => qp_has_nan(a) || qp_has_nan(b),
        QpRepr::Mul(a, b) => qp_has_nan(a) || qp_has_nan(b),
        QpRepr::Div(a, b) => qp_has_nan(a) || qp_has_nan(b),
    }
}

impl QpRepr {
    pub open spec fn spec_has_nan(self) -> bool
        decreases self,
    {
        match self {
            QpRepr::Cst(c) => c is Nan,
            QpRepr::Var { dt, pos } => false,
            QpRepr::Add(a, b) => a.spec_has_nan() || b.spec_has_nan(),
            QpRepr::Sub(a, b) => a.spec_has_nan() || b.spec_has_nan(),
            QpRepr::Mul(a, b) => a.spec_has_nan() || b.spec_has_nan(),
            QpRepr::Div(a, b) => a.spec_has_nan() || b.spec_has_nan(),
        }
    }
}

/// An owned handle to a foreign quasi-polynomial object, over the domain
/// space it was built on.
pub struct QuasiPolynomial {
    pub(crate) ctx: ContextRef,
    pub(crate) s: SpaceRepr,
    pub(crate) e: QpRepr,
    pub(crate) id: Ghost<nat>,
}

impl QuasiPolynomial {
    pub open(crate) spec fn sv(&self) -> SpaceV {
        self.s.sv()
    }

    pub open(crate) spec fn expr(&self) -> QpRepr {
        self.e
    }

    pub open(crate) spec fn id(&self) -> nat {
        self.id@
    }

    pub open(crate) spec fn ctx_of(&self) -> ContextRef {
        self.ctx
    }

    pub open(crate) spec fn qpwf(&self) -> bool {
        &&& self.e.qwf()
        &&& self.s.n_param + self.s.n_in + self.s.n_out <= u32::MAX
    }

    pub open(crate) spec fn owned_by(&self, c: Context) -> bool {
        &&& self.ctx == c.ctx_ref()
        &&& c.live().contains(self.id@)
        &&& self.qpwf()
    }

    pub fn context_ref(&self) -> (r: ContextRef)
        ensures
            r == self.ctx_of(),
    {
        self.ctx
    }

    /// Diagnostic print entry point; no observable effect.
    pub fn dump(&self) {
    }

    /// The count of the given dimension kind: the domain's set dimensions
    /// read as inputs, and the polynomial value is the one output.
    pub fn get_dim(&self, dim_type: DimType) -> (r: Result<u32, Error>)
        requires
            self.qpwf(),
        ensures
            r == Ok::<u32, Error>(
                match dim_type {
                    DimType::Param => self.sv().n_param,
                    DimType::In => ((self.sv().n_in + self.sv().n_out) as u32),
                    DimType::Out => 1u32,
                    _ => 0u32,
                },
            ),
    {
        Ok(
            match dim_type {
                DimType::Param => self.s.n_param,
                DimType::In => self.s.n_in + self.s.n_out,
                DimType::Out => 1,
                _ => 0,
            },
        )
    }

    /// The domain space, as a newly owned copy.
    pub fn get_domain_space(&self, ctx: &mut Context) -> (r: Result<Space, Error>)
        requires
            old(ctx).wf(),
            self.owned_by(*old(ctx)),
            old(ctx).allocs() < u64::MAX,
        ensures
            final(ctx).wf(),
            match r {
                Ok(sp) => {
                    &&& alloc_one(*old(ctx), *final(ctx), sp.id())
                    &&& sp.sv() == self.sv()
                    &&& sp.ctx_of() == self.ctx_of()
                    &&& sp.owned_by(*final(ctx))
                    &&& self.owned_by(*final(ctx))
                },
                Err(_) => false,
            },
    {
        let id = ctx.ledger_alloc();
        Ok(Space { ctx: self.ctx, s: self.s.clone_repr(), id })
    }

    /// The polynomial's own space: its domain as inputs and one output.
    pub fn get_space(&self, ctx: &mut Context) -> (r: Result<Space, Error>)
        requires
            old(ctx).wf(),
            self.owned_by(*old(ctx)),
            old(ctx).allocs() < u64::MAX,
            self.sv().n_param + self.sv().n_in + self.sv().n_out < u32::MAX,
        ensures
            final(ctx).wf(),
            match r {
                Ok(sp) => {
                    &&& alloc_one(*old(ctx), *final(ctx), sp.id())
                    &&& sp.sv() == (SpaceV {
                        kind: crate::space::SpaceKind::MapSpace,
                        n_param: self.sv().n_param,
                        n_in: ((self.sv().n_in + self.sv().n_out) as u32),
                        n_out: 1u32,
                        in_name: None,
                        out_name: None,
                    })
                    &&& sp.ctx_of() == self.ctx_of()
                    &&& sp.owned_by(*final(ctx))
                    &&& self.owned_by(*final(ctx))
                },
                Err(_) => false,
            },
    {
        let id = ctx.ledger_alloc();
        Ok(
            Space {
                ctx: self.ctx,
                s: SpaceRepr {
                    kind: crate::space::SpaceKind::MapSpace,
                    n_param: self.s.n_param,
                    n_in: self.s.n_in + self.s.n_out,
                    n_out: 1,
                    in_name: None,
                    out_name: None,
                },
                id,
            },
        )
    }

    /// The constant value of a constant polynomial, as a newly owned
    /// value; a polynomial that is not stored as a constant is an invalid
    /// argument reported by the foreign side.
    pub fn get_constant_val(&self, ctx: &mut Context) -> (r: Result<Value, Error>)
        requires
            old(ctx).wf(),
            self.owned_by(*old(ctx)),
            old(ctx).allocs() < u64::MAX,
        ensures
            final(ctx).wf(),
            match r {
                Ok(v) => {
                    &&& self.expr() matches QpRepr::Cst(c) && v.repr() == c
                    &&& alloc_one(*old(ctx), *final(ctx), v.id())
                    &&& v.ctx_of() == self.ctx_of()
                    &&& v.owned_by(*final(ctx))
                    &&& self.owned_by(*final(ctx))
                },
                Err(e) => !(self.expr() is Cst) && crate::context::recorded(
                    *old(ctx),
                    *final(ctx),
                    ISLErrorKind::Invalid,
                ) && recorded_err_matches(e, ISLErrorKind::Invalid) && self.owned_by(*final(ctx)),
            },
    {
        match self.e {
            QpRepr::Cst(c) => {
                let id = ctx.ledger_alloc();
                Ok(Value { ctx: self.ctx, v: c, id })
            },
            _ => Err(Error::IslError(ctx.fail_with(ISLErrorKind::Invalid))),
        }
    }

    /// Whether this polynomial is stored as the integer zero.
    pub fn is_zero(&self) -> (r: Result<bool, Error>)
        ensures
            r == Ok::<bool, Error>(self.expr() == QpRepr::Cst(ValRepr::Rat { num: 0, den: 1 })),
    {
        Ok(qp_eq(&self.e, &QpRepr::Cst(ValRepr::Rat { num: 0, den: 1 })))
    }

    /// Whether this polynomial is stored as positive infinity.
    pub fn is_infty(&self) -> (r: Result<bool, Error>)
        ensures
            r == Ok::<bool, Error>(self.expr() == QpRepr::Cst(ValRepr::Infty)),
    {
        Ok(qp_eq(&self.e, &QpRepr::Cst(ValRepr::Infty)))
    }

    /// Whether this polynomial is stored as negative infinity.
    pub fn is_neginfty(&self) -> (r: Result<bool, Error>)
        ensures
            r == Ok::<bool, Error>(self.expr() == QpRepr::Cst(ValRepr::NegInfty)),
    {
        Ok(qp_eq(&self.e, &QpRepr::Cst(ValRepr::NegInfty)))
    }

    /// Whether this polynomial is stored as not-a-number.
    pub fn is_nan(&self) -> (r: Result<bool, Error>)
        ensures
            r == Ok::<bool, Error>(self.expr() == QpRepr::Cst(ValRepr::Nan)),
    {
        Ok(qp_eq(&self.e, &QpRepr::Cst(ValRepr::Nan)))
    }

    /// Whether two polynomials are stored as the same expression over the
    /// same space.
    pub fn plain_is_equal(&self, other: &QuasiPolynomial) -> (r: Result<bool, Error>)
        ensures
            r == Ok::<bool, Error>(self.expr() == other.expr() && self.sv() == other.sv()),
    {
        let ee = qp_eq(&self.e, &other.e);
        let se = crate::space::space_eq_exec(&self.s, &other.s);
        Ok(ee && se)
    }

    /// The foreign copy entry point.
    pub fn copy(&self, ctx: &mut Context) -> (r: QuasiPolynomial)
        requires
            old(ctx).wf(),
            self.owned_by(*old(ctx)),
            old(ctx).allocs() < u64::MAX,
        ensures
            final(ctx).wf(),
            alloc_one(*old(ctx), *final(ctx), r.id()),
            r.expr() == self.expr(),
            r.sv() == self.sv(),
            r.ctx_of() == self.ctx_of(),
            r.owned_by(*final(ctx)),
            self.owned_by(*final(ctx)),
    {
        let id = ctx.ledger_alloc();
        QuasiPolynomial { ctx: self.ctx, s: self.s.clone_repr(), e: clone_qp_pub(&self.e), id }
    }

    /// Destroy the foreign object behind this handle.
    pub fn free(self, ctx: &mut Context)
        requires
            old(ctx).wf(),
            self.owned_by(*old(ctx)),
        ensures
            final(ctx).wf(),
            free_one(*old(ctx), *final(ctx), self.id()),
    {
        ctx.ledger_free(Ghost(self.id@));
    }
}

/// A fallible constructor body over a consumed space.
fn qp_on_domain(space: Space, e: QpRepr, ctx: &mut Context) -> (r: Result<QuasiPolynomial, Error>)
    requires
        old(ctx).wf(),
        space.owned_by(*old(ctx)),
        e.qwf(),
        old(ctx).allocs() < u64::MAX,
    ensures
        final(ctx).wf(),
        match r {
            Ok(q) => {
                &&& op1_ok(*old(ctx), *final(ctx), space.id(), q.id())
                &&& q.expr() == e
                &&& q.sv() == space.sv()
                &&& q.ctx_of() == old(ctx).ctx_ref()
                &&& q.owned_by(*final(ctx))
            },
            Err(err) => old(ctx).call_blocked() && op1_refused(
                *old(ctx),
                *final(ctx),
                space.id(),
            ) && refusal_err_matches(*old(ctx), err),
        },
{
    let cref = space.context_ref();
    let ghost ida = space.id@;
    let s = space.s;
    match ctx.consume1(Ghost(ida)) {
        Some(err) => Err(Error::IslError(err)),
        None => {
            let id = ctx.ledger_alloc();
            Ok(QuasiPolynomial { ctx: cref, s, e, id })
        },
    }
}

impl QuasiPolynomial {
    /// The zero polynomial on the given domain, which is consumed.
    pub fn zero_on_domain(space: Space, ctx: &mut Context) -> (r: Result<QuasiPolynomial, Error>)
        requires
            old(ctx).wf(),
            space.owned_by(*old(ctx)),
            old(ctx).allocs() < u64::MAX,
        ensures
            final(ctx).wf(),
            match r {
                Ok(q) => {
                    &&& op1_ok(*old(ctx), *final(ctx), space.id(), q.id())
                    &&& q.expr() == QpRepr::Cst(ValRepr::Rat { num: 0, den: 1 })
                    &&& q.sv() == space.sv()
                    &&& q.ctx_of() == old(ctx).ctx_ref()
                    &&& q.owned_by(*final(ctx))
                },
                Err(e) => old(ctx).call_blocked() && op1_refused(
                    *old(ctx),
                    *final(ctx),
                    space.id(),
                ) && refusal_err_matches(*old(ctx), e),
            },
    {
        qp_on_domain(space, QpRepr::Cst(ValRepr::Rat { num: 0, den: 1 }), ctx)
    }

    /// The unit polynomial on the given domain, which is consumed.
    pub fn one_on_domain(space: Space, ctx: &mut Context) -> (r: Result<QuasiPolynomial, Error>)
        requires
            old(ctx).wf(),
            space.owned_by(*old(ctx)),
            old(ctx).allocs() < u64::MAX,
        ensures
            final(ctx).wf(),
            match r {
                Ok(q) => {
                    &&& op1_ok(*old(ctx), *final(ctx), space.id(), q.id())
                    &&& q.expr() == QpRepr::Cst(ValRepr::Rat { num: 1, den: 1 })
                    &&& q.sv() == space.sv()
                    &&& q.ctx_of() == old(ctx).ctx_ref()
                    &&& q.owned_by(*final(ctx))
                },
                Err(e) => old(ctx).call_blocked() && op1_refused(
                    *old(ctx),
                    *final(ctx),
                    space.id(),
                ) && refusal_err_matches(*old(ctx), e),
            },
    {
        qp_on_domain(space, QpRepr::Cst(ValRepr::Rat { num: 1, den: 1 }), ctx)
    }

    /// The positive-infinity polynomial on the given domain.
    pub fn infty_on_domain(space: Space, ctx: &mut Context) -> (r: Result<QuasiPolynomial, Error>)
        requires
            old(ctx).wf(),
            space.owned_by(*old(ctx)),
            old(ctx).allocs() < u64::MAX,
        ensures
            final(ctx).wf(),
            match r {
                Ok(q) => {
                    &&& op1_ok(*old(ctx), *final(ctx), space.id(), q.id())
                    &&& q.expr() == QpRepr::Cst(ValRepr::Infty)
                    &&& q.sv() == space.sv()
                    &&& q.ctx_of() == old(ctx).ctx_ref()
                    &&& q.owned_by(*final(ctx))
                },
                Err(e) => old(ctx).call_blocked() && op1_refused(
                    *old(ctx),
                    *final(ctx),
                    space.id(),
                ) && refusal_err_matches(*old(ctx), e),
            },
    {
        qp_on_domain(space, QpRepr::Cst(ValRepr::Infty), ctx)
    }

    /// The negative-infinity polynomial on the given domain.
    pub fn neginfty_on_domain(space: Space, ctx: &mut Context) -> (r: Result<
        QuasiPolynomial,
        Error,
    >)
        requires
            old(ctx).wf(),
            space.owned_by(*old(ctx)),
            old(ctx).allocs() < u64::MAX,
        ensures
            final(ctx).wf(),
            match r {
                Ok(q) => {
                    &&& op1_ok(*old(ctx), *final(ctx), space.id(), q.id())
                    &&& q.expr() == QpRepr::Cst(ValRepr::NegInfty)
                    &&& q.sv() == space.sv()
                    &&& q.ctx_of() == old(ctx).ctx_ref()
                    &&& q.owned_by(*final(ctx))
                },
                Err(e) => old(ctx).call_blocked() && op1_refused(
                    *old(ctx),
                    *final(ctx),
                    space.id(),
                ) && refusal_err_matches(*old(ctx), e),
            },
    {
        qp_on_domain(space, QpRepr::Cst(ValRepr::NegInfty), ctx)
    }

    /// The not-a-number polynomial on the given domain.
    pub fn nan_on_domain(space: Space, ctx: &mut Context) -> (r: Result<QuasiPolynomial, Error>)
        requires
            old(ctx).wf(),
            space.owned_by(*old(ctx)),
            old(ctx).allocs() < u64::MAX,
        ensures
            final(ctx).wf(),
            match r {
                Ok(q) => {
                    &&& op1_ok(*old(ctx), *final(ctx), space.id(), q.id())
                    &&& q.expr() == QpRepr::Cst(ValRepr::Nan)
                    &&& q.sv() == space.sv()
                    &&& q.ctx_of() == old(ctx).ctx_ref()
                    &&& q.owned_by(*final(ctx))
                },
                Err(e) => old(ctx).call_blocked() && op1_refused(
                    *old(ctx),
                    *final(ctx),
                    space.id(),
                ) && refusal_err_matches(*old(ctx), e),
            },
    {
        qp_on_domain(space, QpRepr::Cst(ValRepr::Nan), ctx)
    }

    /// The constant polynomial of the given value on the given domain;
    /// both handles are consumed.
    pub fn val_on_domain(space: Space, value: Value, ctx: &mut Context) -> (r: Result<
        QuasiPolynomial,
        Error,
    >)
        requires
            old(ctx).wf(),
            space.owned_by(*old(ctx)),
            value.owned_by(*old(ctx)),
            space.id() != value.id(),
            old(ctx).allocs() < u64::MAX,
        ensures
            final(ctx).wf(),
            match r {
                Ok(q) => {
                    &&& op2_ok(*old(ctx), *final(ctx), space.id(), value.id(), q.id())
                    &&& q.expr() == QpRepr::Cst(value.repr())
                    &&& q.sv() == space.sv()
                    &&& q.ctx_of() == old(ctx).ctx_ref()
                    &&& q.owned_by(*final(ctx))
                },
                Err(e) => old(ctx).call_blocked() && op2_refused(
                    *old(ctx),
                    *final(ctx),
                    space.id(),
                    value.id(),
                ) && refusal_err_matches(*old(ctx), e),
            },
    {
        let cref = space.context_ref();
        let ghost ida = space.id@;
        let ghost idb = value.id@;
        let s = space.s;
        let v = value.v;
        match ctx.consume2(Ghost(ida), Ghost(idb)) {
            Some(e) => Err(Error::IslError(e)),
            None => {
                let id = ctx.ledger_alloc();
                Ok(QuasiPolynomial { ctx: cref, s, e: QpRepr::Cst(v), id })
            },
        }
    }

    /// The single-variable polynomial for one dimension of the given
    /// domain, which is consumed.  The position is pre-validated against
    /// the domain's own dimension count: an out-of-range position is a
    /// local validation failure that never reaches the foreign call.
    pub fn var_on_domain(space: Space, dim_type: DimType, pos: u32, ctx: &mut Context) -> (r:
        Result<QuasiPolynomial, Error>)
        requires
            old(ctx).wf(),
            space.owned_by(*old(ctx)),
            old(ctx).allocs() < u64::MAX,
        ensures
            final(ctx).wf(),
            match r {
                Ok(q) => {
                    &&& pos < space.sv().dim_of(dim_type)
                    &&& op1_ok(*old(ctx), *final(ctx), space.id(), q.id())
                    &&& q.expr() == (QpRepr::Var { dt: dim_type, pos })
                    &&& q.sv() == space.sv()
                    &&& q.ctx_of() == old(ctx).ctx_ref()
                    &&& q.owned_by(*final(ctx))
                },
                Err(e) => {
                    &&& (pos >= space.sv().dim_of(dim_type) ==> e
                        is VariablePositionOutOfBounds && free_one(
                        *old(ctx),
                        *final(ctx),
                        space.id(),
                    ))
                    &&& (pos < space.sv().dim_of(dim_type) ==> old(ctx).call_blocked()
                        && op1_refused(*old(ctx), *final(ctx), space.id()) && refusal_err_matches(
                        *old(ctx),
                        e,
                    ))
                },
            },
    {
        let cref = space.context_ref();
        let ghost ida = space.id@;
        let bound = match dim_type {
            DimType::Param => space.s.n_param,
            DimType::In => space.s.n_in,
            DimType::Out => space.s.n_out,
            DimType::All => space.s.n_param + space.s.n_in + space.s.n_out,
            _ => 0,
        };
        if pos >= bound {
            ctx.ledger_free(Ghost(ida));
            return Err(Error::VariablePositionOutOfBounds);
        }
        let s = space.s;
        match ctx.consume1(Ghost(ida)) {
            Some(e) => Err(Error::IslError(e)),
            None => {
                let id = ctx.ledger_alloc();
                Ok(QuasiPolynomial { ctx: cref, s, e: QpRepr::Var { dt: dim_type, pos }, id })
            },
        }
    }

    /// Consuming checked addition: constant operands fold into one
    /// constant, checked for fit; anything else stays symbolic.
    pub fn checked_add(self, other: QuasiPolynomial, ctx: &mut Context) -> (r: Result<
        QuasiPolynomial,
        Error,
    >)
        requires
            old(ctx).wf(),
            self.owned_by(*old(ctx)),
            other.owned_by(*old(ctx)),
            self.id() != other.id(),
            old(ctx).allocs() < u64::MAX,
        ensures
            final(ctx).wf(),
            match r {
                Ok(q) => {
                    &&& op2_ok(*old(ctx), *final(ctx), self.id(), other.id(), q.id())
                    &&& (!(self.expr() is Cst && other.expr() is Cst) ==> q.expr() == QpRepr::Add(
                        Box::new(self.expr()),
                        Box::new(other.expr()),
                    ))
                    &&& (self.expr() matches QpRepr::Cst(x) ==> (other.expr()
                        matches QpRepr::Cst(y) ==> fits(rv_add(x.v(), y.v())) && (q.expr()
                        matches QpRepr::Cst(z) && z.v() == rv_add(x.v(), y.v()))))
                    &&& q.sv() == self.sv()
                    &&& q.ctx_of() == old(ctx).ctx_ref()
                    &&& q.owned_by(*final(ctx))
                },
                Err(e) => {
                    &&& (old(ctx).call_blocked() ==> op2_refused(
                        *old(ctx),
                        *final(ctx),
                        self.id(),
                        other.id(),
                    ) && refusal_err_matches(*old(ctx), e))
                    &&& (!old(ctx).call_blocked() ==> (self.expr() matches QpRepr::Cst(x)
                        && other.expr() matches QpRepr::Cst(y) && !fits(rv_add(x.v(), y.v())))
                        && crate::context::op2_fail_recorded(
                        *old(ctx),
                        *final(ctx),
                        self.id(),
                        other.id(),
                        ISLErrorKind::Alloc,
                    ) && recorded_err_matches(e, ISLErrorKind::Alloc))
                },
            },
    {
        let cref = self.context_ref();
        let ghost ida = self.id@;
        let ghost idb = other.id@;
        let s = self.s;
        let ea = self.e;
        let eb = other.e;
        match ctx.consume2(Ghost(ida), Ghost(idb)) {
            Some(e) => Err(Error::IslError(e)),
            None => {
                let folded = match (&ea, &eb) {
                    (QpRepr::Cst(x), QpRepr::Cst(y)) => match repr_add(*x, *y) {
                        Some(z) => Ok(Some(QpRepr::Cst(z))),
                        None => Err(()),
                    },
                    _ => Ok(None),
                };
                match folded {
                    Ok(Some(e2)) => {
                        let id = ctx.ledger_alloc();
                        Ok(QuasiPolynomial { ctx: cref, s, e: e2, id })
                    },
                    Ok(None) => {
                        let id = ctx.ledger_alloc();
                        Ok(
                            QuasiPolynomial {
                                ctx: cref,
                                s,
                                e: QpRepr::Add(Box::new(ea), Box::new(eb)),
                                id,
                            },
                        )
                    },
                    Err(()) => Err(Error::IslError(ctx.fail_with(ISLErrorKind::Alloc))),
                }
            },
        }
    }

    /// Consuming checked subtraction, folding constants.
    pub fn checked_sub(self, other: QuasiPolynomial, ctx: &mut Context) -> (r: Result<
        QuasiPolynomial,
        Error,
    >)
        requires
            old(ctx).wf(),
            self.owned_by(*old(ctx)),
            other.owned_by(*old(ctx)),
            self.id() != other.id(),
            old(ctx).allocs() < u64::MAX,
        ensures
            final(ctx).wf(),
            match r {
                Ok(q) => {
                    &&& op2_ok(*old(ctx), *final(ctx), self.id(), other.id(), q.id())
                    &&& (!(self.expr() is Cst && other.expr() is Cst) ==> q.expr() == QpRepr::Sub(
                        Box::new(self.expr()),
                        Box::new(other.expr()),
                    ))
                    &&& (self.expr() matches QpRepr::Cst(x) ==> (other.expr()
                        matches QpRepr::Cst(y) ==> fits(rv_sub(x.v(), y.v())) && (q.expr()
                        matches QpRepr::Cst(z) && z.v() == rv_sub(x.v(), y.v()))))
                    &&& q.sv() == self.sv()
                    &&& q.ctx_of() == old(ctx).ctx_ref()
                    &&& q.owned_by(*final(ctx))
                },
                Err(e) => {
                    &&& (old(ctx).call_blocked() ==> op2_refused(
                        *old(ctx),
                        *final(ctx),
                        self.id(),
                        other.id(),
                    ) && refusal_err_matches(*old(ctx), e))
                    &&& (!old(ctx).call_blocked() ==> (self.expr() matches QpRepr::Cst(x)
                        && other.expr() matches QpRepr::Cst(y) && !fits(rv_sub(x.v(), y.v())))
                        && crate::context::op2_fail_recorded(
                        *old(ctx),
                        *final(ctx),
                        self.id(),
                        other.id(),
                        ISLErrorKind::Alloc,
                    ) && recorded_err_matches(e, ISLErrorKind::Alloc))
                },
            },
    {
        let cref = self.context_ref();
        let ghost ida = self.id@;
        let ghost idb = other.id@;
        let s = self.s;
        let ea = self.e;
        let eb = other.e;
        match ctx.consume2(Ghost(ida), Ghost(idb)) {
            Some(e) => Err(Error::IslError(e)),
            None => {
                let folded = match (&ea, &eb) {
                    (QpRepr::Cst(x), QpRepr::Cst(y)) => match repr_sub(*x, *y) {
                        Some(z) => Ok(Some(QpRepr::Cst(z))),
                        None => Err(()),
                    },
                    _ => Ok(None),
                };
                match folded {
                    Ok(Some(e2)) => {
                        let id = ctx.ledger_alloc();
                        Ok(QuasiPolynomial { ctx: cref, s, e: e2, id })
                    },
                    Ok(None) => {
                        let id = ctx.ledger_alloc();
                        Ok(
                            QuasiPolynomial {
                                ctx: cref,
                                s,
                                e: QpRepr::Sub(Box::new(ea), Box::new(eb)),
                                id,
                            },
                        )
                    },
                    Err(()) => Err(Error::IslError(ctx.fail_with(ISLErrorKind::Alloc))),
                }
            },
        }
    }

    /// Consuming checked multiplication, folding constants.
    pub fn checked_mul(self, other: QuasiPolynomial, ctx: &mut Context) -> (r: Result<
        QuasiPolynomial,
        Error,
    >)
        requires
            old(ctx).wf(),
            self.owned_by(*old(ctx)),
            other.owned_by(*old(ctx)),
            self.id() != other.id(),
            old(ctx).allocs() < u64::MAX,
        ensures
            final(ctx).wf(),
            match r {
                Ok(q) => {
                    &&& op2_ok(*old(ctx), *final(ctx), self.id(), other.id(), q.id())
                    &&& (!(self.expr() is Cst && other.expr() is Cst) ==> q.expr() == QpRepr::Mul(
                        Box::new(self.expr()),
                        Box::new(other.expr()),
                    ))
                    &&& (self.expr() matches QpRepr::Cst(x) ==> (other.expr()
                        matches QpRepr::Cst(y) ==> fits(rv_mul(x.v(), y.v())) && (q.expr()
                        matches QpRepr::Cst(z) && z.v() == rv_mul(x.v(), y.v()))))
                    &&& q.sv() == self.sv()
                    &&& q.ctx_of() == old(ctx).ctx_ref()
                    &&& q.owned_by(*final(ctx))
                },
                Err(e) => {
                    &&& (old(ctx).call_blocked() ==> op2_refused(
                        *old(ctx),
                        *final(ctx),
                        self.id(),
                        other.id(),
                    ) && refusal_err_matches(*old(ctx), e))
                    &&& (!old(ctx).call_blocked() ==> (self.expr() matches QpRepr::Cst(x)
                        && other.expr() matches QpRepr::Cst(y) && !fits(rv_mul(x.v(), y.v())))
                        && crate::context::op2_fail_recorded(
                        *old(ctx),
                        *final(ctx),
                        self.id(),
                        other.id(),
                        ISLErrorKind::Alloc,
                    ) && recorded_err_matches(e, ISLErrorKind::Alloc))
                },
            },
    {
        let cref = self.context_ref();
        let ghost ida = self.id@;
        let ghost idb = other.id@;
        let s = self.s;
        let ea = self.e;
        let eb = other.e;
        match ctx.consume2(Ghost(ida), Ghost(idb)) {
            Some(e) => Err(Error::IslError(e)),
            None => {
                let folded = match (&ea, &eb) {
                    (QpRepr::Cst(x), QpRepr::Cst(y)) => match repr_mul(*x, *y) {
                        Some(z) => Ok(Some(QpRepr::Cst(z))),
                        None => Err(()),
                    },
                    _ => Ok(None),
                };
                match folded {
                    Ok(Some(e2)) => {
                        let id = ctx.ledger_alloc();
                        Ok(QuasiPolynomial { ctx: cref, s, e: e2, id })
                    },
                    Ok(None) => {
                        let id = ctx.ledger_alloc();
                        Ok(
                            QuasiPolynomial {
                                ctx: cref,
                                s,
                                e: QpRepr::Mul(Box::new(ea), Box::new(eb)),
                                id,
                            },
                        )
                    },
                    Err(()) => Err(Error::IslError(ctx.fail_with(ISLErrorKind::Alloc))),
                }
            },
        }
    }
}


/// One term of the stored expression: a coefficient and at most one
/// variable, as the model's leaf enumeration reads them.
#[derive(Clone, Copy)]
pub struct TermRec {
    pub coeff: ValRepr,
    pub var: Option<(DimType, u32)>,
}

/// Negation of a stored coefficient.
pub open spec fn vneg(v: ValRepr) -> ValRepr {
    match v {
        ValRepr::Rat { num, den } => ValRepr::Rat { num: (-(num as int)) as i64, den },
        ValRepr::Nan => ValRepr::Nan,
        ValRepr::Infty => ValRepr::NegInfty,
        ValRepr::NegInfty => ValRepr::Infty,
    }
}

/// The model's term enumeration: the leaves of the expression, left to
/// right, a subtracted right operand carrying a negated sign.
pub open spec fn qp_terms_s(e: QpRepr, neg: bool) -> Seq<TermRec>
    decreases e,
{
    match e {
        QpRepr::Cst(c) => Seq::empty().push(
            TermRec {
                coeff: if neg {
                    vneg(c)
                } else {
                    c
                },
                var: None,
            },
        ),
        QpRepr::Var { dt, pos } => Seq::empty().push(
            TermRec {
                coeff: if neg {
                    ValRepr::Rat { num: -1i64, den: 1 }
                } else {
                    ValRepr::Rat { num: 1, den: 1 }
                },
                var: Some((dt, pos)),
            },
        ),
        QpRepr::Add(a, b) => qp_terms_s(*a, neg) + qp_terms_s(*b, neg),
        QpRepr::Sub(a, b) => qp_terms_s(*a, neg) + qp_terms_s(*b, !neg),
        QpRepr::Mul(a, b) => qp_terms_s(*a, neg) + qp_terms_s(*b, false),
        QpRepr::Div(a, b) => qp_terms_s(*a, neg) + qp_terms_s(*b, false),
    }
}

/// The terms of an expression.
pub open spec fn qp_terms(e: QpRepr) -> Seq<TermRec> {
    qp_terms_s(e, false)
}

/// Negation of a stored coefficient word.
fn neg_coeff(v: ValRepr) -> (r: ValRepr)
    ensures
        r == vneg(v),
{
    match v {
        ValRepr::Rat { num, den } => {
            let n2: i64 = if num == i64::MIN {
                proof {
                    assert((-(i64::MIN as int)) as i64 == i64::MIN) by (bit_vector);
                }
                i64::MIN
            } else {
                -num
            };
            ValRepr::Rat { num: n2, den }
        },
        ValRepr::Nan => ValRepr::Nan,
        ValRepr::Infty => ValRepr::NegInfty,
        ValRepr::NegInfty => ValRepr::Infty,
    }
}

/// Move all records of `more` onto the end of `acc`.
fn append_recs(acc: &mut Vec<TermRec>, more: Vec<TermRec>)
    ensures
        final(acc)@ == old(acc)@ + more@,
{
    let mut rest = more;
    let n0: usize = rest.len();
    let mut taken: usize = 0;
    while rest.len() > 0
        invariant
            taken + rest@.len() == n0,
            forall|k: int| 0 <= k < rest@.len() ==> rest@[k] == more@[taken + k],
            acc@.len() == old(acc)@.len() + taken,
            forall|k: int| 0 <= k < old(acc)@.len() ==> acc@[k] == old(acc)@[k],
            forall|k: int| 0 <= k < taken ==> acc@[old(acc)@.len() + k] == more@[k],
            more@.len() == n0,
        decreases rest@.len(),
    {
        let rec = rest.remove(0);
        acc.push(rec);
        taken = taken + 1;
    }
    proof {
        assert(acc@ =~= old(acc)@ + more@);
    }
}

/// Collect the term enumeration of an expression.
fn collect_terms(e: &QpRepr, neg: bool) -> (r: Vec<TermRec>)
    ensures
        r@ == qp_terms_s(*e, neg),
    decreases *e,
{
    match e {
        QpRepr::Cst(c) => {
            let coeff = if neg {
                neg_coeff(*c)
            } else {
                *c
            };
            let mut v: Vec<TermRec> = Vec::new();
            v.push(TermRec { coeff, var: None });
            v
        },
        QpRepr::Var { dt, pos } => {
            let coeff = if neg {
                ValRepr::Rat { num: -1, den: 1 }
            } else {
                ValRepr::Rat { num: 1, den: 1 }
            };
            let mut v: Vec<TermRec> = Vec::new();
            v.push(TermRec { coeff, var: Some((*dt, *pos)) });
            v
        },
        QpRepr::Add(a, b) => {
            let mut v = collect_terms(a, neg);
            let w = collect_terms(b, neg);
            append_recs(&mut v, w);
            v
        },
        QpRepr::Sub(a, b) => {
            let mut v = collect_terms(a, neg);
            let w = collect_terms(b, !neg);
            append_recs(&mut v, w);
            v
        },
        QpRepr::Mul(a, b) => {
            let mut v = collect_terms(a, neg);
            let w = collect_terms(b, false);
            append_recs(&mut v, w);
            v
        },
        QpRepr::Div(a, b) => {
            let mut v = collect_terms(a, neg);
            let w = collect_terms(b, false);
            append_recs(&mut v, w);
            v
        },
    }
}

/// An owned handle to one term of a quasi-polynomial's decomposition.
pub struct Term {
    pub(crate) ctx: ContextRef,
    pub(crate) s: SpaceRepr,
    pub(crate) coeff: ValRepr,
    pub(crate) var: Option<(DimType, u32)>,
    pub(crate) id: Ghost<nat>,
}

impl Term {
    pub open(crate) spec fn sv(&self) -> SpaceV {
        self.s.sv()
    }

    pub open(crate) spec fn coeff_of(&self) -> ValRepr {
        self.coeff
    }

    pub open(crate) spec fn var_of(&self) -> Option<(DimType, u32)> {
        self.var
    }

    pub open(crate) spec fn id(&self) -> nat {
        self.id@
    }

    pub open(crate) spec fn ctx_of(&self) -> ContextRef {
        self.ctx
    }

    pub fn context_ref(&self) -> (r: ContextRef)
        ensures
            r == self.ctx_of(),
    {
        self.ctx
    }

    /// The count of the given dimension kind, read as the polynomial's.
    pub fn dim(&self, dim_type: DimType) -> (r: Result<u32, Error>)
        requires
            self.sv().n_param + self.sv().n_in + self.sv().n_out <= u32::MAX,
        ensures
            r == Ok::<u32, Error>(
                match dim_type {
                    DimType::Param => self.sv().n_param,
                    DimType::In => ((self.sv().n_in + self.sv().n_out) as u32),
                    DimType::Out => 1u32,
                    _ => 0u32,
                },
            ),
    {
        Ok(
            match dim_type {
                DimType::Param => self.s.n_param,
                DimType::In => self.s.n_in + self.s.n_out,
                DimType::Out => 1,
                _ => 0,
            },
        )
    }

    /// The exponent of one dimension in this term: one on the term's own
    /// variable, zero elsewhere.
    pub fn exponent(&self, dim_type: DimType, pos: u32) -> (r: Result<u32, Error>)
        ensures
            r == Ok::<u32, Error>(
                if self.var_of() == Some((dim_type, pos)) {
                    1u32
                } else {
                    0u32
                },
            ),
    {
        match &self.var {
            Some((dt, p)) => {
                let dim_eq = match (dt, dim_type) {
                    (DimType::Cst, DimType::Cst) => true,
                    (DimType::Param, DimType::Param) => true,
                    (DimType::In, DimType::In) => true,
                    (DimType::Out, DimType::Out) => true,
                    (DimType::Div, DimType::Div) => true,
                    (DimType::All, DimType::All) => true,
                    _ => false,
                };
                if dim_eq && *p == pos {
                    Ok(1)
                } else {
                    Ok(0)
                }
            },
            None => Ok(0),
        }
    }

    /// The coefficient as a newly owned value.
    pub fn coefficient(&self, ctx: &mut Context) -> (r: Result<Value, Error>)
        requires
            old(ctx).wf(),
            self.coeff_of().wf(),
            old(ctx).allocs() < u64::MAX,
        ensures
            final(ctx).wf(),
            match r {
                Ok(v) => {
                    &&& alloc_one(*old(ctx), *final(ctx), v.id())
                    &&& v.repr() == self.coeff_of()
                    &&& v.ctx_of() == self.ctx_of()
                },
                Err(_) => false,
            },
    {
        let id = ctx.ledger_alloc();
        Ok(Value { ctx: self.ctx, v: self.coeff, id })
    }
}

/// The lent term matches one record of the enumeration, over the
/// polynomial's space and session.
pub open(crate) spec fn term_matches(t: Term, rec: TermRec, sp: SpaceV, cref: ContextRef) -> bool {
    &&& t.coeff == rec.coeff
    &&& t.var == rec.var
    &&& t.s.sv() == sp
    &&& t.ctx == cref
}

/// The first `k` callback invocations of a term walk: the states threaded
/// through, the terms lent, and an accepting result from each call.
pub open(crate) spec fn term_visits<S, F: Fn(S, &Term) -> (S, Result<(), Error>)>(
    f: F,
    init: S,
    terms: Seq<TermRec>,
    sp: SpaceV,
    cref: ContextRef,
    sts: Seq<S>,
    tms: Seq<Term>,
    k: int,
) -> bool {
    &&& 0 <= k <= terms.len()
    &&& sts.len() == k + 1
    &&& tms.len() == k
    &&& sts[0] == init
    &&& forall|i: int| 0 <= i < k ==> term_matches(#[trigger] tms[i], terms[i], sp, cref)
    &&& forall|i: int|
        0 <= i < k ==> call_ensures(f, (sts[i], &(#[trigger] tms[i])), (sts[i + 1], Ok::<
            (),
            Error,
        >(())))
}

impl QuasiPolynomial {
    /// Walk the polynomial's terms, lending each in order to the closure
    /// and threading a state value through the calls.  The walk stops at
    /// the first failing invocation and reports exactly that error; a
    /// foreign failure at the admission check is reported through the error-retrieval
    /// protocol before anything is visited.
    pub fn foreach_term<S, F: Fn(S, &Term) -> (S, Result<(), Error>)>(
        &self,
        state: S,
        f: F,
        ctx: &mut Context,
    ) -> (r: (S, Result<(), Error>))
        requires
            old(ctx).wf(),
            self.owned_by(*old(ctx)),
            old(ctx).allocs() + qp_terms(self.expr()).len() <= u64::MAX,
            forall|s: S, t: Term| #[trigger] call_requires(f, (s, &t)),
        ensures
            final(ctx).wf(),
            old(ctx).call_blocked() ==> call_refused(*old(ctx), *final(ctx)) && (r.1 matches Err(
                e,
            ) && refusal_err_matches(*old(ctx), e)),
            !old(ctx).call_blocked() ==> {
                &&& final(ctx).live() == old(ctx).live()
                &&& final(ctx).operations() == old(ctx).charged_ops()
                &&& final(ctx).slot() == old(ctx).slot()
                &&& final(ctx).injection() is None
                &&& final(ctx).ctx_ref() == old(ctx).ctx_ref()
                &&& final(ctx).max_operations() == old(ctx).max_operations()
                &&& match r.1 {
                    Ok(()) => {
                        &&& final(ctx).allocs() == old(ctx).allocs() + qp_terms(
                            self.expr(),
                        ).len()
                        &&& final(ctx).frees() == old(ctx).frees() + qp_terms(self.expr()).len()
                        &&& exists|sts: Seq<S>, tms: Seq<Term>|
                            term_visits(
                                f,
                                state,
                                qp_terms(self.expr()),
                                self.sv(),
                                self.ctx_of(),
                                sts,
                                tms,
                                qp_terms(self.expr()).len() as int,
                            ) && r.0 == sts[qp_terms(self.expr()).len() as int]
                    },
                    Err(e) => exists|sts: Seq<S>, tms: Seq<Term>, k: int|
                        {
                            &&& 0 <= k < qp_terms(self.expr()).len()
                            &&& term_visits(
                                f,
                                state,
                                qp_terms(self.expr()),
                                self.sv(),
                                self.ctx_of(),
                                sts,
                                tms,
                                k,
                            )
                            &&& exists|t: Term|
                                term_matches(
                                    t,
                                    qp_terms(self.expr())[k],
                                    self.sv(),
                                    self.ctx_of(),
                                ) && #[trigger] call_ensures(
                                    f,
                                    (sts[k], &t),
                                    (r.0, Err::<(), Error>(e)),
                                )
                            &&& final(ctx).allocs() == old(ctx).allocs() + k + 1
                            &&& final(ctx).frees() == old(ctx).frees() + k + 1
                        },
                }
            },
    {
        let ghost pre = *ctx;
        let cref = self.context_ref();
        let recs = collect_terms(&self.e, false);
        let ok = ctx.admit_call();
        if !ok {
            return (state, Err(Error::IslError(ctx.last_error_or_unknown())));
        }
        let ghost gpost = *ctx;
        let mut st = state;
        let ghost mut sts: Seq<S> = Seq::empty().push(state);
        let ghost mut tms: Seq<Term> = Seq::empty();
        let mut i: usize = 0;
        while i < recs.len()
            invariant
                ctx.wf(),
                pre == *old(ctx),
                cref == self.ctx_of(),
                i <= recs@.len(),
                recs@ == qp_terms(self.expr()),
                pre.allocs() + recs@.len() <= u64::MAX,
                !pre.call_blocked(),
                call_admitted(pre, gpost),
                ctx.live() == pre.live(),
                ctx.operations() == pre.charged_ops(),
                ctx.slot() == pre.slot(),
                ctx.injection() is None,
                ctx.ctx_ref() == pre.ctx_ref(),
                ctx.max_operations() == pre.max_operations(),
                ctx.allocs() == pre.allocs() + i,
                ctx.frees() == pre.frees() + i,
                self.owned_by(pre),
                term_visits(f, state, recs@, self.sv(), self.ctx_of(), sts, tms, i as int),
                sts.len() == i + 1,
                st == sts[i as int],
                forall|s: S, t: Term| #[trigger] call_requires(f, (s, &t)),
            decreases recs@.len() - i,
        {
            let rec = recs[i];
            let id = ctx.ledger_alloc();
            let t = Term { ctx: cref, s: self.s.clone_repr(), coeff: rec.coeff, var: rec.var, id };
            let ghost st_pre = st;
            let (st2, res) = f(st, &t);
            proof {
                assert(st_pre == sts[i as int]);
                assert(call_ensures(f, (st_pre, &t), (st2, res)));
            }
            let ghost tid = t.id@;
            ctx.ledger_free(Ghost(tid));
            proof {
                assert(ctx.live() =~= pre.live());
            }
            match res {
                Ok(u) => {
                    proof {
                        assert(term_matches(t, recs@[i as int], self.sv(), self.ctx_of()));
                        assert(u == ());
                        assert(res == Ok::<(), Error>(u));
                        sts = sts.push(st2);
                        tms = tms.push(t);
                    }
                    st = st2;
                    i = i + 1;
                },
                Err(e) => {
                    proof {
                        assert(term_matches(t, recs@[i as int], self.sv(), self.ctx_of()));
                    }
                    return (st2, Err(e));
                },
            }
        }
        (st, Ok(()))
    }
}


/// One piece of a piecewise quasi-polynomial: an expression with the
/// basic sets of its domain; the space is the whole object's.
pub struct PieceRec {
    pub e: QpRepr,
    pub dom: Vec<crate::sets::BsRec>,
}

/// The reading of one piece: its expression and its domain's basic sets.
pub struct PieceV {
    pub e: QpRepr,
    pub dom: Seq<Seq<crate::sets::ConRecV>>,
}

pub open spec fn pieces_v(v: Seq<PieceRec>) -> Seq<PieceV> {
    Seq::new(v.len(), |i: int| PieceV { e: v[i].e, dom: crate::sets::basics_v(v[i].dom@) })
}

/// An owned handle to a foreign piecewise quasi-polynomial object.
pub struct PiecewiseQuasiPolynomial {
    pub(crate) ctx: ContextRef,
    pub(crate) s: SpaceRepr,
    pub(crate) pieces: Vec<PieceRec>,
    pub(crate) id: Ghost<nat>,
}

impl PiecewiseQuasiPolynomial {
    pub open(crate) spec fn sv(&self) -> SpaceV {
        self.s.sv()
    }

    pub open(crate) spec fn pv(&self) -> Seq<PieceV> {
        pieces_v(self.pieces@)
    }

    pub open(crate) spec fn id(&self) -> nat {
        self.id@
    }

    pub open(crate) spec fn ctx_of(&self) -> ContextRef {
        self.ctx
    }

    pub open(crate) spec fn pwf(&self) -> bool {
        &&& self.s.n_param + self.s.n_in + self.s.n_out <= u32::MAX
        &&& forall|i: int| 0 <= i < self.pieces@.len() ==> (#[trigger] self.pieces@[i]).e.qwf()
        &&& self.pieces@.len() <= u32::MAX
    }

    pub open(crate) spec fn owned_by(&self, c: Context) -> bool {
        &&& self.ctx == c.ctx_ref()
        &&& c.live().contains(self.id@)
        &&& self.pwf()
    }

    pub fn context_ref(&self) -> (r: ContextRef)
        ensures
            r == self.ctx_of(),
    {
        self.ctx
    }

    /// Diagnostic print entry point; no observable effect.
    pub fn dump(&self) {
    }

    /// The everywhere-zero piecewise polynomial: no pieces at all.
    pub fn zero(space: Space, ctx: &mut Context) -> (r: Result<PiecewiseQuasiPolynomial, Error>)
        requires
            old(ctx).wf(),
            space.owned_by(*old(ctx)),
            old(ctx).allocs() < u64::MAX,
        ensures
            final(ctx).wf(),
            match r {
                Ok(p) => {
                    &&& op1_ok(*old(ctx), *final(ctx), space.id(), p.id())
                    &&& p.sv() == space.sv()
                    &&& p.pv().len() == 0
                    &&& p.ctx_of() == old(ctx).ctx_ref()
                    &&& p.owned_by(*final(ctx))
                },
                Err(e) => old(ctx).call_blocked() && op1_refused(
                    *old(ctx),
                    *final(ctx),
                    space.id(),
                ) && refusal_err_matches(*old(ctx), e),
            },
    {
        let cref = space.context_ref();
        let ghost ida = space.id@;
        let s = space.s;
        match ctx.consume1(Ghost(ida)) {
            Some(e) => Err(Error::IslError(e)),
            None => {
                let id = ctx.ledger_alloc();
                Ok(PiecewiseQuasiPolynomial { ctx: cref, s, pieces: Vec::new(), id })
            },
        }
    }

    /// The piecewise polynomial of one polynomial on its whole domain,
    /// which is consumed: one piece whose domain is the universe.
    pub fn try_from(qpoly: QuasiPolynomial, ctx: &mut Context) -> (r: Result<
        PiecewiseQuasiPolynomial,
        Error,
    >)
        requires
            old(ctx).wf(),
            qpoly.owned_by(*old(ctx)),
            old(ctx).allocs() < u64::MAX,
        ensures
            final(ctx).wf(),
            match r {
                Ok(p) => {
                    &&& op1_ok(*old(ctx), *final(ctx), qpoly.id(), p.id())
                    &&& p.sv() == qpoly.sv()
                    &&& p.pv().len() == 1
                    &&& p.pv()[0].e == qpoly.expr()
                    &&& p.pv()[0].dom.len() == 1 && p.pv()[0].dom[0].len() == 0
                    &&& p.ctx_of() == old(ctx).ctx_ref()
                    &&& p.owned_by(*final(ctx))
                },
                Err(e) => old(ctx).call_blocked() && op1_refused(
                    *old(ctx),
                    *final(ctx),
                    qpoly.id(),
                ) && refusal_err_matches(*old(ctx), e),
            },
    {
        let cref = qpoly.context_ref();
        let ghost ida = qpoly.id@;
        let s = qpoly.s;
        let e = qpoly.e;
        match ctx.consume1(Ghost(ida)) {
            Some(err) => Err(Error::IslError(err)),
            None => {
                let mut dom: Vec<crate::sets::BsRec> = Vec::new();
                dom.push(crate::sets::BsRec { cons: Vec::new() });
                let mut pieces: Vec<PieceRec> = Vec::new();
                pieces.push(PieceRec { e, dom });
                let id = ctx.ledger_alloc();
                Ok(PiecewiseQuasiPolynomial { ctx: cref, s, pieces, id })
            },
        }
    }

    /// Add a piecewise polynomial with a disjoint domain, consuming both:
    /// the pieces of both sides.
    pub fn add_disjoint(self, other: PiecewiseQuasiPolynomial, ctx: &mut Context) -> (r: Result<
        PiecewiseQuasiPolynomial,
        Error,
    >)
        requires
            old(ctx).wf(),
            self.owned_by(*old(ctx)),
            other.owned_by(*old(ctx)),
            self.id() != other.id(),
            old(ctx).allocs() < u64::MAX,
            self.pv().len() + other.pv().len() <= u32::MAX,
        ensures
            final(ctx).wf(),
            match r {
                Ok(p) => {
                    &&& crate::sets::space_compat(self.sv(), other.sv())
                    &&& op2_ok(*old(ctx), *final(ctx), self.id(), other.id(), p.id())
                    &&& p.sv() == self.sv()
                    &&& p.pv() == self.pv() + other.pv()
                    &&& p.ctx_of() == old(ctx).ctx_ref()
                    &&& p.owned_by(*final(ctx))
                },
                Err(e) => {
                    &&& (old(ctx).call_blocked() ==> op2_refused(
                        *old(ctx),
                        *final(ctx),
                        self.id(),
                        other.id(),
                    ) && refusal_err_matches(*old(ctx), e))
                    &&& (!old(ctx).call_blocked() ==> !crate::sets::space_compat(
                        self.sv(),
                        other.sv(),
                    ) && crate::context::op2_fail_recorded(
                        *old(ctx),
                        *final(ctx),
                        self.id(),
                        other.id(),
                        ISLErrorKind::Invalid,
                    ) && recorded_err_matches(e, ISLErrorKind::Invalid))
                },
            },
    {
        let ghost ida = self.id@;
        let ghost idb = other.id@;
        match ctx.consume2(Ghost(ida), Ghost(idb)) {
            Some(e) => Err(Error::IslError(e)),
            None => {
                if !crate::sets::space_compat_pub(&self.s, &other.s) {
                    return Err(Error::IslError(ctx.fail_with(ISLErrorKind::Invalid)));
                }
                let mut out = self;
                let mut rest = other.pieces;
                let ghost added: Seq<PieceRec> = rest@;
                let n0: usize = rest.len();
                let mut taken: usize = 0;
                while rest.len() > 0
                    invariant
                        taken + rest@.len() == added.len(),
                        added.len() == n0,
                        forall|k: int| 0 <= k < rest@.len() ==> rest@[k] == added[taken + k],
                        added == other.pieces@,
                        out.pieces@.len() == self.pieces@.len() + taken,
                        forall|k: int|
                            0 <= k < self.pieces@.len() ==> out.pieces@[k] == self.pieces@[k],
                        forall|k: int|
                            0 <= k < taken ==> out.pieces@[self.pieces@.len() + k] == added[k],
                        out.s == self.s,
                        out.ctx == self.ctx,
                    decreases rest@.len(),
                {
                    let rec = rest.remove(0);
                    out.pieces.push(rec);
                    taken = taken + 1;
                }
                let id = ctx.ledger_alloc();
                out.id = id;
                proof {
                    assert(out.pv() =~= self.pv() + other.pv());
                    assert forall|k: int|
                        0 <= k < out.pieces@.len() implies (#[trigger] out.pieces@[k]).e.qwf() by {
                        if k < self.pieces@.len() {
                            assert(out.pieces@[k] == self.pieces@[k]);
                            assert(self.pieces@[k].e.qwf());
                        } else {
                            assert(out.pieces@[k] == other.pieces@[k - self.pieces@.len()]);
                            assert(other.pieces@[k - self.pieces@.len()].e.qwf());
                        }
                    }
                }
                Ok(out)
            },
        }
    }

    /// How many pieces this piecewise polynomial has.
    pub fn num_pieces(&self) -> (r: Result<u32, Error>)
        requires
            self.pwf(),
        ensures
            r == Ok::<u32, Error>(self.pv().len() as u32),
    {
        Ok(self.pieces.len() as u32)
    }

    /// Whether this piecewise polynomial is stored with no pieces: the
    /// everywhere-zero function.
    pub fn is_zero(&self) -> (r: Result<bool, Error>)
        ensures
            r == Ok::<bool, Error>(self.pv().len() == 0),
    {
        Ok(self.pieces.len() == 0)
    }

    /// Whether any piece's expression holds a not-a-number constant.
    pub fn involves_nan(&self) -> (r: Result<bool, Error>)
        ensures
            r == Ok::<bool, Error>(
                exists|i: int|
                    0 <= i < self.pv().len() && (#[trigger] self.pv()[i].e).spec_has_nan(),
            ),
    {
        let mut i: usize = 0;
        while i < self.pieces.len()
            invariant
                i <= self.pieces@.len(),
                forall|k: int| 0 <= k < i ==> !(#[trigger] pieces_v(self.pieces@)[k].e).spec_has_nan(),
            decreases self.pieces@.len() - i,
        {
            if qp_has_nan(&self.pieces[i].e) {
                proof {
                    assert((self.pv()[i as int].e).spec_has_nan());
                }
                return Ok(true);
            }
            i = i + 1;
        }
        Ok(false)
    }

    /// The domain space, as a newly owned copy.
    pub fn get_domain_space(&self, ctx: &mut Context) -> (r: Result<Space, Error>)
        requires
            old(ctx).wf(),
            self.owned_by(*old(ctx)),
            old(ctx).allocs() < u64::MAX,
        ensures
            final(ctx).wf(),
            match r {
                Ok(sp) => {
                    &&& alloc_one(*old(ctx), *final(ctx), sp.id())
                    &&& sp.sv() == self.sv()
                    &&& sp.ctx_of() == self.ctx_of()
                    &&& sp.owned_by(*final(ctx))
                    &&& self.owned_by(*final(ctx))
                },
                Err(_) => false,
            },
    {
        let id = ctx.ledger_alloc();
        Ok(Space { ctx: self.ctx, s: self.s.clone_repr(), id })
    }

    /// The object's own space: its domain as inputs and one output.
    pub fn get_space(&self, ctx: &mut Context) -> (r: Result<Space, Error>)
        requires
            old(ctx).wf(),
            self.owned_by(*old(ctx)),
            old(ctx).allocs() < u64::MAX,
            self.sv().n_param + self.sv().n_in + self.sv().n_out < u32::MAX,
        ensures
            final(ctx).wf(),
            match r {
                Ok(sp) => {
                    &&& alloc_one(*old(ctx), *final(ctx), sp.id())
                    &&& sp.sv() == (SpaceV {
                        kind: crate::space::SpaceKind::MapSpace,
                        n_param: self.sv().n_param,
                        n_in: ((self.sv().n_in + self.sv().n_out) as u32),
                        n_out: 1u32,
                        in_name: None,
                        out_name: None,
                    })
                    &&& sp.ctx_of() == self.ctx_of()
                    &&& sp.owned_by(*final(ctx))
                    &&& self.owned_by(*final(ctx))
                },
                Err(_) => false,
            },
    {
        let id = ctx.ledger_alloc();
        Ok(
            Space {
                ctx: self.ctx,
                s: SpaceRepr {
                    kind: crate::space::SpaceKind::MapSpace,
                    n_param: self.s.n_param,
                    n_in: self.s.n_in + self.s.n_out,
                    n_out: 1,
                    in_name: None,
                    out_name: None,
                },
                id,
            },
        )
    }

    /// The foreign copy entry point.
    pub fn copy(&self, ctx: &mut Context) -> (r: PiecewiseQuasiPolynomial)
        requires
            old(ctx).wf(),
            self.owned_by(*old(ctx)),
            old(ctx).allocs() < u64::MAX,
        ensures
            final(ctx).wf(),
            alloc_one(*old(ctx), *final(ctx), r.id()),
            r.pv() == self.pv(),
            r.sv() == self.sv(),
            r.ctx_of() == self.ctx_of(),
            r.owned_by(*final(ctx)),
            self.owned_by(*final(ctx)),
    {
        let id = ctx.ledger_alloc();
        let mut pieces: Vec<PieceRec> = Vec::new();
        let mut i: usize = 0;
        while i < self.pieces.len()
            invariant
                i <= self.pieces@.len(),
                pieces@.len() == i,
                forall|k: int|
                    0 <= k < i ==> (#[trigger] pieces@[k]).e == self.pieces@[k].e
                        && crate::sets::basics_v(pieces@[k].dom@) == crate::sets::basics_v(
                        self.pieces@[k].dom@,
                    ),
            decreases self.pieces@.len() - i,
        {
            let p = PieceRec {
                e: clone_qp_pub(&self.pieces[i].e),
                dom: crate::sets::clone_basics(&self.pieces[i].dom),
            };
            pieces.push(p);
            i = i + 1;
        }
        let r = PiecewiseQuasiPolynomial { ctx: self.ctx, s: self.s.clone_repr(), pieces, id };
        proof {
            assert(r.pv() =~= self.pv());
        }
        r
    }

    /// Destroy the foreign object behind this handle.
    pub fn free(self, ctx: &mut Context)
        requires
            old(ctx).wf(),
            self.owned_by(*old(ctx)),
        ensures
            final(ctx).wf(),
            free_one(*old(ctx), *final(ctx), self.id()),
    {
        ctx.ledger_free(Ghost(self.id@));
    }
}

/// The lent piece handles match one piece of the decomposition, over the
/// whole object's space and session.
pub open(crate) spec fn piece_matches(
    q: QuasiPolynomial,
    dom: crate::sets::IslSet,
    p: PieceV,
    sp: SpaceV,
    cref: ContextRef,
) -> bool {
    &&& q.e == p.e
    &&& q.s.sv() == sp
    &&& q.ctx == cref
    &&& crate::sets::basics_v(dom.basics@) == p.dom
    &&& dom.s.sv() == sp
    &&& dom.ctx == cref
}

/// The first `k` callback invocations of a piece walk.
pub open(crate) spec fn piece_visits<
    S,
    F: Fn(S, &QuasiPolynomial, &crate::sets::IslSet) -> (S, Result<(), Error>),
>(
    f: F,
    init: S,
    pieces: Seq<PieceV>,
    sp: SpaceV,
    cref: ContextRef,
    sts: Seq<S>,
    qs: Seq<QuasiPolynomial>,
    ds: Seq<crate::sets::IslSet>,
    k: int,
) -> bool {
    &&& 0 <= k <= pieces.len()
    &&& sts.len() == k + 1
    &&& qs.len() == k
    &&& ds.len() == k
    &&& sts[0] == init
    &&& forall|i: int| 0 <= i < k ==> piece_matches(#[trigger] qs[i], ds[i], pieces[i], sp, cref)
    &&& forall|i: int|
        0 <= i < k ==> call_ensures(f, (sts[i], &(#[trigger] qs[i]), &ds[i]), (sts[i + 1], Ok::<
            (),
            Error,
        >(())))
}

impl PiecewiseQuasiPolynomial {
    /// Walk the pieces, lending each piece's polynomial and domain in
    /// order to the closure and threading a state value through the
    /// calls.  The walk stops at the first failing invocation and reports
    /// exactly that error; a foreign failure at the admission check is reported
    /// through the error-retrieval protocol before anything is visited.
    pub fn foreach_piece<
        S,
        F: Fn(S, &QuasiPolynomial, &crate::sets::IslSet) -> (S, Result<(), Error>),
    >(&self, state: S, f: F, ctx: &mut Context) -> (r: (S, Result<(), Error>))
        requires
            old(ctx).wf(),
            self.owned_by(*old(ctx)),
            old(ctx).allocs() + 2 * self.pv().len() <= u64::MAX,
            forall|s: S, q: QuasiPolynomial, d: crate::sets::IslSet|
                #[trigger] call_requires(f, (s, &q, &d)),
        ensures
            final(ctx).wf(),
            old(ctx).call_blocked() ==> call_refused(*old(ctx), *final(ctx)) && (r.1 matches Err(e)
                && refusal_err_matches(*old(ctx), e)),
            !old(ctx).call_blocked() ==> {
                &&& final(ctx).live() == old(ctx).live()
                &&& final(ctx).operations() == old(ctx).charged_ops()
                &&& final(ctx).slot() == old(ctx).slot()
                &&& final(ctx).injection() is None
                &&& final(ctx).ctx_ref() == old(ctx).ctx_ref()
                &&& final(ctx).max_operations() == old(ctx).max_operations()
                &&& match r.1 {
                    Ok(()) => {
                        &&& final(ctx).allocs() == old(ctx).allocs() + 2 * self.pv().len()
                        &&& final(ctx).frees() == old(ctx).frees() + 2 * self.pv().len()
                        &&& exists|
                            sts: Seq<S>,
                            qs: Seq<QuasiPolynomial>,
                            ds: Seq<crate::sets::IslSet>,
                        |
                            piece_visits(
                                f,
                                state,
                                self.pv(),
                                self.sv(),
                                self.ctx_of(),
                                sts,
                                qs,
                                ds,
                                self.pv().len() as int,
                            ) && r.0 == sts[self.pv().len() as int]
                    },
                    Err(e) => exists|
                        sts: Seq<S>,
                        qs: Seq<QuasiPolynomial>,
                        ds: Seq<crate::sets::IslSet>,
                        k: int,
                    |
                        {
                            &&& 0 <= k < self.pv().len()
                            &&& piece_visits(
                                f,
                                state,
                                self.pv(),
                                self.sv(),
                                self.ctx_of(),
                                sts,
                                qs,
                                ds,
                                k,
                            )
                            &&& exists|q: QuasiPolynomial, d: crate::sets::IslSet|
                                piece_matches(q, d, self.pv()[k], self.sv(), self.ctx_of())
                                    && #[trigger] call_ensures(
                                    f,
                                    (sts[k], &q, &d),
                                    (r.0, Err::<(), Error>(e)),
                                )
                            &&& final(ctx).allocs() == old(ctx).allocs() + 2 * k + 2
                            &&& final(ctx).frees() == old(ctx).frees() + 2 * k + 2
                        },
                }
            },
    {
        let ghost pre = *ctx;
        let cref = self.context_ref();
        let ok = ctx.admit_call();
        if !ok {
            return (state, Err(Error::IslError(ctx.last_error_or_unknown())));
        }
        let mut st = state;
        let ghost mut sts: Seq<S> = Seq::empty().push(state);
        let ghost mut qs: Seq<QuasiPolynomial> = Seq::empty();
        let ghost mut ds: Seq<crate::sets::IslSet> = Seq::empty();
        let mut i: usize = 0;
        while i < self.pieces.len()
            invariant
                ctx.wf(),
                pre == *old(ctx),
                cref == self.ctx_of(),
                i <= self.pieces@.len(),
                pre.allocs() + 2 * self.pieces@.len() <= u64::MAX,
                !pre.call_blocked(),
                ctx.live() == pre.live(),
                ctx.operations() == pre.charged_ops(),
                ctx.slot() == pre.slot(),
                ctx.injection() is None,
                ctx.ctx_ref() == pre.ctx_ref(),
                ctx.max_operations() == pre.max_operations(),
                ctx.allocs() == pre.allocs() + 2 * i,
                ctx.frees() == pre.frees() + 2 * i,
                self.owned_by(pre),
                piece_visits(f, state, self.pv(), self.sv(), self.ctx_of(), sts, qs, ds, i as int),
                sts.len() == i + 1,
                st == sts[i as int],
                forall|s: S, q: QuasiPolynomial, d: crate::sets::IslSet|
                    #[trigger] call_requires(f, (s, &q, &d)),
            decreases self.pieces@.len() - i,
        {
            let idq = ctx.ledger_alloc();
            let q = QuasiPolynomial {
                ctx: cref,
                s: self.s.clone_repr(),
                e: clone_qp_pub(&self.pieces[i].e),
                id: idq,
            };
            let idd = ctx.ledger_alloc();
            let d = crate::sets::IslSet {
                ctx: cref,
                s: self.s.clone_repr(),
                basics: crate::sets::clone_basics(&self.pieces[i].dom),
                p_names: crate::sets::blank_name_row_pub(self.s.n_param),
                o_names: crate::sets::blank_name_row_pub(self.s.n_out),
                id: idd,
            };
            let ghost st_pre = st;
            let (st2, res) = f(st, &q, &d);
            proof {
                assert(st_pre == sts[i as int]);
                assert(call_ensures(f, (st_pre, &q, &d), (st2, res)));
            }
            let ghost qid = q.id@;
            let ghost did = d.id@;
            ctx.ledger_free(Ghost(qid));
            ctx.ledger_free(Ghost(did));
            proof {
                assert(ctx.live() =~= pre.live());
                assert(piece_matches(q, d, self.pv()[i as int], self.sv(), self.ctx_of()));
            }
            match res {
                Ok(u) => {
                    proof {
                        assert(u == ());
                        assert(res == Ok::<(), Error>(u));
                        sts = sts.push(st2);
                        qs = qs.push(q);
                        ds = ds.push(d);
                    }
                    st = st2;
                    i = i + 1;
                },
                Err(e) => {
                    return (st2, Err(e));
                },
            }
        }
        (st, Ok(()))
    }

    /// Walk the lifted pieces.  Without divisor dimensions lifting is the
    /// identity, so this walks the same decomposition as the piece walk.
    pub fn foreach_lifted_piece<
        S,
        F: Fn(S, &QuasiPolynomial, &crate::sets::IslSet) -> (S, Result<(), Error>),
    >(&self, state: S, f: F, ctx: &mut Context) -> (r: (S, Result<(), Error>))
        requires
            old(ctx).wf(),
            self.owned_by(*old(ctx)),
            old(ctx).allocs() + 2 * self.pv().len() <= u64::MAX,
            forall|s: S, q: QuasiPolynomial, d: crate::sets::IslSet|
                #[trigger] call_requires(f, (s, &q, &d)),
        ensures
            final(ctx).wf(),
            old(ctx).call_blocked() ==> call_refused(*old(ctx), *final(ctx)) && (r.1 matches Err(e)
                && refusal_err_matches(*old(ctx), e)),
            !old(ctx).call_blocked() ==> {
                &&& final(ctx).live() == old(ctx).live()
                &&& final(ctx).operations() == old(ctx).charged_ops()
                &&& final(ctx).slot() == old(ctx).slot()
                &&& final(ctx).injection() is None
                &&& final(ctx).ctx_ref() == old(ctx).ctx_ref()
                &&& final(ctx).max_operations() == old(ctx).max_operations()
                &&& match r.1 {
                    Ok(()) => {
                        &&& final(ctx).allocs() == old(ctx).allocs() + 2 * self.pv().len()
                        &&& final(ctx).frees() == old(ctx).frees() + 2 * self.pv().len()
                        &&& exists|
                            sts: Seq<S>,
                            qs: Seq<QuasiPolynomial>,
                            ds: Seq<crate::sets::IslSet>,
                        |
                            piece_visits(
                                f,
                                state,
                                self.pv(),
                                self.sv(),
                                self.ctx_of(),
                                sts,
                                qs,
                                ds,
                                self.pv().len() as int,
                            ) && r.0 == sts[self.pv().len() as int]
                    },
                    Err(e) => exists|
                        sts: Seq<S>,
                        qs: Seq<QuasiPolynomial>,
                        ds: Seq<crate::sets::IslSet>,
                        k: int,
                    |
                        {
                            &&& 0 <= k < self.pv().len()
                            &&& piece_visits(
                                f,
                                state,
                                self.pv(),
                                self.sv(),
                                self.ctx_of(),
                                sts,
                                qs,
                                ds,
                                k,
                            )
                            &&& exists|q: QuasiPolynomial, d: crate::sets::IslSet|
                                piece_matches(q, d, self.pv()[k], self.sv(), self.ctx_of())
                                    && #[trigger] call_ensures(
                                    f,
                                    (sts[k], &q, &d),
                                    (r.0, Err::<(), Error>(e)),
                                )
                            &&& final(ctx).allocs() == old(ctx).allocs() + 2 * k + 2
                            &&& final(ctx).frees() == old(ctx).frees() + 2 * k + 2
                        },
                }
            },
    {
        self.foreach_piece(state, f, ctx)
    }
}


/// The first `k` callback invocations of an every-piece test: each call
/// accepted its piece, answering true.
pub open(crate) spec fn every_visits<
    S,
    F: Fn(S, &QuasiPolynomial, &crate::sets::IslSet) -> (S, Result<bool, Error>),
>(
    f: F,
    init: S,
    pieces: Seq<PieceV>,
    sp: SpaceV,
    cref: ContextRef,
    sts: Seq<S>,
    qs: Seq<QuasiPolynomial>,
    ds: Seq<crate::sets::IslSet>,
    k: int,
) -> bool {
    &&& 0 <= k <= pieces.len()
    &&& sts.len() == k + 1
    &&& qs.len() == k
    &&& ds.len() == k
    &&& sts[0] == init
    &&& forall|i: int| 0 <= i < k ==> piece_matches(#[trigger] qs[i], ds[i], pieces[i], sp, cref)
    &&& forall|i: int|
        0 <= i < k ==> call_ensures(f, (sts[i], &(#[trigger] qs[i]), &ds[i]), (sts[i + 1], Ok::<
            bool,
            Error,
        >(true)))
}

impl PiecewiseQuasiPolynomial {
    /// Test a predicate over every piece, lending each piece's polynomial
    /// and domain in order and threading a state value through the calls.
    /// The walk stops at the first piece the predicate rejects, answering
    /// false, and at the first failing invocation, reporting exactly that
    /// error; a foreign failure at the admission check is reported
    /// through the error-retrieval protocol before anything is visited.
    pub fn every_piece<
        S,
        F: Fn(S, &QuasiPolynomial, &crate::sets::IslSet) -> (S, Result<bool, Error>),
    >(&self, state: S, f: F, ctx: &mut Context) -> (r: (S, Result<bool, Error>))
        requires
            old(ctx).wf(),
            self.owned_by(*old(ctx)),
            old(ctx).allocs() + 2 * self.pv().len() <= u64::MAX,
            forall|s: S, q: QuasiPolynomial, d: crate::sets::IslSet|
                #[trigger] call_requires(f, (s, &q, &d)),
        ensures
            final(ctx).wf(),
            old(ctx).call_blocked() ==> call_refused(*old(ctx), *final(ctx)) && (r.1 matches Err(
                e,
            ) && refusal_err_matches(*old(ctx), e)),
            !old(ctx).call_blocked() ==> {
                &&& final(ctx).live() == old(ctx).live()
                &&& final(ctx).operations() == old(ctx).charged_ops()
                &&& final(ctx).slot() == old(ctx).slot()
                &&& final(ctx).injection() is None
                &&& final(ctx).ctx_ref() == old(ctx).ctx_ref()
                &&& final(ctx).max_operations() == old(ctx).max_operations()
                &&& match r.1 {
                    Ok(true) => {
                        &&& final(ctx).allocs() == old(ctx).allocs() + 2 * self.pv().len()
                        &&& final(ctx).frees() == old(ctx).frees() + 2 * self.pv().len()
                        &&& exists|
                            sts: Seq<S>,
                            qs: Seq<QuasiPolynomial>,
                            ds: Seq<crate::sets::IslSet>,
                        |
                            every_visits(
                                f,
                                state,
                                self.pv(),
                                self.sv(),
                                self.ctx_of(),
                                sts,
                                qs,
                                ds,
                                self.pv().len() as int,
                            ) && r.0 == sts[self.pv().len() as int]
                    },
                    Ok(false) => exists|
                        sts: Seq<S>,
                        qs: Seq<QuasiPolynomial>,
                        ds: Seq<crate::sets::IslSet>,
                        k: int,
                    |
                        {
                            &&& 0 <= k < self.pv().len()
                            &&& every_visits(
                                f,
                                state,
                                self.pv(),
                                self.sv(),
                                self.ctx_of(),
                                sts,
                                qs,
                                ds,
                                k,
                            )
                            &&& exists|q: QuasiPolynomial, d: crate::sets::IslSet|
                                piece_matches(q, d, self.pv()[k], self.sv(), self.ctx_of())
                                    && #[trigger] call_ensures(
                                    f,
                                    (sts[k], &q, &d),
                                    (r.0, Ok::<bool, Error>(false)),
                                )
                            &&& final(ctx).allocs() == old(ctx).allocs() + 2 * k + 2
                            &&& final(ctx).frees() == old(ctx).frees() + 2 * k + 2
                        },
                    Err(e) => exists|
                        sts: Seq<S>,
                        qs: Seq<QuasiPolynomial>,
                        ds: Seq<crate::sets::IslSet>,
                        k: int,
                    |
                        {
                            &&& 0 <= k < self.pv().len()
                            &&& every_visits(
                                f,
                                state,
                                self.pv(),
                                self.sv(),
                                self.ctx_of(),
                                sts,
                                qs,
                                ds,
                                k,
                            )
                            &&& exists|q: QuasiPolynomial, d: crate::sets::IslSet|
                                piece_matches(q, d, self.pv()[k], self.sv(), self.ctx_of())
                                    && #[trigger] call_ensures(
                                    f,
                                    (sts[k], &q, &d),
                                    (r.0, Err::<bool, Error>(e)),
                                )
                            &&& final(ctx).allocs() == old(ctx).allocs() + 2 * k + 2
                            &&& final(ctx).frees() == old(ctx).frees() + 2 * k + 2
                        },
                }
            },
    {
        let ghost pre = *ctx;
        let cref = self.context_ref();
        let ok = ctx.admit_call();
        if !ok {
            return (state, Err(Error::IslError(ctx.last_error_or_unknown())));
        }
        let mut st = state;
        let ghost mut sts: Seq<S> = Seq::empty().push(state);
        let ghost mut qs: Seq<QuasiPolynomial> = Seq::empty();
        let ghost mut ds: Seq<crate::sets::IslSet> = Seq::empty();
        let mut i: usize = 0;
        while i < self.pieces.len()
            invariant
                ctx.wf(),
                pre == *old(ctx),
                cref == self.ctx_of(),
                i <= self.pieces@.len(),
                pre.allocs() + 2 * self.pieces@.len() <= u64::MAX,
                !pre.call_blocked(),
                ctx.live() == pre.live(),
                ctx.operations() == pre.charged_ops(),
                ctx.slot() == pre.slot(),
                ctx.injection() is None,
                ctx.ctx_ref() == pre.ctx_ref(),
                ctx.max_operations() == pre.max_operations(),
                ctx.allocs() == pre.allocs() + 2 * i,
                ctx.frees() == pre.frees() + 2 * i,
                self.owned_by(pre),
                every_visits(f, state, self.pv(), self.sv(), self.ctx_of(), sts, qs, ds, i as int),
                sts.len() == i + 1,
                st == sts[i as int],
                forall|s: S, q: QuasiPolynomial, d: crate::sets::IslSet|
                    #[trigger] call_requires(f, (s, &q, &d)),
            decreases self.pieces@.len() - i,
        {
            let idq = ctx.ledger_alloc();
            let q = QuasiPolynomial {
                ctx: cref,
                s: self.s.clone_repr(),
                e: clone_qp_pub(&self.pieces[i].e),
                id: idq,
            };
            let idd = ctx.ledger_alloc();
            let d = crate::sets::IslSet {
                ctx: cref,
                s: self.s.clone_repr(),
                basics: crate::sets::clone_basics(&self.pieces[i].dom),
                p_names: crate::sets::blank_name_row_pub(self.s.n_param),
                o_names: crate::sets::blank_name_row_pub(self.s.n_out),
                id: idd,
            };
            let ghost st_pre = st;
            let (st2, res) = f(st, &q, &d);
            proof {
                assert(st_pre == sts[i as int]);
                assert(call_ensures(f, (st_pre, &q, &d), (st2, res)));
            }
            let ghost qid = q.id@;
            let ghost did = d.id@;
            ctx.ledger_free(Ghost(qid));
            ctx.ledger_free(Ghost(did));
            proof {
                assert(ctx.live() =~= pre.live());
                assert(piece_matches(q, d, self.pv()[i as int], self.sv(), self.ctx_of()));
            }
            match res {
                Ok(keep) => {
                    if keep {
                        proof {
                            assert(res == Ok::<bool, Error>(true));
                            sts = sts.push(st2);
                            qs = qs.push(q);
                            ds = ds.push(d);
                        }
                        st = st2;
                        i = i + 1;
                    } else {
                        proof {
                            assert(res == Ok::<bool, Error>(false));
                        }
                        return (st2, Ok(false));
                    }
                },
                Err(e) => {
                    return (st2, Err(e));
                },
            }
        }
        (st, Ok(true))
    }
}

} // verus!



