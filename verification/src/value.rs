//! The owned handle for the foreign library's arbitrary-precision number
//! objects.
//!
//! A `Value` belongs to the context that created it.  Constructors enter a
//! fresh object into the context's ledger; `free` retires it exactly once;
//! consuming operations take their arguments by value — the foreign call
//! destroys them whether or not it succeeds — and either wrap the
//! non-null result as a new owned handle or read the typed error from the
//! context reference captured before the arguments were consumed.

use vstd::prelude::*;
use vstd::string::StringSliceAdditionalSpecFns;

use crate::context::{
    alloc_one, ctor_fail_recorded, ctor_ok, free_one, free_two, refusal_err_matches, call_refused,
    call_admitted, nonnull_or_alloc_error, op1_fail_recorded, op1_refused, op1_ok,
    op2_fail_recorded, op2_refused, op2_ok, op2_ok3, recorded_err_matches, xform1, xform2,
    Context, ContextRef,
};
use crate::error::{Error, ISLErrorKind};
use crate::rat::{
    abs_i, lemma_norm_fits, norm_frac, norm_from_parts, wide_mul_full, fits, repr_abs, repr_add, repr_ceil, repr_div, repr_eq, repr_exp2, repr_floor,
    repr_gcd, repr_inv, repr_lt, repr_mod, repr_mul, repr_neg, repr_sub, repr_trunc, exgcd_mag,
    exgcd_spec, gcd_nat, rv_abs, rv_add, rv_ceil, rv_div, rv_eq, rv_exp2, rv_floor, rv_gcd,
    rv_inv, rv_is_int, rv_lt, rv_mod, rv_mul, rv_neg, rv_sign, rv_sub, rv_trunc, RatV, ValRepr,
};

verus! {

/// An owned handle to a foreign number object.
pub struct Value {
    pub(crate) ctx: ContextRef,
    pub(crate) v: ValRepr,
    pub(crate) id: Ghost<nat>,
}

impl Value {
    /// The stored word pattern of this number.
    pub open(crate) spec fn repr(self) -> ValRepr {
        self.v
    }

    /// The mathematical value of this number.
    pub open(crate) spec fn val(self) -> RatV {
        self.v.v()
    }

    /// The ledger identity of the foreign object behind this handle.
    pub open(crate) spec fn id(self) -> nat {
        self.id@
    }

    /// The session this handle belongs to.
    pub open(crate) spec fn ctx_of(self) -> ContextRef {
        self.ctx
    }

    /// This handle is a live object of the given session.
    pub open(crate) spec fn owned_by(self, c: Context) -> bool {
        &&& self.ctx == c.ctx_ref()
        &&& c.live().contains(self.id@)
        &&& self.v.wf()
    }

    /// The context reference of the session that owns this value, read
    /// from the object itself.
    pub fn context_ref(&self) -> (r: ContextRef)
        ensures
            r == self.ctx_of(),
    {
        self.ctx
    }

    /// Diagnostic print entry point; it has no observable effect on the
    /// session.
    pub fn dump(&self) {
    }

    /// Destroy the foreign object behind this handle.  Taking the handle
    /// by value makes a second free of the same owner impossible.
    pub fn free(self, ctx: &mut Context)
        requires
            old(ctx).wf(),
            self.owned_by(*old(ctx)),
        ensures
            final(ctx).wf(),
            free_one(*old(ctx), *final(ctx), self.id()),
    {
        ctx.ledger_free(Ghost(self.id@));
    }

    /// The foreign copy entry point: a second, independently owned handle
    /// to an equal number.
    pub fn copy(&self, ctx: &mut Context) -> (r: Value)
        requires
            old(ctx).wf(),
            self.owned_by(*old(ctx)),
            old(ctx).allocs() < u64::MAX,
        ensures
            final(ctx).wf(),
            alloc_one(*old(ctx), *final(ctx), r.id()),
            r.repr() == self.repr(),
            r.ctx_of() == self.ctx_of(),
            r.owned_by(*final(ctx)),
            self.owned_by(*final(ctx)),
    {
        let id = ctx.ledger_alloc();
        Value { ctx: self.ctx, v: self.v, id }
    }
}

/// One infallible constructor body: enter a fresh object with the given
/// payload into the ledger.
fn new_raw(ctx: &mut Context, v: ValRepr) -> (r: Value)
    requires
        old(ctx).wf(),
        old(ctx).allocs() < u64::MAX,
        v.wf(),
    ensures
        final(ctx).wf(),
        alloc_one(*old(ctx), *final(ctx), r.id()),
        r.repr() == v,
        r.ctx_of() == old(ctx).ctx_ref(),
        r.owned_by(*final(ctx)),
{
    let cref = ctx.context_ref();
    let id = ctx.ledger_alloc();
    Value { ctx: cref, v, id }
}

impl Value {
    /// The integer zero.
    pub fn new_zero(ctx: &mut Context) -> (r: Value)
        requires
            old(ctx).wf(),
            old(ctx).allocs() < u64::MAX,
        ensures
            final(ctx).wf(),
            alloc_one(*old(ctx), *final(ctx), r.id()),
            r.repr() == (ValRepr::Rat { num: 0, den: 1 }),
            r.ctx_of() == old(ctx).ctx_ref(),
            r.owned_by(*final(ctx)),
    {
        new_raw(ctx, ValRepr::Rat { num: 0, den: 1 })
    }

    /// The integer one.
    pub fn new_one(ctx: &mut Context) -> (r: Value)
        requires
            old(ctx).wf(),
            old(ctx).allocs() < u64::MAX,
        ensures
            final(ctx).wf(),
            alloc_one(*old(ctx), *final(ctx), r.id()),
            r.repr() == (ValRepr::Rat { num: 1, den: 1 }),
            r.ctx_of() == old(ctx).ctx_ref(),
            r.owned_by(*final(ctx)),
    {
        new_raw(ctx, ValRepr::Rat { num: 1, den: 1 })
    }

    /// The integer minus one.
    pub fn new_negone(ctx: &mut Context) -> (r: Value)
        requires
            old(ctx).wf(),
            old(ctx).allocs() < u64::MAX,
        ensures
            final(ctx).wf(),
            alloc_one(*old(ctx), *final(ctx), r.id()),
            r.repr() == (ValRepr::Rat { num: -1i64, den: 1 }),
            r.ctx_of() == old(ctx).ctx_ref(),
            r.owned_by(*final(ctx)),
    {
        new_raw(ctx, ValRepr::Rat { num: -1, den: 1 })
    }

    /// Not-a-number.
    pub fn new_nan(ctx: &mut Context) -> (r: Value)
        requires
            old(ctx).wf(),
            old(ctx).allocs() < u64::MAX,
        ensures
            final(ctx).wf(),
            alloc_one(*old(ctx), *final(ctx), r.id()),
            r.repr() == ValRepr::Nan,
            r.ctx_of() == old(ctx).ctx_ref(),
            r.owned_by(*final(ctx)),
    {
        new_raw(ctx, ValRepr::Nan)
    }

    /// Positive infinity.
    pub fn new_infty(ctx: &mut Context) -> (r: Value)
        requires
            old(ctx).wf(),
            old(ctx).allocs() < u64::MAX,
        ensures
            final(ctx).wf(),
            alloc_one(*old(ctx), *final(ctx), r.id()),
            r.repr() == ValRepr::Infty,
            r.ctx_of() == old(ctx).ctx_ref(),
            r.owned_by(*final(ctx)),
    {
        new_raw(ctx, ValRepr::Infty)
    }

    /// Negative infinity.
    pub fn new_neg_infty(ctx: &mut Context) -> (r: Value)
        requires
            old(ctx).wf(),
            old(ctx).allocs() < u64::MAX,
        ensures
            final(ctx).wf(),
            alloc_one(*old(ctx), *final(ctx), r.id()),
            r.repr() == ValRepr::NegInfty,
            r.ctx_of() == old(ctx).ctx_ref(),
            r.owned_by(*final(ctx)),
    {
        new_raw(ctx, ValRepr::NegInfty)
    }

    /// An integer from a signed word.
    pub fn new_si(ctx: &mut Context, value: i64) -> (r: Value)
        requires
            old(ctx).wf(),
            old(ctx).allocs() < u64::MAX,
            value > i64::MIN,
        ensures
            final(ctx).wf(),
            alloc_one(*old(ctx), *final(ctx), r.id()),
            r.repr() == (ValRepr::Rat { num: value, den: 1 }),
            r.ctx_of() == old(ctx).ctx_ref(),
            r.owned_by(*final(ctx)),
    {
        new_raw(ctx, ValRepr::Rat { num: value, den: 1 })
    }

    /// An integer from an unsigned word.
    pub fn new_ui(ctx: &mut Context, value: u64) -> (r: Value)
        requires
            old(ctx).wf(),
            old(ctx).allocs() < u64::MAX,
            value <= i64::MAX as u64,
        ensures
            final(ctx).wf(),
            alloc_one(*old(ctx), *final(ctx), r.id()),
            r.repr() == (ValRepr::Rat { num: value as i64, den: 1 }),
            r.ctx_of() == old(ctx).ctx_ref(),
            r.owned_by(*final(ctx)),
    {
        new_raw(ctx, ValRepr::Rat { num: value as i64, den: 1 })
    }

    /// The numerator of a rational value; zero for the special values.
    pub fn numerator(&self) -> (r: i64)
        ensures
            r == (match self.repr() {
                ValRepr::Rat { num, den } => num,
                _ => 0i64,
            }),
    {
        match self.v {
            ValRepr::Rat { num, den: _ } => num,
            _ => 0,
        }
    }

    /// The denominator of a rational value; zero for the special values.
    pub fn denominator(&self) -> (r: i64)
        ensures
            r == (match self.repr() {
                ValRepr::Rat { num, den } => den,
                _ => 0i64,
            }),
    {
        match self.v {
            ValRepr::Rat { num: _, den } => den,
            _ => 0,
        }
    }

    /// The denominator as a newly owned value; one for the special values,
    /// matching the foreign convention.
    pub fn denominator_value(&self, ctx: &mut Context) -> (r: Value)
        requires
            old(ctx).wf(),
            self.owned_by(*old(ctx)),
            old(ctx).allocs() < u64::MAX,
        ensures
            final(ctx).wf(),
            alloc_one(*old(ctx), *final(ctx), r.id()),
            r.repr() == (match self.repr() {
                ValRepr::Rat { num, den } => ValRepr::Rat { num: den, den: 1 },
                _ => ValRepr::Rat { num: 1, den: 1 },
            }),
            r.ctx_of() == old(ctx).ctx_ref(),
            r.owned_by(*final(ctx)),
    {
        let v = match self.v {
            ValRepr::Rat { num: _, den } => ValRepr::Rat { num: den, den: 1 },
            _ => ValRepr::Rat { num: 1, den: 1 },
        };
        new_raw(ctx, v)
    }

    /// Whether this value is the integer zero.
    pub fn is_zero(&self) -> (r: Option<bool>)
        requires
            self.repr().wf(),
        ensures
            r == Some(rv_eq(self.val(), RatV::Num { n: 0, d: 1 })),
    {
        Some(repr_eq(self.v, ValRepr::Rat { num: 0, den: 1 }))
    }

    /// Whether this value is the integer one.
    pub fn is_one(&self) -> (r: Option<bool>)
        requires
            self.repr().wf(),
        ensures
            r == Some(rv_eq(self.val(), RatV::Num { n: 1, d: 1 })),
    {
        Some(repr_eq(self.v, ValRepr::Rat { num: 1, den: 1 }))
    }

    /// Whether this value is the integer minus one.
    pub fn is_negone(&self) -> (r: Option<bool>)
        requires
            self.repr().wf(),
        ensures
            r == Some(rv_eq(self.val(), RatV::Num { n: -1, d: 1 })),
    {
        Some(repr_eq(self.v, ValRepr::Rat { num: -1, den: 1 }))
    }

    /// Whether this value is not-a-number.
    pub fn is_nan(&self) -> (r: Option<bool>)
        ensures
            r == Some(self.repr() is Nan),
    {
        Some(matches!(self.v, ValRepr::Nan))
    }

    /// Whether this value is positive infinity.
    pub fn is_infty(&self) -> (r: Option<bool>)
        ensures
            r == Some(self.repr() is Infty),
    {
        Some(matches!(self.v, ValRepr::Infty))
    }

    /// Whether this value is negative infinity.
    pub fn is_neg_infty(&self) -> (r: Option<bool>)
        ensures
            r == Some(self.repr() is NegInfty),
    {
        Some(matches!(self.v, ValRepr::NegInfty))
    }

    /// Whether this value is nonnegative; not-a-number is neither
    /// nonnegative nor nonpositive.
    pub fn is_nonneg(&self) -> (r: Option<bool>)
        ensures
            r == Some(
                match self.repr() {
                    ValRepr::Rat { num, den } => num >= 0,
                    ValRepr::Infty => true,
                    _ => false,
                },
            ),
    {
        Some(
            match self.v {
                ValRepr::Rat { num, den: _ } => num >= 0,
                ValRepr::Infty => true,
                _ => false,
            },
        )
    }

    /// Whether this value is nonpositive.
    pub fn is_nonpos(&self) -> (r: Option<bool>)
        ensures
            r == Some(
                match self.repr() {
                    ValRepr::Rat { num, den } => num <= 0,
                    ValRepr::NegInfty => true,
                    _ => false,
                },
            ),
    {
        Some(
            match self.v {
                ValRepr::Rat { num, den: _ } => num <= 0,
                ValRepr::NegInfty => true,
                _ => false,
            },
        )
    }

    /// Whether this value is an integer.
    pub fn is_int(&self) -> (r: Option<bool>)
        ensures
            r == Some(rv_is_int(self.val())),
    {
        Some(
            match self.v {
                ValRepr::Rat { num: _, den } => den == 1,
                _ => false,
            },
        )
    }

    /// Whether this value is rational (integers included).
    pub fn is_rat(&self) -> (r: Option<bool>)
        ensures
            r == Some(self.repr() is Rat),
    {
        Some(matches!(self.v, ValRepr::Rat { .. }))
    }

    /// Whether the magnitudes of two values are equal; `None` when either
    /// side is not-a-number, for which the foreign library reports an
    /// error.
    pub fn abs_eq(&self, other: &Value) -> (r: Option<bool>)
        requires
            self.repr().wf(),
            other.repr().wf(),
        ensures
            r == (if self.repr() is Nan || other.repr() is Nan {
                None::<bool>
            } else {
                Some(rv_eq(rv_abs(self.val()), rv_abs(other.val())))
            }),
    {
        if matches!(self.v, ValRepr::Nan) || matches!(other.v, ValRepr::Nan) {
            None
        } else {
            let a = repr_abs(self.v);
            let b = repr_abs(other.v);
            Some(repr_eq(a, b))
        }
    }

    /// Whether this integer is divisible by another; `None` unless both
    /// values are integers, for which the foreign library reports an
    /// error.
    pub fn divisible_by(&self, other: &Value) -> (r: Option<bool>)
        requires
            self.repr().wf(),
            other.repr().wf(),
        ensures
            r == (if rv_is_int(self.val()) && rv_is_int(other.val()) {
                Some(
                    match (self.repr(), other.repr()) {
                        (
                            ValRepr::Rat { num: n1, den: d1 },
                            ValRepr::Rat { num: n2, den: d2 },
                        ) => if n2 == 0 {
                            n1 == 0
                        } else {
                            n1 as int % abs_i(n2 as int) == 0
                        },
                        _ => false,
                    },
                )
            } else {
                None::<bool>
            }),
    {
        match (self.v, other.v) {
            (ValRepr::Rat { num: n1, den: d1 }, ValRepr::Rat { num: n2, den: d2 }) => {
                if d1 != 1 || d2 != 1 {
                    None
                } else if n2 == 0 {
                    Some(n1 == 0)
                } else {
                    let m = repr_mod(self.v, other.v);
                    Some(
                        match m {
                            ValRepr::Rat { num, den: _ } => num == 0,
                            _ => false,
                        },
                    )
                }
            },
            _ => None,
        }
    }

    /// Whether this value is greater than a signed word; `None` for
    /// not-a-number.
    pub fn gt_si(&self, value: i64) -> (r: Option<bool>)
        requires
            self.repr().wf(),
            value > i64::MIN,
        ensures
            r == (if self.repr() is Nan {
                None::<bool>
            } else {
                Some(rv_lt(RatV::Num { n: value as int, d: 1 }, self.val()))
            }),
    {
        if matches!(self.v, ValRepr::Nan) {
            None
        } else {
            Some(repr_lt(ValRepr::Rat { num: value, den: 1 }, self.v))
        }
    }

    /// Whether this value equals a signed word; not-a-number equals
    /// nothing.
    pub fn eq_si(&self, value: i64) -> (r: Option<bool>)
        requires
            self.repr().wf(),
            value > i64::MIN,
        ensures
            r == Some(rv_eq(self.val(), RatV::Num { n: value as int, d: 1 })),
    {
        Some(repr_eq(self.v, ValRepr::Rat { num: value, den: 1 }))
    }

    /// Compare this value with a signed word; `None` for not-a-number,
    /// which is not ordered against anything.
    pub fn cmp_si(&self, value: i64) -> (r: Option<core::cmp::Ordering>)
        requires
            self.repr().wf(),
            value > i64::MIN,
        ensures
            r == (if self.repr() is Nan {
                None::<core::cmp::Ordering>
            } else if rv_lt(self.val(), RatV::Num { n: value as int, d: 1 }) {
                Some(core::cmp::Ordering::Less)
            } else if rv_lt(RatV::Num { n: value as int, d: 1 }, self.val()) {
                Some(core::cmp::Ordering::Greater)
            } else {
                Some(core::cmp::Ordering::Equal)
            }),
    {
        if matches!(self.v, ValRepr::Nan) {
            return None;
        }
        let si = ValRepr::Rat { num: value, den: 1 };
        if repr_lt(self.v, si) {
            Some(core::cmp::Ordering::Less)
        } else if repr_lt(si, self.v) {
            Some(core::cmp::Ordering::Greater)
        } else {
            Some(core::cmp::Ordering::Equal)
        }
    }
}


/// The first Bezout coefficient of two integers, by the extended Euclid
/// recursion on their magnitudes, carrying the sign of the first input.
pub open spec fn exgcd_x_spec(a: int, b: int) -> int {
    let p = exgcd_spec(abs_i(a) as nat, abs_i(b) as nat);
    if a < 0 {
        -p.0
    } else {
        p.0
    }
}

/// The second Bezout coefficient, carrying the sign of the second input.
pub open spec fn exgcd_y_spec(a: int, b: int) -> int {
    let p = exgcd_spec(abs_i(a) as nat, abs_i(b) as nat);
    if b < 0 {
        -p.1
    } else {
        p.1
    }
}

impl Value {
    /// Consuming checked addition: both arguments are destroyed by the
    /// foreign call; a result that does not fit the stored words is
    /// reported as the foreign allocation failure.
    pub fn checked_add(self, other: Value, ctx: &mut Context) -> (r: Result<Value, Error>)
        requires
            old(ctx).wf(),
            self.owned_by(*old(ctx)),
            other.owned_by(*old(ctx)),
            self.id() != other.id(),
            old(ctx).allocs() < u64::MAX,
        ensures
            final(ctx).wf(),
            match r {
                Ok(out) => {
                    &&& fits(rv_add(self.val(), other.val()))
                    &&& op2_ok(*old(ctx), *final(ctx), self.id(), other.id(), out.id())
                    &&& out.repr().wf()
                    &&& out.val() == rv_add(self.val(), other.val())
                    &&& out.ctx_of() == old(ctx).ctx_ref()
                    &&& out.owned_by(*final(ctx))
                },
                Err(e) => {
                    &&& old(ctx).call_blocked() || !fits(rv_add(self.val(), other.val()))
                    &&& (old(ctx).call_blocked() ==> op2_refused(
                        *old(ctx),
                        *final(ctx),
                        self.id(),
                        other.id(),
                    ) && refusal_err_matches(*old(ctx), e))
                    &&& (!old(ctx).call_blocked() ==> op2_fail_recorded(
                        *old(ctx),
                        *final(ctx),
                        self.id(),
                        other.id(),
                        ISLErrorKind::Alloc,
                    ) && recorded_err_matches(e, ISLErrorKind::Alloc))
                },
            },
    {
        let cref = self.context_ref();
        let ghost ida = self.id@;
        let ghost idb = other.id@;
        let va = self.v;
        let vb = other.v;
        match ctx.consume2(Ghost(ida), Ghost(idb)) {
            Some(e) => Err(Error::IslError(e)),
            None => match repr_add(va, vb) {
                Some(v) => {
                    let id = ctx.ledger_alloc();
                    Ok(Value { ctx: cref, v, id })
                },
                None => Err(Error::IslError(ctx.fail_with(ISLErrorKind::Alloc))),
            },
        }
    }

    /// Consuming checked subtraction.
    pub fn checked_sub(self, other: Value, ctx: &mut Context) -> (r: Result<Value, Error>)
        requires
            old(ctx).wf(),
            self.owned_by(*old(ctx)),
            other.owned_by(*old(ctx)),
            self.id() != other.id(),
            old(ctx).allocs() < u64::MAX,
        ensures
            final(ctx).wf(),
            match r {
                Ok(out) => {
                    &&& fits(rv_sub(self.val(), other.val()))
                    &&& op2_ok(*old(ctx), *final(ctx), self.id(), other.id(), out.id())
                    &&& out.repr().wf()
                    &&& out.val() == rv_sub(self.val(), other.val())
                    &&& out.ctx_of() == old(ctx).ctx_ref()
                    &&& out.owned_by(*final(ctx))
                },
                Err(e) => {
                    &&& old(ctx).call_blocked() || !fits(rv_sub(self.val(), other.val()))
                    &&& (old(ctx).call_blocked() ==> op2_refused(
                        *old(ctx),
                        *final(ctx),
                        self.id(),
                        other.id(),
                    ) && refusal_err_matches(*old(ctx), e))
                    &&& (!old(ctx).call_blocked() ==> op2_fail_recorded(
                        *old(ctx),
                        *final(ctx),
                        self.id(),
                        other.id(),
                        ISLErrorKind::Alloc,
                    ) && recorded_err_matches(e, ISLErrorKind::Alloc))
                },
            },
    {
        let cref = self.context_ref();
        let ghost ida = self.id@;
        let ghost idb = other.id@;
        let va = self.v;
        let vb = other.v;
        match ctx.consume2(Ghost(ida), Ghost(idb)) {
            Some(e) => Err(Error::IslError(e)),
            None => match repr_sub(va, vb) {
                Some(v) => {
                    let id = ctx.ledger_alloc();
                    Ok(Value { ctx: cref, v, id })
                },
                None => Err(Error::IslError(ctx.fail_with(ISLErrorKind::Alloc))),
            },
        }
    }

    /// Consuming checked multiplication.
    pub fn checked_mul(self, other: Value, ctx: &mut Context) -> (r: Result<Value, Error>)
        requires
            old(ctx).wf(),
            self.owned_by(*old(ctx)),
            other.owned_by(*old(ctx)),
            self.id() != other.id(),
            old(ctx).allocs() < u64::MAX,
        ensures
            final(ctx).wf(),
            match r {
                Ok(out) => {
                    &&& fits(rv_mul(self.val(), other.val()))
                    &&& op2_ok(*old(ctx), *final(ctx), self.id(), other.id(), out.id())
                    &&& out.repr().wf()
                    &&& out.val() == rv_mul(self.val(), other.val())
                    &&& out.ctx_of() == old(ctx).ctx_ref()
                    &&& out.owned_by(*final(ctx))
                },
                Err(e) => {
                    &&& old(ctx).call_blocked() || !fits(rv_mul(self.val(), other.val()))
                    &&& (old(ctx).call_blocked() ==> op2_refused(
                        *old(ctx),
                        *final(ctx),
                        self.id(),
                        other.id(),
                    ) && refusal_err_matches(*old(ctx), e))
                    &&& (!old(ctx).call_blocked() ==> op2_fail_recorded(
                        *old(ctx),
                        *final(ctx),
                        self.id(),
                        other.id(),
                        ISLErrorKind::Alloc,
                    ) && recorded_err_matches(e, ISLErrorKind::Alloc))
                },
            },
    {
        let cref = self.context_ref();
        let ghost ida = self.id@;
        let ghost idb = other.id@;
        let va = self.v;
        let vb = other.v;
        match ctx.consume2(Ghost(ida), Ghost(idb)) {
            Some(e) => Err(Error::IslError(e)),
            None => match repr_mul(va, vb) {
                Some(v) => {
                    let id = ctx.ledger_alloc();
                    Ok(Value { ctx: cref, v, id })
                },
                None => Err(Error::IslError(ctx.fail_with(ISLErrorKind::Alloc))),
            },
        }
    }

    /// Consuming checked division; dividing by zero yields not-a-number,
    /// as the foreign library defines it.
    pub fn checked_div(self, other: Value, ctx: &mut Context) -> (r: Result<Value, Error>)
        requires
            old(ctx).wf(),
            self.owned_by(*old(ctx)),
            other.owned_by(*old(ctx)),
            self.id() != other.id(),
            old(ctx).allocs() < u64::MAX,
        ensures
            final(ctx).wf(),
            match r {
                Ok(out) => {
                    &&& fits(rv_div(self.val(), other.val()))
                    &&& op2_ok(*old(ctx), *final(ctx), self.id(), other.id(), out.id())
                    &&& out.repr().wf()
                    &&& out.val() == rv_div(self.val(), other.val())
                    &&& out.ctx_of() == old(ctx).ctx_ref()
                    &&& out.owned_by(*final(ctx))
                },
                Err(e) => {
                    &&& old(ctx).call_blocked() || !fits(rv_div(self.val(), other.val()))
                    &&& (old(ctx).call_blocked() ==> op2_refused(
                        *old(ctx),
                        *final(ctx),
                        self.id(),
                        other.id(),
                    ) && refusal_err_matches(*old(ctx), e))
                    &&& (!old(ctx).call_blocked() ==> op2_fail_recorded(
                        *old(ctx),
                        *final(ctx),
                        self.id(),
                        other.id(),
                        ISLErrorKind::Alloc,
                    ) && recorded_err_matches(e, ISLErrorKind::Alloc))
                },
            },
    {
        let cref = self.context_ref();
        let ghost ida = self.id@;
        let ghost idb = other.id@;
        let va = self.v;
        let vb = other.v;
        match ctx.consume2(Ghost(ida), Ghost(idb)) {
            Some(e) => Err(Error::IslError(e)),
            None => match repr_div(va, vb) {
                Some(v) => {
                    let id = ctx.ledger_alloc();
                    Ok(Value { ctx: cref, v, id })
                },
                None => Err(Error::IslError(ctx.fail_with(ISLErrorKind::Alloc))),
            },
        }
    }

    /// The smaller of two values; not-a-number wins over everything.
    pub fn min(self, other: Value, ctx: &mut Context) -> (r: Value)
        requires
            old(ctx).wf(),
            self.owned_by(*old(ctx)),
            other.owned_by(*old(ctx)),
            self.id() != other.id(),
            old(ctx).allocs() < u64::MAX,
        ensures
            final(ctx).wf(),
            xform2(*old(ctx), *final(ctx), self.id(), other.id(), r.id()),
            r.repr() == (if self.repr() is Nan || other.repr() is Nan {
                ValRepr::Nan
            } else if rv_lt(other.val(), self.val()) {
                other.repr()
            } else {
                self.repr()
            }),
            r.ctx_of() == old(ctx).ctx_ref(),
            r.owned_by(*final(ctx)),
    {
        let cref = self.context_ref();
        let ghost ida = self.id@;
        let ghost idb = other.id@;
        let va = self.v;
        let vb = other.v;
        ctx.ledger_free(Ghost(ida));
        ctx.ledger_free(Ghost(idb));
        let v = if matches!(va, ValRepr::Nan) || matches!(vb, ValRepr::Nan) {
            ValRepr::Nan
        } else if repr_lt(vb, va) {
            vb
        } else {
            va
        };
        let id = ctx.ledger_alloc();
        Value { ctx: cref, v, id }
    }

    /// The larger of two values; not-a-number wins over everything.
    pub fn max(self, other: Value, ctx: &mut Context) -> (r: Value)
        requires
            old(ctx).wf(),
            self.owned_by(*old(ctx)),
            other.owned_by(*old(ctx)),
            self.id() != other.id(),
            old(ctx).allocs() < u64::MAX,
        ensures
            final(ctx).wf(),
            xform2(*old(ctx), *final(ctx), self.id(), other.id(), r.id()),
            r.repr() == (if self.repr() is Nan || other.repr() is Nan {
                ValRepr::Nan
            } else if rv_lt(self.val(), other.val()) {
                other.repr()
            } else {
                self.repr()
            }),
            r.ctx_of() == old(ctx).ctx_ref(),
            r.owned_by(*final(ctx)),
    {
        let cref = self.context_ref();
        let ghost ida = self.id@;
        let ghost idb = other.id@;
        let va = self.v;
        let vb = other.v;
        ctx.ledger_free(Ghost(ida));
        ctx.ledger_free(Ghost(idb));
        let v = if matches!(va, ValRepr::Nan) || matches!(vb, ValRepr::Nan) {
            ValRepr::Nan
        } else if repr_lt(va, vb) {
            vb
        } else {
            va
        };
        let id = ctx.ledger_alloc();
        Value { ctx: cref, v, id }
    }
}

/// One infallible consuming unary transform body.
fn unary_raw(a: Value, ctx: &mut Context, v: ValRepr) -> (r: Value)
    requires
        old(ctx).wf(),
        a.owned_by(*old(ctx)),
        old(ctx).allocs() < u64::MAX,
        v.wf(),
    ensures
        final(ctx).wf(),
        xform1(*old(ctx), *final(ctx), a.id(), r.id()),
        r.repr() == v,
        r.ctx_of() == old(ctx).ctx_ref(),
        r.owned_by(*final(ctx)),
{
    let cref = a.context_ref();
    let ghost ida = a.id@;
    ctx.ledger_free(Ghost(ida));
    let id = ctx.ledger_alloc();
    Value { ctx: cref, v, id }
}

impl Value {
    /// Consuming negation; exact on every stored value.
    pub fn neg(self, ctx: &mut Context) -> (r: Value)
        requires
            old(ctx).wf(),
            self.owned_by(*old(ctx)),
            old(ctx).allocs() < u64::MAX,
        ensures
            final(ctx).wf(),
            xform1(*old(ctx), *final(ctx), self.id(), r.id()),
            r.repr().wf(),
            r.val() == rv_neg(self.val()),
            r.ctx_of() == old(ctx).ctx_ref(),
            r.owned_by(*final(ctx)),
    {
        let v = repr_neg(self.v);
        unary_raw(self, ctx, v)
    }

    /// Consuming absolute value.
    pub fn abs(self, ctx: &mut Context) -> (r: Value)
        requires
            old(ctx).wf(),
            self.owned_by(*old(ctx)),
            old(ctx).allocs() < u64::MAX,
        ensures
            final(ctx).wf(),
            xform1(*old(ctx), *final(ctx), self.id(), r.id()),
            r.repr().wf(),
            r.val() == rv_abs(self.val()),
            r.ctx_of() == old(ctx).ctx_ref(),
            r.owned_by(*final(ctx)),
    {
        let v = repr_abs(self.v);
        unary_raw(self, ctx, v)
    }

    /// Consuming floor.
    pub fn floor(self, ctx: &mut Context) -> (r: Value)
        requires
            old(ctx).wf(),
            self.owned_by(*old(ctx)),
            old(ctx).allocs() < u64::MAX,
        ensures
            final(ctx).wf(),
            xform1(*old(ctx), *final(ctx), self.id(), r.id()),
            r.repr().wf(),
            r.val() == rv_floor(self.val()),
            r.ctx_of() == old(ctx).ctx_ref(),
            r.owned_by(*final(ctx)),
    {
        let v = repr_floor(self.v);
        unary_raw(self, ctx, v)
    }

    /// Consuming ceiling.
    pub fn ceil(self, ctx: &mut Context) -> (r: Value)
        requires
            old(ctx).wf(),
            self.owned_by(*old(ctx)),
            old(ctx).allocs() < u64::MAX,
        ensures
            final(ctx).wf(),
            xform1(*old(ctx), *final(ctx), self.id(), r.id()),
            r.repr().wf(),
            r.val() == rv_ceil(self.val()),
            r.ctx_of() == old(ctx).ctx_ref(),
            r.owned_by(*final(ctx)),
    {
        let v = repr_ceil(self.v);
        unary_raw(self, ctx, v)
    }

    /// Consuming truncation toward zero.
    pub fn trunc(self, ctx: &mut Context) -> (r: Value)
        requires
            old(ctx).wf(),
            self.owned_by(*old(ctx)),
            old(ctx).allocs() < u64::MAX,
        ensures
            final(ctx).wf(),
            xform1(*old(ctx), *final(ctx), self.id(), r.id()),
            r.repr().wf(),
            r.val() == rv_trunc(self.val()),
            r.ctx_of() == old(ctx).ctx_ref(),
            r.owned_by(*final(ctx)),
    {
        let v = repr_trunc(self.v);
        unary_raw(self, ctx, v)
    }

    /// Consuming reciprocal; zero inverts to not-a-number, the infinities
    /// to zero.
    pub fn inv(self, ctx: &mut Context) -> (r: Value)
        requires
            old(ctx).wf(),
            self.owned_by(*old(ctx)),
            old(ctx).allocs() < u64::MAX,
        ensures
            final(ctx).wf(),
            xform1(*old(ctx), *final(ctx), self.id(), r.id()),
            r.repr().wf(),
            r.val() == rv_inv(self.val()),
            r.ctx_of() == old(ctx).ctx_ref(),
            r.owned_by(*final(ctx)),
    {
        let v = repr_inv(self.v);
        unary_raw(self, ctx, v)
    }
}

impl Value {
    /// Consuming checked addition of an unsigned word.
    pub fn add_ui(self, val: u64, ctx: &mut Context) -> (r: Result<Value, Error>)
        requires
            old(ctx).wf(),
            self.owned_by(*old(ctx)),
            val <= i64::MAX as u64,
            old(ctx).allocs() < u64::MAX,
        ensures
            final(ctx).wf(),
            match r {
                Ok(out) => {
                    &&& fits(rv_add(self.val(), RatV::Num { n: val as int, d: 1 }))
                    &&& op1_ok(*old(ctx), *final(ctx), self.id(), out.id())
                    &&& out.repr().wf()
                    &&& out.val() == rv_add(self.val(), RatV::Num { n: val as int, d: 1 })
                    &&& out.ctx_of() == old(ctx).ctx_ref()
                    &&& out.owned_by(*final(ctx))
                },
                Err(e) => {
                    &&& old(ctx).call_blocked() || !fits(
                        rv_add(self.val(), RatV::Num { n: val as int, d: 1 }),
                    )
                    &&& (old(ctx).call_blocked() ==> op1_refused(
                        *old(ctx),
                        *final(ctx),
                        self.id(),
                    ) && refusal_err_matches(*old(ctx), e))
                    &&& (!old(ctx).call_blocked() ==> op1_fail_recorded(
                        *old(ctx),
                        *final(ctx),
                        self.id(),
                        ISLErrorKind::Alloc,
                    ) && recorded_err_matches(e, ISLErrorKind::Alloc))
                },
            },
    {
        let cref = self.context_ref();
        let ghost ida = self.id@;
        let va = self.v;
        let vb = ValRepr::Rat { num: val as i64, den: 1 };
        match ctx.consume1(Ghost(ida)) {
            Some(e) => Err(Error::IslError(e)),
            None => match repr_add(va, vb) {
                Some(v) => {
                    let id = ctx.ledger_alloc();
                    Ok(Value { ctx: cref, v, id })
                },
                None => Err(Error::IslError(ctx.fail_with(ISLErrorKind::Alloc))),
            },
        }
    }

    /// Consuming checked subtraction of an unsigned word.
    pub fn sub_ui(self, val: u64, ctx: &mut Context) -> (r: Result<Value, Error>)
        requires
            old(ctx).wf(),
            self.owned_by(*old(ctx)),
            val <= i64::MAX as u64,
            old(ctx).allocs() < u64::MAX,
        ensures
            final(ctx).wf(),
            match r {
                Ok(out) => {
                    &&& fits(rv_sub(self.val(), RatV::Num { n: val as int, d: 1 }))
                    &&& op1_ok(*old(ctx), *final(ctx), self.id(), out.id())
                    &&& out.repr().wf()
                    &&& out.val() == rv_sub(self.val(), RatV::Num { n: val as int, d: 1 })
                    &&& out.ctx_of() == old(ctx).ctx_ref()
                    &&& out.owned_by(*final(ctx))
                },
                Err(e) => {
                    &&& old(ctx).call_blocked() || !fits(
                        rv_sub(self.val(), RatV::Num { n: val as int, d: 1 }),
                    )
                    &&& (old(ctx).call_blocked() ==> op1_refused(
                        *old(ctx),
                        *final(ctx),
                        self.id(),
                    ) && refusal_err_matches(*old(ctx), e))
                    &&& (!old(ctx).call_blocked() ==> op1_fail_recorded(
                        *old(ctx),
                        *final(ctx),
                        self.id(),
                        ISLErrorKind::Alloc,
                    ) && recorded_err_matches(e, ISLErrorKind::Alloc))
                },
            },
    {
        let cref = self.context_ref();
        let ghost ida = self.id@;
        let va = self.v;
        let vb = ValRepr::Rat { num: val as i64, den: 1 };
        match ctx.consume1(Ghost(ida)) {
            Some(e) => Err(Error::IslError(e)),
            None => match repr_sub(va, vb) {
                Some(v) => {
                    let id = ctx.ledger_alloc();
                    Ok(Value { ctx: cref, v, id })
                },
                None => Err(Error::IslError(ctx.fail_with(ISLErrorKind::Alloc))),
            },
        }
    }

    /// Consuming checked multiplication by an unsigned word.
    pub fn mul_ui(self, val: u64, ctx: &mut Context) -> (r: Result<Value, Error>)
        requires
            old(ctx).wf(),
            self.owned_by(*old(ctx)),
            val <= i64::MAX as u64,
            old(ctx).allocs() < u64::MAX,
        ensures
            final(ctx).wf(),
            match r {
                Ok(out) => {
                    &&& fits(rv_mul(self.val(), RatV::Num { n: val as int, d: 1 }))
                    &&& op1_ok(*old(ctx), *final(ctx), self.id(), out.id())
                    &&& out.repr().wf()
                    &&& out.val() == rv_mul(self.val(), RatV::Num { n: val as int, d: 1 })
                    &&& out.ctx_of() == old(ctx).ctx_ref()
                    &&& out.owned_by(*final(ctx))
                },
                Err(e) => {
                    &&& old(ctx).call_blocked() || !fits(
                        rv_mul(self.val(), RatV::Num { n: val as int, d: 1 }),
                    )
                    &&& (old(ctx).call_blocked() ==> op1_refused(
                        *old(ctx),
                        *final(ctx),
                        self.id(),
                    ) && refusal_err_matches(*old(ctx), e))
                    &&& (!old(ctx).call_blocked() ==> op1_fail_recorded(
                        *old(ctx),
                        *final(ctx),
                        self.id(),
                        ISLErrorKind::Alloc,
                    ) && recorded_err_matches(e, ISLErrorKind::Alloc))
                },
            },
    {
        let cref = self.context_ref();
        let ghost ida = self.id@;
        let va = self.v;
        let vb = ValRepr::Rat { num: val as i64, den: 1 };
        match ctx.consume1(Ghost(ida)) {
            Some(e) => Err(Error::IslError(e)),
            None => match repr_mul(va, vb) {
                Some(v) => {
                    let id = ctx.ledger_alloc();
                    Ok(Value { ctx: cref, v, id })
                },
                None => Err(Error::IslError(ctx.fail_with(ISLErrorKind::Alloc))),
            },
        }
    }

    /// Consuming checked division by an unsigned word; dividing by zero
    /// yields not-a-number.
    pub fn div_ui(self, val: u64, ctx: &mut Context) -> (r: Result<Value, Error>)
        requires
            old(ctx).wf(),
            self.owned_by(*old(ctx)),
            val <= i64::MAX as u64,
            old(ctx).allocs() < u64::MAX,
        ensures
            final(ctx).wf(),
            match r {
                Ok(out) => {
                    &&& fits(rv_div(self.val(), RatV::Num { n: val as int, d: 1 }))
                    &&& op1_ok(*old(ctx), *final(ctx), self.id(), out.id())
                    &&& out.repr().wf()
                    &&& out.val() == rv_div(self.val(), RatV::Num { n: val as int, d: 1 })
                    &&& out.ctx_of() == old(ctx).ctx_ref()
                    &&& out.owned_by(*final(ctx))
                },
                Err(e) => {
                    &&& old(ctx).call_blocked() || !fits(
                        rv_div(self.val(), RatV::Num { n: val as int, d: 1 }),
                    )
                    &&& (old(ctx).call_blocked() ==> op1_refused(
                        *old(ctx),
                        *final(ctx),
                        self.id(),
                    ) && refusal_err_matches(*old(ctx), e))
                    &&& (!old(ctx).call_blocked() ==> op1_fail_recorded(
                        *old(ctx),
                        *final(ctx),
                        self.id(),
                        ISLErrorKind::Alloc,
                    ) && recorded_err_matches(e, ISLErrorKind::Alloc))
                },
            },
    {
        let cref = self.context_ref();
        let ghost ida = self.id@;
        let va = self.v;
        let vb = ValRepr::Rat { num: val as i64, den: 1 };
        match ctx.consume1(Ghost(ida)) {
            Some(e) => Err(Error::IslError(e)),
            None => match repr_div(va, vb) {
                Some(v) => {
                    let id = ctx.ledger_alloc();
                    Ok(Value { ctx: cref, v, id })
                },
                None => Err(Error::IslError(ctx.fail_with(ISLErrorKind::Alloc))),
            },
        }
    }

    /// Consuming checked power of two.  A non-integral exponent is a local
    /// validation failure, detected before the foreign call; an exponent
    /// whose power does not fit the stored words is reported as the
    /// foreign allocation failure.
    pub fn checked_exp2(self, ctx: &mut Context) -> (r: Result<Value, Error>)
        requires
            old(ctx).wf(),
            self.owned_by(*old(ctx)),
            old(ctx).allocs() < u64::MAX,
        ensures
            final(ctx).wf(),
            match r {
                Ok(out) => {
                    &&& rv_is_int(self.val())
                    &&& fits(rv_exp2(self.val()))
                    &&& op1_ok(*old(ctx), *final(ctx), self.id(), out.id())
                    &&& out.repr().wf()
                    &&& out.val() == rv_exp2(self.val())
                    &&& out.ctx_of() == old(ctx).ctx_ref()
                    &&& out.owned_by(*final(ctx))
                },
                Err(e) => {
                    &&& !rv_is_int(self.val()) || old(ctx).call_blocked() || !fits(
                        rv_exp2(self.val()),
                    )
                    &&& (!rv_is_int(self.val()) ==> e is NonIntegralValue && free_one(
                        *old(ctx),
                        *final(ctx),
                        self.id(),
                    ))
                    &&& (rv_is_int(self.val()) && old(ctx).call_blocked() ==> op1_refused(
                        *old(ctx),
                        *final(ctx),
                        self.id(),
                    ) && refusal_err_matches(*old(ctx), e))
                    &&& (rv_is_int(self.val()) && !old(ctx).call_blocked() ==> op1_fail_recorded(
                        *old(ctx),
                        *final(ctx),
                        self.id(),
                        ISLErrorKind::Alloc,
                    ) && recorded_err_matches(e, ISLErrorKind::Alloc))
                },
            },
    {
        let cref = self.context_ref();
        let ghost ida = self.id@;
        let va = self.v;
        let int_ok = match va {
            ValRepr::Rat { num: _, den } => den == 1,
            _ => false,
        };
        if !int_ok {
            ctx.ledger_free(Ghost(ida));
            return Err(Error::NonIntegralValue);
        }
        match ctx.consume1(Ghost(ida)) {
            Some(e) => Err(Error::IslError(e)),
            None => match repr_exp2(va) {
                Some(v) => {
                    let id = ctx.ledger_alloc();
                    Ok(Value { ctx: cref, v, id })
                },
                None => Err(Error::IslError(ctx.fail_with(ISLErrorKind::Alloc))),
            },
        }
    }

    /// Consuming checked remainder of two integers; non-integral inputs
    /// are a local validation failure, and a zero divisor is reported by
    /// the foreign side as an invalid argument.
    pub fn checked_rem(self, other: Value, ctx: &mut Context) -> (r: Result<Value, Error>)
        requires
            old(ctx).wf(),
            self.owned_by(*old(ctx)),
            other.owned_by(*old(ctx)),
            self.id() != other.id(),
            old(ctx).allocs() < u64::MAX,
        ensures
            final(ctx).wf(),
            match r {
                Ok(out) => {
                    &&& rv_is_int(self.val()) && rv_is_int(other.val())
                    &&& rv_sign(other.val()) != 0
                    &&& op2_ok(*old(ctx), *final(ctx), self.id(), other.id(), out.id())
                    &&& out.repr().wf()
                    &&& out.val() == rv_mod(self.val(), other.val())
                    &&& out.ctx_of() == old(ctx).ctx_ref()
                    &&& out.owned_by(*final(ctx))
                },
                Err(e) => {
                    &&& (!(rv_is_int(self.val()) && rv_is_int(other.val())) ==> e
                        is NonIntegralValue && free_two(
                        *old(ctx),
                        *final(ctx),
                        self.id(),
                        other.id(),
                    ))
                    &&& (rv_is_int(self.val()) && rv_is_int(other.val()) && old(
                        ctx,
                    ).call_blocked() ==> op2_refused(
                        *old(ctx),
                        *final(ctx),
                        self.id(),
                        other.id(),
                    ) && refusal_err_matches(*old(ctx), e))
                    &&& (rv_is_int(self.val()) && rv_is_int(other.val()) && !old(
                        ctx,
                    ).call_blocked() ==> rv_sign(other.val()) == 0 && op2_fail_recorded(
                        *old(ctx),
                        *final(ctx),
                        self.id(),
                        other.id(),
                        ISLErrorKind::Invalid,
                    ) && recorded_err_matches(e, ISLErrorKind::Invalid))
                },
            },
    {
        let cref = self.context_ref();
        let ghost ida = self.id@;
        let ghost idb = other.id@;
        let va = self.v;
        let vb = other.v;
        let ints = match (va, vb) {
            (ValRepr::Rat { num: _, den: d1 }, ValRepr::Rat { num: _, den: d2 }) => d1 == 1 && d2
                == 1,
            _ => false,
        };
        if !ints {
            ctx.ledger_free(Ghost(ida));
            ctx.ledger_free(Ghost(idb));
            return Err(Error::NonIntegralValue);
        }
        match ctx.consume2(Ghost(ida), Ghost(idb)) {
            Some(e) => Err(Error::IslError(e)),
            None => {
                let zero_div = match vb {
                    ValRepr::Rat { num, den: _ } => num == 0,
                    _ => true,
                };
                if zero_div {
                    Err(Error::IslError(ctx.fail_with(ISLErrorKind::Invalid)))
                } else {
                    let v = repr_mod(va, vb);
                    let id = ctx.ledger_alloc();
                    Ok(Value { ctx: cref, v, id })
                }
            },
        }
    }

    /// Consuming checked greatest common divisor of two integers;
    /// non-integral inputs are a local validation failure.
    pub fn checked_gcd(self, other: Value, ctx: &mut Context) -> (r: Result<Value, Error>)
        requires
            old(ctx).wf(),
            self.owned_by(*old(ctx)),
            other.owned_by(*old(ctx)),
            self.id() != other.id(),
            old(ctx).allocs() < u64::MAX,
        ensures
            final(ctx).wf(),
            match r {
                Ok(out) => {
                    &&& rv_is_int(self.val()) && rv_is_int(other.val())
                    &&& !old(ctx).call_blocked()
                    &&& op2_ok(*old(ctx), *final(ctx), self.id(), other.id(), out.id())
                    &&& out.repr().wf()
                    &&& out.val() == rv_gcd(self.val(), other.val())
                    &&& out.ctx_of() == old(ctx).ctx_ref()
                    &&& out.owned_by(*final(ctx))
                },
                Err(e) => {
                    &&& (!(rv_is_int(self.val()) && rv_is_int(other.val())) ==> e
                        is NonIntegralValue && free_two(
                        *old(ctx),
                        *final(ctx),
                        self.id(),
                        other.id(),
                    ))
                    &&& (rv_is_int(self.val()) && rv_is_int(other.val()) ==> old(
                        ctx,
                    ).call_blocked() && op2_refused(
                        *old(ctx),
                        *final(ctx),
                        self.id(),
                        other.id(),
                    ) && refusal_err_matches(*old(ctx), e))
                },
            },
    {
        let cref = self.context_ref();
        let ghost ida = self.id@;
        let ghost idb = other.id@;
        let va = self.v;
        let vb = other.v;
        let ints = match (va, vb) {
            (ValRepr::Rat { num: _, den: d1 }, ValRepr::Rat { num: _, den: d2 }) => d1 == 1 && d2
                == 1,
            _ => false,
        };
        if !ints {
            ctx.ledger_free(Ghost(ida));
            ctx.ledger_free(Ghost(idb));
            return Err(Error::NonIntegralValue);
        }
        match ctx.consume2(Ghost(ida), Ghost(idb)) {
            Some(e) => Err(Error::IslError(e)),
            None => {
                let v = repr_gcd(va, vb);
                let id = ctx.ledger_alloc();
                Ok(Value { ctx: cref, v, id })
            },
        }
    }
}

impl Value {
    /// Consuming checked extended greatest common divisor of two
    /// integers: the gcd together with the exact Bezout coefficient pair
    /// of the extended Euclid recursion, which combines the inputs into
    /// the gcd.  Non-integral inputs are a local validation failure.
    pub fn checked_exgcd(self, other: Value, ctx: &mut Context) -> (r: Result<
        (Value, Value, Value),
        Error,
    >)
        requires
            old(ctx).wf(),
            self.owned_by(*old(ctx)),
            other.owned_by(*old(ctx)),
            self.id() != other.id(),
            old(ctx).allocs() < u64::MAX - 2,
        ensures
            final(ctx).wf(),
            match r {
                Ok((g, x, y)) => {
                    &&& rv_is_int(self.val()) && rv_is_int(other.val())
                    &&& !old(ctx).call_blocked()
                    &&& op2_ok3(
                        *old(ctx),
                        *final(ctx),
                        self.id(),
                        other.id(),
                        g.id(),
                        x.id(),
                        y.id(),
                    )
                    &&& g.repr().wf() && x.repr().wf() && y.repr().wf()
                    &&& g.val() == rv_gcd(self.val(), other.val())
                    &&& match (self.val(), other.val()) {
                        (RatV::Num { n: n1, d: _ }, RatV::Num { n: n2, d: _ }) => {
                            &&& x.val() == RatV::Num { n: exgcd_x_spec(n1, n2), d: 1 }
                            &&& y.val() == RatV::Num { n: exgcd_y_spec(n1, n2), d: 1 }
                            &&& n1 * exgcd_x_spec(n1, n2) + n2 * exgcd_y_spec(n1, n2) == gcd_nat(
                                abs_i(n1) as nat,
                                abs_i(n2) as nat,
                            )
                        },
                        _ => false,
                    }
                    &&& g.ctx_of() == old(ctx).ctx_ref() && x.ctx_of() == old(ctx).ctx_ref()
                        && y.ctx_of() == old(ctx).ctx_ref()
                    &&& g.owned_by(*final(ctx)) && x.owned_by(*final(ctx)) && y.owned_by(
                        *final(ctx),
                    )
                },
                Err(e) => {
                    &&& (!(rv_is_int(self.val()) && rv_is_int(other.val())) ==> e
                        is NonIntegralValue && free_two(
                        *old(ctx),
                        *final(ctx),
                        self.id(),
                        other.id(),
                    ))
                    &&& (rv_is_int(self.val()) && rv_is_int(other.val()) ==> old(
                        ctx,
                    ).call_blocked() && op2_refused(
                        *old(ctx),
                        *final(ctx),
                        self.id(),
                        other.id(),
                    ) && refusal_err_matches(*old(ctx), e))
                },
            },
    {
        let cref = self.context_ref();
        let ghost ida = self.id@;
        let ghost idb = other.id@;
        let va = self.v;
        let vb = other.v;
        let (n1, n2, ints) = match (va, vb) {
            (ValRepr::Rat { num: x, den: d1 }, ValRepr::Rat { num: y, den: d2 }) => (
                x,
                y,
                d1 == 1 && d2 == 1,
            ),
            _ => (0i64, 0i64, false),
        };
        if !ints {
            ctx.ledger_free(Ghost(ida));
            ctx.ledger_free(Ghost(idb));
            return Err(Error::NonIntegralValue);
        }
        match ctx.consume2(Ghost(ida), Ghost(idb)) {
            Some(e) => Err(Error::IslError(e)),
            None => {
                let m1: u64 = if n1 >= 0 {
                    n1 as u64
                } else {
                    (-n1) as u64
                };
                let m2: u64 = if n2 >= 0 {
                    n2 as u64
                } else {
                    (-n2) as u64
                };
                let (g, xm, ym) = exgcd_mag(m1, m2);
                let x: i64 = if n1 < 0 {
                    -xm
                } else {
                    xm
                };
                let y: i64 = if n2 < 0 {
                    -ym
                } else {
                    ym
                };
                proof {
                    assert((n1 as int) * (x as int) == (m1 as int) * (xm as int) && (n2 as int) * (
                    y as int) == (m2 as int) * (ym as int)) by (nonlinear_arith)
                        requires
                            m1 as int == abs_i(n1 as int),
                            m2 as int == abs_i(n2 as int),
                            x as int == if n1 < 0 {
                                -(xm as int)
                            } else {
                                xm as int
                            },
                            y as int == if n2 < 0 {
                                -(ym as int)
                            } else {
                                ym as int
                            },
                    ;
                }
                let idg = ctx.ledger_alloc();
                let idx = ctx.ledger_alloc();
                let idy = ctx.ledger_alloc();
                Ok(
                    (
                        Value { ctx: cref, v: ValRepr::Rat { num: g as i64, den: 1 }, id: idg },
                        Value { ctx: cref, v: ValRepr::Rat { num: x, den: 1 }, id: idx },
                        Value { ctx: cref, v: ValRepr::Rat { num: y, den: 1 }, id: idy },
                    ),
                )
            },
        }
    }
}

impl PartialEq for Value {
    /// Numeric equality of the foreign comparison entry point:
    /// not-a-number equals nothing, itself included.
    fn eq(&self, other: &Value) -> (r: bool) {
        match (self.v, other.v) {
            (ValRepr::Rat { num: n1, den: d1 }, ValRepr::Rat { num: n2, den: d2 }) => {
                let p1 = wide_mul_full(n1, d2);
                let p2 = wide_mul_full(n2, d1);
                p1 == p2
            },
            (ValRepr::Infty, ValRepr::Infty) => true,
            (ValRepr::NegInfty, ValRepr::NegInfty) => true,
            _ => false,
        }
    }
}

impl vstd::std_specs::cmp::PartialEqSpecImpl for Value {
    open spec fn obeys_eq_spec() -> bool {
        true
    }

    open spec fn eq_spec(&self, other: &Value) -> bool {
        rv_eq(self.val(), other.val())
    }
}

impl PartialOrd for Value {
    /// Numeric order of the foreign comparison entry points; values
    /// involving not-a-number are not ordered.
    fn partial_cmp(&self, other: &Value) -> (r: Option<core::cmp::Ordering>) {
        if matches!(self.v, ValRepr::Nan) || matches!(other.v, ValRepr::Nan) {
            return None;
        }
        let lt = match (self.v, other.v) {
            (ValRepr::Rat { num: n1, den: d1 }, ValRepr::Rat { num: n2, den: d2 }) => {
                wide_mul_full(n1, d2) < wide_mul_full(n2, d1)
            },
            (ValRepr::NegInfty, ValRepr::NegInfty) => false,
            (ValRepr::NegInfty, _) => true,
            (x, ValRepr::Infty) => !matches!(x, ValRepr::Infty),
            _ => false,
        };
        if lt {
            return Some(core::cmp::Ordering::Less);
        }
        let gt = match (other.v, self.v) {
            (ValRepr::Rat { num: n1, den: d1 }, ValRepr::Rat { num: n2, den: d2 }) => {
                wide_mul_full(n1, d2) < wide_mul_full(n2, d1)
            },
            (ValRepr::NegInfty, ValRepr::NegInfty) => false,
            (ValRepr::NegInfty, _) => true,
            (x, ValRepr::Infty) => !matches!(x, ValRepr::Infty),
            _ => false,
        };
        if gt {
            Some(core::cmp::Ordering::Greater)
        } else {
            Some(core::cmp::Ordering::Equal)
        }
    }
}

impl vstd::std_specs::cmp::PartialOrdSpecImpl for Value {
    open spec fn obeys_partial_cmp_spec() -> bool {
        true
    }

    open spec fn partial_cmp_spec(&self, other: &Value) -> Option<core::cmp::Ordering> {
        if self.val() is Nan || other.val() is Nan {
            None
        } else if rv_lt(self.val(), other.val()) {
            Some(core::cmp::Ordering::Less)
        } else if rv_lt(other.val(), self.val()) {
            Some(core::cmp::Ordering::Greater)
        } else {
            Some(core::cmp::Ordering::Equal)
        }
    }
}

/// A decimal digit byte.
pub open spec fn is_digit_b(b: u8) -> bool {
    48 <= b <= 57
}

/// The numeric weight of a digit byte.
pub open spec fn digit_of(b: u8) -> nat {
    if 48 <= b {
        (b - 48) as nat
    } else {
        0
    }
}

/// The decimal reading of the byte range `[i, j)`.
pub open spec fn digits_val_range(s: Seq<u8>, i: int, j: int) -> nat
    decreases j - i,
{
    if i >= j {
        0
    } else {
        digits_val_range(s, i, j - 1) * 10 + digit_of(s[j - 1])
    }
}

/// Every byte of the range `[i, j)` is a decimal digit.
pub open spec fn all_digits_range(s: Seq<u8>, i: int, j: int) -> bool
    decreases j - i,
{
    if i >= j {
        true
    } else {
        all_digits_range(s, i, j - 1) && is_digit_b(s[j - 1])
    }
}

/// The position of the first slash at or after `i`; negative when there
/// is none.
pub open spec fn first_slash_from(s: Seq<u8>, i: int) -> int
    decreases s.len() - i,
{
    if i < 0 || i >= s.len() {
        -1
    } else if s[i] == 47 {
        i
    } else {
        first_slash_from(s, i + 1)
    }
}

/// The string holds an embedded NUL byte, which must never reach the
/// foreign library.
pub open spec fn has_nul(s: Seq<u8>) -> bool {
    exists|i: int| 0 <= i < s.len() && s[i] == 0
}

pub open spec fn seq_nan() -> Seq<u8> {
    seq![110u8, 97u8, 110u8]
}

pub open spec fn seq_infty() -> Seq<u8> {
    seq![105u8, 110u8, 102u8, 116u8, 121u8]
}

pub open spec fn seq_neg_infty() -> Seq<u8> {
    seq![45u8, 105u8, 110u8, 102u8, 116u8, 121u8]
}

/// The number grammar of the foreign reader: one of the special words, or
/// an optionally negated integer or fraction in decimal digits.  A zero
/// denominator reads as not-a-number.
pub open spec fn parse_spec(s: Seq<u8>) -> Option<RatV> {
    if s == seq_nan() {
        Some(RatV::Nan)
    } else if s == seq_infty() {
        Some(RatV::Inf)
    } else if s == seq_neg_infty() {
        Some(RatV::NegInf)
    } else {
        let neg = s.len() > 0 && s[0] == 45;
        let st: int = if neg {
            1
        } else {
            0
        };
        let sl = first_slash_from(s, st);
        let len = s.len() as int;
        if sl < 0 {
            if st < len && all_digits_range(s, st, len) {
                let n = digits_val_range(s, st, len) as int;
                Some(
                    norm_frac(
                        if neg {
                            -n
                        } else {
                            n
                        },
                        1,
                    ),
                )
            } else {
                None
            }
        } else {
            if st < sl && sl + 1 < len && all_digits_range(s, st, sl) && all_digits_range(
                s,
                sl + 1,
                len,
            ) {
                let n = digits_val_range(s, st, sl) as int;
                let d = digits_val_range(s, sl + 1, len) as int;
                Some(
                    norm_frac(
                        if neg {
                            -n
                        } else {
                            n
                        },
                        d,
                    ),
                )
            } else {
                None
            }
        }
    }
}

/// The raw digit groups of the string fit the stored words; the model's
/// reader rejects larger ones as it cannot store them.
pub open spec fn parse_fits(s: Seq<u8>) -> bool {
    if s == seq_nan() || s == seq_infty() || s == seq_neg_infty() {
        true
    } else {
        let neg = s.len() > 0 && s[0] == 45;
        let st: int = if neg {
            1
        } else {
            0
        };
        let sl = first_slash_from(s, st);
        let len = s.len() as int;
        if sl < 0 {
            digits_val_range(s, st, len) <= i64::MAX as nat
        } else {
            digits_val_range(s, st, sl) <= i64::MAX as nat && digits_val_range(s, sl + 1, len)
                <= i64::MAX as nat
        }
    }
}

/// Inside an all-digit range, every byte is a digit.
proof fn lemma_all_digits_index(s: Seq<u8>, i: int, j: int, k: int)
    requires
        all_digits_range(s, i, j),
        i <= k < j,
    ensures
        is_digit_b(s[k]),
    decreases j - i,
{
    if k < j - 1 {
        lemma_all_digits_index(s, i, j - 1, k);
    }
}

/// The reading of a range is at least the reading of any of its prefixes.
proof fn lemma_digits_val_mono(s: Seq<u8>, i: int, k: int, j: int)
    requires
        i <= k <= j,
    ensures
        digits_val_range(s, i, j) >= digits_val_range(s, i, k),
    decreases j - k,
{
    if k < j {
        lemma_digits_val_mono(s, i, k, j - 1);
        let v = digits_val_range(s, i, j - 1);
        assert(v * 10 >= v) by (nonlinear_arith)
            requires
                v >= 0,
        ;
    }
}

/// Read a decimal digit group; `None` when the range is empty, holds a
/// non-digit, or reads beyond the stored word size.
fn digits_scan(b: &[u8], i: usize, j: usize) -> (r: Option<u64>)
    requires
        i <= j <= b@.len(),
    ensures
        match r {
            Some(v) => i < j && all_digits_range(b@, i as int, j as int) && v == digits_val_range(
                b@,
                i as int,
                j as int,
            ) && v <= i64::MAX as u64,
            None => i >= j || !all_digits_range(b@, i as int, j as int) || digits_val_range(
                b@,
                i as int,
                j as int,
            ) > i64::MAX as nat,
        },
{
    if i >= j {
        return None;
    }
    let mut acc: u64 = 0;
    let mut k = i;
    while k < j
        invariant
            i <= k <= j <= b@.len(),
            all_digits_range(b@, i as int, k as int),
            acc == digits_val_range(b@, i as int, k as int),
            acc <= i64::MAX as u64,
        decreases j - k,
    {
        let c = b[k];
        if c < 48 || c > 57 {
            proof {
                if all_digits_range(b@, i as int, j as int) {
                    lemma_all_digits_index(b@, i as int, j as int, k as int);
                }
            }
            return None;
        }
        let d = (c - 48) as u64;
        let limit = (0x7fff_ffff_ffff_ffffu64 - d) / 10;
        if acc > limit {
            proof {
                let ghost lcap = i64::MAX as int - d;
                vstd::arithmetic::div_mod::lemma_fundamental_div_mod(lcap, 10);
                assert(acc as int * 10 + d > i64::MAX as int) by (nonlinear_arith)
                    requires
                        acc as int >= lcap / 10 + 1,
                        lcap == 10 * (lcap / 10) + lcap % 10,
                        0 <= lcap % 10 < 10,
                        lcap == i64::MAX as int - d,
                ;
                lemma_digits_val_mono(b@, i as int, k as int + 1, j as int);
            }
            return None;
        }
        proof {
            let ghost lcap = i64::MAX as int - d;
            vstd::arithmetic::div_mod::lemma_fundamental_div_mod(lcap, 10);
            assert(acc as int * 10 + d <= i64::MAX as int) by (nonlinear_arith)
                requires
                    acc as int <= lcap / 10,
                    lcap == 10 * (lcap / 10) + lcap % 10,
                    0 <= lcap % 10 < 10,
                    lcap == i64::MAX as int - d,
            ;
        }
        acc = acc * 10 + d;
        k = k + 1;
    }
    Some(acc)
}

/// Recognize one of the special number words.
fn parse_keyword(b: &[u8]) -> (r: Option<ValRepr>)
    ensures
        r == (if b@ == seq_nan() {
            Some(ValRepr::Nan)
        } else if b@ == seq_infty() {
            Some(ValRepr::Infty)
        } else if b@ == seq_neg_infty() {
            Some(ValRepr::NegInfty)
        } else {
            None::<ValRepr>
        }),
{
    if b.len() == 3 && b[0] == 110 && b[1] == 97 && b[2] == 110 {
        proof {
            assert(b@ =~= seq_nan());
        }
        Some(ValRepr::Nan)
    } else if b.len() == 5 && b[0] == 105 && b[1] == 110 && b[2] == 102 && b[3] == 116 && b[4]
        == 121 {
        proof {
            assert(b@ =~= seq_infty());
        }
        Some(ValRepr::Infty)
    } else if b.len() == 6 && b[0] == 45 && b[1] == 105 && b[2] == 110 && b[3] == 102 && b[4]
        == 116 && b[5] == 121 {
        proof {
            assert(b@ =~= seq_neg_infty());
        }
        Some(ValRepr::NegInfty)
    } else {
        None
    }
}

/// Run the reader's grammar over the raw bytes: the accepted stored
/// value, or `None` when the grammar rejects the string or a digit group
/// does not fit the stored words.
fn parse_bytes(b: &[u8]) -> (r: Option<ValRepr>)
    ensures
        match r {
            Some(v) => v.wf() && parse_spec(b@) is Some && parse_fits(b@) && Some(v.v())
                == parse_spec(b@),
            None => parse_spec(b@) is None || !parse_fits(b@),
        },
{
    if let Some(v) = parse_keyword(b) {
        return Some(v);
    }
    let n = b.len();
    let neg = n > 0 && b[0] == 45;
    let st: usize = if neg {
        1
    } else {
        0
    };
    // find the first slash, if any
    let mut k = st;
    while k < n && b[k] != 47
        invariant
            st <= k <= n,
            n == b@.len(),
            first_slash_from(b@, st as int) == first_slash_from(b@, k as int),
        decreases n - k,
    {
        k = k + 1;
    }
    if k == n {
        // no slash: an integer
        match digits_scan(b, st, n) {
            Some(nv) => {
                proof {
                    lemma_norm_fits(
                        if neg {
                            -(nv as int)
                        } else {
                            nv as int
                        },
                        1,
                    );
                }
                Some(nonnull_or_alloc_error(norm_from_parts(neg, nv as u128, 1)))
            },
            None => None,
        }
    } else {
        // a fraction
        match digits_scan(b, st, k) {
            Some(nv) => match digits_scan(b, k + 1, n) {
                Some(dv) => {
                    if dv == 0 {
                        Some(ValRepr::Nan)
                    } else {
                        proof {
                            lemma_norm_fits(
                                if neg {
                                    -(nv as int)
                                } else {
                                    nv as int
                                },
                                dv as int,
                            );
                        }
                        Some(nonnull_or_alloc_error(norm_from_parts(neg, nv as u128, dv as u128)))
                    }
                },
                None => None,
            },
            None => None,
        }
    }
}

impl Value {
    /// Read a number from its textual form: the special words, integers
    /// and fractions in decimal digits.  A string the reader does not
    /// accept — an embedded NUL included — is a parse error; an embedded
    /// NUL is rejected before the foreign call.
    pub fn new_from_string(ctx: &mut Context, value: &str) -> (r: Result<Value, Error>)
        requires
            old(ctx).wf(),
            old(ctx).allocs() < u64::MAX,
        ensures
            final(ctx).wf(),
            match r {
                Ok(v) => {
                    &&& !has_nul(value.spec_bytes())
                    &&& !old(ctx).call_blocked()
                    &&& parse_spec(value.spec_bytes()) is Some
                    &&& parse_fits(value.spec_bytes())
                    &&& ctor_ok(*old(ctx), *final(ctx), v.id())
                    &&& v.repr().wf()
                    &&& Some(v.val()) == parse_spec(value.spec_bytes())
                    &&& v.ctx_of() == old(ctx).ctx_ref()
                    &&& v.owned_by(*final(ctx))
                },
                Err(e) => {
                    &&& e is ParseError
                    &&& (has_nul(value.spec_bytes()) ==> *final(ctx) == *old(ctx))
                    &&& (!has_nul(value.spec_bytes()) && old(ctx).call_blocked() ==> call_refused(
                        *old(ctx),
                        *final(ctx),
                    ))
                    &&& (!has_nul(value.spec_bytes()) && !old(ctx).call_blocked() ==> (parse_spec(
                        value.spec_bytes(),
                    ) is None || !parse_fits(value.spec_bytes())) && call_admitted(
                        *old(ctx),
                        *final(ctx),
                    ))
                },
            },
    {
        let b = value.as_bytes();
        if has_nul_scan(b) {
            return Err(Error::ParseError);
        }
        let parsed = parse_bytes(b);
        let ok = ctx.admit_call();
        if !ok {
            return Err(Error::ParseError);
        }
        match parsed {
            Some(v) => {
                let id = ctx.ledger_alloc();
                Ok(Value { ctx: ctx.context_ref(), v, id })
            },
            None => Err(Error::ParseError),
        }
    }
}

/// Whether the bytes hold an embedded NUL.
pub(crate) fn has_nul_scan(b: &[u8]) -> (r: bool)
    ensures
        r == has_nul(b@),
{
    let n = b.len();
    let mut i: usize = 0;
    while i < n
        invariant
            i <= n,
            n == b@.len(),
            forall|m: int| 0 <= m < i ==> b@[m] != 0,
        decreases n - i,
    {
        if b[i] == 0 {
            return true;
        }
        i = i + 1;
    }
    false
}

/// The integer encoded by little-endian 32-bit chunks.
pub open spec fn chunks_val(s: Seq<u32>) -> nat
    decreases s.len(),
{
    if s.len() == 0 {
        0
    } else {
        (s[0] + 0x1_0000_0000 * chunks_val(s.drop_first())) as nat
    }
}

/// The whole encoding reads at least as much as any of its tails.
proof fn lemma_chunks_prefix_ge(s: Seq<u32>, i: int)
    requires
        0 <= i <= s.len(),
    ensures
        chunks_val(s) >= chunks_val(s.subrange(i, s.len() as int)),
    decreases i,
{
    if i == 0 {
        assert(s.subrange(0, s.len() as int) =~= s);
    } else {
        lemma_chunks_prefix_ge(s, i - 1);
        let t = s.subrange(i - 1, s.len() as int);
        assert(t.drop_first() =~= s.subrange(i, s.len() as int));
        let v = chunks_val(s.subrange(i, s.len() as int));
        assert(0x1_0000_0000 * v >= v) by (nonlinear_arith)
            requires
                v >= 0,
        ;
    }
}

impl Value {
    /// An integer assembled from little-endian 32-bit chunks; one that
    /// does not fit the stored words is reported as the foreign
    /// allocation failure.
    pub fn new_chunks(ctx: &mut Context, chunks: &[u32]) -> (r: Result<Value, Error>)
        requires
            old(ctx).wf(),
            old(ctx).allocs() < u64::MAX,
        ensures
            final(ctx).wf(),
            match r {
                Ok(v) => {
                    &&& !old(ctx).call_blocked()
                    &&& chunks_val(chunks@) <= i64::MAX as nat
                    &&& ctor_ok(*old(ctx), *final(ctx), v.id())
                    &&& v.repr().wf()
                    &&& v.val() == RatV::Num { n: chunks_val(chunks@) as int, d: 1 }
                    &&& v.ctx_of() == old(ctx).ctx_ref()
                    &&& v.owned_by(*final(ctx))
                },
                Err(e) => {
                    &&& old(ctx).call_blocked() || chunks_val(chunks@) > i64::MAX as nat
                    &&& (old(ctx).call_blocked() ==> call_refused(*old(ctx), *final(ctx))
                        && refusal_err_matches(*old(ctx), e))
                    &&& (!old(ctx).call_blocked() ==> ctor_fail_recorded(
                        *old(ctx),
                        *final(ctx),
                        ISLErrorKind::Alloc,
                    ) && recorded_err_matches(e, ISLErrorKind::Alloc))
                },
            },
    {
        let ok = ctx.admit_call();
        if !ok {
            return Err(Error::IslError(ctx.last_error_or_unknown()));
        }
        let n = chunks.len();
        let mut i = n;
        let mut acc: u64 = 0;
        while i > 0
            invariant
                i <= n,
                n == chunks@.len(),
                acc == chunks_val(chunks@.subrange(i as int, n as int)),
                acc <= i64::MAX as u64,
                call_admitted(*old(ctx), *ctx),
                old(ctx).wf(),
                ctx.wf(),
                old(ctx).allocs() < u64::MAX,
            decreases i,
        {
            i = i - 1;
            let c = chunks[i];
            let wide: u128 = c as u128 + 0x1_0000_0000u128 * (acc as u128);
            proof {
                let t = chunks@.subrange(i as int, n as int);
                assert(t.drop_first() =~= chunks@.subrange(i as int + 1, n as int));
            }
            if wide > 0x7fff_ffff_ffff_ffffu128 {
                proof {
                    lemma_chunks_prefix_ge(chunks@, i as int);
                }
                return Err(Error::IslError(ctx.fail_with(ISLErrorKind::Alloc)));
            }
            acc = wide as u64;
        }
        proof {
            assert(chunks@.subrange(0, n as int) =~= chunks@);
        }
        let id = ctx.ledger_alloc();
        Ok(Value { ctx: ctx.context_ref(), v: ValRepr::Rat { num: acc as i64, den: 1 }, id })
    }
}


impl crate::list::IslHandle for Value {
    open spec fn hid(&self) -> nat {
        self.id()
    }

    open spec fn hctx(&self) -> ContextRef {
        self.ctx_of()
    }

    open spec fn hwf(&self) -> bool {
        self.repr().wf()
    }

    open spec fn payload_eq(&self, other: &Value) -> bool {
        self.repr() == other.repr()
    }

    fn copy_h(&self, ctx: &mut Context) -> (r: Value) {
        self.copy(ctx)
    }

    fn free_h(self, ctx: &mut Context) {
        self.free(ctx)
    }
}

} // verus!






