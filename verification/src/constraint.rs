//! The owned handle for constraints: one equality or inequality over the
//! dimensions of a local space, with integer coefficients and constant.

use vstd::prelude::*;

use crate::context::{
    alloc_one, free_one, refusal_err_matches, op1_fail_recorded, op1_refused, op1_ok,
    op2_fail_recorded, op2_refused, op2_ok, recorded_err_matches, Context, ContextRef,
};
use crate::error::{Error, ISLErrorKind};
use crate::local_space::{LocalSpace, LocalSpaceV, LsRepr};
use crate::rat::ValRepr;
use crate::space::Space;
use crate::value::Value;
use crate::DimType;

verus! {

/// An owned handle to a foreign constraint object.
pub struct Constraint {
    pub(crate) ctx: ContextRef,
    pub(crate) is_eq: bool,
    pub(crate) ls: LsRepr,
    pub(crate) c: i64,
    pub(crate) cp: Vec<i64>,
    pub(crate) ci: Vec<i64>,
    pub(crate) co: Vec<i64>,
    pub(crate) id: Ghost<nat>,
}

/// The mathematical reading of a constraint: its sense, local space,
/// constant and coefficient rows.
pub struct ConstraintV {
    pub is_eq: bool,
    pub ls: LocalSpaceV,
    pub c: int,
    pub cp: Seq<int>,
    pub ci: Seq<int>,
    pub co: Seq<int>,
}

pub open spec fn coeffs_v(v: Seq<i64>) -> Seq<int> {
    Seq::new(v.len(), |i: int| v[i] as int)
}

/// A stored coefficient stays within a range closed under negation.
pub open spec fn coeff_ok(x: int) -> bool {
    -0x4000_0000_0000_0000 <= x <= 0x4000_0000_0000_0000
}

/// A stored constant stays within a range closed under this sense's
/// negation: `x -> -x` for equalities, `x -> -x - 1` for inequalities.
pub open spec fn const_ok(is_eq: bool, x: int) -> bool {
    if is_eq {
        -0x4000_0000_0000_0000 <= x <= 0x4000_0000_0000_0000
    } else {
        -0x4000_0000_0000_0001 <= x <= 0x4000_0000_0000_0000
    }
}

impl ConstraintV {
    /// The coefficient row of the given dimension kind.
    pub open spec fn row_of(self, dt: DimType) -> Seq<int> {
        match dt {
            DimType::Param => self.cp,
            DimType::In => self.ci,
            _ => self.co,
        }
    }
}

/// A zeroed coefficient row.
fn zero_row(n: u32) -> (r: Vec<i64>)
    ensures
        r@.len() == n,
        forall|i: int| 0 <= i < n ==> r@[i] == 0i64,
{
    let mut v: Vec<i64> = Vec::new();
    let mut i: u32 = 0;
    while i < n
        invariant
            i <= n,
            v@.len() == i,
            forall|k: int| 0 <= k < i ==> v@[k] == 0i64,
        decreases n - i,
    {
        v.push(0);
        i = i + 1;
    }
    v
}

impl Constraint {
    pub open(crate) spec fn cv(&self) -> ConstraintV {
        ConstraintV {
            is_eq: self.is_eq,
            ls: self.ls.lv(),
            c: self.c as int,
            cp: coeffs_v(self.cp@),
            ci: coeffs_v(self.ci@),
            co: coeffs_v(self.co@),
        }
    }

    pub open(crate) spec fn id(&self) -> nat {
        self.id@
    }

    pub open(crate) spec fn ctx_of(&self) -> ContextRef {
        self.ctx
    }

    /// Rows match the local space's dimension counts and every stored
    /// word leaves room for negation.
    pub open(crate) spec fn cwf(&self) -> bool {
        &&& self.ls.lwf()
        &&& self.cp@.len() == self.ls.s.n_param
        &&& self.ci@.len() == self.ls.s.n_in
        &&& self.co@.len() == self.ls.s.n_out
        &&& const_ok(self.is_eq, self.c as int)
        &&& forall|i: int| 0 <= i < self.cp@.len() ==> coeff_ok(#[trigger] self.cp@[i] as int)
        &&& forall|i: int| 0 <= i < self.ci@.len() ==> coeff_ok(#[trigger] self.ci@[i] as int)
        &&& forall|i: int| 0 <= i < self.co@.len() ==> coeff_ok(#[trigger] self.co@[i] as int)
    }

    pub open(crate) spec fn owned_by(&self, c: Context) -> bool {
        &&& self.ctx == c.ctx_ref()
        &&& c.live().contains(self.id@)
        &&& self.cwf()
    }

    pub fn context_ref(&self) -> (r: ContextRef)
        ensures
            r == self.ctx_of(),
    {
        self.ctx
    }

    /// Diagnostic print entry point; no observable effect.
    pub fn dump(&self) {
    }

    /// A zeroed equality constraint over the given local space, which is
    /// consumed.
    pub fn new_equality(local_space: LocalSpace, ctx: &mut Context) -> (r: Constraint)
        requires
            old(ctx).wf(),
            local_space.owned_by(*old(ctx)),
            old(ctx).allocs() < u64::MAX,
        ensures
            final(ctx).wf(),
            crate::context::xform1(*old(ctx), *final(ctx), local_space.id(), r.id()),
            r.cv().is_eq,
            r.cv().ls == local_space.lv(),
            r.cv().c == 0,
            r.cv().cp == Seq::new(local_space.lv().sp.n_param as nat, |i: int| 0int),
            r.cv().ci == Seq::new(local_space.lv().sp.n_in as nat, |i: int| 0int),
            r.cv().co == Seq::new(local_space.lv().sp.n_out as nat, |i: int| 0int),
            r.ctx_of() == old(ctx).ctx_ref(),
            r.owned_by(*final(ctx)),
    {
        Constraint::new_with_sense(local_space, true, ctx)
    }

    /// A zeroed inequality constraint over the given local space, which is
    /// consumed.
    pub fn new_inequality(local_space: LocalSpace, ctx: &mut Context) -> (r: Constraint)
        requires
            old(ctx).wf(),
            local_space.owned_by(*old(ctx)),
            old(ctx).allocs() < u64::MAX,
        ensures
            final(ctx).wf(),
            crate::context::xform1(*old(ctx), *final(ctx), local_space.id(), r.id()),
            !r.cv().is_eq,
            r.cv().ls == local_space.lv(),
            r.cv().c == 0,
            r.cv().cp == Seq::new(local_space.lv().sp.n_param as nat, |i: int| 0int),
            r.cv().ci == Seq::new(local_space.lv().sp.n_in as nat, |i: int| 0int),
            r.cv().co == Seq::new(local_space.lv().sp.n_out as nat, |i: int| 0int),
            r.ctx_of() == old(ctx).ctx_ref(),
            r.owned_by(*final(ctx)),
    {
        Constraint::new_with_sense(local_space, false, ctx)
    }

    /// The shared constructor body of the two senses.
    fn new_with_sense(local_space: LocalSpace, is_eq: bool, ctx: &mut Context) -> (r: Constraint)
        requires
            old(ctx).wf(),
            local_space.owned_by(*old(ctx)),
            old(ctx).allocs() < u64::MAX,
        ensures
            final(ctx).wf(),
            crate::context::xform1(*old(ctx), *final(ctx), local_space.id(), r.id()),
            r.cv().is_eq == is_eq,
            r.cv().ls == local_space.lv(),
            r.cv().c == 0,
            r.cv().cp == Seq::new(local_space.lv().sp.n_param as nat, |i: int| 0int),
            r.cv().ci == Seq::new(local_space.lv().sp.n_in as nat, |i: int| 0int),
            r.cv().co == Seq::new(local_space.lv().sp.n_out as nat, |i: int| 0int),
            r.ctx_of() == old(ctx).ctx_ref(),
            r.owned_by(*final(ctx)),
    {
        let cref = local_space.context_ref();
        let ghost ida = local_space.id@;
        ctx.ledger_free(Ghost(ida));
        let ls = local_space.rep;
        let cp = zero_row(ls.s.n_param);
        let ci = zero_row(ls.s.n_in);
        let co = zero_row(ls.s.n_out);
        let id = ctx.ledger_alloc();
        let r = Constraint { ctx: cref, is_eq, ls, c: 0, cp, ci, co, id };
        proof {
            assert(r.cv().cp =~= Seq::new(local_space.lv().sp.n_param as nat, |i: int| 0int));
            assert(r.cv().ci =~= Seq::new(local_space.lv().sp.n_in as nat, |i: int| 0int));
            assert(r.cv().co =~= Seq::new(local_space.lv().sp.n_out as nat, |i: int| 0int));
        }
        r
    }

    /// The constraint's space, as a newly owned copy.
    pub fn get_space(&self, ctx: &mut Context) -> (r: Space)
        requires
            old(ctx).wf(),
            self.owned_by(*old(ctx)),
            old(ctx).allocs() < u64::MAX,
        ensures
            final(ctx).wf(),
            alloc_one(*old(ctx), *final(ctx), r.id()),
            r.sv() == self.cv().ls.sp,
            r.ctx_of() == self.ctx_of(),
            r.owned_by(*final(ctx)),
            self.owned_by(*final(ctx)),
    {
        let id = ctx.ledger_alloc();
        Space { ctx: self.ctx, s: self.ls.s.clone_repr(), id }
    }

    /// The constraint's local space, as a newly owned copy.
    pub fn get_local_space(&self, ctx: &mut Context) -> (r: LocalSpace)
        requires
            old(ctx).wf(),
            self.owned_by(*old(ctx)),
            old(ctx).allocs() < u64::MAX,
        ensures
            final(ctx).wf(),
            alloc_one(*old(ctx), *final(ctx), r.id()),
            r.lv() == self.cv().ls,
            r.ctx_of() == self.ctx_of(),
            r.owned_by(*final(ctx)),
            self.owned_by(*final(ctx)),
    {
        let id = ctx.ledger_alloc();
        LocalSpace { ctx: self.ctx, rep: self.ls.clone_repr(), id }
    }

    /// The count of the given dimension kind.
    pub fn dim(&self, dim_type: DimType) -> (r: Option<u32>)
        requires
            self.cwf(),
        ensures
            r == Some(self.cv().ls.dim_of(dim_type)),
    {
        Some(
            match dim_type {
                DimType::Param => self.ls.s.n_param,
                DimType::In => self.ls.s.n_in,
                DimType::Out => self.ls.s.n_out,
                DimType::Div => self.ls.n_div,
                DimType::All => self.ls.s.n_param + self.ls.s.n_in + self.ls.s.n_out
                    + self.ls.n_div,
                DimType::Cst => 0,
            },
        )
    }

    /// Whether this constraint is an equality.
    pub fn is_equality(&self) -> (r: Option<bool>)
        ensures
            r == Some(self.cv().is_eq),
    {
        Some(self.is_eq)
    }

    /// Whether this constraint defines a divisor dimension; this model
    /// carries none.
    pub fn is_div_constraint(&self) -> (r: Option<bool>)
        ensures
            r == Some(false),
    {
        Some(false)
    }

    /// Whether this constraint is a lower bound on the given dimension: a
    /// positive coefficient there.  A position out of range is a foreign
    /// error.
    pub fn is_lower_bound(&self, dim_type: DimType, pos: u32) -> (r: Option<bool>)
        requires
            self.cwf(),
            dim_type is Param || dim_type is In || dim_type is Out,
        ensures
            r == (if pos < self.cv().ls.dim_of(dim_type) {
                Some(self.cv().row_of(dim_type)[pos as int] > 0)
            } else {
                None::<bool>
            }),
    {
        let row = match dim_type {
            DimType::Param => &self.cp,
            DimType::In => &self.ci,
            _ => &self.co,
        };
        if (pos as usize) < row.len() {
            Some(row[pos as usize] > 0)
        } else {
            None
        }
    }

    /// Whether this constraint is an upper bound on the given dimension: a
    /// negative coefficient there.
    pub fn is_upper_bound(&self, dim_type: DimType, pos: u32) -> (r: Option<bool>)
        requires
            self.cwf(),
            dim_type is Param || dim_type is In || dim_type is Out,
        ensures
            r == (if pos < self.cv().ls.dim_of(dim_type) {
                Some(self.cv().row_of(dim_type)[pos as int] < 0)
            } else {
                None::<bool>
            }),
    {
        let row = match dim_type {
            DimType::Param => &self.cp,
            DimType::In => &self.ci,
            _ => &self.co,
        };
        if (pos as usize) < row.len() {
            Some(row[pos as usize] < 0)
        } else {
            None
        }
    }

    /// Whether any dimension of the given range has a nonzero coefficient.
    /// A range beyond the dimension count is a foreign error.
    pub fn involves_dims(&self, dim_type: DimType, from: u32, num: u32) -> (r: Option<bool>)
        requires
            self.cwf(),
            dim_type is Param || dim_type is In || dim_type is Out,
        ensures
            r == (if from + num <= self.cv().ls.dim_of(dim_type) {
                Some(
                    exists|k: int|
                        from <= k < from + num && #[trigger] self.cv().row_of(dim_type)[k] != 0,
                )
            } else {
                None::<bool>
            }),
    {
        let row = match dim_type {
            DimType::Param => &self.cp,
            DimType::In => &self.ci,
            _ => &self.co,
        };
        if (from as usize) > row.len() || (num as usize) > row.len() - (from as usize) {
            return None;
        }
        let end = (from as usize) + (num as usize);
        let mut k = from as usize;
        while k < end
            invariant
                from as usize <= k <= end,
                end <= row@.len(),
                end == from + num,
                from + num <= self.cv().ls.dim_of(dim_type),
                coeffs_v(row@) == self.cv().row_of(dim_type),
                forall|m: int| from <= m < k ==> self.cv().row_of(dim_type)[m] == 0,
            decreases end - k,
        {
            if row[k] != 0 {
                proof {
                    assert(self.cv().row_of(dim_type)[k as int] != 0);
                }
                return Some(true);
            }
            k = k + 1;
        }
        Some(false)
    }

    /// One dimension's name, borrowed through this handle; an unnamed or
    /// out-of-range dimension is a foreign error, read from the owning
    /// context's error slot.
    pub fn get_dim_name(&self, dim_type: DimType, pos: u32, ctx: &Context) -> (r: Result<
        &str,
        Error,
    >)
        requires
            self.cwf(),
            dim_type is Param || dim_type is In || dim_type is Out,
        ensures
            match r {
                Ok(s) => pos < self.cv().ls.dim_of(dim_type) && self.cv().ls.names_of(dim_type)[
                    pos as int] == Some(s@),
                Err(e) => (pos >= self.cv().ls.dim_of(dim_type) || self.cv().ls.names_of(dim_type)[
                    pos as int] is None) && (match e {
                    Error::IslError(ie) => ie.kind == ctx.reported_kind() && ie.message@
                        == ctx.reported_msg(),
                    _ => false,
                }),
            },
    {
        let names = match dim_type {
            DimType::Param => &self.ls.p_names,
            DimType::In => &self.ls.i_names,
            _ => &self.ls.o_names,
        };
        if (pos as usize) < names.len() {
            match &names[pos as usize] {
                Some(s) => Ok(s.as_str()),
                None => Err(Error::IslError(ctx.last_error_or_unknown())),
            }
        } else {
            Err(Error::IslError(ctx.last_error_or_unknown()))
        }
    }

    /// The constant term as a newly owned value.
    pub fn get_constant(&self, ctx: &mut Context) -> (r: Value)
        requires
            old(ctx).wf(),
            self.owned_by(*old(ctx)),
            old(ctx).allocs() < u64::MAX,
        ensures
            final(ctx).wf(),
            alloc_one(*old(ctx), *final(ctx), r.id()),
            r.val() == (crate::rat::RatV::Num { n: self.cv().c, d: 1 }),
            r.repr().wf(),
            r.ctx_of() == self.ctx_of(),
            r.owned_by(*final(ctx)),
            self.owned_by(*final(ctx)),
    {
        let id = ctx.ledger_alloc();
        Value { ctx: self.ctx, v: ValRepr::Rat { num: self.c, den: 1 }, id }
    }

    /// One coefficient as a newly owned value; a position out of range
    /// yields `None` and allocates nothing.
    pub fn get_coefficient(&self, dim_type: DimType, pos: u32, ctx: &mut Context) -> (r: Option<
        Value,
    >)
        requires
            old(ctx).wf(),
            self.owned_by(*old(ctx)),
            old(ctx).allocs() < u64::MAX,
            dim_type is Param || dim_type is In || dim_type is Out,
        ensures
            final(ctx).wf(),
            match r {
                Some(v) => {
                    &&& pos < self.cv().ls.dim_of(dim_type)
                    &&& alloc_one(*old(ctx), *final(ctx), v.id())
                    &&& v.val() == crate::rat::RatV::Num {
                        n: self.cv().row_of(dim_type)[pos as int],
                        d: 1,
                    }
                    &&& v.ctx_of() == self.ctx_of()
                    &&& v.owned_by(*final(ctx))
                },
                None => pos >= self.cv().ls.dim_of(dim_type) && *final(ctx) == *old(ctx),
            },
    {
        let row = match dim_type {
            DimType::Param => &self.cp,
            DimType::In => &self.ci,
            _ => &self.co,
        };
        if (pos as usize) < row.len() {
            let id = ctx.ledger_alloc();
            Some(Value { ctx: self.ctx, v: ValRepr::Rat { num: row[pos as usize], den: 1 }, id })
        } else {
            None
        }
    }

    /// Set the constant term, consuming this handle.
    pub fn set_constant_si(self, si: i32, ctx: &mut Context) -> (r: Result<Constraint, Error>)
        requires
            old(ctx).wf(),
            self.owned_by(*old(ctx)),
            old(ctx).allocs() < u64::MAX,
        ensures
            final(ctx).wf(),
            match r {
                Ok(out) => {
                    &&& op1_ok(*old(ctx), *final(ctx), self.id(), out.id())
                    &&& out.cv() == (ConstraintV { c: si as int, ..self.cv() })
                    &&& out.ctx_of() == old(ctx).ctx_ref()
                    &&& out.owned_by(*final(ctx))
                },
                Err(e) => old(ctx).call_blocked() && op1_refused(
                    *old(ctx),
                    *final(ctx),
                    self.id(),
                ) && refusal_err_matches(*old(ctx), e),
            },
    {
        let cref = self.context_ref();
        let ghost ida = self.id@;
        match ctx.consume1(Ghost(ida)) {
            Some(e) => Err(Error::IslError(e)),
            None => {
                let mut out = self;
                out.c = si as i64;
                let id = ctx.ledger_alloc();
                out.id = id;
                out.ctx = cref;
                Ok(out)
            },
        }
    }

    /// Set the constant term from a value, consuming both handles; a
    /// value that is not an integer of the stored word range is an invalid
    /// argument reported by the foreign side.
    pub fn set_constant_val(self, value: Value, ctx: &mut Context) -> (r: Result<Constraint, Error>)
        requires
            old(ctx).wf(),
            self.owned_by(*old(ctx)),
            value.owned_by(*old(ctx)),
            self.id() != value.id(),
            old(ctx).allocs() < u64::MAX,
        ensures
            final(ctx).wf(),
            match r {
                Ok(out) => {
                    &&& value.repr() matches ValRepr::Rat { num, den } && den == 1 && const_ok(
                        self.cv().is_eq,
                        num as int,
                    )
                    &&& op2_ok(*old(ctx), *final(ctx), self.id(), value.id(), out.id())
                    &&& out.cv() == (ConstraintV {
                        c: value.repr()->Rat_num as int,
                        ..self.cv()
                    })
                    &&& out.ctx_of() == old(ctx).ctx_ref()
                    &&& out.owned_by(*final(ctx))
                },
                Err(e) => {
                    &&& (old(ctx).call_blocked() ==> op2_refused(
                        *old(ctx),
                        *final(ctx),
                        self.id(),
                        value.id(),
                    ) && refusal_err_matches(*old(ctx), e))
                    &&& (!old(ctx).call_blocked() ==> !(value.repr() matches ValRepr::Rat {
                        num,
                        den,
                    } && den == 1 && const_ok(self.cv().is_eq, num as int)) && op2_fail_recorded(
                        *old(ctx),
                        *final(ctx),
                        self.id(),
                        value.id(),
                        ISLErrorKind::Invalid,
                    ) && recorded_err_matches(e, ISLErrorKind::Invalid))
                },
            },
    {
        let cref = self.context_ref();
        let ghost ida = self.id@;
        let ghost idb = value.id@;
        let vr = value.v;
        match ctx.consume2(Ghost(ida), Ghost(idb)) {
            Some(e) => Err(Error::IslError(e)),
            None => {
                let lo: i64 = if self.is_eq {
                    -0x4000_0000_0000_0000
                } else {
                    -0x4000_0000_0000_0001
                };
                let n = match vr {
                    ValRepr::Rat { num, den } => if den == 1 && num >= lo && num
                        <= 0x4000_0000_0000_0000 {
                        Some(num)
                    } else {
                        None
                    },
                    _ => None,
                };
                match n {
                    Some(num) => {
                        let mut out = self;
                        out.c = num;
                        let id = ctx.ledger_alloc();
                        out.id = id;
                        out.ctx = cref;
                        Ok(out)
                    },
                    None => Err(Error::IslError(ctx.fail_with(ISLErrorKind::Invalid))),
                }
            },
        }
    }

    /// Set one coefficient, consuming this handle; a position out of
    /// range is an invalid argument reported by the foreign side.
    pub fn set_coefficient_si(self, dim_type: DimType, pos: u32, si: i32, ctx: &mut Context) -> (r:
        Result<Constraint, Error>)
        requires
            old(ctx).wf(),
            self.owned_by(*old(ctx)),
            old(ctx).allocs() < u64::MAX,
            dim_type is Param || dim_type is In || dim_type is Out,
        ensures
            final(ctx).wf(),
            match r {
                Ok(out) => {
                    &&& pos < self.cv().ls.dim_of(dim_type)
                    &&& op1_ok(*old(ctx), *final(ctx), self.id(), out.id())
                    &&& out.cv().row_of(dim_type) == self.cv().row_of(dim_type).update(
                        pos as int,
                        si as int,
                    )
                    &&& out.cv().is_eq == self.cv().is_eq
                    &&& out.cv().ls == self.cv().ls
                    &&& out.cv().c == self.cv().c
                    &&& (dim_type is Param ==> out.cv().ci == self.cv().ci && out.cv().co
                        == self.cv().co)
                    &&& (dim_type is In ==> out.cv().cp == self.cv().cp && out.cv().co
                        == self.cv().co)
                    &&& (dim_type is Out ==> out.cv().cp == self.cv().cp && out.cv().ci
                        == self.cv().ci)
                    &&& out.ctx_of() == old(ctx).ctx_ref()
                    &&& out.owned_by(*final(ctx))
                },
                Err(e) => {
                    &&& (old(ctx).call_blocked() ==> op1_refused(
                        *old(ctx),
                        *final(ctx),
                        self.id(),
                    ) && refusal_err_matches(*old(ctx), e))
                    &&& (!old(ctx).call_blocked() ==> pos >= self.cv().ls.dim_of(dim_type)
                        && op1_fail_recorded(
                        *old(ctx),
                        *final(ctx),
                        self.id(),
                        ISLErrorKind::Invalid,
                    ) && recorded_err_matches(e, ISLErrorKind::Invalid))
                },
            },
    {
        let cref = self.context_ref();
        let ghost ida = self.id@;
        match ctx.consume1(Ghost(ida)) {
            Some(e) => Err(Error::IslError(e)),
            None => {
                let mut out = self;
                out.ctx = cref;
                let ok = match dim_type {
                    DimType::Param => {
                        if (pos as usize) < out.cp.len() {
                            out.cp.set(pos as usize, si as i64);
                            true
                        } else {
                            false
                        }
                    },
                    DimType::In => {
                        if (pos as usize) < out.ci.len() {
                            out.ci.set(pos as usize, si as i64);
                            true
                        } else {
                            false
                        }
                    },
                    _ => {
                        if (pos as usize) < out.co.len() {
                            out.co.set(pos as usize, si as i64);
                            true
                        } else {
                            false
                        }
                    },
                };
                if ok {
                    let id = ctx.ledger_alloc();
                    out.id = id;
                    proof {
                        assert(out.cv().row_of(dim_type) =~= self.cv().row_of(dim_type).update(
                            pos as int,
                            si as int,
                        ));
                    }
                    Ok(out)
                } else {
                    Err(Error::IslError(ctx.fail_with(ISLErrorKind::Invalid)))
                }
            },
        }
    }

    /// Set one coefficient from a value, consuming both handles; a value
    /// that is not an integer of the stored coefficient range, or a
    /// position out of range, is an invalid argument reported by the
    /// foreign side.
    pub fn set_coefficient_val(
        self,
        dim_type: DimType,
        pos: u32,
        value: Value,
        ctx: &mut Context,
    ) -> (r: Result<Constraint, Error>)
        requires
            old(ctx).wf(),
            self.owned_by(*old(ctx)),
            value.owned_by(*old(ctx)),
            self.id() != value.id(),
            old(ctx).allocs() < u64::MAX,
            dim_type is Param || dim_type is In || dim_type is Out,
        ensures
            final(ctx).wf(),
            match r {
                Ok(out) => {
                    &&& pos < self.cv().ls.dim_of(dim_type)
                    &&& value.repr() matches ValRepr::Rat { num, den } && den == 1 && coeff_ok(
                        num as int,
                    )
                    &&& op2_ok(*old(ctx), *final(ctx), self.id(), value.id(), out.id())
                    &&& out.cv().row_of(dim_type) == self.cv().row_of(dim_type).update(
                        pos as int,
                        value.repr()->Rat_num as int,
                    )
                    &&& out.cv().is_eq == self.cv().is_eq
                    &&& out.cv().ls == self.cv().ls
                    &&& out.cv().c == self.cv().c
                    &&& out.ctx_of() == old(ctx).ctx_ref()
                    &&& out.owned_by(*final(ctx))
                },
                Err(e) => {
                    &&& (old(ctx).call_blocked() ==> op2_refused(
                        *old(ctx),
                        *final(ctx),
                        self.id(),
                        value.id(),
                    ) && refusal_err_matches(*old(ctx), e))
                    &&& (!old(ctx).call_blocked() ==> (pos >= self.cv().ls.dim_of(dim_type) || !(
                    value.repr() matches ValRepr::Rat { num, den } && den == 1 && coeff_ok(
                        num as int,
                    ))) && op2_fail_recorded(
                        *old(ctx),
                        *final(ctx),
                        self.id(),
                        value.id(),
                        ISLErrorKind::Invalid,
                    ) && recorded_err_matches(e, ISLErrorKind::Invalid))
                },
            },
    {
        let ghost ida = self.id@;
        let ghost idb = value.id@;
        let vr = value.v;
        match ctx.consume2(Ghost(ida), Ghost(idb)) {
            Some(e) => Err(Error::IslError(e)),
            None => {
                let n = match vr {
                    ValRepr::Rat { num, den } => if den == 1 && num >= -0x4000_0000_0000_0000i64
                        && num <= 0x4000_0000_0000_0000i64 {
                        Some(num)
                    } else {
                        None
                    },
                    _ => None,
                };
                let num = match n {
                    Some(num) => num,
                    None => {
                        return Err(Error::IslError(ctx.fail_with(ISLErrorKind::Invalid)));
                    },
                };
                let mut out = self;
                let ok = match dim_type {
                    DimType::Param => {
                        if (pos as usize) < out.cp.len() {
                            out.cp.set(pos as usize, num);
                            true
                        } else {
                            false
                        }
                    },
                    DimType::In => {
                        if (pos as usize) < out.ci.len() {
                            out.ci.set(pos as usize, num);
                            true
                        } else {
                            false
                        }
                    },
                    _ => {
                        if (pos as usize) < out.co.len() {
                            out.co.set(pos as usize, num);
                            true
                        } else {
                            false
                        }
                    },
                };
                if ok {
                    let id = ctx.ledger_alloc();
                    out.id = id;
                    proof {
                        assert(out.cv().row_of(dim_type) =~= self.cv().row_of(dim_type).update(
                            pos as int,
                            num as int,
                        ));
                    }
                    Ok(out)
                } else {
                    Err(Error::IslError(ctx.fail_with(ISLErrorKind::Invalid)))
                }
            },
        }
    }

    /// Negate this constraint in the foreign library's integer sense: an
    /// inequality `e >= 0` becomes `-e - 1 >= 0`, an equality `e == 0`
    /// becomes `-e == 0`.
    pub fn negate(self, ctx: &mut Context) -> (r: Constraint)
        requires
            old(ctx).wf(),
            self.owned_by(*old(ctx)),
            old(ctx).allocs() < u64::MAX,
        ensures
            final(ctx).wf(),
            crate::context::xform1(*old(ctx), *final(ctx), self.id(), r.id()),
            r.cv().is_eq == self.cv().is_eq,
            r.cv().ls == self.cv().ls,
            r.cv().c == (if self.cv().is_eq {
                -self.cv().c
            } else {
                -self.cv().c - 1
            }),
            r.cv().cp == self.cv().cp.map_values(|x: int| -x),
            r.cv().ci == self.cv().ci.map_values(|x: int| -x),
            r.cv().co == self.cv().co.map_values(|x: int| -x),
            r.ctx_of() == old(ctx).ctx_ref(),
            r.owned_by(*final(ctx)),
    {
        let cref = self.context_ref();
        let ghost ida = self.id@;
        ctx.ledger_free(Ghost(ida));
        let mut out = self;
        out.ctx = cref;
        out.c = if out.is_eq {
            -out.c
        } else {
            -out.c - 1
        };
        out.cp = negate_row(&out.cp);
        out.ci = negate_row(&out.ci);
        out.co = negate_row(&out.co);
        let id = ctx.ledger_alloc();
        out.id = id;
        proof {
            assert(out.cv().cp =~= self.cv().cp.map_values(|x: int| -x));
            assert(out.cv().ci =~= self.cv().ci.map_values(|x: int| -x));
            assert(out.cv().co =~= self.cv().co.map_values(|x: int| -x));
        }
        out
    }

    /// The foreign copy entry point.
    pub fn copy(&self, ctx: &mut Context) -> (r: Constraint)
        requires
            old(ctx).wf(),
            self.owned_by(*old(ctx)),
            old(ctx).allocs() < u64::MAX,
        ensures
            final(ctx).wf(),
            alloc_one(*old(ctx), *final(ctx), r.id()),
            r.cv() == self.cv(),
            r.ctx_of() == self.ctx_of(),
            r.owned_by(*final(ctx)),
            self.owned_by(*final(ctx)),
    {
        let id = ctx.ledger_alloc();
        let r = Constraint {
            ctx: self.ctx,
            is_eq: self.is_eq,
            ls: self.ls.clone_repr(),
            c: self.c,
            cp: clone_row(&self.cp),
            ci: clone_row(&self.ci),
            co: clone_row(&self.co),
            id,
        };
        proof {
            assert(r.cv().cp =~= self.cv().cp);
            assert(r.cv().ci =~= self.cv().ci);
            assert(r.cv().co =~= self.cv().co);
        }
        r
    }

    /// Destroy the foreign object behind this handle.
    pub fn free(self, ctx: &mut Context)
        requires
            old(ctx).wf(),
            self.owned_by(*old(ctx)),
        ensures
            final(ctx).wf(),
            free_one(*old(ctx), *final(ctx), self.id()),
    {
        ctx.ledger_free(Ghost(self.id@));
    }
}

/// A copy of one coefficient row.
fn clone_row(v: &Vec<i64>) -> (r: Vec<i64>)
    ensures
        r@ == v@,
{
    let mut out: Vec<i64> = Vec::new();
    let mut i: usize = 0;
    while i < v.len()
        invariant
            i <= v@.len(),
            out@ == v@.subrange(0, i as int),
        decreases v@.len() - i,
    {
        out.push(v[i]);
        i = i + 1;
    }
    proof {
        assert(v@.subrange(0, v@.len() as int) =~= v@);
    }
    out
}

/// The negation of one coefficient row.
fn negate_row(v: &Vec<i64>) -> (r: Vec<i64>)
    requires
        forall|i: int| 0 <= i < v@.len() ==> coeff_ok(#[trigger] v@[i] as int),
    ensures
        r@.len() == v@.len(),
        forall|i: int| 0 <= i < v@.len() ==> #[trigger] r@[i] as int == -(v@[i] as int),
        forall|i: int| 0 <= i < r@.len() ==> coeff_ok(#[trigger] r@[i] as int),
{
    let mut out: Vec<i64> = Vec::new();
    let mut i: usize = 0;
    while i < v.len()
        invariant
            i <= v@.len(),
            out@.len() == i,
            forall|k: int| 0 <= k < v@.len() ==> coeff_ok(#[trigger] v@[k] as int),
            forall|k: int| 0 <= k < i ==> #[trigger] out@[k] as int == -(v@[k] as int),
            forall|k: int| 0 <= k < i ==> coeff_ok(#[trigger] out@[k] as int),
        decreases v@.len() - i,
    {
        out.push(-v[i]);
        i = i + 1;
    }
    out
}


impl crate::list::IslHandle for Constraint {
    open spec fn hid(&self) -> nat {
        self.id()
    }

    open spec fn hctx(&self) -> ContextRef {
        self.ctx_of()
    }

    open spec fn hwf(&self) -> bool {
        self.cwf()
    }

    open spec fn payload_eq(&self, other: &Constraint) -> bool {
        self.cv() == other.cv()
    }

    fn copy_h(&self, ctx: &mut Context) -> (r: Constraint) {
        self.copy(ctx)
    }

    fn free_h(self, ctx: &mut Context) {
        self.free(ctx)
    }
}

} // verus!

