//! The owned handles for basic sets and sets: symbolic polyhedra in
//! constraint form.  A basic set is a space with a conjunction of
//! constraints; a set is a union of basic sets over one space.  The
//! binding layer keeps them in this explicit form; the polyhedral
//! computations themselves belong to the foreign library and are outside
//! this layer.

use vstd::prelude::*;
use vstd::string::StringSliceAdditionalSpecFns;

use crate::constraint::{coeffs_v, Constraint, ConstraintV};
use crate::context::{
    alloc_one, free_one, refusal_err_matches, op1_refused, op1_ok, op2_fail_recorded,
    op2_refused, op2_ok, recorded_err_matches, Context, ContextRef,
};
use crate::error::{Error, ISLErrorKind};
use crate::local_space::names_v;
use crate::space::{Space, SpaceRepr, SpaceV};
use crate::value::{has_nul, has_nul_scan};
use crate::DimType;

verus! {

/// One stored constraint of a set: its sense, constant and coefficient
/// rows; the space is the set's.
pub struct ConRec {
    pub is_eq: bool,
    pub c: i64,
    pub cp: Vec<i64>,
    pub ci: Vec<i64>,
    pub co: Vec<i64>,
}

/// The mathematical reading of one stored constraint.
pub struct ConRecV {
    pub is_eq: bool,
    pub c: int,
    pub cp: Seq<int>,
    pub ci: Seq<int>,
    pub co: Seq<int>,
}

impl ConRec {
    pub open spec fn crv(&self) -> ConRecV {
        ConRecV {
            is_eq: self.is_eq,
            c: self.c as int,
            cp: coeffs_v(self.cp@),
            ci: coeffs_v(self.ci@),
            co: coeffs_v(self.co@),
        }
    }

    /// A deep copy with the same reading.
    pub(crate) fn clone_rec(&self) -> (r: ConRec)
        ensures
            r.crv() == self.crv(),
    {
        let r = ConRec {
            is_eq: self.is_eq,
            c: self.c,
            cp: clone_i64_row(&self.cp),
            ci: clone_i64_row(&self.ci),
            co: clone_i64_row(&self.co),
        };
        r
    }
}

/// A copy of one coefficient row.
fn clone_i64_row(v: &Vec<i64>) -> (r: Vec<i64>)
    ensures
        r@ == v@,
{
    let mut out: Vec<i64> = Vec::new();
    let mut i: usize = 0;
    while i < v.len()
        invariant
            i <= v@.len(),
            out@ == v@.subrange(0, i as int),
        decreases v@.len() - i,
    {
        out.push(v[i]);
        i = i + 1;
    }
    proof {
        assert(v@.subrange(0, v@.len() as int) =~= v@);
    }
    out
}

/// The reading a constraint handle keeps of its record: the local space
/// is dropped, the set's own space stands in for it.
pub open spec fn rec_of_cv(cv: ConstraintV) -> ConRecV {
    ConRecV { is_eq: cv.is_eq, c: cv.c, cp: cv.cp, ci: cv.ci, co: cv.co }
}

pub open spec fn cons_v(v: Seq<ConRec>) -> Seq<ConRecV> {
    Seq::new(v.len(), |i: int| v[i].crv())
}

/// Two spaces are compatible for set algebra: same kind and dimension
/// counts.
pub open spec fn space_compat(a: SpaceV, b: SpaceV) -> bool {
    a.kind == b.kind && a.n_param == b.n_param && a.n_in == b.n_in && a.n_out == b.n_out
}

/// Whether two stored spaces are compatible.
pub(crate) fn space_compat_pub(a: &SpaceRepr, b: &SpaceRepr) -> (r: bool)
    ensures
        r == space_compat(a.sv(), b.sv()),
{
    let kind_eq = match (a.kind, b.kind) {
        (crate::space::SpaceKind::Params, crate::space::SpaceKind::Params) => true,
        (crate::space::SpaceKind::SetSpace, crate::space::SpaceKind::SetSpace) => true,
        (crate::space::SpaceKind::MapSpace, crate::space::SpaceKind::MapSpace) => true,
        _ => false,
    };
    kind_eq && a.n_param == b.n_param && a.n_in == b.n_in && a.n_out == b.n_out
}

/// The mathematical reading of a basic set.
pub struct BasicSetV {
    pub sp: SpaceV,
    pub cons: Seq<ConRecV>,
}

/// An owned handle to a foreign basic-set object.
pub struct BasicSet {
    pub(crate) ctx: ContextRef,
    pub(crate) s: SpaceRepr,
    pub(crate) cons: Vec<ConRec>,
    pub(crate) id: Ghost<nat>,
}

impl BasicSet {
    pub open(crate) spec fn bsv(&self) -> BasicSetV {
        BasicSetV { sp: self.s.sv(), cons: cons_v(self.cons@) }
    }

    pub open(crate) spec fn id(&self) -> nat {
        self.id@
    }

    pub open(crate) spec fn ctx_of(&self) -> ContextRef {
        self.ctx
    }

    pub open(crate) spec fn bswf(&self) -> bool {
        self.s.n_param + self.s.n_in + self.s.n_out <= u32::MAX
    }

    pub open(crate) spec fn owned_by(&self, c: Context) -> bool {
        &&& self.ctx == c.ctx_ref()
        &&& c.live().contains(self.id@)
        &&& self.bswf()
    }

    pub fn context_ref(&self) -> (r: ContextRef)
        ensures
            r == self.ctx_of(),
    {
        self.ctx
    }

    /// Diagnostic print entry point; no observable effect.
    pub fn dump(&self) {
    }

    /// The universal basic set over the given space, which is consumed.
    pub fn universe(space: Space, ctx: &mut Context) -> (r: Result<BasicSet, Error>)
        requires
            old(ctx).wf(),
            space.owned_by(*old(ctx)),
            old(ctx).allocs() < u64::MAX,
        ensures
            final(ctx).wf(),
            match r {
                Ok(bs) => {
                    &&& op1_ok(*old(ctx), *final(ctx), space.id(), bs.id())
                    &&& bs.bsv().sp == space.sv()
                    &&& bs.bsv().cons.len() == 0
                    &&& bs.ctx_of() == old(ctx).ctx_ref()
                    &&& bs.owned_by(*final(ctx))
                },
                Err(e) => old(ctx).call_blocked() && op1_refused(
                    *old(ctx),
                    *final(ctx),
                    space.id(),
                ) && refusal_err_matches(*old(ctx), e),
            },
    {
        let cref = space.context_ref();
        let ghost ida = space.id@;
        let s = space.s;
        match ctx.consume1(Ghost(ida)) {
            Some(e) => Err(Error::IslError(e)),
            None => {
                let id = ctx.ledger_alloc();
                Ok(BasicSet { ctx: cref, s, cons: Vec::new(), id })
            },
        }
    }

    /// The empty basic set over the given space: the universal set with
    /// one infeasible constraint.
    pub fn empty(space: Space, ctx: &mut Context) -> (r: Result<BasicSet, Error>)
        requires
            old(ctx).wf(),
            space.owned_by(*old(ctx)),
            old(ctx).allocs() < u64::MAX,
        ensures
            final(ctx).wf(),
            match r {
                Ok(bs) => {
                    &&& op1_ok(*old(ctx), *final(ctx), space.id(), bs.id())
                    &&& bs.bsv().sp == space.sv()
                    &&& bs.bsv().cons.len() == 1
                    &&& bs.bsv().cons[0].is_eq == false
                    &&& bs.bsv().cons[0].c == -1
                    &&& bs.ctx_of() == old(ctx).ctx_ref()
                    &&& bs.owned_by(*final(ctx))
                },
                Err(e) => old(ctx).call_blocked() && op1_refused(
                    *old(ctx),
                    *final(ctx),
                    space.id(),
                ) && refusal_err_matches(*old(ctx), e),
            },
    {
        let cref = space.context_ref();
        let ghost ida = space.id@;
        let s = space.s;
        match ctx.consume1(Ghost(ida)) {
            Some(e) => Err(Error::IslError(e)),
            None => {
                let rec = ConRec {
                    is_eq: false,
                    c: -1,
                    cp: zero_i64_row(s.n_param),
                    ci: zero_i64_row(s.n_in),
                    co: zero_i64_row(s.n_out),
                };
                let mut cons: Vec<ConRec> = Vec::new();
                cons.push(rec);
                let id = ctx.ledger_alloc();
                Ok(BasicSet { ctx: cref, s, cons, id })
            },
        }
    }

    /// The nonnegative orthant: every set dimension at least zero.
    pub fn nat_universe(space: Space, ctx: &mut Context) -> (r: Result<BasicSet, Error>)
        requires
            old(ctx).wf(),
            space.owned_by(*old(ctx)),
            old(ctx).allocs() < u64::MAX,
        ensures
            final(ctx).wf(),
            match r {
                Ok(bs) => {
                    &&& op1_ok(*old(ctx), *final(ctx), space.id(), bs.id())
                    &&& bs.bsv().sp == space.sv()
                    &&& bs.bsv().cons.len() == space.sv().n_out
                    &&& forall|i: int|
                        0 <= i < space.sv().n_out ==> (#[trigger] bs.bsv().cons[i]).is_eq == false
                            && bs.bsv().cons[i].c == 0 && bs.bsv().cons[i].co == Seq::new(
                            space.sv().n_out as nat,
                            |k: int| 0int,
                        ).update(i, 1int)
                    &&& bs.ctx_of() == old(ctx).ctx_ref()
                    &&& bs.owned_by(*final(ctx))
                },
                Err(e) => old(ctx).call_blocked() && op1_refused(
                    *old(ctx),
                    *final(ctx),
                    space.id(),
                ) && refusal_err_matches(*old(ctx), e),
            },
    {
        let cref = space.context_ref();
        let ghost ida = space.id@;
        let s = space.s;
        match ctx.consume1(Ghost(ida)) {
            Some(e) => Err(Error::IslError(e)),
            None => {
                let n = s.n_out;
                let mut cons: Vec<ConRec> = Vec::new();
                let mut i: u32 = 0;
                while i < n
                    invariant
                        i <= n,
                        cons@.len() == i,
                        forall|k: int|
                            0 <= k < i ==> (#[trigger] cons@[k].crv()).is_eq == false
                                && cons@[k].crv().c == 0 && cons@[k].crv().co == Seq::new(
                                n as nat,
                                |m: int| 0int,
                            ).update(k, 1int) && cons@[k].crv().cp.len() == s.n_param
                                && cons@[k].crv().ci.len() == s.n_in,
                    decreases n - i,
                {
                    let mut co = zero_i64_row(n);
                    co.set(i as usize, 1);
                    let rec = ConRec {
                        is_eq: false,
                        c: 0,
                        cp: zero_i64_row(s.n_param),
                        ci: zero_i64_row(s.n_in),
                        co,
                    };
                    cons.push(rec);
                    proof {
                        assert(cons@[i as int].crv().co =~= Seq::new(n as nat, |m: int| 0int)
                            .update(i as int, 1int));
                    }
                    i = i + 1;
                }
                let id = ctx.ledger_alloc();
                Ok(BasicSet { ctx: cref, s, cons, id })
            },
        }
    }

    /// The positive orthant, which this model reads as the nonnegative
    /// orthant, matching the foreign integer-set convention.
    pub fn positive_orthant(space: Space, ctx: &mut Context) -> (r: Result<BasicSet, Error>)
        requires
            old(ctx).wf(),
            space.owned_by(*old(ctx)),
            old(ctx).allocs() < u64::MAX,
        ensures
            final(ctx).wf(),
            match r {
                Ok(bs) => {
                    &&& op1_ok(*old(ctx), *final(ctx), space.id(), bs.id())
                    &&& bs.bsv().sp == space.sv()
                    &&& bs.bsv().cons.len() == space.sv().n_out
                    &&& bs.ctx_of() == old(ctx).ctx_ref()
                    &&& bs.owned_by(*final(ctx))
                },
                Err(e) => old(ctx).call_blocked() && op1_refused(
                    *old(ctx),
                    *final(ctx),
                    space.id(),
                ) && refusal_err_matches(*old(ctx), e),
            },
    {
        BasicSet::nat_universe(space, ctx)
    }

    /// The count of set dimensions.
    pub fn num_dims(&self) -> (r: Result<u32, Error>)
        ensures
            r == Ok::<u32, Error>(self.bsv().sp.n_out),
    {
        Ok(self.s.n_out)
    }

    /// The count of parameter dimensions.
    pub fn num_params(&self) -> (r: Result<u32, Error>)
        ensures
            r == Ok::<u32, Error>(self.bsv().sp.n_param),
    {
        Ok(self.s.n_param)
    }

    /// The count of all dimensions.
    pub fn total_dims(&self) -> (r: Result<u32, Error>)
        requires
            self.bswf(),
        ensures
            r == Ok::<u32, Error>(
                ((self.bsv().sp.n_param + self.bsv().sp.n_in + self.bsv().sp.n_out) as u32),
            ),
    {
        Ok(self.s.n_param + self.s.n_in + self.s.n_out)
    }

    /// The count of the given dimension kind.
    pub fn get_dims(&self, ty: DimType) -> (r: Result<u32, Error>)
        requires
            self.bswf(),
        ensures
            r == Ok::<u32, Error>(self.bsv().sp.dim_of(ty)),
    {
        Ok(
            match ty {
                DimType::Param => self.s.n_param,
                DimType::In => self.s.n_in,
                DimType::Out => self.s.n_out,
                DimType::All => self.s.n_param + self.s.n_in + self.s.n_out,
                _ => 0,
            },
        )
    }

    /// Conjoin a constraint, consuming both handles; a constraint over an
    /// incompatible space is an invalid argument reported by the foreign
    /// side.
    pub fn add_constraint(self, constraint: Constraint, ctx: &mut Context) -> (r: Result<
        BasicSet,
        Error,
    >)
        requires
            old(ctx).wf(),
            self.owned_by(*old(ctx)),
            constraint.owned_by(*old(ctx)),
            self.id() != constraint.id(),
            old(ctx).allocs() < u64::MAX,
        ensures
            final(ctx).wf(),
            match r {
                Ok(bs) => {
                    &&& space_compat(self.bsv().sp, constraint.cv().ls.sp)
                    &&& op2_ok(*old(ctx), *final(ctx), self.id(), constraint.id(), bs.id())
                    &&& bs.bsv().sp == self.bsv().sp
                    &&& bs.bsv().cons == self.bsv().cons.push(rec_of_cv(constraint.cv()))
                    &&& bs.ctx_of() == old(ctx).ctx_ref()
                    &&& bs.owned_by(*final(ctx))
                },
                Err(e) => {
                    &&& (old(ctx).call_blocked() ==> op2_refused(
                        *old(ctx),
                        *final(ctx),
                        self.id(),
                        constraint.id(),
                    ) && refusal_err_matches(*old(ctx), e))
                    &&& (!old(ctx).call_blocked() ==> !space_compat(
                        self.bsv().sp,
                        constraint.cv().ls.sp,
                    ) && op2_fail_recorded(
                        *old(ctx),
                        *final(ctx),
                        self.id(),
                        constraint.id(),
                        ISLErrorKind::Invalid,
                    ) && recorded_err_matches(e, ISLErrorKind::Invalid))
                },
            },
    {
        let ghost ida = self.id@;
        let ghost idb = constraint.id@;
        match ctx.consume2(Ghost(ida), Ghost(idb)) {
            Some(e) => Err(Error::IslError(e)),
            None => {
                if !space_compat_pub(&self.s, &constraint.ls.s) {
                    return Err(Error::IslError(ctx.fail_with(ISLErrorKind::Invalid)));
                }
                let mut out = self;
                let rec = ConRec {
                    is_eq: constraint.is_eq,
                    c: constraint.c,
                    cp: constraint.cp,
                    ci: constraint.ci,
                    co: constraint.co,
                };
                out.cons.push(rec);
                let id = ctx.ledger_alloc();
                out.id = id;
                proof {
                    assert(out.bsv().cons =~= self.bsv().cons.push(rec_of_cv(constraint.cv())));
                }
                Ok(out)
            },
        }
    }

    /// Intersect two basic sets, consuming both: the conjunction of their
    /// constraints over their common space.
    pub fn intersect(self, other: BasicSet, ctx: &mut Context) -> (r: Result<BasicSet, Error>)
        requires
            old(ctx).wf(),
            self.owned_by(*old(ctx)),
            other.owned_by(*old(ctx)),
            self.id() != other.id(),
            old(ctx).allocs() < u64::MAX,
        ensures
            final(ctx).wf(),
            match r {
                Ok(bs) => {
                    &&& space_compat(self.bsv().sp, other.bsv().sp)
                    &&& op2_ok(*old(ctx), *final(ctx), self.id(), other.id(), bs.id())
                    &&& bs.bsv().sp == self.bsv().sp
                    &&& bs.bsv().cons == self.bsv().cons + other.bsv().cons
                    &&& bs.ctx_of() == old(ctx).ctx_ref()
                    &&& bs.owned_by(*final(ctx))
                },
                Err(e) => {
                    &&& (old(ctx).call_blocked() ==> op2_refused(
                        *old(ctx),
                        *final(ctx),
                        self.id(),
                        other.id(),
                    ) && refusal_err_matches(*old(ctx), e))
                    &&& (!old(ctx).call_blocked() ==> !space_compat(self.bsv().sp, other.bsv().sp)
                        && op2_fail_recorded(
                        *old(ctx),
                        *final(ctx),
                        self.id(),
                        other.id(),
                        ISLErrorKind::Invalid,
                    ) && recorded_err_matches(e, ISLErrorKind::Invalid))
                },
            },
    {
        let ghost ida = self.id@;
        let ghost idb = other.id@;
        match ctx.consume2(Ghost(ida), Ghost(idb)) {
            Some(e) => Err(Error::IslError(e)),
            None => {
                if !space_compat_pub(&self.s, &other.s) {
                    return Err(Error::IslError(ctx.fail_with(ISLErrorKind::Invalid)));
                }
                let mut out = self;
                let mut rest = other.cons;
                let ghost added: Seq<ConRec> = rest@;
                let n0: usize = rest.len();
                let mut taken: usize = 0;
                while rest.len() > 0
                    invariant
                        taken + rest@.len() == added.len(),
                        added.len() == n0,
                        forall|k: int| 0 <= k < rest@.len() ==> rest@[k] == added[taken + k],
                        out.cons@.len() == self.cons@.len() + taken,
                        forall|k: int|
                            0 <= k < self.cons@.len() ==> out.cons@[k] == self.cons@[k],
                        forall|k: int|
                            0 <= k < taken ==> out.cons@[self.cons@.len() + k] == added[k],
                        out.s == self.s,
                        out.ctx == self.ctx,
                    decreases rest@.len(),
                {
                    let rec = rest.remove(0);
                    out.cons.push(rec);
                    taken = taken + 1;
                }
                let id = ctx.ledger_alloc();
                out.id = id;
                proof {
                    assert(out.bsv().cons =~= self.bsv().cons + other.bsv().cons);
                }
                Ok(out)
            },
        }
    }

    /// The basic set of a single constraint, which is consumed.
    pub fn try_from(constraint: Constraint, ctx: &mut Context) -> (r: Result<BasicSet, Error>)
        requires
            old(ctx).wf(),
            constraint.owned_by(*old(ctx)),
            old(ctx).allocs() < u64::MAX,
        ensures
            final(ctx).wf(),
            match r {
                Ok(bs) => {
                    &&& op1_ok(*old(ctx), *final(ctx), constraint.id(), bs.id())
                    &&& bs.bsv().sp == constraint.cv().ls.sp
                    &&& bs.bsv().cons == Seq::empty().push(rec_of_cv(constraint.cv()))
                    &&& bs.ctx_of() == old(ctx).ctx_ref()
                    &&& bs.owned_by(*final(ctx))
                },
                Err(e) => old(ctx).call_blocked() && op1_refused(
                    *old(ctx),
                    *final(ctx),
                    constraint.id(),
                ) && refusal_err_matches(*old(ctx), e),
            },
    {
        let cref = constraint.context_ref();
        let ghost ida = constraint.id@;
        match ctx.consume1(Ghost(ida)) {
            Some(e) => Err(Error::IslError(e)),
            None => {
                let s = constraint.ls.s;
                let rec = ConRec {
                    is_eq: constraint.is_eq,
                    c: constraint.c,
                    cp: constraint.cp,
                    ci: constraint.ci,
                    co: constraint.co,
                };
                let mut cons: Vec<ConRec> = Vec::new();
                cons.push(rec);
                let id = ctx.ledger_alloc();
                let bs = BasicSet { ctx: cref, s, cons, id };
                proof {
                    assert(bs.bsv().cons =~= Seq::empty().push(rec_of_cv(constraint.cv())));
                }
                Ok(bs)
            },
        }
    }

    /// The constraint-form space of this basic set, as a newly owned copy.
    pub fn get_space(&self, ctx: &mut Context) -> (r: Result<Space, Error>)
        requires
            old(ctx).wf(),
            self.owned_by(*old(ctx)),
            old(ctx).allocs() < u64::MAX,
        ensures
            final(ctx).wf(),
            match r {
                Ok(sp) => {
                    &&& alloc_one(*old(ctx), *final(ctx), sp.id())
                    &&& sp.sv() == self.bsv().sp
                    &&& sp.ctx_of() == self.ctx_of()
                    &&& sp.owned_by(*final(ctx))
                    &&& self.owned_by(*final(ctx))
                },
                Err(_) => false,
            },
    {
        let id = ctx.ledger_alloc();
        Ok(Space { ctx: self.ctx, s: self.s.clone_repr(), id })
    }

    /// The foreign copy entry point.
    pub fn copy(&self, ctx: &mut Context) -> (r: BasicSet)
        requires
            old(ctx).wf(),
            self.owned_by(*old(ctx)),
            old(ctx).allocs() < u64::MAX,
        ensures
            final(ctx).wf(),
            alloc_one(*old(ctx), *final(ctx), r.id()),
            r.bsv() == self.bsv(),
            r.ctx_of() == self.ctx_of(),
            r.owned_by(*final(ctx)),
            self.owned_by(*final(ctx)),
    {
        let id = ctx.ledger_alloc();
        let r = BasicSet { ctx: self.ctx, s: self.s.clone_repr(), cons: clone_cons(&self.cons), id };
        proof {
            assert(r.bsv().cons =~= self.bsv().cons);
        }
        r
    }

    /// Destroy the foreign object behind this handle.
    pub fn free(self, ctx: &mut Context)
        requires
            old(ctx).wf(),
            self.owned_by(*old(ctx)),
        ensures
            final(ctx).wf(),
            free_one(*old(ctx), *final(ctx), self.id()),
    {
        ctx.ledger_free(Ghost(self.id@));
    }
}

/// A zeroed coefficient row.
fn zero_i64_row(n: u32) -> (r: Vec<i64>)
    ensures
        r@.len() == n,
        forall|i: int| 0 <= i < n ==> r@[i] == 0i64,
{
    let mut v: Vec<i64> = Vec::new();
    let mut i: u32 = 0;
    while i < n
        invariant
            i <= n,
            v@.len() == i,
            forall|k: int| 0 <= k < i ==> v@[k] == 0i64,
        decreases n - i,
    {
        v.push(0);
        i = i + 1;
    }
    v
}

/// A deep copy of a constraint table with the same reading.
fn clone_cons(v: &Vec<ConRec>) -> (r: Vec<ConRec>)
    ensures
        cons_v(r@) == cons_v(v@),
{
    let mut out: Vec<ConRec> = Vec::new();
    let mut i: usize = 0;
    while i < v.len()
        invariant
            i <= v@.len(),
            out@.len() == i,
            forall|k: int| 0 <= k < i ==> (#[trigger] out@[k].crv()) == v@[k].crv(),
        decreases v@.len() - i,
    {
        let rec = v[i].clone_rec();
        out.push(rec);
        i = i + 1;
    }
    proof {
        assert(cons_v(out@) =~= cons_v(v@));
    }
    out
}

impl crate::list::IslHandle for BasicSet {
    open spec fn hid(&self) -> nat {
        self.id()
    }

    open spec fn hctx(&self) -> ContextRef {
        self.ctx_of()
    }

    open spec fn hwf(&self) -> bool {
        self.bswf()
    }

    open spec fn payload_eq(&self, other: &BasicSet) -> bool {
        self.bsv() == other.bsv()
    }

    fn copy_h(&self, ctx: &mut Context) -> (r: BasicSet) {
        self.copy(ctx)
    }

    fn free_h(self, ctx: &mut Context) {
        self.free(ctx)
    }
}


/// One basic set inside a set: its constraint conjunction; the space is
/// the set's.
pub struct BsRec {
    pub cons: Vec<ConRec>,
}

pub open spec fn basics_v(v: Seq<BsRec>) -> Seq<Seq<ConRecV>> {
    Seq::new(v.len(), |i: int| cons_v(v[i].cons@))
}

/// The mathematical reading of a set: a union of constraint conjunctions
/// over one space, with the per-dimension names.
pub struct IslSetV {
    pub sp: SpaceV,
    pub basics: Seq<Seq<ConRecV>>,
    pub p_names: Seq<Option<Seq<char>>>,
    pub o_names: Seq<Option<Seq<char>>>,
}

/// An owned handle to a foreign set object.
pub struct IslSet {
    pub(crate) ctx: ContextRef,
    pub(crate) s: SpaceRepr,
    pub(crate) basics: Vec<BsRec>,
    pub(crate) p_names: Vec<Option<String>>,
    pub(crate) o_names: Vec<Option<String>>,
    pub(crate) id: Ghost<nat>,
}

/// A fresh, unnamed name table.
pub(crate) fn blank_name_row_pub(n: u32) -> (r: Vec<Option<String>>)
    ensures
        r@.len() == n,
        forall|i: int| 0 <= i < n ==> r@[i] is None,
{
    let mut v: Vec<Option<String>> = Vec::new();
    let mut i: u32 = 0;
    while i < n
        invariant
            i <= n,
            v@.len() == i,
            forall|k: int| 0 <= k < i ==> v@[k] is None,
        decreases n - i,
    {
        v.push(None);
        i = i + 1;
    }
    v
}

impl IslSet {
    pub open(crate) spec fn setv(&self) -> IslSetV {
        IslSetV {
            sp: self.s.sv(),
            basics: basics_v(self.basics@),
            p_names: names_v(self.p_names@),
            o_names: names_v(self.o_names@),
        }
    }

    pub open(crate) spec fn id(&self) -> nat {
        self.id@
    }

    pub open(crate) spec fn ctx_of(&self) -> ContextRef {
        self.ctx
    }

    pub open(crate) spec fn swf(&self) -> bool {
        &&& self.s.n_param + self.s.n_in + self.s.n_out <= u32::MAX
        &&& self.p_names@.len() == self.s.n_param
        &&& self.o_names@.len() == self.s.n_out
        &&& self.basics@.len() <= u32::MAX
    }

    pub open(crate) spec fn owned_by(&self, c: Context) -> bool {
        &&& self.ctx == c.ctx_ref()
        &&& c.live().contains(self.id@)
        &&& self.swf()
    }

    pub fn context_ref(&self) -> (r: ContextRef)
        ensures
            r == self.ctx_of(),
    {
        self.ctx
    }

    /// Diagnostic print entry point; no observable effect.
    pub fn dump(&self) {
    }

    /// The universal set over the given space, which is consumed: one
    /// basic set with no constraints.
    pub fn universe(space: Space, ctx: &mut Context) -> (r: Result<IslSet, Error>)
        requires
            old(ctx).wf(),
            space.owned_by(*old(ctx)),
            old(ctx).allocs() < u64::MAX,
        ensures
            final(ctx).wf(),
            match r {
                Ok(st) => {
                    &&& op1_ok(*old(ctx), *final(ctx), space.id(), st.id())
                    &&& st.setv().sp == space.sv()
                    &&& st.setv().basics.len() == 1
                    &&& st.setv().basics[0].len() == 0
                    &&& st.ctx_of() == old(ctx).ctx_ref()
                    &&& st.owned_by(*final(ctx))
                },
                Err(e) => old(ctx).call_blocked() && op1_refused(
                    *old(ctx),
                    *final(ctx),
                    space.id(),
                ) && refusal_err_matches(*old(ctx), e),
            },
    {
        let cref = space.context_ref();
        let ghost ida = space.id@;
        let s = space.s;
        match ctx.consume1(Ghost(ida)) {
            Some(e) => Err(Error::IslError(e)),
            None => {
                let mut basics: Vec<BsRec> = Vec::new();
                basics.push(BsRec { cons: Vec::new() });
                let p_names = blank_name_row_pub(s.n_param);
                let o_names = blank_name_row_pub(s.n_out);
                let id = ctx.ledger_alloc();
                Ok(IslSet { ctx: cref, s, basics, p_names, o_names, id })
            },
        }
    }

    /// The empty set over the given space, which is consumed: no basic
    /// sets at all.
    pub fn empty(space: Space, ctx: &mut Context) -> (r: Result<IslSet, Error>)
        requires
            old(ctx).wf(),
            space.owned_by(*old(ctx)),
            old(ctx).allocs() < u64::MAX,
        ensures
            final(ctx).wf(),
            match r {
                Ok(st) => {
                    &&& op1_ok(*old(ctx), *final(ctx), space.id(), st.id())
                    &&& st.setv().sp == space.sv()
                    &&& st.setv().basics.len() == 0
                    &&& st.ctx_of() == old(ctx).ctx_ref()
                    &&& st.owned_by(*final(ctx))
                },
                Err(e) => old(ctx).call_blocked() && op1_refused(
                    *old(ctx),
                    *final(ctx),
                    space.id(),
                ) && refusal_err_matches(*old(ctx), e),
            },
    {
        let cref = space.context_ref();
        let ghost ida = space.id@;
        let s = space.s;
        match ctx.consume1(Ghost(ida)) {
            Some(e) => Err(Error::IslError(e)),
            None => {
                let p_names = blank_name_row_pub(s.n_param);
                let o_names = blank_name_row_pub(s.n_out);
                let id = ctx.ledger_alloc();
                Ok(IslSet { ctx: cref, s, basics: Vec::new(), p_names, o_names, id })
            },
        }
    }

    /// The set of one basic set, which is consumed.
    pub fn try_from(basic_set: BasicSet, ctx: &mut Context) -> (r: Result<IslSet, Error>)
        requires
            old(ctx).wf(),
            basic_set.owned_by(*old(ctx)),
            old(ctx).allocs() < u64::MAX,
        ensures
            final(ctx).wf(),
            match r {
                Ok(st) => {
                    &&& op1_ok(*old(ctx), *final(ctx), basic_set.id(), st.id())
                    &&& st.setv().sp == basic_set.bsv().sp
                    &&& st.setv().basics == Seq::empty().push(basic_set.bsv().cons)
                    &&& st.ctx_of() == old(ctx).ctx_ref()
                    &&& st.owned_by(*final(ctx))
                },
                Err(e) => old(ctx).call_blocked() && op1_refused(
                    *old(ctx),
                    *final(ctx),
                    basic_set.id(),
                ) && refusal_err_matches(*old(ctx), e),
            },
    {
        let cref = basic_set.context_ref();
        let ghost ida = basic_set.id@;
        match ctx.consume1(Ghost(ida)) {
            Some(e) => Err(Error::IslError(e)),
            None => {
                let s = basic_set.s;
                let mut basics: Vec<BsRec> = Vec::new();
                basics.push(BsRec { cons: basic_set.cons });
                let p_names = blank_name_row_pub(s.n_param);
                let o_names = blank_name_row_pub(s.n_out);
                let id = ctx.ledger_alloc();
                let st = IslSet { ctx: cref, s, basics, p_names, o_names, id };
                proof {
                    assert(st.setv().basics =~= Seq::empty().push(basic_set.bsv().cons));
                }
                Ok(st)
            },
        }
    }

    /// Unite two sets, consuming both: the basic sets of both sides over
    /// their common space; an incompatible space is an invalid argument
    /// reported by the foreign side.
    pub fn union(self, other: IslSet, ctx: &mut Context) -> (r: Result<IslSet, Error>)
        requires
            old(ctx).wf(),
            self.owned_by(*old(ctx)),
            other.owned_by(*old(ctx)),
            self.id() != other.id(),
            old(ctx).allocs() < u64::MAX,
            self.setv().basics.len() + other.setv().basics.len() <= u32::MAX,
        ensures
            final(ctx).wf(),
            match r {
                Ok(st) => {
                    &&& space_compat(self.setv().sp, other.setv().sp)
                    &&& op2_ok(*old(ctx), *final(ctx), self.id(), other.id(), st.id())
                    &&& st.setv().sp == self.setv().sp
                    &&& st.setv().basics == self.setv().basics + other.setv().basics
                    &&& st.ctx_of() == old(ctx).ctx_ref()
                    &&& st.owned_by(*final(ctx))
                },
                Err(e) => {
                    &&& (old(ctx).call_blocked() ==> op2_refused(
                        *old(ctx),
                        *final(ctx),
                        self.id(),
                        other.id(),
                    ) && refusal_err_matches(*old(ctx), e))
                    &&& (!old(ctx).call_blocked() ==> !space_compat(
                        self.setv().sp,
                        other.setv().sp,
                    ) && op2_fail_recorded(
                        *old(ctx),
                        *final(ctx),
                        self.id(),
                        other.id(),
                        ISLErrorKind::Invalid,
                    ) && recorded_err_matches(e, ISLErrorKind::Invalid))
                },
            },
    {
        let ghost ida = self.id@;
        let ghost idb = other.id@;
        match ctx.consume2(Ghost(ida), Ghost(idb)) {
            Some(e) => Err(Error::IslError(e)),
            None => {
                if !space_compat_pub(&self.s, &other.s) {
                    return Err(Error::IslError(ctx.fail_with(ISLErrorKind::Invalid)));
                }
                let mut out = self;
                let mut rest = other.basics;
                let ghost added: Seq<BsRec> = rest@;
                let n0: usize = rest.len();
                let mut taken: usize = 0;
                while rest.len() > 0
                    invariant
                        taken + rest@.len() == added.len(),
                        added.len() == n0,
                        forall|k: int| 0 <= k < rest@.len() ==> rest@[k] == added[taken + k],
                        out.basics@.len() == self.basics@.len() + taken,
                        forall|k: int|
                            0 <= k < self.basics@.len() ==> out.basics@[k] == self.basics@[k],
                        forall|k: int|
                            0 <= k < taken ==> out.basics@[self.basics@.len() + k] == added[k],
                        out.s == self.s,
                        out.ctx == self.ctx,
                        out.p_names == self.p_names,
                        out.o_names == self.o_names,
                    decreases rest@.len(),
                {
                    let rec = rest.remove(0);
                    out.basics.push(rec);
                    taken = taken + 1;
                }
                let id = ctx.ledger_alloc();
                out.id = id;
                proof {
                    assert(out.setv().basics =~= self.setv().basics + other.setv().basics);
                }
                Ok(out)
            },
        }
    }

    /// Conjoin a constraint onto every basic set, consuming both handles.
    pub fn add_constraint(self, constraint: Constraint, ctx: &mut Context) -> (r: Result<
        IslSet,
        Error,
    >)
        requires
            old(ctx).wf(),
            self.owned_by(*old(ctx)),
            constraint.owned_by(*old(ctx)),
            self.id() != constraint.id(),
            old(ctx).allocs() < u64::MAX,
        ensures
            final(ctx).wf(),
            match r {
                Ok(st) => {
                    &&& space_compat(self.setv().sp, constraint.cv().ls.sp)
                    &&& op2_ok(*old(ctx), *final(ctx), self.id(), constraint.id(), st.id())
                    &&& st.setv().sp == self.setv().sp
                    &&& st.setv().basics == Seq::new(
                        self.setv().basics.len(),
                        |i: int| self.setv().basics[i].push(rec_of_cv(constraint.cv())),
                    )
                    &&& st.setv().p_names == self.setv().p_names
                    &&& st.setv().o_names == self.setv().o_names
                    &&& st.ctx_of() == old(ctx).ctx_ref()
                    &&& st.owned_by(*final(ctx))
                },
                Err(e) => {
                    &&& (old(ctx).call_blocked() ==> op2_refused(
                        *old(ctx),
                        *final(ctx),
                        self.id(),
                        constraint.id(),
                    ) && refusal_err_matches(*old(ctx), e))
                    &&& (!old(ctx).call_blocked() ==> !space_compat(
                        self.setv().sp,
                        constraint.cv().ls.sp,
                    ) && op2_fail_recorded(
                        *old(ctx),
                        *final(ctx),
                        self.id(),
                        constraint.id(),
                        ISLErrorKind::Invalid,
                    ) && recorded_err_matches(e, ISLErrorKind::Invalid))
                },
            },
    {
        let ghost ida = self.id@;
        let ghost idb = constraint.id@;
        match ctx.consume2(Ghost(ida), Ghost(idb)) {
            Some(e) => Err(Error::IslError(e)),
            None => {
                if !space_compat_pub(&self.s, &constraint.ls.s) {
                    return Err(Error::IslError(ctx.fail_with(ISLErrorKind::Invalid)));
                }
                let rec = ConRec {
                    is_eq: constraint.is_eq,
                    c: constraint.c,
                    cp: constraint.cp,
                    ci: constraint.ci,
                    co: constraint.co,
                };
                let mut out = self;
                let mut rest = out.basics;
                out.basics = Vec::new();
                let ghost orig: Seq<BsRec> = rest@;
                let n0: usize = rest.len();
                let mut taken: usize = 0;
                while rest.len() > 0
                    invariant
                        taken + rest@.len() == orig.len(),
                        orig.len() == n0,
                        forall|k: int| 0 <= k < rest@.len() ==> rest@[k] == orig[taken + k],
                        out.basics@.len() == taken,
                        forall|k: int|
                            0 <= k < taken ==> cons_v((#[trigger] out.basics@[k]).cons@) == cons_v(
                                orig[k].cons@,
                            ).push(rec.crv()),
                        out.s == self.s,
                        out.ctx == self.ctx,
                        out.p_names == self.p_names,
                        out.o_names == self.o_names,
                        rec.crv() == rec_of_cv(constraint.cv()),
                    decreases rest@.len(),
                {
                    let mut b = rest.remove(0);
                    let rc = rec.clone_rec();
                    let ghost before = b.cons@;
                    b.cons.push(rc);
                    proof {
                        assert(cons_v(b.cons@) =~= cons_v(before).push(rec.crv()));
                    }
                    out.basics.push(b);
                    taken = taken + 1;
                }
                let id = ctx.ledger_alloc();
                out.id = id;
                proof {
                    assert(out.setv().basics =~= Seq::new(
                        self.setv().basics.len(),
                        |i: int| self.setv().basics[i].push(rec_of_cv(constraint.cv())),
                    ));
                }
                Ok(out)
            },
        }
    }

    /// Name one dimension, consuming this handle; an embedded NUL is a
    /// local validation failure, and a position out of range an invalid
    /// argument reported by the foreign side.
    pub fn set_dim_name(self, ty: DimType, pos: u32, name: &str, ctx: &mut Context) -> (r: Result<
        IslSet,
        Error,
    >)
        requires
            old(ctx).wf(),
            self.owned_by(*old(ctx)),
            old(ctx).allocs() < u64::MAX,
            ty is Param || ty is Out,
        ensures
            final(ctx).wf(),
            match r {
                Ok(st) => {
                    &&& !has_nul(name.spec_bytes())
                    &&& (ty is Param ==> pos < self.setv().sp.n_param && st.setv().p_names
                        == self.setv().p_names.update(pos as int, Some(name@)) && st.setv().o_names
                        == self.setv().o_names)
                    &&& (ty is Out ==> pos < self.setv().sp.n_out && st.setv().o_names
                        == self.setv().o_names.update(pos as int, Some(name@)) && st.setv().p_names
                        == self.setv().p_names)
                    &&& op1_ok(*old(ctx), *final(ctx), self.id(), st.id())
                    &&& st.setv().sp == self.setv().sp
                    &&& st.setv().basics == self.setv().basics
                    &&& st.ctx_of() == old(ctx).ctx_ref()
                    &&& st.owned_by(*final(ctx))
                },
                Err(e) => {
                    &&& (has_nul(name.spec_bytes()) ==> e is NulError && free_one(
                        *old(ctx),
                        *final(ctx),
                        self.id(),
                    ))
                    &&& (!has_nul(name.spec_bytes()) && old(ctx).call_blocked() ==> op1_refused(
                        *old(ctx),
                        *final(ctx),
                        self.id(),
                    ) && refusal_err_matches(*old(ctx), e))
                    &&& (!has_nul(name.spec_bytes()) && !old(ctx).call_blocked() ==> (if ty
                        is Param {
                        pos >= self.setv().sp.n_param
                    } else {
                        pos >= self.setv().sp.n_out
                    }) && crate::context::op1_fail_recorded(
                        *old(ctx),
                        *final(ctx),
                        self.id(),
                        ISLErrorKind::Invalid,
                    ) && recorded_err_matches(e, ISLErrorKind::Invalid))
                },
            },
    {
        let ghost ida = self.id@;
        if has_nul_scan(name.as_bytes()) {
            ctx.ledger_free(Ghost(ida));
            return Err(Error::NulError);
        }
        match ctx.consume1(Ghost(ida)) {
            Some(e) => Err(Error::IslError(e)),
            None => {
                let mut out = self;
                let ok = match ty {
                    DimType::Param => {
                        if (pos as usize) < out.p_names.len() {
                            out.p_names.set(pos as usize, Some(name.to_string()));
                            true
                        } else {
                            false
                        }
                    },
                    _ => {
                        if (pos as usize) < out.o_names.len() {
                            out.o_names.set(pos as usize, Some(name.to_string()));
                            true
                        } else {
                            false
                        }
                    },
                };
                if ok {
                    let id = ctx.ledger_alloc();
                    out.id = id;
                    proof {
                        if ty is Param {
                            assert(names_v(out.p_names@) =~= names_v(self.p_names@).update(
                                pos as int,
                                Some(name@),
                            ));
                        } else {
                            assert(names_v(out.o_names@) =~= names_v(self.o_names@).update(
                                pos as int,
                                Some(name@),
                            ));
                        }
                    }
                    Ok(out)
                } else {
                    Err(Error::IslError(ctx.fail_with(ISLErrorKind::Invalid)))
                }
            },
        }
    }

    /// How many basic sets this set unites.
    pub fn num_basic_sets(&self) -> (r: Result<u32, Error>)
        requires
            self.swf(),
        ensures
            r == Ok::<u32, Error>(self.setv().basics.len() as u32),
    {
        Ok(self.basics.len() as u32)
    }

    /// Whether this set is syntactically empty: no basic sets at all.
    pub fn plain_is_empty(&self) -> (r: Result<bool, Error>)
        ensures
            r == Ok::<bool, Error>(self.setv().basics.len() == 0),
    {
        Ok(self.basics.len() == 0)
    }

    /// Whether this set is syntactically universal: one basic set without
    /// constraints.
    pub fn plain_is_universe(&self) -> (r: Result<bool, Error>)
        ensures
            r == Ok::<bool, Error>(
                self.setv().basics.len() == 1 && self.setv().basics[0].len() == 0,
            ),
    {
        if self.basics.len() == 1 {
            Ok(self.basics[0].cons.len() == 0)
        } else {
            Ok(false)
        }
    }

    /// The set's space, as a newly owned copy.
    pub fn get_space(&self, ctx: &mut Context) -> (r: Result<Space, Error>)
        requires
            old(ctx).wf(),
            self.owned_by(*old(ctx)),
            old(ctx).allocs() < u64::MAX,
        ensures
            final(ctx).wf(),
            match r {
                Ok(sp) => {
                    &&& alloc_one(*old(ctx), *final(ctx), sp.id())
                    &&& sp.sv() == self.setv().sp
                    &&& sp.ctx_of() == self.ctx_of()
                    &&& sp.owned_by(*final(ctx))
                    &&& self.owned_by(*final(ctx))
                },
                Err(_) => false,
            },
    {
        let id = ctx.ledger_alloc();
        Ok(Space { ctx: self.ctx, s: self.s.clone_repr(), id })
    }

    /// The foreign copy entry point.
    pub fn copy(&self, ctx: &mut Context) -> (r: IslSet)
        requires
            old(ctx).wf(),
            self.owned_by(*old(ctx)),
            old(ctx).allocs() < u64::MAX,
        ensures
            final(ctx).wf(),
            alloc_one(*old(ctx), *final(ctx), r.id()),
            r.setv() == self.setv(),
            r.ctx_of() == self.ctx_of(),
            r.owned_by(*final(ctx)),
            self.owned_by(*final(ctx)),
    {
        let id = ctx.ledger_alloc();
        let mut basics: Vec<BsRec> = Vec::new();
        let mut i: usize = 0;
        while i < self.basics.len()
            invariant
                i <= self.basics@.len(),
                basics@.len() == i,
                forall|k: int|
                    0 <= k < i ==> cons_v((#[trigger] basics@[k]).cons@) == cons_v(
                        self.basics@[k].cons@,
                    ),
            decreases self.basics@.len() - i,
        {
            let b = BsRec { cons: clone_cons(&self.basics[i].cons) };
            basics.push(b);
            i = i + 1;
        }
        let r = IslSet {
            ctx: self.ctx,
            s: self.s.clone_repr(),
            basics,
            p_names: crate::local_space::clone_name_row(&self.p_names),
            o_names: crate::local_space::clone_name_row(&self.o_names),
            id,
        };
        proof {
            assert(r.setv().basics =~= self.setv().basics);
            assert(r.setv().p_names =~= self.setv().p_names);
            assert(r.p_names@.len() == names_v(r.p_names@).len());
            assert(self.p_names@.len() == names_v(self.p_names@).len());
            assert(r.setv().o_names =~= self.setv().o_names);
            assert(r.o_names@.len() == names_v(r.o_names@).len());
            assert(self.o_names@.len() == names_v(self.o_names@).len());
        }
        r
    }

    /// Destroy the foreign object behind this handle.
    pub fn free(self, ctx: &mut Context)
        requires
            old(ctx).wf(),
            self.owned_by(*old(ctx)),
        ensures
            final(ctx).wf(),
            free_one(*old(ctx), *final(ctx), self.id()),
    {
        ctx.ledger_free(Ghost(self.id@));
    }
}

/// A deep copy of a basic-set table with the same reading.
pub(crate) fn clone_basics(v: &Vec<BsRec>) -> (r: Vec<BsRec>)
    ensures
        basics_v(r@) == basics_v(v@),
{
    let mut out: Vec<BsRec> = Vec::new();
    let mut i: usize = 0;
    while i < v.len()
        invariant
            i <= v@.len(),
            out@.len() == i,
            forall|k: int|
                0 <= k < i ==> cons_v((#[trigger] out@[k]).cons@) == cons_v(v@[k].cons@),
        decreases v@.len() - i,
    {
        let b = BsRec { cons: clone_cons(&v[i].cons) };
        out.push(b);
        i = i + 1;
    }
    proof {
        assert(basics_v(out@) =~= basics_v(v@));
    }
    out
}

impl crate::list::IslHandle for IslSet {
    open spec fn hid(&self) -> nat {
        self.id()
    }

    open spec fn hctx(&self) -> ContextRef {
        self.ctx_of()
    }

    open spec fn hwf(&self) -> bool {
        self.swf()
    }

    open spec fn payload_eq(&self, other: &IslSet) -> bool {
        self.setv() == other.setv()
    }

    fn copy_h(&self, ctx: &mut Context) -> (r: IslSet) {
        self.copy(ctx)
    }

    fn free_h(self, ctx: &mut Context) {
        self.free(ctx)
    }
}


/// The concatenation of the constraint conjunctions of a row of basic
/// sets, in order.
pub open spec fn cons_concat(items: Seq<BasicSet>) -> Seq<ConRecV>
    decreases items.len(),
{
    if items.len() == 0 {
        Seq::empty()
    } else {
        items[0].bsv().cons + cons_concat(items.drop_first())
    }
}

proof fn lemma_cons_concat_snoc(items: Seq<BasicSet>, x: BasicSet)
    ensures
        cons_concat(items.push(x)) == cons_concat(items) + x.bsv().cons,
    decreases items.len(),
{
    reveal_with_fuel(cons_concat, 3);
    if items.len() == 0 {
        assert(items.push(x).drop_first() =~= Seq::<BasicSet>::empty());
        assert(cons_concat(items.push(x)) =~= cons_concat(items) + x.bsv().cons);
    } else {
        assert(items.push(x).drop_first() =~= items.drop_first().push(x));
        lemma_cons_concat_snoc(items.drop_first(), x);
        assert(items.push(x)[0] == items[0]);
        assert(cons_concat(items.push(x)) == items[0].bsv().cons + (cons_concat(
            items.drop_first(),
        ) + x.bsv().cons));
        assert(items[0].bsv().cons + (cons_concat(items.drop_first()) + x.bsv().cons) =~= (
        items[0].bsv().cons + cons_concat(items.drop_first())) + x.bsv().cons);
    }
}

/// The concatenation of the basic-set rows of a row of sets, in order.
pub open spec fn basics_concat(items: Seq<IslSet>) -> Seq<Seq<ConRecV>>
    decreases items.len(),
{
    if items.len() == 0 {
        Seq::empty()
    } else {
        items[0].setv().basics + basics_concat(items.drop_first())
    }
}

proof fn lemma_basics_concat_snoc(items: Seq<IslSet>, x: IslSet)
    ensures
        basics_concat(items.push(x)) == basics_concat(items) + x.setv().basics,
    decreases items.len(),
{
    reveal_with_fuel(basics_concat, 3);
    if items.len() == 0 {
        assert(items.push(x).drop_first() =~= Seq::<IslSet>::empty());
        assert(basics_concat(items.push(x)) =~= basics_concat(items) + x.setv().basics);
    } else {
        assert(items.push(x).drop_first() =~= items.drop_first().push(x));
        lemma_basics_concat_snoc(items.drop_first(), x);
        assert(items.push(x)[0] == items[0]);
        assert(basics_concat(items.push(x)) == items[0].setv().basics + (basics_concat(
            items.drop_first(),
        ) + x.setv().basics));
        assert(items[0].setv().basics + (basics_concat(items.drop_first()) + x.setv().basics) =~= (
        items[0].setv().basics + basics_concat(items.drop_first())) + x.setv().basics);
    }
}

impl crate::list::List<BasicSet> {
    /// Intersect all elements, consuming the whole collection: the
    /// conjunction of every element's constraints over their common
    /// space.  The foreign entry point requires a nonempty collection of
    /// compatible spaces and destroys the array and every element.
    pub fn intersect(self, ctx: &mut Context) -> (r: BasicSet)
        requires
            old(ctx).wf(),
            self.inv(*old(ctx)),
            self.elems().len() >= 1,
            forall|i: int|
                0 <= i < self.elems().len() ==> space_compat(
                    (#[trigger] self.elems()[i]).bsv().sp,
                    self.elems()[0].bsv().sp,
                ),
            old(ctx).allocs() < u64::MAX,
        ensures
            final(ctx).wf(),
            final(ctx).allocs() == old(ctx).allocs() + 1,
            final(ctx).frees() == old(ctx).frees() + 1 + self.elems().len(),
            final(ctx).operations() == old(ctx).operations(),
            final(ctx).slot() == old(ctx).slot(),
            final(ctx).injection() == old(ctx).injection(),
            final(ctx).ctx_ref() == old(ctx).ctx_ref(),
            final(ctx).max_operations() == old(ctx).max_operations(),
            r.bsv().sp == self.elems()[0].bsv().sp,
            r.bsv().cons == cons_concat(self.elems()),
            r.ctx_of() == self.ctx_of(),
            r.owned_by(*final(ctx)),
    {
        let ghost pre = *ctx;
        let ghost orig = self.items@;
        let ghost lid = self.id@;
        let n_all: usize = self.len();
        let cref = self.context();
        ctx.ledger_free(Ghost(lid));
        let mut items = self.items;
        let first = items.remove(0);
        let ghost fid = first.id@;
        ctx.ledger_free(Ghost(fid));
        let acc_s = first.s;
        let mut acc_cons = first.cons;
        let ghost done: Seq<BasicSet> = orig.subrange(0, 1);
        proof {
            assert(done =~= Seq::empty().push(orig[0]));
            lemma_cons_concat_snoc(Seq::empty(), orig[0]);
            assert(cons_v(acc_cons@) =~= cons_concat(done));
        }
        let mut taken: usize = 1;
        let n0: usize = items.len();
        while items.len() > 0
            invariant
                ctx.wf(),
                taken >= 1,
                taken + items@.len() == orig.len(),
                orig.len() == n_all,
                items@.len() <= n0,
                forall|k: int| 0 <= k < items@.len() ==> items@[k] == orig[taken + k],
                forall|k: int|
                    0 <= k < items@.len() ==> ctx.live().contains(
                        (#[trigger] items@[k]).id(),
                    ),
                forall|k: int, m: int|
                    0 <= k < m < items@.len() ==> (#[trigger] items@[k].id()) != (
                    #[trigger] items@[m].id()),
                cons_v(acc_cons@) == cons_concat(orig.subrange(0, taken as int)),
                acc_s.sv() == orig[0].bsv().sp,
                ctx.allocs() == pre.allocs(),
                ctx.frees() == pre.frees() + 1 + taken,
                ctx.operations() == pre.operations(),
                ctx.slot() == pre.slot(),
                ctx.injection() == pre.injection(),
                ctx.ctx_ref() == pre.ctx_ref(),
                ctx.max_operations() == pre.max_operations(),
                forall|m: nat| ctx.live().contains(m) ==> pre.live().contains(m),
                pre.allocs() < u64::MAX,
            decreases items@.len(),
        {
            let b = items.remove(0);
            let ghost bid = b.id@;
            ctx.ledger_free(Ghost(bid));
            let ghost before_cons = acc_cons@;
            let mut rest = b.cons;
            let m0: usize = rest.len();
            let mut moved: usize = 0;
            let ghost badded: Seq<ConRec> = rest@;
            while rest.len() > 0
                invariant
                    moved + rest@.len() == badded.len(),
                    badded.len() == m0,
                    forall|k: int| 0 <= k < rest@.len() ==> rest@[k] == badded[moved + k],
                    acc_cons@.len() == before_cons.len() + moved,
                    forall|k: int|
                        0 <= k < before_cons.len() ==> acc_cons@[k] == before_cons[k],
                    forall|k: int|
                        0 <= k < moved ==> acc_cons@[before_cons.len() + k] == badded[k],
                decreases rest@.len(),
            {
                let rec = rest.remove(0);
                acc_cons.push(rec);
                moved = moved + 1;
            }
            proof {
                assert(cons_v(acc_cons@) =~= cons_v(before_cons) + cons_v(badded));
                assert(cons_v(badded) =~= b.bsv().cons);
                assert(orig.subrange(0, taken as int).push(b) =~= orig.subrange(
                    0,
                    taken as int + 1,
                ));
                lemma_cons_concat_snoc(orig.subrange(0, taken as int), b);
            }
            taken = taken + 1;
        }
        let id = ctx.ledger_alloc();
        let r = BasicSet { ctx: cref, s: acc_s, cons: acc_cons, id };
        proof {
            assert(orig.subrange(0, orig.len() as int) =~= orig);
        }
        r
    }
}

impl crate::list::List<IslSet> {
    /// Unite all elements, consuming the whole collection: the basic sets
    /// of every element over their common space.  The foreign entry point
    /// requires a nonempty collection of compatible spaces and destroys
    /// the array and every element.
    pub fn union(self, ctx: &mut Context) -> (r: IslSet)
        requires
            old(ctx).wf(),
            self.inv(*old(ctx)),
            self.elems().len() >= 1,
            forall|i: int|
                0 <= i < self.elems().len() ==> space_compat(
                    (#[trigger] self.elems()[i]).setv().sp,
                    self.elems()[0].setv().sp,
                ),
            old(ctx).allocs() < u64::MAX,
            basics_concat(self.elems()).len() <= u32::MAX,
        ensures
            final(ctx).wf(),
            final(ctx).allocs() == old(ctx).allocs() + 1,
            final(ctx).frees() == old(ctx).frees() + 1 + self.elems().len(),
            final(ctx).operations() == old(ctx).operations(),
            final(ctx).slot() == old(ctx).slot(),
            final(ctx).injection() == old(ctx).injection(),
            final(ctx).ctx_ref() == old(ctx).ctx_ref(),
            final(ctx).max_operations() == old(ctx).max_operations(),
            r.setv().sp == self.elems()[0].setv().sp,
            r.setv().basics == basics_concat(self.elems()),
            r.ctx_of() == self.ctx_of(),
            r.owned_by(*final(ctx)),
    {
        let ghost pre = *ctx;
        let ghost orig = self.items@;
        let ghost lid = self.id@;
        let n_all: usize = self.len();
        let cref = self.context();
        ctx.ledger_free(Ghost(lid));
        let mut items = self.items;
        let first = items.remove(0);
        let ghost fid = first.id@;
        ctx.ledger_free(Ghost(fid));
        let acc_s = first.s;
        let acc_p = first.p_names;
        let acc_o = first.o_names;
        let mut acc_b = first.basics;
        let ghost done: Seq<IslSet> = orig.subrange(0, 1);
        proof {
            assert(done =~= Seq::empty().push(orig[0]));
            lemma_basics_concat_snoc(Seq::empty(), orig[0]);
            assert(basics_v(acc_b@) =~= basics_concat(done));
        }
        let mut taken: usize = 1;
        let n0: usize = items.len();
        while items.len() > 0
            invariant
                ctx.wf(),
                taken >= 1,
                taken + items@.len() == orig.len(),
                orig.len() == n_all,
                items@.len() <= n0,
                forall|k: int| 0 <= k < items@.len() ==> items@[k] == orig[taken + k],
                forall|k: int|
                    0 <= k < items@.len() ==> ctx.live().contains(
                        (#[trigger] items@[k]).id(),
                    ),
                forall|k: int, m: int|
                    0 <= k < m < items@.len() ==> (#[trigger] items@[k].id()) != (
                    #[trigger] items@[m].id()),
                basics_v(acc_b@) == basics_concat(orig.subrange(0, taken as int)),
                acc_s.sv() == orig[0].setv().sp,
                names_v(acc_p@) == orig[0].setv().p_names,
                names_v(acc_o@) == orig[0].setv().o_names,
                acc_p@.len() == orig[0].setv().p_names.len(),
                acc_o@.len() == orig[0].setv().o_names.len(),
                ctx.allocs() == pre.allocs(),
                ctx.frees() == pre.frees() + 1 + taken,
                ctx.operations() == pre.operations(),
                ctx.slot() == pre.slot(),
                ctx.injection() == pre.injection(),
                ctx.ctx_ref() == pre.ctx_ref(),
                ctx.max_operations() == pre.max_operations(),
                forall|m: nat| ctx.live().contains(m) ==> pre.live().contains(m),
                pre.allocs() < u64::MAX,
            decreases items@.len(),
        {
            let b = items.remove(0);
            let ghost bid = b.id@;
            ctx.ledger_free(Ghost(bid));
            let ghost before_b = acc_b@;
            let mut rest = b.basics;
            let m0: usize = rest.len();
            let mut moved: usize = 0;
            let ghost badded: Seq<BsRec> = rest@;
            while rest.len() > 0
                invariant
                    moved + rest@.len() == badded.len(),
                    badded.len() == m0,
                    forall|k: int| 0 <= k < rest@.len() ==> rest@[k] == badded[moved + k],
                    acc_b@.len() == before_b.len() + moved,
                    forall|k: int| 0 <= k < before_b.len() ==> acc_b@[k] == before_b[k],
                    forall|k: int|
                        0 <= k < moved ==> acc_b@[before_b.len() + k] == badded[k],
                decreases rest@.len(),
            {
                let rec = rest.remove(0);
                acc_b.push(rec);
                moved = moved + 1;
            }
            proof {
                assert(basics_v(acc_b@) =~= basics_v(before_b) + basics_v(badded));
                assert(basics_v(badded) =~= b.setv().basics);
                assert(orig.subrange(0, taken as int).push(b) =~= orig.subrange(
                    0,
                    taken as int + 1,
                ));
                lemma_basics_concat_snoc(orig.subrange(0, taken as int), b);
            }
            taken = taken + 1;
        }
        let id = ctx.ledger_alloc();
        let r = IslSet { ctx: cref, s: acc_s, basics: acc_b, p_names: acc_p, o_names: acc_o, id };
        proof {
            assert(orig.subrange(0, orig.len() as int) =~= orig);
        }
        r
    }
}

} // verus!


