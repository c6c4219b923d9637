//! The owned handle for local spaces: a space together with existentially
//! quantified divisor dimensions and per-dimension names.

use vstd::prelude::*;
use vstd::string::StringSliceAdditionalSpecFns;

use crate::context::{alloc_one, free_one, op1_refused, op1_ok, xform1, xform2, Context, ContextRef};
use crate::error::Error;
use crate::ident::Ident;
use crate::space::{Space, SpaceKind, SpaceRepr, SpaceV};
use crate::value::{has_nul, has_nul_scan};
use crate::DimType;

verus! {

/// The reading of a dimension-name table.
pub open spec fn names_v(v: Seq<Option<String>>) -> Seq<Option<Seq<char>>> {
    Seq::new(
        v.len(),
        |i: int|
            match v[i] {
                Some(s) => Some(s@),
                None => None,
            },
    )
}

/// The mathematical reading of a local space.
pub struct LocalSpaceV {
    pub sp: SpaceV,
    pub n_div: u32,
    pub p_names: Seq<Option<Seq<char>>>,
    pub i_names: Seq<Option<Seq<char>>>,
    pub o_names: Seq<Option<Seq<char>>>,
    pub in_tuple: Option<Seq<char>>,
    pub out_tuple: Option<Seq<char>>,
}

impl LocalSpaceV {
    /// The count this local space has in the given dimension kind.
    pub open spec fn dim_of(self, dt: DimType) -> u32 {
        match dt {
            DimType::Div => self.n_div,
            DimType::All => ((self.sp.n_param + self.sp.n_in + self.sp.n_out + self.n_div) as u32),
            _ => self.sp.dim_of(dt),
        }
    }

    /// The name table of the given dimension kind.
    pub open spec fn names_of(self, dt: DimType) -> Seq<Option<Seq<char>>> {
        match dt {
            DimType::Param => self.p_names,
            DimType::In => self.i_names,
            _ => self.o_names,
        }
    }
}

/// The stored form of a local space.
pub struct LsRepr {
    pub s: SpaceRepr,
    pub n_div: u32,
    pub p_names: Vec<Option<String>>,
    pub i_names: Vec<Option<String>>,
    pub o_names: Vec<Option<String>>,
    pub in_tuple: Option<String>,
    pub out_tuple: Option<String>,
}

impl LsRepr {
    pub open spec fn lv(&self) -> LocalSpaceV {
        LocalSpaceV {
            sp: self.s.sv(),
            n_div: self.n_div,
            p_names: names_v(self.p_names@),
            i_names: names_v(self.i_names@),
            o_names: names_v(self.o_names@),
            in_tuple: match self.in_tuple {
                Some(ref s) => Some(s@),
                None => None,
            },
            out_tuple: match self.out_tuple {
                Some(ref s) => Some(s@),
                None => None,
            },
        }
    }

    /// The name tables match the dimension counts, which do not overflow
    /// their sum.
    pub open spec fn lwf(&self) -> bool {
        &&& self.p_names@.len() == self.s.n_param
        &&& self.i_names@.len() == self.s.n_in
        &&& self.o_names@.len() == self.s.n_out
        &&& self.s.n_param + self.s.n_in + self.s.n_out + self.n_div <= u32::MAX
    }

    /// A deep copy with the same reading.
    pub(crate) fn clone_repr(&self) -> (r: LsRepr)
        ensures
            r.lv() == self.lv(),
            r.lwf() == self.lwf(),
    {
        let r = LsRepr {
            s: self.s.clone_repr(),
            n_div: self.n_div,
            p_names: clone_name_row(&self.p_names),
            i_names: clone_name_row(&self.i_names),
            o_names: clone_name_row(&self.o_names),
            in_tuple: match &self.in_tuple {
                Some(s) => Some(s.clone()),
                None => None,
            },
            out_tuple: match &self.out_tuple {
                Some(s) => Some(s.clone()),
                None => None,
            },
        };
        proof {
            assert(r.lv().p_names =~= self.lv().p_names);
            assert(r.lv().i_names =~= self.lv().i_names);
            assert(r.lv().o_names =~= self.lv().o_names);
            assert(names_v(r.p_names@).len() == names_v(self.p_names@).len());
            assert(names_v(r.i_names@).len() == names_v(self.i_names@).len());
            assert(names_v(r.o_names@).len() == names_v(self.o_names@).len());
        }
        r
    }
}

/// An owned handle to a foreign local-space object.
pub struct LocalSpace {
    pub(crate) ctx: ContextRef,
    pub(crate) rep: LsRepr,
    pub(crate) id: Ghost<nat>,
}

/// A fresh, unnamed name table.
fn blank_names(n: u32) -> (r: Vec<Option<String>>)
    ensures
        r@.len() == n,
        forall|i: int| 0 <= i < n ==> r@[i] is None,
{
    let mut v: Vec<Option<String>> = Vec::new();
    let mut i: u32 = 0;
    while i < n
        invariant
            i <= n,
            v@.len() == i,
            forall|k: int| 0 <= k < i ==> v@[k] is None,
        decreases n - i,
    {
        v.push(None);
        i = i + 1;
    }
    v
}

/// A deep copy of a name table with the same reading.
pub(crate) fn clone_name_row(v: &Vec<Option<String>>) -> (r: Vec<Option<String>>)
    ensures
        names_v(r@) == names_v(v@),
{
    let mut out: Vec<Option<String>> = Vec::new();
    let mut i: usize = 0;
    while i < v.len()
        invariant
            i <= v@.len(),
            out@.len() == i,
            forall|k: int|
                0 <= k < i ==> (match #[trigger] out@[k] {
                    Some(s) => v@[k] is Some && s@ == v@[k]->Some_0@,
                    None => v@[k] is None,
                }),
        decreases v@.len() - i,
    {
        let el = match &v[i] {
            Some(s) => Some(s.clone()),
            None => None,
        };
        out.push(el);
        i = i + 1;
    }
    proof {
        assert(names_v(out@) =~= names_v(v@));
    }
    out
}

impl LocalSpace {
    pub open(crate) spec fn lv(&self) -> LocalSpaceV {
        self.rep.lv()
    }

    pub open(crate) spec fn id(&self) -> nat {
        self.id@
    }

    pub open(crate) spec fn ctx_of(&self) -> ContextRef {
        self.ctx
    }

    /// The name tables match the dimension counts, which do not overflow
    /// their sum.
    pub open(crate) spec fn lwf(&self) -> bool {
        self.rep.lwf()
    }

    pub open(crate) spec fn owned_by(&self, c: Context) -> bool {
        &&& self.ctx == c.ctx_ref()
        &&& c.live().contains(self.id@)
        &&& self.lwf()
    }

    pub fn context_ref(&self) -> (r: ContextRef)
        ensures
            r == self.ctx_of(),
    {
        self.ctx
    }

    /// Diagnostic print entry point; no observable effect.
    pub fn dump(&self) {
    }

    /// A local space over the given space, with no divisor dimensions yet;
    /// the space is consumed.
    pub fn try_from(space: Space, ctx: &mut Context) -> (r: Result<LocalSpace, Error>)
        requires
            old(ctx).wf(),
            space.owned_by(*old(ctx)),
            old(ctx).allocs() < u64::MAX,
        ensures
            final(ctx).wf(),
            match r {
                Ok(ls) => {
                    &&& op1_ok(*old(ctx), *final(ctx), space.id(), ls.id())
                    &&& ls.lv().sp == space.sv()
                    &&& ls.lv().n_div == 0
                    &&& forall|i: int|
                        0 <= i < space.sv().n_param ==> ls.lv().p_names[i] is None
                    &&& forall|i: int| 0 <= i < space.sv().n_in ==> ls.lv().i_names[i] is None
                    &&& forall|i: int| 0 <= i < space.sv().n_out ==> ls.lv().o_names[i] is None
                    &&& ls.lv().in_tuple is None && ls.lv().out_tuple is None
                    &&& ls.ctx_of() == old(ctx).ctx_ref()
                    &&& ls.owned_by(*final(ctx))
                },
                Err(e) => old(ctx).call_blocked() && op1_refused(
                    *old(ctx),
                    *final(ctx),
                    space.id(),
                ) && crate::context::refusal_err_matches(*old(ctx), e),
            },
    {
        let cref = space.context_ref();
        let ghost ida = space.id@;
        let s = space.s;
        match ctx.consume1(Ghost(ida)) {
            Some(e) => Err(Error::IslError(e)),
            None => {
                let p_names = blank_names(s.n_param);
                let i_names = blank_names(s.n_in);
                let o_names = blank_names(s.n_out);
                let id = ctx.ledger_alloc();
                Ok(
                    LocalSpace {
                        ctx: cref,
                        rep: LsRepr {
                            s,
                            n_div: 0,
                            p_names,
                            i_names,
                            o_names,
                            in_tuple: None,
                            out_tuple: None,
                        },
                        id,
                    },
                )
            },
        }
    }

    /// Whether this local space is over a parameter-only space.
    pub fn is_params(&self) -> (r: Option<bool>)
        ensures
            r == Some(self.lv().sp.kind == SpaceKind::Params),
    {
        Some(matches!(self.rep.s.kind, SpaceKind::Params))
    }

    /// Whether this local space is over a set space.
    pub fn is_set(&self) -> (r: Option<bool>)
        ensures
            r == Some(self.lv().sp.kind == SpaceKind::SetSpace),
    {
        Some(matches!(self.rep.s.kind, SpaceKind::SetSpace))
    }

    /// The count of the given dimension kind.
    pub fn dim(&self, dim: DimType) -> (r: Option<u32>)
        requires
            self.lwf(),
        ensures
            r == Some(self.lv().dim_of(dim)),
    {
        Some(
            match dim {
                DimType::Param => self.rep.s.n_param,
                DimType::In => self.rep.s.n_in,
                DimType::Out => self.rep.s.n_out,
                DimType::Div => self.rep.n_div,
                DimType::All => self.rep.s.n_param + self.rep.s.n_in + self.rep.s.n_out + self.rep.n_div,
                DimType::Cst => 0,
            },
        )
    }

    /// The underlying space, as a newly owned copy.
    pub fn get_space(&self, ctx: &mut Context) -> (r: Space)
        requires
            old(ctx).wf(),
            self.owned_by(*old(ctx)),
            old(ctx).allocs() < u64::MAX,
        ensures
            final(ctx).wf(),
            alloc_one(*old(ctx), *final(ctx), r.id()),
            r.sv() == self.lv().sp,
            r.ctx_of() == self.ctx_of(),
            r.owned_by(*final(ctx)),
            self.owned_by(*final(ctx)),
    {
        let id = ctx.ledger_alloc();
        Space { ctx: self.ctx, s: self.rep.s.clone_repr(), id }
    }

    /// Add dimensions of the given kind in place; the foreign call
    /// replaces the backing object, so the stored handle is replaced with
    /// the fresh one.
    pub fn add_dims(&mut self, dim: DimType, num: u32, ctx: &mut Context)
        requires
            old(ctx).wf(),
            old(self).owned_by(*old(ctx)),
            old(ctx).allocs() < u64::MAX,
            old(self).lv().sp.n_param + old(self).lv().sp.n_in + old(self).lv().sp.n_out + old(self).lv().n_div + num <= u32::MAX,
            dim is Param || dim is In || dim is Out || dim is Div,
        ensures
            final(ctx).wf(),
            xform1(*old(ctx), *final(ctx), old(self).id(), final(self).id()),
            final(self).ctx_of() == old(self).ctx_of(),
            final(self).owned_by(*final(ctx)),
            final(self).lv().dim_of(dim) == old(self).lv().dim_of(dim) + num,
            final(self).lv().names_of(dim) == (match dim {
                DimType::Div => old(self).lv().names_of(dim),
                _ => old(self).lv().names_of(dim) + Seq::new(
                    num as nat,
                    |i: int| None::<Seq<char>>,
                ),
            }),
            final(self).lv().in_tuple == old(self).lv().in_tuple,
            final(self).lv().out_tuple == old(self).lv().out_tuple,
            final(self).lv().sp.kind == old(self).lv().sp.kind,
            (dim is Param ==> final(self).lv().sp.n_in == old(self).lv().sp.n_in && final(self).lv().sp.n_out == old(self).lv().sp.n_out && final(self).lv().n_div == old(self).lv().n_div),
            (dim is In ==> final(self).lv().sp.n_param == old(self).lv().sp.n_param && final(self).lv().sp.n_out == old(self).lv().sp.n_out && final(self).lv().n_div == old(self).lv().n_div),
            (dim is Out ==> final(self).lv().sp.n_param == old(self).lv().sp.n_param && final(self).lv().sp.n_in == old(self).lv().sp.n_in && final(self).lv().n_div == old(self).lv().n_div),
            (dim is Div ==> final(self).lv().sp == old(self).lv().sp),
    {
        let ghost ida = self.id@;
        ctx.ledger_free(Ghost(ida));
        match dim {
            DimType::Param => {
                self.rep.s.n_param = self.rep.s.n_param + num;
                let mut i: u32 = 0;
                while i < num
                    invariant
                        i <= num,
                        self.rep.p_names@.len() == old(self).rep.p_names@.len() + i,
                        forall|k: int|
                            0 <= k < old(self).rep.p_names@.len() ==> self.rep.p_names@[k] == old(self).rep.p_names@[k],
                        forall|k: int|
                            old(self).rep.p_names@.len() <= k < self.rep.p_names@.len() ==> self.rep.p_names@[k]
                                is None,
                        self.rep.s.n_param == old(self).rep.s.n_param + num,
                        self.rep.s.n_in == old(self).rep.s.n_in,
                        self.rep.s.n_out == old(self).rep.s.n_out,
                        self.rep.s.kind == old(self).rep.s.kind,
                        self.rep.s.in_name == old(self).rep.s.in_name,
                        self.rep.s.out_name == old(self).rep.s.out_name,
                        self.rep.i_names == old(self).rep.i_names,
                        self.rep.o_names == old(self).rep.o_names,
                        self.rep.in_tuple == old(self).rep.in_tuple,
                        self.rep.out_tuple == old(self).rep.out_tuple,
                        self.rep.n_div == old(self).rep.n_div,
                        self.ctx == old(self).ctx,
                    decreases num - i,
                {
                    self.rep.p_names.push(None);
                    i = i + 1;
                }
                proof {
                    assert(names_v(self.rep.p_names@) =~= names_v(old(self).rep.p_names@) + Seq::new(
                        num as nat,
                        |i: int| None::<Seq<char>>,
                    ));
                }
            },
            DimType::In => {
                self.rep.s.n_in = self.rep.s.n_in + num;
                let mut i: u32 = 0;
                while i < num
                    invariant
                        i <= num,
                        self.rep.i_names@.len() == old(self).rep.i_names@.len() + i,
                        forall|k: int|
                            0 <= k < old(self).rep.i_names@.len() ==> self.rep.i_names@[k] == old(self).rep.i_names@[k],
                        forall|k: int|
                            old(self).rep.i_names@.len() <= k < self.rep.i_names@.len() ==> self.rep.i_names@[k]
                                is None,
                        self.rep.s.n_in == old(self).rep.s.n_in + num,
                        self.rep.s.n_param == old(self).rep.s.n_param,
                        self.rep.s.n_out == old(self).rep.s.n_out,
                        self.rep.s.kind == old(self).rep.s.kind,
                        self.rep.s.in_name == old(self).rep.s.in_name,
                        self.rep.s.out_name == old(self).rep.s.out_name,
                        self.rep.p_names == old(self).rep.p_names,
                        self.rep.o_names == old(self).rep.o_names,
                        self.rep.in_tuple == old(self).rep.in_tuple,
                        self.rep.out_tuple == old(self).rep.out_tuple,
                        self.rep.n_div == old(self).rep.n_div,
                        self.ctx == old(self).ctx,
                    decreases num - i,
                {
                    self.rep.i_names.push(None);
                    i = i + 1;
                }
                proof {
                    assert(names_v(self.rep.i_names@) =~= names_v(old(self).rep.i_names@) + Seq::new(
                        num as nat,
                        |i: int| None::<Seq<char>>,
                    ));
                }
            },
            DimType::Out => {
                self.rep.s.n_out = self.rep.s.n_out + num;
                let mut i: u32 = 0;
                while i < num
                    invariant
                        i <= num,
                        self.rep.o_names@.len() == old(self).rep.o_names@.len() + i,
                        forall|k: int|
                            0 <= k < old(self).rep.o_names@.len() ==> self.rep.o_names@[k] == old(self).rep.o_names@[k],
                        forall|k: int|
                            old(self).rep.o_names@.len() <= k < self.rep.o_names@.len() ==> self.rep.o_names@[k]
                                is None,
                        self.rep.s.n_out == old(self).rep.s.n_out + num,
                        self.rep.s.n_param == old(self).rep.s.n_param,
                        self.rep.s.n_in == old(self).rep.s.n_in,
                        self.rep.s.kind == old(self).rep.s.kind,
                        self.rep.s.in_name == old(self).rep.s.in_name,
                        self.rep.s.out_name == old(self).rep.s.out_name,
                        self.rep.p_names == old(self).rep.p_names,
                        self.rep.i_names == old(self).rep.i_names,
                        self.rep.in_tuple == old(self).rep.in_tuple,
                        self.rep.out_tuple == old(self).rep.out_tuple,
                        self.rep.n_div == old(self).rep.n_div,
                        self.ctx == old(self).ctx,
                    decreases num - i,
                {
                    self.rep.o_names.push(None);
                    i = i + 1;
                }
                proof {
                    assert(names_v(self.rep.o_names@) =~= names_v(old(self).rep.o_names@) + Seq::new(
                        num as nat,
                        |i: int| None::<Seq<char>>,
                    ));
                }
            },
            _ => {
                self.rep.n_div = self.rep.n_div + num;
            },
        }
        let id = ctx.ledger_alloc();
        self.id = id;
        proof {
            match dim {
                DimType::Div => {
                    assert(names_v(self.rep.o_names@) =~= names_v(old(self).rep.o_names@));
                },
                _ => {},
            }
        }
    }

    /// Name one dimension in place; an embedded NUL in the name is a local
    /// validation failure that changes nothing.
    pub fn set_dim_name(&mut self, dim: DimType, pos: u32, name: &str, ctx: &mut Context) -> (r:
        Result<(), Error>)
        requires
            old(ctx).wf(),
            old(self).owned_by(*old(ctx)),
            old(ctx).allocs() < u64::MAX,
            dim is Param || dim is In || dim is Out,
            pos < old(self).lv().dim_of(dim),
        ensures
            final(ctx).wf(),
            match r {
                Ok(()) => {
                    &&& !has_nul(name.spec_bytes())
                    &&& xform1(*old(ctx), *final(ctx), old(self).id(), final(self).id())
                    &&& final(self).owned_by(*final(ctx))
                    &&& final(self).ctx_of() == old(self).ctx_of()
                    &&& final(self).lv().names_of(dim) == old(self).lv().names_of(dim).update(
                        pos as int,
                        Some(name@),
                    )
                    &&& final(self).lv().sp == old(self).lv().sp
                    &&& final(self).lv().n_div == old(self).lv().n_div
                    &&& final(self).lv().in_tuple == old(self).lv().in_tuple
                    &&& final(self).lv().out_tuple == old(self).lv().out_tuple
                    &&& (dim is Param ==> final(self).lv().i_names == old(self).lv().i_names
                        && final(self).lv().o_names == old(self).lv().o_names)
                    &&& (dim is In ==> final(self).lv().p_names == old(self).lv().p_names && final(self).lv().o_names == old(self).lv().o_names)
                    &&& (dim is Out ==> final(self).lv().p_names == old(self).lv().p_names
                        && final(self).lv().i_names == old(self).lv().i_names)
                },
                Err(e) => has_nul(name.spec_bytes()) && e is NulError && *final(ctx) == *old(ctx)
                    && *final(self) == *old(self),
            },
    {
        if has_nul_scan(name.as_bytes()) {
            return Err(Error::NulError);
        }
        let ghost ida = self.id@;
        ctx.ledger_free(Ghost(ida));
        match dim {
            DimType::Param => {
                self.rep.p_names.set(pos as usize, Some(name.to_string()));
                proof {
                    assert(names_v(self.rep.p_names@) =~= names_v(old(self).rep.p_names@).update(
                        pos as int,
                        Some(name@),
                    ));
                }
            },
            DimType::In => {
                self.rep.i_names.set(pos as usize, Some(name.to_string()));
                proof {
                    assert(names_v(self.rep.i_names@) =~= names_v(old(self).rep.i_names@).update(
                        pos as int,
                        Some(name@),
                    ));
                }
            },
            _ => {
                self.rep.o_names.set(pos as usize, Some(name.to_string()));
                proof {
                    assert(names_v(self.rep.o_names@) =~= names_v(old(self).rep.o_names@).update(
                        pos as int,
                        Some(name@),
                    ));
                }
            },
        }
        let id = ctx.ledger_alloc();
        self.id = id;
        Ok(())
    }

    /// Whether one dimension carries a name; a position out of range is a
    /// foreign error.
    pub fn has_dim_name(&self, dim: DimType, pos: u32) -> (r: Option<bool>)
        requires
            self.lwf(),
            dim is Param || dim is In || dim is Out,
        ensures
            r == (if pos < self.lv().dim_of(dim) {
                Some(self.lv().names_of(dim)[pos as int] is Some)
            } else {
                None::<bool>
            }),
    {
        let names = match dim {
            DimType::Param => &self.rep.p_names,
            DimType::In => &self.rep.i_names,
            _ => &self.rep.o_names,
        };
        if (pos as usize) < names.len() {
            Some(names[pos as usize].is_some())
        } else {
            None
        }
    }

    /// One dimension's name, borrowed through this handle; an unnamed or
    /// out-of-range dimension reads as `None`.
    pub fn get_dim_name(&self, dim: DimType, pos: u32) -> (r: Result<Option<&str>, Error>)
        requires
            self.lwf(),
            dim is Param || dim is In || dim is Out,
        ensures
            match r {
                Ok(n) => match n {
                    Some(s) => pos < self.lv().dim_of(dim) && self.lv().names_of(dim)[pos as int]
                        == Some(s@),
                    None => pos >= self.lv().dim_of(dim) || self.lv().names_of(dim)[pos as int]
                        is None,
                },
                Err(_) => false,
            },
    {
        let names = match dim {
            DimType::Param => &self.rep.p_names,
            DimType::In => &self.rep.i_names,
            _ => &self.rep.o_names,
        };
        if (pos as usize) < names.len() {
            match &names[pos as usize] {
                Some(s) => Ok(Some(s.as_str())),
                None => Ok(None),
            }
        } else {
            Ok(None)
        }
    }

    /// Whether one dimension carries an identifier; in this model a
    /// dimension's identifier carries its name.
    pub fn has_dim_id(&self, dim: DimType, pos: u32) -> (r: Option<bool>)
        requires
            self.lwf(),
            dim is Param || dim is In || dim is Out,
        ensures
            r == (if pos < self.lv().dim_of(dim) {
                Some(self.lv().names_of(dim)[pos as int] is Some)
            } else {
                None::<bool>
            }),
    {
        self.has_dim_name(dim, pos)
    }

    /// One dimension's identifier as a newly owned handle; an unnamed or
    /// out-of-range dimension yields `None` and allocates nothing.
    pub fn get_dim_id(&self, dim: DimType, pos: u32, ctx: &mut Context) -> (r: Option<Ident>)
        requires
            old(ctx).wf(),
            self.owned_by(*old(ctx)),
            old(ctx).allocs() < u64::MAX,
            dim is Param || dim is In || dim is Out,
        ensures
            final(ctx).wf(),
            match r {
                Some(ident) => {
                    &&& pos < self.lv().dim_of(dim)
                    &&& self.lv().names_of(dim)[pos as int] == Some(ident.name_of())
                    &&& ident.user_of() is None
                    &&& alloc_one(*old(ctx), *final(ctx), ident.id())
                    &&& ident.ctx_of() == self.ctx_of()
                    &&& ident.owned_by(*final(ctx))
                },
                None => (pos >= self.lv().dim_of(dim) || self.lv().names_of(dim)[pos as int]
                    is None) && *final(ctx) == *old(ctx),
            },
    {
        let names = match dim {
            DimType::Param => &self.rep.p_names,
            DimType::In => &self.rep.i_names,
            _ => &self.rep.o_names,
        };
        if (pos as usize) < names.len() {
            match &names[pos as usize] {
                Some(s) => {
                    let name = s.clone();
                    let id = ctx.ledger_alloc();
                    Some(Ident { ctx: self.ctx, name, user: None, id })
                },
                None => None,
            }
        } else {
            None
        }
    }

    /// Put an identifier on one dimension in place, consuming the
    /// identifier.
    pub fn set_dim_id(&mut self, dim: DimType, pos: u32, ident: Ident, ctx: &mut Context)
        requires
            old(ctx).wf(),
            old(self).owned_by(*old(ctx)),
            ident.owned_by(*old(ctx)),
            ident.id() != old(self).id(),
            old(ctx).allocs() < u64::MAX,
            dim is Param || dim is In || dim is Out,
            pos < old(self).lv().dim_of(dim),
        ensures
            final(ctx).wf(),
            xform2(*old(ctx), *final(ctx), old(self).id(), ident.id(), final(self).id()),
            final(self).owned_by(*final(ctx)),
            final(self).ctx_of() == old(self).ctx_of(),
            final(self).lv().names_of(dim) == old(self).lv().names_of(dim).update(
                pos as int,
                Some(ident.name_of()),
            ),
            final(self).lv().sp == old(self).lv().sp,
            final(self).lv().n_div == old(self).lv().n_div,
    {
        let ghost ida = self.id@;
        let ghost idb = ident.id@;
        ctx.ledger_free(Ghost(ida));
        ctx.ledger_free(Ghost(idb));
        let name = ident.name;
        match dim {
            DimType::Param => {
                self.rep.p_names.set(pos as usize, Some(name));
                proof {
                    assert(names_v(self.rep.p_names@) =~= names_v(old(self).rep.p_names@).update(
                        pos as int,
                        Some(ident.name@),
                    ));
                }
            },
            DimType::In => {
                self.rep.i_names.set(pos as usize, Some(name));
                proof {
                    assert(names_v(self.rep.i_names@) =~= names_v(old(self).rep.i_names@).update(
                        pos as int,
                        Some(ident.name@),
                    ));
                }
            },
            _ => {
                self.rep.o_names.set(pos as usize, Some(name));
                proof {
                    assert(names_v(self.rep.o_names@) =~= names_v(old(self).rep.o_names@).update(
                        pos as int,
                        Some(ident.name@),
                    ));
                }
            },
        }
        let id = ctx.ledger_alloc();
        self.id = id;
    }

    /// Put an identifier on the given tuple in place, consuming the
    /// identifier.
    pub fn set_tuple_id(&mut self, dim: DimType, ident: Ident, ctx: &mut Context)
        requires
            old(ctx).wf(),
            old(self).owned_by(*old(ctx)),
            ident.owned_by(*old(ctx)),
            ident.id() != old(self).id(),
            old(ctx).allocs() < u64::MAX,
            dim is In || dim is Out,
        ensures
            final(ctx).wf(),
            xform2(*old(ctx), *final(ctx), old(self).id(), ident.id(), final(self).id()),
            final(self).owned_by(*final(ctx)),
            final(self).ctx_of() == old(self).ctx_of(),
            final(self).lv().in_tuple == (if dim is In {
                Some(ident.name_of())
            } else {
                old(self).lv().in_tuple
            }),
            final(self).lv().out_tuple == (if dim is Out {
                Some(ident.name_of())
            } else {
                old(self).lv().out_tuple
            }),
            final(self).lv().sp == old(self).lv().sp,
            final(self).lv().n_div == old(self).lv().n_div,
            final(self).lv().p_names == old(self).lv().p_names,
            final(self).lv().i_names == old(self).lv().i_names,
            final(self).lv().o_names == old(self).lv().o_names,
    {
        let ghost ida = self.id@;
        let ghost idb = ident.id@;
        ctx.ledger_free(Ghost(ida));
        ctx.ledger_free(Ghost(idb));
        match dim {
            DimType::In => {
                self.rep.in_tuple = Some(ident.name);
            },
            _ => {
                self.rep.out_tuple = Some(ident.name);
            },
        }
        let id = ctx.ledger_alloc();
        self.id = id;
    }

    /// The position of the first dimension of the given kind carrying this
    /// name; `None` when there is none.
    pub fn find_dim_by_name(&self, dim: DimType, name: &str) -> (r: Option<u32>)
        requires
            self.lwf(),
            dim is Param || dim is In || dim is Out,
        ensures
            match r {
                Some(p) => p < self.lv().dim_of(dim) && self.lv().names_of(dim)[p as int] == Some(
                    name@,
                ) && forall|k: int|
                    0 <= k < p ==> self.lv().names_of(dim)[k] != Some(name@),
                None => forall|k: int|
                    0 <= k < self.lv().dim_of(dim) ==> self.lv().names_of(dim)[k] != Some(name@),
            },
    {
        let names = match dim {
            DimType::Param => &self.rep.p_names,
            DimType::In => &self.rep.i_names,
            _ => &self.rep.o_names,
        };
        let target = name.to_string();
        let mut k: usize = 0;
        while k < names.len()
            invariant
                k <= names@.len(),
                names@.len() <= u32::MAX,
                target@ == name@,
                names_v(names@) == self.lv().names_of(dim),
                names@.len() == self.lv().dim_of(dim),
                forall|m: int| 0 <= m < k ==> names_v(names@)[m] != Some(name@),
            decreases names@.len() - k,
        {
            proof {
                assert(names_v(names@)[k as int] == (match names@[k as int] {
                    Some(s) => Some(s@),
                    None => None::<Seq<char>>,
                }));
            }
            match &names[k] {
                Some(s) => {
                    if s.eq(&target) {
                        return Some(k as u32);
                    }
                },
                None => {},
            }
            k = k + 1;
        }
        None
    }

    /// The foreign copy entry point.
    pub fn copy(&self, ctx: &mut Context) -> (r: LocalSpace)
        requires
            old(ctx).wf(),
            self.owned_by(*old(ctx)),
            old(ctx).allocs() < u64::MAX,
        ensures
            final(ctx).wf(),
            alloc_one(*old(ctx), *final(ctx), r.id()),
            r.lv() == self.lv(),
            r.ctx_of() == self.ctx_of(),
            r.owned_by(*final(ctx)),
            self.owned_by(*final(ctx)),
    {
        let id = ctx.ledger_alloc();
        LocalSpace { ctx: self.ctx, rep: self.rep.clone_repr(), id }
    }

    /// Destroy the foreign object behind this handle.
    pub fn free(self, ctx: &mut Context)
        requires
            old(ctx).wf(),
            self.owned_by(*old(ctx)),
        ensures
            final(ctx).wf(),
            free_one(*old(ctx), *final(ctx), self.id()),
    {
        ctx.ledger_free(Ghost(self.id@));
    }
}


/// Remove a range from a name table.
fn remove_name_range(v: &mut Vec<Option<String>>, from: u32, num: u32)
    requires
        from + num <= old(v)@.len(),
    ensures
        names_v(final(v)@) == names_v(old(v)@).subrange(0, from as int) + names_v(old(v)@)
            .subrange(from as int + num as int, old(v)@.len() as int),
        final(v)@.len() == old(v)@.len() - num,
{
    let mut k: u32 = 0;
    while k < num
        invariant
            k <= num,
            from + num <= old(v)@.len(),
            v@.len() == old(v)@.len() - k,
            forall|m: int| 0 <= m < from ==> v@[m] == old(v)@[m],
            forall|m: int|
                from <= m < v@.len() ==> v@[m] == old(v)@[m + k],
        decreases num - k,
    {
        let _ = v.remove(from as usize);
        k = k + 1;
    }
    proof {
        assert(names_v(v@) =~= names_v(old(v)@).subrange(0, from as int) + names_v(old(v)@)
            .subrange(from as int + num as int, old(v)@.len() as int));
    }
}

/// Insert unnamed entries into a name table.
fn insert_blank_range(v: &mut Vec<Option<String>>, pos: u32, num: u32)
    requires
        pos <= old(v)@.len(),
        old(v)@.len() + num <= u32::MAX,
    ensures
        names_v(final(v)@) == names_v(old(v)@).subrange(0, pos as int) + Seq::new(
            num as nat,
            |i: int| None::<Seq<char>>,
        ) + names_v(old(v)@).subrange(pos as int, old(v)@.len() as int),
        final(v)@.len() == old(v)@.len() + num,
{
    let mut k: u32 = 0;
    while k < num
        invariant
            k <= num,
            pos <= old(v)@.len(),
            old(v)@.len() + num <= u32::MAX,
            v@.len() == old(v)@.len() + k,
            forall|m: int| 0 <= m < pos ==> v@[m] == old(v)@[m],
            forall|m: int| pos <= m < pos + k ==> v@[m] is None,
            forall|m: int|
                pos + k <= m < v@.len() ==> v@[m] == old(v)@[m - k],
        decreases num - k,
    {
        v.insert(pos as usize, None);
        k = k + 1;
    }
    proof {
        assert(names_v(v@) =~= names_v(old(v)@).subrange(0, pos as int) + Seq::new(
            num as nat,
            |i: int| None::<Seq<char>>,
        ) + names_v(old(v)@).subrange(pos as int, old(v)@.len() as int));
    }
}

impl LocalSpace {
    /// Drop a dimension range in place; the foreign call replaces the
    /// backing object, so the stored handle is replaced with the fresh
    /// one.
    pub fn drop_dims(&mut self, dim: DimType, from: u32, num: u32, ctx: &mut Context)
        requires
            old(ctx).wf(),
            old(self).owned_by(*old(ctx)),
            old(ctx).allocs() < u64::MAX,
            dim is Param || dim is In || dim is Out || dim is Div,
            from + num <= old(self).lv().dim_of(dim),
        ensures
            final(ctx).wf(),
            xform1(*old(ctx), *final(ctx), old(self).id(), final(self).id()),
            final(self).ctx_of() == old(self).ctx_of(),
            final(self).owned_by(*final(ctx)),
            final(self).lv().dim_of(dim) == old(self).lv().dim_of(dim) - num,
            (dim is Div ==> final(self).lv().names_of(dim) == old(self).lv().names_of(dim)),
            (!(dim is Div) ==> final(self).lv().names_of(dim) == old(self).lv().names_of(
                dim,
            ).subrange(0, from as int) + old(self).lv().names_of(dim).subrange(
                from as int + num as int,
                old(self).lv().dim_of(dim) as int,
            )),
            final(self).lv().in_tuple == old(self).lv().in_tuple,
            final(self).lv().out_tuple == old(self).lv().out_tuple,
            final(self).lv().sp.kind == old(self).lv().sp.kind,
    {
        let ghost ida = self.id@;
        ctx.ledger_free(Ghost(ida));
        match dim {
            DimType::Param => {
                self.rep.s.n_param = self.rep.s.n_param - num;
                remove_name_range(&mut self.rep.p_names, from, num);
            },
            DimType::In => {
                self.rep.s.n_in = self.rep.s.n_in - num;
                remove_name_range(&mut self.rep.i_names, from, num);
            },
            DimType::Out => {
                self.rep.s.n_out = self.rep.s.n_out - num;
                remove_name_range(&mut self.rep.o_names, from, num);
            },
            _ => {
                self.rep.n_div = self.rep.n_div - num;
            },
        }
        let id = ctx.ledger_alloc();
        self.id = id;
    }

    /// Insert unnamed dimensions in place; the foreign call replaces the
    /// backing object, so the stored handle is replaced with the fresh
    /// one.
    pub fn insert_dims(&mut self, dim: DimType, pos: u32, num: u32, ctx: &mut Context)
        requires
            old(ctx).wf(),
            old(self).owned_by(*old(ctx)),
            old(ctx).allocs() < u64::MAX,
            dim is Param || dim is In || dim is Out || dim is Div,
            pos <= old(self).lv().dim_of(dim),
            old(self).lv().sp.n_param + old(self).lv().sp.n_in + old(self).lv().sp.n_out + old(
                self,
            ).lv().n_div + num <= u32::MAX,
        ensures
            final(ctx).wf(),
            xform1(*old(ctx), *final(ctx), old(self).id(), final(self).id()),
            final(self).ctx_of() == old(self).ctx_of(),
            final(self).owned_by(*final(ctx)),
            final(self).lv().dim_of(dim) == old(self).lv().dim_of(dim) + num,
            (dim is Div ==> final(self).lv().names_of(dim) == old(self).lv().names_of(dim)),
            (!(dim is Div) ==> final(self).lv().names_of(dim) == old(self).lv().names_of(
                dim,
            ).subrange(0, pos as int) + Seq::new(num as nat, |i: int| None::<Seq<char>>) + old(
                self,
            ).lv().names_of(dim).subrange(pos as int, old(self).lv().dim_of(dim) as int)),
            final(self).lv().in_tuple == old(self).lv().in_tuple,
            final(self).lv().out_tuple == old(self).lv().out_tuple,
            final(self).lv().sp.kind == old(self).lv().sp.kind,
    {
        let ghost ida = self.id@;
        ctx.ledger_free(Ghost(ida));
        match dim {
            DimType::Param => {
                self.rep.s.n_param = self.rep.s.n_param + num;
                insert_blank_range(&mut self.rep.p_names, pos, num);
            },
            DimType::In => {
                self.rep.s.n_in = self.rep.s.n_in + num;
                insert_blank_range(&mut self.rep.i_names, pos, num);
            },
            DimType::Out => {
                self.rep.s.n_out = self.rep.s.n_out + num;
                insert_blank_range(&mut self.rep.o_names, pos, num);
            },
            _ => {
                self.rep.n_div = self.rep.n_div + num;
            },
        }
        let id = ctx.ledger_alloc();
        self.id = id;
    }
}

} // verus!

