//! The layer-wide laws, stated as proof functions over the session model
//! and the handles' contracts.

use vstd::prelude::*;

use crate::context::{alloc_one, free_one, Context};
use crate::rat::{divides, gcd_nat, lemma_gcd_divides, lemma_gcd_pos, rv_is_int};
use crate::value::Value;

verus! {

/// Free is never invoked more often than allocation handed an object
/// out: in a consistent session the ledger cannot over-free, so each
/// foreign object is destroyed at most once.
pub proof fn lemma_free_never_exceeds_alloc(c: Context)
    requires
        c.wf(),
    ensures
        c.frees() <= c.allocs(),
{
}

/// A copy followed by a free of the copy restores the session's balance
/// exactly: across any such cycle the object count and the set of live
/// objects return to what they were, so clone-and-drop cycles of any
/// depth leak nothing and free nothing twice.
pub proof fn lemma_copy_then_free_restores_session(pre: Context, mid: Context, post: Context, a: nat)
    requires
        pre.wf(),
        alloc_one(pre, mid, a),
        free_one(mid, post, a),
    ensures
        post.allocs() - post.frees() == pre.allocs() - pre.frees(),
        post.live() == pre.live(),
        post.operations() == pre.operations(),
        post.slot() == pre.slot(),
{
    assert(!pre.live().contains(a));
    assert(post.live() =~= pre.live());
}

/// Context affinity: an owned value's context reference is exactly the
/// reference of the session that owns it, read from the object itself.
pub proof fn lemma_owned_value_context(c: Context, v: Value)
    requires
        v.owned_by(c),
    ensures
        v.ctx_of() == c.ctx_ref(),
{
}

/// Context affinity across derivation: an object allocated by a session
/// stays an object of that session, never of another.
pub proof fn lemma_alloc_preserves_session(pre: Context, post: Context, a: nat)
    requires
        alloc_one(pre, post, a),
    ensures
        post.ctx_ref() == pre.ctx_ref(),
        post.live().contains(a),
{
}

/// Idempotence of projections: a non-consuming query is a function of
/// the handle's reading alone, so repeated calls on an unmodified object
/// answer the same — here for the integrality query, whose contract
/// fixes its result to this reading.
pub proof fn lemma_query_reads_value_alone(v1: Value, v2: Value)
    requires
        v1.val() == v2.val(),
    ensures
        rv_is_int(v1.val()) == rv_is_int(v2.val()),
{
}

/// The greatest common divisor a checked computation returns is a common
/// divisor of both inputs, and positive whenever either input is.
pub proof fn lemma_gcd_is_common_divisor(a: nat, b: nat)
    ensures
        divides(gcd_nat(a, b) as int, a as int),
        divides(gcd_nat(a, b) as int, b as int),
        a > 0 || b > 0 ==> gcd_nat(a, b) > 0,
{
    lemma_gcd_divides(a, b);
    lemma_gcd_pos(a, b);
}

} // verus!
