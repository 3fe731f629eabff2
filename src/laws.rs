//! Properties of the analysis and the transform, proved over the spec
//! functions that their contracts use.
use vstd::prelude::*;
use crate::expr::{Expr, Lit, trackable, undefined_expr, MAX_TRACKED_STR_LEN};
use crate::collect::{FnSig, CallSite, targets, no_spread_through, slot_entry, slot_log};
use crate::finalize::{ParameterValues, VarUsageInfo, finalized, verdict_of, all_same};
use crate::inline::{Param, inline_value, var_of};

verus! {

/// How many of the calls refer to function `f`.
pub open spec fn calls_to(fns: Seq<FnSig>, calls: Seq<CallSite>, f: int) -> nat
    decreases calls.len(),
{
    if calls.len() == 0 {
        0
    } else {
        calls_to(fns, calls.drop_last(), f) + if targets(fns, calls.last().callee, f) { 1nat } else { 0nat }
    }
}

/// Call `c` supplies `e` at slot `i`: the argument there is `e`, or the
/// argument is omitted and `e` is `undefined`; no spread argument comes
/// first.
pub open spec fn supplies(c: CallSite, i: int, e: Expr) -> bool {
    &&& no_spread_through(c.args@, i)
    &&& if i < c.args@.len() { c.args@[i].expr == e } else { e == undefined_expr() }
}

/// Running the collector and finalizer a second time over the same module
/// leaves every usage record as the first run left it.
pub proof fn lemma_analysis_idempotent(
    fns: Seq<FnSig>,
    calls: Seq<CallSite>,
    before: Seq<VarUsageInfo>,
    once: Seq<VarUsageInfo>,
    twice: Seq<VarUsageInfo>,
)
    requires
        once.len() == before.len(),
        twice.len() == once.len(),
        forall|v: int| 0 <= v < before.len() ==> #[trigger] once[v] == finalized(fns, calls, before[v]),
        forall|v: int| 0 <= v < once.len() ==> #[trigger] twice[v] == finalized(fns, calls, once[v]),
    ensures
        twice == once,
{
    assert forall|v: int| 0 <= v < once.len() implies #[trigger] twice[v] == once[v] by {
        assert(once[v].id == before[v].id);
    }
    assert(twice == once);
}

/// Where every call of `f` supplies the same trackable value at slot `i`
/// (an omitted argument counting as `undefined`), the log of that slot holds
/// that value once per call.
pub proof fn lemma_uniform_log(fns: Seq<FnSig>, calls: Seq<CallSite>, f: int, i: int, e: Expr)
    requires
        0 <= f < fns.len(),
        0 <= i < fns[f].params@.len(),
        trackable(e),
        forall|j: int| 0 <= j < calls.len() && targets(fns, (#[trigger] calls[j]).callee, f)
            ==> supplies(calls[j], i, e),
    ensures
        slot_log(fns, calls, f, i) == Seq::new(calls_to(fns, calls, f), |k: int| e),
    decreases calls.len(),
{
    if calls.len() > 0 {
        let prev = calls.drop_last();
        assert forall|j: int| 0 <= j < prev.len() && targets(fns, (#[trigger] prev[j]).callee, f)
            implies supplies(prev[j], i, e) by {
            assert(prev[j] == calls[j]);
        }
        lemma_uniform_log(fns, prev, f, i, e);
        let c = calls.last();
        assert(c == calls[calls.len() - 1]);
        if targets(fns, c.callee, f) {
            assert(slot_entry(fns, c, f, i) == Some(e));
        } else {
            assert(slot_entry(fns, c, f, i).is_none());
        }
        assert(slot_log(fns, calls, f, i) =~= Seq::new(calls_to(fns, calls, f), |k: int| e));
    } else {
        assert(slot_log(fns, calls, f, i) =~= Seq::new(calls_to(fns, calls, f), |k: int| e));
    }
}

/// Where `n >= 1` calls of `f` all supply the same trackable value at slot
/// `i`, the verdict on that slot is consistent, with that value, and counts
/// `n` call sites.
pub proof fn lemma_uniform_calls_consistent(fns: Seq<FnSig>, calls: Seq<CallSite>, f: int, i: int, e: Expr)
    requires
        0 <= f < fns.len(),
        0 <= i < fns[f].params@.len(),
        trackable(e),
        calls_to(fns, calls, f) >= 1,
        forall|j: int| 0 <= j < calls.len() && targets(fns, (#[trigger] calls[j]).callee, f)
            ==> supplies(calls[j], i, e),
    ensures
        verdict_of(slot_log(fns, calls, f, i)) == (ParameterValues {
            consistent_value: Some(e),
            callsite_count: calls_to(fns, calls, f) as usize,
            is_consistent: true,
        }),
{
    lemma_uniform_log(fns, calls, f, i, e);
    let log = slot_log(fns, calls, f, i);
    assert(all_same(log));
}

/// What a call logs for a slot stands in that slot's log.
pub proof fn lemma_entry_in_log(fns: Seq<FnSig>, calls: Seq<CallSite>, f: int, i: int, j: int, x: Expr)
    requires
        0 <= j < calls.len(),
        slot_entry(fns, calls[j], f, i) == Some(x),
    ensures
        exists|k: int| 0 <= k < slot_log(fns, calls, f, i).len() && slot_log(fns, calls, f, i)[k] == x,
    decreases calls.len(),
{
    let log = slot_log(fns, calls, f, i);
    if j == calls.len() - 1 {
        assert(log[log.len() - 1] == x);
    } else {
        let prev = calls.drop_last();
        assert(prev[j] == calls[j]);
        lemma_entry_in_log(fns, prev, f, i, j, x);
        let k = choose|k: int| 0 <= k < slot_log(fns, prev, f, i).len() && slot_log(fns, prev, f, i)[k] == x;
        assert(log[k] == x);
    }
}

/// Where two calls supply differing trackable values at a slot, the verdict
/// on it is inconsistent, keeps no value, and counts every logged call.
pub proof fn lemma_differing_calls_inconsistent(
    fns: Seq<FnSig>,
    calls: Seq<CallSite>,
    f: int,
    i: int,
    j1: int,
    j2: int,
    a: Expr,
    b: Expr,
)
    requires
        0 <= j1 < calls.len(),
        0 <= j2 < calls.len(),
        slot_entry(fns, calls[j1], f, i) == Some(a),
        slot_entry(fns, calls[j2], f, i) == Some(b),
        a != b,
    ensures
        verdict_of(slot_log(fns, calls, f, i)) == (ParameterValues {
            consistent_value: None,
            callsite_count: slot_log(fns, calls, f, i).len() as usize,
            is_consistent: false,
        }),
{
    let log = slot_log(fns, calls, f, i);
    lemma_entry_in_log(fns, calls, f, i, j1, a);
    lemma_entry_in_log(fns, calls, f, i, j2, b);
    let k1 = choose|k: int| 0 <= k < log.len() && log[k] == a;
    let k2 = choose|k: int| 0 <= k < log.len() && log[k] == b;
    if all_same(log) {
        assert(log[k1] == log[0]);
        assert(log[k2] == log[0]);
    }
}

/// A parameter whose verdict is inconsistent is never inlined.
pub proof fn lemma_inconsistent_never_inlined(vars: Seq<VarUsageInfo>, fn_id: crate::expr::Id, p: Param, info: VarUsageInfo)
    requires
        p.binding.is_some(),
        var_of(vars, p.binding->0) == Some(info),
        info.param_values.is_some(),
        !info.param_values->0.is_consistent,
    ensures
        inline_value(vars, fn_id, p).is_none(),
{
}

/// A spread argument at position `k` of call `j` leaves the log of every
/// slot from `k` on as if that call had not been made; other calls log as
/// before.
pub proof fn lemma_spread_truncates(fns: Seq<FnSig>, calls: Seq<CallSite>, f: int, i: int, j: int, k: int)
    requires
        0 <= j < calls.len(),
        0 <= k < calls[j].args@.len(),
        calls[j].args@[k].spread,
        k <= i,
    ensures
        slot_entry(fns, calls[j], f, i).is_none(),
        slot_log(fns, calls, f, i) == slot_log(fns, calls.remove(j), f, i),
    decreases calls.len(),
{
    let c = calls[j];
    assert(!no_spread_through(c.args@, i));
    if j == calls.len() - 1 {
        assert(calls.remove(j) == calls.drop_last());
    } else {
        let prev = calls.drop_last();
        assert(prev[j] == calls[j]);
        lemma_spread_truncates(fns, prev, f, i, j, k);
        assert(calls.remove(j).drop_last() == prev.remove(j));
        assert(calls.remove(j).last() == calls.last());
    }
}

/// Every value in a log passes the classifier.
pub proof fn lemma_log_trackable(fns: Seq<FnSig>, calls: Seq<CallSite>, f: int, i: int)
    ensures
        forall|k: int| 0 <= k < slot_log(fns, calls, f, i).len() ==> trackable(#[trigger] slot_log(fns, calls, f, i)[k]),
    decreases calls.len(),
{
    if calls.len() > 0 {
        lemma_log_trackable(fns, calls.drop_last(), f, i);
        let c = calls.last();
        let prev = slot_log(fns, calls.drop_last(), f, i);
        let log = slot_log(fns, calls, f, i);
        assert(trackable(undefined_expr()));
        assert forall|k: int| 0 <= k < log.len() implies trackable(#[trigger] log[k]) by {
            if k < prev.len() {
                assert(log[k] == prev[k]);
            }
        }
    }
}

/// A string literal longer than the tracking bound is never logged, and
/// never inlined.
pub proof fn lemma_long_strings_excluded(
    fns: Seq<FnSig>,
    calls: Seq<CallSite>,
    f: int,
    i: int,
    vars: Seq<VarUsageInfo>,
    fn_id: crate::expr::Id,
    p: Param,
)
    ensures
        forall|k: int| 0 <= k < slot_log(fns, calls, f, i).len() ==> !(#[trigger] slot_log(fns, calls, f, i)[k] matches Expr::Lit(Lit::Str { len, .. }) && len > MAX_TRACKED_STR_LEN),
        !(inline_value(vars, fn_id, p) matches Some(Expr::Lit(Lit::Str { len, .. })) && len > MAX_TRACKED_STR_LEN),
{
    lemma_log_trackable(fns, calls, f, i);
}

} // verus!
