//! Per-variable usage records and the consistency finalizer, which turns
//! each slot's log into a verdict on the parameter bound there.
use vstd::prelude::*;
use crate::expr::{Expr, Id};
use crate::collect::{FnSig, Module, slot_log, collect_logs};

verus! {

/// The finalizer's conclusion on one parameter.
#[derive(Clone, Copy, Debug, PartialEq, Eq, Structural)]
pub struct ParameterValues {
    /// The value all calls agree on; present exactly when `is_consistent`.
    pub consistent_value: Option<Expr>,
    /// How many values were logged for the parameter's slot.
    pub callsite_count: usize,
    pub is_consistent: bool,
}

/// What the usage analysis knows of one binding.
#[derive(Clone, Copy, Debug, PartialEq, Eq, Structural)]
pub struct VarUsageInfo {
    pub id: Id,
    /// The binding is assigned to somewhere after its declaration.
    pub reassigned: bool,
    /// How many calls of the binding the usage analysis has seen.
    pub callee_count: usize,
    pub param_values: Option<ParameterValues>,
}

/// What the usage analysis knows of one function scope.
#[derive(Clone, Copy, Debug, PartialEq, Eq, Structural)]
pub struct ScopeData {
    pub ctxt: u32,
    pub has_eval_call: bool,
    pub has_with_stmt: bool,
    pub used_arguments: bool,
}

/// The usage tables shared by the passes of the optimizer.
pub struct ProgramData {
    pub vars: Vec<VarUsageInfo>,
    pub scopes: Vec<ScopeData>,
}

/// Each parameter binding stands in one slot of one function.
pub open spec fn params_distinct(fns: Seq<FnSig>) -> bool {
    forall|f1: int, i1: int, f2: int, i2: int|
        0 <= f1 < fns.len() && 0 <= i1 < fns[f1].params@.len() && 0 <= f2 < fns.len()
            && 0 <= i2 < fns[f2].params@.len() && (#[trigger] fns[f1].params@[i1]).is_some()
            && fns[f1].params@[i1] == #[trigger] fns[f2].params@[i2]
            ==> f1 == f2 && i1 == i2
}

/// All values of a log equal its first one.
pub open spec fn all_same(log: Seq<Expr>) -> bool {
    forall|k: int| 0 <= k < log.len() ==> #[trigger] log[k] == log[0]
}

/// The verdict on a non-empty log.
pub open spec fn verdict_of(log: Seq<Expr>) -> ParameterValues {
    ParameterValues {
        consistent_value: if all_same(log) { Some(log[0]) } else { None },
        callsite_count: log.len() as usize,
        is_consistent: all_same(log),
    }
}

/// Slot `i` of function `f` binds `id`, and its log is not empty.
pub open spec fn logged_slot(fns: Seq<FnSig>, calls: Seq<crate::collect::CallSite>, id: Id, f: int, i: int) -> bool {
    &&& 0 <= f < fns.len()
    &&& 0 <= i < fns[f].params@.len()
    &&& fns[f].params@[i] == Some(id)
    &&& slot_log(fns, calls, f, i).len() > 0
}

/// A usage record after the finalizer: the verdict of its binding's slot
/// replaces any earlier one; a binding with no logged slot keeps its record.
pub open spec fn finalized(fns: Seq<FnSig>, calls: Seq<crate::collect::CallSite>, rec: VarUsageInfo) -> VarUsageInfo {
    if exists|f: int, i: int| logged_slot(fns, calls, rec.id, f, i) {
        let (f, i) = choose|f: int, i: int| logged_slot(fns, calls, rec.id, f, i);
        VarUsageInfo { param_values: Some(verdict_of(slot_log(fns, calls, f, i))), ..rec }
    } else {
        rec
    }
}

/// The verdict on a non-empty log: consistent, with the shared value, when
/// all values are equal; inconsistent otherwise. Either way the count is the
/// log's length.
pub fn verdict(values: &Vec<Expr>) -> (r: ParameterValues)
    requires
        values@.len() > 0,
    ensures
        r == verdict_of(values@),
{
    let first = values[0];
    let mut k: usize = 1;
    let mut same = true;
    while k < values.len()
        invariant
            1 <= k <= values@.len(),
            first == values@[0],
            same == (forall|j: int| 0 <= j < k ==> #[trigger] values@[j] == values@[0]),
        decreases values.len() - k,
    {
        if values[k] != first {
            same = false;
        }
        k = k + 1;
    }
    if same {
        ParameterValues { consistent_value: Some(first), callsite_count: values.len(), is_consistent: true }
    } else {
        ParameterValues { consistent_value: None, callsite_count: values.len(), is_consistent: false }
    }
}

fn same_id(a: Id, b: Id) -> (r: bool)
    ensures
        r == (a == b),
{
    a.sym.0 == b.sym.0 && a.ctxt == b.ctxt
}

/// The slot that binds `id` and has a non-empty log, if any.
fn find_logged_slot(m: &Module, logs: &Vec<Vec<Vec<Expr>>>, id: Id) -> (r: Option<(usize, usize)>)
    requires
        logs@.len() == m.fns@.len(),
        forall|f: int| 0 <= f < logs@.len() ==> logs@[f]@.len() == m.fns@[f].params@.len(),
        forall|f: int, i: int| 0 <= f < logs@.len() && 0 <= i < logs@[f]@.len()
            ==> #[trigger] logs@[f]@[i]@ == slot_log(m.fns@, m.calls@, f, i),
    ensures
        match r {
            Some((f, i)) => logged_slot(m.fns@, m.calls@, id, f as int, i as int),
            None => forall|f: int, i: int| !logged_slot(m.fns@, m.calls@, id, f, i),
        },
{
    let mut f: usize = 0;
    while f < m.fns.len()
        invariant
            f <= m.fns@.len(),
            logs@.len() == m.fns@.len(),
            forall|g: int| 0 <= g < logs@.len() ==> logs@[g]@.len() == m.fns@[g].params@.len(),
            forall|g: int, i: int| 0 <= g < logs@.len() && 0 <= i < logs@[g]@.len()
                ==> #[trigger] logs@[g]@[i]@ == slot_log(m.fns@, m.calls@, g, i),
            forall|g: int, i: int| 0 <= g < f ==> !logged_slot(m.fns@, m.calls@, id, g, i),
        decreases m.fns.len() - f,
    {
        let params = &m.fns[f].params;
        let mut i: usize = 0;
        while i < params.len()
            invariant
                f < m.fns@.len(),
                params@ == m.fns@[f as int].params@,
                i <= params@.len(),
                logs@.len() == m.fns@.len(),
                forall|g: int| 0 <= g < logs@.len() ==> logs@[g]@.len() == m.fns@[g].params@.len(),
                forall|g: int, k: int| 0 <= g < logs@.len() && 0 <= k < logs@[g]@.len()
                    ==> #[trigger] logs@[g]@[k]@ == slot_log(m.fns@, m.calls@, g, k),
                forall|k: int| 0 <= k < i ==> !logged_slot(m.fns@, m.calls@, id, f as int, k),
            decreases params.len() - i,
        {
            let hit = match params[i] {
                Some(p) => same_id(p, id),
                None => false,
            };
            if hit && logs[f][i].len() > 0 {
                return Some((f, i));
            }
            i = i + 1;
        }
        f = f + 1;
    }
    None
}

/// Runs the collector over a module and then the finalizer: every binding
/// whose parameter slot has a non-empty log gets that log's verdict; every
/// other record is left as it was.
pub fn analyze_param_values(m: &Module, data: &mut ProgramData)
    requires
        params_distinct(m.fns@),
    ensures
        final(data).scopes@ == old(data).scopes@,
        final(data).vars@.len() == old(data).vars@.len(),
        forall|v: int| 0 <= v < old(data).vars@.len()
            ==> #[trigger] final(data).vars@[v] == finalized(m.fns@, m.calls@, old(data).vars@[v]),
{
    let logs = collect_logs(m);
    let ghost before = data.vars@;
    let mut v: usize = 0;
    while v < data.vars.len()
        invariant
            params_distinct(m.fns@),
            data.scopes@ == old(data).scopes@,
            before == old(data).vars@,
            data.vars@.len() == before.len(),
            v <= before.len(),
            forall|u: int| 0 <= u < v ==> #[trigger] data.vars@[u] == finalized(m.fns@, m.calls@, before[u]),
            forall|u: int| v <= u < before.len() ==> #[trigger] data.vars@[u] == before[u],
            logs@.len() == m.fns@.len(),
            forall|f: int| 0 <= f < logs@.len() ==> logs@[f]@.len() == m.fns@[f].params@.len(),
            forall|f: int, i: int| 0 <= f < logs@.len() && 0 <= i < logs@[f]@.len()
                ==> #[trigger] logs@[f]@[i]@ == slot_log(m.fns@, m.calls@, f, i),
        decreases before.len() - v,
    {
        let rec = data.vars[v];
        match find_logged_slot(m, &logs, rec.id) {
            Some((f, i)) => {
                let pv = verdict(&logs[f][i]);
                proof {
                    let (cf, ci) = choose|cf: int, ci: int| logged_slot(m.fns@, m.calls@, rec.id, cf, ci);
                    assert(m.fns@[f as int].params@[i as int] == m.fns@[cf].params@[ci]);
                }
                data.vars.set(v, VarUsageInfo { param_values: Some(pv), ..rec });
            },
            None => {},
        }
        v = v + 1;
    }
}

} // verus!
