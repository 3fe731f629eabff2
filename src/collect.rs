//! The call-site value collector: which value each call site supplies to
//! each parameter slot of a statically named function.
use vstd::prelude::*;
use crate::expr::{Expr, Id, trackable, undefined_expr, undefined, is_trackable_value};

verus! {

/// A function declaration or function expression: its name, if it has one,
/// and for each parameter slot the binding of a simple identifier parameter
/// (`None` for a destructuring, rest or defaulted pattern).
pub struct FnSig {
    pub name: Option<Id>,
    pub params: Vec<Option<Id>>,
}

/// One argument of a call.
#[derive(Clone, Copy, Debug, PartialEq, Eq, Structural)]
pub struct Arg {
    pub spread: bool,
    pub expr: Expr,
}

/// A call expression: its callee when that is a bare identifier, and its
/// arguments in order.
pub struct CallSite {
    pub callee: Option<Id>,
    pub args: Vec<Arg>,
}

/// The functions and calls of one module, each list in source order.
pub struct Module {
    pub fns: Vec<FnSig>,
    pub calls: Vec<CallSite>,
}

/// `f` is the function that a call of `callee` refers to: the last one
/// registered under that name.
pub open spec fn targets(fns: Seq<FnSig>, callee: Option<Id>, f: int) -> bool {
    &&& callee.is_some()
    &&& 0 <= f < fns.len()
    &&& fns[f].name == callee
    &&& forall|g: int| f < g < fns.len() ==> fns[g].name != callee
}

/// No spread argument stands at a position up to `i`.
pub open spec fn no_spread_through(args: Seq<Arg>, i: int) -> bool {
    forall|k: int| 0 <= k < args.len() && k <= i ==> !args[k].spread
}

/// What one call logs for slot `i` of function `f`: the argument there when it
/// is trackable, `undefined` when the argument is omitted, and nothing when
/// the call goes elsewhere, the slot is past the declared parameters, or a
/// spread argument stands at or before the slot. A parameter with a default
/// value is a placeholder slot, so an omitted argument logged as `undefined`
/// never decides a parameter that would in fact receive its default.
pub open spec fn slot_entry(fns: Seq<FnSig>, call: CallSite, f: int, i: int) -> Option<Expr> {
    if !targets(fns, call.callee, f) || !(0 <= i < fns[f].params.len())
        || !no_spread_through(call.args@, i) {
        None
    } else if i < call.args.len() {
        if trackable(call.args@[i].expr) {
            Some(call.args@[i].expr)
        } else {
            None
        }
    } else {
        Some(undefined_expr())
    }
}

/// The log of slot `i` of function `f`: what the calls supply there, in order.
pub open spec fn slot_log(fns: Seq<FnSig>, calls: Seq<CallSite>, f: int, i: int) -> Seq<Expr>
    decreases calls.len(),
{
    if calls.len() == 0 {
        Seq::empty()
    } else {
        let prev = slot_log(fns, calls.drop_last(), f, i);
        match slot_entry(fns, calls.last(), f, i) {
            Some(e) => prev.push(e),
            None => prev,
        }
    }
}

fn same_name(a: &Option<Id>, b: &Option<Id>) -> (r: bool)
    ensures
        r == (*a == *b),
{
    match (a, b) {
        (Some(x), Some(y)) => x.sym.0 == y.sym.0 && x.ctxt == y.ctxt,
        (None, None) => true,
        _ => false,
    }
}

/// The function that a callee refers to, if any.
pub fn resolve_callee(fns: &Vec<FnSig>, callee: &Option<Id>) -> (r: Option<usize>)
    ensures
        match r {
            Some(f) => targets(fns@, *callee, f as int),
            None => forall|f: int| !targets(fns@, *callee, f),
        },
{
    if callee.is_none() {
        return None;
    }
    let mut g: usize = fns.len();
    while g > 0
        invariant
            g <= fns.len(),
            callee.is_some(),
            forall|h: int| g <= h < fns.len() ==> fns@[h].name != *callee,
        decreases g,
    {
        g = g - 1;
        if same_name(&fns[g].name, callee) {
            return Some(g);
        }
    }
    None
}

/// What `call` logs for slot `i` of function `f`.
pub fn slot_value(fns: &Vec<FnSig>, call: &CallSite, f: usize, i: usize) -> (r: Option<Expr>)
    ensures
        r == slot_entry(fns@, *call, f as int, i as int),
{
    match resolve_callee(fns, &call.callee) {
        Some(g) => {
            if g != f {
                return None;
            }
        },
        None => {
            return None;
        },
    }
    if i >= fns[f].params.len() {
        return None;
    }
    let mut k: usize = 0;
    while k < call.args.len() && k <= i
        invariant
            k <= call.args.len(),
            k <= i + 1,
            forall|j: int| 0 <= j < k ==> !call.args@[j].spread,
        decreases call.args.len() - k,
    {
        if call.args[k].spread {
            return None;
        }
        k = k + 1;
    }
    if i < call.args.len() {
        let e = call.args[i].expr;
        if is_trackable_value(&e) {
            Some(e)
        } else {
            None
        }
    } else {
        Some(undefined())
    }
}

/// The log of slot `i` of function `f` over all calls of the module.
pub fn collect_slot(m: &Module, f: usize, i: usize) -> (r: Vec<Expr>)
    ensures
        r@ == slot_log(m.fns@, m.calls@, f as int, i as int),
{
    let mut r: Vec<Expr> = Vec::new();
    let mut j: usize = 0;
    while j < m.calls.len()
        invariant
            j <= m.calls.len(),
            r@ == slot_log(m.fns@, m.calls@.subrange(0, j as int), f as int, i as int),
        decreases m.calls.len() - j,
    {
        let v = slot_value(&m.fns, &m.calls[j], f, i);
        proof {
            assert(m.calls@.subrange(0, j + 1).drop_last() == m.calls@.subrange(0, j as int));
        }
        match v {
            Some(e) => r.push(e),
            None => {},
        }
        j = j + 1;
    }
    proof {
        assert(m.calls@.subrange(0, j as int) == m.calls@);
    }
    r
}

/// The call argument log: for each function and each of its slots, what
/// the calls supply there.
pub fn collect_logs(m: &Module) -> (r: Vec<Vec<Vec<Expr>>>)
    ensures
        r@.len() == m.fns@.len(),
        forall|f: int| 0 <= f < r@.len() ==> r@[f]@.len() == m.fns@[f].params@.len(),
        forall|f: int, i: int| 0 <= f < r@.len() && 0 <= i < r@[f]@.len()
            ==> #[trigger] r@[f]@[i]@ == slot_log(m.fns@, m.calls@, f, i),
{
    let mut r: Vec<Vec<Vec<Expr>>> = Vec::new();
    let mut f: usize = 0;
    while f < m.fns.len()
        invariant
            f <= m.fns.len(),
            r@.len() == f,
            forall|g: int| 0 <= g < f ==> r@[g]@.len() == m.fns@[g].params@.len(),
            forall|g: int, i: int| 0 <= g < f && 0 <= i < r@[g]@.len()
                ==> #[trigger] r@[g]@[i]@ == slot_log(m.fns@, m.calls@, g, i),
        decreases m.fns.len() - f,
    {
        let mut row: Vec<Vec<Expr>> = Vec::new();
        let mut i: usize = 0;
        while i < m.fns[f].params.len()
            invariant
                f < m.fns.len(),
                i <= m.fns@[f as int].params@.len(),
                row@.len() == i,
                forall|k: int| 0 <= k < i ==> #[trigger] row@[k]@ == slot_log(m.fns@, m.calls@, f as int, k),
            decreases m.fns@[f as int].params@.len() - i,
        {
            row.push(collect_slot(m, f, i));
            i = i + 1;
        }
        r.push(row);
        f = f + 1;
    }
    r
}

} // verus!
