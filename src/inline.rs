//! The inlining transform: a parameter whose verdict says that every call
//! supplies one constant becomes a `const` binding at the top of the body,
//! and leaves the signature.
use vstd::prelude::*;
use crate::expr::{Expr, Id, trackable, is_safe_to_inline_value};
use crate::finalize::{ParameterValues, VarUsageInfo, ScopeData, ProgramData};

verus! {

/// A formal parameter: a handle to the caller's node, and the binding when
/// the pattern is a simple identifier.
#[derive(Clone, Copy, Debug, PartialEq, Eq, Structural)]
pub struct Param {
    pub handle: u64,
    pub binding: Option<Id>,
}

/// A statement of a function body.
#[derive(Clone, Copy, Debug, PartialEq, Eq, Structural)]
pub enum Stmt {
    /// `const <binding> = <value>;`
    Const(Id, Expr),
    /// A statement of the caller's tree, by handle.
    Existing(u64),
}

/// A function: its scope's syntax context, its parameters and its body.
pub struct Function {
    pub ctxt: u32,
    pub params: Vec<Param>,
    pub body: Option<Vec<Stmt>>,
}

/// The part of the optimizer that the transform reads and writes.
pub struct Optimizer {
    /// Whether unused and constant bindings may be eliminated.
    pub unused: bool,
    pub data: ProgramData,
    /// Set when a pass changed the tree.
    pub changed: bool,
}

/// The first usage record of a binding.
pub open spec fn var_of(vars: Seq<VarUsageInfo>, id: Id) -> Option<VarUsageInfo>
    decreases vars.len(),
{
    if vars.len() == 0 {
        None
    } else if vars[0].id == id {
        Some(vars[0])
    } else {
        var_of(vars.drop_first(), id)
    }
}

/// The first scope record of a syntax context.
pub open spec fn scope_of(scopes: Seq<ScopeData>, ctxt: u32) -> Option<ScopeData>
    decreases scopes.len(),
{
    if scopes.len() == 0 {
        None
    } else if scopes[0].ctxt == ctxt {
        Some(scopes[0])
    } else {
        scope_of(scopes.drop_first(), ctxt)
    }
}

/// The function's scope uses `eval`, `with` or `arguments`.
pub open spec fn scope_blocks(scopes: Seq<ScopeData>, ctxt: u32) -> bool {
    match scope_of(scopes, ctxt) {
        Some(s) => s.has_eval_call || s.has_with_stmt || s.used_arguments,
        None => false,
    }
}

/// The value parameter `p` of function `fn_id` is inlined with, if it passes
/// every gate: a simple binding with a usage record, a consistent verdict
/// whose count is the function's call count, a value that passes the
/// classifier, and no reassignment of the parameter. A function binding that
/// is itself reassigned may be called through other values than the ones
/// logged, so its parameters are never inlined either.
pub open spec fn inline_value(vars: Seq<VarUsageInfo>, fn_id: Id, p: Param) -> Option<Expr> {
    match p.binding {
        None => None,
        Some(pid) => match var_of(vars, pid) {
            None => None,
            Some(info) => match info.param_values {
                Some(ParameterValues { consistent_value: Some(v), is_consistent: true, callsite_count }) =>
                    match var_of(vars, fn_id) {
                        Some(fi) => if fi.callee_count == callsite_count && !fi.reassigned && trackable(v)
                            && !info.reassigned {
                            Some(v)
                        } else {
                            None
                        },
                        None => None,
                    },
                _ => None,
            },
        },
    }
}

/// The parameters that stay, in order.
pub open spec fn kept_params(vars: Seq<VarUsageInfo>, fn_id: Id, ps: Seq<Param>) -> Seq<Param>
    decreases ps.len(),
{
    if ps.len() == 0 {
        Seq::empty()
    } else {
        let rest = kept_params(vars, fn_id, ps.drop_last());
        if inline_value(vars, fn_id, ps.last()).is_some() {
            rest
        } else {
            rest.push(ps.last())
        }
    }
}

/// The `const` bindings put in front of the body: one for each inlined
/// parameter, each inserted before those of the parameters to its left.
pub open spec fn const_decls(vars: Seq<VarUsageInfo>, fn_id: Id, ps: Seq<Param>) -> Seq<Stmt>
    decreases ps.len(),
{
    if ps.len() == 0 {
        Seq::empty()
    } else {
        let rest = const_decls(vars, fn_id, ps.drop_last());
        match (inline_value(vars, fn_id, ps.last()), ps.last().binding) {
            (Some(v), Some(pid)) => seq![Stmt::Const(pid, v)].add(rest),
            _ => rest,
        }
    }
}

/// The body, as a sequence of statements.
pub open spec fn body_view(b: Option<Vec<Stmt>>) -> Option<Seq<Stmt>> {
    match b {
        Some(v) => Some(v@),
        None => None,
    }
}

fn lookup_var(vars: &Vec<VarUsageInfo>, id: Id) -> (r: Option<VarUsageInfo>)
    ensures
        r == var_of(vars@, id),
{
    let mut k: usize = 0;
    proof {
        assert(vars@.subrange(0, vars@.len() as int) == vars@);
    }
    while k < vars.len()
        invariant
            k <= vars@.len(),
            var_of(vars@, id) == var_of(vars@.subrange(k as int, vars@.len() as int), id),
        decreases vars.len() - k,
    {
        proof {
            assert(vars@.subrange(k as int, vars@.len() as int).drop_first()
                == vars@.subrange(k + 1, vars@.len() as int));
        }
        let rec = vars[k];
        if rec.id.sym.0 == id.sym.0 && rec.id.ctxt == id.ctxt {
            return Some(rec);
        }
        k = k + 1;
    }
    None
}

fn lookup_scope(scopes: &Vec<ScopeData>, ctxt: u32) -> (r: Option<ScopeData>)
    ensures
        r == scope_of(scopes@, ctxt),
{
    let mut k: usize = 0;
    proof {
        assert(scopes@.subrange(0, scopes@.len() as int) == scopes@);
    }
    while k < scopes.len()
        invariant
            k <= scopes@.len(),
            scope_of(scopes@, ctxt) == scope_of(scopes@.subrange(k as int, scopes@.len() as int), ctxt),
        decreases scopes.len() - k,
    {
        proof {
            assert(scopes@.subrange(k as int, scopes@.len() as int).drop_first()
                == scopes@.subrange(k + 1, scopes@.len() as int));
        }
        let s = scopes[k];
        if s.ctxt == ctxt {
            return Some(s);
        }
        k = k + 1;
    }
    None
}

/// The value a parameter is inlined with, if it passes every gate.
pub fn param_inline_value(data: &ProgramData, fn_id: Id, p: Param) -> (r: Option<Expr>)
    ensures
        r == inline_value(data.vars@, fn_id, p),
{
    let pid = match p.binding {
        Some(pid) => pid,
        None => {
            return None;
        },
    };
    let info = match lookup_var(&data.vars, pid) {
        Some(info) => info,
        None => {
            return None;
        },
    };
    match info.param_values {
        Some(ParameterValues { consistent_value: Some(v), is_consistent: true, callsite_count }) => {
            match lookup_var(&data.vars, fn_id) {
                Some(fi) => {
                    if fi.callee_count == callsite_count && !fi.reassigned && is_safe_to_inline_value(&v)
                        && !info.reassigned {
                        Some(v)
                    } else {
                        None
                    }
                },
                None => None,
            }
        },
        _ => None,
    }
}

impl Optimizer {
    /// Inlines the parameters of `f` that every call supplies with the same
    /// constant. Nothing happens unless unused bindings may be eliminated and
    /// the function's scope uses neither `eval`, `with` nor `arguments`.
    /// Otherwise each parameter that passes every gate leaves the signature,
    /// a `const` binding of it to its value goes to the front of the body,
    /// and the tree is marked changed when at least one was inlined.
    pub fn inline_params_with_consistent_values(&mut self, f: &mut Function, fn_id: &Id)
        ensures
            final(self).unused == old(self).unused,
            final(self).data.vars@ == old(self).data.vars@,
            final(self).data.scopes@ == old(self).data.scopes@,
            final(f).ctxt == old(f).ctxt,
            if old(self).unused && !scope_blocks(old(self).data.scopes@, old(f).ctxt) {
                let decls = const_decls(old(self).data.vars@, *fn_id, old(f).params@);
                &&& final(f).params@ == kept_params(old(self).data.vars@, *fn_id, old(f).params@)
                &&& body_view(final(f).body) == match body_view(old(f).body) {
                    Some(b) => Some(decls.add(b)),
                    None => None,
                }
                &&& final(self).changed == (old(self).changed || decls.len() > 0)
            } else {
                &&& final(f).params@ == old(f).params@
                &&& body_view(final(f).body) == body_view(old(f).body)
                &&& final(self).changed == old(self).changed
            },
    {
        if !self.unused {
            return;
        }
        match lookup_scope(&self.data.scopes, f.ctxt) {
            Some(s) => {
                if s.has_eval_call || s.has_with_stmt || s.used_arguments {
                    return;
                }
            },
            None => {},
        }
        let ghost vars = self.data.vars@;
        let ghost ps = f.params@;
        let mut kept: Vec<Param> = Vec::new();
        let mut decls: Vec<Stmt> = Vec::new();
        let mut i: usize = 0;
        while i < f.params.len()
            invariant
                vars == self.data.vars@,
                ps == f.params@,
                i <= ps.len(),
                kept@ == kept_params(vars, *fn_id, ps.subrange(0, i as int)),
                decls@ == const_decls(vars, *fn_id, ps.subrange(0, i as int)),
            decreases ps.len() - i,
        {
            proof {
                assert(ps.subrange(0, i + 1).drop_last() == ps.subrange(0, i as int));
            }
            let p = f.params[i];
            match param_inline_value(&self.data, *fn_id, p) {
                Some(v) => {
                    match p.binding {
                        Some(pid) => {
                            let ghost before = decls@;
                            decls.insert(0, Stmt::Const(pid, v));
                            proof {
                                assert(decls@ == seq![Stmt::Const(pid, v)].add(before));
                            }
                        },
                        None => {},
                    }
                },
                None => {
                    kept.push(p);
                },
            }
            i = i + 1;
        }
        proof {
            assert(ps.subrange(0, ps.len() as int) == ps);
        }
        if decls.len() == 0 {
            proof {
                lemma_no_decls_keeps_all(vars, *fn_id, ps);
            }
            return;
        }
        self.changed = true;
        f.params = kept;
        match &f.body {
            Some(b) => {
                let mut nb = decls;
                let ghost prefix = nb@;
                let mut k: usize = 0;
                while k < b.len()
                    invariant
                        k <= b@.len(),
                        nb@ == prefix.add(b@.subrange(0, k as int)),
                    decreases b.len() - k,
                {
                    nb.push(b[k]);
                    proof {
                        assert(prefix.add(b@.subrange(0, k + 1)) == prefix.add(b@.subrange(0, k as int)).push(b@[k as int]));
                    }
                    k = k + 1;
                }
                proof {
                    assert(b@.subrange(0, b@.len() as int) == b@);
                }
                f.body = Some(nb);
            },
            None => {},
        }
    }
}

/// Where no parameter is inlined, every parameter is kept.
proof fn lemma_no_decls_keeps_all(vars: Seq<VarUsageInfo>, fn_id: Id, ps: Seq<Param>)
    requires
        const_decls(vars, fn_id, ps).len() == 0,
    ensures
        kept_params(vars, fn_id, ps) == ps,
    decreases ps.len(),
{
    if ps.len() > 0 {
        lemma_decls_len_grows(vars, fn_id, ps.drop_last(), ps);
        lemma_no_decls_keeps_all(vars, fn_id, ps.drop_last());
        assert(ps.drop_last().push(ps.last()) == ps);
    }
}

proof fn lemma_decls_len_grows(vars: Seq<VarUsageInfo>, fn_id: Id, prefix: Seq<Param>, ps: Seq<Param>)
    requires
        ps.len() > 0,
        prefix == ps.drop_last(),
    ensures
        const_decls(vars, fn_id, prefix).len() <= const_decls(vars, fn_id, ps).len(),
        inline_value(vars, fn_id, ps.last()).is_some() && ps.last().binding.is_some()
            ==> const_decls(vars, fn_id, ps).len() > 0,
{
}

} // verus!
