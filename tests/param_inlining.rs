use param_inliner::collect::{collect_logs, collect_slot, resolve_callee, slot_value, Arg, CallSite, FnSig, Module};
use param_inliner::expr::{is_safe_to_inline_value, is_trackable_value, undefined, Atom, Expr, Id, Lit, Operand, UnaryOp, UNDEFINED_ATOM};
use param_inliner::finalize::{analyze_param_values, verdict, ParameterValues, ProgramData, ScopeData, VarUsageInfo};
use param_inliner::inline::{param_inline_value, Function, Optimizer, Param, Stmt};

const FN_CTXT: u32 = 1;
const BODY_CTXT: u32 = 2;

fn id(sym: u32, ctxt: u32) -> Id {
    Id { sym: Atom(sym), ctxt }
}

fn f_id() -> Id {
    id(10, FN_CTXT)
}

fn a_id() -> Id {
    id(11, BODY_CTXT)
}

fn b_id() -> Id {
    id(12, BODY_CTXT)
}

fn num(v: f64) -> Expr {
    Expr::Lit(Lit::Num(v.to_bits()))
}

fn arg(e: Expr) -> Arg {
    Arg { spread: false, expr: e }
}

fn spread(e: Expr) -> Arg {
    Arg { spread: true, expr: e }
}

fn call(callee: Id, args: Vec<Arg>) -> CallSite {
    CallSite { callee: Some(callee), args }
}

fn var(i: Id, callee_count: usize) -> VarUsageInfo {
    VarUsageInfo { id: i, reassigned: false, callee_count, param_values: None }
}

fn module(params: Vec<Option<Id>>, calls: Vec<CallSite>) -> Module {
    Module { fns: vec![FnSig { name: Some(f_id()), params }], calls }
}

fn record(data: &ProgramData, i: Id) -> VarUsageInfo {
    *data.vars.iter().find(|v| v.id == i).unwrap()
}

fn function(params: &[Id]) -> Function {
    Function {
        ctxt: BODY_CTXT,
        params: params
            .iter()
            .enumerate()
            .map(|(h, p)| Param { handle: h as u64, binding: Some(*p) })
            .collect(),
        body: Some(vec![Stmt::Existing(0)]),
    }
}

fn optimizer(vars: Vec<VarUsageInfo>, scope: ScopeData) -> Optimizer {
    Optimizer { unused: true, data: ProgramData { vars, scopes: vec![scope] }, changed: false }
}

fn plain_scope() -> ScopeData {
    ScopeData { ctxt: BODY_CTXT, has_eval_call: false, has_with_stmt: false, used_arguments: false }
}

fn analyzed(m: &Module, vars: Vec<VarUsageInfo>) -> ProgramData {
    let mut data = ProgramData { vars, scopes: vec![plain_scope()] };
    analyze_param_values(m, &mut data);
    data
}

#[test]
fn scenario_a_same_value_everywhere_is_inlined() {
    // function f(a){return a+1} f(1); f(1); f(1);
    let m = module(
        vec![Some(a_id())],
        vec![call(f_id(), vec![arg(num(1.0))]), call(f_id(), vec![arg(num(1.0))]), call(f_id(), vec![arg(num(1.0))])],
    );
    let data = analyzed(&m, vec![var(f_id(), 3), var(a_id(), 0)]);
    assert_eq!(
        record(&data, a_id()).param_values,
        Some(ParameterValues { consistent_value: Some(num(1.0)), callsite_count: 3, is_consistent: true })
    );
    let mut opt = optimizer(data.vars, plain_scope());
    let mut f = function(&[a_id()]);
    opt.inline_params_with_consistent_values(&mut f, &f_id());
    assert!(f.params.is_empty());
    assert_eq!(f.body, Some(vec![Stmt::Const(a_id(), num(1.0)), Stmt::Existing(0)]));
    assert!(opt.changed);
}

#[test]
fn scenario_b_differing_values_are_left() {
    // function f(a){return a} f(1); f(2);
    let m = module(vec![Some(a_id())], vec![call(f_id(), vec![arg(num(1.0))]), call(f_id(), vec![arg(num(2.0))])]);
    let data = analyzed(&m, vec![var(f_id(), 2), var(a_id(), 0)]);
    assert_eq!(
        record(&data, a_id()).param_values,
        Some(ParameterValues { consistent_value: None, callsite_count: 2, is_consistent: false })
    );
    let mut opt = optimizer(data.vars, plain_scope());
    let mut f = function(&[a_id()]);
    opt.inline_params_with_consistent_values(&mut f, &f_id());
    assert_eq!(f.params.len(), 1);
    assert_eq!(f.body, Some(vec![Stmt::Existing(0)]));
    assert!(!opt.changed);
}

#[test]
fn scenario_c_reassigned_parameter_is_left() {
    // function f(a){a=2; return a} f(1); f(1);
    let m = module(vec![Some(a_id())], vec![call(f_id(), vec![arg(num(1.0))]), call(f_id(), vec![arg(num(1.0))])]);
    let mut a = var(a_id(), 0);
    a.reassigned = true;
    let data = analyzed(&m, vec![var(f_id(), 2), a]);
    assert!(record(&data, a_id()).param_values.unwrap().is_consistent);
    let mut opt = optimizer(data.vars, plain_scope());
    let mut f = function(&[a_id()]);
    opt.inline_params_with_consistent_values(&mut f, &f_id());
    assert_eq!(f.params.len(), 1);
    assert!(!opt.changed);
}

#[test]
fn scenario_d_eval_blocks_inlining() {
    // function f(a){eval("a"); return a} f(1); f(1);
    let m = module(vec![Some(a_id())], vec![call(f_id(), vec![arg(num(1.0))]), call(f_id(), vec![arg(num(1.0))])]);
    let data = analyzed(&m, vec![var(f_id(), 2), var(a_id(), 0)]);
    let mut scope = plain_scope();
    scope.has_eval_call = true;
    let mut opt = optimizer(data.vars, scope);
    let mut f = function(&[a_id()]);
    opt.inline_params_with_consistent_values(&mut f, &f_id());
    assert_eq!(f.params.len(), 1);
    assert_eq!(f.body, Some(vec![Stmt::Existing(0)]));
    assert!(!opt.changed);
}

#[test]
fn scenario_e_omitted_argument_counts_as_undefined() {
    // function f(a,b){return a+b} f(1); f(1,2);
    let m = module(
        vec![Some(a_id()), Some(b_id())],
        vec![call(f_id(), vec![arg(num(1.0))]), call(f_id(), vec![arg(num(1.0)), arg(num(2.0))])],
    );
    let logs = collect_logs(&m);
    assert_eq!(logs[0][0], vec![num(1.0), num(1.0)]);
    assert_eq!(logs[0][1], vec![undefined(), num(2.0)]);
    let data = analyzed(&m, vec![var(f_id(), 2), var(a_id(), 0), var(b_id(), 0)]);
    assert!(!record(&data, b_id()).param_values.unwrap().is_consistent);
    let mut opt = optimizer(data.vars, plain_scope());
    let mut f = function(&[a_id(), b_id()]);
    opt.inline_params_with_consistent_values(&mut f, &f_id());
    assert_eq!(f.params, vec![Param { handle: 1, binding: Some(b_id()) }]);
    assert_eq!(f.body, Some(vec![Stmt::Const(a_id(), num(1.0)), Stmt::Existing(0)]));
    assert!(opt.changed);
}

#[test]
fn analysis_twice_gives_the_same_records() {
    let m = module(
        vec![Some(a_id()), Some(b_id())],
        vec![call(f_id(), vec![arg(num(1.0))]), call(f_id(), vec![arg(num(1.0)), arg(num(2.0))])],
    );
    let mut data = analyzed(&m, vec![var(f_id(), 2), var(a_id(), 0), var(b_id(), 0)]);
    let once = data.vars.clone();
    analyze_param_values(&m, &mut data);
    assert_eq!(data.vars, once);
}

#[test]
fn omitted_everywhere_is_consistent_undefined() {
    let m = module(vec![Some(a_id())], vec![call(f_id(), vec![]), call(f_id(), vec![])]);
    let data = analyzed(&m, vec![var(f_id(), 2), var(a_id(), 0)]);
    assert_eq!(
        record(&data, a_id()).param_values,
        Some(ParameterValues { consistent_value: Some(undefined()), callsite_count: 2, is_consistent: true })
    );
}

#[test]
fn spread_stops_logging_from_its_slot_in_that_call_only() {
    let m = module(
        vec![Some(a_id()), Some(b_id())],
        vec![call(f_id(), vec![arg(num(1.0)), spread(Expr::Other(7))]), call(f_id(), vec![arg(num(1.0)), arg(num(2.0))])],
    );
    assert_eq!(collect_slot(&m, 0, 0), vec![num(1.0), num(1.0)]);
    assert_eq!(collect_slot(&m, 0, 1), vec![num(2.0)]);
    let first_spread = module(vec![Some(a_id()), Some(b_id())], vec![call(f_id(), vec![spread(Expr::Other(7))])]);
    assert_eq!(slot_value(&first_spread.fns, &first_spread.calls[0], 0, 0), None);
    assert_eq!(slot_value(&first_spread.fns, &first_spread.calls[0], 0, 1), None);
}

#[test]
fn long_strings_are_not_logged_nor_inlined() {
    let long = Expr::Lit(Lit::Str { value: Atom(40), len: 33 });
    let short = Expr::Lit(Lit::Str { value: Atom(41), len: 32 });
    assert!(!is_trackable_value(&long));
    assert!(is_trackable_value(&short));
    let m = module(vec![Some(a_id())], vec![call(f_id(), vec![arg(long)]), call(f_id(), vec![arg(long)])]);
    assert!(collect_slot(&m, 0, 0).is_empty());
    let data = analyzed(&m, vec![var(f_id(), 2), var(a_id(), 0)]);
    assert_eq!(record(&data, a_id()).param_values, None);
    // A stale verdict holding a long string is refused by the safety check.
    let mut a = var(a_id(), 0);
    a.param_values = Some(ParameterValues { consistent_value: Some(long), callsite_count: 2, is_consistent: true });
    let opt = optimizer(vec![var(f_id(), 2), a], plain_scope());
    assert_eq!(param_inline_value(&opt.data, f_id(), Param { handle: 0, binding: Some(a_id()) }), None);
}

#[test]
fn classifier_cases() {
    assert!(is_trackable_value(&num(0.5)));
    assert!(is_trackable_value(&Expr::Lit(Lit::Bool(true))));
    assert!(is_trackable_value(&Expr::Lit(Lit::Null)));
    assert!(is_trackable_value(&Expr::Lit(Lit::BigInt(Atom(3)))));
    assert!(!is_trackable_value(&Expr::Lit(Lit::Other(1))));
    assert!(is_trackable_value(&Expr::Ident(id(UNDEFINED_ATOM, 0))));
    assert!(is_trackable_value(&Expr::Ident(id(UNDEFINED_ATOM, 5))));
    assert!(!is_trackable_value(&Expr::Ident(id(9, 0))));
    assert!(is_trackable_value(&Expr::Unary(UnaryOp::Not, Operand::Lit(Lit::Null))));
    assert!(is_trackable_value(&Expr::Unary(UnaryOp::Not, Operand::Lit(Lit::Other(2)))));
    assert!(is_trackable_value(&Expr::Unary(UnaryOp::Minus, Operand::Lit(Lit::Num(3)))));
    assert!(!is_trackable_value(&Expr::Unary(UnaryOp::Minus, Operand::Lit(Lit::Bool(true)))));
    assert!(!is_trackable_value(&Expr::Unary(UnaryOp::Minus, Operand::Lit(Lit::BigInt(Atom(3))))));
    assert!(!is_trackable_value(&Expr::Unary(UnaryOp::Not, Operand::Other(4))));
    assert!(!is_trackable_value(&Expr::Unary(UnaryOp::Other, Operand::Lit(Lit::Null))));
    assert!(!is_trackable_value(&Expr::Other(8)));
    assert_eq!(is_safe_to_inline_value(&Expr::Other(8)), false);
    assert_eq!(is_safe_to_inline_value(&num(2.0)), true);
}

#[test]
fn untrackable_argument_is_not_logged() {
    let m = module(vec![Some(a_id())], vec![call(f_id(), vec![arg(Expr::Other(1))]), call(f_id(), vec![arg(num(1.0))])]);
    let data = analyzed(&m, vec![var(f_id(), 2), var(a_id(), 0)]);
    assert_eq!(
        record(&data, a_id()).param_values,
        Some(ParameterValues { consistent_value: Some(num(1.0)), callsite_count: 1, is_consistent: true })
    );
    // One call of two was seen: the partial verdict is not trusted.
    let mut opt = optimizer(data.vars, plain_scope());
    let mut f = function(&[a_id()]);
    opt.inline_params_with_consistent_values(&mut f, &f_id());
    assert_eq!(f.params.len(), 1);
    assert!(!opt.changed);
}

#[test]
fn extra_arguments_past_the_parameters_are_ignored() {
    let m = module(vec![Some(a_id())], vec![call(f_id(), vec![arg(num(1.0)), arg(num(9.0))])]);
    let logs = collect_logs(&m);
    assert_eq!(logs.len(), 1);
    assert_eq!(logs[0].len(), 1);
    assert_eq!(logs[0][0], vec![num(1.0)]);
}

#[test]
fn placeholder_slot_gets_no_verdict() {
    let m = module(vec![None, Some(b_id())], vec![call(f_id(), vec![arg(num(1.0)), arg(num(2.0))])]);
    let data = analyzed(&m, vec![var(f_id(), 1), var(b_id(), 0)]);
    assert_eq!(
        record(&data, b_id()).param_values,
        Some(ParameterValues { consistent_value: Some(num(2.0)), callsite_count: 1, is_consistent: true })
    );
}

#[test]
fn callee_resolution() {
    let g = id(20, FN_CTXT);
    let fns = vec![
        FnSig { name: Some(f_id()), params: vec![Some(a_id())] },
        FnSig { name: None, params: vec![] },
        FnSig { name: Some(g), params: vec![] },
        FnSig { name: Some(f_id()), params: vec![Some(b_id())] },
    ];
    assert_eq!(resolve_callee(&fns, &Some(f_id())), Some(3));
    assert_eq!(resolve_callee(&fns, &Some(g)), Some(2));
    assert_eq!(resolve_callee(&fns, &Some(id(21, FN_CTXT))), None);
    assert_eq!(resolve_callee(&fns, &None), None);
    // Calls before the declaration count as well.
    let m = Module { fns, calls: vec![call(f_id(), vec![arg(num(4.0))])] };
    assert_eq!(collect_slot(&m, 3, 0), vec![num(4.0)]);
    assert!(collect_slot(&m, 0, 0).is_empty());
    let unknown = Module { fns: vec![], calls: vec![call(f_id(), vec![arg(num(4.0))])] };
    assert!(collect_logs(&unknown).is_empty());
}

#[test]
fn verdict_counts() {
    assert_eq!(
        verdict(&vec![num(1.0), num(1.0), num(1.0)]),
        ParameterValues { consistent_value: Some(num(1.0)), callsite_count: 3, is_consistent: true }
    );
    assert_eq!(
        verdict(&vec![num(1.0), num(1.0), num(2.0)]),
        ParameterValues { consistent_value: None, callsite_count: 3, is_consistent: false }
    );
    // Structural: equal atoms are equal strings; different contexts of `undefined` differ.
    assert!(!verdict(&vec![Expr::Ident(id(UNDEFINED_ATOM, 0)), Expr::Ident(id(UNDEFINED_ATOM, 3))]).is_consistent);
}

#[test]
fn with_and_arguments_block_inlining() {
    let consistent = |vars: &mut Vec<VarUsageInfo>| {
        vars[1].param_values = Some(ParameterValues { consistent_value: Some(num(1.0)), callsite_count: 2, is_consistent: true });
    };
    for which in 0..2 {
        let mut vars = vec![var(f_id(), 2), var(a_id(), 0)];
        consistent(&mut vars);
        let mut scope = plain_scope();
        if which == 0 {
            scope.has_with_stmt = true;
        } else {
            scope.used_arguments = true;
        }
        let mut opt = optimizer(vars, scope);
        let mut f = function(&[a_id()]);
        opt.inline_params_with_consistent_values(&mut f, &f_id());
        assert_eq!(f.params.len(), 1);
        assert!(!opt.changed);
    }
}

#[test]
fn disabled_option_does_nothing() {
    let mut vars = vec![var(f_id(), 2), var(a_id(), 0)];
    vars[1].param_values = Some(ParameterValues { consistent_value: Some(num(1.0)), callsite_count: 2, is_consistent: true });
    let mut opt = optimizer(vars, plain_scope());
    opt.unused = false;
    let mut f = function(&[a_id()]);
    opt.inline_params_with_consistent_values(&mut f, &f_id());
    assert_eq!(f.params.len(), 1);
    assert!(!opt.changed);
}

#[test]
fn constants_go_in_front_in_reverse_parameter_order() {
    let mut vars = vec![var(f_id(), 1), var(a_id(), 0), var(b_id(), 0)];
    vars[1].param_values = Some(ParameterValues { consistent_value: Some(num(1.0)), callsite_count: 1, is_consistent: true });
    vars[2].param_values =
        Some(ParameterValues { consistent_value: Some(Expr::Lit(Lit::Bool(false))), callsite_count: 1, is_consistent: true });
    let mut opt = optimizer(vars, plain_scope());
    let mut f = function(&[a_id(), b_id()]);
    f.body = None;
    opt.inline_params_with_consistent_values(&mut f, &f_id());
    assert!(f.params.is_empty());
    assert_eq!(f.body, None);
    let mut g = function(&[a_id(), b_id()]);
    opt.inline_params_with_consistent_values(&mut g, &f_id());
    assert_eq!(
        g.body,
        Some(vec![Stmt::Const(b_id(), Expr::Lit(Lit::Bool(false))), Stmt::Const(a_id(), num(1.0)), Stmt::Existing(0)])
    );
}

#[test]
fn reassigned_function_binding_is_not_inlined_through() {
    let mut f_rec = var(f_id(), 2);
    f_rec.reassigned = true;
    let mut a = var(a_id(), 0);
    a.param_values = Some(ParameterValues { consistent_value: Some(num(1.0)), callsite_count: 2, is_consistent: true });
    let mut opt = optimizer(vec![f_rec, a], plain_scope());
    let mut f = function(&[a_id()]);
    opt.inline_params_with_consistent_values(&mut f, &f_id());
    assert_eq!(f.params.len(), 1);
    assert!(!opt.changed);
}

#[test]
fn missing_records_skip_the_parameter() {
    let mut a = var(a_id(), 0);
    a.param_values = Some(ParameterValues { consistent_value: Some(num(1.0)), callsite_count: 2, is_consistent: true });
    // No record of the function itself.
    let opt = optimizer(vec![a], plain_scope());
    assert_eq!(param_inline_value(&opt.data, f_id(), Param { handle: 0, binding: Some(a_id()) }), None);
    // No record of the parameter.
    let opt = optimizer(vec![var(f_id(), 2)], plain_scope());
    assert_eq!(param_inline_value(&opt.data, f_id(), Param { handle: 0, binding: Some(a_id()) }), None);
    // A pattern parameter.
    assert_eq!(param_inline_value(&opt.data, f_id(), Param { handle: 0, binding: None }), None);
}
