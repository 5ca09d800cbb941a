//! Evaluator scenarios: control flow, scoping, the return sentinel, and
//! list aliasing.

use plxml::error::EvalError;
use plxml::instruction::{run_stmts, Instruction};
use plxml::program::{Interp, Program};
use plxml::stl::MemHost;
use plxml::value::{Function, Value};

const FUEL: u64 = 1_000_000;

fn ilit(i: i64) -> Instruction {
    Instruction::Integer(format!("{}", i))
}

fn var(n: &str) -> Instruction {
    Instruction::Value(String::from(n))
}

fn assign(n: &str, ins: Instruction) -> Instruction {
    Instruction::Assign(String::from(n), Box::new(ins))
}

fn call_named(n: &str, args: Vec<Instruction>) -> Instruction {
    Instruction::CallNamed(String::from(n), args)
}

fn empty_program() -> Program {
    Program { funcs: Vec::new(), args: Vec::new() }
}

fn boot(prog: &Program) -> Interp {
    let mut it = Interp::new(prog);
    it.scopes.push(Some(0));
    it
}

fn run_all(
    prog: &Program,
    it: &mut Interp,
    host: &mut MemHost,
    main: &Vec<Instruction>,
) -> Result<(), EvalError> {
    run_stmts(main, prog, it, host, FUEL)
}

fn get_int(it: &Interp, name: &str) -> i64 {
    match it.scopes.lookup_top(&String::from(name)) {
        Some(Value::Integer(i)) => i,
        _ => panic!("expected integer binding for {}", name),
    }
}

fn get_list(it: &Interp, name: &str) -> usize {
    match it.scopes.lookup_top(&String::from(name)) {
        Some(Value::List(h)) => h,
        _ => panic!("expected list binding for {}", name),
    }
}

fn list_ints(it: &Interp, h: usize) -> Vec<i64> {
    let n = it.heap.list_len(h);
    let mut out = Vec::new();
    let mut i = 0;
    while i < n {
        match it.heap.get(h, i) {
            Value::Integer(x) => out.push(x),
            _ => panic!("expected integer item"),
        }
        i += 1;
    }
    out
}

#[test]
fn each_prints_elements_in_order() {
    let prog = empty_program();
    let mut it = boot(&prog);
    let mut host = MemHost::new();
    let main = vec![
        assign("l", Instruction::Array(vec![ilit(1), ilit(2), ilit(3)])),
        Instruction::Each(
            String::from("x"),
            Box::new(var("l")),
            vec![call_named("print", vec![var("x")])],
        ),
    ];
    run_all(&prog, &mut it, &mut host, &main).unwrap();
    assert_eq!(host.out.len(), 3);
    assert_eq!(host.out[0], "1");
    assert_eq!(host.out[1], "2");
    assert_eq!(host.out[2], "3");
}

#[test]
fn each_rejects_mutation_of_iterated_list() {
    let prog = empty_program();
    let mut it = boot(&prog);
    let mut host = MemHost::new();
    let main = vec![
        assign("l", Instruction::Array(vec![ilit(1), ilit(2)])),
        Instruction::Each(
            String::from("x"),
            Box::new(var("l")),
            vec![call_named("array-push", vec![var("l"), ilit(9)])],
        ),
    ];
    let r = run_all(&prog, &mut it, &mut host, &main);
    assert!(matches!(r, Err(EvalError::MutationDuringIteration)));
}

#[test]
fn each_over_non_list_fails() {
    let prog = empty_program();
    let mut it = boot(&prog);
    let mut host = MemHost::new();
    let main = vec![Instruction::Each(String::from("x"), Box::new(ilit(3)), vec![])];
    let r = run_all(&prog, &mut it, &mut host, &main);
    assert!(matches!(r, Err(EvalError::TypeError(_, _))));
}

#[test]
fn for_binds_half_open_range() {
    let prog = empty_program();
    let mut it = boot(&prog);
    let mut host = MemHost::new();
    let main = vec![
        assign("l", Instruction::Array(vec![])),
        Instruction::For {
            variable: String::from("i"),
            from: Box::new(ilit(0)),
            to: Box::new(ilit(5)),
            step: Box::new(ilit(2)),
            body: vec![call_named("array-push", vec![var("l"), var("i")])],
        },
    ];
    run_all(&prog, &mut it, &mut host, &main).unwrap();
    let h = get_list(&it, "l");
    assert_eq!(list_ints(&it, h), vec![0, 2, 4]);
}

#[test]
fn for_with_non_integer_bound_is_noop_and_skips_later_bounds() {
    let prog = empty_program();
    let mut it = boot(&prog);
    let mut host = MemHost::new();
    let main = vec![
        assign("l", Instruction::Array(vec![])),
        Instruction::For {
            variable: String::from("i"),
            from: Box::new(Instruction::String(String::from("a"))),
            // would push if it were evaluated
            to: Box::new(call_named("array-push", vec![var("l"), ilit(1)])),
            step: Box::new(ilit(1)),
            body: vec![call_named("array-push", vec![var("l"), ilit(2)])],
        },
    ];
    run_all(&prog, &mut it, &mut host, &main).unwrap();
    let h = get_list(&it, "l");
    assert_eq!(list_ints(&it, h), Vec::<i64>::new());
}

#[test]
fn for_rejects_non_positive_step() {
    let prog = empty_program();
    let mut it = boot(&prog);
    let mut host = MemHost::new();
    let main = vec![Instruction::For {
        variable: String::from("i"),
        from: Box::new(ilit(0)),
        to: Box::new(ilit(3)),
        step: Box::new(ilit(0)),
        body: vec![],
    }];
    let r = run_all(&prog, &mut it, &mut host, &main);
    assert!(matches!(r, Err(EvalError::TypeError(_, _))));
}

#[test]
fn return_in_loop_keeps_iterating_as_noops() {
    // A `return` in the body of a three-iteration `for` suppresses the rest
    // of that and every later iteration's work, but the loop still runs its
    // schedule; the call harvests the returned value afterwards.
    let body = vec![Instruction::For {
        variable: String::from("i"),
        from: Box::new(ilit(0)),
        to: Box::new(ilit(3)),
        step: Box::new(ilit(1)),
        body: vec![
            call_named("array-push", vec![var("a"), var("i")]),
            Instruction::Return(Box::new(ilit(1))),
        ],
    }];
    let prog = Program {
        funcs: vec![(
            String::from("f"),
            Function { args: vec![String::from("a")], ins: body },
        )],
        args: Vec::new(),
    };
    let mut it = boot(&prog);
    let mut host = MemHost::new();
    let main = vec![
        assign("arr", Instruction::Array(vec![])),
        assign("r", call_named("f", vec![var("arr")])),
    ];
    run_all(&prog, &mut it, &mut host, &main).unwrap();
    assert_eq!(get_int(&it, "r"), 1);
    let h = get_list(&it, "arr");
    assert_eq!(list_ints(&it, h), vec![0]);
}

#[test]
fn return_suppresses_sibling_statements() {
    let body = vec![
        Instruction::If(Box::new(ilit(1)), vec![Instruction::Return(Box::new(ilit(7)))]),
        call_named("array-push", vec![var("a"), ilit(9)]),
    ];
    let prog = Program {
        funcs: vec![(
            String::from("f"),
            Function { args: vec![String::from("a")], ins: body },
        )],
        args: Vec::new(),
    };
    let mut it = boot(&prog);
    let mut host = MemHost::new();
    let main = vec![
        assign("arr", Instruction::Array(vec![])),
        assign("r", call_named("f", vec![var("arr")])),
    ];
    run_all(&prog, &mut it, &mut host, &main).unwrap();
    assert_eq!(get_int(&it, "r"), 7);
    let h = get_list(&it, "arr");
    assert_eq!(list_ints(&it, h), Vec::<i64>::new());
}

#[test]
fn lists_alias_through_assignment() {
    let prog = empty_program();
    let mut it = boot(&prog);
    let mut host = MemHost::new();
    let main = vec![
        assign("a", Instruction::Array(vec![ilit(1), ilit(2)])),
        assign("b", var("a")),
        call_named("array-push", vec![var("b"), ilit(3)]),
        assign("n", call_named("array-length", vec![var("a")])),
    ];
    run_all(&prog, &mut it, &mut host, &main).unwrap();
    assert_eq!(get_int(&it, "n"), 3);
    let ha = get_list(&it, "a");
    let hb = get_list(&it, "b");
    assert_eq!(ha, hb);
    assert_eq!(list_ints(&it, ha), vec![1, 2, 3]);
}

#[test]
fn while_loops_until_condition_is_false() {
    let prog = empty_program();
    let mut it = boot(&prog);
    let mut host = MemHost::new();
    let main = vec![
        assign("l", Instruction::Array(vec![])),
        assign("i", ilit(0)),
        Instruction::While(
            Box::new(Instruction::Lower(Box::new(var("i")), Box::new(ilit(3)))),
            vec![
                call_named("array-push", vec![var("l"), var("i")]),
                assign("i", Instruction::Add(vec![var("i"), ilit(1)])),
            ],
        ),
    ];
    run_all(&prog, &mut it, &mut host, &main).unwrap();
    let h = get_list(&it, "l");
    assert_eq!(list_ints(&it, h), vec![0, 1, 2]);
}

#[test]
fn if_else_takes_exactly_one_branch() {
    let prog = empty_program();
    let mut it = boot(&prog);
    let mut host = MemHost::new();
    let main = vec![
        Instruction::IfElse(
            Box::new(ilit(0)),
            vec![assign("x", ilit(1))],
            vec![assign("x", ilit(2))],
        ),
        Instruction::If(Box::new(ilit(0)), vec![assign("x", ilit(3))]),
    ];
    run_all(&prog, &mut it, &mut host, &main).unwrap();
    assert_eq!(get_int(&it, "x"), 2);
}

#[test]
fn by_name_call_sees_only_globals() {
    let body = vec![Instruction::Return(Box::new(var("x")))];
    let prog = Program {
        funcs: vec![(String::from("f"), Function { args: vec![], ins: body })],
        args: Vec::new(),
    };
    let mut it = boot(&prog);
    let mut host = MemHost::new();
    let main = vec![assign("x", ilit(5)), assign("r", call_named("f", vec![]))];
    let r = run_all(&prog, &mut it, &mut host, &main);
    match r {
        Err(EvalError::UnknownVariable(n)) => assert_eq!(n, "x"),
        _ => panic!("expected unknown variable"),
    }
}

#[test]
fn direct_call_sees_caller_scope() {
    let body = vec![Instruction::Return(Box::new(var("x")))];
    let prog = Program {
        funcs: vec![(String::from("f"), Function { args: vec![], ins: body })],
        args: Vec::new(),
    };
    let mut it = boot(&prog);
    let mut host = MemHost::new();
    let main = vec![
        assign("x", ilit(5)),
        assign("r", Instruction::Call(Box::new(var("f")), vec![])),
    ];
    run_all(&prog, &mut it, &mut host, &main).unwrap();
    assert_eq!(get_int(&it, "r"), 5);
}

#[test]
fn call_with_wrong_arity_fails() {
    let body = vec![Instruction::Return(Box::new(var("a")))];
    let prog = Program {
        funcs: vec![(
            String::from("f"),
            Function { args: vec![String::from("a")], ins: body },
        )],
        args: Vec::new(),
    };
    let mut it = boot(&prog);
    let mut host = MemHost::new();
    let main = vec![assign("r", call_named("f", vec![]))];
    let r = run_all(&prog, &mut it, &mut host, &main);
    assert!(matches!(r, Err(EvalError::ArityMismatch(1, 0))));
}

#[test]
fn unknown_variable_and_function_errors() {
    let prog = empty_program();
    let mut it = boot(&prog);
    let mut host = MemHost::new();
    let r = run_all(&prog, &mut it, &mut host, &vec![assign("y", var("nope"))]);
    match r {
        Err(EvalError::UnknownVariable(n)) => assert_eq!(n, "nope"),
        _ => panic!("expected unknown variable"),
    }
    let r2 = run_all(
        &prog,
        &mut it,
        &mut host,
        &vec![assign("y", call_named("nope", vec![]))],
    );
    match r2 {
        Err(EvalError::UnknownFunction(n)) => assert_eq!(n, "nope"),
        _ => panic!("expected unknown function"),
    }
}

#[test]
fn infinite_loop_exhausts_fuel() {
    let prog = empty_program();
    let mut it = boot(&prog);
    let mut host = MemHost::new();
    let main = vec![Instruction::While(Box::new(ilit(1)), vec![])];
    let r = run_stmts(&main, &prog, &mut it, &mut host, 10_000);
    assert!(matches!(r, Err(EvalError::StepLimit)));
}

#[test]
fn argument_list_stops_at_first_valueless_child() {
    let prog = empty_program();
    let mut it = boot(&prog);
    let mut host = MemHost::new();
    let main = vec![
        assign("l", Instruction::Array(vec![])),
        assign(
            "z",
            Instruction::Add(vec![
                assign("q", ilit(1)),
                call_named("array-push", vec![var("l"), ilit(5)]),
            ]),
        ),
    ];
    let r = run_all(&prog, &mut it, &mut host, &main);
    assert!(matches!(r, Err(EvalError::TypeError(_, _))));
    let h = get_list(&it, "l");
    assert_eq!(list_ints(&it, h), Vec::<i64>::new());
}

#[test]
fn nested_each_over_same_list_allows_reads() {
    let prog = empty_program();
    let mut it = boot(&prog);
    let mut host = MemHost::new();
    let main = vec![
        assign("l", Instruction::Array(vec![ilit(1), ilit(2)])),
        Instruction::Each(
            String::from("x"),
            Box::new(var("l")),
            vec![Instruction::Each(
                String::from("y"),
                Box::new(var("l")),
                vec![call_named("print", vec![var("y")])],
            )],
        ),
    ];
    run_all(&prog, &mut it, &mut host, &main).unwrap();
    assert_eq!(host.out.len(), 4);
}

#[test]
fn run_program_loads_functions_and_runs_main() {
    let body = vec![Instruction::Return(Box::new(Instruction::Add(vec![
        var("a"),
        var("b"),
    ])))];
    let prog = Program {
        funcs: vec![(
            String::from("plus"),
            Function { args: vec![String::from("a"), String::from("b")], ins: body },
        )],
        args: Vec::new(),
    };
    let mut host = MemHost::new();
    let main = vec![call_named(
        "print",
        vec![call_named("plus", vec![ilit(20), ilit(22)])],
    )];
    plxml::program::run_program(&prog, &main, &mut host, FUEL).unwrap();
    assert_eq!(host.out.len(), 1);
    assert_eq!(host.out[0], "42");
}

#[test]
fn call_function_drives_a_callable_value() {
    let body = vec![Instruction::Return(Box::new(Instruction::Multiply(vec![
        var("a"),
        ilit(3),
    ])))];
    let prog = Program {
        funcs: vec![(
            String::from("triple"),
            Function { args: vec![String::from("a")], ins: body },
        )],
        args: Vec::new(),
    };
    let mut it = boot(&prog);
    let mut host = MemHost::new();
    let callee = it.scopes.lookup_top(&String::from("triple")).expect("function");
    let r = plxml::instruction::call_function(
        &callee,
        vec![Value::Integer(14)],
        &prog,
        &mut it,
        &mut host,
        FUEL,
    );
    assert!(matches!(r, Ok(Some(Value::Integer(42)))));
    let bad = plxml::instruction::call_function(
        &Value::Integer(1),
        vec![],
        &prog,
        &mut it,
        &mut host,
        FUEL,
    );
    assert!(matches!(bad, Err(EvalError::TypeError(_, _))));
}
