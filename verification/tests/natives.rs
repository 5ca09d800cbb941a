//! Literals, casts and the native function surface.

use plxml::error::EvalError;
use plxml::instruction::{run_stmts, Instruction};
use plxml::program::{Interp, Program};
use plxml::stl::MemHost;
use plxml::value::Value;

const FUEL: u64 = 1_000_000;

fn ilit(i: i64) -> Instruction {
    Instruction::Integer(format!("{}", i))
}

fn var(n: &str) -> Instruction {
    Instruction::Value(String::from(n))
}

fn assign(n: &str, ins: Instruction) -> Instruction {
    Instruction::Assign(String::from(n), Box::new(ins))
}

fn call_named(n: &str, args: Vec<Instruction>) -> Instruction {
    Instruction::CallNamed(String::from(n), args)
}

fn boot(prog: &Program) -> Interp {
    let mut it = Interp::new(prog);
    it.scopes.push(Some(0));
    it
}

fn run_all(
    prog: &Program,
    it: &mut Interp,
    host: &mut MemHost,
    main: &Vec<Instruction>,
) -> Result<(), EvalError> {
    run_stmts(main, prog, it, host, FUEL)
}

fn get(it: &Interp, name: &str) -> Value {
    it.scopes.lookup_top(&String::from(name)).expect("binding")
}

fn empty_program() -> Program {
    Program { funcs: Vec::new(), args: Vec::new() }
}

#[test]
fn integer_literals_parse_with_signs() {
    let prog = empty_program();
    let mut it = boot(&prog);
    let mut host = MemHost::new();
    let main = vec![
        assign("a", Instruction::Integer(String::from("-5"))),
        assign("b", Instruction::Integer(String::from("+7"))),
    ];
    run_all(&prog, &mut it, &mut host, &main).unwrap();
    assert!(matches!(get(&it, "a"), Value::Integer(-5)));
    assert!(matches!(get(&it, "b"), Value::Integer(7)));
}

#[test]
fn malformed_integer_literal_fails() {
    let prog = empty_program();
    let mut it = boot(&prog);
    let mut host = MemHost::new();
    let r = run_all(
        &prog,
        &mut it,
        &mut host,
        &vec![assign("a", Instruction::Integer(String::from("12x")))],
    );
    assert!(matches!(r, Err(EvalError::TypeError(_, _))));
}

#[test]
fn float_literal_matches_hardware_parsing() {
    let prog = empty_program();
    let mut it = boot(&prog);
    let mut host = MemHost::new();
    let main = vec![assign("a", Instruction::Float(String::from("1.5")))];
    run_all(&prog, &mut it, &mut host, &main).unwrap();
    match get(&it, "a") {
        Value::Real(bits) => assert_eq!(bits, 1.5f64.to_bits()),
        _ => panic!("expected real"),
    }
}

#[test]
fn integer_cast_truncates_toward_zero_and_saturates() {
    let prog = empty_program();
    let mut it = boot(&prog);
    let mut host = MemHost::new();
    let main = vec![
        assign(
            "a",
            Instruction::IntegerCast(Box::new(Instruction::Float(String::from("-2.9")))),
        ),
        assign(
            "b",
            Instruction::IntegerCast(Box::new(Instruction::Float(String::from("2.9")))),
        ),
        assign(
            "c",
            Instruction::IntegerCast(Box::new(Instruction::Float(String::from("1e300")))),
        ),
        assign("d", Instruction::IntegerCast(Box::new(Instruction::String(String::from("12"))))),
    ];
    run_all(&prog, &mut it, &mut host, &main).unwrap();
    assert!(matches!(get(&it, "a"), Value::Integer(-2)));
    assert!(matches!(get(&it, "b"), Value::Integer(2)));
    assert!(matches!(get(&it, "c"), Value::Integer(i64::MAX)));
    assert!(matches!(get(&it, "d"), Value::Integer(12)));
}

#[test]
fn integer_cast_of_nan_is_zero() {
    let prog = empty_program();
    let mut it = boot(&prog);
    let mut host = MemHost::new();
    let main = vec![assign(
        "a",
        Instruction::IntegerCast(Box::new(Instruction::Divide(vec![ilit(0), ilit(0)]))),
    )];
    run_all(&prog, &mut it, &mut host, &main).unwrap();
    assert!(matches!(get(&it, "a"), Value::Integer(0)));
}

#[test]
fn casting_a_list_fails() {
    let prog = empty_program();
    let mut it = boot(&prog);
    let mut host = MemHost::new();
    let r = run_all(
        &prog,
        &mut it,
        &mut host,
        &vec![assign(
            "a",
            Instruction::IntegerCast(Box::new(Instruction::Array(vec![]))),
        )],
    );
    assert!(matches!(r, Err(EvalError::TypeError(_, _))));
}

#[test]
fn float_cast_widens_integers_exactly() {
    let prog = empty_program();
    let mut it = boot(&prog);
    let mut host = MemHost::new();
    let main = vec![assign("a", Instruction::FloatCast(Box::new(ilit(3))))];
    run_all(&prog, &mut it, &mut host, &main).unwrap();
    match get(&it, "a") {
        Value::Real(bits) => assert_eq!(bits, 3.0f64.to_bits()),
        _ => panic!("expected real"),
    }
}

#[test]
fn string_cast_renders_integers_in_decimal() {
    let prog = empty_program();
    let mut it = boot(&prog);
    let mut host = MemHost::new();
    let main = vec![
        assign("a", Instruction::StringCast(Box::new(ilit(-42)))),
        assign(
            "n",
            call_named("from-ascii", vec![Instruction::StringCast(Box::new(ilit(7)))]),
        ),
    ];
    run_all(&prog, &mut it, &mut host, &main).unwrap();
    match get(&it, "a") {
        Value::Text(s) => assert_eq!(s, "-42"),
        _ => panic!("expected text"),
    }
    // '7' is code 55: the rendering really went through the decimal digits.
    assert!(matches!(get(&it, "n"), Value::Integer(55)));
}

#[test]
fn print_returns_its_argument_and_emits_it() {
    let prog = empty_program();
    let mut it = boot(&prog);
    let mut host = MemHost::new();
    let main = vec![assign("r", call_named("print", vec![ilit(42)]))];
    run_all(&prog, &mut it, &mut host, &main).unwrap();
    assert!(matches!(get(&it, "r"), Value::Integer(42)));
    assert_eq!(host.out.len(), 1);
    assert_eq!(host.out[0], "42");
}

#[test]
fn print_with_wrong_arity_fails() {
    let prog = empty_program();
    let mut it = boot(&prog);
    let mut host = MemHost::new();
    let r = run_all(
        &prog,
        &mut it,
        &mut host,
        &vec![assign("r", call_named("print", vec![ilit(1), ilit(2)]))],
    );
    assert!(matches!(r, Err(EvalError::ArityMismatch(1, 2))));
}

#[test]
fn input_serves_scripted_lines() {
    let prog = empty_program();
    let mut it = boot(&prog);
    let mut host = MemHost::new();
    host.in_lines.push(String::from("hello"));
    let main = vec![assign("s", call_named("input", vec![]))];
    run_all(&prog, &mut it, &mut host, &main).unwrap();
    match get(&it, "s") {
        Value::Text(s) => assert_eq!(s, "hello"),
        _ => panic!("expected text"),
    }
}

#[test]
fn input_without_lines_fails() {
    let prog = empty_program();
    let mut it = boot(&prog);
    let mut host = MemHost::new();
    let r = run_all(&prog, &mut it, &mut host, &vec![assign("s", call_named("input", vec![]))]);
    assert!(matches!(r, Err(EvalError::HostFailure(_))));
}

#[test]
fn string_split_drops_first_and_last_piece() {
    let prog = empty_program();
    let mut it = boot(&prog);
    let mut host = MemHost::new();
    let main = vec![assign(
        "l",
        call_named(
            "string-split",
            vec![
                Instruction::String(String::from("a,b,c,d")),
                Instruction::String(String::from(",")),
            ],
        ),
    )];
    run_all(&prog, &mut it, &mut host, &main).unwrap();
    match get(&it, "l") {
        Value::List(h) => {
            assert_eq!(it.heap.list_len(h), 2);
            match (it.heap.get(h, 0), it.heap.get(h, 1)) {
                (Value::Text(a), Value::Text(b)) => {
                    assert_eq!(a, "b");
                    assert_eq!(b, "c");
                }
                _ => panic!("expected texts"),
            }
        }
        _ => panic!("expected list"),
    }
}

#[test]
fn string_split_of_unsplit_text_is_empty() {
    let prog = empty_program();
    let mut it = boot(&prog);
    let mut host = MemHost::new();
    let main = vec![assign(
        "l",
        call_named(
            "string-split",
            vec![
                Instruction::String(String::from("abc")),
                Instruction::String(String::from(",")),
            ],
        ),
    )];
    run_all(&prog, &mut it, &mut host, &main).unwrap();
    match get(&it, "l") {
        Value::List(h) => assert_eq!(it.heap.list_len(h), 0),
        _ => panic!("expected list"),
    }
}

#[test]
fn array_set_get_pop_length() {
    let prog = empty_program();
    let mut it = boot(&prog);
    let mut host = MemHost::new();
    let main = vec![
        assign("l", Instruction::Array(vec![ilit(10), ilit(20), ilit(30)])),
        call_named("array-set", vec![var("l"), ilit(1), ilit(99)]),
        assign("g", call_named("array-get", vec![var("l"), ilit(1)])),
        assign("p", call_named("array-pop", vec![var("l")])),
        assign("n", call_named("array-length", vec![var("l")])),
    ];
    run_all(&prog, &mut it, &mut host, &main).unwrap();
    assert!(matches!(get(&it, "g"), Value::Integer(99)));
    assert!(matches!(get(&it, "p"), Value::Integer(30)));
    assert!(matches!(get(&it, "n"), Value::Integer(2)));
}

#[test]
fn array_set_checks_bounds_before_mutating() {
    let prog = empty_program();
    let mut it = boot(&prog);
    let mut host = MemHost::new();
    let main = vec![
        assign("l", Instruction::Array(vec![ilit(1)])),
        call_named("array-set", vec![var("l"), ilit(5), ilit(9)]),
    ];
    let r = run_all(&prog, &mut it, &mut host, &main);
    assert!(matches!(r, Err(EvalError::TypeError(_, _))));
    match get(&it, "l") {
        Value::List(h) => {
            assert_eq!(it.heap.list_len(h), 1);
            assert!(matches!(it.heap.get(h, 0), Value::Integer(1)));
        }
        _ => panic!("expected list"),
    }
}

#[test]
fn array_pop_of_empty_list_fails() {
    let prog = empty_program();
    let mut it = boot(&prog);
    let mut host = MemHost::new();
    let main = vec![
        assign("l", Instruction::Array(vec![])),
        assign("p", call_named("array-pop", vec![var("l")])),
    ];
    let r = run_all(&prog, &mut it, &mut host, &main);
    assert!(matches!(r, Err(EvalError::TypeError(_, _))));
}

#[test]
fn ascii_round_trip_and_bounds() {
    let prog = empty_program();
    let mut it = boot(&prog);
    let mut host = MemHost::new();
    let main = vec![
        assign("a", call_named("to-ascii", vec![ilit(65)])),
        assign("n", call_named("from-ascii", vec![var("a")])),
    ];
    run_all(&prog, &mut it, &mut host, &main).unwrap();
    match get(&it, "a") {
        Value::Text(s) => assert_eq!(s, "A"),
        _ => panic!("expected text"),
    }
    assert!(matches!(get(&it, "n"), Value::Integer(65)));
    let r = run_all(
        &prog,
        &mut it,
        &mut host,
        &vec![assign("x", call_named("to-ascii", vec![ilit(200)]))],
    );
    assert!(matches!(r, Err(EvalError::TypeError(_, _))));
    let r2 = run_all(
        &prog,
        &mut it,
        &mut host,
        &vec![assign(
            "x",
            call_named("from-ascii", vec![Instruction::String(String::from("ab"))]),
        )],
    );
    assert!(matches!(r2, Err(EvalError::TypeError(_, _))));
}

#[test]
fn get_args_builds_fresh_text_list() {
    let prog = Program {
        funcs: Vec::new(),
        args: vec![String::from("one"), String::from("two")],
    };
    let mut it = boot(&prog);
    let mut host = MemHost::new();
    let main = vec![assign("l", call_named("get-args", vec![]))];
    run_all(&prog, &mut it, &mut host, &main).unwrap();
    match get(&it, "l") {
        Value::List(h) => {
            assert_eq!(it.heap.list_len(h), 2);
            match it.heap.get(h, 1) {
                Value::Text(s) => assert_eq!(s, "two"),
                _ => panic!("expected text"),
            }
        }
        _ => panic!("expected list"),
    }
}

#[test]
fn write_then_read_file_through_host() {
    let prog = empty_program();
    let mut it = boot(&prog);
    let mut host = MemHost::new();
    let main = vec![
        call_named(
            "write-file",
            vec![
                Instruction::String(String::from("out.txt")),
                Instruction::String(String::from("data")),
                ilit(0),
            ],
        ),
        call_named(
            "write-file",
            vec![
                Instruction::String(String::from("out.txt")),
                Instruction::String(String::from("+more")),
                ilit(1),
            ],
        ),
        assign(
            "s",
            call_named("read-file", vec![Instruction::String(String::from("out.txt"))]),
        ),
    ];
    run_all(&prog, &mut it, &mut host, &main).unwrap();
    match get(&it, "s") {
        Value::Text(s) => assert_eq!(s, "data+more"),
        _ => panic!("expected text"),
    }
}

#[test]
fn read_missing_file_fails() {
    let prog = empty_program();
    let mut it = boot(&prog);
    let mut host = MemHost::new();
    let r = run_all(
        &prog,
        &mut it,
        &mut host,
        &vec![assign(
            "s",
            call_named("read-file", vec![Instruction::String(String::from("nope"))]),
        )],
    );
    assert!(matches!(r, Err(EvalError::HostFailure(_))));
}

#[test]
fn not_encodes_negated_truthiness() {
    let prog = empty_program();
    let mut it = boot(&prog);
    let mut host = MemHost::new();
    let main = vec![
        assign("a", Instruction::Not(Box::new(ilit(0)))),
        assign("b", Instruction::Not(Box::new(Instruction::String(String::from("x"))))),
    ];
    run_all(&prog, &mut it, &mut host, &main).unwrap();
    assert!(matches!(get(&it, "a"), Value::Integer(1)));
    assert!(matches!(get(&it, "b"), Value::Integer(0)));
}

#[test]
fn comparisons_encode_as_integers() {
    let prog = empty_program();
    let mut it = boot(&prog);
    let mut host = MemHost::new();
    let main = vec![
        assign("e", Instruction::Equal(Box::new(ilit(5)), Box::new(ilit(5)))),
        assign("g", Instruction::Greater(Box::new(ilit(5)), Box::new(ilit(3)))),
        assign("l", Instruction::Lower(Box::new(ilit(5)), Box::new(ilit(3)))),
    ];
    run_all(&prog, &mut it, &mut host, &main).unwrap();
    assert!(matches!(get(&it, "e"), Value::Integer(1)));
    assert!(matches!(get(&it, "g"), Value::Integer(1)));
    assert!(matches!(get(&it, "l"), Value::Integer(0)));
}

#[test]
fn real_text_round_trips_through_parsing() {
    let prog = empty_program();
    let mut it = boot(&prog);
    let mut host = MemHost::new();
    // Render a real to text and parse the text back: the same bits come out,
    // so the rendering really depends on the value.
    let main = vec![
        assign(
            "a",
            Instruction::FloatCast(Box::new(Instruction::StringCast(Box::new(
                Instruction::Float(String::from("2.5")),
            )))),
        ),
        assign(
            "b",
            Instruction::FloatCast(Box::new(Instruction::StringCast(Box::new(
                Instruction::Float(String::from("-0.125")),
            )))),
        ),
    ];
    run_all(&prog, &mut it, &mut host, &main).unwrap();
    match get(&it, "a") {
        Value::Real(bits) => assert_eq!(bits, 2.5f64.to_bits()),
        _ => panic!("expected real"),
    }
    match get(&it, "b") {
        Value::Real(bits) => assert_eq!(bits, (-0.125f64).to_bits()),
        _ => panic!("expected real"),
    }
}

#[test]
fn print_line_appends_a_newline() {
    let prog = empty_program();
    let mut it = boot(&prog);
    let mut host = MemHost::new();
    let main = vec![assign("r", call_named("print-line", vec![ilit(8)]))];
    run_all(&prog, &mut it, &mut host, &main).unwrap();
    assert_eq!(host.out.len(), 1);
    assert_eq!(host.out[0], "8\n");
}
