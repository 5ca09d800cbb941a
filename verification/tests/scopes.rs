//! The environment and the list store, exercised directly.

use plxml::context::{Context, Scopes};
use plxml::error::{BadArgumentCount, EvalError, MissingChild, UnknownVariable};
use plxml::heap::Heap;
use plxml::value::{dup_values, Value};

#[test]
fn context_assign_replaces_and_value_reads_locally() {
    let mut ctx = Context::new(None);
    assert!(ctx.value(&String::from("a")).is_none());
    ctx.assign(String::from("a"), Value::Integer(1));
    ctx.assign(String::from("b"), Value::Integer(2));
    ctx.assign(String::from("a"), Value::Integer(3));
    assert!(matches!(ctx.value(&String::from("a")), Some(Value::Integer(3))));
    assert!(matches!(ctx.value(&String::from("b")), Some(Value::Integer(2))));
}

#[test]
fn context_take_removes_the_binding() {
    let mut ctx = Context::new(None);
    ctx.assign(String::from("__return"), Value::Integer(7));
    let taken = ctx.take(&String::from("__return"));
    assert!(matches!(taken, Some(Value::Integer(7))));
    assert!(ctx.value(&String::from("__return")).is_none());
    assert!(ctx.take(&String::from("__return")).is_none());
}

#[test]
fn scopes_lookup_reads_through_parents_but_binds_locally() {
    let mut root = Context::new(None);
    root.assign(String::from("g"), Value::Integer(10));
    let mut scopes = Scopes::new(root);
    scopes.push(Some(0));
    // read-through to the root
    assert!(matches!(
        scopes.lookup_top(&String::from("g")),
        Some(Value::Integer(10))
    ));
    // a local binding shadows without touching the parent
    scopes.bind(String::from("g"), Value::Integer(20));
    assert!(matches!(
        scopes.lookup_top(&String::from("g")),
        Some(Value::Integer(20))
    ));
    scopes.pop();
    assert!(matches!(
        scopes.lookup_top(&String::from("g")),
        Some(Value::Integer(10))
    ));
}

#[test]
fn scopes_take_top_does_not_reach_parents() {
    let mut root = Context::new(None);
    root.assign(String::from("x"), Value::Integer(1));
    let mut scopes = Scopes::new(root);
    scopes.push(Some(0));
    assert!(scopes.take_top(&String::from("x")).is_none());
    assert!(matches!(
        scopes.lookup_top(&String::from("x")),
        Some(Value::Integer(1))
    ));
}

#[test]
fn heap_handles_share_one_backing_sequence() {
    let mut heap = Heap::new();
    let h = heap.alloc_list(vec![Value::Integer(1), Value::Integer(2)]);
    let alias = match Value::List(h).dup() {
        Value::List(g) => g,
        _ => panic!("expected list"),
    };
    heap.push_item(alias, Value::Integer(3));
    assert_eq!(heap.list_len(h), 3);
    assert!(matches!(heap.get(h, 2), Value::Integer(3)));
}

#[test]
fn heap_pop_and_set_edit_in_place() {
    let mut heap = Heap::new();
    let h = heap.alloc_list(vec![Value::Integer(1), Value::Integer(2)]);
    heap.set(h, 0, Value::Integer(9));
    assert!(matches!(heap.get(h, 0), Value::Integer(9)));
    let last = heap.pop_item(h);
    assert!(matches!(last, Some(Value::Integer(2))));
    assert_eq!(heap.list_len(h), 1);
    let none = {
        heap.pop_item(h);
        heap.pop_item(h)
    };
    assert!(none.is_none());
}

#[test]
fn duplicating_values_keeps_texts_and_handles() {
    let vs = vec![
        Value::Text(String::from("hi")),
        Value::List(4),
        Value::Closure(2),
    ];
    let copy = dup_values(&vs);
    match (&copy[0], &copy[1], &copy[2]) {
        (Value::Text(s), Value::List(h), Value::Closure(k)) => {
            assert_eq!(s, "hi");
            assert_eq!(*h, 4);
            assert_eq!(*k, 2);
        }
        _ => panic!("unexpected shapes"),
    }
}

#[test]
fn error_records_render_their_diagnoses() {
    assert_eq!(
        MissingChild("program", "main").message(),
        "missing 'main' child in 'program' node"
    );
    assert_eq!(
        BadArgumentCount("print", 3).message(),
        "bad argument count (3) in call to 'print'"
    );
    assert_eq!(
        UnknownVariable(String::from("x")).message(),
        "unknown variable 'x'"
    );
    assert_eq!(
        EvalError::ArityMismatch(2, 1).message(),
        "call expected 2 arguments, got 1"
    );
}
