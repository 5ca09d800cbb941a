//! The spec-level interpreter.
//!
//! These functions define, purely mathematically, what evaluating an
//! instruction does to the machine state and what it yields.  The
//! executable evaluator ([`crate::instruction::Instruction::run`]) is
//! verified against them: wherever the functions here produce a definite
//! outcome, the executable evaluator produces exactly that outcome.  Where
//! a run asks the host for input or file contents (`Host` outcomes), no
//! definite outcome can be stated, and the evaluator then guarantees only
//! well-formedness of the state.
//!
//! Evaluation is fuelled: every recursive step spends one unit, so the
//! functions are total; a run that exhausts its budget fails with
//! [`ErrV::StepLimit`].  The executable evaluator spends its `u64` budget
//! in exactly the same places.

use vstd::prelude::*;

use crate::arith::{spec_add, spec_and, spec_compare, spec_divide, spec_multiply, spec_or,
    spec_subtract};
use crate::context::{chain_lookup, frames_wf, CtxV};
use crate::dbl::{real_of_int, real_of_text, real_text, real_trunc};
use crate::error::ErrV;
use crate::heap::{spec_lock, spec_unlock};
use crate::instruction::Instruction;
use crate::stl::NativeKind;
use crate::text::{int_text, parse_int_spec, split_parts};
use crate::value::{spec_truthy, val_wf, Function, ValV};

verus! {

/// Spec-level shape of a loaded program: the function table (name and
/// definition) and the program arguments.
pub struct ProgV {
    pub funs: Seq<(String, Function)>,
    pub args: Seq<Seq<char>>,
}

/// Spec-level shape of the mutable machine state: the scope stack, the
/// list store, and the lists' iteration counts.
pub struct SState {
    pub frames: Seq<CtxV>,
    pub lists: Seq<Seq<ValV>>,
    pub locks: Seq<u64>,
}

/// Outcome of evaluating one instruction.
pub enum EOut {
    /// The instruction finished, possibly yielding a value.
    Done(SState, Option<ValV>),
    /// The instruction failed; evaluation aborts with this error.
    Fail(SState, ErrV),
    /// The run asked the host for data; no definite outcome is stated.
    Host,
}

/// Outcome of running a statement sequence (results dropped).
pub enum BOut {
    Done(SState),
    Fail(SState, ErrV),
    Host,
}

/// Outcome of evaluating an argument list.  `Done(st, None)` means some
/// child yielded no value, which stops the evaluation of the rest.
pub enum AOut {
    Done(SState, Option<Seq<ValV>>),
    Fail(SState, ErrV),
    Host,
}

pub open spec fn ret_key() -> Seq<char> {
    "__return"@
}

pub open spec fn st_top(st: SState) -> int {
    st.frames.len() - 1
}

/// A return has been signalled: the sentinel is visible from the current
/// frame through its parent chain.
pub open spec fn st_returning(st: SState) -> bool {
    chain_lookup(st.frames, st_top(st), ret_key()) is Some
}

/// Bind in the current (top) frame.
pub open spec fn st_bind(st: SState, k: Seq<char>, v: ValV) -> SState {
    SState {
        frames: st.frames.update(
            st_top(st),
            CtxV { map: st.frames.last().map.insert(k, v), parent: st.frames.last().parent },
        ),
        lists: st.lists,
        locks: st.locks,
    }
}

/// Remove the sentinel binding from the current frame, yielding the
/// signalled value if one was set.
pub open spec fn st_take_ret(st: SState) -> (SState, Option<ValV>) {
    let m = st.frames.last().map;
    let st1 = SState {
        frames: st.frames.update(
            st_top(st),
            CtxV { map: m.remove(ret_key()), parent: st.frames.last().parent },
        ),
        lists: st.lists,
        locks: st.locks,
    };
    (
        st1,
        if m.contains_key(ret_key()) {
            Some(m[ret_key()])
        } else {
            None
        },
    )
}

/// Append a fresh list to the store.
pub open spec fn st_alloc(st: SState, items: Seq<ValV>) -> SState {
    SState { frames: st.frames, lists: st.lists.push(items), locks: st.locks.push(0u64) }
}

/// Push a fresh empty frame with the given parent.
pub open spec fn st_push_frame(st: SState, parent: Option<usize>) -> SState {
    SState {
        frames: st.frames.push(CtxV { map: Map::empty(), parent }),
        lists: st.lists,
        locks: st.locks,
    }
}

/// Drop the top frame.
pub open spec fn st_pop_frame(st: SState) -> SState {
    SState { frames: st.frames.drop_last(), lists: st.lists, locks: st.locks }
}

/// The parameter map of a call frame: the first `k` parameter names bound
/// to their argument values, in order.
pub open spec fn bind_upto(names: Seq<String>, vals: Seq<ValV>, k: int) -> Map<Seq<char>, ValV>
    decreases k,
{
    if k <= 0 {
        Map::empty()
    } else {
        bind_upto(names, vals, k - 1).insert(names[k - 1]@, vals[k - 1])
    }
}

/// Every value reachable from the state points into the store and the
/// function table.
pub open spec fn frame_vals_wf(c: CtxV, nl: int, nf: int) -> bool {
    forall|k: Seq<char>| c.map.dom().contains(k) ==> val_wf(#[trigger] c.map[k], nl, nf)
}

pub open spec fn list_vals_wf(l: Seq<ValV>, nl: int, nf: int) -> bool {
    forall|j: int| 0 <= j < l.len() ==> val_wf(#[trigger] l[j], nl, nf)
}

pub open spec fn st_wf(st: SState, nf: int) -> bool {
    &&& frames_wf(st.frames)
    &&& st.lists.len() == st.locks.len()
    &&& forall|i: int|
        0 <= i < st.frames.len() ==> frame_vals_wf(#[trigger] st.frames[i], st.lists.len() as int, nf)
    &&& forall|i: int|
        0 <= i < st.lists.len() ==> list_vals_wf(#[trigger] st.lists[i], st.lists.len() as int, nf)
}

/// What evaluating one instruction yields, and the state it leaves.
pub open spec fn eval_ins(p: ProgV, ins: Instruction, st: SState, fuel: nat) -> EOut
    decreases fuel, 0int, 0int,
{
    if fuel == 0 {
        EOut::Fail(st, ErrV::StepLimit)
    } else if st_returning(st) {
        EOut::Done(st, None)
    } else {
        let f = (fuel - 1) as nat;
        match ins {
            Instruction::Value(key) => match chain_lookup(st.frames, st_top(st), key@) {
                Some(v) => EOut::Done(st, Some(v)),
                None => EOut::Fail(st, ErrV::UnknownVariable(key@)),
            },
            Instruction::Assign(key, child) => step_assign(p, key, *child, st, f),
            Instruction::Integer(lit) => match parse_int_spec(lit@) {
                Some(i) => EOut::Done(st, Some(ValV::Integer(i))),
                None => EOut::Fail(st, ErrV::TypeError("integer"@, "invalid literal"@)),
            },
            Instruction::IntegerCast(child) => step_integer_cast(p, *child, st, f),
            Instruction::Float(lit) => match real_of_text(lit@) {
                Some(b) => EOut::Done(st, Some(ValV::Real(b))),
                None => EOut::Fail(st, ErrV::TypeError("float"@, "invalid literal"@)),
            },
            Instruction::FloatCast(child) => step_float_cast(p, *child, st, f),
            Instruction::String(lit) => EOut::Done(st, Some(ValV::Text(lit@))),
            Instruction::StringCast(child) => step_string_cast(p, *child, st, f),
            Instruction::Array(args) => step_array(p, args@, st, f),
            Instruction::Add(args) => step_arith(p, NaryOp::Add, args@, st, f),
            Instruction::Subtract(args) => step_arith(p, NaryOp::Subtract, args@, st, f),
            Instruction::Multiply(args) => step_arith(p, NaryOp::Multiply, args@, st, f),
            Instruction::Divide(args) => step_arith(p, NaryOp::Divide, args@, st, f),
            Instruction::And(args) => step_logic(p, true, args@, st, f),
            Instruction::Or(args) => step_logic(p, false, args@, st, f),
            Instruction::Not(child) => step_not(p, *child, st, f),
            Instruction::Equal(a, b) => step_compare(p, CmpOp::Equal, *a, *b, st, f),
            Instruction::Greater(a, b) => step_compare(p, CmpOp::Greater, *a, *b, st, f),
            Instruction::Lower(a, b) => step_compare(p, CmpOp::Lower, *a, *b, st, f),
            Instruction::Call(fct, args) => step_call(p, *fct, args@, st, f),
            Instruction::CallNamed(name, args) => step_call_named(p, name, args@, st, f),
            Instruction::Return(child) => step_return(p, *child, st, f),
            Instruction::If(cond, then) => step_if(p, *cond, then@, Seq::empty(), false, st, f),
            Instruction::IfElse(cond, then, els) => step_if(p, *cond, then@, els@, true, st, f),
            Instruction::For { variable, from, to, step, body } => step_for(
                p,
                variable,
                *from,
                *to,
                *step,
                body@,
                st,
                f,
            ),
            Instruction::Each(variable, arr, body) => step_each(p, variable, *arr, body@, st, f),
            Instruction::While(cond, body) => step_while(p, *cond, body@, st, f),
        }
    }
}

/// Run a statement sequence in order, dropping the produced values.
pub open spec fn eval_stmts(p: ProgV, stmts: Seq<Instruction>, st: SState, fuel: nat) -> BOut
    decreases fuel, 1int, 0int,
{
    if stmts.len() == 0 {
        BOut::Done(st)
    } else if fuel == 0 {
        BOut::Fail(st, ErrV::StepLimit)
    } else {
        match eval_ins(p, stmts[0], st, (fuel - 1) as nat) {
            EOut::Done(st1, _) => eval_stmts(p, stmts.drop_first(), st1, (fuel - 1) as nat),
            EOut::Fail(st1, e) => BOut::Fail(st1, e),
            EOut::Host => BOut::Host,
        }
    }
}

/// Evaluate an argument list in order, collecting the values.  The first
/// child that yields no value stops the evaluation of the rest.
pub open spec fn eval_args(p: ProgV, args: Seq<Instruction>, st: SState, fuel: nat) -> AOut
    decreases fuel, 1int, 0int,
{
    if args.len() == 0 {
        AOut::Done(st, Some(Seq::empty()))
    } else if fuel == 0 {
        AOut::Fail(st, ErrV::StepLimit)
    } else {
        match eval_ins(p, args[0], st, (fuel - 1) as nat) {
            EOut::Done(st1, Some(v)) => match eval_args(
                p,
                args.drop_first(),
                st1,
                (fuel - 1) as nat,
            ) {
                AOut::Done(st2, Some(rest)) => AOut::Done(st2, Some(seq![v] + rest)),
                AOut::Done(st2, None) => AOut::Done(st2, None),
                AOut::Fail(st2, e) => AOut::Fail(st2, e),
                AOut::Host => AOut::Host,
            },
            EOut::Done(st1, None) => AOut::Done(st1, None),
            EOut::Fail(st1, e) => AOut::Fail(st1, e),
            EOut::Host => AOut::Host,
        }
    }
}

/// Call the user function at table index `idx`: arity check, a fresh frame
/// with the parameters bound and the given parent, the body, then harvest
/// of the return sentinel from that frame.
pub open spec fn eval_call(
    p: ProgV,
    idx: int,
    vals: Seq<ValV>,
    parent: Option<usize>,
    st: SState,
    fuel: nat,
) -> EOut
    decreases fuel, 2int, 0int,
{
    if !(0 <= idx < p.funs.len()) {
        EOut::Fail(st, ErrV::TypeError("call"@, "invalid function"@))
    } else {
        let f = p.funs[idx].1;
        if vals.len() != f.args@.len() {
            EOut::Fail(st, ErrV::ArityMismatch(f.args@.len() as int, vals.len() as int))
        } else {
            let st1 = SState {
                frames: st.frames.push(
                    CtxV { map: bind_upto(f.args@, vals, f.args@.len() as int), parent },
                ),
                lists: st.lists,
                locks: st.locks,
            };
            match eval_stmts(p, f.ins@, st1, fuel) {
                BOut::Done(st2) => {
                    let (st3, rv) = st_take_ret(st2);
                    EOut::Done(st_pop_frame(st3), rv)
                },
                BOut::Fail(st2, e) => EOut::Fail(st_pop_frame(st2), e),
                BOut::Host => EOut::Host,
            }
        }
    }
}

/// What calling a callable value yields: user functions run through
/// [`eval_call`] with the caller's scope as parent, natives through
/// [`native_step`]; anything else is a type error.
pub open spec fn call_value(p: ProgV, callee: ValV, vals: Seq<ValV>, st: SState, fuel: nat) -> EOut
    decreases fuel, 3int, 0int,
{
    match callee {
        ValV::Closure(idx) => eval_call(
            p,
            idx,
            vals,
            Some((st.frames.len() - 1) as usize),
            st,
            fuel,
        ),
        ValV::Native(k) => native_step(p, k, vals, st),
        _ => EOut::Fail(st, ErrV::TypeError("call"@, "invalid function"@)),
    }
}

pub enum NaryOp {
    Add,
    Subtract,
    Multiply,
    Divide,
}

pub enum CmpOp {
    Equal,
    Greater,
    Lower,
}

pub open spec fn apply_nary(op: NaryOp, vals: Seq<ValV>) -> Result<ValV, ErrV> {
    match op {
        NaryOp::Add => spec_add(vals),
        NaryOp::Subtract => spec_subtract(vals),
        NaryOp::Multiply => spec_multiply(vals),
        NaryOp::Divide => spec_divide(vals),
    }
}

pub open spec fn step_arith(
    p: ProgV,
    op: NaryOp,
    args: Seq<Instruction>,
    st: SState,
    fuel: nat,
) -> EOut
    decreases fuel, 3int, 0int,
{
    match eval_args(p, args, st, fuel) {
        AOut::Done(st1, Some(vals)) => match apply_nary(op, vals) {
            Ok(v) => EOut::Done(st1, Some(v)),
            Err(e) => EOut::Fail(st1, e),
        },
        AOut::Done(st1, None) => EOut::Fail(
            st1,
            ErrV::TypeError("operands"@, "invalid child values"@),
        ),
        AOut::Fail(st1, e) => EOut::Fail(st1, e),
        AOut::Host => EOut::Host,
    }
}

pub open spec fn step_logic(
    p: ProgV,
    conjunction: bool,
    args: Seq<Instruction>,
    st: SState,
    fuel: nat,
) -> EOut
    decreases fuel, 3int, 0int,
{
    match eval_args(p, args, st, fuel) {
        AOut::Done(st1, Some(vals)) => EOut::Done(
            st1,
            Some(
                if conjunction {
                    spec_and(vals, st1.lists)
                } else {
                    spec_or(vals, st1.lists)
                },
            ),
        ),
        AOut::Done(st1, None) => EOut::Fail(
            st1,
            ErrV::TypeError("operands"@, "invalid child values"@),
        ),
        AOut::Fail(st1, e) => EOut::Fail(st1, e),
        AOut::Host => EOut::Host,
    }
}

pub open spec fn step_assign(
    p: ProgV,
    key: String,
    child: Instruction,
    st: SState,
    fuel: nat,
) -> EOut
    decreases fuel, 3int, 0int,
{
    match eval_ins(p, child, st, fuel) {
        EOut::Done(st1, Some(v)) => EOut::Done(st_bind(st1, key@, v), None),
        EOut::Done(st1, None) => EOut::Fail(st1, ErrV::TypeError("assign"@, "no value"@)),
        EOut::Fail(st1, e) => EOut::Fail(st1, e),
        EOut::Host => EOut::Host,
    }
}

pub open spec fn step_return(p: ProgV, child: Instruction, st: SState, fuel: nat) -> EOut
    decreases fuel, 3int, 0int,
{
    match eval_ins(p, child, st, fuel) {
        EOut::Done(st1, Some(v)) => EOut::Done(st_bind(st1, ret_key(), v), None),
        EOut::Done(st1, None) => EOut::Fail(st1, ErrV::TypeError("return"@, "no value"@)),
        EOut::Fail(st1, e) => EOut::Fail(st1, e),
        EOut::Host => EOut::Host,
    }
}

pub open spec fn step_not(p: ProgV, child: Instruction, st: SState, fuel: nat) -> EOut
    decreases fuel, 3int, 0int,
{
    match eval_ins(p, child, st, fuel) {
        EOut::Done(st1, Some(v)) => EOut::Done(
            st1,
            Some(
                ValV::Integer(
                    if spec_truthy(v, st1.lists) {
                        0
                    } else {
                        1
                    },
                ),
            ),
        ),
        EOut::Done(st1, None) => EOut::Fail(st1, ErrV::TypeError("not"@, "no value"@)),
        EOut::Fail(st1, e) => EOut::Fail(st1, e),
        EOut::Host => EOut::Host,
    }
}

pub open spec fn step_integer_cast(p: ProgV, child: Instruction, st: SState, fuel: nat) -> EOut
    decreases fuel, 3int, 0int,
{
    match eval_ins(p, child, st, fuel) {
        EOut::Done(st1, Some(v)) => match v {
            ValV::Integer(i) => EOut::Done(st1, Some(ValV::Integer(i))),
            ValV::Real(b) => EOut::Done(st1, Some(ValV::Integer(real_trunc(b)))),
            ValV::Text(s) => match parse_int_spec(s) {
                Some(i) => EOut::Done(st1, Some(ValV::Integer(i))),
                None => EOut::Fail(st1, ErrV::TypeError("integer"@, "invalid literal"@)),
            },
            _ => EOut::Fail(st1, ErrV::TypeError("integer"@, "cannot cast"@)),
        },
        EOut::Done(st1, None) => EOut::Fail(st1, ErrV::TypeError("integer"@, "no value"@)),
        EOut::Fail(st1, e) => EOut::Fail(st1, e),
        EOut::Host => EOut::Host,
    }
}

pub open spec fn step_float_cast(p: ProgV, child: Instruction, st: SState, fuel: nat) -> EOut
    decreases fuel, 3int, 0int,
{
    match eval_ins(p, child, st, fuel) {
        EOut::Done(st1, Some(v)) => match v {
            ValV::Integer(i) => EOut::Done(st1, Some(ValV::Real(real_of_int(i)))),
            ValV::Real(b) => EOut::Done(st1, Some(ValV::Real(b))),
            ValV::Text(s) => match real_of_text(s) {
                Some(b) => EOut::Done(st1, Some(ValV::Real(b))),
                None => EOut::Fail(st1, ErrV::TypeError("float"@, "invalid literal"@)),
            },
            _ => EOut::Fail(st1, ErrV::TypeError("float"@, "cannot cast"@)),
        },
        EOut::Done(st1, None) => EOut::Fail(st1, ErrV::TypeError("float"@, "no value"@)),
        EOut::Fail(st1, e) => EOut::Fail(st1, e),
        EOut::Host => EOut::Host,
    }
}

pub open spec fn step_string_cast(p: ProgV, child: Instruction, st: SState, fuel: nat) -> EOut
    decreases fuel, 3int, 0int,
{
    match eval_ins(p, child, st, fuel) {
        EOut::Done(st1, Some(v)) => match v {
            ValV::Integer(i) => EOut::Done(st1, Some(ValV::Text(int_text(i as int)))),
            ValV::Real(b) => EOut::Done(st1, Some(ValV::Text(real_text(b)))),
            ValV::Text(s) => EOut::Done(st1, Some(ValV::Text(s))),
            _ => EOut::Fail(st1, ErrV::TypeError("string"@, "cannot cast"@)),
        },
        EOut::Done(st1, None) => EOut::Fail(st1, ErrV::TypeError("string"@, "no value"@)),
        EOut::Fail(st1, e) => EOut::Fail(st1, e),
        EOut::Host => EOut::Host,
    }
}

pub open spec fn step_array(p: ProgV, args: Seq<Instruction>, st: SState, fuel: nat) -> EOut
    decreases fuel, 3int, 0int,
{
    match eval_args(p, args, st, fuel) {
        AOut::Done(st1, Some(vals)) => EOut::Done(
            st_alloc(st1, vals),
            Some(ValV::List(st1.lists.len() as int)),
        ),
        AOut::Done(st1, None) => EOut::Fail(st1, ErrV::TypeError("array"@, "invalid child values"@)),
        AOut::Fail(st1, e) => EOut::Fail(st1, e),
        AOut::Host => EOut::Host,
    }
}

pub open spec fn step_compare(
    p: ProgV,
    op: CmpOp,
    a: Instruction,
    b: Instruction,
    st: SState,
    fuel: nat,
) -> EOut
    decreases fuel, 3int, 0int,
{
    match eval_ins(p, a, st, fuel) {
        EOut::Done(st1, Some(v1)) => match eval_ins(p, b, st1, fuel) {
            EOut::Done(st2, Some(v2)) => match spec_compare(v1, v2) {
                Ok(c) => EOut::Done(
                    st2,
                    Some(
                        ValV::Integer(
                            match op {
                                CmpOp::Equal => if c == 0 {
                                    1
                                } else {
                                    0
                                },
                                CmpOp::Greater => if c > 0 {
                                    1
                                } else {
                                    0
                                },
                                CmpOp::Lower => if c < 0 {
                                    1
                                } else {
                                    0
                                },
                            },
                        ),
                    ),
                ),
                Err(e) => EOut::Fail(st2, e),
            },
            EOut::Done(st2, None) => EOut::Fail(st2, ErrV::TypeError("compare"@, "no value"@)),
            EOut::Fail(st2, e) => EOut::Fail(st2, e),
            EOut::Host => EOut::Host,
        },
        EOut::Done(st1, None) => EOut::Fail(st1, ErrV::TypeError("compare"@, "no value"@)),
        EOut::Fail(st1, e) => EOut::Fail(st1, e),
        EOut::Host => EOut::Host,
    }
}

pub open spec fn step_call(
    p: ProgV,
    fct: Instruction,
    args: Seq<Instruction>,
    st: SState,
    fuel: nat,
) -> EOut
    decreases fuel, 3int, 1int,
{
    match eval_args(p, args, st, fuel) {
        AOut::Done(st1, Some(vals)) => match eval_ins(p, fct, st1, fuel) {
            EOut::Done(st2, Some(ValV::Closure(idx))) => eval_call(
                p,
                idx,
                vals,
                Some((st2.frames.len() - 1) as usize),
                st2,
                fuel,
            ),
            EOut::Done(st2, Some(ValV::Native(k))) => native_step(p, k, vals, st2),
            EOut::Done(st2, Some(_)) => EOut::Fail(
                st2,
                ErrV::TypeError("call"@, "invalid function"@),
            ),
            EOut::Done(st2, None) => EOut::Fail(st2, ErrV::TypeError("call"@, "no value"@)),
            EOut::Fail(st2, e) => EOut::Fail(st2, e),
            EOut::Host => EOut::Host,
        },
        AOut::Done(st1, None) => EOut::Fail(
            st1,
            ErrV::TypeError("call"@, "invalid argument values"@),
        ),
        AOut::Fail(st1, e) => EOut::Fail(st1, e),
        AOut::Host => EOut::Host,
    }
}

/// A by-name call: the name is resolved through the caller's chain, but the
/// callee's parent scope is the root frame, so it sees only globals.
pub open spec fn step_call_named(
    p: ProgV,
    name: String,
    args: Seq<Instruction>,
    st: SState,
    fuel: nat,
) -> EOut
    decreases fuel, 3int, 1int,
{
    match eval_args(p, args, st, fuel) {
        AOut::Done(st1, Some(vals)) => match chain_lookup(st1.frames, st_top(st1), name@) {
            Some(ValV::Closure(idx)) => eval_call(p, idx, vals, Some(0), st1, fuel),
            Some(ValV::Native(k)) => native_step(p, k, vals, st1),
            Some(_) => EOut::Fail(st1, ErrV::TypeError("call"@, "invalid function"@)),
            None => EOut::Fail(st1, ErrV::UnknownFunction(name@)),
        },
        AOut::Done(st1, None) => EOut::Fail(
            st1,
            ErrV::TypeError("call"@, "invalid argument values"@),
        ),
        AOut::Fail(st1, e) => EOut::Fail(st1, e),
        AOut::Host => EOut::Host,
    }
}

pub open spec fn step_if(
    p: ProgV,
    cond: Instruction,
    then: Seq<Instruction>,
    els: Seq<Instruction>,
    has_else: bool,
    st: SState,
    fuel: nat,
) -> EOut
    decreases fuel, 3int, 0int,
{
    match eval_ins(p, cond, st, fuel) {
        EOut::Done(st1, Some(v)) => {
            let branch = if spec_truthy(v, st1.lists) {
                then
            } else if has_else {
                els
            } else {
                Seq::empty()
            };
            match eval_stmts(p, branch, st1, fuel) {
                BOut::Done(st2) => EOut::Done(st2, None),
                BOut::Fail(st2, e) => EOut::Fail(st2, e),
                BOut::Host => EOut::Host,
            }
        },
        EOut::Done(st1, None) => EOut::Fail(st1, ErrV::TypeError("if"@, "invalid condition"@)),
        EOut::Fail(st1, e) => EOut::Fail(st1, e),
        EOut::Host => EOut::Host,
    }
}

/// The bounded loop's iteration schedule, already past the bound checks:
/// the variable is rebound before every iteration, and a signalled return
/// does not cut the schedule short — the remaining iterations run with the
/// sentinel set, so their bodies are no-ops.
pub open spec fn for_iter(
    p: ProgV,
    variable: String,
    i: i64,
    t: i64,
    s: i64,
    body: Seq<Instruction>,
    st: SState,
    fuel: nat,
) -> EOut
    decreases fuel, 2int, 0int,
{
    if i >= t {
        EOut::Done(st, None)
    } else if fuel == 0 {
        EOut::Fail(st, ErrV::StepLimit)
    } else {
        let st1 = st_bind(st, variable@, ValV::Integer(i));
        match eval_stmts(p, body, st1, (fuel - 1) as nat) {
            BOut::Done(st2) => if i + s > i64::MAX {
                EOut::Done(st2, None)
            } else {
                for_iter(p, variable, (i + s) as i64, t, s, body, st2, (fuel - 1) as nat)
            },
            BOut::Fail(st2, e) => EOut::Fail(st2, e),
            BOut::Host => EOut::Host,
        }
    }
}

/// The bounded numeric loop: the three bounds are evaluated in order, and
/// any non-integer bound makes the whole construct a no-op; the bounds that
/// follow a non-integer one are not evaluated at all.  A non-positive step
/// is an error.
pub open spec fn step_for(
    p: ProgV,
    variable: String,
    from: Instruction,
    to: Instruction,
    step: Instruction,
    body: Seq<Instruction>,
    st: SState,
    fuel: nat,
) -> EOut
    decreases fuel, 3int, 0int,
{
    match eval_ins(p, from, st, fuel) {
        EOut::Done(st1, Some(ValV::Integer(fv))) => match eval_ins(p, to, st1, fuel) {
            EOut::Done(st2, Some(ValV::Integer(tv))) => match eval_ins(p, step, st2, fuel) {
                EOut::Done(st3, Some(ValV::Integer(sv))) => if sv <= 0 {
                    EOut::Fail(st3, ErrV::TypeError("for"@, "step must be positive"@))
                } else {
                    for_iter(p, variable, fv, tv, sv, body, st3, fuel)
                },
                EOut::Done(st3, Some(_)) => EOut::Done(st3, None),
                EOut::Done(st3, None) => EOut::Fail(
                    st3,
                    ErrV::TypeError("for"@, "invalid step value"@),
                ),
                EOut::Fail(st3, e) => EOut::Fail(st3, e),
                EOut::Host => EOut::Host,
            },
            EOut::Done(st2, Some(_)) => EOut::Done(st2, None),
            EOut::Done(st2, None) => EOut::Fail(st2, ErrV::TypeError("for"@, "invalid to value"@)),
            EOut::Fail(st2, e) => EOut::Fail(st2, e),
            EOut::Host => EOut::Host,
        },
        EOut::Done(st1, Some(_)) => EOut::Done(st1, None),
        EOut::Done(st1, None) => EOut::Fail(st1, ErrV::TypeError("for"@, "invalid from value"@)),
        EOut::Fail(st1, e) => EOut::Fail(st1, e),
        EOut::Host => EOut::Host,
    }
}

/// The collection loop's iteration schedule over a snapshot of the list.
pub open spec fn each_iter(
    p: ProgV,
    variable: String,
    items: Seq<ValV>,
    idx: int,
    body: Seq<Instruction>,
    st: SState,
    fuel: nat,
) -> BOut
    decreases fuel, 2int, 0int,
{
    if idx >= items.len() {
        BOut::Done(st)
    } else if fuel == 0 {
        BOut::Fail(st, ErrV::StepLimit)
    } else {
        let st1 = st_bind(st, variable@, items[idx]);
        match eval_stmts(p, body, st1, (fuel - 1) as nat) {
            BOut::Done(st2) => each_iter(p, variable, items, idx + 1, body, st2, (fuel - 1) as nat),
            BOut::Fail(st2, e) => BOut::Fail(st2, e),
            BOut::Host => BOut::Host,
        }
    }
}

/// Release the iteration mark on `h`.
pub open spec fn st_unlock(st: SState, h: int) -> SState {
    SState { frames: st.frames, lists: st.lists, locks: spec_unlock(st.locks, h) }
}

/// The collection loop: a snapshot of the list's contents at entry is
/// iterated while the list is marked as being iterated, so that the body
/// cannot mutate it.
pub open spec fn step_each(
    p: ProgV,
    variable: String,
    arr: Instruction,
    body: Seq<Instruction>,
    st: SState,
    fuel: nat,
) -> EOut
    decreases fuel, 3int, 0int,
{
    match eval_ins(p, arr, st, fuel) {
        EOut::Done(st1, Some(ValV::List(h))) => if !(0 <= h < st1.lists.len()) {
            EOut::Fail(st1, ErrV::TypeError("each"@, "invalid array"@))
        } else {
            let items = st1.lists[h];
            let st2 = SState {
                frames: st1.frames,
                lists: st1.lists,
                locks: spec_lock(st1.locks, h),
            };
            match each_iter(p, variable, items, 0, body, st2, fuel) {
                BOut::Done(st3) => EOut::Done(st_unlock(st3, h), None),
                BOut::Fail(st3, e) => EOut::Fail(st_unlock(st3, h), e),
                BOut::Host => EOut::Host,
            }
        },
        EOut::Done(st1, Some(_)) => EOut::Fail(st1, ErrV::TypeError("each"@, "invalid array"@)),
        EOut::Done(st1, None) => EOut::Fail(st1, ErrV::TypeError("each"@, "invalid array value"@)),
        EOut::Fail(st1, e) => EOut::Fail(st1, e),
        EOut::Host => EOut::Host,
    }
}

/// The pre-condition loop's iteration schedule.  When a signalled return
/// makes the condition yield no value, the loop fails as the condition
/// being invalid — the sentinel does not cut a `while` short cleanly.
pub open spec fn step_while(
    p: ProgV,
    cond: Instruction,
    body: Seq<Instruction>,
    st: SState,
    fuel: nat,
) -> EOut
    decreases fuel, 2int, 0int,
{
    if fuel == 0 {
        EOut::Fail(st, ErrV::StepLimit)
    } else {
        match eval_ins(p, cond, st, (fuel - 1) as nat) {
            EOut::Done(st1, Some(v)) => if spec_truthy(v, st1.lists) {
                match eval_stmts(p, body, st1, (fuel - 1) as nat) {
                    BOut::Done(st2) => step_while(p, cond, body, st2, (fuel - 1) as nat),
                    BOut::Fail(st2, e) => EOut::Fail(st2, e),
                    BOut::Host => EOut::Host,
                }
            } else {
                EOut::Done(st1, None)
            },
            EOut::Done(st1, None) => EOut::Fail(
                st1,
                ErrV::TypeError("while"@, "invalid condition"@),
            ),
            EOut::Fail(st1, e) => EOut::Fail(st1, e),
            EOut::Host => EOut::Host,
        }
    }
}

/// The saturating integer length of a list.
pub open spec fn len_as_integer(n: int) -> i64 {
    if n <= i64::MAX {
        n as i64
    } else {
        i64::MAX
    }
}

/// What calling a native function yields.  The deterministic natives have
/// their full meaning here; `input`, `read-file` and `write-file` ask the
/// host and so have none.
pub open spec fn native_step(p: ProgV, kind: NativeKind, vals: Seq<ValV>, st: SState) -> EOut {
    match kind {
        NativeKind::Print => if vals.len() != 1 {
            EOut::Fail(st, ErrV::ArityMismatch(1, vals.len() as int))
        } else {
            EOut::Done(st, Some(vals[0]))
        },
        NativeKind::PrintLine => if vals.len() != 1 {
            EOut::Fail(st, ErrV::ArityMismatch(1, vals.len() as int))
        } else {
            EOut::Done(st, Some(vals[0]))
        },
        NativeKind::Input => if vals.len() != 0 {
            EOut::Fail(st, ErrV::ArityMismatch(0, vals.len() as int))
        } else {
            EOut::Host
        },
        NativeKind::StringSplit => native_split(vals, st),
        NativeKind::ArraySet => native_array_set(vals, st),
        NativeKind::ArrayPush => native_array_push(vals, st),
        NativeKind::ArrayPop => native_array_pop(vals, st),
        NativeKind::ArrayGet => native_array_get(vals, st),
        NativeKind::ArrayLength => if vals.len() != 1 {
            EOut::Fail(st, ErrV::ArityMismatch(1, vals.len() as int))
        } else {
            match vals[0] {
                ValV::List(h) => if 0 <= h < st.lists.len() {
                    EOut::Done(st, Some(ValV::Integer(len_as_integer(st.lists[h].len() as int))))
                } else {
                    EOut::Fail(st, ErrV::TypeError("array-length"@, "array"@))
                },
                _ => EOut::Fail(st, ErrV::TypeError("array-length"@, "array"@)),
            }
        },
        NativeKind::ToAscii => if vals.len() != 1 {
            EOut::Fail(st, ErrV::ArityMismatch(1, vals.len() as int))
        } else {
            match vals[0] {
                ValV::Integer(i) => if 0 <= i <= 127 {
                    EOut::Done(st, Some(ValV::Text(seq![((i as u8) as char)])))
                } else {
                    EOut::Fail(st, ErrV::TypeError("to-ascii"@, "integer"@))
                },
                _ => EOut::Fail(st, ErrV::TypeError("to-ascii"@, "integer"@)),
            }
        },
        NativeKind::FromAscii => if vals.len() != 1 {
            EOut::Fail(st, ErrV::ArityMismatch(1, vals.len() as int))
        } else {
            match vals[0] {
                ValV::Text(s) => if s.len() == 1 && (s[0] as u32) <= 127 {
                    EOut::Done(st, Some(ValV::Integer((s[0] as u32) as i64)))
                } else {
                    EOut::Fail(st, ErrV::TypeError("from-ascii"@, "string"@))
                },
                _ => EOut::Fail(st, ErrV::TypeError("from-ascii"@, "string"@)),
            }
        },
        NativeKind::GetArgs => if vals.len() != 0 {
            EOut::Fail(st, ErrV::ArityMismatch(0, vals.len() as int))
        } else {
            EOut::Done(
                st_alloc(st, p.args.map_values(|t: Seq<char>| ValV::Text(t))),
                Some(ValV::List(st.lists.len() as int)),
            )
        },
        NativeKind::WriteFile => if vals.len() != 3 {
            EOut::Fail(st, ErrV::ArityMismatch(3, vals.len() as int))
        } else if !(vals[0] matches ValV::Text(_)) {
            EOut::Fail(st, ErrV::TypeError("write-file"@, "string"@))
        } else if !(vals[1] matches ValV::Text(_)) {
            EOut::Fail(st, ErrV::TypeError("write-file"@, "string"@))
        } else {
            EOut::Host
        },
        NativeKind::ReadFile => if vals.len() != 1 {
            EOut::Fail(st, ErrV::ArityMismatch(1, vals.len() as int))
        } else if !(vals[0] matches ValV::Text(_)) {
            EOut::Fail(st, ErrV::TypeError("read-file"@, "string"@))
        } else {
            EOut::Host
        },
    }
}

/// `string-split`: split the text by the delimiter, then drop the first
/// piece and, of what remains, the last, and build a fresh list of texts.
pub open spec fn native_split(vals: Seq<ValV>, st: SState) -> EOut {
    if vals.len() != 2 {
        EOut::Fail(st, ErrV::ArityMismatch(2, vals.len() as int))
    } else {
        match (vals[0], vals[1]) {
            (ValV::Text(s), ValV::Text(d)) => {
                let parts = split_parts(s, d);
                let kept = if parts.drop_first().len() > 0 {
                    parts.drop_first().drop_last()
                } else {
                    parts.drop_first()
                };
                EOut::Done(
                    st_alloc(st, kept.map_values(|t: Seq<char>| ValV::Text(t))),
                    Some(ValV::List(st.lists.len() as int)),
                )
            },
            (ValV::Text(_), _) => EOut::Fail(st, ErrV::TypeError("string-split"@, "delimiter"@)),
            _ => EOut::Fail(st, ErrV::TypeError("string-split"@, "target"@)),
        }
    }
}

/// `array-set`: bounds are checked before the mutation, and a list that is
/// being iterated refuses the mutation.
pub open spec fn native_array_set(vals: Seq<ValV>, st: SState) -> EOut {
    if vals.len() != 3 {
        EOut::Fail(st, ErrV::ArityMismatch(3, vals.len() as int))
    } else {
        match (vals[0], vals[1]) {
            (ValV::List(h), ValV::Integer(i)) => if !(0 <= h < st.lists.len()) {
                EOut::Fail(st, ErrV::TypeError("array-set"@, "array"@))
            } else if i < 0 || i >= st.lists[h].len() {
                EOut::Fail(st, ErrV::TypeError("array-set"@, "index"@))
            } else if st.locks[h] > 0 {
                EOut::Fail(st, ErrV::MutationDuringIteration)
            } else {
                EOut::Done(
                    SState {
                        frames: st.frames,
                        lists: st.lists.update(h, st.lists[h].update(i as int, vals[2])),
                        locks: st.locks,
                    },
                    None,
                )
            },
            (ValV::List(_), _) => EOut::Fail(st, ErrV::TypeError("array-set"@, "index"@)),
            _ => EOut::Fail(st, ErrV::TypeError("array-set"@, "array"@)),
        }
    }
}

pub open spec fn native_array_push(vals: Seq<ValV>, st: SState) -> EOut {
    if vals.len() != 2 {
        EOut::Fail(st, ErrV::ArityMismatch(2, vals.len() as int))
    } else {
        match vals[0] {
            ValV::List(h) => if !(0 <= h < st.lists.len()) {
                EOut::Fail(st, ErrV::TypeError("array-push"@, "array"@))
            } else if st.locks[h] > 0 {
                EOut::Fail(st, ErrV::MutationDuringIteration)
            } else if st.lists[h].len() >= usize::MAX {
                EOut::Fail(st, ErrV::TypeError("array-push"@, "array"@))
            } else {
                EOut::Done(
                    SState {
                        frames: st.frames,
                        lists: st.lists.update(h, st.lists[h].push(vals[1])),
                        locks: st.locks,
                    },
                    None,
                )
            },
            _ => EOut::Fail(st, ErrV::TypeError("array-push"@, "array"@)),
        }
    }
}

pub open spec fn native_array_pop(vals: Seq<ValV>, st: SState) -> EOut {
    if vals.len() != 1 {
        EOut::Fail(st, ErrV::ArityMismatch(1, vals.len() as int))
    } else {
        match vals[0] {
            ValV::List(h) => if !(0 <= h < st.lists.len()) {
                EOut::Fail(st, ErrV::TypeError("array-pop"@, "array"@))
            } else if st.locks[h] > 0 {
                EOut::Fail(st, ErrV::MutationDuringIteration)
            } else if st.lists[h].len() == 0 {
                EOut::Fail(st, ErrV::TypeError("array-pop"@, "array"@))
            } else {
                EOut::Done(
                    SState {
                        frames: st.frames,
                        lists: st.lists.update(h, st.lists[h].drop_last()),
                        locks: st.locks,
                    },
                    Some(st.lists[h].last()),
                )
            },
            _ => EOut::Fail(st, ErrV::TypeError("array-pop"@, "array"@)),
        }
    }
}

pub open spec fn native_array_get(vals: Seq<ValV>, st: SState) -> EOut {
    if vals.len() != 2 {
        EOut::Fail(st, ErrV::ArityMismatch(2, vals.len() as int))
    } else {
        match (vals[0], vals[1]) {
            (ValV::List(h), ValV::Integer(i)) => if !(0 <= h < st.lists.len()) {
                EOut::Fail(st, ErrV::TypeError("array-set"@, "array"@))
            } else if i < 0 || i >= st.lists[h].len() {
                EOut::Fail(st, ErrV::TypeError("array-get"@, "index"@))
            } else {
                EOut::Done(st, Some(st.lists[h][i as int]))
            },
            (ValV::List(_), _) => EOut::Fail(st, ErrV::TypeError("array-get"@, "index"@)),
            _ => EOut::Fail(st, ErrV::TypeError("array-set"@, "array"@)),
        }
    }
}

pub open spec fn opt_view(o: Option<crate::value::Value>) -> Option<ValV> {
    match o {
        Some(v) => Some(v@),
        None => None,
    }
}

pub proof fn lemma_val_wf_mono(v: ValV, nl1: int, nl2: int, nf: int)
    requires
        val_wf(v, nl1, nf),
        nl1 <= nl2,
    ensures
        val_wf(v, nl2, nf),
{
}

/// Binding a well-formed value in the top frame keeps the state well formed.
pub proof fn lemma_bind_wf(st: SState, k: Seq<char>, v: ValV, nf: int)
    requires
        st_wf(st, nf),
        st.frames.len() >= 1,
        val_wf(v, st.lists.len() as int, nf),
    ensures
        st_wf(st_bind(st, k, v), nf),
        st_bind(st, k, v).frames.len() == st.frames.len(),
        st_bind(st, k, v).lists == st.lists,
        st_bind(st, k, v).locks == st.locks,
{
    let st1 = st_bind(st, k, v);
    let top = st_top(st);
    assert forall|i: int| 0 <= i < st1.frames.len() implies ((#[trigger] st1.frames[i]).parent
        matches Some(p) ==> p < i) by {
        if i != top {
            assert(st1.frames[i] == st.frames[i]);
        }
    }
    assert forall|i: int| 0 <= i < st1.frames.len() implies frame_vals_wf(
        #[trigger] st1.frames[i],
        st1.lists.len() as int,
        nf,
    ) by {
        if i != top {
            assert(st1.frames[i] == st.frames[i]);
        } else {
            let c = st1.frames[top];
            assert forall|kk: Seq<char>| c.map.dom().contains(kk) implies val_wf(
                #[trigger] c.map[kk],
                st1.lists.len() as int,
                nf,
            ) by {
                if kk != k {
                    assert(c.map[kk] == st.frames[top].map[kk]);
                    assert(st.frames[top].map.dom().contains(kk));
                }
            }
        }
    }
}

/// Harvesting the sentinel keeps the state well formed, and any harvested
/// value is well formed.
pub proof fn lemma_take_ret_wf(st: SState, nf: int)
    requires
        st_wf(st, nf),
        st.frames.len() >= 1,
    ensures
        st_wf(st_take_ret(st).0, nf),
        st_take_ret(st).0.frames.len() == st.frames.len(),
        st_take_ret(st).0.lists == st.lists,
        st_take_ret(st).0.locks == st.locks,
        st_take_ret(st).1 matches Some(v) ==> val_wf(v, st.lists.len() as int, nf),
{
    let (st1, rv) = st_take_ret(st);
    let top = st_top(st);
    assert forall|i: int| 0 <= i < st1.frames.len() implies ((#[trigger] st1.frames[i]).parent
        matches Some(p) ==> p < i) by {
        if i != top {
            assert(st1.frames[i] == st.frames[i]);
        }
    }
    assert forall|i: int| 0 <= i < st1.frames.len() implies frame_vals_wf(
        #[trigger] st1.frames[i],
        st1.lists.len() as int,
        nf,
    ) by {
        if i != top {
            assert(st1.frames[i] == st.frames[i]);
        } else {
            let c = st1.frames[top];
            assert forall|kk: Seq<char>| c.map.dom().contains(kk) implies val_wf(
                #[trigger] c.map[kk],
                st1.lists.len() as int,
                nf,
            ) by {
                assert(c.map[kk] == st.frames[top].map[kk]);
                assert(st.frames[top].map.dom().contains(kk));
            }
        }
    }
    if st.frames[top].map.contains_key(ret_key()) {
        assert(val_wf(st.frames[top].map[ret_key()], st.lists.len() as int, nf));
    }
}

/// Appending a fresh list of well-formed items keeps the state well formed.
pub proof fn lemma_alloc_wf(st: SState, items: Seq<ValV>, nf: int)
    requires
        st_wf(st, nf),
        list_vals_wf(items, st.lists.len() as int, nf),
    ensures
        st_wf(st_alloc(st, items), nf),
        st_alloc(st, items).frames == st.frames,
        st_alloc(st, items).lists.len() == st.lists.len() + 1,
{
    let st1 = st_alloc(st, items);
    let nl1 = st1.lists.len() as int;
    assert forall|i: int| 0 <= i < st1.frames.len() implies frame_vals_wf(
        #[trigger] st1.frames[i],
        nl1,
        nf,
    ) by {
        assert(frame_vals_wf(st.frames[i], st.lists.len() as int, nf));
        let c = st1.frames[i];
        assert forall|kk: Seq<char>| c.map.dom().contains(kk) implies val_wf(
            #[trigger] c.map[kk],
            nl1,
            nf,
        ) by {
            assert(val_wf(c.map[kk], st.lists.len() as int, nf));
        }
    }
    assert forall|i: int| 0 <= i < st1.lists.len() implies list_vals_wf(
        #[trigger] st1.lists[i],
        nl1,
        nf,
    ) by {
        if i < st.lists.len() {
            assert(st1.lists[i] == st.lists[i]);
            assert(list_vals_wf(st.lists[i], st.lists.len() as int, nf));
            let l = st1.lists[i];
            assert forall|j: int| 0 <= j < l.len() implies val_wf(#[trigger] l[j], nl1, nf) by {
                assert(val_wf(l[j], st.lists.len() as int, nf));
            }
        } else {
            assert(st1.lists[i] == items);
            let l = st1.lists[i];
            assert forall|j: int| 0 <= j < l.len() implies val_wf(#[trigger] l[j], nl1, nf) by {
                assert(val_wf(items[j], st.lists.len() as int, nf));
            }
        }
    }
}

/// Pushing a frame whose parent points below keeps the state well formed.
pub proof fn lemma_push_frame_wf(st: SState, m: Map<Seq<char>, ValV>, parent: Option<usize>, nf: int)
    requires
        st_wf(st, nf),
        parent matches Some(p) ==> p < st.frames.len(),
        forall|k: Seq<char>| m.dom().contains(k) ==> val_wf(#[trigger] m[k], st.lists.len() as int, nf),
    ensures
        ({
            let st1 = SState {
                frames: st.frames.push(CtxV { map: m, parent }),
                lists: st.lists,
                locks: st.locks,
            };
            st_wf(st1, nf) && st1.frames.len() == st.frames.len() + 1
        }),
{
    let st1 = SState {
        frames: st.frames.push(CtxV { map: m, parent }),
        lists: st.lists,
        locks: st.locks,
    };
    assert forall|i: int| 0 <= i < st1.frames.len() implies ((#[trigger] st1.frames[i]).parent
        matches Some(p) ==> p < i) by {
        if i < st.frames.len() {
            assert(st1.frames[i] == st.frames[i]);
        }
    }
    assert forall|i: int| 0 <= i < st1.frames.len() implies frame_vals_wf(
        #[trigger] st1.frames[i],
        st1.lists.len() as int,
        nf,
    ) by {
        if i < st.frames.len() {
            assert(st1.frames[i] == st.frames[i]);
        }
    }
}

/// Dropping the top frame keeps the state well formed.
pub proof fn lemma_pop_frame_wf(st: SState, nf: int)
    requires
        st_wf(st, nf),
        st.frames.len() >= 2,
    ensures
        st_wf(st_pop_frame(st), nf),
        st_pop_frame(st).frames.len() == st.frames.len() - 1,
{
    let st1 = st_pop_frame(st);
    assert forall|i: int| 0 <= i < st1.frames.len() implies ((#[trigger] st1.frames[i]).parent
        matches Some(p) ==> p < i) by {
        assert(st1.frames[i] == st.frames[i]);
    }
    assert forall|i: int| 0 <= i < st1.frames.len() implies frame_vals_wf(
        #[trigger] st1.frames[i],
        st1.lists.len() as int,
        nf,
    ) by {
        assert(st1.frames[i] == st.frames[i]);
    }
}

/// A value found through the scope chain of a well-formed state is well formed.
pub proof fn lemma_chain_lookup_wf(st: SState, i: int, k: Seq<char>, nf: int)
    requires
        st_wf(st, nf),
    ensures
        chain_lookup(st.frames, i, k) matches Some(v) ==> val_wf(v, st.lists.len() as int, nf),
    decreases i,
{
    if 0 <= i < st.frames.len() {
        if st.frames[i].map.contains_key(k) {
            assert(frame_vals_wf(st.frames[i], st.lists.len() as int, nf));
        } else {
            match st.frames[i].parent {
                Some(p) => {
                    if p < i {
                        lemma_chain_lookup_wf(st, p as int, k, nf);
                    }
                },
                None => {},
            }
        }
    }
}

/// Replacing one item of one list with a well-formed value keeps the state
/// well formed.
pub proof fn lemma_list_update_wf(st: SState, h: int, l: Seq<ValV>, nf: int)
    requires
        st_wf(st, nf),
        0 <= h < st.lists.len(),
        list_vals_wf(l, st.lists.len() as int, nf),
    ensures
        ({
            let st1 = SState { frames: st.frames, lists: st.lists.update(h, l), locks: st.locks };
            st_wf(st1, nf)
        }),
{
    let st1 = SState { frames: st.frames, lists: st.lists.update(h, l), locks: st.locks };
    assert(st1.lists.len() == st.lists.len());
    assert forall|i: int| 0 <= i < st1.frames.len() implies frame_vals_wf(
        #[trigger] st1.frames[i],
        st1.lists.len() as int,
        nf,
    ) by {
        assert(st1.frames[i] == st.frames[i]);
    }
    assert forall|i: int| 0 <= i < st1.lists.len() implies list_vals_wf(
        #[trigger] st1.lists[i],
        st1.lists.len() as int,
        nf,
    ) by {
        if i != h {
            assert(st1.lists[i] == st.lists[i]);
        }
    }
}

/// Changing only the iteration counts (same length) keeps the state well formed.
pub proof fn lemma_locks_update_wf(st: SState, locks: Seq<u64>, nf: int)
    requires
        st_wf(st, nf),
        locks.len() == st.locks.len(),
    ensures
        st_wf(SState { frames: st.frames, lists: st.lists, locks }, nf),
{
    let st1 = SState { frames: st.frames, lists: st.lists, locks };
    assert forall|i: int| 0 <= i < st1.frames.len() implies frame_vals_wf(
        #[trigger] st1.frames[i],
        st1.lists.len() as int,
        nf,
    ) by {
        assert(st1.frames[i] == st.frames[i]);
    }
}

/// Law: a signalled return makes any single instruction a no-op — in a
/// returning state, evaluation does no work and yields no value.
pub proof fn lemma_returning_ins_is_noop(p: ProgV, ins: Instruction, st: SState, fuel: nat)
    requires
        st_returning(st),
        fuel >= 1,
    ensures
        eval_ins(p, ins, st, fuel) == EOut::Done(st, None::<ValV>),
{
}

/// Law: a signalled return makes a whole statement sequence a no-op — with
/// enough budget left, running any sequence in a returning state leaves the
/// state exactly as it was.  This is what keeps the remaining iterations of
/// a loop from doing work after a `return`, without ending the loop's own
/// schedule early.
pub proof fn lemma_returning_stmts_are_noop(
    p: ProgV,
    stmts: Seq<Instruction>,
    st: SState,
    fuel: nat,
)
    requires
        st_returning(st),
        fuel > stmts.len(),
    ensures
        eval_stmts(p, stmts, st, fuel) == BOut::Done(st),
    decreases stmts.len(),
{
    if stmts.len() > 0 {
        assert(eval_ins(p, stmts[0], st, (fuel - 1) as nat) == EOut::Done(st, None::<ValV>));
        lemma_returning_stmts_are_noop(p, stmts.drop_first(), st, (fuel - 1) as nat);
    }
}

} // verus!
