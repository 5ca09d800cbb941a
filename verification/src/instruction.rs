//! The instruction tree: the typed, immutable representation of program
//! nodes that the front end hands to the evaluator.
//!
//! The executable evaluator itself lives here as [`Instruction::run`]; its
//! meaning is fixed by the spec-level interpreter in [`crate::semantics`],
//! and the contract of `run` states that the two agree.

use vstd::prelude::*;
use vstd::string::StringExecFns;

use crate::error::EvalError;
use crate::program::{Interp, Program};
use crate::semantics::{
    each_iter, eval_args, eval_call, eval_ins, eval_stmts, for_iter, lemma_alloc_wf,
    lemma_bind_wf, lemma_chain_lookup_wf, lemma_locks_update_wf, lemma_pop_frame_wf,
    lemma_push_frame_wf, lemma_take_ret_wf, lemma_val_wf_mono, list_vals_wf, opt_view, ret_key,
    st_alloc, st_bind, st_pop_frame, st_returning, st_take_ret, st_top, st_unlock, st_wf,
    step_arith, step_array, step_assign, step_call, step_call_named, step_compare, step_each,
    step_float_cast, step_for, step_if, step_integer_cast, step_logic, step_not, step_return,
    step_string_cast, step_while, AOut, BOut, CmpOp, EOut, NaryOp, SState,
};
use crate::stl::{call_native, Host};
use crate::value::{val_wf, ValV, Value};

verus! {

/// One node of a program.  Numeric and text literals carry their source
/// text and are parsed when evaluated.
#[derive(Debug)]
pub enum Instruction {
    /// Read a variable.
    Value(String),
    /// Evaluate the child and bind the result to a name in the current scope.
    Assign(String, Box<Instruction>),
    /// Integer literal, as source text.
    Integer(String),
    /// Coerce the child's result to an integer.
    IntegerCast(Box<Instruction>),
    /// Real literal, as source text.
    Float(String),
    /// Coerce the child's result to a real.
    FloatCast(Box<Instruction>),
    /// Text literal.
    String(String),
    /// Coerce the child's result to a text.
    StringCast(Box<Instruction>),
    /// Evaluate the children and build a fresh list of their results.
    Array(Vec<Instruction>),
    /// N-ary addition (or, with texts, concatenation).
    Add(Vec<Instruction>),
    /// First operand minus the sum of the rest.
    Subtract(Vec<Instruction>),
    /// N-ary product.
    Multiply(Vec<Instruction>),
    /// First operand times the reciprocals of the rest.
    Divide(Vec<Instruction>),
    /// 1 when every operand is truthy, else 0.
    And(Vec<Instruction>),
    /// 1 when any operand is truthy, else 0.
    Or(Vec<Instruction>),
    /// 1 when the operand is falsy, else 0.
    Not(Box<Instruction>),
    /// 1 when the operands compare equal, else 0.
    Equal(Box<Instruction>, Box<Instruction>),
    /// 1 when the first operand compares greater, else 0.
    Greater(Box<Instruction>, Box<Instruction>),
    /// 1 when the first operand compares lower, else 0.
    Lower(Box<Instruction>, Box<Instruction>),
    /// Call the function the first child evaluates to.
    Call(Box<Instruction>, Vec<Instruction>),
    /// Call a function looked up by name.
    CallNamed(String, Vec<Instruction>),
    /// Signal a return with the child's value.
    Return(Box<Instruction>),
    /// Conditional without an else branch.
    If(Box<Instruction>, Vec<Instruction>),
    /// Conditional with an else branch.
    IfElse(Box<Instruction>, Vec<Instruction>, Vec<Instruction>),
    /// Bounded numeric loop over the half-open range `[from, to)`.
    For {
        variable: String,
        from: Box<Instruction>,
        to: Box<Instruction>,
        step: Box<Instruction>,
        body: Vec<Instruction>,
    },
    /// Loop over a snapshot of a list's contents.
    Each(String, Box<Instruction>, Vec<Instruction>),
    /// Pre-condition loop.
    While(Box<Instruction>, Vec<Instruction>),
}

/// The reserved name under which a signalled return is bound.
fn ret_key_string() -> (r: String)
    ensures
        r@ == ret_key(),
{
    String::from_str("__return")
}

/// How the collection loop's outcome is wrapped by the construct: the
/// iteration mark is released on whichever state the schedule left.
spec fn each_wrap(itotal: BOut, total: EOut, h: int) -> bool {
    match itotal {
        BOut::Done(st3) => total == EOut::Done(st_unlock(st3, h), None),
        BOut::Fail(st3, e) => total == EOut::Fail(st_unlock(st3, h), e),
        BOut::Host => total is Host,
    }
}

/// Prepend already-collected values to an argument-list outcome.
pub open spec fn aout_prepend(pre: Seq<ValV>, o: AOut) -> AOut {
    match o {
        AOut::Done(st, Some(rest)) => AOut::Done(st, Some(pre + rest)),
        other => other,
    }
}

proof fn lemma_aout_prepend_empty(o: AOut)
    ensures
        aout_prepend(Seq::empty(), o) == o,
{
    match o {
        AOut::Done(st, Some(rest)) => {
            assert(Seq::<ValV>::empty() + rest =~= rest);
        },
        _ => {},
    }
}

proof fn lemma_aout_prepend_assoc(pre1: Seq<ValV>, pre2: Seq<ValV>, o: AOut)
    ensures
        aout_prepend(pre1, aout_prepend(pre2, o)) == aout_prepend(pre1 + pre2, o),
{
    match o {
        AOut::Done(st, Some(rest)) => {
            assert(pre1 + (pre2 + rest) =~= (pre1 + pre2) + rest);
        },
        _ => {},
    }
}

/// Run a statement sequence in order, dropping the produced values.
pub fn run_stmts<H: Host>(
    stmts: &Vec<Instruction>,
    prog: &Program,
    it: &mut Interp,
    host: &mut H,
    fuel: u64,
) -> (r: Result<(), EvalError>)
    requires
        old(it).wf(prog),
    ensures
        final(it).wf(prog),
        final(it)@.lists.len() >= old(it)@.lists.len(),
        final(it)@.frames.len() == old(it)@.frames.len(),
        match eval_stmts(prog@, stmts@, old(it)@, fuel as nat) {
            BOut::Done(st1) => final(it)@ == st1 && r is Ok,
            BOut::Fail(st1, e) => final(it)@ == st1 && (r matches Err(err) && err@ == e),
            BOut::Host => true,
        },
    decreases fuel, 1int, 0int,
{
    let ghost total = eval_stmts(prog@, stmts@, old(it)@, fuel as nat);
    proof {
        assert(stmts@.skip(0) =~= stmts@);
    }
    let mut k: usize = 0;
    let mut fl: u64 = fuel;
    while k < stmts.len()
        invariant
            old(it).wf(prog),
            it.wf(prog),
            k <= stmts.len(),
            fl <= fuel,
            it@.lists.len() >= old(it)@.lists.len(),
            it@.frames.len() == old(it)@.frames.len(),
            total == eval_stmts(prog@, stmts@, old(it)@, fuel as nat),
            total is Host || eval_stmts(prog@, stmts@.skip(k as int), it@, fl as nat)
                == total,
        decreases stmts.len() - k,
    {
        proof {
            assert(stmts@.skip(k as int).len() == stmts@.len() - k);
            assert(stmts@.skip(k as int)[0] == stmts@[k as int]);
            assert(stmts@.skip(k as int).drop_first() =~= stmts@.skip(k as int + 1));
        }
        if fl == 0 {
            return Err(EvalError::StepLimit);
        }
        let r0 = stmts[k].run(prog, it, host, fl - 1);
        match r0 {
            Ok(_) => {},
            Err(e) => {
                return Err(e);
            },
        }
        k = k + 1;
        fl = fl - 1;
    }
    proof {
        assert(stmts@.skip(k as int).len() == 0);
    }
    Ok(())
}

/// Evaluate an argument list in order, collecting the values; the first
/// child that yields no value stops the evaluation of the rest.
pub fn run_args<H: Host>(
    args: &Vec<Instruction>,
    prog: &Program,
    it: &mut Interp,
    host: &mut H,
    fuel: u64,
) -> (r: Result<Option<Vec<Value>>, EvalError>)
    requires
        old(it).wf(prog),
    ensures
        final(it).wf(prog),
        final(it)@.lists.len() >= old(it)@.lists.len(),
        final(it)@.frames.len() == old(it)@.frames.len(),
        r matches Ok(Some(vs)) ==> list_vals_wf(
            vs.deep_view(),
            final(it)@.lists.len() as int,
            prog.funcs@.len() as int,
        ),
        match eval_args(prog@, args@, old(it)@, fuel as nat) {
            AOut::Done(st1, Some(svs)) => final(it)@ == st1 && (r matches Ok(Some(vs))
                && vs.deep_view() == svs),
            AOut::Done(st1, None) => final(it)@ == st1 && r matches Ok(None),
            AOut::Fail(st1, e) => final(it)@ == st1 && (r matches Err(err) && err@ == e),
            AOut::Host => true,
        },
    decreases fuel, 1int, 1int,
{
    let ghost nf = prog.funcs@.len() as int;
    let ghost total = eval_args(prog@, args@, old(it)@, fuel as nat);
    proof {
        assert(args@.skip(0) =~= args@);
        lemma_aout_prepend_empty(total);
    }
    let mut acc: Vec<Value> = Vec::new();
    let mut k: usize = 0;
    let mut fl: u64 = fuel;
    while k < args.len()
        invariant
            old(it).wf(prog),
            it.wf(prog),
            k <= args.len(),
            fl <= fuel,
            nf == prog.funcs@.len() as int,
            it@.lists.len() >= old(it)@.lists.len(),
            it@.frames.len() == old(it)@.frames.len(),
            list_vals_wf(acc.deep_view(), it@.lists.len() as int, nf),
            total == eval_args(prog@, args@, old(it)@, fuel as nat),
            total is Host || aout_prepend(
                acc.deep_view(),
                eval_args(prog@, args@.skip(k as int), it@, fl as nat),
            ) == total,
        decreases args.len() - k,
    {
        proof {
            assert(args@.skip(k as int).len() == args@.len() - k);
            assert(args@.skip(k as int)[0] == args@[k as int]);
            assert(args@.skip(k as int).drop_first() =~= args@.skip(k as int + 1));
        }
        if fl == 0 {
            return Err(EvalError::StepLimit);
        }
        let ghost pre_state = it@;
        let ghost pre_acc = acc.deep_view();
        let r0 = args[k].run(prog, it, host, fl - 1);
        proof {
            assert forall|j: int| 0 <= j < pre_acc.len() implies val_wf(
                #[trigger] pre_acc[j],
                it@.lists.len() as int,
                nf,
            ) by {
                lemma_val_wf_mono(pre_acc[j], pre_state.lists.len() as int,
                    it@.lists.len() as int, nf);
            }
        }
        match r0 {
            Ok(Some(v)) => {
                proof {
                    let sub = eval_args(prog@, args@.skip(k as int + 1), it@, (fl - 1) as nat);
                    lemma_aout_prepend_assoc(pre_acc, seq![v@], sub);
                    assert(pre_acc.push(v@) =~= pre_acc + seq![v@]);
                }
                acc.push(v);
                proof {
                    assert(acc.deep_view() =~= pre_acc + seq![v@]);
                }
            },
            Ok(None) => {
                return Ok(None);
            },
            Err(e) => {
                return Err(e);
            },
        }
        k = k + 1;
        fl = fl - 1;
    }
    proof {
        assert(args@.skip(k as int).len() == 0);
        assert(acc.deep_view() + Seq::<ValV>::empty() =~= acc.deep_view());
    }
    Ok(Some(acc))
}

/// Call the user function at table index `idx`.
pub fn call_closure<H: Host>(
    idx: usize,
    vals: Vec<Value>,
    parent: Option<usize>,
    prog: &Program,
    it: &mut Interp,
    host: &mut H,
    fuel: u64,
) -> (r: Result<Option<Value>, EvalError>)
    requires
        old(it).wf(prog),
        idx < prog.funcs@.len(),
        list_vals_wf(vals.deep_view(), old(it)@.lists.len() as int, prog.funcs@.len() as int),
        parent matches Some(pi) ==> pi < old(it)@.frames.len(),
    ensures
        final(it).wf(prog),
        final(it)@.lists.len() >= old(it)@.lists.len(),
        final(it)@.frames.len() == old(it)@.frames.len(),
        r matches Ok(Some(v)) ==> val_wf(
            v@,
            final(it)@.lists.len() as int,
            prog.funcs@.len() as int,
        ),
        match eval_call(prog@, idx as int, vals.deep_view(), parent, old(it)@, fuel as nat) {
            EOut::Done(st1, v) => final(it)@ == st1 && (r matches Ok(ov) && opt_view(ov) == v),
            EOut::Fail(st1, e) => final(it)@ == st1 && (r matches Err(err) && err@ == e),
            EOut::Host => true,
        },
    decreases fuel, 2int, 0int,
{
    let ghost nf = prog.funcs@.len() as int;
    let ghost dv = vals.deep_view();
    let nargs = prog.funcs[idx].1.args.len();
    if vals.len() != nargs {
        return Err(EvalError::ArityMismatch(nargs, vals.len()));
    }
    it.scopes.push(parent);
    let ghost base = old(it)@;
    let mut j: usize = 0;
    while j < nargs
        invariant
            j <= nargs,
            nf == prog.funcs@.len() as int,
            idx < prog.funcs@.len(),
            nargs == prog.funcs@[idx as int].1.args@.len(),
            vals@.len() == nargs,
            dv == vals.deep_view(),
            it.scopes.wf(),
            it.heap == old(it).heap,
            it@.lists == base.lists,
            it@.locks == base.locks,
            it@.frames =~= base.frames.push(
                crate::context::CtxV {
                    map: crate::semantics::bind_upto(
                        prog.funcs@[idx as int].1.args@,
                        dv,
                        j as int,
                    ),
                    parent,
                },
            ),
        decreases nargs - j,
    {
        let name = prog.funcs[idx].1.args[j].clone();
        it.scopes.bind(name, vals[j].dup());
        proof {
            assert(it@.frames =~= base.frames.push(
                crate::context::CtxV {
                    map: crate::semantics::bind_upto(
                        prog.funcs@[idx as int].1.args@,
                        dv,
                        j as int + 1,
                    ),
                    parent,
                },
            ));
        }
        j = j + 1;
    }
    let ghost entry = SState {
        frames: base.frames.push(
            crate::context::CtxV {
                map: crate::semantics::bind_upto(prog.funcs@[idx as int].1.args@, dv, nargs as int),
                parent,
            },
        ),
        lists: base.lists,
        locks: base.locks,
    };
    proof {
        assert(it@ == entry) by {
            assert(it@.frames =~= entry.frames);
        };
        lemma_bind_upto_wf(prog.funcs@[idx as int].1.args@, dv, nargs as int, base.lists.len() as int, nf);
        lemma_push_frame_wf(
            base,
            crate::semantics::bind_upto(prog.funcs@[idx as int].1.args@, dv, nargs as int),
            parent,
            nf,
        );
    }
    let body_r = run_stmts(&prog.funcs[idx].1.ins, prog, it, host, fuel);
    match body_r {
        Ok(_) => {
            let ghost st2 = it@;
            proof {
                lemma_take_ret_wf(st2, nf);
            }
            let rk = ret_key_string();
            let rv = it.scopes.take_top(&rk);
            proof {
                assert(it@ == st_take_ret(st2).0) by {
                    assert(it@.frames =~= st_take_ret(st2).0.frames);
                };
                lemma_pop_frame_wf(it@, nf);
            }
            it.scopes.pop();
            proof {
                assert(it@ == st_pop_frame(st_take_ret(st2).0)) by {
                    assert(it@.frames =~= st_pop_frame(st_take_ret(st2).0).frames);
                };
            }
            Ok(rv)
        },
        Err(e) => {
            proof {
                lemma_pop_frame_wf(it@, nf);
            }
            it.scopes.pop();
            Err(e)
        },
    }
}

proof fn lemma_bind_upto_wf(names: Seq<String>, vs: Seq<ValV>, k: int, nl: int, nf: int)
    requires
        k <= vs.len(),
        list_vals_wf(vs, nl, nf),
    ensures
        forall|key: Seq<char>| #[trigger] crate::semantics::bind_upto(names, vs, k).dom().contains(
            key,
        ) ==> val_wf(crate::semantics::bind_upto(names, vs, k)[key], nl, nf),
    decreases k,
{
    if k > 0 {
        lemma_bind_upto_wf(names, vs, k - 1, nl, nf);
        let m = crate::semantics::bind_upto(names, vs, k);
        let prev = crate::semantics::bind_upto(names, vs, k - 1);
        assert forall|key: Seq<char>| #[trigger] m.dom().contains(key) implies val_wf(
            m[key],
            nl,
            nf,
        ) by {
            if key != names[k - 1]@ {
                assert(m[key] == prev[key]);
                assert(prev.dom().contains(key));
            } else {
                assert(val_wf(vs[k - 1], nl, nf));
            }
        }
    }
}

impl Instruction {
    /// Evaluate this instruction against the machine state.  Wherever the
    /// spec-level interpreter yields a definite outcome, this returns
    /// exactly that outcome and leaves exactly that state; where the run
    /// asks the host for data, the state is still well formed, the scope
    /// depth is unchanged and the list store has only grown.
    pub fn run<H: Host>(
        &self,
        prog: &Program,
        it: &mut Interp,
        host: &mut H,
        fuel: u64,
    ) -> (r: Result<Option<Value>, EvalError>)
        requires
            old(it).wf(prog),
        ensures
            final(it).wf(prog),
            final(it)@.lists.len() >= old(it)@.lists.len(),
            final(it)@.frames.len() == old(it)@.frames.len(),
            r matches Ok(Some(v)) ==> val_wf(
                v@,
                final(it)@.lists.len() as int,
                prog.funcs@.len() as int,
            ),
            match eval_ins(prog@, *self, old(it)@, fuel as nat) {
                EOut::Done(st1, v) => final(it)@ == st1 && (r matches Ok(ov) && opt_view(ov)
                    == v),
                EOut::Fail(st1, e) => final(it)@ == st1 && (r matches Err(err) && err@ == e),
                EOut::Host => true,
            },
        decreases fuel, 0int, 0int,
    {
        let ghost nf = prog.funcs@.len() as int;
        if fuel == 0 {
            return Err(EvalError::StepLimit);
        }
        let rk = ret_key_string();
        if it.scopes.lookup_top(&rk).is_some() {
            return Ok(None);
        }
        proof {
            assert(!st_returning(it@));
        }
        let f = fuel - 1;
        match self {
            Instruction::Value(key) => {
                proof {
                    lemma_chain_lookup_wf(it@, st_top(it@), key@, nf);
                }
                match it.scopes.lookup_top(key) {
                    Some(v) => Ok(Some(v)),
                    None => Err(EvalError::UnknownVariable(key.clone())),
                }
            },
            Instruction::Assign(key, child) => run_assign(key, child, prog, it, host, f),
            Instruction::Integer(lit) => match crate::text::parse_int(lit) {
                Some(i) => Ok(Some(Value::Integer(i))),
                None => Err(EvalError::TypeError("integer", "invalid literal")),
            },
            Instruction::IntegerCast(child) => run_integer_cast(child, prog, it, host, f),
            Instruction::Float(lit) => match crate::dbl::parse_real_bits(lit) {
                Some(b) => Ok(Some(Value::Real(b))),
                None => Err(EvalError::TypeError("float", "invalid literal")),
            },
            Instruction::FloatCast(child) => run_float_cast(child, prog, it, host, f),
            Instruction::String(lit) => Ok(Some(Value::Text(lit.clone()))),
            Instruction::StringCast(child) => run_string_cast(child, prog, it, host, f),
            Instruction::Array(args) => run_array(args, prog, it, host, f),
            Instruction::Add(args) => run_arith(NaryOp::Add, args, prog, it, host, f),
            Instruction::Subtract(args) => run_arith(NaryOp::Subtract, args, prog, it, host, f),
            Instruction::Multiply(args) => run_arith(NaryOp::Multiply, args, prog, it, host, f),
            Instruction::Divide(args) => run_arith(NaryOp::Divide, args, prog, it, host, f),
            Instruction::And(args) => run_logic(true, args, prog, it, host, f),
            Instruction::Or(args) => run_logic(false, args, prog, it, host, f),
            Instruction::Not(child) => run_not(child, prog, it, host, f),
            Instruction::Equal(a, b) => run_compare(CmpOp::Equal, a, b, prog, it, host, f),
            Instruction::Greater(a, b) => run_compare(CmpOp::Greater, a, b, prog, it, host, f),
            Instruction::Lower(a, b) => run_compare(CmpOp::Lower, a, b, prog, it, host, f),
            Instruction::Call(fct, args) => run_call(fct, args, prog, it, host, f),
            Instruction::CallNamed(name, args) => run_call_named(name, args, prog, it, host, f),
            Instruction::Return(child) => run_return(child, prog, it, host, f),
            Instruction::If(cond, then) => run_if(cond, then, None, prog, it, host, f),
            Instruction::IfElse(cond, then, els) => run_if(
                cond,
                then,
                Some(els),
                prog,
                it,
                host,
                f,
            ),
            Instruction::For { variable, from, to, step, body } => run_for(
                variable,
                from,
                to,
                step,
                body,
                prog,
                it,
                host,
                f,
            ),
            Instruction::Each(variable, arr, body) => run_each(
                variable,
                arr,
                body,
                prog,
                it,
                host,
                f,
            ),
            Instruction::While(cond, body) => run_while(cond, body, prog, it, host, f),
        }
    }
}

/// Call a callable value with already-evaluated arguments: the calling
/// protocol of the engine, usable by a host that drives calls itself.  A
/// user function gets a fresh frame whose parent is the caller's current
/// scope; a native function runs with no new frame.
pub fn call_function<H: Host>(
    callee: &Value,
    vals: Vec<Value>,
    prog: &Program,
    it: &mut Interp,
    host: &mut H,
    fuel: u64,
) -> (r: Result<Option<Value>, EvalError>)
    requires
        old(it).wf(prog),
        val_wf(callee@, old(it)@.lists.len() as int, prog.funcs@.len() as int),
        list_vals_wf(vals.deep_view(), old(it)@.lists.len() as int, prog.funcs@.len() as int),
    ensures
        final(it).wf(prog),
        final(it)@.lists.len() >= old(it)@.lists.len(),
        final(it)@.frames.len() == old(it)@.frames.len(),
        r matches Ok(Some(v)) ==> val_wf(
            v@,
            final(it)@.lists.len() as int,
            prog.funcs@.len() as int,
        ),
        match crate::semantics::call_value(prog@, callee@, vals.deep_view(), old(it)@,
            fuel as nat) {
            EOut::Done(st1, v) => final(it)@ == st1 && (r matches Ok(ov) && opt_view(ov) == v),
            EOut::Fail(st1, e) => final(it)@ == st1 && (r matches Err(err) && err@ == e),
            EOut::Host => true,
        },
    decreases fuel, 3int, 0int,
{
    match callee {
        Value::Closure(idx) => {
            let parent = it.scopes.depth() - 1;
            call_closure(*idx, vals, Some(parent), prog, it, host, fuel)
        },
        Value::Native(k) => call_native(*k, vals, prog, it, host),
        _ => Err(EvalError::TypeError("call", "invalid function")),
    }
}

fn run_assign<H: Host>(
    key: &String,
    child: &Instruction,
    prog: &Program,
    it: &mut Interp,
    host: &mut H,
    fuel: u64,
) -> (r: Result<Option<Value>, EvalError>)
    requires
        old(it).wf(prog),
    ensures
        final(it).wf(prog),
        final(it)@.lists.len() >= old(it)@.lists.len(),
        final(it)@.frames.len() == old(it)@.frames.len(),
        r matches Ok(Some(v)) ==> val_wf(
            v@,
            final(it)@.lists.len() as int,
            prog.funcs@.len() as int,
        ),
        match step_assign(prog@, *key, *child, old(it)@, fuel as nat) {
            EOut::Done(st1, v) => final(it)@ == st1 && (r matches Ok(ov) && opt_view(ov) == v),
            EOut::Fail(st1, e) => final(it)@ == st1 && (r matches Err(err) && err@ == e),
            EOut::Host => true,
        },
    decreases fuel, 3int, 0int,
{
    let ghost nf = prog.funcs@.len() as int;
    match child.run(prog, it, host, fuel) {
        Ok(Some(v)) => {
            let ghost st1 = it@;
            proof {
                lemma_bind_wf(st1, key@, v@, nf);
            }
            it.scopes.bind(key.clone(), v);
            proof {
                assert(it@ == st_bind(st1, key@, v@)) by {
                    assert(it@.frames =~= st_bind(st1, key@, v@).frames);
                };
            }
            Ok(None)
        },
        Ok(None) => Err(EvalError::TypeError("assign", "no value")),
        Err(e) => Err(e),
    }
}

fn run_return<H: Host>(
    child: &Instruction,
    prog: &Program,
    it: &mut Interp,
    host: &mut H,
    fuel: u64,
) -> (r: Result<Option<Value>, EvalError>)
    requires
        old(it).wf(prog),
    ensures
        final(it).wf(prog),
        final(it)@.lists.len() >= old(it)@.lists.len(),
        final(it)@.frames.len() == old(it)@.frames.len(),
        r matches Ok(Some(v)) ==> val_wf(
            v@,
            final(it)@.lists.len() as int,
            prog.funcs@.len() as int,
        ),
        match crate::semantics::step_return(prog@, *child, old(it)@, fuel as nat) {
            EOut::Done(st1, v) => final(it)@ == st1 && (r matches Ok(ov) && opt_view(ov) == v),
            EOut::Fail(st1, e) => final(it)@ == st1 && (r matches Err(err) && err@ == e),
            EOut::Host => true,
        },
    decreases fuel, 3int, 0int,
{
    let ghost nf = prog.funcs@.len() as int;
    match child.run(prog, it, host, fuel) {
        Ok(Some(v)) => {
            let ghost st1 = it@;
            proof {
                lemma_bind_wf(st1, ret_key(), v@, nf);
            }
            it.scopes.bind(ret_key_string(), v);
            proof {
                assert(it@ == st_bind(st1, ret_key(), v@)) by {
                    assert(it@.frames =~= st_bind(st1, ret_key(), v@).frames);
                };
            }
            Ok(None)
        },
        Ok(None) => Err(EvalError::TypeError("return", "no value")),
        Err(e) => Err(e),
    }
}

fn run_integer_cast<H: Host>(
    child: &Instruction,
    prog: &Program,
    it: &mut Interp,
    host: &mut H,
    fuel: u64,
) -> (r: Result<Option<Value>, EvalError>)
    requires
        old(it).wf(prog),
    ensures
        final(it).wf(prog),
        final(it)@.lists.len() >= old(it)@.lists.len(),
        final(it)@.frames.len() == old(it)@.frames.len(),
        r matches Ok(Some(v)) ==> val_wf(
            v@,
            final(it)@.lists.len() as int,
            prog.funcs@.len() as int,
        ),
        match step_integer_cast(prog@, *child, old(it)@, fuel as nat) {
            EOut::Done(st1, v) => final(it)@ == st1 && (r matches Ok(ov) && opt_view(ov) == v),
            EOut::Fail(st1, e) => final(it)@ == st1 && (r matches Err(err) && err@ == e),
            EOut::Host => true,
        },
    decreases fuel, 3int, 0int,
{
    match child.run(prog, it, host, fuel) {
        Ok(Some(v)) => match v {
            Value::Integer(i) => Ok(Some(Value::Integer(i))),
            Value::Real(b) => Ok(Some(Value::Integer(crate::dbl::real_trunc_bits(b)))),
            Value::Text(s) => match crate::text::parse_int(&s) {
                Some(i) => Ok(Some(Value::Integer(i))),
                None => Err(EvalError::TypeError("integer", "invalid literal")),
            },
            _ => Err(EvalError::TypeError("integer", "cannot cast")),
        },
        Ok(None) => Err(EvalError::TypeError("integer", "no value")),
        Err(e) => Err(e),
    }
}

fn run_float_cast<H: Host>(
    child: &Instruction,
    prog: &Program,
    it: &mut Interp,
    host: &mut H,
    fuel: u64,
) -> (r: Result<Option<Value>, EvalError>)
    requires
        old(it).wf(prog),
    ensures
        final(it).wf(prog),
        final(it)@.lists.len() >= old(it)@.lists.len(),
        final(it)@.frames.len() == old(it)@.frames.len(),
        r matches Ok(Some(v)) ==> val_wf(
            v@,
            final(it)@.lists.len() as int,
            prog.funcs@.len() as int,
        ),
        match step_float_cast(prog@, *child, old(it)@, fuel as nat) {
            EOut::Done(st1, v) => final(it)@ == st1 && (r matches Ok(ov) && opt_view(ov) == v),
            EOut::Fail(st1, e) => final(it)@ == st1 && (r matches Err(err) && err@ == e),
            EOut::Host => true,
        },
    decreases fuel, 3int, 0int,
{
    match child.run(prog, it, host, fuel) {
        Ok(Some(v)) => match v {
            Value::Integer(i) => Ok(Some(Value::Real(crate::dbl::int_to_real_bits(i)))),
            Value::Real(b) => Ok(Some(Value::Real(b))),
            Value::Text(s) => match crate::dbl::parse_real_bits(&s) {
                Some(b) => Ok(Some(Value::Real(b))),
                None => Err(EvalError::TypeError("float", "invalid literal")),
            },
            _ => Err(EvalError::TypeError("float", "cannot cast")),
        },
        Ok(None) => Err(EvalError::TypeError("float", "no value")),
        Err(e) => Err(e),
    }
}

fn run_string_cast<H: Host>(
    child: &Instruction,
    prog: &Program,
    it: &mut Interp,
    host: &mut H,
    fuel: u64,
) -> (r: Result<Option<Value>, EvalError>)
    requires
        old(it).wf(prog),
    ensures
        final(it).wf(prog),
        final(it)@.lists.len() >= old(it)@.lists.len(),
        final(it)@.frames.len() == old(it)@.frames.len(),
        r matches Ok(Some(v)) ==> val_wf(
            v@,
            final(it)@.lists.len() as int,
            prog.funcs@.len() as int,
        ),
        match step_string_cast(prog@, *child, old(it)@, fuel as nat) {
            EOut::Done(st1, v) => final(it)@ == st1 && (r matches Ok(ov) && opt_view(ov) == v),
            EOut::Fail(st1, e) => final(it)@ == st1 && (r matches Err(err) && err@ == e),
            EOut::Host => true,
        },
    decreases fuel, 3int, 0int,
{
    match child.run(prog, it, host, fuel) {
        Ok(Some(v)) => match v {
            Value::Integer(i) => Ok(Some(Value::Text(crate::text::int_to_text(i)))),
            Value::Real(b) => Ok(Some(Value::Text(crate::dbl::real_text_bits(b)))),
            Value::Text(s) => Ok(Some(Value::Text(s))),
            _ => Err(EvalError::TypeError("string", "cannot cast")),
        },
        Ok(None) => Err(EvalError::TypeError("string", "no value")),
        Err(e) => Err(e),
    }
}

fn run_array<H: Host>(
    args: &Vec<Instruction>,
    prog: &Program,
    it: &mut Interp,
    host: &mut H,
    fuel: u64,
) -> (r: Result<Option<Value>, EvalError>)
    requires
        old(it).wf(prog),
    ensures
        final(it).wf(prog),
        final(it)@.lists.len() >= old(it)@.lists.len(),
        final(it)@.frames.len() == old(it)@.frames.len(),
        r matches Ok(Some(v)) ==> val_wf(
            v@,
            final(it)@.lists.len() as int,
            prog.funcs@.len() as int,
        ),
        match step_array(prog@, args@, old(it)@, fuel as nat) {
            EOut::Done(st1, v) => final(it)@ == st1 && (r matches Ok(ov) && opt_view(ov) == v),
            EOut::Fail(st1, e) => final(it)@ == st1 && (r matches Err(err) && err@ == e),
            EOut::Host => true,
        },
    decreases fuel, 3int, 0int,
{
    let ghost nf = prog.funcs@.len() as int;
    match run_args(args, prog, it, host, fuel) {
        Ok(Some(vals)) => {
            let ghost st1 = it@;
            proof {
                lemma_alloc_wf(st1, vals.deep_view(), nf);
            }
            let h = it.heap.alloc_list(vals);
            proof {
                assert(it@ == st_alloc(st1, vals.deep_view())) by {
                    assert(it@.frames =~= st_alloc(st1, vals.deep_view()).frames);
                };
            }
            Ok(Some(Value::List(h)))
        },
        Ok(None) => Err(EvalError::TypeError("array", "invalid child values")),
        Err(e) => Err(e),
    }
}

fn run_arith<H: Host>(
    op: NaryOp,
    args: &Vec<Instruction>,
    prog: &Program,
    it: &mut Interp,
    host: &mut H,
    fuel: u64,
) -> (r: Result<Option<Value>, EvalError>)
    requires
        old(it).wf(prog),
    ensures
        final(it).wf(prog),
        final(it)@.lists.len() >= old(it)@.lists.len(),
        final(it)@.frames.len() == old(it)@.frames.len(),
        r matches Ok(Some(v)) ==> val_wf(
            v@,
            final(it)@.lists.len() as int,
            prog.funcs@.len() as int,
        ),
        match step_arith(prog@, op, args@, old(it)@, fuel as nat) {
            EOut::Done(st1, v) => final(it)@ == st1 && (r matches Ok(ov) && opt_view(ov) == v),
            EOut::Fail(st1, e) => final(it)@ == st1 && (r matches Err(err) && err@ == e),
            EOut::Host => true,
        },
    decreases fuel, 3int, 0int,
{
    match run_args(args, prog, it, host, fuel) {
        Ok(Some(vals)) => {
            let computed = match op {
                NaryOp::Add => crate::arith::add(&vals),
                NaryOp::Subtract => crate::arith::subtract(&vals),
                NaryOp::Multiply => crate::arith::multiply(&vals),
                NaryOp::Divide => crate::arith::divide(&vals),
            };
            match computed {
                Ok(v) => Ok(Some(v)),
                Err(e) => Err(e),
            }
        },
        Ok(None) => Err(EvalError::TypeError("operands", "invalid child values")),
        Err(e) => Err(e),
    }
}

fn run_logic<H: Host>(
    conjunction: bool,
    args: &Vec<Instruction>,
    prog: &Program,
    it: &mut Interp,
    host: &mut H,
    fuel: u64,
) -> (r: Result<Option<Value>, EvalError>)
    requires
        old(it).wf(prog),
    ensures
        final(it).wf(prog),
        final(it)@.lists.len() >= old(it)@.lists.len(),
        final(it)@.frames.len() == old(it)@.frames.len(),
        r matches Ok(Some(v)) ==> val_wf(
            v@,
            final(it)@.lists.len() as int,
            prog.funcs@.len() as int,
        ),
        match step_logic(prog@, conjunction, args@, old(it)@, fuel as nat) {
            EOut::Done(st1, v) => final(it)@ == st1 && (r matches Ok(ov) && opt_view(ov) == v),
            EOut::Fail(st1, e) => final(it)@ == st1 && (r matches Err(err) && err@ == e),
            EOut::Host => true,
        },
    decreases fuel, 3int, 0int,
{
    match run_args(args, prog, it, host, fuel) {
        Ok(Some(vals)) => {
            let v = if conjunction {
                crate::arith::and(&vals, &it.heap)
            } else {
                crate::arith::or(&vals, &it.heap)
            };
            Ok(Some(v))
        },
        Ok(None) => Err(EvalError::TypeError("operands", "invalid child values")),
        Err(e) => Err(e),
    }
}

fn run_not<H: Host>(
    child: &Instruction,
    prog: &Program,
    it: &mut Interp,
    host: &mut H,
    fuel: u64,
) -> (r: Result<Option<Value>, EvalError>)
    requires
        old(it).wf(prog),
    ensures
        final(it).wf(prog),
        final(it)@.lists.len() >= old(it)@.lists.len(),
        final(it)@.frames.len() == old(it)@.frames.len(),
        r matches Ok(Some(v)) ==> val_wf(
            v@,
            final(it)@.lists.len() as int,
            prog.funcs@.len() as int,
        ),
        match step_not(prog@, *child, old(it)@, fuel as nat) {
            EOut::Done(st1, v) => final(it)@ == st1 && (r matches Ok(ov) && opt_view(ov) == v),
            EOut::Fail(st1, e) => final(it)@ == st1 && (r matches Err(err) && err@ == e),
            EOut::Host => true,
        },
    decreases fuel, 3int, 0int,
{
    match child.run(prog, it, host, fuel) {
        Ok(Some(v)) => {
            let t = v.to_bool(&it.heap);
            Ok(
                Some(
                    Value::Integer(
                        if t {
                            0
                        } else {
                            1
                        },
                    ),
                ),
            )
        },
        Ok(None) => Err(EvalError::TypeError("not", "no value")),
        Err(e) => Err(e),
    }
}

fn run_compare<H: Host>(
    op: CmpOp,
    a: &Instruction,
    b: &Instruction,
    prog: &Program,
    it: &mut Interp,
    host: &mut H,
    fuel: u64,
) -> (r: Result<Option<Value>, EvalError>)
    requires
        old(it).wf(prog),
    ensures
        final(it).wf(prog),
        final(it)@.lists.len() >= old(it)@.lists.len(),
        final(it)@.frames.len() == old(it)@.frames.len(),
        r matches Ok(Some(v)) ==> val_wf(
            v@,
            final(it)@.lists.len() as int,
            prog.funcs@.len() as int,
        ),
        match step_compare(prog@, op, *a, *b, old(it)@, fuel as nat) {
            EOut::Done(st1, v) => final(it)@ == st1 && (r matches Ok(ov) && opt_view(ov) == v),
            EOut::Fail(st1, e) => final(it)@ == st1 && (r matches Err(err) && err@ == e),
            EOut::Host => true,
        },
    decreases fuel, 3int, 0int,
{
    match a.run(prog, it, host, fuel) {
        Ok(Some(v1)) => match b.run(prog, it, host, fuel) {
            Ok(Some(v2)) => match crate::arith::compare(&v1, &v2) {
                Ok(c) => {
                    let encoded: i64 = match op {
                        CmpOp::Equal => if c == 0 {
                            1
                        } else {
                            0
                        },
                        CmpOp::Greater => if c > 0 {
                            1
                        } else {
                            0
                        },
                        CmpOp::Lower => if c < 0 {
                            1
                        } else {
                            0
                        },
                    };
                    Ok(Some(Value::Integer(encoded)))
                },
                Err(e) => Err(e),
            },
            Ok(None) => Err(EvalError::TypeError("compare", "no value")),
            Err(e) => Err(e),
        },
        Ok(None) => Err(EvalError::TypeError("compare", "no value")),
        Err(e) => Err(e),
    }
}

fn run_call<H: Host>(
    fct: &Instruction,
    args: &Vec<Instruction>,
    prog: &Program,
    it: &mut Interp,
    host: &mut H,
    fuel: u64,
) -> (r: Result<Option<Value>, EvalError>)
    requires
        old(it).wf(prog),
    ensures
        final(it).wf(prog),
        final(it)@.lists.len() >= old(it)@.lists.len(),
        final(it)@.frames.len() == old(it)@.frames.len(),
        r matches Ok(Some(v)) ==> val_wf(
            v@,
            final(it)@.lists.len() as int,
            prog.funcs@.len() as int,
        ),
        match step_call(prog@, *fct, args@, old(it)@, fuel as nat) {
            EOut::Done(st1, v) => final(it)@ == st1 && (r matches Ok(ov) && opt_view(ov) == v),
            EOut::Fail(st1, e) => final(it)@ == st1 && (r matches Err(err) && err@ == e),
            EOut::Host => true,
        },
    decreases fuel, 3int, 0int,
{
    let ghost nf = prog.funcs@.len() as int;
    match run_args(args, prog, it, host, fuel) {
        Ok(Some(vals)) => {
            let ghost st1 = it@;
            let ghost pre_vals = vals.deep_view();
            match fct.run(prog, it, host, fuel) {
                Ok(Some(fv)) => {
                    proof {
                        assert forall|j: int| 0 <= j < pre_vals.len() implies val_wf(
                            #[trigger] pre_vals[j],
                            it@.lists.len() as int,
                            nf,
                        ) by {
                            lemma_val_wf_mono(
                                pre_vals[j],
                                st1.lists.len() as int,
                                it@.lists.len() as int,
                                nf,
                            );
                        }
                    }
                    match fv {
                        Value::Closure(idx) => {
                            let parent = it.scopes.depth() - 1;
                            call_closure(idx, vals, Some(parent), prog, it, host, fuel)
                        },
                        Value::Native(k) => call_native(k, vals, prog, it, host),
                        _ => Err(EvalError::TypeError("call", "invalid function")),
                    }
                },
                Ok(None) => Err(EvalError::TypeError("call", "no value")),
                Err(e) => Err(e),
            }
        },
        Ok(None) => Err(EvalError::TypeError("call", "invalid argument values")),
        Err(e) => Err(e),
    }
}

fn run_call_named<H: Host>(
    name: &String,
    args: &Vec<Instruction>,
    prog: &Program,
    it: &mut Interp,
    host: &mut H,
    fuel: u64,
) -> (r: Result<Option<Value>, EvalError>)
    requires
        old(it).wf(prog),
    ensures
        final(it).wf(prog),
        final(it)@.lists.len() >= old(it)@.lists.len(),
        final(it)@.frames.len() == old(it)@.frames.len(),
        r matches Ok(Some(v)) ==> val_wf(
            v@,
            final(it)@.lists.len() as int,
            prog.funcs@.len() as int,
        ),
        match step_call_named(prog@, *name, args@, old(it)@, fuel as nat) {
            EOut::Done(st1, v) => final(it)@ == st1 && (r matches Ok(ov) && opt_view(ov) == v),
            EOut::Fail(st1, e) => final(it)@ == st1 && (r matches Err(err) && err@ == e),
            EOut::Host => true,
        },
    decreases fuel, 3int, 0int,
{
    let ghost nf = prog.funcs@.len() as int;
    match run_args(args, prog, it, host, fuel) {
        Ok(Some(vals)) => {
            proof {
                lemma_chain_lookup_wf(it@, st_top(it@), name@, nf);
            }
            match it.scopes.lookup_top(name) {
                Some(Value::Closure(idx)) => call_closure(
                    idx,
                    vals,
                    Some(0),
                    prog,
                    it,
                    host,
                    fuel,
                ),
                Some(Value::Native(k)) => call_native(k, vals, prog, it, host),
                Some(_) => Err(EvalError::TypeError("call", "invalid function")),
                None => Err(EvalError::UnknownFunction(name.clone())),
            }
        },
        Ok(None) => Err(EvalError::TypeError("call", "invalid argument values")),
        Err(e) => Err(e),
    }
}

fn run_if<H: Host>(
    cond: &Instruction,
    then: &Vec<Instruction>,
    els: Option<&Vec<Instruction>>,
    prog: &Program,
    it: &mut Interp,
    host: &mut H,
    fuel: u64,
) -> (r: Result<Option<Value>, EvalError>)
    requires
        old(it).wf(prog),
    ensures
        final(it).wf(prog),
        final(it)@.lists.len() >= old(it)@.lists.len(),
        final(it)@.frames.len() == old(it)@.frames.len(),
        r matches Ok(Some(v)) ==> val_wf(
            v@,
            final(it)@.lists.len() as int,
            prog.funcs@.len() as int,
        ),
        match step_if(
            prog@,
            *cond,
            then@,
            match els {
                Some(e) => e@,
                None => Seq::empty(),
            },
            els is Some,
            old(it)@,
            fuel as nat,
        ) {
            EOut::Done(st1, v) => final(it)@ == st1 && (r matches Ok(ov) && opt_view(ov) == v),
            EOut::Fail(st1, e) => final(it)@ == st1 && (r matches Err(err) && err@ == e),
            EOut::Host => true,
        },
    decreases fuel, 3int, 0int,
{
    match cond.run(prog, it, host, fuel) {
        Ok(Some(v)) => {
            let t = v.to_bool(&it.heap);
            let branch_r = if t {
                run_stmts(then, prog, it, host, fuel)
            } else {
                match els {
                    Some(e) => run_stmts(e, prog, it, host, fuel),
                    None => Ok(()),
                }
            };
            match branch_r {
                Ok(_) => Ok(None),
                Err(e) => Err(e),
            }
        },
        Ok(None) => Err(EvalError::TypeError("if", "invalid condition")),
        Err(e) => Err(e),
    }
}

fn run_for<H: Host>(
    variable: &String,
    from: &Instruction,
    to: &Instruction,
    step: &Instruction,
    body: &Vec<Instruction>,
    prog: &Program,
    it: &mut Interp,
    host: &mut H,
    fuel: u64,
) -> (r: Result<Option<Value>, EvalError>)
    requires
        old(it).wf(prog),
    ensures
        final(it).wf(prog),
        final(it)@.lists.len() >= old(it)@.lists.len(),
        final(it)@.frames.len() == old(it)@.frames.len(),
        r matches Ok(Some(v)) ==> val_wf(
            v@,
            final(it)@.lists.len() as int,
            prog.funcs@.len() as int,
        ),
        match step_for(prog@, *variable, *from, *to, *step, body@, old(it)@, fuel as nat) {
            EOut::Done(st1, v) => final(it)@ == st1 && (r matches Ok(ov) && opt_view(ov) == v),
            EOut::Fail(st1, e) => final(it)@ == st1 && (r matches Err(err) && err@ == e),
            EOut::Host => true,
        },
    decreases fuel, 3int, 0int,
{
    let ghost nf = prog.funcs@.len() as int;
    let fv = match from.run(prog, it, host, fuel) {
        Ok(Some(Value::Integer(x))) => x,
        Ok(Some(_)) => {
            return Ok(None);
        },
        Ok(None) => {
            return Err(EvalError::TypeError("for", "invalid from value"));
        },
        Err(e) => {
            return Err(e);
        },
    };
    let tv = match to.run(prog, it, host, fuel) {
        Ok(Some(Value::Integer(x))) => x,
        Ok(Some(_)) => {
            return Ok(None);
        },
        Ok(None) => {
            return Err(EvalError::TypeError("for", "invalid to value"));
        },
        Err(e) => {
            return Err(e);
        },
    };
    let sv = match step.run(prog, it, host, fuel) {
        Ok(Some(Value::Integer(x))) => x,
        Ok(Some(_)) => {
            return Ok(None);
        },
        Ok(None) => {
            return Err(EvalError::TypeError("for", "invalid step value"));
        },
        Err(e) => {
            return Err(e);
        },
    };
    if sv <= 0 {
        return Err(EvalError::TypeError("for", "step must be positive"));
    }
    let ghost st3 = it@;
    let ghost total = step_for(prog@, *variable, *from, *to, *step, body@, old(it)@, fuel as nat);
    proof {
        assert(total is Host || total == for_iter(
            prog@,
            *variable,
            fv,
            tv,
            sv,
            body@,
            st3,
            fuel as nat,
        ));
    }
    let mut i: i64 = fv;
    let mut fl: u64 = fuel;
    while i < tv
        invariant
            old(it).wf(prog),
            it.wf(prog),
            fl <= fuel,
            sv > 0,
            nf == prog.funcs@.len() as int,
            it@.lists.len() >= old(it)@.lists.len(),
            it@.frames.len() == old(it)@.frames.len(),
            total == step_for(prog@, *variable, *from, *to, *step, body@, old(it)@,
                fuel as nat),
            total is Host || for_iter(prog@, *variable, i, tv, sv, body@, it@, fl as nat)
                == total,
        decreases fl,
    {
        if fl == 0 {
            return Err(EvalError::StepLimit);
        }
        let ghost st_a = it@;
        proof {
            lemma_bind_wf(st_a, variable@, ValV::Integer(i), nf);
        }
        it.scopes.bind(variable.clone(), Value::Integer(i));
        proof {
            assert(it@ == st_bind(st_a, variable@, ValV::Integer(i))) by {
                assert(it@.frames =~= st_bind(st_a, variable@, ValV::Integer(i)).frames);
            };
        }
        match run_stmts(body, prog, it, host, fl - 1) {
            Ok(_) => {},
            Err(e) => {
                return Err(e);
            },
        }
        match i.checked_add(sv) {
            Some(n) => {
                i = n;
            },
            None => {
                return Ok(None);
            },
        }
        fl = fl - 1;
    }
    Ok(None)
}

fn run_each<H: Host>(
    variable: &String,
    arr: &Instruction,
    body: &Vec<Instruction>,
    prog: &Program,
    it: &mut Interp,
    host: &mut H,
    fuel: u64,
) -> (r: Result<Option<Value>, EvalError>)
    requires
        old(it).wf(prog),
    ensures
        final(it).wf(prog),
        final(it)@.lists.len() >= old(it)@.lists.len(),
        final(it)@.frames.len() == old(it)@.frames.len(),
        r matches Ok(Some(v)) ==> val_wf(
            v@,
            final(it)@.lists.len() as int,
            prog.funcs@.len() as int,
        ),
        match step_each(prog@, *variable, *arr, body@, old(it)@, fuel as nat) {
            EOut::Done(st1, v) => final(it)@ == st1 && (r matches Ok(ov) && opt_view(ov) == v),
            EOut::Fail(st1, e) => final(it)@ == st1 && (r matches Err(err) && err@ == e),
            EOut::Host => true,
        },
    decreases fuel, 3int, 0int,
{
    let ghost nf = prog.funcs@.len() as int;
    let h = match arr.run(prog, it, host, fuel) {
        Ok(Some(Value::List(h))) => h,
        Ok(Some(_)) => {
            return Err(EvalError::TypeError("each", "invalid array"));
        },
        Ok(None) => {
            return Err(EvalError::TypeError("each", "invalid array value"));
        },
        Err(e) => {
            return Err(e);
        },
    };
    let ghost st1 = it@;
    let ghost total = step_each(prog@, *variable, *arr, body@, old(it)@, fuel as nat);
    let items = it.heap.snapshot(h);
    proof {
        lemma_locks_update_wf(st1, crate::heap::spec_lock(st1.locks, h as int), nf);
    }
    it.heap.lock(h);
    let ghost st2 = it@;
    let ghost itotal = each_iter(prog@, *variable, items.deep_view(), 0, body@, st2, fuel as nat);
    proof {
        assert(total is Host || each_wrap(itotal, total, h as int));
    }
    let mut idx: usize = 0;
    let mut fl: u64 = fuel;
    while idx < items.len()
        invariant
            old(it).wf(prog),
            it.wf(prog),
            fl <= fuel,
            idx <= items@.len(),
            nf == prog.funcs@.len() as int,
            st_wf(st1, nf),
            h < st1.lists.len(),
            st1.lists.len() <= it@.lists.len(),
            items.deep_view() == st1.lists[h as int],
            items@.len() == items.deep_view().len(),
            it@.lists.len() >= old(it)@.lists.len(),
            it@.frames.len() == old(it)@.frames.len(),
            total == step_each(prog@, *variable, *arr, body@, old(it)@, fuel as nat),
            itotal == each_iter(prog@, *variable, items.deep_view(), 0, body@, st2,
                fuel as nat),
            total is Host || each_wrap(itotal, total, h as int),
            total is Host || each_iter(
                prog@,
                *variable,
                items.deep_view(),
                idx as int,
                body@,
                it@,
                fl as nat,
            ) == itotal,
        decreases items@.len() - idx,
    {
        if fl == 0 {
            proof {
                lemma_locks_update_wf(it@, crate::heap::spec_unlock(it@.locks, h as int), nf);
            }
            it.heap.unlock(h);
            return Err(EvalError::StepLimit);
        }
        let ghost st_a = it@;
        proof {
            assert(items.deep_view()[idx as int] == items@[idx as int]@);
            assert(list_vals_wf(st1.lists[h as int], st1.lists.len() as int, nf));
            lemma_val_wf_mono(
                items.deep_view()[idx as int],
                st1.lists.len() as int,
                it@.lists.len() as int,
                nf,
            );
            lemma_bind_wf(st_a, variable@, items.deep_view()[idx as int], nf);
        }
        it.scopes.bind(variable.clone(), items[idx].dup());
        proof {
            assert(it@ == st_bind(st_a, variable@, items.deep_view()[idx as int])) by {
                assert(it@.frames =~= st_bind(
                    st_a,
                    variable@,
                    items.deep_view()[idx as int],
                ).frames);
            };
        }
        match run_stmts(body, prog, it, host, fl - 1) {
            Ok(_) => {},
            Err(e) => {
                proof {
                    lemma_locks_update_wf(it@, crate::heap::spec_unlock(it@.locks, h as int), nf);
                }
                it.heap.unlock(h);
                return Err(e);
            },
        }
        idx = idx + 1;
        fl = fl - 1;
    }
    proof {
        lemma_locks_update_wf(it@, crate::heap::spec_unlock(it@.locks, h as int), nf);
    }
    it.heap.unlock(h);
    Ok(None)
}

fn run_while<H: Host>(
    cond: &Instruction,
    body: &Vec<Instruction>,
    prog: &Program,
    it: &mut Interp,
    host: &mut H,
    fuel: u64,
) -> (r: Result<Option<Value>, EvalError>)
    requires
        old(it).wf(prog),
    ensures
        final(it).wf(prog),
        final(it)@.lists.len() >= old(it)@.lists.len(),
        final(it)@.frames.len() == old(it)@.frames.len(),
        r matches Ok(Some(v)) ==> val_wf(
            v@,
            final(it)@.lists.len() as int,
            prog.funcs@.len() as int,
        ),
        match step_while(prog@, *cond, body@, old(it)@, fuel as nat) {
            EOut::Done(st1, v) => final(it)@ == st1 && (r matches Ok(ov) && opt_view(ov) == v),
            EOut::Fail(st1, e) => final(it)@ == st1 && (r matches Err(err) && err@ == e),
            EOut::Host => true,
        },
    decreases fuel, 3int, 0int,
{
    let ghost total = step_while(prog@, *cond, body@, old(it)@, fuel as nat);
    let mut fl: u64 = fuel;
    loop
        invariant
            old(it).wf(prog),
            it.wf(prog),
            fl <= fuel,
            it@.lists.len() >= old(it)@.lists.len(),
            it@.frames.len() == old(it)@.frames.len(),
            total == step_while(prog@, *cond, body@, old(it)@, fuel as nat),
            total is Host || step_while(prog@, *cond, body@, it@, fl as nat) == total,
        decreases fl,
    {
        if fl == 0 {
            return Err(EvalError::StepLimit);
        }
        match cond.run(prog, it, host, fl - 1) {
            Ok(Some(v)) => {
                let t = v.to_bool(&it.heap);
                if !t {
                    return Ok(None);
                }
                match run_stmts(body, prog, it, host, fl - 1) {
                    Ok(_) => {},
                    Err(e) => {
                        return Err(e);
                    },
                }
            },
            Ok(None) => {
                return Err(EvalError::TypeError("while", "invalid condition"));
            },
            Err(e) => {
                return Err(e);
            },
        }
        fl = fl - 1;
    }
}

} // verus!
