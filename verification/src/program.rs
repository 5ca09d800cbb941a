//! The loaded program and the running machine.
//!
//! A [`Program`] is the immutable part of a run: the user function table
//! and the program arguments.  An [`Interp`] is the mutable part: the
//! scope stack and the list store.  Loading builds a root scope holding
//! every native function and a closure binding for every user function;
//! [`run_program`] then runs the main instruction sequence in a child
//! scope of that root.

use vstd::prelude::*;
use vstd::string::StringExecFns;

use crate::context::{Context, CtxV, Scopes};
use crate::error::EvalError;
use crate::heap::Heap;
use crate::instruction::Instruction;
use crate::semantics::{st_wf, ProgV, SState};
use crate::stl::{inject_all, natives_map, Host};
use crate::value::{Function, Value};

verus! {

/// The immutable part of a loaded program.
pub struct Program {
    /// The user functions, each with its name; `Value::Closure(i)` refers
    /// to the `i`-th entry.
    pub funcs: Vec<(String, Function)>,
    /// The program arguments served by the `get-args` native.
    pub args: Vec<String>,
}

impl View for Program {
    type V = ProgV;

    open spec fn view(&self) -> ProgV {
        ProgV { funs: self.funcs@, args: self.args.deep_view() }
    }
}

/// The mutable machine state: the scope stack and the list store.
pub struct Interp {
    pub scopes: Scopes,
    pub heap: Heap,
}

impl View for Interp {
    type V = SState;

    open spec fn view(&self) -> SState {
        SState { frames: self.scopes@, lists: self.heap@.lists, locks: self.heap@.locks }
    }
}

impl Interp {
    /// The machine is well formed with respect to the program it runs.
    pub open spec fn wf(&self, prog: &Program) -> bool {
        &&& self.scopes.wf()
        &&& self.heap.wf()
        &&& st_wf(self@, prog.funcs@.len() as int)
    }
}

/// The root scope of a run: every native function, then a closure binding
/// for each user function, later entries shadowing earlier ones.
pub open spec fn root_map_upto(funs: Seq<(String, Function)>, k: int) -> Map<Seq<char>,
    crate::value::ValV>
    decreases k,
{
    if k <= 0 {
        natives_map()
    } else {
        root_map_upto(funs, k - 1).insert(funs[k - 1].0@, crate::value::ValV::Closure(k - 1))
    }
}

/// The machine state right after loading: the root frame alone, an empty
/// list store.
pub open spec fn init_state(p: ProgV) -> SState {
    SState {
        frames: seq![
            CtxV { map: root_map_upto(p.funs, p.funs.len() as int), parent: None },
        ],
        lists: Seq::empty(),
        locks: Seq::empty(),
    }
}

impl Interp {
    /// Load a program: build the root scope with the natives and one
    /// closure binding per user function.
    pub fn new(prog: &Program) -> (r: Interp)
        ensures
            r.wf(prog),
            r@ == init_state(prog@),
    {
        let mut root = Context::new(None);
        inject_all(&mut root);
        let n = prog.funcs.len();
        let mut i: usize = 0;
        while i < n
            invariant
                n == prog.funcs@.len(),
                i <= n,
                root.inv(),
                root@.parent is None,
                root@.map == root_map_upto(prog.funcs@, i as int),
            decreases n - i,
        {
            let name = prog.funcs[i].0.clone();
            root.assign(name, Value::Closure(i));
            i = i + 1;
        }
        let r = Interp { scopes: Scopes::new(root), heap: Heap::new() };
        proof {
            assert(r@.frames =~= init_state(prog@).frames);
            assert(r@.lists =~= init_state(prog@).lists);
            assert(r@.locks =~= init_state(prog@).locks);
            crate::stl::lemma_natives_map_wf(prog.funcs@.len() as int);
            lemma_root_map_wf(prog.funcs@, prog.funcs@.len() as int);
        }
        r
    }
}

proof fn lemma_root_map_wf(funs: Seq<(String, Function)>, k: int)
    requires
        k <= funs.len(),
    ensures
        forall|key: Seq<char>| #[trigger] root_map_upto(funs, k).dom().contains(key)
            ==> crate::value::val_wf(root_map_upto(funs, k)[key], 0, funs.len() as int),
    decreases k,
{
    crate::stl::lemma_natives_map_wf(funs.len() as int);
    if k > 0 {
        lemma_root_map_wf(funs, k - 1);
        let m = root_map_upto(funs, k);
        let prev = root_map_upto(funs, k - 1);
        assert forall|key: Seq<char>| #[trigger] m.dom().contains(key) implies
            crate::value::val_wf(m[key], 0, funs.len() as int) by {
            if key != funs[k - 1].0@ {
                assert(m[key] == prev[key]);
                assert(prev.dom().contains(key));
            }
        }
    }
}

/// Run a whole program: load it, then run the main instruction sequence in
/// a fresh child scope of the root.  `fuel` bounds the number of
/// evaluation steps; a run that exceeds it fails with
/// [`EvalError::StepLimit`].
pub fn run_program<H: Host>(
    prog: &Program,
    main: &Vec<Instruction>,
    host: &mut H,
    fuel: u64,
) -> (r: Result<(), EvalError>)
    ensures
        match crate::semantics::eval_stmts(
            prog@,
            main@,
            crate::semantics::st_push_frame(init_state(prog@), Some(0)),
            fuel as nat,
        ) {
            crate::semantics::BOut::Done(_) => r is Ok,
            crate::semantics::BOut::Fail(_, e) => r matches Err(err) && err@ == e,
            crate::semantics::BOut::Host => true,
        },
{
    let mut it = Interp::new(prog);
    it.scopes.push(Some(0));
    proof {
        crate::semantics::lemma_push_frame_wf(
            init_state(prog@),
            Map::empty(),
            Some(0),
            prog.funcs@.len() as int,
        );
        assert(it@ == crate::semantics::st_push_frame(init_state(prog@), Some(0)));
    }
    crate::instruction::run_stmts(main, prog, &mut it, host, fuel)
}

} // verus!
