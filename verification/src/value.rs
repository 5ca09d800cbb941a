//! The runtime value model: a closed tagged union.
//!
//! Reals are carried as IEEE 754 bit patterns (see [`crate::dbl`]).  Lists
//! have reference semantics: a value holds only a handle into the shared
//! list store ([`crate::heap::Heap`]), so copying a value copies the handle
//! and every holder observes the same backing sequence.  User functions are
//! held by index into the loaded program's function table.

use vstd::prelude::*;

use crate::dbl::real_is_zero;
use crate::heap::Heap;
use crate::instruction::Instruction;
use crate::stl::NativeKind;

verus! {

/// A user-defined function: parameter names and a body instruction sequence.
#[derive(Debug)]
pub struct Function {
    pub args: Vec<String>,
    pub ins: Vec<Instruction>,
}

/// A runtime value.
#[derive(Debug)]
pub enum Value {
    /// Signed 64-bit integer.
    Integer(i64),
    /// Double-precision real, stored as its IEEE 754 bit pattern.
    Real(u64),
    /// Owned text.
    Text(String),
    /// Handle of a shared, mutable list in the list store.
    List(usize),
    /// Index of a user-defined function in the program's function table.
    Closure(usize),
    /// A host-provided native function.
    Native(NativeKind),
}

/// Spec-level shape of a [`Value`].
pub enum ValV {
    Integer(i64),
    Real(u64),
    Text(Seq<char>),
    List(int),
    Closure(int),
    Native(NativeKind),
}

impl View for Value {
    type V = ValV;

    open spec fn view(&self) -> ValV {
        match self {
            Value::Integer(i) => ValV::Integer(*i),
            Value::Real(b) => ValV::Real(*b),
            Value::Text(s) => ValV::Text(s@),
            Value::List(h) => ValV::List(*h as int),
            Value::Closure(k) => ValV::Closure(*k as int),
            Value::Native(k) => ValV::Native(*k),
        }
    }
}

impl DeepView for Value {
    type V = ValV;

    open spec fn deep_view(&self) -> ValV {
        self.view()
    }
}

/// A value is well formed when every handle it holds points into the list
/// store and every function index points into the function table.
pub open spec fn val_wf(v: ValV, nlists: int, nfuns: int) -> bool {
    match v {
        ValV::List(h) => 0 <= h < nlists,
        ValV::Closure(k) => 0 <= k < nfuns,
        _ => true,
    }
}

/// Truthiness: numbers are false exactly at zero, texts and lists exactly
/// when empty, functions never.
pub open spec fn spec_truthy(v: ValV, lists: Seq<Seq<ValV>>) -> bool {
    match v {
        ValV::Integer(i) => i != 0,
        ValV::Real(b) => !real_is_zero(b),
        ValV::Text(s) => s.len() != 0,
        ValV::List(h) => 0 <= h < lists.len() && lists[h].len() != 0,
        ValV::Closure(_) => true,
        ValV::Native(_) => true,
    }
}

impl Value {
    /// Structural copy.  A list value copies only its handle, so the copy
    /// aliases the same backing sequence.
    pub fn dup(&self) -> (r: Value)
        ensures
            r@ == self@,
    {
        match self {
            Value::Integer(i) => Value::Integer(*i),
            Value::Real(b) => Value::Real(*b),
            Value::Text(s) => Value::Text(s.clone()),
            Value::List(h) => Value::List(*h),
            Value::Closure(k) => Value::Closure(*k),
            Value::Native(k) => Value::Native(*k),
        }
    }

    /// Truthiness of this value; the list store decides for list handles.
    pub fn to_bool(&self, heap: &Heap) -> (b: bool)
        requires
            self@ matches ValV::List(h) ==> 0 <= h < heap@.lists.len(),
        ensures
            b == spec_truthy(self@, heap@.lists),
    {
        match self {
            Value::Integer(i) => *i != 0,
            Value::Real(b) => !crate::dbl::is_zero_bits(*b),
            Value::Text(s) => s.as_str().unicode_len() != 0,
            Value::List(h) => heap.list_len(*h) != 0,
            Value::Closure(_) => true,
            Value::Native(_) => true,
        }
    }
}

/// Copy of a sequence of values; handles keep their identity.
pub fn dup_values(v: &Vec<Value>) -> (r: Vec<Value>)
    ensures
        r.deep_view() == v.deep_view(),
{
    let mut r: Vec<Value> = Vec::new();
    let mut i: usize = 0;
    while i < v.len()
        invariant
            i <= v.len(),
            r@.len() == i,
            forall|j: int| 0 <= j < i ==> r@[j]@ == v@[j]@,
        decreases v.len() - i,
    {
        r.push(v[i].dup());
        i = i + 1;
    }
    proof {
        assert(r.deep_view() =~= v.deep_view());
    }
    r
}

} // verus!
