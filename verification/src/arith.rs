//! Arithmetic, logic and comparison over runtime values.
//!
//! Numeric coercion follows a strict ladder: all-integer operands give an
//! integer result (wrapping 64-bit arithmetic), a mix of integers and reals
//! gives a real (integers widened to doubles), and for addition only, a mix
//! that also holds texts concatenates the decimal/textual renderings.
//! Division always yields a real, computed in reciprocal-product form:
//! `first * (1/rest[0]) * (1/rest[1]) * ...`, folded from one, not as
//! sequential division — the two disagree in the last bit for some inputs.

use vstd::prelude::*;
use vstd::string::StringExecFns;
use vstd::wrapping::i64_specs;

use crate::dbl::{
    int_to_real_bits, real_add, real_add_bits, real_cmp_bits, real_div, real_div_bits,
    real_is_nan, real_mul, real_mul_bits, real_of_int, real_sub, real_sub_bits, real_text,
    spec_real_cmp, is_nan_bits, REAL_ONE_BITS, REAL_ZERO_BITS,
};
use crate::error::{ErrV, EvalError};
use crate::text::{int_text, int_to_text, seq_cmp3, text_cmp3};
use crate::value::{spec_truthy, ValV, Value};

verus! {

pub open spec fn is_int(v: ValV) -> bool {
    v matches ValV::Integer(_)
}

pub open spec fn is_num(v: ValV) -> bool {
    v matches ValV::Integer(_) || v matches ValV::Real(_)
}

pub open spec fn is_texty(v: ValV) -> bool {
    v matches ValV::Integer(_) || v matches ValV::Real(_) || v matches ValV::Text(_)
}

pub open spec fn all_ints(s: Seq<ValV>) -> bool {
    forall|i: int| 0 <= i < s.len() ==> is_int(#[trigger] s[i])
}

pub open spec fn all_nums(s: Seq<ValV>) -> bool {
    forall|i: int| 0 <= i < s.len() ==> is_num(#[trigger] s[i])
}

pub open spec fn all_texty(s: Seq<ValV>) -> bool {
    forall|i: int| 0 <= i < s.len() ==> is_texty(#[trigger] s[i])
}

pub open spec fn as_int(v: ValV) -> i64 {
    match v {
        ValV::Integer(i) => i,
        _ => 0,
    }
}

/// The double standing for a numeric operand: integers are widened.
pub open spec fn widen(v: ValV) -> u64 {
    match v {
        ValV::Integer(i) => real_of_int(i),
        ValV::Real(b) => b,
        _ => 0,
    }
}

/// The text standing for an addable operand.
pub open spec fn text_of(v: ValV) -> Seq<char> {
    match v {
        ValV::Integer(i) => int_text(i as int),
        ValV::Real(b) => real_text(b),
        ValV::Text(s) => s,
        _ => Seq::empty(),
    }
}

/// Left fold of wrapping 64-bit addition, from zero.
pub open spec fn int_sum(s: Seq<ValV>) -> i64
    decreases s.len(),
{
    if s.len() == 0 {
        0
    } else {
        i64_specs::wrapping_add(int_sum(s.drop_last()), as_int(s.last()))
    }
}

/// Left fold of wrapping 64-bit multiplication, from one.
pub open spec fn int_prod(s: Seq<ValV>) -> i64
    decreases s.len(),
{
    if s.len() == 0 {
        1
    } else {
        i64_specs::wrapping_mul(int_prod(s.drop_last()), as_int(s.last()))
    }
}

/// Left fold of double addition over the widened operands, from `+0.0`.
pub open spec fn real_sum(s: Seq<ValV>) -> u64
    decreases s.len(),
{
    if s.len() == 0 {
        REAL_ZERO_BITS
    } else {
        real_add(real_sum(s.drop_last()), widen(s.last()))
    }
}

/// Left fold of double multiplication over the widened operands, from `1.0`.
pub open spec fn real_prod(s: Seq<ValV>) -> u64
    decreases s.len(),
{
    if s.len() == 0 {
        REAL_ONE_BITS
    } else {
        real_mul(real_prod(s.drop_last()), widen(s.last()))
    }
}

/// Left fold of double multiplication over the reciprocals of the widened
/// operands, from `1.0`.
pub open spec fn recip_prod(s: Seq<ValV>) -> u64
    decreases s.len(),
{
    if s.len() == 0 {
        REAL_ONE_BITS
    } else {
        real_mul(recip_prod(s.drop_last()), real_div(REAL_ONE_BITS, widen(s.last())))
    }
}

/// Left fold of text concatenation, from the empty text.
pub open spec fn concat_texts(s: Seq<ValV>) -> Seq<char>
    decreases s.len(),
{
    if s.len() == 0 {
        Seq::empty()
    } else {
        concat_texts(s.drop_last()) + text_of(s.last())
    }
}

/// What `add` returns: the coercion ladder applied to n-ary addition.
pub open spec fn spec_add(s: Seq<ValV>) -> Result<ValV, ErrV> {
    if all_ints(s) {
        Ok(ValV::Integer(int_sum(s)))
    } else if all_nums(s) {
        Ok(ValV::Real(real_sum(s)))
    } else if all_texty(s) {
        Ok(ValV::Text(concat_texts(s)))
    } else {
        Err(ErrV::TypeError("add"@, "invalid value"@))
    }
}

/// What `subtract` returns: the first operand minus the sum of the rest;
/// texts are rejected.
pub open spec fn spec_subtract(s: Seq<ValV>) -> Result<ValV, ErrV> {
    if s.len() == 0 {
        Err(ErrV::TypeError("subtract"@, "missing values"@))
    } else if all_ints(s) {
        Ok(ValV::Integer(i64_specs::wrapping_sub(as_int(s[0]), int_sum(s.drop_first()))))
    } else if all_nums(s) {
        Ok(ValV::Real(real_sub(widen(s[0]), real_sum(s.drop_first()))))
    } else {
        Err(ErrV::TypeError("subtract"@, "invalid value"@))
    }
}

/// What `multiply` returns: the product of all operands; texts are rejected.
pub open spec fn spec_multiply(s: Seq<ValV>) -> Result<ValV, ErrV> {
    if all_ints(s) {
        Ok(ValV::Integer(int_prod(s)))
    } else if all_nums(s) {
        Ok(ValV::Real(real_prod(s)))
    } else {
        Err(ErrV::TypeError("multiply"@, "invalid value"@))
    }
}

/// What `divide` returns: always a real, the first operand times the
/// product of the reciprocals of the rest.  Division by zero yields signed
/// infinity or NaN, never an error.
pub open spec fn spec_divide(s: Seq<ValV>) -> Result<ValV, ErrV> {
    if s.len() == 0 {
        Err(ErrV::TypeError("divide"@, "missing values"@))
    } else if all_nums(s) {
        Ok(ValV::Real(real_mul(widen(s[0]), recip_prod(s.drop_first()))))
    } else {
        Err(ErrV::TypeError("divide"@, "invalid value"@))
    }
}

pub open spec fn all_truthy(s: Seq<ValV>, lists: Seq<Seq<ValV>>) -> bool {
    forall|i: int| 0 <= i < s.len() ==> spec_truthy(#[trigger] s[i], lists)
}

pub open spec fn any_truthy(s: Seq<ValV>, lists: Seq<Seq<ValV>>) -> bool {
    exists|i: int| 0 <= i < s.len() && spec_truthy(#[trigger] s[i], lists)
}

/// What `and` returns: 1 when every operand is truthy, else 0.
pub open spec fn spec_and(s: Seq<ValV>, lists: Seq<Seq<ValV>>) -> ValV {
    ValV::Integer(
        if all_truthy(s, lists) {
            1
        } else {
            0
        },
    )
}

/// What `or` returns: 1 when any operand is truthy, else 0.
pub open spec fn spec_or(s: Seq<ValV>, lists: Seq<Seq<ValV>>) -> ValV {
    ValV::Integer(
        if any_truthy(s, lists) {
            1
        } else {
            0
        },
    )
}

/// Three-way comparison: -1, 0 or 1.  Numbers compare by value (integers
/// widened against reals), texts lexicographically; NaN on either side and
/// any other pairing of types is a type error.
pub open spec fn spec_compare(a: ValV, b: ValV) -> Result<int, ErrV> {
    match (a, b) {
        (ValV::Integer(x), ValV::Integer(y)) => Ok(
            if x < y {
                -1
            } else if x > y {
                1
            } else {
                0
            },
        ),
        (ValV::Integer(x), ValV::Real(rb)) => if real_is_nan(rb) {
            Err(ErrV::TypeError("compare"@, "incompatible comparison values"@))
        } else {
            Ok(spec_real_cmp(real_of_int(x), rb))
        },
        (ValV::Real(ra), ValV::Integer(y)) => if real_is_nan(ra) {
            Err(ErrV::TypeError("compare"@, "incompatible comparison values"@))
        } else {
            Ok(spec_real_cmp(ra, real_of_int(y)))
        },
        (ValV::Real(ra), ValV::Real(rb)) => if real_is_nan(ra) || real_is_nan(rb) {
            Err(ErrV::TypeError("compare"@, "incompatible comparison values"@))
        } else {
            Ok(spec_real_cmp(ra, rb))
        },
        (ValV::Text(s1), ValV::Text(s2)) => Ok(seq_cmp3(s1, s2)),
        _ => Err(ErrV::TypeError("compare"@, "incompatible comparison values"@)),
    }
}

/// An executable result agrees with a spec-level result.
pub open spec fn res_matches(r: Result<Value, EvalError>, s: Result<ValV, ErrV>) -> bool {
    match (r, s) {
        (Ok(v), Ok(sv)) => v@ == sv,
        (Err(e), Err(se)) => e@ == se,
        _ => false,
    }
}

/// One classification pass: whether every operand is an integer, a number,
/// or an addable (number-or-text) value.
fn classify(vals: &Vec<Value>) -> (r: (bool, bool, bool))
    ensures
        r.0 == all_ints(vals.deep_view()),
        r.1 == all_nums(vals.deep_view()),
        r.2 == all_texty(vals.deep_view()),
{
    let ghost dv = vals.deep_view();
    let mut ai = true;
    let mut an = true;
    let mut at = true;
    let mut i: usize = 0;
    while i < vals.len()
        invariant
            i <= vals.len(),
            dv == vals.deep_view(),
            dv.len() == vals.len(),
            ai == all_ints(dv.take(i as int)),
            an == all_nums(dv.take(i as int)),
            at == all_texty(dv.take(i as int)),
        decreases vals.len() - i,
    {
        proof {
            assert(dv.take(i + 1).drop_last() =~= dv.take(i as int));
            assert(dv.take(i + 1).last() == dv[i as int]);
            assert(forall|j: int| 0 <= j < i + 1 ==> dv.take(i + 1)[j] == dv[j]);
            assert(forall|j: int| 0 <= j < i ==> dv.take(i as int)[j] == dv[j]);
        }
        let (ei, en, et) = match &vals[i] {
            Value::Integer(_) => (true, true, true),
            Value::Real(_) => (false, true, true),
            Value::Text(_) => (false, false, true),
            _ => (false, false, false),
        };
        ai = ai && ei;
        an = an && en;
        at = at && et;
        i = i + 1;
    }
    proof {
        assert(dv.take(vals.len() as int) =~= dv);
    }
    (ai, an, at)
}

/// N-ary addition under the coercion ladder.
pub fn add(vals: &Vec<Value>) -> (r: Result<Value, EvalError>)
    ensures
        res_matches(r, spec_add(vals.deep_view())),
{
    let ghost dv = vals.deep_view();
    let (ai, an, at) = classify(vals);
    if ai {
        let mut acc: i64 = 0;
        let mut i: usize = 0;
        while i < vals.len()
            invariant
                i <= vals.len(),
                dv == vals.deep_view(),
                dv.len() == vals.len(),
                all_ints(dv),
                acc == int_sum(dv.take(i as int)),
            decreases vals.len() - i,
        {
            proof {
                assert(dv.take(i + 1).drop_last() =~= dv.take(i as int));
                assert(dv.take(i + 1).last() == dv[i as int]);
            }
            match &vals[i] {
                Value::Integer(x) => {
                    acc = acc.wrapping_add(*x);
                },
                _ => {
                    proof {
                        assert(is_int(dv[i as int]));
                        assert(false);
                    }
                },
            }
            i = i + 1;
        }
        proof {
            assert(dv.take(vals.len() as int) =~= dv);
        }
        Ok(Value::Integer(acc))
    } else if an {
        let mut acc: u64 = REAL_ZERO_BITS;
        let mut i: usize = 0;
        while i < vals.len()
            invariant
                i <= vals.len(),
                dv == vals.deep_view(),
                dv.len() == vals.len(),
                all_nums(dv),
                acc == real_sum(dv.take(i as int)),
            decreases vals.len() - i,
        {
            proof {
                assert(dv.take(i + 1).drop_last() =~= dv.take(i as int));
                assert(dv.take(i + 1).last() == dv[i as int]);
            }
            let w = widen_exec(&vals[i]);
            acc = real_add_bits(acc, w);
            i = i + 1;
        }
        proof {
            assert(dv.take(vals.len() as int) =~= dv);
        }
        Ok(Value::Real(acc))
    } else if at {
        let mut acc = String::new();
        let mut i: usize = 0;
        while i < vals.len()
            invariant
                i <= vals.len(),
                dv == vals.deep_view(),
                dv.len() == vals.len(),
                all_texty(dv),
                acc@ == concat_texts(dv.take(i as int)),
            decreases vals.len() - i,
        {
            proof {
                assert(dv.take(i + 1).drop_last() =~= dv.take(i as int));
                assert(dv.take(i + 1).last() == dv[i as int]);
            }
            let piece = text_of_exec(&vals[i]);
            acc = acc.concat(piece.as_str());
            i = i + 1;
        }
        proof {
            assert(dv.take(vals.len() as int) =~= dv);
        }
        Ok(Value::Text(acc))
    } else {
        Err(EvalError::TypeError("add", "invalid value"))
    }
}

/// The double standing for a numeric operand.
fn widen_exec(v: &Value) -> (r: u64)
    requires
        is_num(v@),
    ensures
        r == widen(v@),
        v@ matches ValV::Integer(_) ==> !real_is_nan(r),
{
    match v {
        Value::Integer(x) => int_to_real_bits(*x),
        Value::Real(b) => *b,
        _ => {
            proof {
                assert(false);
            }
            0
        },
    }
}

/// The text standing for an addable operand.
fn text_of_exec(v: &Value) -> (r: String)
    requires
        is_texty(v@),
    ensures
        r@ == text_of(v@),
{
    match v {
        Value::Integer(x) => int_to_text(*x),
        Value::Real(b) => crate::dbl::real_text_bits(*b),
        Value::Text(s) => s.clone(),
        _ => {
            proof {
                assert(false);
            }
            String::new()
        },
    }
}

/// Subtraction: the first operand minus the sum of the rest.
pub fn subtract(vals: &Vec<Value>) -> (r: Result<Value, EvalError>)
    ensures
        res_matches(r, spec_subtract(vals.deep_view())),
{
    let ghost dv = vals.deep_view();
    if vals.len() == 0 {
        return Err(EvalError::TypeError("subtract", "missing values"));
    }
    let (ai, an, _at) = classify(vals);
    if ai {
        let first = match &vals[0] {
            Value::Integer(x) => *x,
            _ => {
                proof {
                    assert(is_int(dv[0]));
                    assert(false);
                }
                0
            },
        };
        let mut acc: i64 = 0;
        let mut i: usize = 1;
        while i < vals.len()
            invariant
                1 <= i <= vals.len(),
                dv == vals.deep_view(),
                dv.len() == vals.len(),
                all_ints(dv),
                acc == int_sum(dv.subrange(1, i as int)),
            decreases vals.len() - i,
        {
            proof {
                assert(dv.subrange(1, i + 1).drop_last() =~= dv.subrange(1, i as int));
                assert(dv.subrange(1, i + 1).last() == dv[i as int]);
            }
            match &vals[i] {
                Value::Integer(x) => {
                    acc = acc.wrapping_add(*x);
                },
                _ => {
                    proof {
                        assert(is_int(dv[i as int]));
                        assert(false);
                    }
                },
            }
            i = i + 1;
        }
        proof {
            assert(dv.subrange(1, dv.len() as int) =~= dv.drop_first());
        }
        Ok(Value::Integer(first.wrapping_sub(acc)))
    } else if an {
        let first = widen_exec(&vals[0]);
        let mut acc: u64 = REAL_ZERO_BITS;
        let mut i: usize = 1;
        while i < vals.len()
            invariant
                1 <= i <= vals.len(),
                dv == vals.deep_view(),
                dv.len() == vals.len(),
                all_nums(dv),
                acc == real_sum(dv.subrange(1, i as int)),
            decreases vals.len() - i,
        {
            proof {
                assert(dv.subrange(1, i + 1).drop_last() =~= dv.subrange(1, i as int));
                assert(dv.subrange(1, i + 1).last() == dv[i as int]);
            }
            let w = widen_exec(&vals[i]);
            acc = real_add_bits(acc, w);
            i = i + 1;
        }
        proof {
            assert(dv.subrange(1, dv.len() as int) =~= dv.drop_first());
        }
        Ok(Value::Real(real_sub_bits(first, acc)))
    } else {
        Err(EvalError::TypeError("subtract", "invalid value"))
    }
}

/// Multiplication: the product of all operands.
pub fn multiply(vals: &Vec<Value>) -> (r: Result<Value, EvalError>)
    ensures
        res_matches(r, spec_multiply(vals.deep_view())),
{
    let ghost dv = vals.deep_view();
    let (ai, an, _at) = classify(vals);
    if ai {
        let mut acc: i64 = 1;
        let mut i: usize = 0;
        while i < vals.len()
            invariant
                i <= vals.len(),
                dv == vals.deep_view(),
                dv.len() == vals.len(),
                all_ints(dv),
                acc == int_prod(dv.take(i as int)),
            decreases vals.len() - i,
        {
            proof {
                assert(dv.take(i + 1).drop_last() =~= dv.take(i as int));
                assert(dv.take(i + 1).last() == dv[i as int]);
            }
            match &vals[i] {
                Value::Integer(x) => {
                    acc = acc.wrapping_mul(*x);
                },
                _ => {
                    proof {
                        assert(is_int(dv[i as int]));
                        assert(false);
                    }
                },
            }
            i = i + 1;
        }
        proof {
            assert(dv.take(vals.len() as int) =~= dv);
        }
        Ok(Value::Integer(acc))
    } else if an {
        let mut acc: u64 = REAL_ONE_BITS;
        let mut i: usize = 0;
        while i < vals.len()
            invariant
                i <= vals.len(),
                dv == vals.deep_view(),
                dv.len() == vals.len(),
                all_nums(dv),
                acc == real_prod(dv.take(i as int)),
            decreases vals.len() - i,
        {
            proof {
                assert(dv.take(i + 1).drop_last() =~= dv.take(i as int));
                assert(dv.take(i + 1).last() == dv[i as int]);
            }
            let w = widen_exec(&vals[i]);
            acc = real_mul_bits(acc, w);
            i = i + 1;
        }
        proof {
            assert(dv.take(vals.len() as int) =~= dv);
        }
        Ok(Value::Real(acc))
    } else {
        Err(EvalError::TypeError("multiply", "invalid value"))
    }
}

/// Division in reciprocal-product form: `first * (1/rest[0]) * ...`.
pub fn divide(vals: &Vec<Value>) -> (r: Result<Value, EvalError>)
    ensures
        res_matches(r, spec_divide(vals.deep_view())),
{
    let ghost dv = vals.deep_view();
    if vals.len() == 0 {
        return Err(EvalError::TypeError("divide", "missing values"));
    }
    let (_ai, an, _at) = classify(vals);
    if an {
        let first = widen_exec(&vals[0]);
        let mut acc: u64 = REAL_ONE_BITS;
        let mut i: usize = 1;
        while i < vals.len()
            invariant
                1 <= i <= vals.len(),
                dv == vals.deep_view(),
                dv.len() == vals.len(),
                all_nums(dv),
                acc == recip_prod(dv.subrange(1, i as int)),
            decreases vals.len() - i,
        {
            proof {
                assert(dv.subrange(1, i + 1).drop_last() =~= dv.subrange(1, i as int));
                assert(dv.subrange(1, i + 1).last() == dv[i as int]);
            }
            let w = widen_exec(&vals[i]);
            let recip = real_div_bits(REAL_ONE_BITS, w);
            acc = real_mul_bits(acc, recip);
            i = i + 1;
        }
        proof {
            assert(dv.subrange(1, dv.len() as int) =~= dv.drop_first());
        }
        Ok(Value::Real(real_mul_bits(first, acc)))
    } else {
        Err(EvalError::TypeError("divide", "invalid value"))
    }
}

proof fn lemma_truthy_step(s: Seq<ValV>, i: int, lists: Seq<Seq<ValV>>)
    requires
        0 <= i < s.len(),
    ensures
        all_truthy(s.take(i + 1), lists) == (all_truthy(s.take(i), lists) && spec_truthy(
            s[i],
            lists,
        )),
        any_truthy(s.take(i + 1), lists) == (any_truthy(s.take(i), lists) || spec_truthy(
            s[i],
            lists,
        )),
{
    assert(forall|j: int| 0 <= j < i + 1 ==> s.take(i + 1)[j] == s[j]);
    assert(forall|j: int| 0 <= j < i ==> s.take(i)[j] == s[j]);
    if all_truthy(s.take(i), lists) && spec_truthy(s[i], lists) {
        assert forall|j: int| 0 <= j < i + 1 implies spec_truthy(
            #[trigger] s.take(i + 1)[j],
            lists,
        ) by {
            if j < i {
                assert(spec_truthy(s.take(i)[j], lists));
            }
        }
    }
    if all_truthy(s.take(i + 1), lists) {
        assert forall|j: int| 0 <= j < i implies spec_truthy(#[trigger] s.take(i)[j], lists) by {
            assert(spec_truthy(s.take(i + 1)[j], lists));
        }
        assert(spec_truthy(s.take(i + 1)[i], lists));
    }
    if any_truthy(s.take(i), lists) {
        let j = choose|j: int| 0 <= j < s.take(i).len() && spec_truthy(
            #[trigger] s.take(i)[j],
            lists,
        );
        assert(spec_truthy(s.take(i + 1)[j], lists));
    }
    if spec_truthy(s[i], lists) {
        assert(spec_truthy(s.take(i + 1)[i], lists));
    }
    if any_truthy(s.take(i + 1), lists) && !spec_truthy(s[i], lists) {
        let j = choose|j: int| 0 <= j < i + 1 && spec_truthy(#[trigger] s.take(i + 1)[j], lists);
        assert(j < i);
        assert(spec_truthy(s.take(i)[j], lists));
    }
}

/// Logical conjunction over truthiness, encoded as integer 1 or 0.
pub fn and(vals: &Vec<Value>, heap: &crate::heap::Heap) -> (r: Value)
    requires
        forall|i: int|
            0 <= i < vals.deep_view().len() ==> ((#[trigger] vals.deep_view()[i]) matches
            ValV::List(h) ==> 0 <= h < heap@.lists.len()),
    ensures
        r@ == spec_and(vals.deep_view(), heap@.lists),
{
    let ghost dv = vals.deep_view();
    let mut all = true;
    let mut i: usize = 0;
    while i < vals.len()
        invariant
            i <= vals.len(),
            dv == vals.deep_view(),
            dv.len() == vals.len(),
            forall|j: int|
                0 <= j < dv.len() ==> ((#[trigger] dv[j]) matches ValV::List(h) ==> 0 <= h
                    < heap@.lists.len()),
            all == all_truthy(dv.take(i as int), heap@.lists),
        decreases vals.len() - i,
    {
        proof {
            lemma_truthy_step(dv, i as int, heap@.lists);
            assert(dv[i as int] == vals@[i as int]@);
        }
        let b = vals[i].to_bool(heap);
        all = all && b;
        i = i + 1;
    }
    proof {
        assert(dv.take(vals.len() as int) =~= dv);
    }
    Value::Integer(
        if all {
            1
        } else {
            0
        },
    )
}

/// Logical disjunction over truthiness, encoded as integer 1 or 0.
pub fn or(vals: &Vec<Value>, heap: &crate::heap::Heap) -> (r: Value)
    requires
        forall|i: int|
            0 <= i < vals.deep_view().len() ==> ((#[trigger] vals.deep_view()[i]) matches
            ValV::List(h) ==> 0 <= h < heap@.lists.len()),
    ensures
        r@ == spec_or(vals.deep_view(), heap@.lists),
{
    let ghost dv = vals.deep_view();
    let mut any = false;
    let mut i: usize = 0;
    while i < vals.len()
        invariant
            i <= vals.len(),
            dv == vals.deep_view(),
            dv.len() == vals.len(),
            forall|j: int|
                0 <= j < dv.len() ==> ((#[trigger] dv[j]) matches ValV::List(h) ==> 0 <= h
                    < heap@.lists.len()),
            any == any_truthy(dv.take(i as int), heap@.lists),
        decreases vals.len() - i,
    {
        proof {
            lemma_truthy_step(dv, i as int, heap@.lists);
            assert(dv[i as int] == vals@[i as int]@);
        }
        let b = vals[i].to_bool(heap);
        any = any || b;
        i = i + 1;
    }
    proof {
        assert(dv.take(vals.len() as int) =~= dv);
    }
    Value::Integer(
        if any {
            1
        } else {
            0
        },
    )
}

/// Three-way comparison of two values: -1, 0 or 1, or a type error.
pub fn compare(v1: &Value, v2: &Value) -> (r: Result<i64, EvalError>)
    ensures
        match (r, spec_compare(v1@, v2@)) {
            (Ok(c), Ok(sc)) => c == sc,
            (Err(e), Err(se)) => e@ == se,
            _ => false,
        },
{
    match (v1, v2) {
        (Value::Integer(x), Value::Integer(y)) => Ok(
            if *x < *y {
                -1
            } else if *x > *y {
                1
            } else {
                0
            },
        ),
        (Value::Integer(x), Value::Real(rb)) => {
            if is_nan_bits(*rb) {
                Err(EvalError::TypeError("compare", "incompatible comparison values"))
            } else {
                let ra = int_to_real_bits(*x);
                Ok(real_cmp_bits(ra, *rb))
            }
        },
        (Value::Real(ra), Value::Integer(y)) => {
            if is_nan_bits(*ra) {
                Err(EvalError::TypeError("compare", "incompatible comparison values"))
            } else {
                let rb = int_to_real_bits(*y);
                Ok(real_cmp_bits(*ra, rb))
            }
        },
        (Value::Real(ra), Value::Real(rb)) => {
            if is_nan_bits(*ra) || is_nan_bits(*rb) {
                Err(EvalError::TypeError("compare", "incompatible comparison values"))
            } else {
                Ok(real_cmp_bits(*ra, *rb))
            }
        },
        (Value::Text(s1), Value::Text(s2)) => Ok(text_cmp3(s1, s2)),
        _ => Err(EvalError::TypeError("compare", "incompatible comparison values")),
    }
}

/// Law: adding two integers gives their wrapping sum as an integer, in
/// either order — binary integer addition is commutative.
pub proof fn lemma_add_integers_commutative(a: i64, b: i64)
    ensures
        spec_add(seq![ValV::Integer(a), ValV::Integer(b)]) == Ok::<ValV, ErrV>(
            ValV::Integer(
                i64_specs::wrapping_add(i64_specs::wrapping_add(0, a), b),
            ),
        ),
        spec_add(seq![ValV::Integer(a), ValV::Integer(b)]) == spec_add(
            seq![ValV::Integer(b), ValV::Integer(a)],
        ),
{
    lemma_add_two_integers(a, b);
    lemma_add_two_integers(b, a);
}

proof fn lemma_add_two_integers(a: i64, b: i64)
    ensures
        spec_add(seq![ValV::Integer(a), ValV::Integer(b)]) == Ok::<ValV, ErrV>(
            ValV::Integer(
                i64_specs::wrapping_add(i64_specs::wrapping_add(0, a), b),
            ),
        ),
{
    let s = seq![ValV::Integer(a), ValV::Integer(b)];
    assert(all_ints(s)) by {
        assert(forall|i: int| 0 <= i < 2 ==> is_int(#[trigger] s[i]));
    }
    assert(s.drop_last() =~= seq![ValV::Integer(a)]);
    assert(seq![ValV::Integer(a)].drop_last() =~= Seq::<ValV>::empty());
    assert(int_sum(Seq::<ValV>::empty()) == 0);
    assert(seq![ValV::Integer(a)].last() == ValV::Integer(a));
    assert(int_sum(seq![ValV::Integer(a)]) == i64_specs::wrapping_add(0, a));
    assert(s.last() == ValV::Integer(b));
    assert(int_sum(s) == i64_specs::wrapping_add(i64_specs::wrapping_add(0, a), b));
}

/// Law: integer addition is associative — adding `c` to the sum of `a` and
/// `b` equals adding the sum of `b` and `c` to `a`.
pub proof fn lemma_add_integers_associative(a: i64, b: i64, c: i64)
    ensures
        ({
            let ab = i64_specs::wrapping_add(i64_specs::wrapping_add(0, a), b);
            let bc = i64_specs::wrapping_add(i64_specs::wrapping_add(0, b), c);
            spec_add(seq![ValV::Integer(ab), ValV::Integer(c)]) == spec_add(
                seq![ValV::Integer(a), ValV::Integer(bc)],
            )
        }),
{
    let ab = i64_specs::wrapping_add(i64_specs::wrapping_add(0, a), b);
    let bc = i64_specs::wrapping_add(i64_specs::wrapping_add(0, b), c);
    lemma_add_two_integers(ab, c);
    lemma_add_two_integers(a, bc);
}

/// Law: mixing one real into an addition turns the result into a real, the
/// fold of correctly rounded double additions over the widened operands.
pub proof fn lemma_add_mixing_real(a: i64, b: u64)
    ensures
        spec_add(seq![ValV::Integer(a), ValV::Real(b)]) == Ok::<ValV, ErrV>(
            ValV::Real(real_add(real_add(REAL_ZERO_BITS, real_of_int(a)), b)),
        ),
{
    let s = seq![ValV::Integer(a), ValV::Real(b)];
    assert(!is_int(s[1]));
    assert(!all_ints(s));
    assert(all_nums(s)) by {
        assert(forall|i: int| 0 <= i < 2 ==> is_num(#[trigger] s[i]));
    }
    assert(s.drop_last() =~= seq![ValV::Integer(a)]);
    assert(seq![ValV::Integer(a)].drop_last() =~= Seq::<ValV>::empty());
    assert(real_sum(Seq::<ValV>::empty()) == REAL_ZERO_BITS);
    assert(seq![ValV::Integer(a)].last() == ValV::Integer(a));
    assert(real_sum(seq![ValV::Integer(a)]) == real_add(REAL_ZERO_BITS, real_of_int(a)));
    assert(s.last() == ValV::Real(b));
    assert(real_sum(s) == real_add(real_add(REAL_ZERO_BITS, real_of_int(a)), b));
}

/// Law: mixing a text into an addition turns the result into ordered
/// concatenation of the operands' textual renderings, while `subtract` and
/// `multiply` reject any operand list holding a text.
pub proof fn lemma_add_mixing_text(a: i64, t: Seq<char>)
    ensures
        spec_add(seq![ValV::Integer(a), ValV::Text(t)]) == Ok::<ValV, ErrV>(
            ValV::Text(int_text(a as int) + t),
        ),
        spec_subtract(seq![ValV::Integer(a), ValV::Text(t)]) is Err,
        spec_multiply(seq![ValV::Integer(a), ValV::Text(t)]) is Err,
{
    let s = seq![ValV::Integer(a), ValV::Text(t)];
    assert(!is_int(s[1]));
    assert(!is_num(s[1]));
    assert(!all_ints(s));
    assert(!all_nums(s));
    assert(all_texty(s)) by {
        assert(forall|i: int| 0 <= i < 2 ==> is_texty(#[trigger] s[i]));
    }
    assert(s.drop_last() =~= seq![ValV::Integer(a)]);
    assert(seq![ValV::Integer(a)].drop_last() =~= Seq::<ValV>::empty());
    assert(concat_texts(Seq::<ValV>::empty()) =~= Seq::<char>::empty());
    assert(seq![ValV::Integer(a)].last() == ValV::Integer(a));
    assert(concat_texts(seq![ValV::Integer(a)]) =~= int_text(a as int));
    assert(s.last() == ValV::Text(t));
    assert(concat_texts(s) =~= int_text(a as int) + t);
}

/// Law: `subtract` and `multiply` reject texts entirely — one text operand
/// anywhere makes them fail, whatever the other operands are.
pub proof fn lemma_subtract_multiply_reject_text(s: Seq<ValV>, i: int)
    requires
        0 <= i < s.len(),
        s[i] matches ValV::Text(_),
    ensures
        spec_subtract(s) is Err,
        spec_multiply(s) is Err,
{
    assert(!is_int(s[i]));
    assert(!is_num(s[i]));
    assert(!all_ints(s));
    assert(!all_nums(s));
}

/// Law: `divide(a, b, c)` is exactly the reciprocal-product form
/// `a * ((1/b) * (1/c))` — the product of reciprocals folded from one and
/// then multiplied into the first operand, not sequential division.
pub proof fn lemma_divide_reciprocal_product(a: u64, b: u64, c: u64)
    ensures
        spec_divide(seq![ValV::Real(a), ValV::Real(b), ValV::Real(c)]) == Ok::<ValV, ErrV>(
            ValV::Real(
                real_mul(
                    a,
                    real_mul(
                        real_mul(REAL_ONE_BITS, real_div(REAL_ONE_BITS, b)),
                        real_div(REAL_ONE_BITS, c),
                    ),
                ),
            ),
        ),
{
    let s = seq![ValV::Real(a), ValV::Real(b), ValV::Real(c)];
    assert(all_nums(s)) by {
        assert(forall|i: int| 0 <= i < 3 ==> is_num(#[trigger] s[i]));
    }
    let r = s.drop_first();
    assert(r =~= seq![ValV::Real(b), ValV::Real(c)]);
    assert(r.drop_last() =~= seq![ValV::Real(b)]);
    assert(seq![ValV::Real(b)].drop_last() =~= Seq::<ValV>::empty());
    assert(recip_prod(Seq::<ValV>::empty()) == REAL_ONE_BITS);
    assert(seq![ValV::Real(b)].last() == ValV::Real(b));
    assert(recip_prod(seq![ValV::Real(b)]) == real_mul(
        REAL_ONE_BITS,
        real_div(REAL_ONE_BITS, b),
    ));
    assert(r.last() == ValV::Real(c));
    assert(recip_prod(r) == real_mul(
        real_mul(REAL_ONE_BITS, real_div(REAL_ONE_BITS, b)),
        real_div(REAL_ONE_BITS, c),
    ));
    assert(s[0] == ValV::Real(a));
    assert(widen(s[0]) == a);
}

/// Law: comparing NaN with anything fails with a type error, on whichever
/// side the NaN stands.
pub proof fn lemma_compare_nan_fails(b: u64, v: ValV)
    requires
        real_is_nan(b),
    ensures
        spec_compare(ValV::Real(b), v) is Err,
        spec_compare(v, ValV::Real(b)) is Err,
{
}

} // verus!
