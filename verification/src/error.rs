//! Error types.
//!
//! [`EvalError`] is the evaluator's own error: every failure of a running
//! program is one of its variants, and the spec-level interpreter in
//! [`crate::semantics`] names the same failures through [`ErrV`].  The plain
//! record types below carry the host-facing diagnoses of the front end that
//! builds instruction trees (missing children or attributes, malformed
//! programs) and of native helpers.

use vstd::prelude::*;
use vstd::string::StringExecFns;

use crate::text::nat_text;
use crate::text::nat_to_text;

verus! {

/// A named child element was absent: `(parent tag, missing child)`.
#[derive(Clone, Copy, Debug)]
pub struct MissingChild(pub &'static str, pub &'static str);

/// A named attribute was absent: `(tag, missing attribute)`.
#[derive(Clone, Copy, Debug)]
pub struct MissingAttribute(pub &'static str, pub &'static str);

/// A call received the wrong number of arguments: `(callee, count)`.
#[derive(Clone, Copy, Debug)]
pub struct BadArgumentCount(pub &'static str, pub usize);

/// A tag held the wrong number of children: `(tag, count)`.
#[derive(Clone, Copy, Debug)]
pub struct BadChildCount(pub &'static str, pub usize);

/// An argument value was unusable: `(callee, argument)`.
#[derive(Clone, Copy, Debug)]
pub struct InvalidArgument(pub &'static str, pub &'static str);

/// A tag held an unusable value: `(tag)`.
#[derive(Clone, Copy, Debug)]
pub struct InvalidValue(pub &'static str);

/// The document does not have the expected overall structure.
#[derive(Clone, Copy, Debug)]
pub struct InvalidProgram;

/// Two values that cannot be compared with each other.
#[derive(Clone, Copy, Debug)]
pub struct IncompatibleValues;

/// A construct that requires a name lacked one: `(construct)`.
#[derive(Clone, Copy, Debug)]
pub struct Unnamed(pub &'static str);

/// A variable name with no binding in scope: `(name)`.
#[derive(Clone, Debug)]
pub struct UnknownVariable(pub String);

/// A failure of a running program.  Every error aborts the evaluation and
/// propagates to the host unchanged.
#[derive(Debug)]
pub enum EvalError {
    /// A variable reference found no binding anywhere in the scope chain.
    UnknownVariable(String),
    /// A by-name call found no binding for the function name.
    UnknownFunction(String),
    /// A call passed the wrong number of arguments: `(expected, actual)`.
    ArityMismatch(usize, usize),
    /// An operation received operands of types it does not accept, an
    /// unparsable literal, or an out-of-range index: `(operation, reason)`.
    TypeError(&'static str, &'static str),
    /// A list was mutated while a loop was iterating over it.
    MutationDuringIteration,
    /// The evaluation budget handed to the evaluator ran out.
    StepLimit,
    /// The host failed to perform input or file access: `(operation)`.
    HostFailure(&'static str),
}

/// Spec-level shape of an [`EvalError`].
pub enum ErrV {
    UnknownVariable(Seq<char>),
    UnknownFunction(Seq<char>),
    ArityMismatch(int, int),
    TypeError(Seq<char>, Seq<char>),
    MutationDuringIteration,
    StepLimit,
    HostFailure(Seq<char>),
}

impl View for EvalError {
    type V = ErrV;

    open spec fn view(&self) -> ErrV {
        match self {
            EvalError::UnknownVariable(n) => ErrV::UnknownVariable(n@),
            EvalError::UnknownFunction(n) => ErrV::UnknownFunction(n@),
            EvalError::ArityMismatch(e, a) => ErrV::ArityMismatch(*e as int, *a as int),
            EvalError::TypeError(op, why) => ErrV::TypeError(op@, why@),
            EvalError::MutationDuringIteration => ErrV::MutationDuringIteration,
            EvalError::StepLimit => ErrV::StepLimit,
            EvalError::HostFailure(op) => ErrV::HostFailure(op@),
        }
    }
}

impl MissingChild {
    /// The diagnosis as text.
    pub fn message(&self) -> (r: String)
        ensures
            r@ == "missing '"@ + self.1@ + "' child in '"@ + self.0@ + "' node"@,
    {
        let mut out = String::from_str("missing '");
        out.append(self.1);
        out.append("' child in '");
        out.append(self.0);
        out.append("' node");
        proof {
            assert(out@ =~= "missing '"@ + self.1@ + "' child in '"@ + self.0@ + "' node"@);
        }
        out
    }
}

impl MissingAttribute {
    /// The diagnosis as text.
    pub fn message(&self) -> (r: String)
        ensures
            r@ == "missing '"@ + self.1@ + "' attribute on '"@ + self.0@ + "' tag"@,
    {
        let mut out = String::from_str("missing '");
        out.append(self.1);
        out.append("' attribute on '");
        out.append(self.0);
        out.append("' tag");
        proof {
            assert(out@ =~= "missing '"@ + self.1@ + "' attribute on '"@ + self.0@ + "' tag"@);
        }
        out
    }
}

impl BadArgumentCount {
    /// The diagnosis as text.
    pub fn message(&self) -> (r: String)
        ensures
            r@ == "bad argument count ("@ + nat_text(self.1 as int) + ") in call to '"@
                + self.0@ + "'"@,
    {
        let mut out = String::from_str("bad argument count (");
        let count = nat_to_text(self.1 as u64);
        out.append(count.as_str());
        out.append(") in call to '");
        out.append(self.0);
        out.append("'");
        proof {
            assert(out@ =~= "bad argument count ("@ + nat_text(self.1 as int)
                + ") in call to '"@ + self.0@ + "'"@);
        }
        out
    }
}

impl BadChildCount {
    /// The diagnosis as text.
    pub fn message(&self) -> (r: String)
        ensures
            r@ == "bad child count ("@ + nat_text(self.1 as int) + ") in '"@ + self.0@
                + "' tag"@,
    {
        let mut out = String::from_str("bad child count (");
        let count = nat_to_text(self.1 as u64);
        out.append(count.as_str());
        out.append(") in '");
        out.append(self.0);
        out.append("' tag");
        proof {
            assert(out@ =~= "bad child count ("@ + nat_text(self.1 as int) + ") in '"@
                + self.0@ + "' tag"@);
        }
        out
    }
}

impl InvalidArgument {
    /// The diagnosis as text.
    pub fn message(&self) -> (r: String)
        ensures
            r@ == "invalid value for argument '"@ + self.1@ + "' in call to '"@ + self.0@
                + "'"@,
    {
        let mut out = String::from_str("invalid value for argument '");
        out.append(self.1);
        out.append("' in call to '");
        out.append(self.0);
        out.append("'");
        proof {
            assert(out@ =~= "invalid value for argument '"@ + self.1@ + "' in call to '"@
                + self.0@ + "'"@);
        }
        out
    }
}

impl InvalidValue {
    /// The diagnosis as text.
    pub fn message(&self) -> (r: String)
        ensures
            r@ == "invalid value in '"@ + self.0@ + "' tag"@,
    {
        let mut out = String::from_str("invalid value in '");
        out.append(self.0);
        out.append("' tag");
        proof {
            assert(out@ =~= "invalid value in '"@ + self.0@ + "' tag"@);
        }
        out
    }
}

impl InvalidProgram {
    /// The diagnosis as text.
    pub fn message(&self) -> (r: String)
        ensures
            r@ == "invalid program structure"@,
    {
        String::from_str("invalid program structure")
    }
}

impl IncompatibleValues {
    /// The diagnosis as text.
    pub fn message(&self) -> (r: String)
        ensures
            r@ == "incompatible comparison values"@,
    {
        String::from_str("incompatible comparison values")
    }
}

impl Unnamed {
    /// The diagnosis as text.
    pub fn message(&self) -> (r: String)
        ensures
            r@ == "unnamed '"@ + self.0@ + "'"@,
    {
        let mut out = String::from_str("unnamed '");
        out.append(self.0);
        out.append("'");
        proof {
            assert(out@ =~= "unnamed '"@ + self.0@ + "'"@);
        }
        out
    }
}

impl UnknownVariable {
    /// The diagnosis as text.
    pub fn message(&self) -> (r: String)
        ensures
            r@ == "unknown variable '"@ + self.0@ + "'"@,
    {
        let mut out = String::from_str("unknown variable '");
        out.append(self.0.as_str());
        out.append("'");
        proof {
            assert(out@ =~= "unknown variable '"@ + self.0@ + "'"@);
        }
        out
    }
}

impl EvalError {
    /// The diagnosis as text.
    pub fn message(&self) -> (r: String)
    {
        match self {
            EvalError::UnknownVariable(n) => {
                let mut out = String::from_str("unknown variable '");
                out.append(n.as_str());
                out.append("'");
                out
            },
            EvalError::UnknownFunction(n) => {
                let mut out = String::from_str("unknown function '");
                out.append(n.as_str());
                out.append("'");
                out
            },
            EvalError::ArityMismatch(expected, actual) => {
                let mut out = String::from_str("call expected ");
                let e = nat_to_text(*expected as u64);
                out.append(e.as_str());
                out.append(" arguments, got ");
                let a = nat_to_text(*actual as u64);
                out.append(a.as_str());
                out
            },
            EvalError::TypeError(op, why) => {
                let mut out = String::from_str("type error in '");
                out.append(op);
                out.append("': ");
                out.append(why);
                out
            },
            EvalError::MutationDuringIteration => String::from_str(
                "list mutated while a loop was iterating over it",
            ),
            EvalError::StepLimit => String::from_str("evaluation budget exhausted"),
            EvalError::HostFailure(op) => {
                let mut out = String::from_str("host failed to perform '");
                out.append(op);
                out.append("'");
                out
            },
        }
    }
}

} // verus!
