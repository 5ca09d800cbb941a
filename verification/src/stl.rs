//! The native function surface.
//!
//! [`NativeKind`] closes over the host-provided functions a program can
//! call.  The pure ones (list access, text helpers) are evaluated inside the
//! library; the ones that touch the outside world go through the [`Host`]
//! trait, which the embedding program implements.  [`MemHost`] is an
//! in-memory host for tests and batch runs: it records emitted text and
//! serves scripted input lines and an in-memory file table.

use vstd::prelude::*;
use vstd::string::{StrSliceExecFns, StringExecFns};

use crate::context::Context;
use crate::error::EvalError;
use crate::program::{Interp, Program};
use crate::semantics::{list_vals_wf, native_step, opt_view, st_alloc, EOut, SState};
use crate::text::{char_to_text, int_to_text, split_text};
use crate::value::{val_wf, ValV, Value};

verus! {

/// A host-provided native function.
#[derive(Clone, Copy, Debug, PartialEq, Eq, Structural)]
pub enum NativeKind {
    /// Writes one value, without a newline, and returns it.
    Print,
    /// Writes one value followed by a newline and returns it.
    PrintLine,
    /// Reads one line of input, without its trailing newline.
    Input,
    /// Splits a text by a delimiter text, dropping the first and last piece.
    StringSplit,
    /// Replaces the item at an index of a list.
    ArraySet,
    /// Appends an item to a list.
    ArrayPush,
    /// Removes and returns the last item of a list.
    ArrayPop,
    /// Returns the item at an index of a list.
    ArrayGet,
    /// Returns the length of a list.
    ArrayLength,
    /// Turns a code between 0 and 127 into a one-character text.
    ToAscii,
    /// Turns a one-byte text into its code.
    FromAscii,
    /// Returns the program arguments as a fresh list of texts.
    GetArgs,
    /// Writes or appends a text to a named file.
    WriteFile,
    /// Reads a named file into a text.
    ReadFile,
}

/// What the evaluator asks of the embedding program.  The methods carry no
/// contracts: the evaluator promises nothing about values that come from
/// the host, and states what holds whatever they return.
pub trait Host {
    /// Deliver a piece of program output.
    fn emit(&mut self, s: &String);

    /// One line of input, without its trailing newline, or `None` when no
    /// input can be read.
    fn read_line(&mut self) -> Option<String>;

    /// The contents of the named file, or `None` when it cannot be read.
    fn read_file(&mut self, path: &String) -> Option<String>;

    /// Write (or, when `append` holds, append) `contents` to the named
    /// file; `false` when the file cannot be written.
    fn write_file(&mut self, path: &String, contents: &String, append: bool) -> bool;
}

/// An in-memory [`Host`]: output is collected, input lines and file
/// contents are served from tables given up front.
pub struct MemHost {
    /// Every emitted piece of text, in order.
    pub out: Vec<String>,
    /// Scripted input lines, served in order.
    pub in_lines: Vec<String>,
    /// How many input lines have been served.
    pub served: usize,
    /// File table: `(path, contents)` pairs.
    pub files: Vec<(String, String)>,
}

impl MemHost {
    pub fn new() -> MemHost {
        MemHost { out: Vec::new(), in_lines: Vec::new(), served: 0, files: Vec::new() }
    }
}

impl Host for MemHost {
    fn emit(&mut self, s: &String) {
        self.out.push(s.clone());
    }

    fn read_line(&mut self) -> Option<String> {
        if self.served < self.in_lines.len() {
            let line = self.in_lines[self.served].clone();
            self.served = self.served + 1;
            Some(line)
        } else {
            None
        }
    }

    fn read_file(&mut self, path: &String) -> Option<String> {
        let mut i: usize = 0;
        while i < self.files.len()
            decreases self.files.len() - i,
        {
            if self.files[i].0 == *path {
                return Some(self.files[i].1.clone());
            }
            i = i + 1;
        }
        None
    }

    fn write_file(&mut self, path: &String, contents: &String, append: bool) -> bool {
        let mut i: usize = 0;
        while i < self.files.len()
            decreases self.files.len() - i,
        {
            if self.files[i].0 == *path {
                if append {
                    let joined = self.files[i].1.clone().concat(contents.as_str());
                    self.files[i].1 = joined;
                } else {
                    self.files[i].1 = contents.clone();
                }
                return true;
            }
            i = i + 1;
        }
        self.files.push((path.clone(), contents.clone()));
        true
    }
}

/// The bindings the root scope starts with: one per native function.
pub open spec fn natives_map() -> Map<Seq<char>, ValV> {
    Map::empty()
        .insert("print"@, ValV::Native(NativeKind::Print))
        .insert("print-line"@, ValV::Native(NativeKind::PrintLine))
        .insert("input"@, ValV::Native(NativeKind::Input))
        .insert("string-split"@, ValV::Native(NativeKind::StringSplit))
        .insert("array-set"@, ValV::Native(NativeKind::ArraySet))
        .insert("array-push"@, ValV::Native(NativeKind::ArrayPush))
        .insert("array-pop"@, ValV::Native(NativeKind::ArrayPop))
        .insert("array-get"@, ValV::Native(NativeKind::ArrayGet))
        .insert("array-length"@, ValV::Native(NativeKind::ArrayLength))
        .insert("to-ascii"@, ValV::Native(NativeKind::ToAscii))
        .insert("from-ascii"@, ValV::Native(NativeKind::FromAscii))
        .insert("get-args"@, ValV::Native(NativeKind::GetArgs))
        .insert("write-file"@, ValV::Native(NativeKind::WriteFile))
        .insert("read-file"@, ValV::Native(NativeKind::ReadFile))
}

/// Every value bound by the natives is well formed in any state.
pub proof fn lemma_natives_map_wf(nf: int)
    ensures
        forall|key: Seq<char>| #[trigger] natives_map().dom().contains(key) ==> val_wf(
            natives_map()[key],
            0,
            nf,
        ),
{
}

/// Bind every native function in the given scope, under its language name.
pub fn inject_all(ctx: &mut Context)
    requires
        old(ctx).inv(),
        old(ctx)@.map == Map::<Seq<char>, ValV>::empty(),
    ensures
        final(ctx).inv(),
        final(ctx)@.map == natives_map(),
        final(ctx)@.parent == old(ctx)@.parent,
{
    ctx.assign(String::from_str("print"), Value::Native(NativeKind::Print));
    ctx.assign(String::from_str("print-line"), Value::Native(NativeKind::PrintLine));
    ctx.assign(String::from_str("input"), Value::Native(NativeKind::Input));
    ctx.assign(String::from_str("string-split"), Value::Native(NativeKind::StringSplit));
    ctx.assign(String::from_str("array-set"), Value::Native(NativeKind::ArraySet));
    ctx.assign(String::from_str("array-push"), Value::Native(NativeKind::ArrayPush));
    ctx.assign(String::from_str("array-pop"), Value::Native(NativeKind::ArrayPop));
    ctx.assign(String::from_str("array-get"), Value::Native(NativeKind::ArrayGet));
    ctx.assign(String::from_str("array-length"), Value::Native(NativeKind::ArrayLength));
    ctx.assign(String::from_str("to-ascii"), Value::Native(NativeKind::ToAscii));
    ctx.assign(String::from_str("from-ascii"), Value::Native(NativeKind::FromAscii));
    ctx.assign(String::from_str("get-args"), Value::Native(NativeKind::GetArgs));
    ctx.assign(String::from_str("write-file"), Value::Native(NativeKind::WriteFile));
    ctx.assign(String::from_str("read-file"), Value::Native(NativeKind::ReadFile));
}

/// The text a value prints as: numbers and texts by their rendering,
/// lists and functions by a placeholder.
fn fmt_value(v: &Value, heap: &crate::heap::Heap) -> String {
    match v {
        Value::Integer(i) => int_to_text(*i),
        Value::Real(b) => crate::dbl::real_text_bits(*b),
        Value::Text(s) => s.clone(),
        Value::List(_) => String::from_str("[list]"),
        Value::Closure(_) => String::from_str("[function]"),
        Value::Native(_) => String::from_str("[function]"),
    }
}

/// Dispatch one native call.  Wherever [`native_step`] yields a definite
/// outcome, this returns exactly that outcome; for the host-dependent
/// natives it states only that the state stays well formed.
pub fn call_native<H: Host>(
    kind: NativeKind,
    vals: Vec<Value>,
    prog: &Program,
    it: &mut Interp,
    host: &mut H,
) -> (r: Result<Option<Value>, EvalError>)
    requires
        old(it).wf(prog),
        list_vals_wf(vals.deep_view(), old(it)@.lists.len() as int, prog.funcs@.len() as int),
    ensures
        final(it).wf(prog),
        final(it)@.lists.len() >= old(it)@.lists.len(),
        final(it)@.frames.len() == old(it)@.frames.len(),
        r matches Ok(Some(v)) ==> val_wf(
            v@,
            final(it)@.lists.len() as int,
            prog.funcs@.len() as int,
        ),
        match native_step(prog@, kind, vals.deep_view(), old(it)@) {
            EOut::Done(st1, v) => final(it)@ == st1 && (r matches Ok(ov) && opt_view(ov) == v),
            EOut::Fail(st1, e) => final(it)@ == st1 && (r matches Err(err) && err@ == e),
            EOut::Host => true,
        },
{
    let ghost dv = vals.deep_view();
    let ghost nf = prog.funcs@.len() as int;
    match kind {
        NativeKind::Print | NativeKind::PrintLine => {
            if vals.len() != 1 {
                return Err(EvalError::ArityMismatch(1, vals.len()));
            }
            proof {
                assert(dv[0] == vals@[0]@);
            }
            let mut line = fmt_value(&vals[0], &it.heap);
            if matches!(kind, NativeKind::PrintLine) {
                line = line.concat("\n");
            }
            host.emit(&line);
            Ok(Some(vals[0].dup()))
        },
        NativeKind::Input => {
            if vals.len() != 0 {
                return Err(EvalError::ArityMismatch(0, vals.len()));
            }
            match host.read_line() {
                Some(s) => Ok(Some(Value::Text(s))),
                None => Err(EvalError::HostFailure("input")),
            }
        },
        NativeKind::StringSplit => {
            if vals.len() != 2 {
                return Err(EvalError::ArityMismatch(2, vals.len()));
            }
            proof {
                assert(dv[0] == vals@[0]@);
                assert(dv[1] == vals@[1]@);
            }
            match (&vals[0], &vals[1]) {
                (Value::Text(s), Value::Text(d)) => {
                    let mut parts = split_text(s, d);
                    let _ = parts.remove(0);
                    if parts.len() > 0 {
                        let _ = parts.pop();
                    }
                    let ghost kept = ({
                        let all = crate::text::split_parts(s@, d@);
                        if all.drop_first().len() > 0 {
                            all.drop_first().drop_last()
                        } else {
                            all.drop_first()
                        }
                    });
                    proof {
                        assert(parts@.len() == kept.len());
                        assert(forall|i: int| 0 <= i < parts@.len() ==> parts@[i]@ == kept[i]);
                    }
                    let mut items: Vec<Value> = Vec::new();
                    let mut i: usize = 0;
                    while i < parts.len()
                        invariant
                            i <= parts.len(),
                            items@.len() == i,
                            parts@.len() == kept.len(),
                            forall|j: int| 0 <= j < parts@.len() ==> parts@[j]@ == kept[j],
                            forall|j: int| 0 <= j < i ==> items@[j]@ == ValV::Text(kept[j]),
                        decreases parts.len() - i,
                    {
                        items.push(Value::Text(parts[i].clone()));
                        i = i + 1;
                    }
                    proof {
                        assert(items.deep_view() =~= kept.map_values(|t: Seq<char>| ValV::Text(t)));
                        crate::semantics::lemma_alloc_wf(old(it)@, items.deep_view(), nf);
                    }
                    let h = it.heap.alloc_list(items);
                    proof {
                        assert(it@ =~~= st_alloc(
                            old(it)@,
                            kept.map_values(|t: Seq<char>| ValV::Text(t)),
                        )) by {
                            assert(it@.lists =~= st_alloc(
                                old(it)@,
                                kept.map_values(|t: Seq<char>| ValV::Text(t)),
                            ).lists);
                            assert(it@.locks =~= st_alloc(old(it)@, kept.map_values(|t: Seq<char>| ValV::Text(t))).locks);
                        };
                    }
                    Ok(Some(Value::List(h)))
                },
                (Value::Text(_), _) => Err(EvalError::TypeError("string-split", "delimiter")),
                _ => Err(EvalError::TypeError("string-split", "target")),
            }
        },
        NativeKind::ArraySet => {
            if vals.len() != 3 {
                return Err(EvalError::ArityMismatch(3, vals.len()));
            }
            proof {
                assert(dv[0] == vals@[0]@);
                assert(dv[1] == vals@[1]@);
                assert(dv[2] == vals@[2]@);
                assert(val_wf(dv[0], old(it)@.lists.len() as int, nf));
            }
            match (&vals[0], &vals[1]) {
                (Value::List(h), Value::Integer(i)) => {
                    let h = *h;
                    if *i < 0 {
                        return Err(EvalError::TypeError("array-set", "index"));
                    }
                    let len = it.heap.list_len(h);
                    if (*i as u64) >= (len as u64) {
                        return Err(EvalError::TypeError("array-set", "index"));
                    }
                    let iu = *i as usize;
                    if it.heap.lock_count(h) > 0 {
                        return Err(EvalError::MutationDuringIteration);
                    }
                    let ghost updated = old(it)@.lists[h as int].update(iu as int, dv[2]);
                    proof {
                        assert(list_vals_wf(old(it)@.lists[h as int], old(it)@.lists.len() as int, nf));
                        assert forall|j: int| 0 <= j < updated.len() implies val_wf(
                            #[trigger] updated[j],
                            old(it)@.lists.len() as int,
                            nf,
                        ) by {
                            if j != iu as int {
                                assert(updated[j] == old(it)@.lists[h as int][j]);
                            }
                        }
                        crate::semantics::lemma_list_update_wf(old(it)@, h as int, updated, nf);
                    }
                    it.heap.set(h, iu, vals[2].dup());
                    Ok(None)
                },
                (Value::List(_), _) => Err(EvalError::TypeError("array-set", "index")),
                _ => Err(EvalError::TypeError("array-set", "array")),
            }
        },
        NativeKind::ArrayPush => {
            if vals.len() != 2 {
                return Err(EvalError::ArityMismatch(2, vals.len()));
            }
            proof {
                assert(dv[0] == vals@[0]@);
                assert(dv[1] == vals@[1]@);
                assert(val_wf(dv[0], old(it)@.lists.len() as int, nf));
            }
            match &vals[0] {
                Value::List(h) => {
                    let h = *h;
                    if it.heap.lock_count(h) > 0 {
                        return Err(EvalError::MutationDuringIteration);
                    }
                    if it.heap.list_len(h) >= usize::MAX {
                        return Err(EvalError::TypeError("array-push", "array"));
                    }
                    let ghost updated = old(it)@.lists[h as int].push(dv[1]);
                    proof {
                        assert(list_vals_wf(old(it)@.lists[h as int], old(it)@.lists.len() as int, nf));
                        assert forall|j: int| 0 <= j < updated.len() implies val_wf(
                            #[trigger] updated[j],
                            old(it)@.lists.len() as int,
                            nf,
                        ) by {
                            if j != updated.len() - 1 {
                                assert(updated[j] == old(it)@.lists[h as int][j]);
                            }
                        }
                        crate::semantics::lemma_list_update_wf(old(it)@, h as int, updated, nf);
                    }
                    it.heap.push_item(h, vals[1].dup());
                    Ok(None)
                },
                _ => Err(EvalError::TypeError("array-push", "array")),
            }
        },
        NativeKind::ArrayPop => {
            if vals.len() != 1 {
                return Err(EvalError::ArityMismatch(1, vals.len()));
            }
            proof {
                assert(dv[0] == vals@[0]@);
                assert(val_wf(dv[0], old(it)@.lists.len() as int, nf));
            }
            match &vals[0] {
                Value::List(h) => {
                    let h = *h;
                    if it.heap.lock_count(h) > 0 {
                        return Err(EvalError::MutationDuringIteration);
                    }
                    if it.heap.list_len(h) == 0 {
                        return Err(EvalError::TypeError("array-pop", "array"));
                    }
                    let ghost updated = old(it)@.lists[h as int].drop_last();
                    proof {
                        assert(list_vals_wf(old(it)@.lists[h as int], old(it)@.lists.len() as int, nf));
                        assert forall|j: int| 0 <= j < updated.len() implies val_wf(
                            #[trigger] updated[j],
                            old(it)@.lists.len() as int,
                            nf,
                        ) by {
                            assert(updated[j] == old(it)@.lists[h as int][j]);
                        }
                        crate::semantics::lemma_list_update_wf(old(it)@, h as int, updated, nf);
                        assert(val_wf(
                            old(it)@.lists[h as int].last(),
                            old(it)@.lists.len() as int,
                            nf,
                        ));
                    }
                    match it.heap.pop_item(h) {
                        Some(v) => Ok(Some(v)),
                        None => {
                            proof {
                                assert(false);
                            }
                            Ok(None)
                        },
                    }
                },
                _ => Err(EvalError::TypeError("array-pop", "array")),
            }
        },
        NativeKind::ArrayGet => {
            if vals.len() != 2 {
                return Err(EvalError::ArityMismatch(2, vals.len()));
            }
            proof {
                assert(dv[0] == vals@[0]@);
                assert(dv[1] == vals@[1]@);
                assert(val_wf(dv[0], old(it)@.lists.len() as int, nf));
            }
            match (&vals[0], &vals[1]) {
                (Value::List(h), Value::Integer(i)) => {
                    let h = *h;
                    if *i < 0 {
                        return Err(EvalError::TypeError("array-get", "index"));
                    }
                    let len = it.heap.list_len(h);
                    if (*i as u64) >= (len as u64) {
                        return Err(EvalError::TypeError("array-get", "index"));
                    }
                    let iu = *i as usize;
                    proof {
                        assert(list_vals_wf(old(it)@.lists[h as int], old(it)@.lists.len() as int, nf));
                    }
                    Ok(Some(it.heap.get(h, iu)))
                },
                (Value::List(_), _) => Err(EvalError::TypeError("array-get", "index")),
                _ => Err(EvalError::TypeError("array-set", "array")),
            }
        },
        NativeKind::ArrayLength => {
            if vals.len() != 1 {
                return Err(EvalError::ArityMismatch(1, vals.len()));
            }
            proof {
                assert(dv[0] == vals@[0]@);
                assert(val_wf(dv[0], old(it)@.lists.len() as int, nf));
            }
            match &vals[0] {
                Value::List(h) => {
                    let n = it.heap.list_len(*h);
                    let encoded: i64 = if (n as u64) <= (i64::MAX as u64) {
                        n as i64
                    } else {
                        i64::MAX
                    };
                    Ok(Some(Value::Integer(encoded)))
                },
                _ => Err(EvalError::TypeError("array-length", "array")),
            }
        },
        NativeKind::ToAscii => {
            if vals.len() != 1 {
                return Err(EvalError::ArityMismatch(1, vals.len()));
            }
            proof {
                assert(dv[0] == vals@[0]@);
            }
            match &vals[0] {
                Value::Integer(i) => {
                    if 0 <= *i && *i <= 127 {
                        let c = (*i as u8) as char;
                        Ok(Some(Value::Text(char_to_text(c))))
                    } else {
                        Err(EvalError::TypeError("to-ascii", "integer"))
                    }
                },
                _ => Err(EvalError::TypeError("to-ascii", "integer")),
            }
        },
        NativeKind::FromAscii => {
            if vals.len() != 1 {
                return Err(EvalError::ArityMismatch(1, vals.len()));
            }
            proof {
                assert(dv[0] == vals@[0]@);
            }
            match &vals[0] {
                Value::Text(s) => {
                    if s.as_str().unicode_len() == 1 {
                        let c = s.as_str().get_char(0);
                        if (c as u32) <= 127 {
                            Ok(Some(Value::Integer((c as u32) as i64)))
                        } else {
                            Err(EvalError::TypeError("from-ascii", "string"))
                        }
                    } else {
                        Err(EvalError::TypeError("from-ascii", "string"))
                    }
                },
                _ => Err(EvalError::TypeError("from-ascii", "string")),
            }
        },
        NativeKind::GetArgs => {
            if vals.len() != 0 {
                return Err(EvalError::ArityMismatch(0, vals.len()));
            }
            let mut items: Vec<Value> = Vec::new();
            let mut i: usize = 0;
            while i < prog.args.len()
                invariant
                    i <= prog.args.len(),
                    items@.len() == i,
                    forall|j: int| 0 <= j < i ==> items@[j]@ == ValV::Text(
                        prog.args.deep_view()[j],
                    ),
                decreases prog.args.len() - i,
            {
                proof {
                    assert(prog.args.deep_view()[i as int] == prog.args@[i as int]@);
                }
                items.push(Value::Text(prog.args[i].clone()));
                i = i + 1;
            }
            proof {
                assert(items.deep_view() =~= prog@.args.map_values(
                    |t: Seq<char>| ValV::Text(t),
                ));
                crate::semantics::lemma_alloc_wf(old(it)@, items.deep_view(), nf);
            }
            let h = it.heap.alloc_list(items);
            Ok(Some(Value::List(h)))
        },
        NativeKind::WriteFile => {
            if vals.len() != 3 {
                return Err(EvalError::ArityMismatch(3, vals.len()));
            }
            proof {
                assert(dv[0] == vals@[0]@);
                assert(dv[1] == vals@[1]@);
                assert(dv[2] == vals@[2]@);
                assert(val_wf(dv[2], old(it)@.lists.len() as int, nf));
            }
            match (&vals[0], &vals[1]) {
                (Value::Text(path), Value::Text(contents)) => {
                    let append = vals[2].to_bool(&it.heap);
                    if host.write_file(path, contents, append) {
                        Ok(None)
                    } else {
                        Err(EvalError::HostFailure("write-file"))
                    }
                },
                (Value::Text(_), _) => Err(EvalError::TypeError("write-file", "string")),
                _ => Err(EvalError::TypeError("write-file", "string")),
            }
        },
        NativeKind::ReadFile => {
            if vals.len() != 1 {
                return Err(EvalError::ArityMismatch(1, vals.len()));
            }
            proof {
                assert(dv[0] == vals@[0]@);
            }
            match &vals[0] {
                Value::Text(path) => match host.read_file(path) {
                    Some(contents) => Ok(Some(Value::Text(contents))),
                    None => Err(EvalError::HostFailure("read-file")),
                },
                _ => Err(EvalError::TypeError("read-file", "string")),
            }
        },
    }
}

} // verus!
