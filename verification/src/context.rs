//! The variable environment.
//!
//! A [`Context`] is one scope: a local name-to-value table plus an optional
//! parent.  Frames live in a [`Scopes`] stack and refer to their parent by
//! index, so a child frame can read through its whole chain while only the
//! innermost frame is ever written: `assign` always binds locally, lookup
//! walks parents, and `take` removes only a local binding.

use vstd::prelude::*;

use crate::value::{ValV, Value};

verus! {

/// Spec-level shape of one scope: its local bindings and its parent index.
pub struct CtxV {
    pub map: Map<Seq<char>, ValV>,
    pub parent: Option<usize>,
}

/// One scope: a local binding table and an optional parent frame index.
pub struct Context {
    vars: Vec<(String, Value)>,
    parent: Option<usize>,
}

/// The local table as a map; later entries would win, though the table
/// keeps its keys unique.
pub open spec fn assoc_map(s: Seq<(String, Value)>) -> Map<Seq<char>, ValV>
    decreases s.len(),
{
    if s.len() == 0 {
        Map::empty()
    } else {
        assoc_map(s.drop_last()).insert(s.last().0@, s.last().1@)
    }
}

/// No two entries bind the same name.
pub open spec fn keys_unique(s: Seq<(String, Value)>) -> bool {
    forall|i: int, j: int| 0 <= i < j < s.len() ==> (#[trigger] s[i]).0@ != (#[trigger] s[j]).0@
}

proof fn lemma_assoc_get(s: Seq<(String, Value)>, i: int)
    requires
        keys_unique(s),
        0 <= i < s.len(),
    ensures
        assoc_map(s).contains_key(s[i].0@),
        assoc_map(s)[s[i].0@] == s[i].1@,
    decreases s.len(),
{
    if i == s.len() - 1 {
    } else {
        assert(s.drop_last()[i] == s[i]);
        lemma_assoc_get(s.drop_last(), i);
        assert(s[i].0@ != s.last().0@);
    }
}

proof fn lemma_assoc_absent(s: Seq<(String, Value)>, k: Seq<char>)
    requires
        forall|i: int| 0 <= i < s.len() ==> (#[trigger] s[i]).0@ != k,
    ensures
        !assoc_map(s).contains_key(k),
    decreases s.len(),
{
    if s.len() > 0 {
        assert(forall|i: int|
            0 <= i < s.drop_last().len() ==> (#[trigger] s.drop_last()[i]).0@ != k) by {
            assert(forall|i: int| 0 <= i < s.drop_last().len() ==> s.drop_last()[i] == s[i]);
        };
        lemma_assoc_absent(s.drop_last(), k);
    }
}

proof fn lemma_assoc_update(s: Seq<(String, Value)>, j: int, p: (String, Value))
    requires
        keys_unique(s),
        0 <= j < s.len(),
        p.0@ == s[j].0@,
    ensures
        assoc_map(s.update(j, p)) =~= assoc_map(s).insert(p.0@, p.1@),
    decreases s.len(),
{
    let t = s.update(j, p);
    if j == s.len() - 1 {
        assert(t.drop_last() =~= s.drop_last());
    } else {
        assert(t.last() == s.last());
        assert(t.drop_last() =~= s.drop_last().update(j, p));
        assert(s.drop_last()[j] == s[j]);
        lemma_assoc_update(s.drop_last(), j, p);
        assert(s[j].0@ != s.last().0@);
    }
}

proof fn lemma_assoc_remove(s: Seq<(String, Value)>, j: int)
    requires
        keys_unique(s),
        0 <= j < s.len(),
    ensures
        assoc_map(s.remove(j)) =~= assoc_map(s).remove(s[j].0@),
    decreases s.len(),
{
    if j == s.len() - 1 {
        assert(s.remove(j) =~= s.drop_last());
        assert(forall|i: int|
            0 <= i < s.drop_last().len() ==> (#[trigger] s.drop_last()[i]).0@ != s[j].0@) by {
            assert(forall|i: int| 0 <= i < s.drop_last().len() ==> s.drop_last()[i] == s[i]);
        };
        lemma_assoc_absent(s.drop_last(), s[j].0@);
    } else {
        let t = s.remove(j);
        assert(t.last() == s.last());
        assert(t.drop_last() =~= s.drop_last().remove(j));
        assert(s.drop_last()[j] == s[j]);
        lemma_assoc_remove(s.drop_last(), j);
        assert(s[j].0@ != s.last().0@);
    }
}

impl View for Context {
    type V = CtxV;

    closed spec fn view(&self) -> CtxV {
        CtxV { map: assoc_map(self.vars@), parent: self.parent }
    }
}

impl DeepView for Context {
    type V = CtxV;

    open spec fn deep_view(&self) -> CtxV {
        self.view()
    }
}

impl Context {
    /// The local table never binds a name twice.
    pub closed spec fn inv(&self) -> bool {
        keys_unique(self.vars@)
    }

    pub fn new(parent: Option<usize>) -> (r: Context)
        ensures
            r.inv(),
            r@.map == Map::<Seq<char>, ValV>::empty(),
            r@.parent == parent,
    {
        Context { vars: Vec::new(), parent }
    }

    /// Insert-or-replace in the local table only.
    pub fn assign(&mut self, key: String, value: Value)
        requires
            old(self).inv(),
        ensures
            final(self).inv(),
            final(self)@.map == old(self)@.map.insert(key@, value@),
            final(self)@.parent == old(self)@.parent,
    {
        let n = self.vars.len();
        let mut i: usize = 0;
        while i < n
            invariant
                n == self.vars@.len(),
                i <= n,
                self == old(self),
                old(self).inv(),
                forall|m: int| 0 <= m < i ==> (#[trigger] self.vars@[m]).0@ != key@,
            decreases n - i,
        {
            if self.vars[i].0 == key {
                proof {
                    lemma_assoc_update(self.vars@, i as int, (key, value));
                }
                self.vars[i] = (key, value);
                return ;
            }
            i = i + 1;
        }
        proof {
            lemma_assoc_absent(self.vars@, key@);
            assert(self.vars@.push((key, value)).drop_last() =~= self.vars@);
            assert(assoc_map(self.vars@.push((key, value))) =~= assoc_map(
                self.vars@,
            ).insert(key@, value@));
        }
        self.vars.push((key, value));
    }

    /// The local binding for `key`, if any; the parent chain is walked by
    /// [`Scopes::lookup_top`], not here.
    pub fn value(&self, key: &String) -> (r: Option<Value>)
        requires
            self.inv(),
        ensures
            match r {
                Some(v) => self@.map.contains_key(key@) && v@ == self@.map[key@],
                None => !self@.map.contains_key(key@),
            },
    {
        let n = self.vars.len();
        let mut i: usize = 0;
        while i < n
            invariant
                self.inv(),
                n == self.vars@.len(),
                i <= n,
                forall|m: int| 0 <= m < i ==> (#[trigger] self.vars@[m]).0@ != key@,
            decreases n - i,
        {
            if self.vars[i].0 == *key {
                proof {
                    lemma_assoc_get(self.vars@, i as int);
                }
                return Some(self.vars[i].1.dup());
            }
            i = i + 1;
        }
        proof {
            lemma_assoc_absent(self.vars@, key@);
        }
        None
    }

    /// Remove and return the local binding for `key`, if any.
    pub fn take(&mut self, key: &String) -> (r: Option<Value>)
        requires
            old(self).inv(),
        ensures
            final(self).inv(),
            final(self)@.map == old(self)@.map.remove(key@),
            final(self)@.parent == old(self)@.parent,
            match r {
                Some(v) => old(self)@.map.contains_key(key@) && v@ == old(self)@.map[key@],
                None => !old(self)@.map.contains_key(key@),
            },
    {
        let n = self.vars.len();
        let mut i: usize = 0;
        while i < n
            invariant
                n == self.vars@.len(),
                i <= n,
                self == old(self),
                old(self).inv(),
                forall|m: int| 0 <= m < i ==> (#[trigger] self.vars@[m]).0@ != key@,
            decreases n - i,
        {
            if self.vars[i].0 == *key {
                proof {
                    lemma_assoc_get(self.vars@, i as int);
                    lemma_assoc_remove(self.vars@, i as int);
                }
                let pair = self.vars.remove(i);
                return Some(pair.1);
            }
            i = i + 1;
        }
        proof {
            lemma_assoc_absent(self.vars@, key@);
            assert(self@.map =~= old(self)@.map.remove(key@));
        }
        None
    }
}

/// Parent links point strictly downward, and there is always a root frame.
pub open spec fn frames_wf(fs: Seq<CtxV>) -> bool {
    fs.len() >= 1 && forall|i: int|
        0 <= i < fs.len() ==> ((#[trigger] fs[i]).parent matches Some(p) ==> p < i)
}

/// Read-through lookup: the local table first, then the parent chain.
pub open spec fn chain_lookup(fs: Seq<CtxV>, i: int, k: Seq<char>) -> Option<ValV>
    decreases i,
{
    if !(0 <= i < fs.len()) {
        None
    } else if fs[i].map.contains_key(k) {
        Some(fs[i].map[k])
    } else {
        match fs[i].parent {
            Some(p) => if p < i {
                chain_lookup(fs, p as int, k)
            } else {
                None
            },
            None => None,
        }
    }
}

/// The stack of live scopes.  The bottom frame is the root scope; the top
/// frame is the one the current instruction runs in.
pub struct Scopes {
    frames: Vec<Context>,
}

impl View for Scopes {
    type V = Seq<CtxV>;

    closed spec fn view(&self) -> Seq<CtxV> {
        self.frames.deep_view()
    }
}

impl Scopes {
    pub closed spec fn wf(&self) -> bool {
        &&& frames_wf(self@)
        &&& forall|i: int| 0 <= i < self.frames@.len() ==> (#[trigger] self.frames@[i]).inv()
    }

    /// A stack holding only the given root frame.
    pub fn new(root: Context) -> (r: Scopes)
        requires
            root.inv(),
            root@.parent is None,
        ensures
            r.wf(),
            r@ =~= seq![root@],
    {
        let mut frames: Vec<Context> = Vec::new();
        frames.push(root);
        let r = Scopes { frames };
        proof {
            assert(r@ =~= seq![root@]);
        }
        r
    }

    pub fn depth(&self) -> (n: usize)
        ensures
            n == self@.len(),
    {
        proof {
            assert(self@.len() == self.frames@.len());
        }
        self.frames.len()
    }

    /// Push a fresh empty frame whose parent is `parent`.
    pub fn push(&mut self, parent: Option<usize>)
        requires
            old(self).wf(),
            parent matches Some(p) ==> p < old(self)@.len(),
        ensures
            final(self).wf(),
            final(self)@ =~= old(self)@.push(
                CtxV { map: Map::<Seq<char>, ValV>::empty(), parent },
            ),
    {
        self.frames.push(Context::new(parent));
        proof {
            assert(self@ =~= old(self)@.push(
                CtxV { map: Map::<Seq<char>, ValV>::empty(), parent },
            ));
        }
    }

    /// Drop the top frame.
    pub fn pop(&mut self)
        requires
            old(self).wf(),
            old(self)@.len() >= 2,
        ensures
            final(self).wf(),
            final(self)@ =~= old(self)@.drop_last(),
    {
        let _ = self.frames.pop();
        proof {
            assert(self@ =~= old(self)@.drop_last());
        }
    }

    /// Bind in the top frame only.
    pub fn bind(&mut self, key: String, value: Value)
        requires
            old(self).wf(),
        ensures
            final(self).wf(),
            final(self)@ =~= old(self)@.update(
                old(self)@.len() - 1,
                CtxV {
                    map: old(self)@.last().map.insert(key@, value@),
                    parent: old(self)@.last().parent,
                },
            ),
    {
        let top = self.frames.len() - 1;
        let frame = &mut self.frames[top];
        frame.assign(key, value);
        proof {
            assert(self@ =~= old(self)@.update(
                old(self)@.len() - 1,
                CtxV {
                    map: old(self)@.last().map.insert(key@, value@),
                    parent: old(self)@.last().parent,
                },
            ));
        }
    }

    /// Read-through lookup starting at the top frame.
    pub fn lookup_top(&self, key: &String) -> (r: Option<Value>)
        requires
            self.wf(),
        ensures
            match r {
                Some(v) => chain_lookup(self@, self@.len() - 1, key@) == Some(v@),
                None => chain_lookup(self@, self@.len() - 1, key@) is None,
            },
    {
        let mut cur = self.frames.len() - 1;
        loop
            invariant
                self.wf(),
                cur < self@.len(),
                chain_lookup(self@, cur as int, key@) == chain_lookup(
                    self@,
                    self@.len() - 1,
                    key@,
                ),
            decreases cur,
        {
            match self.frames[cur].value(key) {
                Some(v) => {
                    return Some(v);
                },
                None => {
                    match self.frames[cur].parent_of() {
                        Some(p) => {
                            cur = p;
                        },
                        None => {
                            return None;
                        },
                    }
                },
            }
        }
    }

    /// Remove and return the binding for `key` in the top frame only.
    pub fn take_top(&mut self, key: &String) -> (r: Option<Value>)
        requires
            old(self).wf(),
        ensures
            final(self).wf(),
            final(self)@ =~= old(self)@.update(
                old(self)@.len() - 1,
                CtxV {
                    map: old(self)@.last().map.remove(key@),
                    parent: old(self)@.last().parent,
                },
            ),
            match r {
                Some(v) => old(self)@.last().map.contains_key(key@) && v@ == old(
                    self,
                )@.last().map[key@],
                None => !old(self)@.last().map.contains_key(key@),
            },
    {
        let top = self.frames.len() - 1;
        let frame = &mut self.frames[top];
        let r = frame.take(key);
        proof {
            assert(self@ =~= old(self)@.update(
                old(self)@.len() - 1,
                CtxV {
                    map: old(self)@.last().map.remove(key@),
                    parent: old(self)@.last().parent,
                },
            ));
        }
        r
    }
}

impl Context {
    /// The parent frame index, if this is not the root frame.
    pub fn parent_of(&self) -> (r: Option<usize>)
        ensures
            r == self@.parent,
    {
        self.parent
    }
}

} // verus!
