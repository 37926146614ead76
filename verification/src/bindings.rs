//! The binding tree: which sequences of inputs resolve to which actions.
use vstd::prelude::*;

use crate::input::{Input, InputBuffer};

verus! {

/// Why a binding was refused.
#[derive(Debug, Clone, Copy, PartialEq, Eq)]
pub enum BindError {
    /// The path of inputs is empty.
    EmptyPath,
    /// The input, or the whole path, is bound already.
    AlreadyBound,
    /// The path runs through an input that is bound to an action.
    Conflict,
}

/// Whether `a` and `b` start with the same input and agree on which of the
/// two begins with the other, once that first input is taken off.
proof fn lemma_prefix_skip(a: Seq<Input>, b: Seq<Input>)
    requires
        a.len() > 0,
        b.len() > 0,
        a[0] == b[0],
    ensures
        a.is_prefix_of(b) <==> a.skip(1).is_prefix_of(b.skip(1)),
{
    if a.is_prefix_of(b) {
        assert(a.skip(1) =~= b.skip(1).subrange(0, a.len() - 1));
    }
    if a.skip(1).is_prefix_of(b.skip(1)) {
        assert forall|i: int| 0 <= i < a.len() implies a[i] == b[i] by {
            if i > 0 {
                assert(a.skip(1)[i - 1] == b.skip(1).subrange(0, a.len() - 1)[i - 1]);
            }
        }
        assert(a =~= b.subrange(0, a.len() as int));
    }
}

/// What an input is bound to at one level of the tree.
#[derive(Debug)]
pub enum BindNode<A> {
    /// The input resolves to this action.
    Action(A),
    /// The input opens a chord: the next input is looked up in `bindings`.
    Chord { name: String, bindings: Bindings<A> },
}

impl<A> BindNode<A> {
    /// The action, where the node is one.
    pub fn action(&self) -> (a: Option<&A>)
        ensures
            a == match *self {
                BindNode::Action(v) => Some(&v),
                BindNode::Chord { .. } => None,
            },
    {
        match self {
            BindNode::Action(a) => Some(a),
            _ => None,
        }
    }

    /// The bindings below the node, where it is a chord.
    pub fn bindings(&self) -> (b: Option<&Bindings<A>>)
        ensures
            b == match *self {
                BindNode::Action(_) => None,
                BindNode::Chord { bindings, .. } => Some(&bindings),
            },
    {
        match self {
            BindNode::Chord { bindings, .. } => Some(bindings),
            _ => None,
        }
    }
}

/// One level of the binding tree: the inputs bound at it, each with its
/// node. No input is bound twice at one level.
#[derive(Debug)]
pub struct Bindings<A>(Vec<(Input, BindNode<A>)>);

impl<A> Bindings<A> {
    /// Whether `k` is bound at this level.
    pub closed spec fn binds(&self, k: Input) -> bool {
        exists|i: int| 0 <= i < self.0@.len() && (#[trigger] self.0@[i]).0 == k
    }

    /// The node that `k` is bound to at this level.
    pub closed spec fn node(&self, k: Input) -> BindNode<A> {
        let i = choose|i: int| 0 <= i < self.0@.len() && (#[trigger] self.0@[i]).0 == k;
        self.0@[i].1
    }

    /// No input is bound twice at one level, here and below.
    pub closed spec fn wf(&self) -> bool
        decreases self,
    {
        &&& forall|i: int, j: int|
            0 <= i < j < self.0@.len() ==> (#[trigger] self.0@[i]).0 != (#[trigger] self.0@[j]).0
        &&& forall|i: int|
            0 <= i < self.0@.len() ==> (match (#[trigger] self.0@[i]).1 {
                BindNode::Action(_) => true,
                BindNode::Chord { bindings, .. } => bindings.wf(),
            })
    }

    /// What the path of inputs leads to: nothing, where the path is empty or
    /// leaves the tree; an action, as soon as the path reaches one, whatever
    /// inputs follow; or the chord that the whole path names.
    pub open spec fn spec_get(&self, path: Seq<Input>) -> Option<BindNode<A>>
        decreases path.len(),
    {
        if path.len() == 0 || !self.binds(path[0]) {
            None
        } else {
            match self.node(path[0]) {
                BindNode::Action(a) => Some(BindNode::Action(a)),
                BindNode::Chord { name, bindings } => if path.len() == 1 {
                    Some(BindNode::Chord { name, bindings })
                } else {
                    bindings.spec_get(path.skip(1))
                },
            }
        }
    }

    /// Each entry is the node that its input is bound to.
    proof fn lemma_entry(&self, i: int)
        requires
            self.wf(),
            0 <= i < self.0@.len(),
        ensures
            self.binds(self.0@[i].0),
            self.node(self.0@[i].0) == self.0@[i].1,
            self.0@[i].1 matches BindNode::Chord { bindings, .. } ==> bindings.wf(),
    {
    }

    /// What is bound at this level once one more input is.
    proof fn lemma_pushed(&self, before: &Self, k: Input, node: BindNode<A>)
        requires
            before.wf(),
            !before.binds(k),
            node matches BindNode::Chord { bindings, .. } ==> bindings.wf(),
            self.0@ == before.0@.push((k, node)),
        ensures
            self.wf(),
            forall|q: Input| #[trigger] self.binds(q) <==> q == k || before.binds(q),
            self.node(k) == node,
            forall|q: Input| q != k && before.binds(q) ==> #[trigger] self.node(q) == before.node(q),
    {
        let n = before.0@.len() as int;
        assert forall|i: int, j: int| 0 <= i < j < self.0@.len() implies (#[trigger] self.0@[i]).0
            != (#[trigger] self.0@[j]).0 by {
            if j == n {
                assert(before.0@[i].0 != k);
            }
        }
        assert forall|i: int| 0 <= i < self.0@.len() implies (match (#[trigger] self.0@[i]).1 {
            BindNode::Action(_) => true,
            BindNode::Chord { bindings, .. } => bindings.wf(),
        }) by {
            if i < n {
                before.lemma_entry(i);
            }
        }
        assert(self.wf());
        self.lemma_entry(n);
        assert forall|q: Input| #[trigger] self.binds(q) <==> q == k || before.binds(q) by {
            if before.binds(q) {
                let i = choose|i: int| 0 <= i < before.0@.len() && (#[trigger] before.0@[i]).0 == q;
                assert(self.0@[i].0 == q);
            }
            if self.binds(q) && q != k {
                let i = choose|i: int| 0 <= i < self.0@.len() && (#[trigger] self.0@[i]).0 == q;
                assert(before.0@[i].0 == q);
            }
        }
        assert forall|q: Input| q != k && before.binds(q) implies #[trigger] self.node(q)
            == before.node(q) by {
            let i = choose|i: int| 0 <= i < before.0@.len() && (#[trigger] before.0@[i]).0 == q;
            before.lemma_entry(i);
            self.lemma_entry(i);
        }
    }

    /// What is bound at this level once the node of entry `at` was changed.
    proof fn lemma_updated(&self, before: &Self, at: int, node: BindNode<A>)
        requires
            before.wf(),
            0 <= at < before.0@.len(),
            node matches BindNode::Chord { bindings, .. } ==> bindings.wf(),
            self.0@ == before.0@.update(at, (before.0@[at].0, node)),
        ensures
            self.wf(),
            forall|q: Input| #[trigger] self.binds(q) <==> before.binds(q),
            self.node(before.0@[at].0) == node,
            forall|q: Input|
                q != before.0@[at].0 && before.binds(q) ==> #[trigger] self.node(q) == before.node(
                    q,
                ),
    {
        let k = before.0@[at].0;
        assert forall|i: int, j: int| 0 <= i < j < self.0@.len() implies (#[trigger] self.0@[i]).0
            != (#[trigger] self.0@[j]).0 by {
            assert(self.0@[i].0 == before.0@[i].0);
            assert(self.0@[j].0 == before.0@[j].0);
        }
        assert forall|i: int| 0 <= i < self.0@.len() implies (match (#[trigger] self.0@[i]).1 {
            BindNode::Action(_) => true,
            BindNode::Chord { bindings, .. } => bindings.wf(),
        }) by {
            if i != at {
                before.lemma_entry(i);
            }
        }
        assert(self.wf());
        self.lemma_entry(at);
        assert forall|q: Input| #[trigger] self.binds(q) <==> before.binds(q) by {
            if before.binds(q) {
                let i = choose|i: int| 0 <= i < before.0@.len() && (#[trigger] before.0@[i]).0 == q;
                assert(self.0@[i].0 == q);
            }
            if self.binds(q) {
                let i = choose|i: int| 0 <= i < self.0@.len() && (#[trigger] self.0@[i]).0 == q;
                assert(before.0@[i].0 == q);
            }
        }
        assert forall|q: Input| q != k && before.binds(q) implies #[trigger] self.node(q)
            == before.node(q) by {
            let i = choose|i: int| 0 <= i < before.0@.len() && (#[trigger] before.0@[i]).0 == q;
            before.lemma_entry(i);
            self.lemma_entry(i);
        }
    }

    /// The tree without any binding.
    pub fn empty() -> (b: Self)
        ensures
            b.wf(),
            forall|k: Input| !b.binds(k),
            forall|p: Seq<Input>| b.spec_get(p) is None,
    {
        Bindings(Vec::new())
    }

    /// Where `k` is bound at this level.
    fn position(&self, k: &Input) -> (at: Option<usize>)
        requires
            self.wf(),
        ensures
            at is Some <==> self.binds(*k),
            at matches Some(i) ==> i < self.0@.len() && self.0@[i as int].0 == *k
                && self.0@[i as int].1 == self.node(*k),
    {
        let mut i: usize = 0;
        while i < self.0.len()
            invariant
                self.wf(),
                i <= self.0@.len(),
                forall|j: int| 0 <= j < i ==> (#[trigger] self.0@[j]).0 != *k,
            decreases self.0@.len() - i,
        {
            if self.0[i].0 == *k {
                proof {
                    self.lemma_entry(i as int);
                }
                return Some(i);
            }
            i += 1;
        }
        None
    }
}

impl<A> Bindings<A> {
    /// The action that the single input `k` is bound to.
    pub fn get_single(&self, k: Input) -> (a: Option<&A>)
        requires
            self.wf(),
        ensures
            a == match self.spec_get(seq![k]) {
                Some(BindNode::Action(v)) => Some(&v),
                _ => None,
            },
    {
        match self.position(&k) {
            None => None,
            Some(at) => self.0[at].1.action(),
        }
    }

    /// What the path `inputs` leads to: see [`Bindings::spec_get`].
    pub fn get(&self, inputs: &[Input]) -> (node: Option<&BindNode<A>>)
        requires
            self.wf(),
        ensures
            node == match self.spec_get(inputs@) {
                Some(n) => Some(&n),
                None => None,
            },
    {
        if inputs.len() == 0 {
            return None;
        }
        let mut map = self;
        let mut i: usize = 0;
        assert(inputs@.skip(0) =~= inputs@);
        loop
            invariant
                i < inputs@.len(),
                map.wf(),
                self.spec_get(inputs@) == map.spec_get(inputs@.skip(i as int)),
            decreases inputs@.len() - i,
        {
            let ghost rest = inputs@.skip(i as int);
            assert(rest[0] == inputs@[i as int]);
            assert(rest.skip(1) =~= inputs@.skip(i + 1));
            match map.position(&inputs[i]) {
                None => {
                    return None;
                },
                Some(at) => {
                    let node = &map.0[at].1;
                    proof {
                        map.lemma_entry(at as int);
                    }
                    match node {
                        BindNode::Action(_) => {
                            return Some(node);
                        },
                        BindNode::Chord { bindings, .. } => {
                            if i + 1 == inputs.len() {
                                return Some(node);
                            }
                            map = bindings;
                            i += 1;
                        },
                    }
                },
            }
        }
    }

    /// Binds the single input `k` to the action `v`, unless `k` is bound
    /// already, to an action or to a chord.
    pub fn insert(&mut self, k: Input, v: A) -> (r: Result<(), BindError>)
        requires
            old(self).wf(),
        ensures
            final(self).wf(),
            r is Err <==> old(self).spec_get(seq![k]) is Some,
            r matches Err(e) ==> e == BindError::AlreadyBound && *final(self) == *old(self),
            r is Ok ==> forall|p: Seq<Input>|
                #[trigger] final(self).spec_get(p) == (if p.len() > 0 && p[0] == k {
                    Some(BindNode::Action(v))
                } else {
                    old(self).spec_get(p)
                }),
            r is Ok ==> old(self).chorded_refusal(seq![k]) is None && final(self).binds_path(
                old(self),
                seq![k],
                v,
            ),
    {
        match self.position(&k) {
            Some(_) => Err(BindError::AlreadyBound),
            None => {
                self.0.push((k, BindNode::Action(v)));
                proof {
                    self.lemma_pushed(old(self), k, BindNode::Action(v));
                    assert forall|p: Seq<Input>| seq![k].is_prefix_of(p) <==> p.len() > 0 && p[0]
                        == k by {
                        if p.len() > 0 && p[0] == k {
                            assert(seq![k] =~= p.subrange(0, 1));
                        }
                        if seq![k].is_prefix_of(p) {
                            assert(seq![k][0] == p.subrange(0, 1)[0]);
                        }
                    }
                    assert forall|p: Seq<Input>| p.len() > 0 && p.is_prefix_of(seq![k]) implies p[0]
                        == k by {
                        assert(p[0] == seq![k].subrange(0, p.len() as int)[0]);
                    }
                }
                Ok(())
            },
        }
    }
}

impl<A> Bindings<A> {
    /// Why the path `ks` cannot be bound to an action, if it cannot: it is
    /// empty, it runs through an action, or it is bound already.
    pub open spec fn chorded_refusal(&self, ks: Seq<Input>) -> Option<BindError> {
        if ks.len() == 0 {
            Some(BindError::EmptyPath)
        } else if ks.len() > 1 && self.spec_get(ks.drop_last()) matches Some(BindNode::Action(_)) {
            Some(BindError::Conflict)
        } else if self.spec_get(ks) is Some {
            Some(BindError::AlreadyBound)
        } else {
            None
        }
    }

    /// What binding the path `ks` to `v` makes of the tree `before`: every
    /// path that begins with `ks` resolves to `v`; every shorter beginning
    /// of `ks` names a chord, under the name it had or, if new, without a
    /// name; every other path leads where it led.
    pub open spec fn binds_path(&self, before: &Self, ks: Seq<Input>, v: A) -> bool {
        forall|p: Seq<Input>|
            #![trigger self.spec_get(p)]
            if ks.is_prefix_of(p) {
                self.spec_get(p) == Some(BindNode::Action(v))
            } else if p.len() > 0 && p.is_prefix_of(ks) {
                &&& self.spec_get(p) matches Some(BindNode::Chord { name, .. })
                &&& match before.spec_get(p) {
                    Some(BindNode::Chord { name: had, .. }) => name == had,
                    _ => name@ == Seq::<char>::empty(),
                }
            } else {
                self.spec_get(p) == before.spec_get(p)
            }
    }

    /// Binding the rest of a path below its first input binds the path.
    proof fn lemma_binds_path_below(
        now: &Self,
        before: &Self,
        below_now: &Self,
        below_before: &Self,
        path: Seq<Input>,
        v: A,
    )
        requires
            path.len() > 1,
            now.binds(path[0]),
            now.node(path[0]) matches BindNode::Chord { name, bindings } && bindings == *below_now
                && (match before.spec_get(path.take(1)) {
                Some(BindNode::Chord { name: had, .. }) => name == had,
                _ => name@ == Seq::<char>::empty(),
            }),
            forall|q: Input| q != path[0] ==> #[trigger] now.binds(q) == before.binds(q),
            forall|q: Input| q != path[0] && before.binds(q) ==> #[trigger] now.node(q) == before.node(q),
            before.binds(path[0]) ==> (before.node(path[0]) matches BindNode::Chord { bindings, .. }
                && bindings == *below_before),
            !before.binds(path[0]) ==> forall|p: Seq<Input>| below_before.spec_get(p) is None,
            below_now.binds_path(below_before, path.skip(1), v),
        ensures
            now.binds_path(before, path, v),
    {
        let k = path[0];
        let rest = path.skip(1);
        assert forall|p: Seq<Input>| #![trigger now.spec_get(p)] (if path.is_prefix_of(p) {
            now.spec_get(p) == Some(BindNode::Action(v))
        } else if p.len() > 0 && p.is_prefix_of(path) {
            &&& now.spec_get(p) matches Some(BindNode::Chord { name, .. })
            &&& match before.spec_get(p) {
                Some(BindNode::Chord { name: had, .. }) => name == had,
                _ => name@ == Seq::<char>::empty(),
            }
        } else {
            now.spec_get(p) == before.spec_get(p)
        }) by {
            if p.len() == 0 {
            } else if p[0] != k {
                if path.is_prefix_of(p) {
                    assert(path[0] == p.subrange(0, path.len() as int)[0]);
                }
                if p.is_prefix_of(path) {
                    assert(p[0] == path.subrange(0, p.len() as int)[0]);
                }
            } else {
                lemma_prefix_skip(path, p);
                if p.len() == 1 {
                    assert(p =~= path.subrange(0, 1));
                    assert(p =~= path.take(1));
                } else {
                    lemma_prefix_skip(p, path);
                    let q = p.skip(1);
                    assert(now.spec_get(p) == below_now.spec_get(q));
                    if before.binds(k) {
                        assert(before.spec_get(p) == below_before.spec_get(q));
                    } else {
                        assert(before.spec_get(p) is None);
                        assert(below_before.spec_get(q) is None);
                    }
                }
            }
        }
    }

    /// Why the path `ks` cannot be bound to an action, if it cannot.
    fn refusal(&self, ks: &[Input]) -> (e: Option<BindError>)
        requires
            self.wf(),
        ensures
            e == self.chorded_refusal(ks@),
    {
        if ks.len() == 0 {
            return Some(BindError::EmptyPath);
        }
        let mut map = self;
        let mut i: usize = 0;
        assert(ks@.skip(0) =~= ks@);
        loop
            invariant
                i < ks@.len(),
                map.wf(),
                self.chorded_refusal(ks@) == map.chorded_refusal(ks@.skip(i as int)),
            decreases ks@.len() - i,
        {
            let ghost path = ks@.skip(i as int);
            let ghost rest = ks@.skip(i + 1);
            assert(path[0] == ks@[i as int]);
            assert(path.skip(1) =~= rest);
            let at = map.position(&ks[i]);
            if i + 1 == ks.len() {
                assert(path =~= seq![ks@[i as int]]);
                return match at {
                    Some(_) => Some(BindError::AlreadyBound),
                    None => None,
                };
            }
            assert(path.drop_last().len() > 0 && path.drop_last()[0] == path[0]);
            assert(path.drop_last().skip(1) =~= rest.drop_last());
            match at {
                None => {
                    return None;
                },
                Some(at) => {
                    proof {
                        map.lemma_entry(at as int);
                    }
                    match &map.0[at].1 {
                        BindNode::Action(_) => {
                            return Some(BindError::Conflict);
                        },
                        BindNode::Chord { bindings, .. } => {
                            map = bindings;
                            i += 1;
                        },
                    }
                },
            }
        }
    }

    /// Binds the path `ks` from its input `from` on, below this level.
    fn bind_from(&mut self, ks: &[Input], from: usize, v: A)
        requires
            old(self).wf(),
            from < ks@.len(),
            old(self).chorded_refusal(ks@.skip(from as int)) is None,
        ensures
            final(self).wf(),
            final(self).binds_path(old(self), ks@.skip(from as int), v),
        decreases ks@.len() - from,
    {
        let k = ks[from];
        let ghost path = ks@.skip(from as int);
        let ghost rest = ks@.skip(from + 1);
        assert(path[0] == k);
        assert(path.skip(1) =~= rest);
        let at = self.position(&k);
        if from + 1 == ks.len() {
            assert(path =~= seq![k]);
            self.0.push((k, BindNode::Action(v)));
            proof {
                self.lemma_pushed(old(self), k, BindNode::Action(v));
                assert forall|p: Seq<Input>| path.is_prefix_of(p) <==> p.len() > 0 && p[0] == k by {
                    if p.len() > 0 && p[0] == k {
                        assert(path =~= p.subrange(0, 1));
                    }
                }
            }
        } else {
            assert(path.drop_last().len() > 0 && path.drop_last()[0] == k);
            assert(path.drop_last().skip(1) =~= rest.drop_last());
            assert(path.take(1) =~= seq![k]);
            match at {
                Some(i) => {
                    proof {
                        self.lemma_entry(i as int);
                    }
                    match &mut self.0[i].1 {
                        BindNode::Action(_) => {
                            // the path would run through an action
                            assert(false);
                        },
                        BindNode::Chord { name, bindings } => {
                            let ghost below = *bindings;
                            bindings.bind_from(ks, from + 1, v);
                            proof {
                                let node = BindNode::Chord { name: *name, bindings: *bindings };
                                self.lemma_updated(old(self), i as int, node);
                                Self::lemma_binds_path_below(
                                    self,
                                    old(self),
                                    bindings,
                                    &below,
                                    path,
                                    v,
                                );
                            }
                        },
                    }
                },
                None => {
                    let mut below = Bindings::empty();
                    let ghost fresh = below;
                    below.bind_from(ks, from + 1, v);
                    let chord = BindNode::Chord { name: String::new(), bindings: below };
                    let ghost node = chord;
                    self.0.push((k, chord));
                    proof {
                        self.lemma_pushed(old(self), k, node);
                        Self::lemma_binds_path_below(self, old(self), &below, &fresh, path, v);
                    }
                },
            }
        }
    }

    /// Binds the path of inputs `ks` to the action `v`. The inputs before
    /// the last one become chords where they are not chords yet.
    ///
    /// The binding is refused, and the tree left as it was, where
    /// [`Bindings::chorded_refusal`] says so.
    pub fn insert_chorded(&mut self, ks: &[Input], v: A) -> (r: Result<(), BindError>)
        requires
            old(self).wf(),
        ensures
            final(self).wf(),
            r matches Err(e) ==> old(self).chorded_refusal(ks@) == Some(e) && *final(self) == *old(
                self,
            ),
            r is Ok ==> old(self).chorded_refusal(ks@) is None && final(self).binds_path(
                old(self),
                ks@,
                v,
            ),
    {
        match self.refusal(ks) {
            Some(e) => Err(e),
            None => {
                assert(ks@.skip(0) =~= ks@);
                self.bind_from(ks, 0, v);
                Ok(())
            },
        }
    }
}

impl<A> Bindings<A> {
    /// Why the path `ks` cannot name a chord, if it cannot: it is empty, or
    /// it runs into an action.
    pub open spec fn chord_refusal(&self, ks: Seq<Input>) -> Option<BindError> {
        if ks.len() == 0 {
            Some(BindError::EmptyPath)
        } else if self.spec_get(ks) matches Some(BindNode::Action(_)) {
            Some(BindError::Conflict)
        } else {
            None
        }
    }

    /// What opening the chord `ks` makes of the tree `before`, once the
    /// bindings below the chord are `below`: a path that goes on after `ks`
    /// leads where the rest of it leads in `below`; every beginning of `ks`
    /// names a chord, under the name it had or, if new, under `name` for
    /// `ks` itself and without a name for the shorter ones; every other
    /// path leads where it led.
    pub open spec fn opens_chord(
        &self,
        before: &Self,
        ks: Seq<Input>,
        name: Seq<char>,
        below: &Self,
    ) -> bool {
        forall|p: Seq<Input>|
            #![trigger self.spec_get(p)]
            if ks.is_prefix_of(p) && p.len() > ks.len() {
                self.spec_get(p) == below.spec_get(p.skip(ks.len() as int))
            } else if p.len() > 0 && p.is_prefix_of(ks) {
                &&& self.spec_get(p) matches Some(BindNode::Chord { name: given, bindings })
                &&& match before.spec_get(p) {
                    Some(BindNode::Chord { name: had, .. }) => given == had,
                    _ => if p.len() == ks.len() {
                        given@ == name
                    } else {
                        given@ == Seq::<char>::empty()
                    },
                }
                &&& p.len() == ks.len() ==> bindings == *below
            } else {
                self.spec_get(p) == before.spec_get(p)
            }
    }

    /// Opening the rest of a chord below its first input opens the chord.
    proof fn lemma_opens_chord_below(
        now: &Self,
        before: &Self,
        below_now: &Self,
        below_before: &Self,
        path: Seq<Input>,
        name: Seq<char>,
        target: &Self,
    )
        requires
            path.len() > 0,
            now.binds(path[0]),
            now.node(path[0]) matches BindNode::Chord { name: given, bindings } && bindings
                == *below_now && (match before.spec_get(path.take(1)) {
                Some(BindNode::Chord { name: had, .. }) => given == had,
                _ => if path.len() == 1 {
                    given@ == name
                } else {
                    given@ == Seq::<char>::empty()
                },
            }),
            forall|q: Input| q != path[0] ==> #[trigger] now.binds(q) == before.binds(q),
            forall|q: Input|
                q != path[0] && before.binds(q) ==> #[trigger] now.node(q) == before.node(q),
            before.binds(path[0]) ==> (before.node(path[0]) matches BindNode::Chord { bindings, .. }
                && bindings == *below_before),
            !before.binds(path[0]) ==> forall|p: Seq<Input>| below_before.spec_get(p) is None,
            path.len() == 1 ==> *target == *below_now,
            path.len() > 1 ==> below_now.opens_chord(below_before, path.skip(1), name, target),
        ensures
            now.opens_chord(before, path, name, target),
    {
        let k = path[0];
        let rest = path.skip(1);
        assert forall|p: Seq<Input>| #![trigger now.spec_get(p)] (if path.is_prefix_of(p) && p.len()
            > path.len() {
            now.spec_get(p) == target.spec_get(p.skip(path.len() as int))
        } else if p.len() > 0 && p.is_prefix_of(path) {
            &&& now.spec_get(p) matches Some(BindNode::Chord { name: given, bindings })
            &&& match before.spec_get(p) {
                Some(BindNode::Chord { name: had, .. }) => given == had,
                _ => if p.len() == path.len() {
                    given@ == name
                } else {
                    given@ == Seq::<char>::empty()
                },
            }
            &&& p.len() == path.len() ==> bindings == *target
        } else {
            now.spec_get(p) == before.spec_get(p)
        }) by {
            if p.len() == 0 {
            } else if p[0] != k {
                if path.is_prefix_of(p) {
                    assert(path[0] == p.subrange(0, path.len() as int)[0]);
                }
                if p.is_prefix_of(path) {
                    assert(p[0] == path.subrange(0, p.len() as int)[0]);
                }
            } else {
                lemma_prefix_skip(path, p);
                if p.len() == 1 {
                    assert(p =~= path.subrange(0, 1));
                    assert(p =~= path.take(1));
                } else {
                    lemma_prefix_skip(p, path);
                    let q = p.skip(1);
                    assert(now.spec_get(p) == below_now.spec_get(q));
                    if p.len() > path.len() {
                        assert(q.skip(rest.len() as int) =~= p.skip(path.len() as int));
                    }
                    if before.binds(k) {
                        assert(before.spec_get(p) == below_before.spec_get(q));
                    } else {
                        assert(before.spec_get(p) is None);
                        assert(below_before.spec_get(q) is None);
                    }
                }
            }
        }
    }

    /// One step of opening a chord: the level `mid` holds the chord of the
    /// path's first input at `at`, and `now` is `mid` with other bindings
    /// below that chord.
    proof fn lemma_chord_step(
        now: &Self,
        mid: &Self,
        before: &Self,
        at: int,
        below_now: &Self,
        path: Seq<Input>,
        name: Seq<char>,
        target: &Self,
    )
        requires
            path.len() > 0,
            mid.wf(),
            0 <= at < mid.0@.len(),
            mid.0@[at].0 == path[0],
            mid.0@[at].1 is Chord,
            forall|q: Input| q != path[0] ==> #[trigger] mid.binds(q) == before.binds(q),
            forall|q: Input|
                q != path[0] && before.binds(q) ==> #[trigger] mid.node(q) == before.node(q),
            before.binds(path[0]) ==> before.node(path[0]) == mid.0@[at].1,
            !before.binds(path[0]) ==> (mid.0@[at].1 matches BindNode::Chord { name: given, bindings }
                && (forall|p: Seq<Input>| bindings.spec_get(p) is None) && given@ == (if path.len()
                == 1 {
                name
            } else {
                Seq::<char>::empty()
            })),
            below_now.wf(),
            now.0@ == mid.0@.update(
                at,
                (path[0], BindNode::Chord { name: mid.0@[at].1->name, bindings: *below_now }),
            ),
            path.len() == 1 ==> *target == *below_now,
            path.len() > 1 ==> below_now.opens_chord(
                &mid.0@[at].1->bindings,
                path.skip(1),
                name,
                target,
            ),
        ensures
            now.wf(),
            now.opens_chord(before, path, name, target),
    {
        let node = BindNode::Chord { name: mid.0@[at].1->name, bindings: *below_now };
        mid.lemma_entry(at);
        now.lemma_updated(mid, at, node);
        assert(path.take(1) =~= seq![path[0]]);
        Self::lemma_opens_chord_below(
            now,
            before,
            below_now,
            &mid.0@[at].1->bindings,
            path,
            name,
            target,
        );
    }

    /// Opens the chord `ks` from its input `from` on, below this level.
    fn chord_from(&mut self, name: &str, ks: &[Input], from: usize) -> (r: Option<
        &mut Bindings<A>,
    >)
        requires
            old(self).wf(),
            from < ks@.len(),
            old(self).chord_refusal(ks@.skip(from as int)) is None,
        ensures
            r matches Some(below) && below.wf() && (match old(self).spec_get(
                ks@.skip(from as int),
            ) {
                Some(BindNode::Chord { bindings, .. }) => *below == bindings,
                _ => forall|p: Seq<Input>| below.spec_get(p) is None,
            }) && (final(below).wf() ==> final(self).wf() && final(self).opens_chord(
                old(self),
                ks@.skip(from as int),
                name@,
                final(below),
            )),
        decreases ks@.len() - from,
    {
        let k = ks[from];
        let last = from + 1 == ks.len();
        let ghost path = ks@.skip(from as int);
        let ghost rest = ks@.skip(from + 1);
        assert(path[0] == k);
        assert(path.skip(1) =~= rest);
        assert(last ==> path =~= seq![k]);
        let i = match self.position(&k) {
            Some(i) => i,
            None => {
                let given = if last {
                    name.to_owned()
                } else {
                    String::new()
                };
                let chord = BindNode::Chord { name: given, bindings: Bindings::empty() };
                let ghost node = chord;
                self.0.push((k, chord));
                proof {
                    self.lemma_pushed(old(self), k, node);
                }
                self.0.len() - 1
            },
        };
        let ghost mid = *self;
        proof {
            mid.lemma_entry(i as int);
            if old(self).binds(k) {
                old(self).lemma_entry(i as int);
            }
        }
        match &mut self.0[i].1 {
            BindNode::Action(_) => {
                // the path would run into an action
                assert(false);
                None
            },
            BindNode::Chord { name: given, bindings } => {
                let ghost below = *bindings;
                if last {
                    assert forall|now: Self, target: Self|
                        #![trigger now.opens_chord(old(self), path, name@, &target)]
                        target.wf() && now.0@ == mid.0@.update(
                            i as int,
                            (k, BindNode::Chord { name: *given, bindings: target }),
                        ) implies now.wf() && now.opens_chord(old(self), path, name@, &target) by {
                        Self::lemma_chord_step(
                            &now,
                            &mid,
                            old(self),
                            i as int,
                            &target,
                            path,
                            name@,
                            &target,
                        );
                    }
                    Some(bindings)
                } else {
                    assert forall|now: Self, below_now: Self, target: Self|
                        #![trigger now.opens_chord(old(self), path, name@, &target), below_now.opens_chord(&below, rest, name@, &target)]
                        below_now.wf() && below_now.opens_chord(&below, rest, name@, &target)
                            && now.0@ == mid.0@.update(
                            i as int,
                            (k, BindNode::Chord { name: *given, bindings: below_now }),
                        ) implies now.wf() && now.opens_chord(old(self), path, name@, &target) by {
                        Self::lemma_chord_step(
                            &now,
                            &mid,
                            old(self),
                            i as int,
                            &below_now,
                            path,
                            name@,
                            &target,
                        );
                    }
                    bindings.chord_from(name, ks, from + 1)
                }
            },
        }
    }

    /// Opens the chord that the path of inputs `ks` names, and hands out the
    /// bindings below it, to be filled. Every input of the path becomes a
    /// chord where it is not one yet; `name` goes to the last one, and only
    /// where it is new.
    ///
    /// The chord is refused, and the tree left as it was, where
    /// [`Bindings::chord_refusal`] says so. Otherwise the bindings handed
    /// out are those that the chord had, or none, and what the tree is in
    /// the end follows what they are made into: see
    /// [`Bindings::opens_chord`].
    pub fn create_chord(&mut self, name: &str, ks: &[Input]) -> (r: Result<
        &mut Bindings<A>,
        BindError,
    >)
        requires
            old(self).wf(),
        ensures
            r matches Err(e) ==> old(self).chord_refusal(ks@) == Some(e) && *final(self) == *old(
                self,
            ),
            r matches Ok(below) ==> old(self).chord_refusal(ks@) is None && below.wf() && (
            match old(self).spec_get(ks@) {
                Some(BindNode::Chord { bindings, .. }) => *below == bindings,
                _ => forall|p: Seq<Input>| below.spec_get(p) is None,
            }) && (final(below).wf() ==> final(self).wf() && final(self).opens_chord(
                old(self),
                ks@,
                name@,
                final(below),
            )),
    {
        if ks.len() == 0 {
            return Err(BindError::EmptyPath);
        }
        let conflict = match self.get(ks) {
            Some(BindNode::Action(_)) => true,
            _ => false,
        };
        if conflict {
            return Err(BindError::Conflict);
        }
        assert(ks@.skip(0) =~= ks@);
        match self.chord_from(name, ks, 0) {
            Some(below) => Ok(below),
            None => {
                // a chord that is not refused opens
                assert(false);
                Err(BindError::Conflict)
            },
        }
    }
}

impl<A> Bindings<A> {
    /// Whether `p` is the full path of an action: it resolves to an action,
    /// and no shorter beginning of it does.
    pub open spec fn is_action_path(&self, p: Seq<Input>) -> bool {
        &&& p.len() > 0
        &&& self.spec_get(p) matches Some(BindNode::Action(_))
        &&& p.len() > 1 ==> self.spec_get(p.drop_last()) matches Some(BindNode::Chord { .. })
    }

    /// Whether `items` lists the actions of the tree: every item is an
    /// action with its full path, written behind `prefix`; every action of
    /// the tree is among the items; no path comes twice; and the actions
    /// bound directly under a chord come before those bound deeper under
    /// it.
    pub open spec fn lists(&self, prefix: Seq<Input>, items: Seq<(InputBuffer, &A)>) -> bool {
        &&& forall|i: int|
            0 <= i < items.len() ==> {
                let q = (#[trigger] items[i]).0@.skip(prefix.len() as int);
                &&& items[i].0@ == prefix + q
                &&& self.is_action_path(q)
                &&& self.spec_get(q) == Some(BindNode::Action(*items[i].1))
            }
        &&& forall|q: Seq<Input>| #[trigger]
            self.is_action_path(q) ==> exists|i: int|
                0 <= i < items.len() && (#[trigger] items[i]).0@ == prefix + q
        &&& forall|i: int, j: int|
            0 <= i < j < items.len() ==> (#[trigger] items[i]).0@ != (#[trigger] items[j]).0@
        &&& forall|i: int, j: int|
            0 <= i < items.len() && 0 <= j < items.len() && (#[trigger] items[j]).0@.len() < (
            #[trigger] items[i]).0@.len() && items[j].0@.drop_last().is_prefix_of(items[i].0@)
                ==> j < i
    }

    /// The place of the entry that binds `k` at this level.
    spec fn place(&self, k: Input) -> int {
        choose|i: int| 0 <= i < self.0@.len() && (#[trigger] self.0@[i]).0 == k
    }

    /// Each entry is found at its place.
    proof fn lemma_place(&self, i: int)
        requires
            self.wf(),
            0 <= i < self.0@.len(),
        ensures
            self.place(self.0@[i].0) == i,
    {
    }

    /// The place of an input that is bound.
    proof fn lemma_bound_place(&self, k: Input)
        requires
            self.wf(),
            self.binds(k),
        ensures
            0 <= self.place(k) < self.0@.len(),
            self.0@[self.place(k)].0 == k,
            self.0@[self.place(k)].1 == self.node(k),
    {
    }

    /// Whether `items` lists the actions of the tree as far as they lie
    /// under the first `direct` entries, for those bound at this level, and
    /// under the first `deep` entries, for those bound deeper.
    spec fn lists_upto(
        &self,
        prefix: Seq<Input>,
        items: Seq<(InputBuffer, &A)>,
        direct: int,
        deep: int,
    ) -> bool {
        &&& forall|i: int|
            0 <= i < items.len() ==> {
                let q = (#[trigger] items[i]).0@.skip(prefix.len() as int);
                &&& items[i].0@ == prefix + q
                &&& self.is_action_path(q)
                &&& self.spec_get(q) == Some(BindNode::Action(*items[i].1))
                &&& self.place(q[0]) < (if q.len() == 1 {
                    direct
                } else {
                    deep
                })
            }
        &&& forall|q: Seq<Input>| #[trigger]
            self.is_action_path(q) && self.place(q[0]) < (if q.len() == 1 {
                direct
            } else {
                deep
            }) ==> exists|i: int| 0 <= i < items.len() && (#[trigger] items[i]).0@ == prefix + q
        &&& forall|i: int, j: int|
            0 <= i < j < items.len() ==> (#[trigger] items[i]).0@ != (#[trigger] items[j]).0@
        &&& forall|i: int, j: int|
            0 <= i < items.len() && 0 <= j < items.len() && (#[trigger] items[j]).0@.len() < (
            #[trigger] items[i]).0@.len() && items[j].0@.drop_last().is_prefix_of(items[i].0@)
                ==> j < i
    }

    /// The action of an entry has the entry's input as its full path.
    proof fn lemma_direct_action(&self, e: int)
        requires
            self.wf(),
            0 <= e < self.0@.len(),
            self.0@[e].1 is Action,
        ensures
            self.is_action_path(seq![self.0@[e].0]),
            self.spec_get(seq![self.0@[e].0]) == Some(self.0@[e].1),
    {
        self.lemma_entry(e);
    }

    /// An action below the chord of an entry has, as its full path, the
    /// entry's input and then its full path below the chord.
    proof fn lemma_deep_action(&self, e: int, q: Seq<Input>)
        requires
            self.wf(),
            0 <= e < self.0@.len(),
            self.0@[e].1 is Chord,
            self.0@[e].1->bindings.is_action_path(q),
        ensures
            self.is_action_path(seq![self.0@[e].0] + q),
            self.spec_get(seq![self.0@[e].0] + q) == self.0@[e].1->bindings.spec_get(q),
    {
        self.lemma_entry(e);
        let p = seq![self.0@[e].0] + q;
        assert(p.skip(1) =~= q);
        assert(p.drop_last().len() > 0 && p.drop_last()[0] == p[0]);
        if q.len() > 1 {
            assert(p.drop_last().skip(1) =~= q.drop_last());
        }
    }

    /// Where a full path of an action begins: at an entry that is the
    /// action, or at an entry that is a chord with the rest of the path as
    /// a full path below it.
    proof fn lemma_action_path_entry(&self, q: Seq<Input>)
        requires
            self.wf(),
            self.is_action_path(q),
        ensures
            0 <= self.place(q[0]) < self.0@.len(),
            self.0@[self.place(q[0])].0 == q[0],
            q.len() == 1 ==> self.0@[self.place(q[0])].1 is Action,
            q.len() > 1 ==> self.0@[self.place(q[0])].1 is Chord && self.0@[self.place(
                q[0],
            )].1->bindings.is_action_path(q.skip(1)),
    {
        self.lemma_bound_place(q[0]);
        if q.len() > 1 {
            assert(q.drop_last().len() > 0 && q.drop_last()[0] == q[0]);
            if q.len() > 2 {
                assert(q.drop_last().skip(1) =~= q.skip(1).drop_last());
            }
        }
    }

    /// The actions bound directly at this level, each with its input.
    pub fn singles(&self) -> (items: Vec<(&Input, &A)>)
        requires
            self.wf(),
        ensures
            forall|i: int|
                0 <= i < items@.len() ==> self.spec_get(seq![*(#[trigger] items@[i]).0]) == Some(
                    BindNode::Action(*items@[i].1),
                ),
            forall|k: Input, a: A|
                self.spec_get(seq![k]) == Some(BindNode::Action(a)) ==> exists|i: int|
                    0 <= i < items@.len() && *(#[trigger] items@[i]).0 == k,
            forall|i: int, j: int|
                0 <= i < j < items@.len() ==> *(#[trigger] items@[i]).0 != *(#[trigger] items@[j]).0,
    {
        let mut items: Vec<(&Input, &A)> = Vec::new();
        let ghost mut from: Seq<int> = Seq::empty();
        let mut e: usize = 0;
        while e < self.0.len()
            invariant
                self.wf(),
                e <= self.0@.len(),
                from.len() == items@.len(),
                forall|i: int|
                    0 <= i < items@.len() ==> 0 <= (#[trigger] from[i]) < e && *items@[i].0
                        == self.0@[from[i]].0 && self.0@[from[i]].1 == BindNode::Action(
                        *items@[i].1,
                    ),
                forall|i: int, j: int|
                    0 <= i < j < items@.len() ==> (#[trigger] from[i]) < (#[trigger] from[j]),
                forall|d: int|
                    0 <= d < e && (#[trigger] self.0@[d]).1 is Action ==> exists|i: int|
                        0 <= i < items@.len() && #[trigger] from[i] == d,
            decreases self.0@.len() - e,
        {
            match &self.0[e].1 {
                BindNode::Action(a) => {
                    items.push((&self.0[e].0, a));
                    proof {
                        let ghost before = from;
                        from = from.push(e as int);
                        assert forall|d: int|
                            0 <= d < e + 1 && (#[trigger] self.0@[d]).1 is Action implies exists|
                            i: int,
                        |
                            0 <= i < items@.len() && #[trigger] from[i] == d by {
                            if d < e {
                                let i = choose|i: int|
                                    0 <= i < before.len() && #[trigger] before[i] == d;
                                assert(from[i] == d);
                            } else {
                                assert(from[items@.len() - 1] == d);
                            }
                        }
                    }
                },
                _ => {},
            }
            e += 1;
        }
        proof {
            assert forall|i: int| 0 <= i < items@.len() implies self.spec_get(
                seq![*(#[trigger] items@[i]).0],
            ) == Some(BindNode::Action(*items@[i].1)) by {
                self.lemma_direct_action(from[i]);
            }
            assert forall|k: Input, a: A|
                self.spec_get(seq![k]) == Some(BindNode::Action(a)) implies exists|i: int|
                0 <= i < items@.len() && *(#[trigger] items@[i]).0 == k by {
                self.lemma_bound_place(k);
                let d = self.place(k);
                let i = choose|i: int| 0 <= i < items@.len() && #[trigger] from[i] == d;
                assert(*items@[i].0 == k);
            }
            assert forall|i: int, j: int| 0 <= i < j < items@.len() implies *(
            #[trigger] items@[i]).0 != *(#[trigger] items@[j]).0 by {
                assert(from[i] < from[j]);
            }
        }
        items
    }
}

impl<A> Bindings<A> {
    /// The items listed so far are full paths of one input.
    proof fn lemma_listed_direct_only(
        &self,
        prefix: Seq<Input>,
        items: Seq<(InputBuffer, &A)>,
        direct: int,
    )
        requires
            self.wf(),
            self.lists_upto(prefix, items, direct, 0),
        ensures
            forall|i: int| 0 <= i < items.len() ==> (#[trigger] items[i]).0@.len() == prefix.len() + 1,
    {
        assert forall|i: int| 0 <= i < items.len() implies (#[trigger] items[i]).0@.len()
            == prefix.len() + 1 by {
            let q = items[i].0@.skip(prefix.len() as int);
            self.lemma_action_path_entry(q);
        }
    }

    /// Listing goes on with the action of entry `e`.
    proof fn lemma_listed_direct(
        &self,
        prefix: Seq<Input>,
        before: Seq<(InputBuffer, &A)>,
        after: Seq<(InputBuffer, &A)>,
        e: int,
    )
        requires
            self.wf(),
            0 <= e < self.0@.len(),
            self.lists_upto(prefix, before, e, 0),
            after.len() == before.len() + 1,
            after.take(before.len() as int) == before,
            after.last().0@ == prefix.push(self.0@[e].0),
            self.0@[e].1 == BindNode::Action(*after.last().1),
        ensures
            self.lists_upto(prefix, after, e + 1, 0),
    {
        let k = self.0@[e].0;
        let n = before.len() as int;
        self.lemma_direct_action(e);
        self.lemma_place(e);
        self.lemma_listed_direct_only(prefix, before, e);
        assert forall|i: int| 0 <= i < n implies #[trigger] after[i] == before[i] by {
            assert(after.take(n)[i] == before[i]);
        }
        assert(after[n].0@.skip(prefix.len() as int) =~= seq![k]);
        assert(prefix + seq![k] =~= prefix.push(k));
        assert forall|q: Seq<Input>| #[trigger]
            self.is_action_path(q) && self.place(q[0]) < (if q.len() == 1 {
                e + 1
            } else {
                0
            }) implies exists|i: int| 0 <= i < after.len() && (#[trigger] after[i]).0@ == prefix + q by {
            self.lemma_action_path_entry(q);
            if self.place(q[0]) < e {
                let i = choose|i: int| 0 <= i < before.len() && (#[trigger] before[i]).0@ == prefix + q;
                assert(after[i].0@ == prefix + q);
            } else {
                assert(q =~= seq![k]);
                assert(after[n].0@ == prefix + q);
            }
        }
        assert forall|i: int, j: int| 0 <= i < j < after.len() implies (#[trigger] after[i]).0@ != (
        #[trigger] after[j]).0@ by {
            if j == n {
                let q = before[i].0@.skip(prefix.len() as int);
                assert(after[i] == before[i]);
                if after[i].0@ == after[j].0@ {
                    assert(q =~= seq![k]);
                }
            } else {
                assert(after[i] == before[i]);
                assert(after[j] == before[j]);
            }
        }
    }

    /// Listing the direct actions passes over a chord.
    proof fn lemma_listed_pass_chord(
        &self,
        prefix: Seq<Input>,
        items: Seq<(InputBuffer, &A)>,
        e: int,
    )
        requires
            self.wf(),
            0 <= e < self.0@.len(),
            self.lists_upto(prefix, items, e, 0),
            self.0@[e].1 is Chord,
        ensures
            self.lists_upto(prefix, items, e + 1, 0),
    {
        assert forall|q: Seq<Input>| #[trigger]
            self.is_action_path(q) && self.place(q[0]) < (if q.len() == 1 {
                e + 1
            } else {
                0
            }) implies exists|i: int| 0 <= i < items.len() && (#[trigger] items[i]).0@ == prefix + q by {
            self.lemma_action_path_entry(q);
        }
    }

    /// Listing the deeper actions passes over an action.
    proof fn lemma_listed_pass_action(
        &self,
        prefix: Seq<Input>,
        items: Seq<(InputBuffer, &A)>,
        direct: int,
        e: int,
    )
        requires
            self.wf(),
            0 <= e < self.0@.len(),
            self.lists_upto(prefix, items, direct, e),
            self.0@[e].1 is Action,
        ensures
            self.lists_upto(prefix, items, direct, e + 1),
    {
        assert forall|q: Seq<Input>| #[trigger]
            self.is_action_path(q) && self.place(q[0]) < (if q.len() == 1 {
                direct
            } else {
                e + 1
            }) implies exists|i: int| 0 <= i < items.len() && (#[trigger] items[i]).0@ == prefix + q by {
            self.lemma_action_path_entry(q);
        }
    }

    /// Listing goes on with the actions below the chord of entry `e`.
    proof fn lemma_listed_deep(
        &self,
        prefix: Seq<Input>,
        before: Seq<(InputBuffer, &A)>,
        below: Seq<(InputBuffer, &A)>,
        after: Seq<(InputBuffer, &A)>,
        direct: int,
        e: int,
    )
        requires
            self.wf(),
            0 <= e < self.0@.len(),
            self.lists_upto(prefix, before, direct, e),
            self.0@[e].1 is Chord,
            self.0@[e].1->bindings.lists(prefix.push(self.0@[e].0), below),
            after == before + below,
        ensures
            self.lists_upto(prefix, after, direct, e + 1),
    {
        let k = self.0@[e].0;
        let b = self.0@[e].1->bindings;
        let n = before.len() as int;
        let plen = prefix.len() as int;
        let deeper = prefix.push(k);
        self.lemma_place(e);
        assert forall|i: int| 0 <= i < after.len() implies ({
            let q = (#[trigger] after[i]).0@.skip(plen);
            &&& after[i].0@ == prefix + q
            &&& self.is_action_path(q)
            &&& self.spec_get(q) == Some(BindNode::Action(*after[i].1))
            &&& self.place(q[0]) < (if q.len() == 1 {
                direct
            } else {
                e + 1
            })
            &&& (i >= n ==> q.len() > 1 && q[0] == k)
            &&& (i < n ==> q.len() == 1 || self.place(q[0]) < e)
        }) by {
            if i < n {
                assert(after[i] == before[i]);
            } else {
                assert(after[i] == below[i - n]);
                let r = below[i - n].0@.skip(plen + 1);
                let q = after[i].0@.skip(plen);
                assert(q =~= seq![k] + r);
                assert(prefix + q =~= deeper + r);
                self.lemma_deep_action(e, r);
            }
        }
        assert forall|q: Seq<Input>| #[trigger]
            self.is_action_path(q) && self.place(q[0]) < (if q.len() == 1 {
                direct
            } else {
                e + 1
            }) implies exists|i: int| 0 <= i < after.len() && (#[trigger] after[i]).0@ == prefix + q by {
            self.lemma_action_path_entry(q);
            if q.len() > 1 && self.place(q[0]) == e {
                let r = q.skip(1);
                assert(b.is_action_path(r));
                let i = choose|i: int| 0 <= i < below.len() && (#[trigger] below[i]).0@ == deeper + r;
                assert(after[n + i] == below[i]);
                assert(deeper + r =~= prefix + q);
            } else {
                let i = choose|i: int| 0 <= i < before.len() && (#[trigger] before[i]).0@ == prefix + q;
                assert(after[i] == before[i]);
            }
        }
        assert forall|i: int, j: int| 0 <= i < j < after.len() implies (#[trigger] after[i]).0@ != (
        #[trigger] after[j]).0@ by {
            if after[i].0@ == after[j].0@ {
                if j < n {
                    assert(after[i] == before[i] && after[j] == before[j]);
                } else if i >= n {
                    assert(after[i] == below[i - n] && after[j] == below[j - n]);
                } else {
                    let q = after[i].0@.skip(plen);
                    assert(q[0] == k);
                }
            }
        }
        assert forall|i: int, j: int|
            0 <= i < after.len() && 0 <= j < after.len() && (#[trigger] after[j]).0@.len() < (
            #[trigger] after[i]).0@.len() && after[j].0@.drop_last().is_prefix_of(
                after[i].0@,
            ) implies j < i by {
            if i < n && j < n {
                assert(after[i] == before[i] && after[j] == before[j]);
            } else if i >= n && j >= n {
                assert(after[i] == below[i - n] && after[j] == below[j - n]);
            } else if i < n {
                let qi = after[i].0@.skip(plen);
                let qj = after[j].0@.skip(plen);
                let short = after[j].0@.drop_last();
                assert(short[plen] == after[i].0@.subrange(0, short.len() as int)[plen]);
                assert(qi[0] == k);
            }
        }
    }

    /// The actions of the tree, each with its full path behind `prefix`.
    fn collect<'a>(&'a self, prefix: &[Input]) -> (items: Vec<(InputBuffer, &'a A)>)
        requires
            self.wf(),
        ensures
            self.lists(prefix@, items@),
        decreases self,
    {
        let mut items: Vec<(InputBuffer, &'a A)> = Vec::new();
        let mut e: usize = 0;
        while e < self.0.len()
            invariant
                self.wf(),
                e <= self.0@.len(),
                self.lists_upto(prefix@, items@, e as int, 0),
            decreases self.0@.len() - e,
        {
            match &self.0[e].1 {
                BindNode::Action(a) => {
                    let mut path = InputBuffer::from_inputs(prefix);
                    path.push(self.0[e].0);
                    let ghost before = items@;
                    items.push((path, a));
                    proof {
                        assert(items@.take(before.len() as int) =~= before);
                        self.lemma_listed_direct(prefix@, before, items@, e as int);
                    }
                },
                _ => {
                    proof {
                        self.lemma_listed_pass_chord(prefix@, items@, e as int);
                    }
                },
            }
            e += 1;
        }
        let mut e: usize = 0;
        while e < self.0.len()
            invariant
                self.wf(),
                e <= self.0@.len(),
                self.lists_upto(prefix@, items@, self.0@.len() as int, e as int),
            decreases self.0@.len() - e,
        {
            match &self.0[e].1 {
                BindNode::Chord { bindings, .. } => {
                    let mut deeper = InputBuffer::from_inputs(prefix);
                    deeper.push(self.0[e].0);
                    proof {
                        self.lemma_entry(e as int);
                    }
                    let mut below = bindings.collect(deeper.as_slice());
                    let ghost before = items@;
                    let ghost listed = below@;
                    items.append(&mut below);
                    proof {
                        self.lemma_listed_deep(
                            prefix@,
                            before,
                            listed,
                            items@,
                            self.0@.len() as int,
                            e as int,
                        );
                    }
                },
                _ => {
                    proof {
                        self.lemma_listed_pass_action(
                            prefix@,
                            items@,
                            self.0@.len() as int,
                            e as int,
                        );
                    }
                },
            }
            e += 1;
        }
        proof {
            assert forall|q: Seq<Input>| #[trigger] self.is_action_path(q) implies exists|i: int|
                0 <= i < items@.len() && (#[trigger] items@[i]).0@ == prefix@ + q by {
                self.lemma_action_path_entry(q);
            }
        }
        items
    }

    /// Every action of the tree with its full path: see
    /// [`Bindings::lists`]. The order is that of a walk that lists what is
    /// bound directly under a chord before it goes deeper.
    pub fn iter(&self) -> (items: Vec<(InputBuffer, &A)>)
        requires
            self.wf(),
        ensures
            self.lists(Seq::empty(), items@),
    {
        let none: [Input; 0] = [];
        let items = self.collect(&none);
        assert(none@ =~= Seq::<Input>::empty());
        items
    }

    /// Every action of the tree, in the order of [`Bindings::iter`].
    pub fn actions(&self) -> (found: Vec<&A>)
        requires
            self.wf(),
        ensures
            exists|items: Seq<(InputBuffer, &A)>|
                self.lists(Seq::empty(), items) && found@.len() == items.len() && forall|i: int|
                    0 <= i < items.len() ==> found@[i] == (#[trigger] items[i]).1,
    {
        let items = self.iter();
        let mut found: Vec<&A> = Vec::new();
        let mut i: usize = 0;
        while i < items.len()
            invariant
                i <= items@.len(),
                found@.len() == i,
                forall|j: int| 0 <= j < i ==> found@[j] == (#[trigger] items@[j]).1,
            decreases items@.len() - i,
        {
            found.push(items[i].1);
            i += 1;
        }
        found
    }
}

impl<A> Bindings<A> {
    /// A path that reaches an action resolves to that action however it
    /// goes on.
    pub proof fn lemma_action_ends_lookup(&self, p: Seq<Input>, longer: Seq<Input>)
        requires
            self.spec_get(p) matches Some(BindNode::Action(_)),
            p.is_prefix_of(longer),
        ensures
            self.spec_get(longer) == self.spec_get(p),
        decreases p.len(),
    {
        assert(p[0] == longer.subrange(0, p.len() as int)[0]);
        match self.node(p[0]) {
            BindNode::Action(_) => {},
            BindNode::Chord { name, bindings } => {
                lemma_prefix_skip(p, longer);
                bindings.lemma_action_ends_lookup(p.skip(1), longer.skip(1));
            },
        }
    }

    /// Where a path leads somewhere, every beginning of it does.
    pub proof fn lemma_beginning_is_bound(&self, p: Seq<Input>, longer: Seq<Input>)
        requires
            self.spec_get(longer) is Some,
            p.len() > 0,
            p.is_prefix_of(longer),
        ensures
            self.spec_get(p) is Some,
        decreases p.len(),
    {
        assert(p[0] == longer.subrange(0, p.len() as int)[0]);
        match self.node(p[0]) {
            BindNode::Action(_) => {},
            BindNode::Chord { name, bindings } => {
                if p.len() > 1 {
                    lemma_prefix_skip(p, longer);
                    bindings.lemma_beginning_is_bound(p.skip(1), longer.skip(1));
                }
            },
        }
    }

    /// Once a path has been bound to an action, it resolves to that action:
    /// `self` is the tree after the binding.
    pub proof fn lemma_bound_path_resolves(&self, before: &Self, ks: Seq<Input>, v: A)
        requires
            self.binds_path(before, ks, v),
        ensures
            self.spec_get(ks) == Some(BindNode::Action(v)),
    {
        assert(ks =~= ks.subrange(0, ks.len() as int));
    }

    /// A binding that was accepted leaves every path that resolved to an
    /// action before resolving to that action: `self` is the tree after
    /// the binding, `before` the tree before it.
    pub proof fn lemma_binding_persists(
        &self,
        before: &Self,
        ks: Seq<Input>,
        v: A,
        p: Seq<Input>,
        a: A,
    )
        requires
            before.chorded_refusal(ks) is None,
            self.binds_path(before, ks, v),
            before.spec_get(p) == Some(BindNode::Action(a)),
        ensures
            self.spec_get(p) == Some(BindNode::Action(a)),
    {
        if ks.is_prefix_of(p) {
            before.lemma_beginning_is_bound(ks, p);
        } else if p.is_prefix_of(ks) {
            assert(p.len() < ks.len()) by {
                if p.len() == ks.len() {
                    assert(p =~= ks);
                    assert(ks =~= p.subrange(0, ks.len() as int));
                }
            }
            assert(p.is_prefix_of(ks.drop_last())) by {
                assert(p =~= ks.drop_last().subrange(0, p.len() as int));
            }
            before.lemma_action_ends_lookup(p, ks.drop_last());
        }
    }

    /// A path that led nowhere before a binding was accepted, and that
    /// neither begins with the path bound nor begins it, still leads
    /// nowhere: `self` is the tree after the binding.
    pub proof fn lemma_unbound_stays_unbound(
        &self,
        before: &Self,
        ks: Seq<Input>,
        v: A,
        p: Seq<Input>,
    )
        requires
            self.binds_path(before, ks, v),
            before.spec_get(p) is None,
            !ks.is_prefix_of(p),
            !p.is_prefix_of(ks),
        ensures
            self.spec_get(p) is None,
    {
    }
}

} // verus!
