//! Producer/consumer hand-off container: the inner state can be taken out
//! for slow offline work while updates queue against it, and merged back
//! with every queued update replayed in insertion order.
use vstd::prelude::*;

verus! {

/// State a `TakableMap` can carry: applying one deferred action is its own
/// operation, described on the view.
pub trait TakableContent<A>: View + Sized {
    /// What one action does to the content.
    spec fn spec_apply(pre: Self::V, a: A) -> Self::V;

    /// Apply one action now.
    fn add_value(&mut self, val: A)
        ensures
            final(self)@ == Self::spec_apply(old(self)@, val),
    ;
}

/// All actions applied in order, oldest first.
pub open spec fn spec_apply_all<A, V: TakableContent<A>>(pre: V::V, acts: Seq<A>) -> V::V
    decreases acts.len(),
{
    if acts.len() == 0 {
        pre
    } else {
        spec_apply_all::<A, V>(V::spec_apply(pre, acts[0]), acts.drop_first())
    }
}

/// Appending one action to the queue appends one application.
pub proof fn lemma_apply_all_snoc<A, V: TakableContent<A>>(pre: V::V, acts: Seq<A>, a: A)
    ensures
        spec_apply_all::<A, V>(pre, acts.push(a))
            == V::spec_apply(spec_apply_all::<A, V>(pre, acts), a),
    decreases acts.len(),
{
    if acts.len() == 0 {
        assert(acts.push(a)[0] == a);
        assert(acts.push(a).drop_first() =~= Seq::<A>::empty());
        assert(spec_apply_all::<A, V>(pre, acts.push(a))
            == spec_apply_all::<A, V>(V::spec_apply(pre, a), acts.push(a).drop_first()));
        assert(spec_apply_all::<A, V>(V::spec_apply(pre, a), Seq::<A>::empty())
            == V::spec_apply(pre, a));
        assert(spec_apply_all::<A, V>(pre, acts) == pre);
    } else {
        assert(acts.push(a)[0] == acts[0]);
        assert(acts.push(a).drop_first() =~= acts.drop_first().push(a));
        assert(spec_apply_all::<A, V>(pre, acts.push(a))
            == spec_apply_all::<A, V>(V::spec_apply(pre, acts[0]), acts.drop_first().push(a)));
        lemma_apply_all_snoc::<A, V>(V::spec_apply(pre, acts[0]), acts.drop_first(), a);
        assert(spec_apply_all::<A, V>(pre, acts)
            == spec_apply_all::<A, V>(V::spec_apply(pre, acts[0]), acts.drop_first()));
    }
}

/// The hand-off error: the container was in the wrong state for the call.
#[derive(Clone, Copy, Debug, PartialEq, Eq, Structural)]
pub enum TakableError {
    AlreadyTaken,
    NotTaken,
}

/// A container that is either populated, or taken while a consumer works on
/// the moved-out state. While taken (and whenever an update must not land
/// yet), actions queue; `merge` replays them in insertion order.
pub struct TakableMap<A, V: TakableContent<A>> {
    content: Option<V>,
    updates: Vec<A>,
}

impl<A, V: TakableContent<A>> TakableMap<A, V> {
    /// The view of the populated content; `None` while taken.
    pub closed spec fn spec_content(self) -> Option<V::V> {
        match self.content {
            Some(v) => Some(v@),
            None => None,
        }
    }

    /// The queued actions, oldest first.
    pub closed spec fn spec_updates(self) -> Seq<A> {
        self.updates@
    }

    /// A populated container with an empty queue.
    pub fn new(v: V) -> (r: TakableMap<A, V>)
        ensures
            r.spec_content() == Some(v@),
            r.spec_updates() == Seq::<A>::empty(),
    {
        let r = TakableMap { content: Some(v), updates: Vec::new() };
        proof {
            assert(r.spec_updates() =~= Seq::<A>::empty());
        }
        r
    }

    /// Apply the action now when allowed and the container is populated;
    /// otherwise queue it. The producer never blocks and never loses an
    /// action.
    pub fn add_value(&mut self, val: A, apply_now: bool)
        ensures
            (apply_now && old(self).spec_content() is Some) ==> {
                &&& final(self).spec_content() == Some(
                    V::spec_apply(old(self).spec_content().unwrap(), val),
                )
                &&& final(self).spec_updates() == old(self).spec_updates()
            },
            !(apply_now && old(self).spec_content() is Some) ==> {
                &&& final(self).spec_content() == old(self).spec_content()
                &&& final(self).spec_updates() == old(self).spec_updates().push(val)
            },
    {
        if apply_now && self.content.is_some() {
            let mut taken: Option<V> = None;
            core::mem::swap(&mut self.content, &mut taken);
            match taken {
                Some(mut v) => {
                    v.add_value(val);
                    self.content = Some(v);
                },
                None => {
                    // the container was just seen populated
                    assert(false);
                },
            }
        } else {
            self.updates.push(val);
        }
    }

    /// Move the inner state out, leaving the container taken. Fails if it
    /// is already taken.
    pub fn take(&mut self) -> (r: Result<V, TakableError>)
        ensures
            match r {
                Ok(v) => {
                    &&& old(self).spec_content() == Some(v@)
                    &&& final(self).spec_content() is None
                    &&& final(self).spec_updates() == old(self).spec_updates()
                },
                Err(e) => {
                    &&& e == TakableError::AlreadyTaken
                    &&& old(self).spec_content() is None
                    &&& *final(self) == *old(self)
                },
            },
            r is Ok <==> old(self).spec_content() is Some,
    {
        let mut taken: Option<V> = None;
        core::mem::swap(&mut self.content, &mut taken);
        match taken {
            Some(v) => Ok(v),
            None => Err(TakableError::AlreadyTaken),
        }
    }

    /// Restore the inner state and replay every queued action against it in
    /// insertion order. Fails if the container was not taken.
    pub fn merge(&mut self, v: V) -> (r: Result<(), TakableError>)
        ensures
            match r {
                Ok(_) => {
                    &&& old(self).spec_content() is None
                    &&& final(self).spec_content() == Some(
                        spec_apply_all::<A, V>(v@, old(self).spec_updates()),
                    )
                    &&& final(self).spec_updates() == Seq::<A>::empty()
                },
                Err(e) => {
                    &&& e == TakableError::NotTaken
                    &&& old(self).spec_content() is Some
                    &&& *final(self) == *old(self)
                },
            },
            r is Ok <==> old(self).spec_content() is None,
    {
        if self.content.is_some() {
            return Err(TakableError::NotTaken);
        }
        let ghost queued = self.updates@;
        let mut pending: Vec<A> = Vec::new();
        core::mem::swap(&mut self.updates, &mut pending);
        let mut acc = v;
        let ghost v0 = v@;
        let ghost i: int = 0;
        while pending.len() > 0
            invariant
                0 <= i,
                i + pending@.len() == queued.len(),
                pending@ == queued.skip(i),
                acc@ == spec_apply_all::<A, V>(v0, queued.take(i)),
            decreases pending@.len(),
        {
            let ghost applied = queued.take(i);
            let a = pending.remove(0);
            proof {
                assert(a == queued[i]);
                assert(pending@ =~= queued.skip(i + 1));
                assert(queued.take(i + 1) =~= applied.push(queued[i]));
                lemma_apply_all_snoc::<A, V>(v0, applied, queued[i]);
            }
            acc.add_value(a);
            proof {
                i = i + 1;
            }
        }
        proof {
            assert(queued.take(queued.len() as int) =~= queued);
        }
        self.content = Some(acc);
        proof {
            assert(self.spec_updates() =~= Seq::<A>::empty());
        }
        Ok(())
    }
}

} // verus!
