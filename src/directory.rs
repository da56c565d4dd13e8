//! The broadcast directory: connection id to that connection's sender.
//!
//! Sending happens outside; the directory lists the targets in order and
//! drops those whose send failed.

use vstd::prelude::*;

verus! {

/// The entries whose delivery succeeded, in their order.
pub open spec fn kept<S>(entries: Seq<(String, S)>, delivered: Seq<bool>) -> Seq<(String, S)>
    decreases entries.len(),
{
    if entries.len() == 0 || delivered.len() == 0 {
        Seq::empty()
    } else {
        let rest = kept(entries.skip(1), delivered.skip(1));
        if delivered[0] {
            seq![entries[0]] + rest
        } else {
            rest
        }
    }
}

/// The entries whose id is not `id`, in their order.
pub open spec fn without<S>(entries: Seq<(String, S)>, id: Seq<char>) -> Seq<(String, S)>
    decreases entries.len(),
{
    if entries.len() == 0 {
        Seq::empty()
    } else {
        let rest = without(entries.skip(1), id);
        if entries[0].0@ == id {
            rest
        } else {
            seq![entries[0]] + rest
        }
    }
}

/// Connection id to outbound sender, in order of connection.
pub struct Directory<S> {
    entries: Vec<(String, S)>,
}

impl<S> View for Directory<S> {
    type V = Seq<(String, S)>;

    closed spec fn view(&self) -> Seq<(String, S)> {
        self.entries@
    }
}

impl<S> Directory<S> {
    pub fn new() -> (r: Directory<S>)
        ensures
            r@ == Seq::<(String, S)>::empty(),
    {
        Directory { entries: Vec::new() }
    }

    pub fn len(&self) -> (r: usize)
        ensures
            r == self@.len(),
    {
        self.entries.len()
    }

    /// The id of the connection at position `i`.
    pub fn id(&self, i: usize) -> (r: &String)
        requires
            i < self@.len(),
        ensures
            *r == self@[i as int].0,
    {
        &self.entries[i].0
    }

    /// The sender of the connection at position `i`.
    pub fn sender(&self, i: usize) -> (r: &S)
        requires
            i < self@.len(),
        ensures
            *r == self@[i as int].1,
    {
        &self.entries[i].1
    }

    /// Registers the sender of a new connection; an earlier sender under the
    /// same id is dropped.
    pub fn add(&mut self, id: String, sender: S)
        ensures
            final(self)@ == without(old(self)@, id@).push((id, sender)),
    {
        self.remove(&id);
        self.entries.push((id, sender));
    }

    /// Drops the connection `id`; nothing happens when it is absent.
    pub fn remove(&mut self, id: &String)
        ensures
            final(self)@ == without(old(self)@, id@),
    {
        let ghost o = self.entries@;
        let mut i: usize = self.entries.len();
        while i > 0
            invariant
                o == old(self).entries@,
                i <= o.len(),
                self.entries@ == o.take(i as int) + without(o.skip(i as int), id@),
            decreases i,
        {
            i = i - 1;
            assert(o.skip(i as int).skip(1) =~= o.skip(i + 1));
            assert(o.skip(i as int)[0] == o[i as int]);
            assert(o.take(i + 1) =~= o.take(i as int).push(o[i as int]));
            let ghost rest = without(o.skip(i + 1), id@);
            if self.entries[i].0 == *id {
                assert(self.entries@[i as int] == o[i as int]);
                self.entries.remove(i);
                assert(self.entries@ =~= o.take(i as int) + rest);
            } else {
                assert(self.entries@[i as int] == o[i as int]);
                assert(self.entries@ =~= o.take(i as int) + (seq![o[i as int]] + rest));
            }
        }
        assert(o.skip(0) =~= o);
        assert(o.take(0) + without(o, id@) =~= without(o, id@));
    }

    /// Keeps the connections whose send succeeded: `delivered[i]` tells
    /// whether the send to the entry at position `i` went through.
    pub fn retain_delivered(&mut self, delivered: &Vec<bool>)
        requires
            delivered@.len() == old(self)@.len(),
        ensures
            final(self)@ == kept(old(self)@, delivered@),
    {
        let ghost o = self.entries@;
        let ghost d = delivered@;
        let mut i: usize = self.entries.len();
        while i > 0
            invariant
                o == old(self).entries@,
                d == delivered@,
                d.len() == o.len(),
                i <= o.len(),
                self.entries@ == o.take(i as int) + kept(o.skip(i as int), d.skip(i as int)),
            decreases i,
        {
            i = i - 1;
            assert(o.skip(i as int).skip(1) =~= o.skip(i + 1));
            assert(d.skip(i as int).skip(1) =~= d.skip(i + 1));
            assert(o.skip(i as int)[0] == o[i as int]);
            assert(d.skip(i as int)[0] == d[i as int]);
            assert(o.take(i + 1) =~= o.take(i as int).push(o[i as int]));
            let ghost rest = kept(o.skip(i + 1), d.skip(i + 1));
            if !delivered[i] {
                assert(self.entries@[i as int] == o[i as int]);
                self.entries.remove(i);
                assert(self.entries@ =~= o.take(i as int) + rest);
            } else {
                assert(self.entries@[i as int] == o[i as int]);
                assert(self.entries@ =~= o.take(i as int) + (seq![o[i as int]] + rest));
            }
        }
        assert(o.skip(0) =~= o);
        assert(d.skip(0) =~= d);
        assert(o.take(0) + kept(o, d) =~= kept(o, d));
    }
}

/// When every send succeeds, every connection stays.
pub proof fn lemma_all_delivered<S>(entries: Seq<(String, S)>, delivered: Seq<bool>)
    requires
        delivered.len() == entries.len(),
        forall|i: int| 0 <= i < delivered.len() ==> delivered[i],
    ensures
        kept(entries, delivered) == entries,
    decreases entries.len(),
{
    if entries.len() > 0 {
        lemma_all_delivered(entries.skip(1), delivered.skip(1));
        assert(seq![entries[0]] + entries.skip(1) =~= entries);
    } else {
        assert(entries =~= Seq::<(String, S)>::empty());
    }
}

/// A broadcast in which exactly the send at position `failed` fails drops
/// that connection and keeps all the others, in order.
pub proof fn lemma_one_failure<S>(entries: Seq<(String, S)>, delivered: Seq<bool>, failed: int)
    requires
        delivered.len() == entries.len(),
        0 <= failed < entries.len(),
        !delivered[failed],
        forall|i: int| 0 <= i < delivered.len() && i != failed ==> delivered[i],
    ensures
        kept(entries, delivered) == entries.remove(failed),
    decreases entries.len(),
{
    if failed == 0 {
        lemma_all_delivered(entries.skip(1), delivered.skip(1));
        assert(entries.skip(1) =~= entries.remove(0));
    } else {
        lemma_one_failure(entries.skip(1), delivered.skip(1), failed - 1);
        assert(seq![entries[0]] + entries.skip(1).remove(failed - 1) =~= entries.remove(failed));
    }
}

/// Removing a connection a second time changes nothing.
pub proof fn lemma_remove_idempotent<S>(entries: Seq<(String, S)>, id: Seq<char>)
    ensures
        without(without(entries, id), id) == without(entries, id),
    decreases entries.len(),
{
    if entries.len() > 0 {
        let rest = without(entries.skip(1), id);
        lemma_remove_idempotent(entries.skip(1), id);
        if entries[0].0@ != id {
            let w = seq![entries[0]] + rest;
            assert(w.skip(1) =~= rest);
            assert(w[0] == entries[0]);
        }
    }
}

/// After a removal no entry carries the removed id.
pub proof fn lemma_without_absent<S>(entries: Seq<(String, S)>, id: Seq<char>)
    ensures
        forall|i: int| 0 <= i < without(entries, id).len() ==> #[trigger] without(entries, id)[i].0@ != id,
    decreases entries.len(),
{
    if entries.len() > 0 {
        let rest = without(entries.skip(1), id);
        lemma_without_absent(entries.skip(1), id);
        if entries[0].0@ != id {
            let w = seq![entries[0]] + rest;
            assert forall|i: int| 0 <= i < w.len() implies #[trigger] w[i].0@ != id by {
                if i > 0 {
                    assert(w[i] == rest[i - 1]);
                }
            }
        }
    }
}

} // verus!
