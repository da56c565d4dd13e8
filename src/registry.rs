//! The registry: player id to that player's input state.

use vstd::prelude::*;
use crate::state::{
    clamped, default_state, in_range, lemma_clamped_in_range, update_joysticks, GameState,
};

verus! {

/// The registry with every state clamped.
pub open spec fn clamp_all_spec(m: Map<Seq<char>, GameState>) -> Map<Seq<char>, GameState> {
    Map::new(|k: Seq<char>| m.contains_key(k), |k: Seq<char>| clamped(m[k]))
}

/// `entries` lists the mapping `m`: one entry per key, each with its state.
pub open spec fn lists(entries: Seq<(String, GameState)>, m: Map<Seq<char>, GameState>) -> bool {
    &&& forall|i: int| 0 <= i < entries.len() ==> #[trigger] m.contains_key(entries[i].0@)
        && m[entries[i].0@] == entries[i].1
    &&& forall|k: Seq<char>| #[trigger] m.contains_key(k) ==> exists|i: int|
        0 <= i < entries.len() && entries[i].0@ == k
    &&& forall|i: int, j: int| 0 <= i < j < entries.len() ==> entries[i].0@ != entries[j].0@
}

/// Player id to input state. Ids are unique; the order of the entries is
/// that of registration.
pub struct Registry {
    ids: Vec<String>,
    states: Vec<GameState>,
    model: Ghost<Map<Seq<char>, GameState>>,
}

impl View for Registry {
    type V = Map<Seq<char>, GameState>;

    closed spec fn view(&self) -> Map<Seq<char>, GameState> {
        self.model@
    }
}

/// Create an empty registry.
pub fn new_players() -> (r: Registry)
    ensures
        r.wf(),
        r@ == Map::<Seq<char>, GameState>::empty(),
{
    Registry::new()
}

impl Registry {
    pub closed spec fn wf(&self) -> bool {
        &&& self.ids.len() == self.states.len()
        &&& forall|i: int, j: int| 0 <= i < j < self.ids.len() ==> self.ids[i]@ != self.ids[j]@
        &&& forall|i: int| 0 <= i < self.ids.len() ==> #[trigger] self.model@.contains_key(self.ids[i]@)
            && self.model@[self.ids[i]@] == self.states[i]
        &&& forall|k: Seq<char>| #[trigger] self.model@.contains_key(k) ==> exists|i: int|
            0 <= i < self.ids.len() && self.ids[i]@ == k
    }

    pub fn new() -> (r: Registry)
        ensures
            r.wf(),
            r@ == Map::<Seq<char>, GameState>::empty(),
    {
        Registry { ids: Vec::new(), states: Vec::new(), model: Ghost(Map::empty()) }
    }

    fn find(&self, id: &String) -> (r: Option<usize>)
        requires
            self.wf(),
        ensures
            r matches Some(i) ==> i < self.ids.len() && self.ids[i as int]@ == id@,
            r is None ==> !self@.contains_key(id@),
    {
        let mut i: usize = 0;
        while i < self.ids.len()
            invariant
                self.wf(),
                i <= self.ids.len(),
                forall|j: int| 0 <= j < i ==> self.ids[j]@ != id@,
            decreases self.ids.len() - i,
        {
            if self.ids[i] == *id {
                return Some(i);
            }
            i = i + 1;
        }
        None
    }

    /// Whether `id` has an entry.
    pub fn contains(&self, id: &String) -> (r: bool)
        requires
            self.wf(),
        ensures
            r == self@.contains_key(id@),
    {
        self.find(id).is_some()
    }

    /// The state stored for `id`, if any.
    pub fn get(&self, id: &String) -> (r: Option<GameState>)
        requires
            self.wf(),
        ensures
            r == (if self@.contains_key(id@) { Some(self@[id@]) } else { None::<GameState> }),
    {
        match self.find(id) {
            Some(i) => Some(self.states[i]),
            None => None,
        }
    }

    /// Inserts a default state for `id`, replacing any state it had.
    pub fn register(&mut self, id: &String)
        requires
            old(self).wf(),
        ensures
            final(self).wf(),
            final(self)@ == old(self)@.insert(id@, default_state()),
    {
        self.put(id, GameState::new_default());
    }

    fn put(&mut self, id: &String, s: GameState)
        requires
            old(self).wf(),
        ensures
            final(self).wf(),
            final(self)@ == old(self)@.insert(id@, s),
    {
        let ghost m = self.model@.insert(id@, s);
        match self.find(id) {
            Some(i) => {
                self.states.set(i, s);
                self.model = Ghost(m);
                assert forall|j: int| 0 <= j < self.ids.len() implies #[trigger] self.model@.contains_key(self.ids[j]@)
                    && self.model@[self.ids[j]@] == self.states[j] by {
                    if j != i {
                        assert(old(self).model@.contains_key(old(self).ids[j]@));
                    }
                }
                assert forall|k: Seq<char>| #[trigger] self.model@.contains_key(k) implies exists|j: int|
                    0 <= j < self.ids.len() && self.ids[j]@ == k by {
                    if k == id@ {
                        assert(self.ids[i as int]@ == k);
                    }
                }
            },
            None => {
                assert forall|j: int| 0 <= j < self.ids.len() implies self.ids[j]@ != id@ by {
                    assert(self.model@.contains_key(self.ids[j]@));
                }
                self.ids.push(id.clone());
                self.states.push(s);
                self.model = Ghost(m);
                assert forall|k: Seq<char>| #[trigger] self.model@.contains_key(k) implies exists|j: int|
                    0 <= j < self.ids.len() && self.ids[j]@ == k by {
                    if k == id@ {
                        assert(self.ids[self.ids.len() - 1]@ == k);
                    } else {
                        assert(old(self)@.contains_key(k));
                        let j = choose|j: int| 0 <= j < old(self).ids.len() && old(self).ids[j]@ == k;
                        assert(self.ids[j]@ == k);
                    }
                }
            },
        }
    }

    /// Removes the entry of `id`; nothing happens when it has none.
    pub fn unregister(&mut self, id: &String)
        requires
            old(self).wf(),
        ensures
            final(self).wf(),
            final(self)@ == old(self)@.remove(id@),
    {
        match self.find(id) {
            Some(i) => {
                let ghost old_ids = self.ids@;
                let ghost old_states = self.states@;
                self.ids.remove(i);
                self.states.remove(i);
                self.model = Ghost(self.model@.remove(id@));
                assert forall|j: int| 0 <= j < self.ids.len() implies #[trigger] self.model@.contains_key(self.ids[j]@)
                    && self.model@[self.ids[j]@] == self.states[j] by {
                    if j < i {
                        assert(self.ids[j] == old_ids[j]);
                        assert(self.states[j] == old_states[j]);
                        assert(old_ids[j]@ != old_ids[i as int]@);
                        assert(old(self).model@.contains_key(old_ids[j]@));
                    } else {
                        assert(self.ids[j] == old_ids[j + 1]);
                        assert(self.states[j] == old_states[j + 1]);
                        assert(old_ids[j + 1]@ != old_ids[i as int]@);
                        assert(old(self).model@.contains_key(old_ids[j + 1]@));
                    }
                }
                assert forall|k: Seq<char>| #[trigger] self.model@.contains_key(k) implies exists|j: int|
                    0 <= j < self.ids.len() && self.ids[j]@ == k by {
                    let j = choose|j: int| 0 <= j < old_ids.len() && old_ids[j]@ == k;
                    if j < i {
                        assert(self.ids[j]@ == k);
                    } else {
                        assert(j != i);
                        assert(self.ids[j - 1]@ == k);
                    }
                }
            },
            None => {
                assert(self.model@.remove(id@) =~= self.model@);
            },
        }
    }

    /// Replaces the state of a registered `id` by `s`, clamped; returns
    /// false and changes nothing when `id` has no entry.
    pub fn apply_action(&mut self, id: &String, s: GameState) -> (r: bool)
        requires
            old(self).wf(),
        ensures
            final(self).wf(),
            r == old(self)@.contains_key(id@),
            final(self)@ == (if r { old(self)@.insert(id@, clamped(s)) } else { old(self)@ }),
    {
        if self.contains(id) {
            let mut c = s;
            update_joysticks(&mut c);
            self.put(id, c);
            true
        } else {
            false
        }
    }

    /// Clamps every player's joystick into `[-1.0, 1.0]`.
    pub fn clamp_all(&mut self)
        requires
            old(self).wf(),
        ensures
            final(self).wf(),
            final(self)@ == clamp_all_spec(old(self)@),
            forall|k: Seq<char>| #[trigger] final(self)@.contains_key(k) ==> in_range(final(self)@[k]),
    {
        let ghost old_states = self.states@;
        let ghost target = clamp_all_spec(self.model@);
        let mut i: usize = 0;
        while i < self.states.len()
            invariant
                self.ids == old(self).ids,
                self.model == old(self).model,
                old(self).wf(),
                old_states == old(self).states@,
                target == clamp_all_spec(self.model@),
                self.states.len() == old_states.len(),
                i <= self.states.len(),
                forall|j: int| 0 <= j < i ==> self.states[j] == clamped(old_states[j]),
                forall|j: int| i <= j < self.states.len() ==> self.states[j] == old_states[j],
            decreases self.states.len() - i,
        {
            let mut s = self.states[i];
            update_joysticks(&mut s);
            self.states.set(i, s);
            i = i + 1;
        }
        self.model = Ghost(target);
        assert forall|k: Seq<char>| #[trigger] self.model@.contains_key(k) implies in_range(self.model@[k]) by {
            lemma_clamped_in_range(old(self)@[k]);
        }
    }

    /// A copy of every entry, for broadcasting.
    pub fn snapshot(&self) -> (r: Vec<(String, GameState)>)
        requires
            self.wf(),
        ensures
            lists(r@, self@),
    {
        let mut r: Vec<(String, GameState)> = Vec::new();
        let mut i: usize = 0;
        while i < self.ids.len()
            invariant
                self.wf(),
                i <= self.ids.len(),
                r.len() == i,
                forall|j: int| 0 <= j < i ==> #[trigger] r@[j].0@ == self.ids[j]@ && r@[j].1 == self.states[j],
            decreases self.ids.len() - i,
        {
            let ghost prev = r@;
            let id = self.ids[i].clone();
            let s = self.states[i];
            r.push((id, s));
            assert(r@[i as int].0@ == self.ids[i as int]@);
            assert forall|j: int| 0 <= j < i implies r@[j] == prev[j] by {}
            i = i + 1;
        }
        assert forall|k: Seq<char>| #[trigger] self@.contains_key(k) implies exists|j: int|
            0 <= j < r@.len() && r@[j].0@ == k by {
            let j = choose|j: int| 0 <= j < self.ids.len() && self.ids[j]@ == k;
            assert(r@[j].0@ == k);
        }
        assert forall|j: int| 0 <= j < r@.len() implies #[trigger] self@.contains_key(r@[j].0@)
            && self@[r@[j].0@] == r@[j].1 by {
            assert(self@.contains_key(self.ids[j]@));
        }
        assert forall|a: int, b: int| 0 <= a < b < r@.len() implies r@[a].0@ != r@[b].0@ by {
            assert(r@[a].0@ == self.ids[a]@);
            assert(r@[b].0@ == self.ids[b]@);
        }
        r
    }

    /// One tick: clamps every state, then returns the whole registry for
    /// broadcasting. Every listed joystick is in range afterwards, whatever
    /// was stored before.
    pub fn tick(&mut self) -> (r: Vec<(String, GameState)>)
        requires
            old(self).wf(),
        ensures
            final(self).wf(),
            final(self)@ == clamp_all_spec(old(self)@),
            lists(r@, final(self)@),
            forall|i: int| 0 <= i < r.len() ==> in_range(#[trigger] r[i].1),
    {
        self.clamp_all();
        let r = self.snapshot();
        assert forall|i: int| 0 <= i < r.len() implies in_range(#[trigger] r[i].1) by {
            assert(self@.contains_key(r[i].0@));
        }
        r
    }
}

/// Removing an id a second time changes nothing.
pub proof fn lemma_unregister_idempotent(m: Map<Seq<char>, GameState>, id: Seq<char>)
    ensures
        m.remove(id).remove(id) == m.remove(id),
{
    assert(m.remove(id).remove(id) =~= m.remove(id));
}

/// After a player is removed, a snapshot lists no entry for it.
pub proof fn lemma_removed_not_listed(
    m: Map<Seq<char>, GameState>,
    id: Seq<char>,
    entries: Seq<(String, GameState)>,
)
    requires
        lists(entries, m.remove(id)),
    ensures
        forall|i: int| 0 <= i < entries.len() ==> #[trigger] entries[i].0@ != id,
{
    assert forall|i: int| 0 <= i < entries.len() implies #[trigger] entries[i].0@ != id by {
        assert(m.remove(id).contains_key(entries[i].0@));
    }
}

/// Actions of two different players within one tick both survive into the
/// next tick's snapshot: neither update is lost.
pub proof fn lemma_two_actions_kept(
    m: Map<Seq<char>, GameState>,
    p1: Seq<char>,
    s1: GameState,
    p2: Seq<char>,
    s2: GameState,
)
    requires
        p1 != p2,
        m.contains_key(p1),
        m.contains_key(p2),
    ensures
        clamp_all_spec(m.insert(p1, clamped(s1)).insert(p2, clamped(s2)))[p1] == clamped(s1),
        clamp_all_spec(m.insert(p1, clamped(s1)).insert(p2, clamped(s2)))[p2] == clamped(s2),
{
    lemma_clamped_in_range(s1);
    lemma_clamped_in_range(s2);
    lemma_clamped_in_range(clamped(s1));
    lemma_clamped_in_range(clamped(s2));
}

} // verus!
