use vstd::prelude::*;

use crate::post::Timestamp;

verus! {

/// What the reader remembers between runs: the identities of the posts already shown
/// and when the reader was last opened.
pub struct State {
    /// The identities seen so far, each held once.
    pub seen: Vec<String>,
    pub last_opened: Option<Timestamp>,
}

impl View for State {
    type V = Set<Seq<char>>;

    /// The set of identities seen so far.
    open spec fn view(&self) -> Set<Seq<char>> {
        Set::new(|id: Seq<char>| exists|i: int| 0 <= i < self.seen@.len() && #[trigger] self.seen@[i]@ == id)
    }
}

impl Default for State {
    /// A state that has seen nothing and was never opened.
    fn default() -> (s: State)
        ensures
            s@ == Set::<Seq<char>>::empty(),
            s.last_opened is None,
            s.wf(),
    {
        let s = State { seen: Vec::new(), last_opened: None };
        assert(s@ =~= Set::<Seq<char>>::empty());
        s
    }
}

impl State {
    /// No identity is held twice.
    pub open spec fn wf(&self) -> bool {
        forall|i: int, j: int|
            0 <= i < j < self.seen@.len() ==> #[trigger] self.seen@[i]@ != #[trigger] self.seen@[j]@
    }

    /// Whether the post with identity `id` was already seen.
    pub fn is_seen(&self, id: &str) -> (r: bool)
        ensures
            r == self@.contains(id@),
    {
        let key = id.to_owned();
        let mut i: usize = 0;
        while i < self.seen.len()
            invariant
                i <= self.seen@.len(),
                key@ == id@,
                forall|j: int| 0 <= j < i ==> #[trigger] self.seen@[j]@ != id@,
            decreases self.seen.len() - i,
        {
            if self.seen[i] == key {
                assert(self.seen@[i as int]@ == id@);
                return true;
            }
            i = i + 1;
        }
        proof {
            if self@.contains(id@) {
                let j = choose|j: int| 0 <= j < self.seen@.len() && #[trigger] self.seen@[j]@ == id@;
                assert(self.seen@[j]@ == id@);
            }
        }
        false
    }

    /// Remembers that the post with identity `id` was seen.
    pub fn mark_seen(&mut self, id: String)
        ensures
            final(self)@ == old(self)@.insert(id@),
            final(self).last_opened == old(self).last_opened,
            old(self).wf() ==> final(self).wf(),
    {
        if !self.is_seen(id.as_str()) {
            let ghost before = self.seen@;
            let ghost idv = id@;
            self.seen.push(id);
            proof {
                assert forall|x: Seq<char>| #[trigger] self@.contains(x) == old(self)@.insert(idv).contains(x) by {
                    if x == idv {
                        assert(self.seen@[before.len() as int]@ == x);
                    }
                    if self@.contains(x) && x != idv {
                        let j = choose|j: int| 0 <= j < self.seen@.len() && #[trigger] self.seen@[j]@ == x;
                        assert(before[j]@ == x);
                    }
                    if old(self)@.contains(x) {
                        let j = choose|j: int| 0 <= j < before.len() && #[trigger] before[j]@ == x;
                        assert(self.seen@[j]@ == x);
                    }
                }
                assert(self@ =~= old(self)@.insert(idv));
            }
        } else {
            proof {
                assert(old(self)@.insert(id@) =~= old(self)@);
            }
        }
    }
}

/// Marking an identity as seen makes it seen, and leaves every other identity as it was.
pub proof fn law_mark_then_seen(before: Set<Seq<char>>, after: Set<Seq<char>>, id: Seq<char>, other: Seq<char>)
    requires
        after == before.insert(id),
    ensures
        after.contains(id),
        other != id ==> (after.contains(other) == before.contains(other)),
{
}

/// Any number of marks, one after another: the seen set at the end holds exactly what it
/// held at the start and the identities marked; nothing is ever removed.
pub proof fn law_marks_accumulate(states: Seq<Set<Seq<char>>>, ids: Seq<Seq<char>>, y: Seq<char>)
    requires
        states.len() == ids.len() + 1,
        forall|i: int| 0 <= i < ids.len() ==> #[trigger] states[i + 1] == states[i].insert(ids[i]),
    ensures
        states.last().contains(y) == (states[0].contains(y) || ids.contains(y)),
    decreases ids.len(),
{
    if ids.len() > 0 {
        let n = ids.len() - 1;
        law_marks_accumulate(states.drop_last(), ids.drop_last(), y);
        assert(states[n + 1] == states[n].insert(ids[n]));
        assert(ids.drop_last().contains(y) ==> ids.contains(y));
        if ids.contains(y) && !ids.drop_last().contains(y) {
            let j = choose|j: int| 0 <= j < ids.len() && ids[j] == y;
            if j < n {
                assert(ids.drop_last()[j] == y);
            }
        }
    }
}

/// Marking the same identity once or many times adds exactly that identity: repeating
/// a mark changes nothing.
pub proof fn law_repeated_mark(states: Seq<Set<Seq<char>>>, x: Seq<char>, y: Seq<char>)
    requires
        states.len() >= 2,
        forall|i: int| 0 <= i < states.len() - 1 ==> #[trigger] states[i + 1] == states[i].insert(x),
    ensures
        states.last().contains(y) == (y == x || states[0].contains(y)),
{
    let ids = Seq::new((states.len() - 1) as nat, |i: int| x);
    assert forall|i: int| 0 <= i < ids.len() implies #[trigger] states[i + 1] == states[i].insert(ids[i]) by {
        assert(states[i + 1] == states[i].insert(x));
    }
    law_marks_accumulate(states, ids, y);
    assert(ids[0] == x);
}

} // verus!
