//! Which tasks have yet to reach a terminal status.

use vstd::hash_set::StringHashSet;
use vstd::prelude::*;
use vstd::string::*;

use crate::text::views;

verus! {

/// The position of the first `name`, or the number of names.
pub open spec fn name_position(names: Seq<Seq<char>>, name: Seq<char>) -> int
    decreases names.len(),
{
    if names.len() == 0 {
        0
    } else if names[0] == name {
        0
    } else {
        1 + name_position(names.drop_first(), name)
    }
}

/// The names and `name`.
pub open spec fn with_name(names: Seq<Seq<char>>, name: Seq<char>) -> Seq<Seq<char>> {
    if name_position(names, name) < names.len() {
        names
    } else {
        names.push(name)
    }
}

/// The names except for `name`.
pub open spec fn without_name(names: Seq<Seq<char>>, name: Seq<char>) -> Seq<Seq<char>> {
    if name_position(names, name) < names.len() {
        names.remove(name_position(names, name))
    } else {
        names
    }
}

/// Whether no task is watched twice, and none that has finished is watched.
pub open spec fn is_consistent(unfinished: Seq<Seq<char>>, finished: Set<Seq<char>>) -> bool {
    &&& unfinished.no_duplicates()
    &&& forall|i: int| 0 <= i < unfinished.len() ==> !finished.contains(#[trigger] unfinished[i])
}

/// A position found by name holds the name, and no earlier one does.
pub proof fn lemma_name_position(names: Seq<Seq<char>>, name: Seq<char>)
    ensures
        0 <= name_position(names, name) <= names.len(),
        name_position(names, name) < names.len() ==> names[name_position(names, name)] == name,
        forall|i: int| 0 <= i < name_position(names, name) ==> #[trigger] names[i] != name,
    decreases names.len(),
{
    if names.len() > 0 && names[0] != name {
        let rest = names.drop_first();
        lemma_name_position(rest, name);
        assert forall|i: int| 0 <= i < name_position(names, name) implies #[trigger] names[i]
            != name by {
            if i > 0 {
                assert(names[i] == rest[i - 1]);
            }
        }
    }
}

/// A task that has not finished may be watched.
pub proof fn lemma_watching_is_consistent(
    unfinished: Seq<Seq<char>>,
    finished: Set<Seq<char>>,
    name: Seq<char>,
)
    requires
        is_consistent(unfinished, finished),
        !finished.contains(name),
    ensures
        is_consistent(with_name(unfinished, name), finished),
{
    lemma_name_position(unfinished, name);
}

/// A task that is no longer watched may have finished.
pub proof fn lemma_finishing_is_consistent(
    unfinished: Seq<Seq<char>>,
    finished: Set<Seq<char>>,
    name: Seq<char>,
)
    requires
        is_consistent(unfinished, finished),
    ensures
        is_consistent(without_name(unfinished, name), finished),
        is_consistent(without_name(unfinished, name), finished.insert(name)),
{
    lemma_name_position(unfinished, name);
    let at = name_position(unfinished, name);
    let after = without_name(unfinished, name);
    assert forall|i: int| 0 <= i < after.len() implies !finished.insert(name).contains(
        #[trigger] after[i],
    ) && !finished.contains(after[i]) by {
        let k = if at < unfinished.len() && i >= at { i + 1 } else { i };
        assert(after[i] == unfinished[k]);
        if at < unfinished.len() {
            assert(unfinished[at] == name);
        }
    }
}

/// The tasks that have been observed reaching a terminal status, and those that
/// have a row but have not.
pub struct Watchlist {
    unfinished: Vec<String>,
    finished: StringHashSet,
}

impl Watchlist {
    /// The tasks that have not been observed reaching a terminal status, in the
    /// order in which they were first seen.
    pub closed spec fn unfinished(self) -> Seq<Seq<char>> {
        views(self.unfinished@)
    }

    /// The tasks that have been observed reaching a terminal status.
    pub closed spec fn finished(self) -> Set<Seq<char>> {
        self.finished@
    }

    #[verifier::type_invariant]
    spec fn valid(self) -> bool {
        is_consistent(views(self.unfinished@), self.finished@)
    }

    /// No task has been observed.
    pub fn new() -> (r: Self)
        ensures
            r.unfinished() == Seq::<Seq<char>>::empty(),
            r.finished() == Set::<Seq<char>>::empty(),
    {
        let unfinished: Vec<String> = Vec::new();
        let finished = StringHashSet::new();
        proof {
            assert(views(unfinished@) =~= Seq::<Seq<char>>::empty());
        }
        Watchlist { unfinished, finished }
    }

    /// Finds the first position of an unfinished task; their number if there is
    /// none.
    fn find(&self, name: &String) -> (r: usize)
        ensures
            r == name_position(self.unfinished(), name@),
            r <= self.unfinished().len(),
    {
        let ghost names = self.unfinished();
        let mut i: usize = 0;
        proof {
            assert(names.skip(0) =~= names);
        }
        while i < self.unfinished.len()
            invariant
                names == views(self.unfinished@),
                i <= names.len(),
                name_position(names, name@) == i + name_position(names.skip(i as int), name@),
            decreases self.unfinished.len() - i,
        {
            proof {
                assert(names.skip(i as int)[0] == self.unfinished@[i as int]@);
                assert(names.skip(i as int).drop_first() =~= names.skip(i + 1));
            }
            if self.unfinished[i] == *name {
                return i;
            }
            i = i + 1;
        }
        i
    }

    /// Notes a task that has a row, unless it has finished.
    pub fn watch(&mut self, name: String)
        ensures
            final(self).finished() == old(self).finished(),
            final(self).unfinished() == if old(self).finished().contains(name@) {
                old(self).unfinished()
            } else {
                with_name(old(self).unfinished(), name@)
            },
    {
        proof {
            use_type_invariant(&*self);
        }
        if self.finished.contains(name.as_str()) {
            return ;
        }
        let at: usize = self.find(&name);
        if at == self.unfinished.len() {
            let ghost before = self.unfinished@;
            let mut names: Vec<String> = Vec::new();
            proof {
                assert(views(names@) =~= Seq::<Seq<char>>::empty());
                lemma_watching_is_consistent(views(before), self.finished@, name@);
            }
            std::mem::swap(&mut names, &mut self.unfinished);
            names.push(name);
            proof {
                assert(views(names@) =~= views(before).push(name@));
            }
            self.unfinished = names;
        }
    }

    /// Notes that a task has reached a terminal status.
    pub fn finish(&mut self, name: String)
        ensures
            final(self).finished() == old(self).finished().insert(name@),
            final(self).unfinished() == without_name(old(self).unfinished(), name@),
    {
        proof {
            use_type_invariant(&*self);
        }
        let ghost before = self.unfinished@;
        let ghost ended = self.finished@;
        let at: usize = self.find(&name);
        proof {
            lemma_finishing_is_consistent(views(before), ended, name@);
        }
        let mut names: Vec<String> = Vec::new();
        proof {
            assert(views(names@) =~= Seq::<Seq<char>>::empty());
        }
        std::mem::swap(&mut names, &mut self.unfinished);
        if at < names.len() {
            names.remove(at);
            proof {
                assert(views(names@) =~= views(before).remove(at as int));
            }
        }
        let mut finished = StringHashSet::new();
        std::mem::swap(&mut finished, &mut self.finished);
        finished.insert(name);
        self.finished = finished;
        self.unfinished = names;
    }

    /// Hands out the unfinished tasks: each once, and none that has finished.
    pub fn take_unfinished(&mut self) -> (r: Vec<String>)
        ensures
            views(r@) == old(self).unfinished(),
            is_consistent(views(r@), old(self).finished()),
            final(self).unfinished() == Seq::<Seq<char>>::empty(),
            final(self).finished() == old(self).finished(),
    {
        let mut names: Vec<String> = Vec::new();
        proof {
            use_type_invariant(&*self);
            assert(views(names@) =~= Seq::<Seq<char>>::empty());
        }
        std::mem::swap(&mut names, &mut self.unfinished);
        names
    }
}

} // verus!
