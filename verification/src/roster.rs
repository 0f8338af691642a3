//! Model of the committee roster: an ordered list of (name, quiz count)
//! rows. Members are added unconditionally and removed by name; a member's
//! count goes up by one each time a quiz names that member as the answer.

use vstd::prelude::*;

use crate::strseq::lemma_filter_push;
use crate::strseq::views_of;

verus! {

/// The rows of a roster, as (name view, count) pairs.
pub open spec fn member_views(s: Seq<(String, u64)>) -> Seq<(Seq<char>, u64)> {
    s.map_values(|m: (String, u64)| (m.0@, m.1))
}

/// The names of the rows, in order.
pub open spec fn names_of(rows: Seq<(Seq<char>, u64)>) -> Seq<Seq<char>> {
    rows.map_values(|m: (Seq<char>, u64)| m.0)
}

/// True iff some row carries the given name.
pub open spec fn roster_has_name(rows: Seq<(Seq<char>, u64)>, name: Seq<char>) -> bool {
    exists|j: int| 0 <= j < rows.len() && rows[j].0 == name
}

/// The rows after one completed quiz with `name` as the answer: every row
/// with that name counts one more, every other row is unchanged.
pub open spec fn bumped(rows: Seq<(Seq<char>, u64)>, name: Seq<char>) -> Seq<(Seq<char>, u64)> {
    rows.map_values(
        |m: (Seq<char>, u64)|
            if m.0 == name {
                (m.0, (m.1 + 1) as u64)
            } else {
                m
            },
    )
}

/// The committee roster.
pub struct RosterStore {
    members: Vec<(String, u64)>,
}

impl View for RosterStore {
    type V = Seq<(Seq<char>, u64)>;

    closed spec fn view(&self) -> Seq<(Seq<char>, u64)> {
        member_views(self.members@)
    }
}

impl RosterStore {
    /// An empty roster.
    pub fn new() -> (s: Self)
        ensures
            s@ == Seq::<(Seq<char>, u64)>::empty(),
    {
        let s = RosterStore { members: Vec::new() };
        proof {
            assert(s@ =~= Seq::<(Seq<char>, u64)>::empty());
        }
        s
    }

    /// Appends every given name with a count of zero, in order, without any
    /// existence check (the whole batch goes through, as one transaction).
    #[verifier::loop_isolation(false)]
    pub fn add_members(&mut self, names: &Vec<String>)
        ensures
            final(self)@ == old(self)@ + views_of(names@).map_values(
                |n: Seq<char>| (n, 0u64),
            ),
    {
        let ghost added = views_of(names@).map_values(|n: Seq<char>| (n, 0u64));
        let mut i: usize = 0;
        while i < names.len()
            invariant
                i <= names@.len(),
                self@ == old(self)@ + added.subrange(0, i as int),
            decreases names@.len() - i,
        {
            let ghost before = self@;
            self.members.push((names[i].clone(), 0));
            proof {
                assert(self@ =~= before.push((names@[i as int]@, 0u64)));
                assert(added[i as int] == (names@[i as int]@, 0u64));
                assert(self@ =~= old(self)@ + added.subrange(0, i + 1));
            }
            i += 1;
        }
        proof {
            assert(added.subrange(0, added.len() as int) =~= added);
            assert(old(self)@ + added.subrange(0, 0) =~= old(self)@);
        }
    }

    /// Appends one member with an already known count, as read back from
    /// the underlying table.
    pub fn add_member_with_count(&mut self, name: &String, count: u64)
        ensures
            final(self)@ == old(self)@.push((name@, count)),
    {
        self.members.push((name.clone(), count));
        proof {
            assert(self@ =~= old(self)@.push((name@, count)));
        }
    }

    /// Removes every row whose name appears in the batch.
    #[verifier::loop_isolation(false)]
    pub fn remove_members(&mut self, names: &Vec<String>)
        ensures
            final(self)@ == old(self)@.filter(
                |m: (Seq<char>, u64)| !views_of(names@).contains(m.0),
            ),
    {
        let ghost rows0 = self@;
        let ghost pred = |m: (Seq<char>, u64)| !views_of(names@).contains(m.0);
        let mut kept: Vec<(String, u64)> = Vec::new();
        let mut i: usize = 0;
        while i < self.members.len()
            invariant
                i <= self.members@.len(),
                self@ == rows0,
                self.members@ == old(self).members@,
                member_views(kept@) == rows0.subrange(0, i as int).filter(pred),
            decreases self.members@.len() - i,
        {
            let ghost prefix = rows0.subrange(0, i as int);
            let ghost kept0 = member_views(kept@);
            proof {
                assert(rows0[i as int] == (self.members@[i as int].0@, self.members@[
                    i as int].1));
                assert(rows0.subrange(0, i + 1) =~= prefix.push(rows0[i as int]));
                lemma_filter_push(prefix, rows0[i as int], pred);
            }
            let e = &self.members[i];
            if !contains_name(names, &e.0) {
                kept.push((e.0.clone(), e.1));
                proof {
                    assert(member_views(kept@) =~= kept0.push(rows0[i as int]));
                }
            }
            i += 1;
        }
        self.members = kept;
        proof {
            assert(rows0.subrange(0, rows0.len() as int) =~= rows0);
        }
    }

    /// Adds one to the count of every row named `name`; other rows are left
    /// as they are. Returns whether any row matched.
    #[verifier::loop_isolation(false)]
    pub fn increment_quiz_count(&mut self, name: &String) -> (found: bool)
        requires
            forall|j: int|
                0 <= j < old(self)@.len() && old(self)@[j].0 == name@ ==> old(self)@[j].1
                    < u64::MAX,
        ensures
            final(self)@ == bumped(old(self)@, name@),
            found == roster_has_name(old(self)@, name@),
    {
        let ghost rows0 = self@;
        let ghost target = bumped(rows0, name@);
        let mut out: Vec<(String, u64)> = Vec::new();
        let mut found = false;
        let mut i: usize = 0;
        while i < self.members.len()
            invariant
                i <= self.members@.len(),
                self@ == rows0,
                self.members@ == old(self).members@,
                member_views(out@) == target.subrange(0, i as int),
                found == roster_has_name(rows0.subrange(0, i as int), name@),
            decreases self.members@.len() - i,
        {
            let ghost prefix = rows0.subrange(0, i as int);
            let ghost out0 = member_views(out@);
            proof {
                assert(rows0[i as int] == (self.members@[i as int].0@, self.members@[
                    i as int].1));
            }
            let e = &self.members[i];
            if e.0 == *name {
                out.push((e.0.clone(), e.1 + 1));
                found = true;
                proof {
                    assert(member_views(out@) =~= out0.push(target[i as int]));
                    assert(member_views(out@) =~= target.subrange(0, i + 1));
                    assert(rows0.subrange(0, i + 1)[i as int].0 == name@);
                }
            } else {
                out.push((e.0.clone(), e.1));
                proof {
                    assert(member_views(out@) =~= out0.push(target[i as int]));
                    assert(member_views(out@) =~= target.subrange(0, i + 1));
                    assert(roster_has_name(rows0.subrange(0, i + 1), name@) == roster_has_name(
                        prefix,
                        name@,
                    )) by {
                        if roster_has_name(rows0.subrange(0, i + 1), name@) {
                            let j = choose|j: int|
                                0 <= j < i + 1 && #[trigger] rows0.subrange(0, i + 1)[j].0
                                    == name@;
                            if j < i {
                                assert(prefix[j].0 == name@);
                            }
                        }
                        if roster_has_name(prefix, name@) {
                            let j = choose|j: int| 0 <= j < i && prefix[j].0 == name@;
                            assert(rows0.subrange(0, i + 1)[j].0 == name@);
                        }
                    }
                }
            }
            i += 1;
        }
        self.members = out;
        proof {
            assert(target.subrange(0, target.len() as int) =~= target);
            assert(rows0.subrange(0, rows0.len() as int) =~= rows0);
        }
        found
    }

    /// The member names, in storage order: the chooser keyboard is built
    /// from these.
    #[verifier::loop_isolation(false)]
    pub fn names(&self) -> (r: Vec<String>)
        ensures
            views_of(r@) == names_of(self@),
    {
        let ghost all = names_of(self@);
        let mut out: Vec<String> = Vec::new();
        let mut i: usize = 0;
        while i < self.members.len()
            invariant
                i <= self.members@.len(),
                views_of(out@) == all.subrange(0, i as int),
            decreases self.members@.len() - i,
        {
            proof {
                assert(self@[i as int] == (self.members@[i as int].0@, self.members@[
                    i as int].1));
            }
            out.push(self.members[i].0.clone());
            proof {
                assert(views_of(out@) =~= all.subrange(0, i + 1));
            }
            i += 1;
        }
        proof {
            assert(all.subrange(0, all.len() as int) =~= all);
        }
        out
    }

    /// The (name, count) rows, for the stats listing.
    pub fn stats(&self) -> (r: &Vec<(String, u64)>)
        ensures
            member_views(r@) == self@,
    {
        &self.members
    }
}

/// True iff `name` occurs in the batch of names.
#[verifier::loop_isolation(false)]
pub fn contains_name(names: &Vec<String>, name: &String) -> (r: bool)
    ensures
        r == views_of(names@).contains(name@),
{
    let mut i: usize = 0;
    while i < names.len()
        invariant
            i <= names@.len(),
            forall|j: int| 0 <= j < i ==> views_of(names@)[j] != name@,
        decreases names@.len() - i,
    {
        if names[i] == *name {
            proof {
                assert(views_of(names@)[i as int] == name@);
            }
            return true;
        }
        i += 1;
    }
    false
}

} // verus!
