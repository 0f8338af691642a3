//! Model of the admin table: an ordered list of (identity, display name)
//! rows. Insertion is unconditional, so duplicate rows are possible; removal
//! is keyed by display name and deletes every row carrying that name.

use vstd::prelude::*;

use crate::authstore::pair_views;
use crate::strseq::lemma_filter_push;
use crate::strseq::views_of;

verus! {

/// True iff some row carries the given identity.
pub open spec fn holds_identity(rows: Seq<(Seq<char>, Seq<char>)>, id: Seq<char>) -> bool {
    exists|j: int| 0 <= j < rows.len() && rows[j].0 == id
}

/// True iff some row carries the given display name.
pub open spec fn holds_name(rows: Seq<(Seq<char>, Seq<char>)>, name: Seq<char>) -> bool {
    exists|j: int| 0 <= j < rows.len() && rows[j].1 == name
}

/// The rows whose display name differs from `name`.
pub open spec fn without_name(
    rows: Seq<(Seq<char>, Seq<char>)>,
    name: Seq<char>,
) -> Seq<(Seq<char>, Seq<char>)> {
    rows.filter(|e: (Seq<char>, Seq<char>)| e.1 != name)
}

/// The admin store: who may run admin commands. Rows are (identity, name).
pub struct AdminStore {
    rows: Vec<(String, String)>,
}

impl View for AdminStore {
    type V = Seq<(Seq<char>, Seq<char>)>;

    closed spec fn view(&self) -> Seq<(Seq<char>, Seq<char>)> {
        pair_views(self.rows@)
    }
}

impl AdminStore {
    /// An empty store: nobody is an admin.
    pub fn new() -> (s: Self)
        ensures
            s@ == Seq::<(Seq<char>, Seq<char>)>::empty(),
    {
        let s = AdminStore { rows: Vec::new() };
        proof {
            assert(s@ =~= Seq::<(Seq<char>, Seq<char>)>::empty());
        }
        s
    }

    /// Unconditionally appends a row; a duplicate identity is not rejected.
    pub fn insert_admin(&mut self, identity: &String, name: &String)
        ensures
            final(self)@ == old(self)@.push((identity@, name@)),
    {
        self.rows.push((identity.clone(), name.clone()));
        proof {
            assert(self@ =~= old(self)@.push((identity@, name@)));
        }
    }

    /// True iff the identity appears in some row.
    #[verifier::loop_isolation(false)]
    pub fn is_admin(&self, identity: &String) -> (r: bool)
        ensures
            r == holds_identity(self@, identity@),
    {
        let mut i: usize = 0;
        while i < self.rows.len()
            invariant
                i <= self.rows@.len(),
                forall|j: int| 0 <= j < i ==> self@[j].0 != identity@,
            decreases self.rows@.len() - i,
        {
            proof {
                assert(self@[i as int] == (self.rows@[i as int].0@, self.rows@[i as int].1@));
            }
            if self.rows[i].0 == *identity {
                return true;
            }
            i += 1;
        }
        false
    }

    /// Removes every row whose display name is `name`. Returns whether any
    /// row matched; a miss is an ordinary outcome, not an error.
    #[verifier::loop_isolation(false)]
    pub fn remove_by_name(&mut self, name: &String) -> (found: bool)
        ensures
            final(self)@ == without_name(old(self)@, name@),
            found == holds_name(old(self)@, name@),
    {
        let ghost rows0 = self@;
        let ghost pred = |e: (Seq<char>, Seq<char>)| e.1 != name@;
        let mut kept: Vec<(String, String)> = Vec::new();
        let mut found = false;
        let mut i: usize = 0;
        while i < self.rows.len()
            invariant
                i <= self.rows@.len(),
                self@ == rows0,
                self.rows@ == old(self).rows@,
                pair_views(kept@) == rows0.subrange(0, i as int).filter(pred),
                found == holds_name(rows0.subrange(0, i as int), name@),
            decreases self.rows@.len() - i,
        {
            let ghost prefix = rows0.subrange(0, i as int);
            let ghost kept0 = pair_views(kept@);
            proof {
                assert(rows0[i as int] == (self.rows@[i as int].0@, self.rows@[i as int].1@));
                assert(rows0.subrange(0, i + 1) =~= prefix.push(rows0[i as int]));
                lemma_filter_push(prefix, rows0[i as int], pred);
            }
            let e = &self.rows[i];
            if e.1 == *name {
                found = true;
                proof {
                    assert(rows0.subrange(0, i + 1)[i as int].1 == name@);
                    assert(pair_views(kept@) =~= rows0.subrange(0, i + 1).filter(pred));
                }
            } else {
                kept.push((e.0.clone(), e.1.clone()));
                proof {
                    assert(pair_views(kept@) =~= kept0.push(rows0[i as int]));
                    assert(pair_views(kept@) =~= rows0.subrange(0, i + 1).filter(pred));
                    assert(!holds_name(rows0.subrange(0, i + 1), name@)
                        == !holds_name(prefix, name@)) by {
                        if holds_name(rows0.subrange(0, i + 1), name@) {
                            let j = choose|j: int|
                                0 <= j < i + 1 && #[trigger] rows0.subrange(0, i + 1)[j].1
                                    == name@;
                            if j < i {
                                assert(prefix[j].1 == name@);
                            }
                        }
                        if holds_name(prefix, name@) {
                            let j = choose|j: int| 0 <= j < i && prefix[j].1 == name@;
                            assert(rows0.subrange(0, i + 1)[j].1 == name@);
                        }
                    }
                }
            }
            i += 1;
        }
        self.rows = kept;
        proof {
            assert(rows0.subrange(0, rows0.len() as int) =~= rows0);
        }
        found
    }

    /// The display names of all rows, in storage order.
    #[verifier::loop_isolation(false)]
    pub fn names(&self) -> (r: Vec<String>)
        ensures
            views_of(r@) == self@.map_values(|e: (Seq<char>, Seq<char>)| e.1),
    {
        let ghost all = self@.map_values(|e: (Seq<char>, Seq<char>)| e.1);
        let mut out: Vec<String> = Vec::new();
        let mut i: usize = 0;
        while i < self.rows.len()
            invariant
                i <= self.rows@.len(),
                views_of(out@) == all.subrange(0, i as int),
            decreases self.rows@.len() - i,
        {
            proof {
                assert(self@[i as int] == (self.rows@[i as int].0@, self.rows@[i as int].1@));
            }
            out.push(self.rows[i].1.clone());
            proof {
                assert(views_of(out@) =~= all.subrange(0, i + 1));
            }
            i += 1;
        }
        proof {
            assert(all.subrange(0, all.len() as int) =~= all);
        }
        out
    }
}

/// Authentication with the configured admin token: on a match the sender is
/// recorded as an admin under the given display name, unconditionally (a
/// duplicate insert is possible, as in the underlying table); on a mismatch
/// nothing changes.
pub fn authenticate(
    store: &mut AdminStore,
    admin_token: &String,
    token: &String,
    identity: &String,
    name: &String,
) -> (accepted: bool)
    ensures
        accepted == (token@ == admin_token@),
        accepted ==> final(store)@ == old(store)@.push((identity@, name@)),
        !accepted ==> final(store)@ == old(store)@,
{
    if *token == *admin_token {
        store.insert_admin(identity, name);
        true
    } else {
        false
    }
}

} // verus!
