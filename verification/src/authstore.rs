//! Model of the authorization table: the set of (chat identifier, command
//! key) pairs a chat is allowed to invoke. At most one row exists per pair;
//! granting twice or revoking twice is the same as doing it once.

use vstd::prelude::*;

use crate::strseq::lemma_push_keeps_no_duplicates;
use crate::strseq::lemma_push_membership;
use crate::strseq::lemma_remove_keeps_no_duplicates;
use crate::strseq::lemma_remove_membership;
use crate::strseq::views_of;

verus! {

/// The rows of an authorization table, as pairs of character sequences.
pub open spec fn pair_views(s: Seq<(String, String)>) -> Seq<(Seq<char>, Seq<char>)> {
    s.map_values(|e: (String, String)| (e.0@, e.1@))
}

/// The authorization store: which (chat, command) pairs are allowed.
pub struct AuthStore {
    entries: Vec<(String, String)>,
}

impl View for AuthStore {
    type V = Set<(Seq<char>, Seq<char>)>;

    closed spec fn view(&self) -> Set<(Seq<char>, Seq<char>)> {
        pair_views(self.entries@).to_set()
    }
}

impl AuthStore {
    /// The underlying rows, in storage order.
    pub closed spec fn rows(&self) -> Seq<(Seq<char>, Seq<char>)> {
        pair_views(self.entries@)
    }

    /// Well-formed: at most one row per (chat, command) pair.
    pub closed spec fn wf(&self) -> bool {
        self.rows().no_duplicates()
    }

    /// An empty store: nothing is authorized.
    pub fn new() -> (s: Self)
        ensures
            s@ == Set::<(Seq<char>, Seq<char>)>::empty(),
            s.wf(),
    {
        let s = AuthStore { entries: Vec::new() };
        proof {
            assert(s@ =~= Set::<(Seq<char>, Seq<char>)>::empty());
        }
        s
    }

    /// True iff a row for (chat, command) exists.
    #[verifier::loop_isolation(false)]
    pub fn is_authorized(&self, chat_id: &String, command_key: &String) -> (r: bool)
        ensures
            r == self@.contains((chat_id@, command_key@)),
    {
        let ghost p = (chat_id@, command_key@);
        let mut i: usize = 0;
        while i < self.entries.len()
            invariant
                i <= self.entries@.len(),
                forall|j: int| 0 <= j < i ==> self.rows()[j] != p,
            decreases self.entries@.len() - i,
        {
            let e = &self.entries[i];
            proof {
                assert(self.rows()[i as int] == (self.entries@[i as int].0@, self.entries@[
                    i as int].1@));
            }
            if e.0 == *chat_id && e.1 == *command_key {
                proof {
                    assert(self.rows()[i as int] == p);
                    assert(self.rows().contains(p));
                }
                return true;
            }
            i += 1;
        }
        proof {
            assert(!self.rows().contains(p));
        }
        false
    }

    /// Grant (chat, command): insert the row only if it is not already
    /// present. Idempotent.
    pub fn grant(&mut self, chat_id: &String, command_key: &String)
        requires
            old(self).wf(),
        ensures
            final(self).wf(),
            final(self)@ == old(self)@.insert((chat_id@, command_key@)),
    {
        let ghost p = (chat_id@, command_key@);
        if !self.is_authorized(chat_id, command_key) {
            let ghost rows0 = self.rows();
            self.entries.push((chat_id.clone(), command_key.clone()));
            proof {
                assert(self.rows() =~= rows0.push(p));
                assert forall|q: (Seq<char>, Seq<char>)| self.rows().contains(q)
                    <==> (rows0.contains(q) || q == p) by {
                    if rows0.contains(q) {
                        let j = choose|j: int| 0 <= j < rows0.len() && rows0[j] == q;
                        assert(self.rows()[j] == q);
                    }
                    if q == p {
                        assert(self.rows()[rows0.len() as int] == q);
                    }
                    if self.rows().contains(q) {
                        let j = choose|j: int|
                            0 <= j < self.rows().len() && self.rows()[j] == q;
                        if j < rows0.len() {
                            assert(rows0[j] == q);
                        }
                    }
                }
                assert(self@ =~= old(self)@.insert(p));
            }
        } else {
            proof {
                assert(self@ =~= old(self)@.insert(p));
            }
        }
    }

    /// Revoke (chat, command): delete the row only if it is present.
    /// Idempotent.
    #[verifier::loop_isolation(false)]
    pub fn revoke(&mut self, chat_id: &String, command_key: &String)
        requires
            old(self).wf(),
        ensures
            final(self).wf(),
            final(self)@ == old(self)@.remove((chat_id@, command_key@)),
    {
        let ghost p = (chat_id@, command_key@);
        let ghost rows0 = self.rows();
        let mut i: usize = 0;
        while i < self.entries.len()
            invariant
                i <= self.entries@.len(),
                self.rows() == rows0,
                old(self).wf(),
                self.entries@ == old(self).entries@,
                forall|j: int| 0 <= j < i ==> self.rows()[j] != p,
            decreases self.entries@.len() - i,
        {
            let e = &self.entries[i];
            proof {
                assert(rows0[i as int] == (self.entries@[i as int].0@, self.entries@[
                    i as int].1@));
            }
            if e.0 == *chat_id && e.1 == *command_key {
                self.entries.remove(i);
                proof {
                    assert(self.rows() =~= rows0.remove(i as int));
                    assert forall|q: (Seq<char>, Seq<char>)| self.rows().contains(q)
                        <==> (rows0.contains(q) && q != p) by {
                        lemma_remove_membership(rows0, i as int, q);
                        assert(rows0[i as int] == p);
                    }
                    assert(self@ =~= old(self)@.remove(p));
                    lemma_remove_keeps_no_duplicates(rows0, i as int);
                }
                return;
            }
            i += 1;
        }
        proof {
            assert(!rows0.contains(p));
            assert(self@ =~= old(self)@.remove(p));
        }
    }

    /// The command keys authorized for one chat, without duplicates.
    #[verifier::loop_isolation(false)]
    pub fn commands_for_chat(&self, chat_id: &String) -> (r: Vec<String>)
        requires
            self.wf(),
        ensures
            forall|k: Seq<char>|
                #![trigger views_of(r@).contains(k)]
                views_of(r@).contains(k) <==> self@.contains((chat_id@, k)),
            views_of(r@).no_duplicates(),
    {
        let mut out: Vec<String> = Vec::new();
        let mut i: usize = 0;
        while i < self.entries.len()
            invariant
                i <= self.entries@.len(),
                self.wf(),
                forall|k: Seq<char>|
                    #![trigger views_of(out@).contains(k)]
                    views_of(out@).contains(k)
                        <==> exists|j: int|
                            0 <= j < i && self.rows()[j] == (chat_id@, k),
                views_of(out@).no_duplicates(),
            decreases self.entries@.len() - i,
        {
            let ghost keys0 = views_of(out@);
            let e = &self.entries[i];
            proof {
                assert(self.rows()[i as int] == (self.entries@[i as int].0@, self.entries@[
                    i as int].1@));
            }
            if e.0 == *chat_id {
                out.push(e.1.clone());
                proof {
                    let keys1 = views_of(out@);
                    assert(keys1 =~= keys0.push(e.1@));
                    assert(self.rows()[i as int] == (chat_id@, e.1@));
                    assert forall|k: Seq<char>| #[trigger] keys1.contains(k)
                        <==> (keys0.contains(k) || k == e.1@) by {
                        lemma_push_membership(keys0, e.1@, k);
                    }
                    assert(!keys0.contains(e.1@)) by {
                        if keys0.contains(e.1@) {
                            let j = choose|j: int|
                                0 <= j < i && self.rows()[j] == (chat_id@, e.1@);
                            assert(self.rows()[j] == self.rows()[i as int]);
                            assert(false);
                        }
                    }
                    lemma_push_keeps_no_duplicates(keys0, e.1@);
                }
            }
            i += 1;
        }
        proof {
            assert forall|k: Seq<char>|
                #[trigger] views_of(out@).contains(k)
                    <==> self@.contains((chat_id@, k)) by {
                if self@.contains((chat_id@, k)) {
                    assert(self.rows().contains((chat_id@, k)));
                }
            }
        }
        out
    }
}

/// Law: a grant makes the pair authorized and a revoke makes it
/// unauthorized, immediately; both operations are idempotent, so applying
/// either twice leaves the store exactly as applying it once.
pub proof fn lemma_grant_revoke(
    authorized: Set<(Seq<char>, Seq<char>)>,
    chat: Seq<char>,
    key: Seq<char>,
)
    ensures
        authorized.insert((chat, key)).contains((chat, key)),
        !authorized.remove((chat, key)).contains((chat, key)),
        authorized.insert((chat, key)).insert((chat, key)) == authorized.insert((chat, key)),
        authorized.remove((chat, key)).remove((chat, key)) == authorized.remove((chat, key)),
{
    assert(authorized.insert((chat, key)).insert((chat, key)) =~= authorized.insert(
        (chat, key),
    ));
    assert(authorized.remove((chat, key)).remove((chat, key)) =~= authorized.remove(
        (chat, key),
    ));
}

} // verus!
