//! The quiz composer: given the roster and a chosen target, it removes the
//! target from the option pool, shuffles the decoys uniformly, puts the
//! target back at a random position drawn from the first `M - 1` slots, and
//! truncates the list to at most `M` options. Because the drawn position is
//! always below `M - 1`, the target survives the truncation.

use vstd::prelude::*;

use rand::Rng;
use rand::seq::SliceRandom;

use crate::POLL_MAX_OPTIONS_COUNT;
use crate::strseq::lemma_insert_keeps_no_duplicates;
use crate::strseq::lemma_insert_membership;
use crate::strseq::lemma_push_keeps_no_duplicates;
use crate::strseq::lemma_push_membership;
use crate::strseq::lemma_same_membership_multiset;
use crate::strseq::lemma_views_of_insert;
use crate::strseq::lemma_views_of_subrange;
use crate::strseq::views_of;

verus! {

/// A composed quiz: the option list and the position of the right answer.
#[derive(Debug)]
pub struct Quiz {
    pub options: Vec<String>,
    pub correct_index: usize,
}

/// Why a quiz could not be composed.
#[derive(Clone, Copy, PartialEq, Eq, Structural, Debug)]
pub enum ComposeError {
    /// The chosen target does not appear in the roster: an internal
    /// consistency fault, since targets are picked from the roster.
    TargetMissing,
    /// The drawn slot lies past the end of the decoy pool, which can only
    /// happen when the roster is smaller than the draw range.
    RosterTooSmall,
}

/// Relies on rand::Rng::gen_range over `0..bound`: it panics only on an
/// empty range and returns a uniformly drawn value of the range.
#[verifier::external_body]
fn rand_below(bound: usize) -> (r: usize)
    requires
        1 <= bound,
    ensures
        r < bound,
{
    rand::thread_rng().gen_range(0..bound)
}

/// Relies on rand::seq::SliceRandom::shuffle: an in-place Fisher-Yates
/// pass that only swaps elements, so the slice afterwards holds exactly
/// the entries it held before, rearranged.
#[verifier::external_body]
fn shuffle_strings(v: &mut Vec<String>)
    ensures
        views_of(final(v)@).to_multiset() == views_of(old(v)@).to_multiset(),
{
    v.shuffle(&mut rand::thread_rng());
}

/// The deterministic rest of the composer, once the slot for the correct
/// answer has been drawn: filter the target out, shuffle the decoys, insert
/// the target at `index`, truncate to the option limit.
#[verifier::loop_isolation(false)]
pub fn compose_quiz(roster: &Vec<String>, target: &String, index: usize) -> (r: Result<
    Quiz,
    ComposeError,
>)
    requires
        views_of(roster@).no_duplicates(),
        index + 1 < POLL_MAX_OPTIONS_COUNT,
    ensures
        match r {
            Ok(q) => {
                &&& views_of(roster@).contains(target@)
                &&& index < roster@.len()
                &&& q.correct_index == index
                &&& q.options@.len() == if roster@.len() < POLL_MAX_OPTIONS_COUNT {
                    roster@.len() as int
                } else {
                    POLL_MAX_OPTIONS_COUNT as int
                }
                &&& views_of(q.options@)[index as int] == target@
                &&& views_of(q.options@).no_duplicates()
                &&& forall|n: Seq<char>|
                    views_of(q.options@).contains(n) ==> views_of(roster@).contains(n)
                &&& roster@.len() <= POLL_MAX_OPTIONS_COUNT ==> views_of(
                    q.options@,
                ).to_multiset() == views_of(roster@).to_multiset()
            },
            Err(ComposeError::TargetMissing) => !views_of(roster@).contains(target@),
            Err(ComposeError::RosterTooSmall) => views_of(roster@).contains(target@)
                && roster@.len() <= index,
        },
{
    let ghost all = views_of(roster@);
    let mut pool: Vec<String> = Vec::new();
    let mut found = false;
    let mut i: usize = 0;
    while i < roster.len()
        invariant
            i <= roster@.len(),
            views_of(pool@).no_duplicates(),
            forall|n: Seq<char>|
                #![trigger views_of(pool@).contains(n)]
                views_of(pool@).contains(n) <==> (all.subrange(0, i as int).contains(n) && n
                    != target@),
            found <==> all.subrange(0, i as int).contains(target@),
            views_of(pool@).len() == if found {
                i - 1
            } else {
                i as int
            },
        decreases roster@.len() - i,
    {
        let ghost prefix = all.subrange(0, i as int);
        let ghost pool0 = views_of(pool@);
        proof {
            assert(all[i as int] == roster@[i as int]@);
            assert(all.subrange(0, i + 1) =~= prefix.push(all[i as int]));
        }
        let m = &roster[i];
        if *m == *target {
            found = true;
            proof {
                assert(all.subrange(0, i + 1)[i as int] == target@);
                assert forall|n: Seq<char>| #[trigger]
                    all.subrange(0, i + 1).contains(n)
                        <==> (prefix.contains(n) || n == target@) by {
                    lemma_push_membership(prefix, all[i as int], n);
                }
                assert(!prefix.contains(target@)) by {
                    if prefix.contains(target@) {
                        let j = choose|j: int| 0 <= j < i && prefix[j] == target@;
                        assert(all[j] == all[i as int]);
                        assert(false);
                    }
                }
            }
        } else {
            pool.push(m.clone());
            proof {
                assert(views_of(pool@) =~= pool0.push(all[i as int]));
                assert forall|n: Seq<char>| #[trigger]
                    views_of(pool@).contains(n)
                        <==> (pool0.contains(n) || n == all[i as int]) by {
                    lemma_push_membership(pool0, all[i as int], n);
                }
                assert forall|n: Seq<char>| #[trigger]
                    all.subrange(0, i + 1).contains(n)
                        <==> (prefix.contains(n) || n == all[i as int]) by {
                    lemma_push_membership(prefix, all[i as int], n);
                }
                assert(!pool0.contains(all[i as int])) by {
                    if prefix.contains(all[i as int]) {
                        let j = choose|j: int| 0 <= j < i && prefix[j] == all[i as int];
                        assert(all[j] == all[i as int]);
                        assert(false);
                    }
                }
                lemma_push_keeps_no_duplicates(pool0, all[i as int]);
                assert(found <==> all.subrange(0, i + 1).contains(target@)) by {
                    assert(all[i as int] != target@);
                }
            }
        }
        i += 1;
    }
    proof {
        assert(all.subrange(0, all.len() as int) =~= all);
    }
    if !found {
        return Err(ComposeError::TargetMissing);
    }
    if index > pool.len() {
        return Err(ComposeError::RosterTooSmall);
    }
    let ghost filtered = views_of(pool@);
    shuffle_strings(&mut pool);
    proof {
        broadcast use vstd::seq_lib::group_to_multiset_ensures;

        let shuffled = views_of(pool@);
        filtered.lemma_multiset_has_no_duplicates();
        assert(shuffled.to_multiset().len() == filtered.to_multiset().len());
        assert(shuffled.len() == filtered.len());
        assert forall|n: Seq<char>| #[trigger]
            shuffled.contains(n) <==> filtered.contains(n) by {
            assert(shuffled.contains(n) <==> shuffled.to_multiset().count(n) > 0);
            assert(filtered.contains(n) <==> filtered.to_multiset().count(n) > 0);
        }
        assert forall|n: Seq<char>|
            shuffled.to_multiset().contains(n) implies #[trigger] shuffled.to_multiset().count(
            n,
        ) == 1 by {
            assert(filtered.to_multiset().count(n) == shuffled.to_multiset().count(n));
        }
        shuffled.lemma_multiset_has_no_duplicates_conv();
    }
    let ghost shuffled = views_of(pool@);
    let ghost pool_pre_insert = pool@;
    pool.insert(index, target.clone());
    proof {
        lemma_views_of_insert(pool_pre_insert, index as int, *target);
    }
    let ghost inserted = views_of(pool@);
    proof {
        assert(inserted =~= shuffled.insert(index as int, target@));
        shuffled.insert_ensures(index as int, target@);
        assert forall|n: Seq<char>| #[trigger]
            inserted.contains(n) <==> (shuffled.contains(n) || n == target@) by {
            lemma_insert_membership(shuffled, index as int, target@, n);
        }
        lemma_insert_keeps_no_duplicates(shuffled, index as int, target@);
        lemma_same_membership_multiset(inserted, all);
    }
    let ghost pool_pre_truncate = pool@;
    if pool.len() > POLL_MAX_OPTIONS_COUNT {
        pool.truncate(POLL_MAX_OPTIONS_COUNT);
        proof {
            lemma_views_of_subrange(pool_pre_truncate, 0, POLL_MAX_OPTIONS_COUNT as int);
        }
    }
    let ghost out = views_of(pool@);
    proof {
        if all.len() > POLL_MAX_OPTIONS_COUNT {
            assert(out =~= inserted.subrange(0, POLL_MAX_OPTIONS_COUNT as int));
            assert(out[index as int] == inserted[index as int]);
            assert forall|a: int, b: int| 0 <= a < b < out.len() implies out[a] != out[b] by {
                assert(out[a] == inserted[a]);
                assert(out[b] == inserted[b]);
            }
            assert forall|n: Seq<char>| #[trigger] out.contains(n) implies all.contains(n) by {
                let j = choose|j: int| 0 <= j < out.len() && out[j] == n;
                assert(inserted[j] == n);
                assert(inserted.contains(n));
            }
        }
    }
    Ok(Quiz { options: pool, correct_index: index })
}

/// Composes a quiz for `target` out of the roster, drawing the slot of the
/// correct answer uniformly from the first `M - 1` positions. Whatever slot
/// the draw returns, the outcome is pinned: a roster that carries the target
/// and at least `M - 1` names always composes, the correct answer is never
/// in the last slot, and the option list is a duplicate-free selection of
/// roster names of length `min(|roster|, M)` with the target at the
/// returned index.
pub fn compose_quiz_random(roster: &Vec<String>, target: &String) -> (r: Result<
    Quiz,
    ComposeError,
>)
    requires
        views_of(roster@).no_duplicates(),
    ensures
        match r {
            Ok(q) => {
                &&& views_of(roster@).contains(target@)
                &&& q.correct_index + 1 < POLL_MAX_OPTIONS_COUNT
                &&& q.correct_index < roster@.len()
                &&& q.options@.len() == if roster@.len() < POLL_MAX_OPTIONS_COUNT {
                    roster@.len() as int
                } else {
                    POLL_MAX_OPTIONS_COUNT as int
                }
                &&& views_of(q.options@)[q.correct_index as int] == target@
                &&& views_of(q.options@).no_duplicates()
                &&& forall|n: Seq<char>|
                    views_of(q.options@).contains(n) ==> views_of(roster@).contains(n)
                &&& roster@.len() <= POLL_MAX_OPTIONS_COUNT ==> views_of(
                    q.options@,
                ).to_multiset() == views_of(roster@).to_multiset()
            },
            Err(ComposeError::TargetMissing) => !views_of(roster@).contains(target@),
            Err(ComposeError::RosterTooSmall) => views_of(roster@).contains(target@)
                && roster@.len() < POLL_MAX_OPTIONS_COUNT - 1,
        },
        views_of(roster@).contains(target@) && roster@.len() >= POLL_MAX_OPTIONS_COUNT - 1
            ==> r is Ok,
{
    let index = rand_below(POLL_MAX_OPTIONS_COUNT - 1);
    compose_quiz(roster, target, index)
}

} // verus!
