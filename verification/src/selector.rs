use vstd::prelude::*;
use crate::MediaRecord;
use crate::errors::Error;
use crate::history::History;
use crate::random::random_below;

verus! {

/// The candidates that history filtering lets through: all of them when
/// history is ignored, otherwise those whose identifier is not recorded.
pub open spec fn surviving(
    candidates: Seq<MediaRecord>,
    history: Set<Seq<char>>,
    ignore_history: bool,
) -> Seq<MediaRecord> {
    if ignore_history {
        candidates
    } else {
        candidates.filter(|g: MediaRecord| !history.contains(g.id@))
    }
}

/// No two records in `gifs` share an identifier.
pub open spec fn distinct_ids(gifs: Seq<MediaRecord>) -> bool {
    forall|i: int, j: int| 0 <= i < j < gifs.len() ==> gifs[i].id@ != gifs[j].id@
}

/// Law: with an empty history the filter lets every candidate through, so
/// on a non-empty candidate list `pick`'s contract promises a result drawn
/// from that list and rules out `EmptyResult`.
pub proof fn lemma_empty_history_keeps_all(candidates: Seq<MediaRecord>, ignore_history: bool)
    ensures
        surviving(candidates, Set::empty(), ignore_history) == candidates,
    decreases candidates.len(),
{
    reveal(Seq::filter);
    if !ignore_history {
        if candidates.len() == 0 {
            assert(surviving(candidates, Set::empty(), false) =~= candidates);
        } else {
            lemma_empty_history_keeps_all(candidates.drop_last(), false);
            assert(surviving(candidates, Set::empty(), false)
                =~= candidates.drop_last().push(candidates.last()));
            assert(candidates.drop_last().push(candidates.last()) =~= candidates);
        }
    }
}

/// Law: when every candidate's identifier is recorded and history is not
/// ignored, nothing survives, so `pick`'s contract forces `EmptyResult`.
pub proof fn lemma_full_history_blocks_all(candidates: Seq<MediaRecord>, history: Set<Seq<char>>)
    requires
        forall|i: int| 0 <= i < candidates.len()
            ==> history.contains(#[trigger] candidates[i].id@),
    ensures
        surviving(candidates, history, false).len() == 0,
    decreases candidates.len(),
{
    reveal(Seq::filter);
    if candidates.len() > 0 {
        lemma_full_history_blocks_all(candidates.drop_last(), history);
        assert(candidates.last() == candidates[candidates.len() - 1]);
    }
}

/// Law: with `ignore_history` set, the survivors do not depend on the
/// history at all — membership is never consulted.
pub proof fn lemma_ignored_history_not_consulted(
    candidates: Seq<MediaRecord>,
    history_a: Set<Seq<char>>,
    history_b: Set<Seq<char>>,
)
    ensures
        surviving(candidates, history_a, true) == surviving(candidates, history_b, true),
{
}

/// Every survivor comes from the candidate list.
pub proof fn lemma_surviving_from_candidates(
    candidates: Seq<MediaRecord>,
    history: Set<Seq<char>>,
    ignore_history: bool,
    k: int,
)
    requires
        0 <= k < surviving(candidates, history, ignore_history).len(),
    ensures
        candidates.contains(surviving(candidates, history, ignore_history)[k]),
    decreases candidates.len(),
{
    reveal(Seq::filter);
    if !ignore_history {
        let filtered = surviving(candidates, history, ignore_history);
        let prefix = candidates.drop_last();
        if candidates.len() > 0 {
            if k < surviving(prefix, history, ignore_history).len() {
                lemma_surviving_from_candidates(prefix, history, ignore_history, k);
                let g = surviving(prefix, history, ignore_history)[k];
                assert(prefix.contains(g));
                let i = choose|i: int| 0 <= i < prefix.len() && prefix[i] == g;
                assert(candidates[i] == g);
            } else {
                assert(filtered[k] == candidates.last());
            }
        }
    }
}

/// No survivor's identifier is recorded in the history.
pub proof fn lemma_surviving_not_in_history(
    candidates: Seq<MediaRecord>,
    history: Set<Seq<char>>,
    k: int,
)
    requires
        0 <= k < surviving(candidates, history, false).len(),
    ensures
        !history.contains(surviving(candidates, history, false)[k].id@),
{
    broadcast use vstd::seq_lib::group_filter_ensures;

}

/// History filtering keeps distinct-id candidate lists distinct.
pub proof fn lemma_distinct_surviving(
    candidates: Seq<MediaRecord>,
    history: Set<Seq<char>>,
    ignore_history: bool,
)
    requires
        distinct_ids(candidates),
    ensures
        distinct_ids(surviving(candidates, history, ignore_history)),
    decreases candidates.len(),
{
    reveal(Seq::filter);
    if !ignore_history && candidates.len() > 0 {
        let prefix = candidates.drop_last();
        let last = candidates.last();
        lemma_distinct_surviving(prefix, history, false);
        let fp = surviving(prefix, history, false);
        assert forall|k: int| 0 <= k < fp.len() implies prefix.contains(fp[k]) by {
            lemma_surviving_from_candidates(prefix, history, false, k);
        }
        if !history.contains(last.id@) {
            assert(surviving(candidates, history, false) =~= fp.push(last));
            assert forall|k: int| 0 <= k < fp.len() implies fp[k].id@ != last.id@ by {
                let m = choose|m: int| 0 <= m < prefix.len() && prefix[m] == fp[k];
                assert(candidates[m] == fp[k]);
                assert(candidates[candidates.len() - 1] == last);
            }
        } else {
            assert(surviving(candidates, history, false) =~= fp);
        }
    }
}

/// Remove from `gifs` every record whose identifier the history records.
/// The survivors keep their relative order.
fn filter_by_history(gifs: &mut Vec<MediaRecord>, history: &History)
    ensures
        final(gifs)@ == surviving(old(gifs)@, history@, false),
{
    let ghost orig = gifs@;
    let mut i: usize = 0;
    let ghost mut j: int = 0;
    proof {
        reveal(Seq::filter);
        assert(orig.take(0) =~= Seq::<MediaRecord>::empty());
        assert(gifs@.take(0) =~= Seq::<MediaRecord>::empty());
        assert(gifs@.take(0) =~= surviving(orig.take(0), history@, false));
        assert(gifs@.skip(0) =~= orig.skip(0));
    }
    while i < gifs.len()
        invariant
            0 <= i <= gifs@.len(),
            0 <= j <= orig.len(),
            gifs@.take(i as int) == surviving(orig.take(j), history@, false),
            gifs@.skip(i as int) == orig.skip(j),
        decreases orig.len() - j,
    {
        proof {
            reveal(Seq::filter);
            assert(gifs@.skip(i as int).len() == gifs@.len() - i);
            assert(orig.skip(j).len() == orig.len() - j);
            assert(j < orig.len());
            assert(gifs@[i as int] == gifs@.skip(i as int)[0]);
            assert(orig.skip(j)[0] == orig[j]);
            assert(gifs@[i as int] == orig[j]);
            assert(orig.take(j + 1).drop_last() =~= orig.take(j));
            assert(orig.take(j + 1).last() == orig[j]);
        }
        let ghost pre = gifs@;
        if history.contains(&gifs[i].id) {
            let _ = gifs.remove(i);
            proof {
                reveal(Seq::filter);
                assert(surviving(orig.take(j + 1), history@, false)
                    =~= surviving(orig.take(j), history@, false));
                assert(gifs@ =~= pre.remove(i as int));
                assert(gifs@.take(i as int) =~= pre.take(i as int));
                assert(gifs@.skip(i as int) =~= pre.skip(i as int + 1));
                assert(pre.skip(i as int + 1) =~= pre.skip(i as int).skip(1));
                assert(orig.skip(j + 1) =~= orig.skip(j).skip(1));
                assert(pre.skip(i as int).skip(1) == orig.skip(j).skip(1));
            }
        } else {
            proof {
                reveal(Seq::filter);
                assert(surviving(orig.take(j + 1), history@, false)
                    =~= surviving(orig.take(j), history@, false).push(orig[j]));
                assert(gifs@.take(i as int + 1)
                    =~= gifs@.take(i as int).push(gifs@[i as int]));
                assert(gifs@.skip(i as int + 1) =~= gifs@.skip(i as int).skip(1));
                assert(orig.skip(j + 1) =~= orig.skip(j).skip(1));
                assert(gifs@.skip(i as int).skip(1) == orig.skip(j).skip(1));
            }
            i += 1;
        }
        proof {
            j = j + 1;
        }
    }
    proof {
        assert(j == orig.len());
        assert(orig.take(j) =~= orig);
        assert(gifs@.take(i as int) =~= gifs@);
    }
}

/// Choose one candidate at random.
///
/// Unless `ignore_history` is set, candidates whose identifier the history
/// records are removed first. If nothing survives, the result is
/// `EmptyResult` and the list is left holding the (empty) survivor set.
/// Otherwise one survivor, chosen by a fresh random draw, is removed from
/// the list and returned; the remaining survivors stay behind, in order,
/// for further draws. Recording the returned identifier is the caller's
/// business.
pub fn pick(
    candidates: &mut Vec<MediaRecord>,
    history: &History,
    ignore_history: bool,
) -> (r: Result<MediaRecord, Error>)
    ensures
        ({
            let survivors = surviving(old(candidates)@, history@, ignore_history);
            match r {
                Err(e) => e is EmptyResult && survivors.len() == 0
                    && final(candidates)@ == survivors,
                Ok(g) => exists|i: int|
                    0 <= i < survivors.len() && survivors[i] == g
                        && final(candidates)@ == survivors.remove(i),
            }
        }),
        !ignore_history ==> (r matches Ok(g) ==> !history@.contains(g.id@)),
{
    let ghost survivors = surviving(old(candidates)@, history@, ignore_history);
    if !ignore_history {
        filter_by_history(candidates, history);
    }
    proof {
        assert(candidates@ == survivors);
    }
    if candidates.len() == 0 {
        return Err(Error::EmptyResult);
    }
    let index = random_below(candidates.len());
    let chosen = candidates.remove(index);
    proof {
        assert(survivors[index as int] == chosen);
        assert(candidates@ == survivors.remove(index as int));
        if !ignore_history {
            lemma_surviving_not_in_history(old(candidates)@, history@, index as int);
        }
    }
    Ok(chosen)
}

/// Choose `n` candidates at random, each at most once.
///
/// The history filter runs once, up front; the draws then come from the
/// survivors, removing each chosen record from the pool so no identifier
/// repeats. If fewer than `n` candidates survive, the call fails with
/// `EmptyResult` before anything else happens.
pub fn pick_n(
    candidates: Vec<MediaRecord>,
    history: &History,
    ignore_history: bool,
    n: usize,
) -> (r: Result<Vec<MediaRecord>, Error>)
    requires
        distinct_ids(candidates@),
    ensures
        ({
            let survivors = surviving(candidates@, history@, ignore_history);
            match r {
                Err(e) => e is EmptyResult && survivors.len() < n,
                Ok(picked) => n <= survivors.len() && picked@.len() == n
                    && distinct_ids(picked@)
                    && (forall|i: int| 0 <= i < n
                        ==> survivors.contains(#[trigger] picked@[i]))
                    && (forall|i: int| 0 <= i < n && !ignore_history
                        ==> !history@.contains((#[trigger] picked@[i]).id@)),
            }
        }),
{
    let ghost survivors = surviving(candidates@, history@, ignore_history);
    let mut pool = candidates;
    if !ignore_history {
        filter_by_history(&mut pool, history);
    }
    proof {
        assert(pool@ == survivors);
        lemma_distinct_surviving(candidates@, history@, ignore_history);
        assert(forall|k: int| 0 <= k < pool@.len()
            ==> survivors.contains(#[trigger] pool@[k]));
    }
    if pool.len() < n {
        return Err(Error::EmptyResult);
    }
    let mut picked: Vec<MediaRecord> = Vec::new();
    while picked.len() < n
        invariant
            picked@.len() <= n,
            n <= survivors.len(),
            picked@.len() + pool@.len() == survivors.len(),
            distinct_ids(pool@),
            distinct_ids(picked@),
            forall|a: int, b: int|
                0 <= a < pool@.len() && 0 <= b < picked@.len()
                    ==> pool@[a].id@ != picked@[b].id@,
            forall|k: int| 0 <= k < pool@.len()
                ==> survivors.contains(#[trigger] pool@[k]),
            forall|k: int| 0 <= k < picked@.len()
                ==> survivors.contains(#[trigger] picked@[k]),
        decreases n - picked@.len(),
    {
        let ghost pre = pool@;
        let index = random_below(pool.len());
        let chosen = pool.remove(index);
        picked.push(chosen);
        proof {
            assert(forall|k: int| 0 <= k < pool@.len()
                ==> #[trigger] pool@[k] == (if k < index { pre[k] } else { pre[k + 1] }));
        }
    }
    proof {
        if !ignore_history {
            assert forall|i: int| 0 <= i < picked@.len()
                implies !history@.contains(picked@[i].id@) by {
                assert(survivors.contains(picked@[i]));
                let k = choose|k: int| 0 <= k < survivors.len() && survivors[k] == picked@[i];
                lemma_surviving_not_in_history(candidates@, history@, k);
            }
        }
    }
    Ok(picked)
}

} // verus!
