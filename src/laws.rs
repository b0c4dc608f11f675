//! Properties of whole runs, stated over the per-file steps of `batch` and
//! proved.

use vstd::prelude::*;
use crate::batch::{after_file, report_for, run_map};
use crate::cache::{ResultCache, entries_map};
use crate::measure::MeasureError;

verus! {

/// The number of successful outcomes among the first `n`.
pub open spec fn ok_count<T>(outcomes: Seq<Result<T, MeasureError>>, n: int) -> nat
    decreases n,
{
    if n <= 0 {
        0
    } else {
        ok_count(outcomes, n - 1) + if outcomes[n - 1] is Ok {
            1nat
        } else {
            0nat
        }
    }
}

/// A stored result is never replaced by later files, and every success is
/// stored under its key.
pub proof fn lemma_run_keeps<T>(
    m: Map<Seq<char>, T>,
    keys: Seq<Seq<char>>,
    outcomes: Seq<Result<T, MeasureError>>,
    n: int,
)
    requires
        0 <= n <= keys.len(),
        n <= outcomes.len(),
    ensures
        forall|k: Seq<char>|
            m.dom().contains(k) ==> #[trigger] run_map(m, keys, outcomes, n).dom().contains(k)
                && run_map(m, keys, outcomes, n)[k] == m[k],
        forall|i: int|
            0 <= i < n && outcomes[i] is Ok ==> run_map(m, keys, outcomes, n).dom().contains(
                #[trigger] keys[i],
            ),
    decreases n,
{
    if n > 0 {
        lemma_run_keeps(m, keys, outcomes, n - 1);
        let p = run_map(m, keys, outcomes, n - 1);
        assert forall|i: int| 0 <= i < n && outcomes[i] is Ok implies run_map(
            m,
            keys,
            outcomes,
            n,
        ).dom().contains(#[trigger] keys[i]) by {
            if i < n - 1 {
                assert(p.dom().contains(keys[i]));
            }
        }
    }
}

/// Once a file has reported a new result, that result is in the cache after
/// every later file, whether or not a save fell between: the final snapshot
/// holds every result that was reported.
pub proof fn lemma_reported_results_persist<T>(
    m: Map<Seq<char>, T>,
    keys: Seq<Seq<char>>,
    outcomes: Seq<Result<T, MeasureError>>,
    i: int,
    n: int,
)
    requires
        0 <= i < n <= keys.len(),
        n <= outcomes.len(),
        report_for(run_map(m, keys, outcomes, i), i, keys[i], outcomes[i]) is Measured,
    ensures
        run_map(m, keys, outcomes, n).dom().contains(keys[i]),
        run_map(m, keys, outcomes, n)[keys[i]] == report_for(
            run_map(m, keys, outcomes, i),
            i,
            keys[i],
            outcomes[i],
        )->Measured_value,
    decreases n - i,
{
    let mi = run_map(m, keys, outcomes, i);
    if n == i + 1 {
        assert(run_map(m, keys, outcomes, n) == after_file(mi, keys[i], outcomes[i]));
    } else {
        lemma_reported_results_persist(m, keys, outcomes, i, n - 1);
    }
}

/// After a run in which every file was measured, a second run over the same
/// targets skips every file, and whatever its workers might still finish
/// leaves the cache, and so the snapshot, as it was and reports nothing new.
pub proof fn lemma_second_run_is_idle<T>(
    m: Map<Seq<char>, T>,
    keys: Seq<Seq<char>>,
    first: Seq<Result<T, MeasureError>>,
    second: Seq<Result<T, MeasureError>>,
)
    requires
        first.len() == keys.len(),
        second.len() == keys.len(),
        forall|i: int| 0 <= i < first.len() ==> first[i] is Ok,
    ensures
        forall|i: int|
            0 <= i < keys.len() ==> run_map(m, keys, first, keys.len() as int).dom().contains(
                #[trigger] keys[i],
            ),
        forall|n: int|
            0 <= n <= keys.len() ==> #[trigger] run_map(
                run_map(m, keys, first, keys.len() as int),
                keys,
                second,
                n,
            ) == run_map(m, keys, first, keys.len() as int),
        forall|i: int|
            0 <= i < keys.len() ==> !(#[trigger] report_for(
                run_map(run_map(m, keys, first, keys.len() as int), keys, second, i),
                i,
                keys[i],
                second[i],
            ) is Measured),
{
    let m1 = run_map(m, keys, first, keys.len() as int);
    lemma_run_keeps(m, keys, first, keys.len() as int);
    assert forall|n: int| 0 <= n <= keys.len() implies #[trigger] run_map(m1, keys, second, n)
        == m1 by {
        lemma_second_run_prefix(m1, keys, second, n);
    }
    assert forall|i: int| 0 <= i < keys.len() implies !(#[trigger] report_for(
        run_map(m1, keys, second, i),
        i,
        keys[i],
        second[i],
    ) is Measured) by {
        lemma_second_run_prefix(m1, keys, second, i);
        assert(m1.dom().contains(keys[i]));
    }
}

proof fn lemma_second_run_prefix<T>(
    m1: Map<Seq<char>, T>,
    keys: Seq<Seq<char>>,
    second: Seq<Result<T, MeasureError>>,
    n: int,
)
    requires
        0 <= n <= keys.len(),
        forall|i: int| 0 <= i < keys.len() ==> m1.dom().contains(#[trigger] keys[i]),
    ensures
        run_map(m1, keys, second, n) == m1,
    decreases n,
{
    if n > 0 {
        lemma_second_run_prefix(m1, keys, second, n - 1);
        assert(m1.dom().contains(keys[n - 1]));
    }
}

/// Workers that race on one absent key: of all their attempts to store a
/// result, exactly the first applies, and the key ends with its value.
pub proof fn lemma_at_most_one_apply<T>(
    m: Map<Seq<char>, T>,
    key: Seq<char>,
    keys: Seq<Seq<char>>,
    outcomes: Seq<Result<T, MeasureError>>,
)
    requires
        !m.dom().contains(key),
        keys.len() == outcomes.len(),
        keys.len() > 0,
        forall|i: int| 0 <= i < keys.len() ==> keys[i] == key,
        forall|i: int| 0 <= i < outcomes.len() ==> outcomes[i] is Ok,
    ensures
        forall|i: int|
            0 <= i < keys.len() ==> (#[trigger] report_for(
                run_map(m, keys, outcomes, i),
                i,
                keys[i],
                outcomes[i],
            ) is Measured <==> i == 0),
        forall|n: int|
            1 <= n <= keys.len() ==> #[trigger] run_map(m, keys, outcomes, n) == m.insert(
                key,
                outcomes[0]->Ok_0,
            ),
{
    assert forall|n: int| 1 <= n <= keys.len() implies #[trigger] run_map(m, keys, outcomes, n)
        == m.insert(key, outcomes[0]->Ok_0) by {
        lemma_race_prefix(m, key, keys, outcomes, n);
    }
    assert forall|i: int| 0 <= i < keys.len() implies (#[trigger] report_for(
        run_map(m, keys, outcomes, i),
        i,
        keys[i],
        outcomes[i],
    ) is Measured <==> i == 0) by {
        if i > 0 {
            lemma_race_prefix(m, key, keys, outcomes, i);
        }
    }
}

proof fn lemma_race_prefix<T>(
    m: Map<Seq<char>, T>,
    key: Seq<char>,
    keys: Seq<Seq<char>>,
    outcomes: Seq<Result<T, MeasureError>>,
    n: int,
)
    requires
        !m.dom().contains(key),
        keys.len() == outcomes.len(),
        1 <= n <= keys.len(),
        forall|i: int| 0 <= i < keys.len() ==> keys[i] == key,
        forall|i: int| 0 <= i < outcomes.len() ==> outcomes[i] is Ok,
    ensures
        run_map(m, keys, outcomes, n) == m.insert(key, outcomes[0]->Ok_0),
    decreases n,
{
    if n > 1 {
        lemma_race_prefix(m, key, keys, outcomes, n - 1);
        assert(keys[n - 1] == key);
    } else {
        assert(run_map(m, keys, outcomes, 0) == m);
        assert(keys[0] == key);
    }
}

/// Files under distinct new keys do not affect one another: after the run
/// the cache holds exactly the keys whose files succeeded, with their
/// results, and grew by the number of successes.
pub proof fn lemma_failures_are_isolated<T>(
    m: Map<Seq<char>, T>,
    keys: Seq<Seq<char>>,
    outcomes: Seq<Result<T, MeasureError>>,
)
    requires
        m.dom().finite(),
        keys.len() == outcomes.len(),
        forall|i: int, j: int| 0 <= i < j < keys.len() ==> keys[i] != keys[j],
        forall|i: int| 0 <= i < keys.len() ==> !m.dom().contains(#[trigger] keys[i]),
    ensures
        forall|i: int|
            0 <= i < keys.len() ==> (run_map(m, keys, outcomes, keys.len() as int).dom().contains(
                #[trigger] keys[i],
            ) <==> outcomes[i] is Ok),
        forall|i: int|
            0 <= i < keys.len() && outcomes[i] is Ok ==> run_map(
                m,
                keys,
                outcomes,
                keys.len() as int,
            )[#[trigger] keys[i]] == outcomes[i]->Ok_0,
        run_map(m, keys, outcomes, keys.len() as int).dom().finite(),
        run_map(m, keys, outcomes, keys.len() as int).len() == m.len() + ok_count(
            outcomes,
            keys.len() as int,
        ),
{
    lemma_isolated_prefix(m, keys, outcomes, keys.len() as int);
}

proof fn lemma_isolated_prefix<T>(
    m: Map<Seq<char>, T>,
    keys: Seq<Seq<char>>,
    outcomes: Seq<Result<T, MeasureError>>,
    n: int,
)
    requires
        m.dom().finite(),
        0 <= n <= keys.len(),
        keys.len() == outcomes.len(),
        forall|i: int, j: int| 0 <= i < j < keys.len() ==> keys[i] != keys[j],
        forall|i: int| 0 <= i < keys.len() ==> !m.dom().contains(#[trigger] keys[i]),
    ensures
        forall|i: int|
            0 <= i < keys.len() ==> (run_map(m, keys, outcomes, n).dom().contains(
                #[trigger] keys[i],
            ) <==> (i < n && outcomes[i] is Ok)),
        forall|i: int|
            0 <= i < n && outcomes[i] is Ok ==> run_map(m, keys, outcomes, n)[#[trigger] keys[i]]
                == outcomes[i]->Ok_0,
        run_map(m, keys, outcomes, n).dom().finite(),
        run_map(m, keys, outcomes, n).len() == m.len() + ok_count(outcomes, n),
    decreases n,
{
    if n > 0 {
        lemma_isolated_prefix(m, keys, outcomes, n - 1);
        let p = run_map(m, keys, outcomes, n - 1);
        let k = keys[n - 1];
        assert(!p.dom().contains(k));
        assert forall|i: int| 0 <= i < keys.len() implies (run_map(
            m,
            keys,
            outcomes,
            n,
        ).dom().contains(#[trigger] keys[i]) <==> (i < n && outcomes[i] is Ok)) by {
            if i != n - 1 {
                assert(keys[i] != k);
            }
        }
        assert forall|i: int| 0 <= i < n && outcomes[i] is Ok implies run_map(
            m,
            keys,
            outcomes,
            n,
        )[#[trigger] keys[i]] == outcomes[i]->Ok_0 by {
            if i != n - 1 {
                assert(keys[i] != k);
            }
        }
    }
}

/// Reloading a cache from the entries it saves gives back the same mapping,
/// the empty one included.
pub proof fn lemma_snapshot_reloads<T>(c: ResultCache<T>)
    requires
        c.wf(),
    ensures
        entries_map(c.entry_seq()) == c@,
{
    c.lemma_wf_entries();
}

} // verus!
