//! The request-scoped batch resolver for one kind of entity: it turns many
//! lookups by id into one bulk fetch of the ids it has not fetched yet, and
//! remembers, for the rest of the request, which ids had a row and which had
//! none. Ids are the 128-bit values of the entities' UUIDs.
use vstd::prelude::*;
use std::collections::HashMap;

verus! {

broadcast use vstd::std_specs::hash::group_hash_axioms;

/// The ids among `keys` that have not been fetched yet.
pub open spec fn pending<V>(fetched: Map<u128, Option<V>>, keys: Seq<u128>) -> Set<u128> {
    keys.to_set().filter(|k: u128| !fetched.contains_key(k))
}

/// The fetch results after a fetch of `requested` that returned no row yet:
/// every requested id is known to be absent.
pub open spec fn mark_absent<V>(fetched: Map<u128, Option<V>>, requested: Seq<u128>) -> Map<
    u128,
    Option<V>,
>
    decreases requested.len(),
{
    if requested.len() == 0 {
        fetched
    } else {
        mark_absent(fetched, requested.drop_last()).insert(requested.last(), None)
    }
}

/// The fetch results after taking in `rows`, in order (a later row for the
/// same id replaces an earlier one).
pub open spec fn with_rows<V>(fetched: Map<u128, Option<V>>, rows: Seq<(u128, V)>) -> Map<
    u128,
    Option<V>,
>
    decreases rows.len(),
{
    if rows.len() == 0 {
        fetched
    } else {
        with_rows(fetched, rows.drop_last()).insert(rows.last().0, Some(rows.last().1))
    }
}

/// The fetch results after a bulk fetch of `requested` returned `rows`.
pub open spec fn absorbed<V>(
    fetched: Map<u128, Option<V>>,
    requested: Seq<u128>,
    rows: Seq<(u128, V)>,
) -> Map<u128, Option<V>> {
    with_rows(mark_absent(fetched, requested), rows)
}

/// Whether a row among `rows` has id `k`.
pub open spec fn has_row<V>(rows: Seq<(u128, V)>, k: u128) -> bool {
    exists|i: int| 0 <= i < rows.len() && (#[trigger] rows[i]).0 == k
}

proof fn lemma_mark_absent<V>(fetched: Map<u128, Option<V>>, requested: Seq<u128>, k: u128)
    ensures
        mark_absent(fetched, requested).contains_key(k) <==> (fetched.contains_key(k)
            || requested.contains(k)),
        requested.contains(k) ==> mark_absent(fetched, requested)[k] is None,
        !requested.contains(k) ==> mark_absent(fetched, requested)[k] == fetched[k],
    decreases requested.len(),
{
    if requested.len() > 0 {
        let init = requested.drop_last();
        lemma_mark_absent(fetched, init, k);
        if init.contains(k) {
            let j = choose|j: int| 0 <= j < init.len() && init[j] == k;
            assert(requested[j] == k);
        }
        if requested.contains(k) && k != requested.last() {
            let j = choose|j: int| 0 <= j < requested.len() && requested[j] == k;
            assert(init[j] == k);
        }
        if k == requested.last() {
            assert(requested[requested.len() - 1] == k);
        }
    }
}

proof fn lemma_with_rows<V>(fetched: Map<u128, Option<V>>, rows: Seq<(u128, V)>, k: u128)
    ensures
        with_rows(fetched, rows).contains_key(k) <==> (fetched.contains_key(k) || has_row(rows, k)),
        has_row(rows, k) ==> with_rows(fetched, rows)[k] is Some,
        !has_row(rows, k) ==> with_rows(fetched, rows)[k] == fetched[k],
    decreases rows.len(),
{
    if rows.len() > 0 {
        let init = rows.drop_last();
        lemma_with_rows(fetched, init, k);
        if has_row(init, k) {
            let j = choose|j: int| 0 <= j < init.len() && (#[trigger] init[j]).0 == k;
            assert(rows[j] == init[j]);
        }
        if has_row(rows, k) && k != rows.last().0 {
            let j = choose|j: int| 0 <= j < rows.len() && (#[trigger] rows[j]).0 == k;
            assert(init[j] == rows[j]);
        }
        if k == rows.last().0 {
            assert(rows[rows.len() - 1].0 == k);
        }
    }
}

/// Within one request an id is fetched at most once: after the bulk fetch of
/// the ids pending for `first`, the ids pending for `second` are those of
/// `second` that were neither fetched before, nor among `first`, nor came back
/// as a row. An id of the fetch that came back without a row is known absent,
/// not missing; one that came back with a row is known present.
pub proof fn lemma_fetched_ids_not_refetched<V>(
    fetched: Map<u128, Option<V>>,
    first: Seq<u128>,
    plan: Seq<u128>,
    rows: Seq<(u128, V)>,
    second: Seq<u128>,
)
    requires
        plan.to_set() == pending(fetched, first),
    ensures
        pending(absorbed(fetched, plan, rows), second) == pending(fetched, second).difference(
            first.to_set(),
        ).filter(|k: u128| !has_row(rows, k)),
        forall|k: u128|
            #![trigger plan.contains(k)]
            plan.contains(k) && !has_row(rows, k) ==> absorbed(fetched, plan, rows).contains_key(k)
                && absorbed(fetched, plan, rows)[k] is None,
        forall|k: u128| #[trigger]
            has_row(rows, k) ==> absorbed(fetched, plan, rows).contains_key(k) && absorbed(
                fetched,
                plan,
                rows,
            )[k] is Some,
{
    let after = absorbed(fetched, plan, rows);
    let marked = mark_absent(fetched, plan);
    assert forall|k: u128| #[trigger] after.contains_key(k) <==> (fetched.contains_key(k)
        || plan.contains(k) || has_row(rows, k)) by {
        lemma_mark_absent(fetched, plan, k);
        lemma_with_rows(marked, rows, k);
    }
    assert forall|k: u128| plan.contains(k) <==> (first.contains(k) && !fetched.contains_key(k)) by {
        assert(plan.contains(k) <==> plan.to_set().contains(k));
        assert(first.contains(k) <==> first.to_set().contains(k));
    }
    assert(pending(after, second) =~= pending(fetched, second).difference(first.to_set()).filter(
        |k: u128| !has_row(rows, k),
    ));
    assert forall|k: u128|
        #![trigger plan.contains(k)]
        plan.contains(k) && !has_row(rows, k) implies after.contains_key(k) && after[k] is None by {
        lemma_mark_absent(fetched, plan, k);
        lemma_with_rows(marked, rows, k);
    }
    assert forall|k: u128| #[trigger] has_row(rows, k) implies after.contains_key(k)
        && after[k] is Some by {
        lemma_with_rows(marked, rows, k);
    }
}

/// Caches, for one request, which ids were fetched and what came back.
pub struct BatchResolver<V> {
    fetched: HashMap<u128, Option<V>>,
}

impl<V> View for BatchResolver<V> {
    type V = Map<u128, Option<V>>;

    /// For each id fetched so far: its row, or `None` where there was none.
    closed spec fn view(&self) -> Map<u128, Option<V>> {
        self.fetched@
    }
}

fn vec_contains(v: &Vec<u128>, k: u128) -> (r: bool)
    ensures
        r == v@.contains(k),
{
    let mut i: usize = 0;
    while i < v.len()
        invariant
            i <= v.len(),
            forall|j: int| 0 <= j < i ==> v@[j] != k,
        decreases v.len() - i,
    {
        if v[i] == k {
            return true;
        }
        i = i + 1;
    }
    false
}

impl<V> BatchResolver<V> {
    /// A resolver for a new request: nothing fetched.
    pub fn new() -> (r: BatchResolver<V>)
        ensures
            r@ == Map::<u128, Option<V>>::empty(),
    {
        BatchResolver { fetched: HashMap::new() }
    }

    /// The ids to fetch in one bulk read so that all of `keys` are known:
    /// each id of `keys` not fetched yet, once.
    pub fn keys_to_fetch(&self, keys: &Vec<u128>) -> (r: Vec<u128>)
        ensures
            r@.no_duplicates(),
            r@.to_set() == pending(self@, keys@),
    {
        let mut out: Vec<u128> = Vec::new();
        let mut i: usize = 0;
        while i < keys.len()
            invariant
                i <= keys.len(),
                out@.no_duplicates(),
                out@.to_set() == pending(self@, keys@.subrange(0, i as int)),
            decreases keys.len() - i,
        {
            let k = keys[i];
            let ghost before = keys@.subrange(0, i as int);
            assert(keys@.subrange(0, i + 1) =~= before.push(k));
            proof {
                before.lemma_push_to_set_commute(k);
            }
            if !self.fetched.contains_key(&k) && !vec_contains(&out, k) {
                let ghost prev = out@;
                out.push(k);
                proof {
                    prev.lemma_push_to_set_commute(k);
                    assert forall|a: int, b: int| 0 <= a < b < out@.len() implies out@[a] != out@[b] by {
                        if b == out@.len() - 1 {
                            assert(out@[a] == prev[a]);
                            if prev[a] == k {
                                assert(prev.contains(k));
                            }
                        }
                    }
                }
                assert(out@.to_set() =~= pending(self@, keys@.subrange(0, i + 1)));
            } else {
                proof {
                    if !self@.contains_key(k) {
                        assert(out@.contains(k));
                        assert(out@.to_set().contains(k));
                    }
                }
                assert(out@.to_set() =~= pending(self@, keys@.subrange(0, i + 1)));
            }
            i = i + 1;
        }
        assert(keys@.subrange(0, keys.len() as int) =~= keys@);
        out
    }

    /// Takes in the result of a bulk fetch of `requested`: the ids without a
    /// row become known absent, the rows are kept by id.
    pub fn absorb(&mut self, requested: &Vec<u128>, rows: Vec<(u128, V)>)
        ensures
            final(self)@ == absorbed(old(self)@, requested@, rows@),
    {
        let mut i: usize = 0;
        while i < requested.len()
            invariant
                i <= requested.len(),
                self@ == mark_absent(old(self)@, requested@.subrange(0, i as int)),
            decreases requested.len() - i,
        {
            let k = requested[i];
            assert(requested@.subrange(0, i + 1).drop_last() =~= requested@.subrange(0, i as int));
            self.fetched.insert(k, None);
            i = i + 1;
        }
        assert(requested@.subrange(0, requested.len() as int) =~= requested@);
        let ghost start = self@;
        let ghost all_rows = rows@;
        let mut rest = rows;
        let total = rest.len();
        let mut done: usize = 0;
        while rest.len() > 0
            invariant
                all_rows.len() == total,
                done + rest@.len() == all_rows.len(),
                rest@ =~= all_rows.skip(done as int),
                self@ == with_rows(start, all_rows.take(done as int)),
            decreases rest.len(),
        {
            let (k, v) = rest.remove(0);
            assert(all_rows.take(done + 1).drop_last() =~= all_rows.take(done as int));
            assert(all_rows.take(done + 1).last() == all_rows[done as int]);
            self.fetched.insert(k, Some(v));
            done = done + 1;
        }
        assert(all_rows.take(done as int) =~= all_rows);
    }

    /// The entities of `keys` that have been fetched and had a row. An id
    /// without a row, or not fetched yet, is absent from the map.
    pub fn lookup(&self, keys: &Vec<u128>) -> (r: HashMap<u128, &V>)
        ensures
            forall|k: u128| #[trigger]
                r@.contains_key(k) <==> (keys@.contains(k) && self@.contains_key(k) && self@[k] is Some),
            forall|k: u128| #[trigger] r@.contains_key(k) ==> *r@[k] == self@[k]->0,
    {
        let mut out: HashMap<u128, &V> = HashMap::new();
        let mut i: usize = 0;
        while i < keys.len()
            invariant
                i <= keys.len(),
                forall|k: u128| #[trigger]
                    out@.contains_key(k) <==> (keys@.subrange(0, i as int).contains(k)
                        && self@.contains_key(k) && self@[k] is Some),
                forall|k: u128| #[trigger] out@.contains_key(k) ==> *out@[k] == self@[k]->0,
            decreases keys.len() - i,
        {
            let k = keys[i];
            assert(keys@.subrange(0, i + 1) =~= keys@.subrange(0, i as int).push(k));
            let ghost seen = keys@.subrange(0, i as int);
            let ghost now = keys@.subrange(0, i + 1);
            assert forall|k2: u128| #[trigger] now.contains(k2) <==> (seen.contains(k2) || k2 == k) by {
                if k2 == k {
                    assert(now[i as int] == k);
                }
                if seen.contains(k2) {
                    let j = choose|j: int| 0 <= j < seen.len() && seen[j] == k2;
                    assert(now[j] == k2);
                }
                if now.contains(k2) && k2 != k {
                    let j = choose|j: int| 0 <= j < now.len() && now[j] == k2;
                    assert(seen[j] == k2);
                }
            }
            match self.fetched.get(&k) {
                Some(entry) => {
                    assert(self@.contains_key(k) && self@[k] == *entry);
                    match entry {
                        Some(v) => {
                            out.insert(k, v);
                        },
                        None => {},
                    }
                },
                None => {
                    assert(!self@.contains_key(k));
                },
            }
            i = i + 1;
        }
        assert(keys@.subrange(0, keys.len() as int) =~= keys@);
        out
    }
}

} // verus!
