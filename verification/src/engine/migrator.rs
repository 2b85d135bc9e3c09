//! Ordering and choosing the schema migrations to run.
//!
//! Migrations are ordered by version (keeping the given order among equal
//! versions). Migrating runs, in that order, every migration after the
//! leading ones whose version is at most the database's current version, and
//! then records the greatest version that ran.
use vstd::prelude::*;

verus! {

/// Inserts index `i` before the first listed index of a greater version.
pub open spec fn insert_by_version(s: Seq<usize>, i: usize, versions: Seq<u64>) -> Seq<usize>
    decreases s.len(),
{
    if s.len() == 0 {
        seq![i]
    } else if versions[i as int] < versions[s[0] as int] {
        seq![i] + s
    } else {
        seq![s[0]] + insert_by_version(s.drop_first(), i, versions)
    }
}

/// The indices of the first `n` migrations ordered by version, equal
/// versions in their given order.
pub open spec fn order_by_version(versions: Seq<u64>, n: int) -> Seq<usize>
    decreases n,
{
    if n <= 0 {
        Seq::empty()
    } else {
        insert_by_version(order_by_version(versions, n - 1), (n - 1) as usize, versions)
    }
}

proof fn lemma_insert_at(s: Seq<usize>, i: usize, versions: Seq<u64>, p: int)
    requires
        0 <= p <= s.len(),
        forall|j: int| 0 <= j < p ==> !(versions[i as int] < versions[#[trigger] s[j] as int]),
        p < s.len() ==> versions[i as int] < versions[s[p] as int],
    ensures
        insert_by_version(s, i, versions) == s.insert(p, i),
    decreases p,
{
    if s.len() == 0 {
        assert(s.insert(p, i) =~= seq![i]);
    } else if p == 0 {
        assert(s.insert(p, i) =~= seq![i] + s);
    } else {
        let t = s.drop_first();
        assert forall|j: int| 0 <= j < p - 1 implies !(versions[i as int] < versions[#[trigger] t[j] as int]) by {
            assert(t[j] == s[j + 1]);
        }
        lemma_insert_at(t, i, versions, p - 1);
        assert(s.insert(p, i) =~= seq![s[0]] + t.insert(p - 1, i));
    }
}

/// Every listed index is below `n`.
pub open spec fn indices_below(s: Seq<usize>, n: int) -> bool {
    forall|k: int| 0 <= k < s.len() ==> #[trigger] s[k] < n
}

/// The listed indices are ordered by version.
pub open spec fn ordered_by_version(s: Seq<usize>, versions: Seq<u64>) -> bool {
    forall|a: int, b: int| 0 <= a < b < s.len() ==> versions[s[a] as int] <= versions[s[b] as int]
}

proof fn lemma_insert_props(s: Seq<usize>, i: usize, versions: Seq<u64>, n: int)
    requires
        indices_below(s, n),
        i < n,
        ordered_by_version(s, versions),
    ensures
        indices_below(insert_by_version(s, i, versions), n),
        ordered_by_version(insert_by_version(s, i, versions), versions),
        insert_by_version(s, i, versions).len() == s.len() + 1,
        forall|k: int| 0 <= k < insert_by_version(s, i, versions).len() ==> (#[trigger] insert_by_version(s, i, versions)[k] == i || s.contains(insert_by_version(s, i, versions)[k])),
    decreases s.len(),
{
    if s.len() == 0 {
    } else if versions[i as int] < versions[s[0] as int] {
        let r = seq![i] + s;
        assert forall|k: int| 0 <= k < r.len() implies (r[k] == i || s.contains(r[k])) by {
            if k > 0 {
                assert(r[k] == s[k - 1]);
            }
        }
        assert forall|k: int| 0 <= k < r.len() implies #[trigger] r[k] < n by {
            if k > 0 {
                assert(r[k] == s[k - 1]);
            }
        }
        assert forall|a: int, b: int| 0 <= a < b < r.len() implies versions[r[a] as int] <= versions[r[b] as int] by {
            assert(r[b] == s[b - 1]);
            if a > 0 {
                assert(r[a] == s[a - 1]);
            }
        }
    } else {
        let t = s.drop_first();
        assert(indices_below(t, n)) by {
            assert forall|k: int| 0 <= k < t.len() implies #[trigger] t[k] < n by {
                assert(t[k] == s[k + 1]);
            }
        }
        lemma_insert_props(t, i, versions, n);
        let ti = insert_by_version(t, i, versions);
        let r = seq![s[0]] + ti;
        assert forall|k: int| 0 <= k < r.len() implies (r[k] == i || s.contains(r[k])) by {
            if k == 0 {
                assert(s[0] == s[0]);
            } else {
                assert(r[k] == ti[k - 1]);
                if ti[k - 1] != i {
                    let m = choose|m: int| 0 <= m < t.len() && t[m] == ti[k - 1];
                    assert(s[m + 1] == t[m]);
                }
            }
        }
        assert forall|k: int| 0 <= k < r.len() implies #[trigger] r[k] < n by {
            if k > 0 {
                assert(r[k] == ti[k - 1]);
            }
        }
        assert forall|a: int, b: int| 0 <= a < b < r.len() implies versions[r[a] as int] <= versions[r[b] as int] by {
            assert(r[b] == ti[b - 1]);
            if a == 0 {
                if ti[b - 1] != i {
                    let m = choose|m: int| 0 <= m < t.len() && t[m] == ti[b - 1];
                    assert(s[m + 1] == t[m]);
                }
            } else {
                assert(r[a] == ti[a - 1]);
            }
        }
    }
}

proof fn lemma_order_props(versions: Seq<u64>, n: int)
    requires
        0 <= n <= versions.len(),
    ensures
        indices_below(order_by_version(versions, n), n),
        ordered_by_version(order_by_version(versions, n), versions),
        order_by_version(versions, n).len() == n,
    decreases n,
{
    if n > 0 {
        lemma_order_props(versions, n - 1);
        let s = order_by_version(versions, n - 1);
        assert(indices_below(s, n));
        lemma_insert_props(s, (n - 1) as usize, versions, n);
    }
}

/// The migrations' indices ordered by version; migrations of equal version
/// keep their given order.
pub fn migration_order(versions: &Vec<u64>) -> (r: Vec<usize>)
    ensures
        r@ == order_by_version(versions@, versions@.len() as int),
{
    let mut r: Vec<usize> = Vec::new();
    let mut i: usize = 0;
    while i < versions.len()
        invariant
            i <= versions.len(),
            r@ == order_by_version(versions@, i as int),
        decreases versions.len() - i,
    {
        proof {
            lemma_order_props(versions@, i as int);
        }
        let mut p: usize = 0;
        while p < r.len() && !(versions[i] < versions[r[p]])
            invariant
                p <= r.len(),
                i < versions.len(),
                indices_below(r@, i as int),
                forall|j: int| 0 <= j < p ==> !(versions@[i as int] < versions@[#[trigger] r@[j] as int]),
            decreases r.len() - p,
        {
            p = p + 1;
        }
        proof {
            lemma_insert_at(r@, i, versions@, p as int);
        }
        r.insert(p, i);
        i = i + 1;
    }
    r
}

/// The migrations ordered by version are ordered by version, and each is
/// listed once.
pub proof fn law_migration_order_sorted(versions: Seq<u64>)
    ensures
        ordered_by_version(order_by_version(versions, versions.len() as int), versions),
        indices_below(order_by_version(versions, versions.len() as int), versions.len() as int),
        order_by_version(versions, versions.len() as int).len() == versions.len(),
{
    lemma_order_props(versions, versions.len() as int);
}

/// The number of leading versions that are at most the current version.
pub open spec fn skipped(versions: Seq<u64>, current: u64) -> int
    decreases versions.len(),
{
    if versions.len() == 0 {
        0
    } else if versions[0] <= current {
        1 + skipped(versions.drop_first(), current)
    } else {
        0
    }
}

/// The greatest version, if any.
pub open spec fn max_version(versions: Seq<u64>) -> Option<u64>
    decreases versions.len(),
{
    if versions.len() == 0 {
        None
    } else {
        match max_version(versions.drop_last()) {
            Some(m) => if versions.last() > m { Some(versions.last()) } else { Some(m) },
            None => Some(versions.last()),
        }
    }
}

/// What migrating runs.
pub struct MigrationPlan {
    /// The positions, in the ordered migrations, of those to run, in order
    pub run: Vec<usize>,
    /// The version to record afterwards, if any migration runs
    pub new_version: Option<u64>,
}

/// Given the ordered migrations' versions and the database's current
/// version: the migrations after the leading ones whose version is at most
/// the current version, and the greatest version among them.
pub fn migration_plan(ordered_versions: &Vec<u64>, current: u64) -> (r: MigrationPlan)
    ensures
        r.run@ == Seq::new(
            (ordered_versions@.len() - skipped(ordered_versions@, current)) as nat,
            |k: int| (k + skipped(ordered_versions@, current)) as usize,
        ),
        r.new_version == max_version(ordered_versions@.skip(skipped(ordered_versions@, current))),
{
    let ghost vs = ordered_versions@;
    let mut p: usize = 0;
    proof {
        assert(vs.skip(0) =~= vs);
    }
    while p < ordered_versions.len() && ordered_versions[p] <= current
        invariant
            p <= vs.len(),
            vs == ordered_versions@,
            skipped(vs, current) == p + skipped(vs.skip(p as int), current),
        decreases vs.len() - p,
    {
        proof {
            assert(vs.skip(p as int).drop_first() =~= vs.skip(p + 1));
        }
        p = p + 1;
    }
    proof {
        assert(skipped(vs.skip(p as int), current) == 0);
    }
    let mut run: Vec<usize> = Vec::new();
    let mut new_version: Option<u64> = None;
    let mut k: usize = p;
    while k < ordered_versions.len()
        invariant
            p <= k <= vs.len(),
            vs == ordered_versions@,
            p == skipped(vs, current),
            run@ == Seq::new((k - p) as nat, |j: int| (j + p) as usize),
            new_version == max_version(vs.subrange(p as int, k as int)),
        decreases vs.len() - k,
    {
        proof {
            assert(vs.subrange(p as int, k + 1).drop_last() =~= vs.subrange(p as int, k as int));
            assert(vs.subrange(p as int, k + 1).last() == vs[k as int]);
        }
        let v = ordered_versions[k];
        new_version = match new_version {
            Some(m) => if v > m { Some(v) } else { Some(m) },
            None => Some(v),
        };
        run.push(k);
        assert(run@ =~= Seq::new((k + 1 - p) as nat, |j: int| (j + p) as usize));
        k = k + 1;
    }
    assert(vs.subrange(p as int, vs.len() as int) =~= vs.skip(p as int));
    MigrationPlan { run, new_version }
}

proof fn lemma_max_version_bound(vs: Seq<u64>)
    ensures
        vs.len() > 0 ==> max_version(vs) is Some && (forall|k: int| 0 <= k < vs.len() ==> #[trigger] vs[k] <= max_version(vs)->0),
        vs.len() == 0 ==> max_version(vs) is None,
    decreases vs.len(),
{
    if vs.len() > 0 {
        lemma_max_version_bound(vs.drop_last());
        assert forall|k: int| 0 <= k < vs.len() implies #[trigger] vs[k] <= max_version(vs)->0 by {
            if k < vs.len() - 1 {
                assert(vs[k] == vs.drop_last()[k]);
            }
        }
    }
}

proof fn lemma_skipped_bound(vs: Seq<u64>, current: u64)
    ensures
        0 <= skipped(vs, current) <= vs.len(),
        skipped(vs, current) < vs.len() ==> vs[skipped(vs, current)] > current,
    decreases vs.len(),
{
    if vs.len() > 0 && vs[0] <= current {
        lemma_skipped_bound(vs.drop_first(), current);
        let s = skipped(vs.drop_first(), current);
        if s < vs.drop_first().len() {
            assert(vs[s + 1] == vs.drop_first()[s]);
        }
    }
}

/// Migrating never lowers the recorded version: the version it records is
/// above the current one, and no migration that runs has a greater one.
pub proof fn law_migration_raises_version(ordered_versions: Seq<u64>, current: u64)
    ensures
        ({
            let p = skipped(ordered_versions, current);
            let run = ordered_versions.skip(p);
            &&& max_version(run) matches Some(v) ==> v > current
            &&& forall|k: int| 0 <= k < run.len() ==> #[trigger] run[k] <= max_version(run)->0
            &&& (max_version(run) is None <==> p == ordered_versions.len())
        }),
{
    let p = skipped(ordered_versions, current);
    lemma_skipped_bound(ordered_versions, current);
    let run = ordered_versions.skip(p);
    lemma_max_version_bound(run);
    if run.len() > 0 {
        assert(run[0] == ordered_versions[p]);
    }
}

} // verus!
