//! Selecting build records with a version search query.
//!
//! The exact text fields (repository, branch, build hash) filter first. Then
//! the ordered fields narrow the survivors in a fixed order: major, minor,
//! patch, commit time. Each stage sees only what the stage before kept, so
//! `Latest` on the major number picks the newest major family before the
//! minor number is looked at.
use vstd::prelude::*;

use crate::query::{OrdPlacement, VersionSearchQuery, WildPlacement};
use crate::records::{BasicBuildInfo, OrderKey};
use crate::text::same_text;

verus! {

/// A build record and the nickname of its repository.
pub type Record = (BasicBuildInfo, String);

/// Whether a value with key `k` is kept by `sel` among values with `keys`.
pub open spec fn keeps<T: OrderKey>(sel: OrdPlacement<T>, keys: Seq<int>, k: int) -> bool {
    match sel {
        OrdPlacement::Latest => forall|j: int| 0 <= j < keys.len() ==> keys[j] <= k,
        OrdPlacement::Oldest => forall|j: int| 0 <= j < keys.len() ==> k <= keys[j],
        OrdPlacement::Any => true,
        OrdPlacement::Exact(t) => k == t.key(),
    }
}

/// The elements of `s` that `sel` keeps, in order: for `Latest` all those
/// tied for the largest key, for `Oldest` all those tied for the smallest,
/// for `Exact` those with its key, and for `Any` all.
pub open spec fn narrow_by<T: OrderKey, E>(
    sel: OrdPlacement<T>,
    s: Seq<E>,
    key: spec_fn(E) -> int,
) -> Seq<E> {
    match sel {
        OrdPlacement::Any => s,
        _ => s.filter(|e: E| keeps(sel, s.map_values(key), key(e))),
    }
}

/// A record passes the query's exact text fields.
pub open spec fn wild_ok(q: VersionSearchQuery, r: Record) -> bool {
    &&& (q.repository matches WildPlacement::Exact(n) ==> r.1@ == n@)
    &&& (q.branch matches WildPlacement::Exact(b) ==> r.0.ver.branch_spec() == b@)
    &&& (q.build_hash matches WildPlacement::Exact(h) ==> r.0.ver.hash_spec() == h@)
}

pub open spec fn major_key(r: Record) -> int {
    r.0.ver.version_spec().major as int
}

pub open spec fn minor_key(r: Record) -> int {
    r.0.ver.version_spec().minor as int
}

pub open spec fn patch_key(r: Record) -> int {
    r.0.ver.version_spec().patch as int
}

pub open spec fn commit_key(r: Record) -> int {
    r.0.commit_dt.key()
}

/// The records that pass the exact text fields.
pub open spec fn stage_wild(q: VersionSearchQuery, s: Seq<Record>) -> Seq<Record> {
    s.filter(|r: Record| wild_ok(q, r))
}

pub open spec fn stage_major(q: VersionSearchQuery, s: Seq<Record>) -> Seq<Record> {
    narrow_by(q.major, stage_wild(q, s), |r: Record| major_key(r))
}

pub open spec fn stage_minor(q: VersionSearchQuery, s: Seq<Record>) -> Seq<Record> {
    narrow_by(q.minor, stage_major(q, s), |r: Record| minor_key(r))
}

pub open spec fn stage_patch(q: VersionSearchQuery, s: Seq<Record>) -> Seq<Record> {
    narrow_by(q.patch, stage_minor(q, s), |r: Record| patch_key(r))
}

/// What `find_all` selects from `s`: the records that pass the exact text
/// fields, narrowed by major, then minor, then patch, then commit time.
pub open spec fn match_spec(q: VersionSearchQuery, s: Seq<Record>) -> Seq<Record> {
    narrow_by(q.commit_dt, stage_patch(q, s), |r: Record| commit_key(r))
}

/// The records that references point to.
pub open spec fn deref_all(s: Seq<&Record>) -> Seq<Record> {
    s.map_values(|x: &Record| *x)
}

/// One step of a filter over a growing prefix.
pub proof fn lemma_filter_step<A>(s: Seq<A>, p: spec_fn(A) -> bool, i: int)
    requires
        0 <= i < s.len(),
    ensures
        s.take(i + 1).filter(p) == (if p(s[i]) {
            s.take(i).filter(p).push(s[i])
        } else {
            s.take(i).filter(p)
        }),
{
    reveal(Seq::filter);
    assert(s.take(i + 1).drop_last() =~= s.take(i));
    assert(s.take(i + 1).last() == s[i]);
}

/// Filtering the images of a map is mapping the filter of the preimage.
pub proof fn lemma_filter_map<A, B>(s: Seq<A>, f: spec_fn(A) -> B, p: spec_fn(B) -> bool)
    ensures
        s.map_values(f).filter(p) == s.filter(|a: A| p(f(a))).map_values(f),
    decreases s.len(),
{
    reveal(Seq::filter);
    if s.len() > 0 {
        lemma_filter_map(s.drop_last(), f, p);
        assert(s.map_values(f).drop_last() =~= s.drop_last().map_values(f));
        let q = |a: A| p(f(a));
        if q(s.last()) {
            assert(s.filter(q).map_values(f) =~= s.drop_last().filter(q).map_values(f).push(
                f(s.last()),
            ));
        }
    } else {
        assert(s.map_values(f) =~= Seq::<B>::empty());
        assert(s.filter(|a: A| p(f(a))) =~= Seq::<A>::empty());
        assert(s.map_values(f).filter(p) =~= Seq::<B>::empty());
    }
}

/// Narrowing references is narrowing what they point to.
pub proof fn lemma_narrow_deref<T: OrderKey>(
    sel: OrdPlacement<T>,
    s: Seq<&Record>,
    key: spec_fn(Record) -> int,
)
    ensures
        deref_all(narrow_by(sel, s, |x: &Record| key(*x))) == narrow_by(sel, deref_all(s), key),
{
    let kr = |x: &Record| key(*x);
    let d = |x: &Record| *x;
    assert(s.map_values(kr) =~= deref_all(s).map_values(key));
    match sel {
        OrdPlacement::Any => {},
        _ => {
            let keys = deref_all(s).map_values(key);
            let p = |e: Record| keeps(sel, keys, key(e));
            lemma_filter_map(s, d, p);
            let via_deref = |a: &Record| p(d(a));
            let direct = |e: &Record| keeps(sel, s.map_values(kr), kr(e));
            assert(via_deref =~= direct);
        },
    }
}

/// What `sel` keeps of `items`, whose keys are `keys`.
fn select<T: OrderKey, E: Copy>(
    sel: &OrdPlacement<T>,
    items: Vec<E>,
    keys: Vec<i128>,
    Ghost(key): Ghost<spec_fn(E) -> int>,
) -> (r: Vec<E>)
    requires
        keys@.len() == items@.len(),
        forall|i: int| 0 <= i < items@.len() ==> keys@[i] as int == key(#[trigger] items@[i]),
    ensures
        r@ == narrow_by(*sel, items@, key),
{
    let ghost s = items@;
    let ghost ks = s.map_values(key);
    let n = items.len();
    assert forall|i: int| 0 <= i < n implies keys@[i] as int == ks[i] by {
        assert(keys@[i] as int == key(items@[i]));
    }
    let (mode, target): (u8, i128) = match sel {
        OrdPlacement::Any => {
            return items;
        },
        OrdPlacement::Exact(t) => (0, t.order_key()),
        OrdPlacement::Latest => {
            let mut m: i128 = 0;
            let mut i: usize = 0;
            while i < n
                invariant
                    n == keys@.len(),
                    i <= n,
                    i > 0 ==> exists|w: int| 0 <= w < i && keys@[w] == m,
                    forall|j: int| 0 <= j < i ==> keys@[j] <= m,
                decreases n - i,
            {
                if i == 0 || keys[i] > m {
                    m = keys[i];
                }
                i = i + 1;
            }
            (1, m)
        },
        OrdPlacement::Oldest => {
            let mut m: i128 = 0;
            let mut i: usize = 0;
            while i < n
                invariant
                    n == keys@.len(),
                    i <= n,
                    i > 0 ==> exists|w: int| 0 <= w < i && keys@[w] == m,
                    forall|j: int| 0 <= j < i ==> m <= keys@[j],
                decreases n - i,
            {
                if i == 0 || keys[i] < m {
                    m = keys[i];
                }
                i = i + 1;
            }
            (2, m)
        },
    };
    let ghost p = |e: E| keeps(*sel, ks, key(e));
    proof {
        assert forall|i: int| 0 <= i < n implies (p(s[i]) <==> keys@[i] == target) by {
            assert(ks[i] == key(s[i]));
            if mode == 1 {
                let w = choose|w: int| 0 <= w < n && keys@[w] == target;
                assert(ks[w] == keys@[w]);
            } else if mode == 2 {
                let w = choose|w: int| 0 <= w < n && keys@[w] == target;
                assert(ks[w] == keys@[w]);
            }
        }
    }
    let mut out: Vec<E> = Vec::new();
    let mut i: usize = 0;
    while i < n
        invariant
            n == items@.len(),
            n == keys@.len(),
            s == items@,
            i <= n,
            out@ == s.take(i as int).filter(p),
            forall|k: int| 0 <= k < n ==> (p(s[k]) <==> keys@[k] == target),
        decreases n - i,
    {
        proof {
            lemma_filter_step(s, p, i as int);
        }
        if keys[i] == target {
            out.push(items[i]);
        }
        i = i + 1;
    }
    assert(s.take(n as int) =~= s);
    out
}

impl<T: OrderKey + Copy> OrdPlacement<T> {
    /// The values that this placement keeps, in order: for `Latest` all
    /// those tied for the largest, for `Oldest` all those tied for the
    /// smallest, for `Exact` those equal to it, for `Any` all.
    pub fn find(&self, values: &Vec<T>) -> (r: Vec<T>)
        ensures
            r@ == narrow_by(*self, values@, |v: T| v.key()),
    {
        let mut items: Vec<T> = Vec::new();
        let mut keys: Vec<i128> = Vec::new();
        let mut i: usize = 0;
        while i < values.len()
            invariant
                i <= values@.len(),
                items@ == values@.take(i as int),
                keys@.len() == i,
                forall|k: int| 0 <= k < i ==> keys@[k] as int == (#[trigger] items@[k]).key(),
            decreases values@.len() - i,
        {
            items.push(values[i]);
            keys.push(values[i].order_key());
            i = i + 1;
            assert(items@ =~= values@.take(i as int));
        }
        assert(items@ =~= values@);
        select(self, items, keys, Ghost(|v: T| v.key()))
    }
}

impl<T: OrderKey> OrdPlacement<T> {
    /// The positions of the values that this placement keeps, in order (see
    /// `find`).
    pub fn find_positions(&self, values: &Vec<T>) -> (r: Vec<usize>)
        ensures
            r@ == narrow_by(
                *self,
                Seq::new(values@.len(), |i: int| i as usize),
                |i: usize| values@[i as int].key(),
            ),
    {
        let ghost idx = Seq::new(values@.len(), |i: int| i as usize);
        let ghost key = |i: usize| values@[i as int].key();
        let mut items: Vec<usize> = Vec::new();
        let mut keys: Vec<i128> = Vec::new();
        let mut i: usize = 0;
        while i < values.len()
            invariant
                i <= values@.len(),
                idx == Seq::new(values@.len(), |i: int| i as usize),
                key == (|i: usize| values@[i as int].key()),
                items@ == idx.take(i as int),
                keys@.len() == i,
                forall|k: int| 0 <= k < i ==> keys@[k] as int == key(#[trigger] items@[k]),
            decreases values@.len() - i,
        {
            items.push(i);
            keys.push(values[i].order_key());
            i = i + 1;
            assert(items@ =~= idx.take(i as int));
        }
        assert(items@ =~= idx);
        select(self, items, keys, Ghost(key))
    }
}

/// A matcher over a list of build records and their repository nicknames.
pub struct BInfoMatcher<'a> {
    versions: &'a [Record],
}

impl<'a> BInfoMatcher<'a> {
    /// The records this matcher searches.
    pub closed spec fn records(&self) -> Seq<Record> {
        self.versions@
    }

    /// A matcher over `versions`.
    pub fn new(versions: &'a [Record]) -> (r: BInfoMatcher<'a>)
        ensures
            r.records() == versions@,
    {
        BInfoMatcher { versions }
    }

    /// The records that `query` selects, as references into the list, in
    /// list order; see `match_spec`. An empty result means no match.
    pub fn find_all(&self, query: &VersionSearchQuery) -> (r: Vec<&'a Record>)
        ensures
            deref_all(r@) == match_spec(*query, self.records()),
    {
        let ghost s = self.versions@;
        let ghost w = |r: Record| wild_ok(*query, r);
        let mut vs: Vec<&'a Record> = Vec::new();
        let mut i: usize = 0;
        while i < self.versions.len()
            invariant
                s == self.versions@,
                w == (|r: Record| wild_ok(*query, r)),
                i <= s.len(),
                deref_all(vs@) == s.take(i as int).filter(w),
            decreases s.len() - i,
        {
            proof {
                lemma_filter_step(s, w, i as int);
            }
            let rec: &'a Record = &self.versions[i];
            assert(*rec == s[i as int]);
            let ghost old_vs = vs@;
            if record_passes(query, rec) {
                vs.push(rec);
                assert(deref_all(vs@) =~= deref_all(old_vs).push(*rec));
            }
            i = i + 1;
        }
        assert(s.take(i as int) =~= s);
        let vs = narrow_u64(&query.major, vs, 0, Ghost(|r: Record| major_key(r)));
        let vs = narrow_u64(&query.minor, vs, 1, Ghost(|r: Record| minor_key(r)));
        let vs = narrow_u64(&query.patch, vs, 2, Ghost(|r: Record| patch_key(r)));
        let mut keys: Vec<i128> = Vec::new();
        let mut k: usize = 0;
        while k < vs.len()
            invariant
                k <= vs@.len(),
                keys@.len() == k,
                forall|j: int| 0 <= j < k ==> keys@[j] as int == commit_key(*vs@[j]),
            decreases vs@.len() - k,
        {
            keys.push(vs[k].0.commit_dt.order_key());
            k = k + 1;
        }
        let ghost ck = |r: Record| commit_key(r);
        let r = select(&query.commit_dt, vs, keys, Ghost(|x: &Record| ck(*x)));
        proof {
            lemma_narrow_deref(query.commit_dt, vs@, ck);
        }
        r
    }
}

/// Narrows records by a number field: 0 major, 1 minor, 2 patch.
fn narrow_u64<'a>(
    sel: &OrdPlacement<u64>,
    vs: Vec<&'a Record>,
    field: u8,
    Ghost(key): Ghost<spec_fn(Record) -> int>,
) -> (r: Vec<&'a Record>)
    requires
        field == 0 ==> key == (|r: Record| major_key(r)),
        field == 1 ==> key == (|r: Record| minor_key(r)),
        field == 2 ==> key == (|r: Record| patch_key(r)),
        field <= 2,
    ensures
        deref_all(r@) == narrow_by(*sel, deref_all(vs@), key),
{
    let mut keys: Vec<i128> = Vec::new();
    let mut k: usize = 0;
    while k < vs.len()
        invariant
            field <= 2,
            field == 0 ==> key == (|r: Record| major_key(r)),
            field == 1 ==> key == (|r: Record| minor_key(r)),
            field == 2 ==> key == (|r: Record| patch_key(r)),
            k <= vs@.len(),
            keys@.len() == k,
            forall|j: int| 0 <= j < k ==> keys@[j] as int == key(*vs@[j]),
        decreases vs@.len() - k,
    {
        let v = vs[k].0.version();
        let x = if field == 0 {
            v.major
        } else if field == 1 {
            v.minor
        } else {
            v.patch
        };
        keys.push(x as i128);
        k = k + 1;
    }
    let ghost vs0 = vs@;
    let r = select(sel, vs, keys, Ghost(|x: &Record| key(*x)));
    proof {
        lemma_narrow_deref(*sel, vs0, key);
    }
    r
}

/// Whether a record passes the query's exact text fields.
fn record_passes(q: &VersionSearchQuery, rec: &Record) -> (r: bool)
    ensures
        r == wild_ok(*q, *rec),
{
    match &q.repository {
        WildPlacement::Exact(n) => {
            if rec.1 != *n {
                return false;
            }
        },
        WildPlacement::Any => {},
    }
    match &q.branch {
        WildPlacement::Exact(b) => {
            if !same_text(rec.0.ver.branch(), b.as_str()) {
                return false;
            }
        },
        WildPlacement::Any => {},
    }
    match &q.build_hash {
        WildPlacement::Exact(h) => {
            if !same_text(rec.0.ver.build_hash(), h.as_str()) {
                return false;
            }
        },
        WildPlacement::Any => {},
    }
    true
}

/// Every element of `b` is an element of `c`.
pub open spec fn within<A>(b: Seq<A>, c: Seq<A>) -> bool {
    forall|x: A| #[trigger] b.contains(x) ==> c.contains(x)
}

/// Filtering keeps nothing new, and only what passes.
pub proof fn lemma_filter_within<A>(s: Seq<A>, p: spec_fn(A) -> bool)
    ensures
        within(s.filter(p), s),
        forall|x: A| #[trigger] s.filter(p).contains(x) ==> p(x),
    decreases s.len(),
{
    reveal(Seq::filter);
    if s.len() > 0 {
        let d = s.drop_last();
        lemma_filter_within(d, p);
        let sub = d.filter(p);
        assert forall|x: A| #[trigger] s.filter(p).contains(x) implies s.contains(x) && p(x) by {
            let f = s.filter(p);
            let i = choose|i: int| 0 <= i < f.len() && f[i] == x;
            if p(s.last()) && i == sub.len() {
                assert(s[s.len() - 1] == x);
            } else {
                assert(f[i] == sub[i]);
                assert(sub.contains(x));
                let j = choose|j: int| 0 <= j < d.len() && d[j] == x;
                assert(s[j] == x);
            }
        }
    }
}

/// Filtering a sequence all of whose elements pass changes nothing.
pub proof fn lemma_filter_all<A>(s: Seq<A>, p: spec_fn(A) -> bool)
    requires
        forall|i: int| 0 <= i < s.len() ==> p(#[trigger] s[i]),
    ensures
        s.filter(p) == s,
    decreases s.len(),
{
    reveal(Seq::filter);
    if s.len() > 0 {
        assert forall|i: int| 0 <= i < s.drop_last().len() implies p(#[trigger] s.drop_last()[i]) by {
            assert(s.drop_last()[i] == s[i]);
        }
        lemma_filter_all(s.drop_last(), p);
        assert(s.drop_last().push(s.last()) =~= s);
    }
}

/// What a narrowing keeps lies within its input, and each kept element is
/// kept by the selector among the input's keys.
pub proof fn lemma_narrow_within<T: OrderKey, E>(sel: OrdPlacement<T>, a: Seq<E>, key: spec_fn(E) -> int)
    ensures
        within(narrow_by(sel, a, key), a),
        forall|x: E| #[trigger] narrow_by(sel, a, key).contains(x) ==> keeps(sel, a.map_values(key), key(x)),
{
    match sel {
        OrdPlacement::Any => {},
        _ => {
            lemma_filter_within(a, |e: E| keeps(sel, a.map_values(key), key(e)));
        },
    }
}

/// Narrowing again what a narrowing of `a` kept (or part of it) keeps all of
/// it.
pub proof fn lemma_narrow_stable<T: OrderKey, E>(sel: OrdPlacement<T>, a: Seq<E>, b: Seq<E>, key: spec_fn(E) -> int)
    requires
        within(b, narrow_by(sel, a, key)),
    ensures
        narrow_by(sel, b, key) == b,
{
    lemma_narrow_within(sel, a, key);
    let kb = b.map_values(key);
    let ka = a.map_values(key);
    match sel {
        OrdPlacement::Any => {},
        _ => {
            let p = |e: E| keeps(sel, kb, key(e));
            assert forall|i: int| 0 <= i < b.len() implies p(#[trigger] b[i]) by {
                assert(b.contains(b[i]));
                let x = b[i];
                assert(keeps(sel, ka, key(x)));
                assert forall|j: int| 0 <= j < kb.len() implies (match sel {
                    OrdPlacement::Latest => kb[j] <= key(x),
                    OrdPlacement::Oldest => key(x) <= kb[j],
                    _ => true,
                }) by {
                    assert(b.contains(b[j]));
                    assert(a.contains(b[j]));
                    let m = choose|m: int| 0 <= m < a.len() && a[m] == b[j];
                    assert(ka[m] == key(a[m]));
                    assert(kb[j] == key(b[j]));
                }
            }
            lemma_filter_all(b, p);
        },
    }
}

/// Applying a query to what it selected selects the same records again: the
/// matcher is idempotent.
pub proof fn lemma_match_idempotent(q: VersionSearchQuery, s: Seq<Record>)
    ensures
        match_spec(q, match_spec(q, s)) == match_spec(q, s),
{
    let s0 = stage_wild(q, s);
    let s1 = stage_major(q, s);
    let s2 = stage_minor(q, s);
    let s3 = stage_patch(q, s);
    let r = match_spec(q, s);
    let w = |x: Record| wild_ok(q, x);
    lemma_filter_within(s, w);
    lemma_narrow_within(q.major, s0, |x: Record| major_key(x));
    lemma_narrow_within(q.minor, s1, |x: Record| minor_key(x));
    lemma_narrow_within(q.patch, s2, |x: Record| patch_key(x));
    lemma_narrow_within(q.commit_dt, s3, |x: Record| commit_key(x));
    assert forall|i: int| 0 <= i < r.len() implies w(#[trigger] r[i]) by {
        assert(r.contains(r[i]));
    }
    lemma_filter_all(r, w);
    assert(stage_wild(q, r) == r);
    lemma_narrow_stable(q.major, s0, r, |x: Record| major_key(x));
    lemma_narrow_stable(q.minor, s1, r, |x: Record| minor_key(x));
    lemma_narrow_stable(q.patch, s2, r, |x: Record| patch_key(x));
    lemma_narrow_stable(q.commit_dt, s3, r, |x: Record| commit_key(x));
}

} // verus!
