//! Aggregation of keyed P&L entries into groups, and their ranking.
//!
//! An entry is a key (a symbol, a setup label, a mistake tag) with the P&L of
//! the trade it came from. Groups are ranked by a score (a win rate, or an
//! occurrence count), highest first; groups with equal scores keep the order
//! in which their keys first appeared.
use crate::amount::Amount;
use crate::analytics::{accumulate, add_to, average, average_of, zero};
use crate::error::{overflow_message, AppError};
use crate::trade::opt_wf;
use vstd::prelude::*;

verus! {

/// A key and the P&L it carries.
pub type Entry = (String, Option<Amount>);

/// Number of entries with key `k`.
pub open spec fn key_count(e: Seq<Entry>, k: Seq<char>) -> nat
    decreases e.len(),
{
    if e.len() == 0 {
        0
    } else {
        key_count(e.drop_last(), k) + if e.last().0@ == k { 1nat } else { 0nat }
    }
}

/// Number of entries with key `k` and a positive P&L.
pub open spec fn key_wins(e: Seq<Entry>, k: Seq<char>) -> nat
    decreases e.len(),
{
    if e.len() == 0 {
        0
    } else {
        key_wins(e.drop_last(), k) + if e.last().0@ == k && (e.last().1 matches Some(p)
            && p.is_pos()) {
            1nat
        } else {
            0nat
        }
    }
}

/// Sum of the present P&L values of the entries with key `k`, from zero.
pub open spec fn key_total(e: Seq<Entry>, k: Seq<char>) -> Option<Amount>
    decreases e.len(),
{
    if e.len() == 0 {
        Some(zero())
    } else if e.last().0@ == k && e.last().1 is Some {
        add_to(key_total(e.drop_last(), k), e.last().1->0)
    } else {
        key_total(e.drop_last(), k)
    }
}

/// Position of the first entry with key `k`, `-1` when there is none.
pub open spec fn first_seen(e: Seq<Entry>, k: Seq<char>) -> int
    decreases e.len(),
{
    if e.len() == 0 {
        -1
    } else if first_seen(e.drop_last(), k) >= 0 {
        first_seen(e.drop_last(), k)
    } else if e.last().0@ == k {
        e.len() - 1
    } else {
        -1
    }
}

/// Numerator of the ranking score of key `k`: its occurrences when ranking
/// by count, its wins when ranking by win rate.
pub open spec fn score_num(e: Seq<Entry>, k: Seq<char>, by_count: bool) -> int {
    if by_count {
        key_count(e, k) as int
    } else {
        key_wins(e, k) as int
    }
}

/// Denominator of the ranking score of key `k`.
pub open spec fn score_den(e: Seq<Entry>, k: Seq<char>, by_count: bool) -> int {
    if by_count {
        1
    } else {
        key_count(e, k) as int
    }
}

/// Key `a` is ranked before key `b`: a higher score, or an equal score and an
/// earlier first appearance.
pub open spec fn ranks_before(e: Seq<Entry>, a: Seq<char>, b: Seq<char>, by_count: bool) -> bool {
    let l = score_num(e, a, by_count) * score_den(e, b, by_count);
    let r = score_num(e, b, by_count) * score_den(e, a, by_count);
    l > r || (l == r && first_seen(e, a) < first_seen(e, b))
}

/// `keys` lists each key of `e` exactly once.
pub open spec fn is_key_cover(e: Seq<Entry>, keys: Seq<Seq<char>>) -> bool {
    &&& forall|j1: int, j2: int|
        0 <= j1 < keys.len() && 0 <= j2 < keys.len() && j1 != j2 ==> keys[j1] != keys[j2]
    &&& forall|j: int| 0 <= j < keys.len() ==> key_count(e, #[trigger] keys[j]) > 0
    &&& keys_cover(e, keys)
}

/// `x` is one of `keys`.
pub open spec fn key_listed(keys: Seq<Seq<char>>, x: Seq<char>) -> bool {
    exists|j: int| 0 <= j < keys.len() && keys[j] == x
}

/// Every key of `e` is one of `keys`.
pub open spec fn keys_cover(e: Seq<Entry>, keys: Seq<Seq<char>>) -> bool {
    forall|q: int| 0 <= q < e.len() ==> #[trigger] key_listed(keys, e[q].0@)
}

/// `keys` is in ranking order.
pub open spec fn is_ranked(e: Seq<Entry>, keys: Seq<Seq<char>>, by_count: bool) -> bool {
    forall|p: int, q: int| 0 <= p < q < keys.len() ==> ranks_before(e, keys[p], keys[q], by_count)
}

/// The sum of the group sizes for `keys`.
pub open spec fn count_sum(e: Seq<Entry>, keys: Seq<Seq<char>>) -> nat
    decreases keys.len(),
{
    if keys.len() == 0 {
        0
    } else {
        count_sum(e, keys.drop_last()) + key_count(e, keys.last())
    }
}

/// A group accumulated from a prefix of the entries.
pub struct Bucket {
    pub key: String,
    pub first: usize,
    pub count: usize,
    pub wins: usize,
    pub total: Option<Amount>,
}

/// `b` holds the statistics of its key over `e`.
pub open spec fn bucket_matches(e: Seq<Entry>, b: Bucket) -> bool {
    &&& b.count == key_count(e, b.key@)
    &&& b.wins == key_wins(e, b.key@)
    &&& b.total == key_total(e, b.key@)
    &&& b.first == first_seen(e, b.key@)
    &&& b.count > 0
    &&& opt_wf(b.total)
}

pub open spec fn bucket_num(b: Bucket, by_count: bool) -> int {
    if by_count {
        b.count as int
    } else {
        b.wins as int
    }
}

pub open spec fn bucket_den(b: Bucket, by_count: bool) -> int {
    if by_count {
        1
    } else {
        b.count as int
    }
}

pub open spec fn bucket_before(a: Bucket, b: Bucket, by_count: bool) -> bool {
    let l = bucket_num(a, by_count) * bucket_den(b, by_count);
    let r = bucket_num(b, by_count) * bucket_den(a, by_count);
    l > r || (l == r && a.first < b.first)
}

/// Some bucket of `b` has key `k`.
pub open spec fn bucket_for(b: Seq<Bucket>, k: Seq<char>) -> bool {
    exists|j: int| 0 <= j < b.len() && (#[trigger] b[j]).key@ == k
}

/// Every entry of `e` has its bucket in `b`.
pub open spec fn buckets_cover(e: Seq<Entry>, b: Seq<Bucket>) -> bool {
    forall|q: int| 0 <= q < e.len() ==> #[trigger] bucket_for(b, e[q].0@)
}

pub open spec fn entries_wf(e: Seq<Entry>) -> bool {
    forall|q: int| 0 <= q < e.len() ==> opt_wf(#[trigger] e[q].1)
}

proof fn lemma_absent_key(e: Seq<Entry>, k: Seq<char>)
    requires
        forall|q: int| 0 <= q < e.len() ==> (#[trigger] e[q]).0@ != k,
    ensures
        key_count(e, k) == 0,
        key_wins(e, k) == 0,
        key_total(e, k) == Some(zero()),
        first_seen(e, k) == -1,
    decreases e.len(),
{
    if e.len() > 0 {
        let d = e.drop_last();
        assert forall|q: int| 0 <= q < d.len() implies (#[trigger] d[q]).0@ != k by {
            assert(d[q] == e[q]);
        }
        lemma_absent_key(d, k);
        assert(e[e.len() - 1] == e.last());
    }
}

proof fn lemma_count_bound(e: Seq<Entry>, k: Seq<char>)
    ensures
        key_wins(e, k) <= key_count(e, k) <= e.len(),
    decreases e.len(),
{
    if e.len() > 0 {
        lemma_count_bound(e.drop_last(), k);
    }
}

pub(crate) fn clone_key(s: &String) -> (r: String)
    ensures
        r == *s,
{
    s.clone()
}

fn clone_bucket(b: &Bucket) -> (r: Bucket)
    ensures
        r == *b,
{
    Bucket { key: clone_key(&b.key), first: b.first, count: b.count, wins: b.wins, total: b.total }
}

/// Position of the bucket with key `key`, if any.
fn find_bucket(buckets: &Vec<Bucket>, key: &String) -> (r: Option<usize>)
    ensures
        r matches Some(j) ==> j < buckets.len() && buckets@[j as int].key@ == key@,
        r is None ==> forall|j: int| 0 <= j < buckets.len() ==> (#[trigger] buckets@[j]).key@ != key@,
{
    let mut j: usize = 0;
    while j < buckets.len()
        invariant
            j <= buckets.len(),
            forall|m: int| 0 <= m < j ==> (#[trigger] buckets@[m]).key@ != key@,
        decreases buckets.len() - j,
    {
        if buckets[j].key == *key {
            return Some(j);
        }
        j = j + 1;
    }
    None
}

/// One bucket for each key of `entries`, in order of first appearance.
pub fn aggregate(entries: &Vec<Entry>) -> (b: Vec<Bucket>)
    requires
        entries_wf(entries@),
    ensures
        forall|j: int| 0 <= j < b.len() ==> bucket_matches(entries@, #[trigger] b@[j]),
        forall|j1: int, j2: int|
            0 <= j1 < b.len() && 0 <= j2 < b.len() && j1 != j2 ==> b@[j1].key@ != b@[j2].key@,
        forall|j1: int, j2: int| 0 <= j1 < j2 < b.len() ==> b@[j1].first < b@[j2].first,
        buckets_cover(entries@, b@),
{
    let n = entries.len();
    let mut b: Vec<Bucket> = Vec::new();
    let ghost mut slot: Seq<int> = Seq::empty();
    let mut i: usize = 0;
    while i < n
        invariant
            n == entries.len(),
            entries_wf(entries@),
            i <= n,
            forall|j: int|
                0 <= j < b.len() ==> bucket_matches(entries@.take(i as int), #[trigger] b@[j]),
            forall|j: int| 0 <= j < b.len() ==> (#[trigger] b@[j]).first < i,
            forall|j1: int, j2: int|
                0 <= j1 < b.len() && 0 <= j2 < b.len() && j1 != j2 ==> b@[j1].key@ != b@[j2].key@,
            forall|j1: int, j2: int| 0 <= j1 < j2 < b.len() ==> b@[j1].first < b@[j2].first,
            slot.len() == i,
            forall|q: int|
                0 <= q < i ==> 0 <= #[trigger] slot[q] < b.len() && b@[slot[q]].key@
                    == entries@[q].0@,
        decreases n - i,
    {
        let ghost p = entries@.take(i as int);
        let ghost p2 = entries@.take(i + 1);
        proof {
            assert(p2.drop_last() =~= p);
            assert(p2.last() == entries@[i as int]);
        }
        let e = &entries[i];
        let pnl = e.1;
        proof {
            assert(opt_wf(entries@[i as int].1));
        }
        let win: usize = match pnl {
            Some(x) => if x.is_positive() {
                1
            } else {
                0
            },
            None => 0,
        };
        match find_bucket(&b, &e.0) {
            Some(j) => {
                let ghost before = b@;
                let old = clone_bucket(&b[j]);
                proof {
                    lemma_count_bound(p, old.key@);
                }
                let total = match pnl {
                    Some(x) => accumulate(old.total, &x),
                    None => old.total,
                };
                let nb = Bucket {
                    key: old.key,
                    first: old.first,
                    count: old.count + 1,
                    wins: old.wins + win,
                    total,
                };
                b.set(j, nb);
                proof {
                    slot = slot.push(j as int);
                    assert forall|m: int| 0 <= m < b.len() implies bucket_matches(
                        p2,
                        #[trigger] b@[m],
                    ) by {
                        if m != j {
                            assert(b@[m] == before[m]);
                        }
                    }
                }
            },
            None => {
                proof {
                    assert forall|q: int| 0 <= q < p.len() implies (#[trigger] p[q]).0@ != e.0@ by {
                        assert(p[q] == entries@[q]);
                        assert(b@[slot[q]].key@ == entries@[q].0@);
                    }
                    lemma_absent_key(p, e.0@);
                }
                let total = match pnl {
                    Some(x) => accumulate(Some(Amount::zero()), &x),
                    None => Some(Amount::zero()),
                };
                let nb = Bucket { key: clone_key(&e.0), first: i, count: 1, wins: win, total };
                let ghost before = b@;
                b.push(nb);
                proof {
                    slot = slot.push((b.len() - 1) as int);
                    assert forall|m: int| 0 <= m < b.len() implies bucket_matches(
                        p2,
                        #[trigger] b@[m],
                    ) by {
                        if m < b.len() - 1 {
                            assert(b@[m] == before[m]);
                        }
                    }
                }
            },
        }
        i = i + 1;
    }
    proof {
        assert(entries@.take(n as int) =~= entries@);
        assert forall|q: int| 0 <= q < entries@.len() implies #[trigger] bucket_for(
            b@,
            entries@[q].0@,
        ) by {
            assert(b@[slot[q]].key@ == entries@[q].0@);
        }
    }
    b
}

/// `x` occurs in `s`.
pub open spec fn member(s: Seq<Bucket>, x: Bucket) -> bool {
    exists|j: int| 0 <= j < s.len() && s[j] == x
}

pub open spec fn distinct_keys(s: Seq<Bucket>) -> bool {
    forall|j1: int, j2: int|
        0 <= j1 < s.len() && 0 <= j2 < s.len() && j1 != j2 ==> s[j1].key@ != s[j2].key@
}

pub open spec fn in_rank_order(s: Seq<Bucket>, by_count: bool) -> bool {
    forall|p: int, q: int| 0 <= p < q < s.len() ==> bucket_before(s[p], s[q], by_count)
}

proof fn lemma_score_trans(n1: int, d1: int, n2: int, d2: int, n3: int, d3: int)
    requires
        d1 > 0,
        d2 > 0,
        d3 > 0,
        n1 * d2 > n2 * d1,
        n2 * d3 >= n3 * d2,
    ensures
        n1 * d3 > n3 * d1,
{
    assert(n1 * d2 * d3 > n2 * d1 * d3) by (nonlinear_arith)
        requires
            n1 * d2 > n2 * d1,
            d3 > 0,
    ;
    assert(n2 * d3 * d1 >= n3 * d2 * d1) by (nonlinear_arith)
        requires
            n2 * d3 >= n3 * d2,
            d1 > 0,
    ;
    assert(n1 * d3 * d2 > n3 * d1 * d2) by (nonlinear_arith)
        requires
            n1 * d2 * d3 > n2 * d1 * d3,
            n2 * d3 * d1 >= n3 * d2 * d1,
    ;
    assert(n1 * d3 > n3 * d1) by (nonlinear_arith)
        requires
            n1 * d3 * d2 > n3 * d1 * d2,
            d2 > 0,
    ;
}

proof fn lemma_product_fits(x: int, y: int)
    requires
        0 <= x <= 0xffff_ffff_ffff_ffff,
        0 <= y <= 0xffff_ffff_ffff_ffff,
    ensures
        x * y <= 0xffff_ffff_ffff_ffff_ffff_ffff_ffff_ffff,
{
    assert(x * y <= 0xffff_ffff_ffff_ffff * 0xffff_ffff_ffff_ffff) by (nonlinear_arith)
        requires
            0 <= x <= 0xffff_ffff_ffff_ffff,
            0 <= y <= 0xffff_ffff_ffff_ffff,
    ;
}

/// Whether `a` ranks before `b`.
fn precedes(a: &Bucket, b: &Bucket, by_count: bool) -> (r: bool)
    ensures
        r == bucket_before(*a, *b, by_count),
{
    let an: u128 = if by_count { a.count as u128 } else { a.wins as u128 };
    let ad: u128 = if by_count { 1 } else { a.count as u128 };
    let bn: u128 = if by_count { b.count as u128 } else { b.wins as u128 };
    let bd: u128 = if by_count { 1 } else { b.count as u128 };
    proof {
        lemma_product_fits(an as int, bd as int);
        lemma_product_fits(bn as int, ad as int);
    }
    let l = an * bd;
    let r = bn * ad;
    l > r || (l == r && a.first < b.first)
}

/// The buckets of `b` in ranking order.
pub fn rank(b: &Vec<Bucket>, by_count: bool) -> (r: Vec<Bucket>)
    requires
        forall|j: int| 0 <= j < b.len() ==> (#[trigger] b@[j]).count > 0,
        distinct_keys(b@),
        forall|j1: int, j2: int| 0 <= j1 < j2 < b.len() ==> b@[j1].first < b@[j2].first,
    ensures
        r.len() == b.len(),
        forall|m: int| 0 <= m < r.len() ==> #[trigger] member(b@, r@[m]),
        forall|j: int| 0 <= j < b.len() ==> #[trigger] member(r@, b@[j]),
        distinct_keys(r@),
        in_rank_order(r@, by_count),
{
    let mut r: Vec<Bucket> = Vec::new();
    let ghost mut src: Seq<int> = Seq::empty();
    let ghost mut dst: Seq<int> = Seq::empty();
    let mut k: usize = 0;
    while k < b.len()
        invariant
            k <= b.len(),
            forall|j: int| 0 <= j < b.len() ==> (#[trigger] b@[j]).count > 0,
            distinct_keys(b@),
            forall|j1: int, j2: int| 0 <= j1 < j2 < b.len() ==> b@[j1].first < b@[j2].first,
            r.len() == k,
            src.len() == k,
            dst.len() == k,
            forall|m: int| 0 <= m < k ==> 0 <= #[trigger] src[m] < k && r@[m] == b@[src[m]],
            forall|j: int| 0 <= j < k ==> 0 <= #[trigger] dst[j] < k && r@[dst[j]] == b@[j],
            in_rank_order(r@, by_count),
            distinct_keys(r@),
        decreases b.len() - k,
    {
        let g = clone_bucket(&b[k]);
        let mut p: usize = 0;
        while p < r.len() && !precedes(&g, &r[p], by_count)
            invariant
                p <= r.len(),
                g == b@[k as int],
                k < b.len(),
                forall|j: int| 0 <= j < b.len() ==> (#[trigger] b@[j]).count > 0,
                forall|j1: int, j2: int| 0 <= j1 < j2 < b.len() ==> b@[j1].first < b@[j2].first,
                r.len() == k,
                src.len() == k,
                forall|m: int| 0 <= m < k ==> 0 <= #[trigger] src[m] < k && r@[m] == b@[src[m]],
                forall|q: int| 0 <= q < p ==> bucket_before(#[trigger] r@[q], g, by_count),
            decreases r.len() - p,
        {
            proof {
                assert(r@[p as int] == b@[src[p as int]]);
            }
            p = p + 1;
        }
        proof {
            assert forall|q: int| p <= q < r.len() implies bucket_before(
                g,
                #[trigger] r@[q],
                by_count,
            ) by {
                let rp = r@[p as int];
                let rq = r@[q];
                assert(rp == b@[src[p as int]]);
                assert(rq == b@[src[q]]);
                assert(rp.first < g.first);
                if q > p {
                    assert(bucket_before(rp, rq, by_count));
                    lemma_score_trans(
                        bucket_num(g, by_count),
                        bucket_den(g, by_count),
                        bucket_num(rp, by_count),
                        bucket_den(rp, by_count),
                        bucket_num(rq, by_count),
                        bucket_den(rq, by_count),
                    );
                }
            }
        }
        let ghost before = r@;
        r.insert(p, g);
        proof {
            let pi = p as int;
            assert(r@ == before.insert(pi, b@[k as int]));
            src = src.insert(pi, k as int);
            dst = Seq::new(k as nat, |j: int| if dst[j] >= pi { dst[j] + 1 } else { dst[j] }).push(
                pi,
            );
            assert forall|m: int| 0 <= m < k + 1 implies 0 <= #[trigger] src[m] < k + 1 && r@[m]
                == b@[src[m]] by {
                if m < pi {
                    assert(r@[m] == before[m]);
                } else if m > pi {
                    assert(r@[m] == before[m - 1]);
                }
            }
            assert forall|j: int| 0 <= j < k + 1 implies 0 <= #[trigger] dst[j] < k + 1 && r@[dst[j]]
                == b@[j] by {
                if j < k {
                    let old_m = if dst[j] >= pi { dst[j] - 1 } else { dst[j] };
                    assert(before[old_m] == b@[j]);
                }
            }
            assert forall|j1: int, j2: int|
                0 <= j1 < r.len() && 0 <= j2 < r.len() && j1 != j2 implies r@[j1].key@
                != r@[j2].key@ by {
                if j1 != pi && j2 != pi {
                    let o1 = if j1 < pi { j1 } else { j1 - 1 };
                    let o2 = if j2 < pi { j2 } else { j2 - 1 };
                    assert(r@[j1] == before[o1] && r@[j2] == before[o2]);
                } else {
                    let o = if j1 == pi { j2 } else { j1 };
                    let oo = if o < pi { o } else { o - 1 };
                    assert(r@[o] == before[oo]);
                    assert(before[oo] == b@[src[o]]);
                }
            }
            assert forall|a: int, c: int| 0 <= a < c < r.len() implies bucket_before(
                r@[a],
                r@[c],
                by_count,
            ) by {
                if c < pi {
                    assert(r@[a] == before[a] && r@[c] == before[c]);
                } else if c == pi {
                    assert(r@[a] == before[a]);
                } else if a < pi {
                    assert(r@[a] == before[a] && r@[c] == before[c - 1]);
                } else if a == pi {
                    assert(r@[c] == before[c - 1]);
                } else {
                    assert(r@[a] == before[a - 1] && r@[c] == before[c - 1]);
                }
            }
        }
        k = k + 1;
    }
    proof {
        assert forall|m: int| 0 <= m < r.len() implies #[trigger] member(b@, r@[m]) by {
            assert(r@[m] == b@[src[m]]);
        }
        assert forall|j: int| 0 <= j < b.len() implies #[trigger] member(r@, b@[j]) by {
            assert(r@[dst[j]] == b@[j]);
        }
    }
    r
}

/// A finished group: its key, size, wins, P&L total and average.
pub struct Group {
    pub key: String,
    pub count: usize,
    pub wins: usize,
    pub total: Amount,
    pub average: Amount,
}

/// The group of key `k` has a representable total and average.
pub open spec fn group_ok(e: Seq<Entry>, k: Seq<char>) -> bool {
    key_total(e, k) matches Some(t) && average_of(t, key_count(e, k)) is Some
}

/// `g` holds the statistics of its key over `e`.
pub open spec fn group_matches(e: Seq<Entry>, g: Group) -> bool {
    &&& g.count == key_count(e, g.key@)
    &&& g.wins == key_wins(e, g.key@)
    &&& key_total(e, g.key@) == Some(g.total)
    &&& average_of(g.total, g.count as nat) == Some(g.average)
}

pub open spec fn group_keys(v: Seq<Group>) -> Seq<Seq<char>> {
    v.map_values(|g: Group| g.key@)
}

/// Occurrences of `x` in `keys`.
pub open spec fn occurrences(keys: Seq<Seq<char>>, x: Seq<char>) -> nat
    decreases keys.len(),
{
    if keys.len() == 0 {
        0
    } else {
        occurrences(keys.drop_last(), x) + if keys.last() == x { 1nat } else { 0nat }
    }
}

proof fn lemma_count_sum_step(e: Seq<Entry>, keys: Seq<Seq<char>>)
    requires
        e.len() > 0,
    ensures
        count_sum(e, keys) == count_sum(e.drop_last(), keys) + occurrences(keys, e.last().0@),
    decreases keys.len(),
{
    if keys.len() > 0 {
        lemma_count_sum_step(e, keys.drop_last());
    }
}

proof fn lemma_occurrences_absent(keys: Seq<Seq<char>>, x: Seq<char>)
    requires
        forall|j: int| 0 <= j < keys.len() ==> keys[j] != x,
    ensures
        occurrences(keys, x) == 0,
    decreases keys.len(),
{
    if keys.len() > 0 {
        let d = keys.drop_last();
        assert(forall|j: int| 0 <= j < d.len() ==> d[j] == keys[j]);
        lemma_occurrences_absent(d, x);
        assert(keys[keys.len() - 1] == keys.last());
    }
}

proof fn lemma_occurrences_once(keys: Seq<Seq<char>>, x: Seq<char>, at: int)
    requires
        0 <= at < keys.len(),
        keys[at] == x,
        forall|j1: int, j2: int|
            0 <= j1 < keys.len() && 0 <= j2 < keys.len() && j1 != j2 ==> keys[j1] != keys[j2],
    ensures
        occurrences(keys, x) == 1,
    decreases keys.len(),
{
    let d = keys.drop_last();
    assert(forall|j: int| 0 <= j < d.len() ==> d[j] == keys[j]);
    if at == keys.len() - 1 {
        lemma_occurrences_absent(d, x);
    } else {
        lemma_occurrences_once(d, x, at);
        assert(keys[keys.len() - 1] == keys.last());
    }
}

/// When `keys` lists each key of `e` once, the group sizes add up to the
/// number of entries.
pub proof fn lemma_cover_count_sum(e: Seq<Entry>, keys: Seq<Seq<char>>)
    requires
        forall|j1: int, j2: int|
            0 <= j1 < keys.len() && 0 <= j2 < keys.len() && j1 != j2 ==> keys[j1] != keys[j2],
        keys_cover(e, keys),
    ensures
        count_sum(e, keys) == e.len(),
    decreases e.len(),
{
    if e.len() == 0 {
        lemma_count_sum_zero(e, keys);
    } else {
        let d = e.drop_last();
        assert forall|q: int| 0 <= q < d.len() implies #[trigger] key_listed(keys, d[q].0@) by {
            assert(d[q] == e[q]);
        }
        lemma_cover_count_sum(d, keys);
        lemma_count_sum_step(e, keys);
        assert(e[e.len() - 1] == e.last());
        assert(key_listed(keys, e[e.len() - 1].0@));
        let j = choose|j: int| 0 <= j < keys.len() && keys[j] == e[e.len() - 1].0@;
        lemma_occurrences_once(keys, e.last().0@, j);
    }
}

proof fn lemma_count_sum_zero(e: Seq<Entry>, keys: Seq<Seq<char>>)
    requires
        e.len() == 0,
    ensures
        count_sum(e, keys) == 0,
    decreases keys.len(),
{
    if keys.len() > 0 {
        lemma_count_sum_zero(e, keys.drop_last());
    }
}

/// The groups of `entries`, in ranking order; an error where a group's total
/// or average overflows.
pub fn summarize(entries: &Vec<Entry>, by_count: bool) -> (r: Result<Vec<Group>, AppError>)
    requires
        entries_wf(entries@),
    ensures
        match r {
            Ok(v) => {
                &&& is_key_cover(entries@, group_keys(v@))
                &&& is_ranked(entries@, group_keys(v@), by_count)
                &&& forall|j: int| 0 <= j < v.len() ==> group_matches(entries@, #[trigger] v@[j])
                &&& count_sum(entries@, group_keys(v@)) == entries@.len()
            },
            Err(err) => {
                &&& err matches AppError::InternalServerError(m) && m@ == overflow_message()
                &&& exists|k: Seq<char>| key_count(entries@, k) > 0 && !group_ok(entries@, k)
            },
        },
{
    let e = Ghost(entries@);
    let b = aggregate(entries);
    let ranked = rank(&b, by_count);
    let mut v: Vec<Group> = Vec::new();
    let mut m: usize = 0;
    while m < ranked.len()
        invariant
            m <= ranked.len(),
            v.len() == m,
            forall|x: int| 0 <= x < ranked.len() ==> #[trigger] member(b@, ranked@[x]),
            forall|j: int| 0 <= j < b.len() ==> bucket_matches(e@, #[trigger] b@[j]),
            forall|x: int| 0 <= x < m ==> (#[trigger] v@[x]).key@ == ranked@[x].key@,
            forall|x: int| 0 <= x < m ==> group_matches(e@, #[trigger] v@[x]),
            e@ == entries@,
        decreases ranked.len() - m,
    {
        let bucket = &ranked[m];
        proof {
            assert(member(b@, ranked@[m as int]));
        }
        let ghost j = choose|j: int| 0 <= j < b.len() && b@[j] == ranked@[m as int];
        proof {
            assert(bucket_matches(e@, b@[j]));
        }
        let total = match bucket.total {
            Some(t) => t,
            None => {
                proof {
                    assert(key_count(entries@, bucket.key@) > 0 && !group_ok(entries@, bucket.key@));
                }
                return Err(AppError::overflow());
            },
        };
        let avg = match average(&total, bucket.count) {
            Some(a) => a,
            None => {
                proof {
                    assert(key_count(entries@, bucket.key@) > 0 && !group_ok(entries@, bucket.key@));
                }
                return Err(AppError::overflow());
            },
        };
        v.push(
            Group {
                key: clone_key(&bucket.key),
                count: bucket.count,
                wins: bucket.wins,
                total,
                average: avg,
            },
        );
        m = m + 1;
    }
    proof {
        let keys = group_keys(v@);
        assert forall|x: int| 0 <= x < v.len() implies keys[x] == ranked@[x].key@ by {}
        assert forall|x: int| 0 <= x < keys.len() implies key_count(entries@, #[trigger] keys[x])
            > 0 by {
            assert(member(b@, ranked@[x]));
            let j = choose|j: int| 0 <= j < b.len() && b@[j] == ranked@[x];
            assert(bucket_matches(e@, b@[j]));
        }
        assert forall|q: int| 0 <= q < entries@.len() implies #[trigger] key_listed(
            keys,
            entries@[q].0@,
        ) by {
            assert(bucket_for(b@, entries@[q].0@));
            let j = choose|j: int| 0 <= j < b.len() && (#[trigger] b@[j]).key@ == entries@[q].0@;
            assert(member(ranked@, b@[j]));
            let x = choose|x: int| 0 <= x < ranked.len() && ranked@[x] == b@[j];
            assert(keys[x] == entries@[q].0@);
        }
        assert forall|p: int, q: int| 0 <= p < q < keys.len() implies ranks_before(
            entries@,
            keys[p],
            keys[q],
            by_count,
        ) by {
            assert(bucket_before(ranked@[p], ranked@[q], by_count));
            assert(member(b@, ranked@[p]));
            assert(member(b@, ranked@[q]));
            let jp = choose|j: int| 0 <= j < b.len() && b@[j] == ranked@[p];
            let jq = choose|j: int| 0 <= j < b.len() && b@[j] == ranked@[q];
            assert(bucket_matches(e@, b@[jp]));
            assert(bucket_matches(e@, b@[jq]));
        }
        lemma_cover_count_sum(entries@, keys);
    }
    Ok(v)
}

} // verus!
