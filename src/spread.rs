use vstd::prelude::*;
use crate::geometry::{lemma_dist2_bounds, unbounded};
use crate::planet::{Planet, planet_dist2};
use crate::starmap::{MapError, Starmap2D};

verus! {

/// The smaller of two integers.
pub open spec fn min_of(a: int, b: int) -> int {
    if a <= b {
        a
    } else {
        b
    }
}

/// The smallest squared distance from body `e` to the bodies `s` names
/// (`unbounded()` when `s` is empty).
pub open spec fn sep_to(pts: Seq<Planet>, s: Seq<usize>, e: usize) -> int
    decreases s.len(),
{
    if s.len() == 0 {
        unbounded()
    } else {
        min_of(sep_to(pts, s.drop_last(), e), planet_dist2(pts[s.last() as int], pts[e as int]))
    }
}

/// The smallest squared distance between two of the bodies `s` names
/// (`unbounded()` when `s` names fewer than two).
pub open spec fn sep(pts: Seq<Planet>, s: Seq<usize>) -> int
    decreases s.len(),
{
    if s.len() == 0 {
        unbounded()
    } else {
        min_of(sep(pts, s.drop_last()), sep_to(pts, s.drop_last(), s.last()))
    }
}

/// `t` extends `c` by `left` ids, strictly increasing, each in `start..n`.
pub open spec fn is_completion(n: int, c: Seq<usize>, start: int, left: int, t: Seq<usize>) -> bool {
    &&& t.len() == c.len() + left
    &&& t.subrange(0, c.len() as int) == c
    &&& forall|i: int| c.len() <= i < t.len() ==> start <= #[trigger] t[i] < n
    &&& forall|i: int, j: int| c.len() <= i < j < t.len() ==> #[trigger] t[i] < #[trigger] t[j]
}

/// `t` lists `k` distinct ids of a map of `n` bodies, in increasing order.
pub open spec fn is_k_subset(n: int, k: int, t: Seq<usize>) -> bool {
    is_completion(n, Seq::empty(), 0, k, t)
}

/// The best completion of `c` by `left` ids from `start..`: the one whose smallest
/// pairwise distance is largest; on a tie, the one that takes `start`, so that lower
/// ids win.
pub open spec fn spread(pts: Seq<Planet>, c: Seq<usize>, start: int, left: int) -> Option<
    Seq<usize>,
>
    decreases pts.len() - start,
{
    if left <= 0 {
        Some(c)
    } else if start < 0 || start + left > pts.len() {
        None
    } else {
        let a = spread(pts, c.push(start as usize), start + 1, left - 1);
        let b = spread(pts, c, start + 1, left);
        if a is Some && (b is None || sep(pts, a->0) >= sep(pts, b->0)) {
            a
        } else {
            b
        }
    }
}

/// `sep_to` lies between zero and `unbounded()`.
pub proof fn lemma_sep_to_bounds(pts: Seq<Planet>, s: Seq<usize>, e: usize)
    ensures
        0 <= sep_to(pts, s, e) <= unbounded(),
    decreases s.len(),
{
    if s.len() > 0 {
        lemma_sep_to_bounds(pts, s.drop_last(), e);
        let p = pts[s.last() as int];
        let q = pts[e as int];
        lemma_dist2_bounds(p.x, p.y, q.x, q.y);
    }
}

/// `sep` lies between zero and `unbounded()`.
pub proof fn lemma_sep_bounds(pts: Seq<Planet>, s: Seq<usize>)
    ensures
        0 <= sep(pts, s) <= unbounded(),
    decreases s.len(),
{
    if s.len() > 0 {
        lemma_sep_bounds(pts, s.drop_last());
        lemma_sep_to_bounds(pts, s.drop_last(), s.last());
    }
}

/// `sep` is a lower bound of the distance between any two of the bodies named.
pub proof fn lemma_sep_le_pair(pts: Seq<Planet>, s: Seq<usize>, i: int, j: int)
    requires
        0 <= i < j < s.len(),
    ensures
        sep(pts, s) <= planet_dist2(pts[s[i] as int], pts[s[j] as int]),
    decreases s.len(),
{
    let init = s.drop_last();
    if j < s.len() - 1 {
        lemma_sep_le_pair(pts, init, i, j);
    } else {
        lemma_sep_to_le(pts, init, s.last(), i);
    }
}

/// `sep` is the distance between two of the bodies named, when there are two.
pub proof fn lemma_sep_attained(pts: Seq<Planet>, s: Seq<usize>)
    requires
        s.len() >= 2,
    ensures
        exists|i: int, j: int|
            0 <= i < j < s.len() && sep(pts, s) == planet_dist2(pts[s[i] as int], pts[s[j] as int]),
    decreases s.len(),
{
    let init = s.drop_last();
    let e = s.last();
    let j = s.len() - 1;
    lemma_sep_to_attained(pts, init, e);
    let i = choose|i: int|
        0 <= i < init.len() && sep_to(pts, init, e) == planet_dist2(pts[init[i] as int], pts[e as int]);
    assert(init[i] == s[i] && e == s[j]);
    if init.len() == 1 {
        assert(init.drop_last().len() == 0);
        assert(sep(pts, init.drop_last()) == unbounded());
        assert(sep_to(pts, init.drop_last(), init.last()) == unbounded());
        assert(sep(pts, init) == unbounded());
        lemma_sep_to_bounds(pts, init, e);
        assert(sep(pts, s) == planet_dist2(pts[s[i] as int], pts[s[j] as int]));
    } else {
        lemma_sep_attained(pts, init);
        if sep(pts, s) == sep(pts, init) {
            let (a, b) = choose|a: int, b: int|
                0 <= a < b < init.len() && sep(pts, init) == planet_dist2(
                    pts[init[a] as int],
                    pts[init[b] as int],
                );
            assert(init[a] == s[a] && init[b] == s[b]);
        } else {
            assert(sep(pts, s) == planet_dist2(pts[s[i] as int], pts[s[j] as int]));
        }
    }
}

proof fn lemma_sep_to_attained(pts: Seq<Planet>, s: Seq<usize>, e: usize)
    requires
        s.len() >= 1,
    ensures
        exists|i: int|
            0 <= i < s.len() && sep_to(pts, s, e) == planet_dist2(pts[s[i] as int], pts[e as int]),
    decreases s.len(),
{
    let init = s.drop_last();
    let k = s.len() - 1;
    let p = pts[s.last() as int];
    let q = pts[e as int];
    lemma_dist2_bounds(p.x, p.y, q.x, q.y);
    if init.len() == 0 {
        assert(sep_to(pts, s, e) == planet_dist2(pts[s[k] as int], pts[e as int]));
    } else {
        lemma_sep_to_attained(pts, init, e);
        let i = choose|i: int|
            0 <= i < init.len() && sep_to(pts, init, e) == planet_dist2(pts[init[i] as int], q);
        assert(init[i] == s[i]);
        if sep_to(pts, s, e) != sep_to(pts, init, e) {
            assert(sep_to(pts, s, e) == planet_dist2(pts[s[k] as int], pts[e as int]));
        }
    }
}

proof fn lemma_sep_to_le(pts: Seq<Planet>, s: Seq<usize>, e: usize, i: int)
    requires
        0 <= i < s.len(),
    ensures
        sep_to(pts, s, e) <= planet_dist2(pts[s[i] as int], pts[e as int]),
    decreases s.len(),
{
    if i < s.len() - 1 {
        lemma_sep_to_le(pts, s.drop_last(), e, i);
    }
}

/// Whatever `spread` picks is itself a completion.
pub proof fn lemma_spread_is_completion(pts: Seq<Planet>, c: Seq<usize>, start: int, left: int)
    requires
        left >= 0,
        start >= 0,
        pts.len() <= usize::MAX,
        spread(pts, c, start, left) is Some,
    ensures
        is_completion(pts.len() as int, c, start, left, spread(pts, c, start, left)->0),
    decreases pts.len() - start,
{
    let n = pts.len() as int;
    if left == 0 {
        assert(c.subrange(0, c.len() as int) == c);
    } else {
        let cs = c.push(start as usize);
        let a = spread(pts, cs, start + 1, left - 1);
        let b = spread(pts, c, start + 1, left);
        let r = spread(pts, c, start, left)->0;
        if r == a->0 && a is Some {
            lemma_spread_is_completion(pts, cs, start + 1, left - 1);
            assert(r.subrange(0, cs.len() as int) == cs);
            assert(r.subrange(0, c.len() as int) == cs.subrange(0, c.len() as int));
            assert(cs.subrange(0, c.len() as int) == c);
            assert(r[c.len() as int] == cs[c.len() as int]);
            assert(r[c.len() as int] == start);
            assert forall|i: int, j: int| c.len() <= i < j < r.len() implies #[trigger] r[i]
                < #[trigger] r[j] by {
                if i == c.len() {
                    assert(start + 1 <= r[j]);
                }
            }
        } else {
            lemma_spread_is_completion(pts, c, start + 1, left);
        }
    }
}

/// No completion does better than the one `spread` picks.
pub proof fn lemma_spread_best(
    pts: Seq<Planet>,
    c: Seq<usize>,
    start: int,
    left: int,
    t: Seq<usize>,
)
    requires
        left >= 0,
        start >= 0,
        is_completion(pts.len() as int, c, start, left, t),
    ensures
        spread(pts, c, start, left) is Some,
        sep(pts, t) <= sep(pts, spread(pts, c, start, left)->0),
    decreases pts.len() - start,
{
    let n = pts.len() as int;
    if left == 0 {
        assert(t == t.subrange(0, c.len() as int));
    } else {
        let m = c.len() as int;
        let cs = c.push(start as usize);
        assert(start <= t[m] < n);
        if t[m] == start {
            assert(t.subrange(0, m + 1) == cs) by {
                assert(t.subrange(0, m + 1).subrange(0, m) == t.subrange(0, m));
            }
            assert forall|i: int| m + 1 <= i < t.len() implies start + 1 <= #[trigger] t[i] < n by {
                assert(t[m] < t[i]);
            }
            lemma_spread_best(pts, cs, start + 1, left - 1, t);
        } else {
            assert forall|i: int| m <= i < t.len() implies start + 1 <= #[trigger] t[i] < n by {
                if i > m {
                    assert(t[m] < t[i]);
                }
            }
            lemma_spread_best(pts, c, start + 1, left, t);
        }
    }
}

/// With one body to pick and nothing to spread, the lowest id is picked.
pub proof fn lemma_spread_single(pts: Seq<Planet>)
    requires
        pts.len() >= 1,
    ensures
        spread(pts, Seq::empty(), 0, 1) == Some(seq![0usize]),
{
    let e = Seq::<usize>::empty();
    let one = e.push(0usize);
    assert(one == seq![0usize]);
    assert(one.drop_last() == e);
    assert(sep(pts, e) == unbounded());
    assert(sep_to(pts, e, 0usize) == unbounded());
    assert(sep(pts, one) == unbounded());
    assert(spread(pts, one, 1, 0) == Some(one));
    let b = spread(pts, e, 1, 1);
    if b is Some {
        lemma_sep_bounds(pts, b->0);
    }
}

/// Of all sets of `k` bodies, the one `spread` picks has the largest smallest pairwise
/// distance: no other `k`-subset of the map does strictly better.
pub proof fn lemma_spread_optimal(pts: Seq<Planet>, k: int, t: Seq<usize>)
    requires
        pts.len() <= usize::MAX,
        is_k_subset(pts.len() as int, k, t),
    ensures
        spread(pts, Seq::empty(), 0, k) is Some,
        is_k_subset(pts.len() as int, k, spread(pts, Seq::empty(), 0, k)->0),
        sep(pts, t) <= sep(pts, spread(pts, Seq::empty(), 0, k)->0),
{
    lemma_spread_best(pts, Seq::empty(), 0, k, t);
    lemma_spread_is_completion(pts, Seq::empty(), 0, k);
}

/// The smallest squared distance from body `e` to the bodies `chosen` names.
fn gap_to(pts: &Vec<Planet>, chosen: &Vec<usize>, e: usize) -> (r: u128)
    requires
        e < pts.len(),
        forall|i: int| 0 <= i < chosen.len() ==> #[trigger] chosen@[i] < pts.len(),
    ensures
        r as int == sep_to(pts@, chosen@, e),
{
    let mut cur: u128 = u128::MAX;
    let mut k: usize = 0;
    while k < chosen.len()
        invariant
            k <= chosen.len(),
            e < pts.len(),
            forall|i: int| 0 <= i < chosen.len() ==> #[trigger] chosen@[i] < pts.len(),
            cur as int == sep_to(pts@, chosen@.subrange(0, k as int), e),
        decreases chosen.len() - k,
    {
        let d = pts[chosen[k]].distance_squared_to(&pts[e]);
        proof {
            let s = chosen@.subrange(0, k + 1);
            assert(s.drop_last() == chosen@.subrange(0, k as int));
            assert(s.last() == chosen@[k as int]);
        }
        if d < cur {
            cur = d;
        }
        k = k + 1;
    }
    assert(chosen@.subrange(0, chosen.len() as int) == chosen@);
    cur
}

fn copy_ids(v: &Vec<usize>) -> (r: Vec<usize>)
    ensures
        r@ == v@,
{
    let mut r: Vec<usize> = Vec::new();
    let mut k: usize = 0;
    while k < v.len()
        invariant
            k <= v.len(),
            r@ == v@.subrange(0, k as int),
        decreases v.len() - k,
    {
        r.push(v[k]);
        k = k + 1;
        assert(r@ == v@.subrange(0, k as int));
    }
    assert(v@.subrange(0, v.len() as int) == v@);
    r
}

/// Computes `spread` together with the score of its result.
fn search(pts: &Vec<Planet>, chosen: &mut Vec<usize>, score: u128, start: usize, left: usize) -> (r:
    Option<(Vec<usize>, u128)>)
    requires
        score as int == sep(pts@, old(chosen)@),
        forall|i: int| 0 <= i < old(chosen).len() ==> #[trigger] old(chosen)@[i] < pts.len(),
        start <= pts.len(),
    ensures
        final(chosen)@ == old(chosen)@,
        spread(pts@, old(chosen)@, start as int, left as int) is None ==> r is None,
        spread(pts@, old(chosen)@, start as int, left as int) is Some ==> r is Some && r.unwrap().0@
            == spread(pts@, old(chosen)@, start as int, left as int)->0 && r.unwrap().1 as int == sep(
            pts@,
            r.unwrap().0@,
        ),
    decreases pts.len() - start,
{
    if left == 0 {
        let v = copy_ids(chosen);
        return Some((v, score));
    }
    if pts.len() - start < left {
        return None;
    }
    let ghost c = chosen@;
    let g = gap_to(pts, chosen, start);
    let extended: u128 = if g < score {
        g
    } else {
        score
    };
    chosen.push(start);
    assert(chosen@.drop_last() == c);
    let a = search(pts, chosen, extended, start + 1, left - 1);
    chosen.pop();
    assert(chosen@ == c);
    let b = search(pts, chosen, score, start + 1, left);
    match a {
        Some(x) => match b {
            Some(y) => if x.1 >= y.1 {
                Some(x)
            } else {
                Some(y)
            },
            None => Some(x),
        },
        None => b,
    }
}

impl Starmap2D {
    /// Picks `k` distinct bodies, listed by increasing id, whose smallest pairwise distance
    /// is as large as any `k` bodies of the map allow; among equally good choices the one
    /// that takes lower ids wins. For `k == 1` that is body `0`.
    pub fn select_spread(&self, k: usize) -> (r: Result<Vec<usize>, MapError>)
        ensures
            self.is_destroyed() ==> r == Err::<Vec<usize>, MapError>(MapError::AlreadyDestroyed),
            !self.is_destroyed() && k > self.planets().len() ==> r == Err::<Vec<usize>, MapError>(
                MapError::NotFound,
            ),
            !self.is_destroyed() && k <= self.planets().len() ==> {
                &&& r is Ok
                &&& r->Ok_0@ == spread(self.planets(), Seq::empty(), 0, k as int)->0
                &&& is_k_subset(self.planets().len() as int, k as int, r->Ok_0@)
                &&& forall|t: Seq<usize>|
                    is_k_subset(self.planets().len() as int, k as int, t) ==> sep(self.planets(), t)
                        <= sep(self.planets(), r->Ok_0@)
            },
            !self.is_destroyed() && k == 1 && self.planets().len() >= 1 ==> r == Ok::<
                Vec<usize>,
                MapError,
            >(r->Ok_0) && r->Ok_0@ == seq![0usize],
    {
        if self.destroyed() {
            return Err(MapError::AlreadyDestroyed);
        }
        let pts = self.get_planets();
        if k > pts.len() {
            return Err(MapError::NotFound);
        }
        let ghost n = pts.len() as int;
        let ghost first = Seq::new(k as nat, |i: int| i as usize);
        assert(first.subrange(0, 0) == Seq::<usize>::empty());
        assert(is_k_subset(n, k as int, first));
        proof {
            lemma_spread_optimal(pts@, k as int, first);
        }
        let mut chosen: Vec<usize> = Vec::new();
        let found = search(pts, &mut chosen, u128::MAX, 0, k);
        let picked = found.unwrap().0;
        assert forall|t: Seq<usize>| is_k_subset(n, k as int, t) implies sep(pts@, t) <= sep(
            pts@,
            picked@,
        ) by {
            lemma_spread_optimal(pts@, k as int, t);
        }
        proof {
            if k == 1 {
                lemma_spread_single(pts@);
            }
        }
        Ok(picked)
    }
}

} // verus!
