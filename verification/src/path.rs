//! Finding the way: breadth-first search over the cells that can be walked on.
//!
//! A walk is a word of directions. The search gives the first walk to the goal
//! in the order that puts shorter walks first and compares walks of the same
//! length direction by direction.

use std::collections::VecDeque;
use vstd::prelude::*;
use crate::sim::{chebyshev, chebyshev_of, lemma_cell, Sim, SimV};

verus! {

/// Where a walk is to end: on a cell, or on one of the eight around it.
#[derive(Clone, Copy, Debug)]
pub enum GoalKind {
    Step((i32, i32)),
    Adjacent((i32, i32)),
}

/// The step of a direction: the four along the axes, then the four diagonal ones.
pub open spec fn dir(d: int) -> (int, int) {
    if d == 0 {
        (1, 0)
    } else if d == 1 {
        (-1, 0)
    } else if d == 2 {
        (0, 1)
    } else if d == 3 {
        (0, -1)
    } else if d == 4 {
        (1, 1)
    } else if d == 5 {
        (1, -1)
    } else if d == 6 {
        (-1, 1)
    } else {
        (-1, -1)
    }
}

fn direction(d: usize) -> (r: (i32, i32))
    requires
        d < 8,
    ensures
        r.0 == dir(d as int).0,
        r.1 == dir(d as int).1,
        -1 <= r.0 <= 1,
        -1 <= r.1 <= 1,
{
    if d == 0 {
        (1, 0)
    } else if d == 1 {
        (-1, 0)
    } else if d == 2 {
        (0, 1)
    } else if d == 3 {
        (0, -1)
    } else if d == 4 {
        (1, 1)
    } else if d == 5 {
        (1, -1)
    } else if d == 6 {
        (-1, 1)
    } else {
        (-1, -1)
    }
}

/// The cell one step further in a direction.
pub open spec fn moved(p: (i32, i32), d: int) -> (i32, i32) {
    ((p.0 + dir(d).0) as i32, (p.1 + dir(d).1) as i32)
}

/// Whether of two walks of the same length the first one comes first: at the first
/// place where they differ it takes the earlier direction.
pub open spec fn word_before(a: Seq<int>, b: Seq<int>) -> bool
    decreases a.len(),
{
    a.len() > 0 && b.len() > 0 && (word_before(a.drop_last(), b.drop_last()) || (a.drop_last()
        == b.drop_last() && a.last() < b.last()))
}

/// Whether a walk comes before another: it is shorter, or of the same length and
/// earlier in its directions.
pub open spec fn before(a: Seq<int>, b: Seq<int>) -> bool {
    a.len() < b.len() || (a.len() == b.len() && word_before(a, b))
}

proof fn lemma_word_irreflexive(a: Seq<int>)
    ensures
        !word_before(a, a),
    decreases a.len(),
{
    if a.len() > 0 {
        lemma_word_irreflexive(a.drop_last());
    }
}

proof fn lemma_word_transitive(a: Seq<int>, b: Seq<int>, c: Seq<int>)
    requires
        word_before(a, b),
        word_before(b, c),
    ensures
        word_before(a, c),
    decreases a.len(),
{
    let (x, y, z) = (a.drop_last(), b.drop_last(), c.drop_last());
    if word_before(x, y) && word_before(y, z) {
        lemma_word_transitive(x, y, z);
    }
}

proof fn lemma_word_total(a: Seq<int>, b: Seq<int>)
    requires
        a.len() == b.len(),
    ensures
        a == b || word_before(a, b) || word_before(b, a),
    decreases a.len(),
{
    if a.len() > 0 {
        lemma_word_total(a.drop_last(), b.drop_last());
        if a.drop_last() == b.drop_last() && a.last() == b.last() {
            assert(a =~= a.drop_last().push(a.last()));
            assert(b =~= b.drop_last().push(b.last()));
        }
    } else {
        assert(a =~= b);
    }
}

proof fn lemma_before_irreflexive(a: Seq<int>)
    ensures
        !before(a, a),
{
    lemma_word_irreflexive(a);
}

proof fn lemma_before_transitive(a: Seq<int>, b: Seq<int>, c: Seq<int>)
    requires
        before(a, b),
        before(b, c),
    ensures
        before(a, c),
{
    if a.len() == b.len() && b.len() == c.len() {
        lemma_word_transitive(a, b, c);
    }
}

proof fn lemma_before_total(a: Seq<int>, b: Seq<int>)
    ensures
        a == b || before(a, b) || before(b, a),
{
    if a.len() == b.len() {
        lemma_word_total(a, b);
    }
}

/// One more step at the end: the order of the longer walks is that of the shorter
/// ones, and among walks that are the same but for the last step, that of the steps.
proof fn lemma_before_push(a: Seq<int>, x: int, b: Seq<int>, y: int)
    ensures
        before(a.push(x), b.push(y)) == (before(a, b) || (a == b && x < y)),
{
    assert(a.push(x).drop_last() =~= a);
    assert(b.push(y).drop_last() =~= b);
    if a == b {
        lemma_word_irreflexive(a);
    }
}

/// A trip through a world: where it starts, where it is to end, and the player
/// that does not stand in its own way.
pub struct Trip {
    pub s: SimV,
    pub from: (i32, i32),
    pub goal: GoalKind,
    pub ignore_pid: i32,
}

impl Trip {
    /// Whether a cell is where the trip is to end.
    pub open spec fn reached(self, p: (i32, i32)) -> bool {
        match self.goal {
            GoalKind::Step(t) => p == t,
            GoalKind::Adjacent(t) => chebyshev_of(p, t) == 1,
        }
    }

    /// Whether a step can be taken: onto a cell that can be walked on and is not
    /// the one to stop beside; a diagonal step only where both cells beside it are open.
    pub open spec fn step(self, p: (i32, i32), d: int) -> bool {
        let n = moved(p, d);
        &&& 0 <= d < 8
        &&& !(self.goal matches GoalKind::Adjacent(t) && n == t)
        &&& self.s.open_to(n.0, n.1, self.ignore_pid)
        &&& d >= 4 ==> self.s.open_to(n.0, p.1, self.ignore_pid) && self.s.open_to(
            p.0,
            n.1,
            self.ignore_pid,
        )
    }

    /// Where a walk ends.
    pub open spec fn end(self, walk: Seq<int>) -> (i32, i32)
        decreases walk.len(),
    {
        if walk.len() == 0 {
            self.from
        } else {
            moved(self.end(walk.drop_last()), walk.last())
        }
    }

    /// Whether every step of a walk can be taken.
    pub open spec fn legal(self, walk: Seq<int>) -> bool
        decreases walk.len(),
    {
        walk.len() == 0 || (self.legal(walk.drop_last()) && self.step(
            self.end(walk.drop_last()),
            walk.last(),
        ))
    }

    /// Whether a walk can be taken and ends where the trip is to end.
    pub open spec fn arrives(self, walk: Seq<int>) -> bool {
        self.legal(walk) && self.reached(self.end(walk))
    }

    /// Whether a walk arrives and no other that arrives comes before it.
    pub open spec fn is_best(self, walk: Seq<int>) -> bool {
        self.arrives(walk) && forall|v: Seq<int>| #[trigger]
            self.arrives(v) ==> !before(v, walk)
    }

    /// The walk that arrives and comes first, if any arrives.
    pub open spec fn best_walk(self) -> Option<Seq<int>> {
        if exists|w: Seq<int>| self.is_best(w) {
            Some(choose|w: Seq<int>| self.is_best(w))
        } else {
            None
        }
    }

    /// The cells that a walk steps on, without the one where it starts.
    pub open spec fn cells(self, walk: Seq<int>) -> Seq<(i32, i32)> {
        Seq::new(walk.len(), |k: int| self.end(walk.take(k + 1)))
    }

    /// The cells of the best walk.
    pub open spec fn route(self) -> Option<Seq<(i32, i32)>> {
        match self.best_walk() {
            Some(w) => Some(self.cells(w)),
            None => None,
        }
    }
}

proof fn lemma_best_unique(t: Trip, a: Seq<int>, b: Seq<int>)
    requires
        t.is_best(a),
        t.is_best(b),
    ensures
        a == b,
{
    lemma_before_total(a, b);
    assert(t.arrives(a) && t.arrives(b));
}

proof fn lemma_best_walk(t: Trip, w: Seq<int>)
    requires
        t.is_best(w),
    ensures
        t.best_walk() == Some(w),
{
    let c = choose|v: Seq<int>| t.is_best(v);
    lemma_best_unique(t, w, c);
}

/// No walk that arrives is shorter than the route.
pub proof fn law_route_is_shortest(t: Trip, walk: Seq<int>)
    requires
        t.route() is Some,
        t.arrives(walk),
    ensures
        t.route().unwrap().len() <= walk.len(),
{
    let w = t.best_walk().unwrap();
    assert(t.is_best(w));
    assert(!before(walk, w));
}

/// The route leads from cell to cell by single steps, over cells that can be
/// walked on, to where the trip is to end.
pub proof fn law_route_is_walkable(t: Trip, k: int)
    requires
        t.route() is Some,
        0 <= k < t.route().unwrap().len(),
    ensures
        t.s.open_to(t.route().unwrap()[k].0, t.route().unwrap()[k].1, t.ignore_pid),
        k == 0 ==> exists|d: int| #[trigger] t.step(t.from, d) && t.route().unwrap()[0] == moved(
            t.from,
            d,
        ),
        k > 0 ==> exists|d: int| #[trigger]
            t.step(t.route().unwrap()[k - 1], d) && t.route().unwrap()[k] == moved(
                t.route().unwrap()[k - 1],
                d,
            ),
        k == t.route().unwrap().len() - 1 ==> t.reached(t.route().unwrap()[k]),
{
    let w = t.best_walk().unwrap();
    assert(t.is_best(w));
    lemma_legal_prefix(t, w, k + 1);
    let u = w.take(k + 1);
    assert(u.drop_last() =~= w.take(k));
    assert(t.step(t.end(u.drop_last()), u.last()));
    if k == 0 {
        assert(w.take(0) =~= Seq::<int>::empty());
    } else {
        assert(t.cells(w)[k - 1] == t.end(w.take(k)));
    }
    if k == w.len() - 1 {
        assert(u =~= w);
    }
}

/// A walk as a number: its directions are the digits in base 8, behind a leading 1.
pub open spec fn code(w: Seq<int>) -> int
    decreases w.len(),
{
    if w.len() == 0 {
        1
    } else {
        8 * code(w.drop_last()) + w.last()
    }
}

spec fn eights(n: nat) -> int
    decreases n,
{
    if n == 0 {
        1
    } else {
        8 * eights((n - 1) as nat)
    }
}

proof fn lemma_code_bounds(t: Trip, w: Seq<int>)
    requires
        t.legal(w),
    ensures
        eights(w.len()) <= code(w) < 2 * eights(w.len()),
        eights(w.len()) >= 1,
    decreases w.len(),
{
    if w.len() > 0 {
        lemma_code_bounds(t, w.drop_last());
    }
}

proof fn lemma_eights_rise(a: nat, b: nat)
    requires
        a < b,
    ensures
        8 * eights(a) <= eights(b),
        eights(a) >= 1,
    decreases b,
{
    if a + 1 < b {
        lemma_eights_rise(a, (b - 1) as nat);
    } else if a > 0 {
        lemma_eights_rise((a - 1) as nat, a);
    }
}

proof fn lemma_code_rises(t: Trip, a: Seq<int>, b: Seq<int>)
    requires
        t.legal(a),
        t.legal(b),
        before(a, b),
    ensures
        1 <= code(a) < code(b),
    decreases a.len(),
{
    lemma_code_bounds(t, a);
    lemma_code_bounds(t, b);
    if a.len() < b.len() {
        lemma_eights_rise(a.len(), b.len());
    } else {
        if word_before(a.drop_last(), b.drop_last()) {
            lemma_code_rises(t, a.drop_last(), b.drop_last());
        }
    }
}

/// Where a walk arrives there is a route.
pub proof fn law_route_exists(t: Trip, walk: Seq<int>)
    requires
        t.arrives(walk),
    ensures
        t.route() is Some,
    decreases code(walk),
{
    if t.is_best(walk) {
        lemma_best_walk(t, walk);
    } else {
        let v = choose|v: Seq<int>| #[trigger] t.arrives(v) && before(v, walk);
        lemma_code_rises(t, v, walk);
        law_route_exists(t, v);
    }
}

proof fn lemma_legal_prefix(t: Trip, w: Seq<int>, n: int)
    requires
        t.legal(w),
        0 <= n <= w.len(),
    ensures
        t.legal(w.take(n)),
    decreases w.len(),
{
    if n < w.len() {
        lemma_legal_prefix(t, w.drop_last(), n);
        assert(w.drop_last().take(n) =~= w.take(n));
    } else {
        assert(w.take(n) =~= w);
    }
}

/// The search so far. `order` lists the cells found, in the order in which they were
/// found, `words` the walks by which, `par` the place of the cell before. The
/// cells before place `head` have been searched in all directions, the one at `head`
/// in the directions before `d`.
spec fn explored(
    t: Trip,
    order: Seq<(i32, i32)>,
    words: Seq<Seq<int>>,
    par: Seq<usize>,
    head: int,
    d: int,
) -> bool {
    &&& words.len() == order.len()
    &&& par.len() == order.len()
    &&& 0 <= head <= order.len()
    &&& 0 <= d <= 8
    &&& order.len() >= 1
    &&& words[0] == Seq::<int>::empty()
    &&& forall|k: int| #![trigger words[k]]
        0 <= k < words.len() ==> t.legal(words[k]) && order[k] == t.end(words[k]) && !t.reached(
            order[k],
        )
    &&& forall|k: int| #![trigger par[k]]
        1 <= k < words.len() ==> words[k].len() > 0 && par[k] < k && words[k].drop_last()
            == words[par[k] as int] && (par[k] < head || (par[k] == head && words[k].last() < d))
    &&& forall|j: int, k: int| #![trigger words[j], words[k]]
        0 <= j < k < words.len() ==> before(words[j], words[k])
    &&& forall|k: int, e: int| #![trigger t.step(order[k], e)]
        0 <= k < order.len() && (k < head || (k == head && e < d)) && t.step(order[k], e)
            ==> visited_by(t, order, words, moved(order[k], e), words[k].push(e))
}

/// Whether a cell was found by a walk that is, or comes before, the given one.
spec fn visited_by(
    t: Trip,
    order: Seq<(i32, i32)>,
    words: Seq<Seq<int>>,
    c: (i32, i32),
    w: Seq<int>,
) -> bool {
    exists|m: int| 0 <= m < words.len() && order[m] == c && (#[trigger] words[m] == w || before(
        words[m],
        w,
    ))
}

/// Every walk found so far comes before the one that is tried next.
proof fn lemma_frontier(
    t: Trip,
    order: Seq<(i32, i32)>,
    words: Seq<Seq<int>>,
    par: Seq<usize>,
    head: int,
    d: int,
    k: int,
)
    requires
        explored(t, order, words, par, head, d),
        head < order.len(),
        0 <= k < words.len(),
    ensures
        before(words[k], words[head].push(d)),
{
    if k > 0 {
        let p = par[k] as int;
        let w = words[k];
        assert(w =~= w.drop_last().push(w.last()));
        lemma_before_push(words[p], w.last(), words[head], d);
    }
}

/// Every walk that comes before the one tried next leads to a cell found so far.
proof fn lemma_complete(
    t: Trip,
    order: Seq<(i32, i32)>,
    words: Seq<Seq<int>>,
    par: Seq<usize>,
    head: int,
    d: int,
    u: Seq<int>,
)
    requires
        explored(t, order, words, par, head, d),
        t.legal(u),
        head < order.len() ==> before(u, words[head].push(d)),
    ensures
        visited_by(t, order, words, t.end(u), u),
    decreases u.len(),
{
    if u.len() == 0 {
        assert(u =~= words[0]);
    } else {
        let v = u.drop_last();
        let e = u.last();
        assert(u =~= v.push(e));
        assert(before(v, u));
        if head < order.len() {
            lemma_before_transitive(v, u, words[head].push(d));
        }
        lemma_complete(t, order, words, par, head, d, v);
        let j = choose|j: int| 0 <= j < words.len() && order[j] == t.end(v) && (#[trigger] words[j] == v
            || before(words[j], v));
        lemma_before_push(words[j], e, v, e);
        if head < order.len() {
            if words[j] != v {
                lemma_before_transitive(words[j].push(e), u, words[head].push(d));
            }
            lemma_before_push(words[j], e, words[head], d);
            if j > head {
                assert(before(words[head], words[j]));
                if words[j] == words[head] {
                    lemma_before_irreflexive(words[j]);
                } else {
                    lemma_before_transitive(words[j], words[head], words[j]);
                    lemma_before_irreflexive(words[j]);
                }
            } else if j == head {
                lemma_before_irreflexive(words[j]);
            }
        }
        assert(t.step(order[j], e));
        assert(visited_by(t, order, words, moved(order[j], e), words[j].push(e)));
        let m = choose|m: int| 0 <= m < words.len() && order[m] == moved(order[j], e) && (
        #[trigger] words[m] == words[j].push(e) || before(words[m], words[j].push(e)));
        if words[j] != v && words[m] != words[j].push(e) {
            lemma_before_transitive(words[m], words[j].push(e), u);
        }
    }
}

/// A direction that leads nowhere, or to a cell found already, is done with.
proof fn lemma_skip(
    t: Trip,
    order: Seq<(i32, i32)>,
    words: Seq<Seq<int>>,
    par: Seq<usize>,
    head: int,
    d: int,
)
    requires
        explored(t, order, words, par, head, d),
        head < order.len(),
        d < 8,
        t.step(order[head], d) ==> order.contains(moved(order[head], d)),
    ensures
        explored(t, order, words, par, head, d + 1),
{
    if t.step(order[head], d) {
        let m = choose|m: int| 0 <= m < order.len() && order[m] == moved(order[head], d);
        lemma_frontier(t, order, words, par, head, d, m);
        assert(words[m] == words[m]);
        assert(visited_by(t, order, words, moved(order[head], d), words[head].push(d)));
    }
    assert forall|k: int, e: int| #![trigger t.step(order[k], e)]
        0 <= k < order.len() && (k < head || (k == head && e < d + 1)) && t.step(
            order[k],
            e,
        ) implies visited_by(t, order, words, moved(order[k], e), words[k].push(e)) by {
    }
}

/// A new cell goes to the end of the list.
proof fn lemma_found(
    t: Trip,
    order: Seq<(i32, i32)>,
    words: Seq<Seq<int>>,
    par: Seq<usize>,
    head: int,
    d: int,
    h: usize,
)
    requires
        explored(t, order, words, par, head, d),
        head < order.len(),
        d < 8,
        h == head,
        t.step(order[head], d),
        !t.reached(moved(order[head], d)),
    ensures
        explored(
            t,
            order.push(moved(order[head], d)),
            words.push(words[head].push(d)),
            par.push(h),
            head,
            d + 1,
        ),
{
    let n = moved(order[head], d);
    let w = words[head].push(d);
    assert(w.drop_last() =~= words[head]);
    let order2 = order.push(n);
    let words2 = words.push(w);
    let par2 = par.push(h);
    assert forall|k: int| #![trigger words2[k]] 0 <= k < words2.len() implies t.legal(words2[k])
        && order2[k] == t.end(words2[k]) && !t.reached(order2[k]) by {
        if k < words.len() {
            assert(words2[k] == words[k]);
        }
    }
    assert forall|k: int| #![trigger par2[k]] 1 <= k < words2.len() implies words2[k].len() > 0
        && par2[k] < k && words2[k].drop_last() == words2[par2[k] as int] && (par2[k] < head || (
    par2[k] == head && words2[k].last() < d + 1)) by {
        if k < words.len() {
            assert(words2[k] == words[k]);
            assert(par2[k] == par[k]);
            assert(words2[par[k] as int] == words[par[k] as int]);
        }
    }
    assert forall|j: int, k: int| #![trigger words2[j], words2[k]]
        0 <= j < k < words2.len() implies before(words2[j], words2[k]) by {
        if k == words.len() {
            lemma_frontier(t, order, words, par, head, d, j);
        }
    }
    assert forall|k: int, e: int| #![trigger t.step(order2[k], e)]
        0 <= k < order2.len() && (k < head || (k == head && e < d + 1)) && t.step(
            order2[k],
            e,
        ) implies visited_by(t, order2, words2, moved(order2[k], e), words2[k].push(e)) by {
        if k == head && e == d {
            assert(words2[words.len() as int] == w);
        } else {
            assert(t.step(order[k], e));
            let m = choose|m: int| 0 <= m < words.len() && order[m] == moved(order[k], e) && (
            #[trigger] words[m] == words[k].push(e) || before(words[m], words[k].push(e)));
            assert(words2[m] == words[m]);
        }
    }
}

/// A cell searched in all directions is done with.
proof fn lemma_next(
    t: Trip,
    order: Seq<(i32, i32)>,
    words: Seq<Seq<int>>,
    par: Seq<usize>,
    head: int,
)
    requires
        explored(t, order, words, par, head, 8),
        head < order.len(),
    ensures
        explored(t, order, words, par, head + 1, 0),
{
    assert forall|k: int, e: int| #![trigger t.step(order[k], e)]
        0 <= k < order.len() && (k < head + 1 || (k == head + 1 && e < 0)) && t.step(
            order[k],
            e,
        ) implies visited_by(t, order, words, moved(order[k], e), words[k].push(e)) by {
        assert(0 <= e < 8);
    }
}

/// The first walk that arrives is the best one.
proof fn lemma_arrived(
    t: Trip,
    order: Seq<(i32, i32)>,
    words: Seq<Seq<int>>,
    par: Seq<usize>,
    head: int,
    d: int,
)
    requires
        explored(t, order, words, par, head, d),
        head < order.len(),
        d < 8,
        t.step(order[head], d),
        t.reached(moved(order[head], d)),
    ensures
        t.best_walk() == Some(words[head].push(d)),
{
    let w = words[head].push(d);
    assert(w.drop_last() =~= words[head]);
    assert(t.arrives(w));
    assert forall|v: Seq<int>| #[trigger] t.arrives(v) implies !before(v, w) by {
        if before(v, w) {
            lemma_complete(t, order, words, par, head, d, v);
            let m = choose|m: int| 0 <= m < words.len() && order[m] == t.end(v) && (
            #[trigger] words[m] == v || before(words[m], v));
        }
    }
    lemma_best_walk(t, w);
}

/// Where everything was searched no walk arrives.
proof fn lemma_exhausted(
    t: Trip,
    order: Seq<(i32, i32)>,
    words: Seq<Seq<int>>,
    par: Seq<usize>,
)
    requires
        explored(t, order, words, par, order.len() as int, 0),
    ensures
        t.best_walk() is None,
{
    assert forall|v: Seq<int>| !t.is_best(v) by {
        if t.is_best(v) {
            lemma_complete(t, order, words, par, order.len() as int, 0, v);
            let m = choose|m: int| 0 <= m < words.len() && order[m] == t.end(v) && (
            #[trigger] words[m] == v || before(words[m], v));
        }
    }
}

/// How many cells are not marked.
spec fn unmarked(seen: Seq<bool>) -> nat
    decreases seen.len(),
{
    if seen.len() == 0 {
        0
    } else {
        unmarked(seen.drop_last()) + if seen.last() {
            0nat
        } else {
            1nat
        }
    }
}

proof fn lemma_mark(seen: Seq<bool>, i: int)
    requires
        0 <= i < seen.len(),
        !seen[i],
    ensures
        unmarked(seen.update(i, true)) == unmarked(seen) - 1,
    decreases seen.len(),
{
    let after = seen.update(i, true);
    if i == seen.len() - 1 {
        assert(after.drop_last() =~= seen.drop_last());
    } else {
        assert(after.drop_last() =~= seen.drop_last().update(i, true));
        lemma_mark(seen.drop_last(), i);
    }
}

/// The marks are on the cells found.
spec fn marks(t: Trip, order: Seq<(i32, i32)>, seen: Seq<bool>) -> bool {
    &&& seen.len() == t.s.tiles.len()
    &&& forall|x: i32, y: i32| #![trigger t.s.cell(x, y)]
        t.s.in_b(x, y) ==> seen[t.s.cell(x, y)] == order.contains((x, y))
}

proof fn lemma_marks_push(t: Trip, order: Seq<(i32, i32)>, seen: Seq<bool>, n: (i32, i32))
    requires
        t.s.grid_ok(),
        marks(t, order, seen),
        t.s.in_b(n.0, n.1),
    ensures
        marks(t, order.push(n), seen.update(t.s.cell(n.0, n.1), true)),
{
    let s = t.s;
    let order2 = order.push(n);
    let seen2 = seen.update(s.cell(n.0, n.1), true);
    lemma_cell(s, n.0, n.1);
    assert forall|x: i32, y: i32| #![trigger s.cell(x, y)] s.in_b(x, y) implies seen2[s.cell(x, y)]
        == order2.contains((x, y)) by {
        lemma_cell(s, x, y);
        if s.cell(x, y) == s.cell(n.0, n.1) {
            lemma_cell_injective(s, x, y, n.0, n.1);
            assert(order2[order.len() as int] == n);
        } else {
            if order.contains((x, y)) {
                let k = choose|k: int| 0 <= k < order.len() && order[k] == (x, y);
                assert(order2[k] == (x, y));
            }
            if order2.contains((x, y)) {
                let k = choose|k: int| 0 <= k < order2.len() && order2[k] == (x, y);
                assert(order[k] == (x, y));
            }
        }
    }
}

proof fn lemma_cell_injective(s: SimV, x: i32, y: i32, a: i32, b: i32)
    requires
        s.grid_ok(),
        s.in_b(x, y),
        s.in_b(a, b),
        s.cell(x, y) == s.cell(a, b),
    ensures
        x == a,
        y == b,
{
    lemma_cell(s, x, y);
    lemma_cell(s, a, b);
    assert(y == b) by (nonlinear_arith)
        requires
            y * s.w + x == b * s.w + a,
            0 <= x < s.w,
            0 <= a < s.w,
    ;
}

impl Sim {
    /// Whether a step can be taken from a cell in a direction.
    fn can_step(&self, cur: (i32, i32), d: usize, goal: GoalKind, ignore_pid: i32) -> (r: bool)
        requires
            self.wf(),
            d < 8,
            i32::MIN < cur.0 < i32::MAX,
            i32::MIN < cur.1 < i32::MAX,
        ensures
            r == (Trip { s: self@, from: cur, goal, ignore_pid }).step(cur, d as int),
    {
        let v: (i32, i32) = direction(d);
        let nx: i32 = cur.0 + v.0;
        let ny: i32 = cur.1 + v.1;
        if let GoalKind::Adjacent(t) = goal {
            if nx == t.0 && ny == t.1 {
                return false;
            }
        }
        if !self.walkable(nx, ny, ignore_pid) {
            return false;
        }
        if v.0 != 0 && v.1 != 0 {
            if !self.walkable(nx, cur.1, ignore_pid) {
                return false;
            }
            if !self.walkable(cur.0, ny, ignore_pid) {
                return false;
            }
        }
        true
    }

    /// The cells of the best walk from a cell to a goal; nothing where none arrives.
    pub fn bfs(&self, from: (i32, i32), goal: GoalKind, ignore_pid: i32) -> (r: Option<
        VecDeque<(i32, i32)>,
    >)
        requires
            self.wf(),
            i32::MIN < from.0 < i32::MAX,
            i32::MIN < from.1 < i32::MAX,
        ensures
            match (r, (Trip { s: self@, from, goal, ignore_pid }).route()) {
                (Some(p), Some(q)) => p@ == q,
                (None, None) => true,
                _ => false,
            },
    {
        let ghost t = Trip { s: self@, from, goal, ignore_pid };
        if is_goal(from, goal) {
            proof {
                let none = Seq::<int>::empty();
                assert(t.arrives(none));
                lemma_best_walk(t, none);
                assert(t.cells(none) =~= Seq::<(i32, i32)>::empty());
            }
            return Some(VecDeque::new());
        }
        let mut seen: Vec<bool> = Vec::new();
        seen.resize(self.tiles.len(), false);
        let mut order: Vec<(i32, i32)> = Vec::new();
        let mut par: Vec<usize> = Vec::new();
        let ghost mut words: Seq<Seq<int>> = seq![Seq::<int>::empty()];
        proof {
            assert(marks(t, order@, seen@)) by {
                assert forall|x: i32, y: i32| #![trigger t.s.cell(x, y)] t.s.in_b(x, y) implies seen@[t.s.cell(x, y)]
                    == order@.contains((x, y)) by {
                    lemma_cell(t.s, x, y);
                }
            }
        }
        if self.in_b(from.0, from.1) {
            proof {
                lemma_marks_push(t, order@, seen@, from);
            }
            let c: usize = self.idx(from.0, from.1);
            seen[c] = true;
        } else {
            proof {
                assert(marks(t, order@.push(from), seen@)) by {
                    assert forall|x: i32, y: i32| #![trigger t.s.cell(x, y)] t.s.in_b(x, y) implies seen@[t.s.cell(x, y)]
                        == order@.push(from).contains((x, y)) by {
                        assert(order@.push(from)[0] == from);
                    }
                }
            }
        }
        order.push(from);
        par.push(0);
        assert(explored(t, order@, words, par@, 0, 0));
        let mut head: usize = 0;
        while head < order.len()
            invariant
                self.wf(),
                t == (Trip { s: self@, from, goal, ignore_pid }),
                i32::MIN < from.0 < i32::MAX,
                i32::MIN < from.1 < i32::MAX,
                order@[0] == from,
                forall|k: int| 1 <= k < order@.len() ==> self@.in_b((#[trigger] order@[k]).0, order@[k].1),
                explored(t, order@, words, par@, head as int, 0),
                marks(t, order@, seen@),
            decreases unmarked(seen@) + order@.len() - head,
        {
            let cur: (i32, i32) = order[head];
            let ghost total = unmarked(seen@) + order@.len();
            let mut d: usize = 0;
            while d < 8
                invariant
                    self.wf(),
                    t == (Trip { s: self@, from, goal, ignore_pid }),
                    head < order@.len(),
                    d <= 8,
                    cur == order@[head as int],
                    i32::MIN < cur.0 < i32::MAX,
                    i32::MIN < cur.1 < i32::MAX,
                    order@[0] == from,
                    forall|k: int| 1 <= k < order@.len() ==> self@.in_b((#[trigger] order@[k]).0, order@[k].1),
                    explored(t, order@, words, par@, head as int, d as int),
                    marks(t, order@, seen@),
                    unmarked(seen@) + order@.len() == total,
                decreases 8 - d,
            {
                let v: (i32, i32) = direction(d);
                let n: (i32, i32) = (cur.0 + v.0, cur.1 + v.1);
                assert(n == moved(cur, d as int));
                if self.can_step(cur, d, goal, ignore_pid) {
                    assert(t.step(order@[head as int], d as int));
                    proof {
                        lemma_cell(self@, n.0, n.1);
                    }
                    let c: usize = self.idx(n.0, n.1);
                    if !seen[c] {
                        if is_goal(n, goal) {
                            proof {
                                lemma_arrived(t, order@, words, par@, head as int, d as int);
                            }
                            let ghost w = words[head as int].push(d as int);
                            let mut path: VecDeque<(i32, i32)> = VecDeque::new();
                            path.push_front(n);
                            let mut k: usize = head;
                            proof {
                                assert(w.take(w.len() as int) =~= w);
                                assert(w.drop_last() =~= words[head as int]);
                                assert(w.take(w.len() - 1) =~= words[head as int]);
                                assert(path@ =~= t.cells(w).skip(w.len() - 1));
                            }
                            while k != 0
                                invariant
                                    k < order@.len(),
                                    explored(t, order@, words, par@, head as int, d as int),
                                    words[k as int].len() < w.len(),
                                    w.take(words[k as int].len() as int) == words[k as int],
                                    path@ == t.cells(w).skip(words[k as int].len() as int),
                                decreases k,
                            {
                                let ghost u = words[k as int];
                                path.push_front(order[k]);
                                k = par[k];
                                proof {
                                    assert(u.drop_last() == words[k as int]);
                                    assert(w.take(u.len() - 1) =~= u.drop_last());
                                    assert(path@ =~= t.cells(w).skip(u.len() - 1));
                                }
                            }
                            assert(t.cells(w).skip(0) =~= t.cells(w));
                            return Some(path);
                        }
                        proof {
                            lemma_found(t, order@, words, par@, head as int, d as int, head);
                            lemma_marks_push(t, order@, seen@, n);
                            lemma_mark(seen@, c as int);
                            words = words.push(words[head as int].push(d as int));
                        }
                        seen[c] = true;
                        order.push(n);
                        par.push(head);
                    } else {
                        proof {
                            lemma_skip(t, order@, words, par@, head as int, d as int);
                        }
                    }
                } else {
                    proof {
                        lemma_skip(t, order@, words, par@, head as int, d as int);
                    }
                }
                d = d + 1;
            }
            proof {
                lemma_next(t, order@, words, par@, head as int);
            }
            head = head + 1;
        }
        proof {
            lemma_exhausted(t, order@, words, par@);
        }
        None
    }
}

fn is_goal(p: (i32, i32), goal: GoalKind) -> (r: bool)
    ensures
        forall|t: Trip| t.goal == goal ==> r == #[trigger] t.reached(p),
{
    match goal {
        GoalKind::Step(t) => p.0 == t.0 && p.1 == t.1,
        GoalKind::Adjacent(t) => chebyshev(p, t) == 1,
    }
}

} // verus!
