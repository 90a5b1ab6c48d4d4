//! The standard 7-bag randomizer.

use vstd::prelude::*;
use std::collections::VecDeque;
use crate::piece::{PieceKind, all_kinds};
use crate::rng::{Rng, xorshift_step, seed_state};

verus! {

/// Seven pieces, each kind exactly once.
pub open spec fn is_full_bag(s: Seq<PieceKind>) -> bool {
    &&& s.len() == 7
    &&& forall|i: int, j: int| 0 <= i < j < 7 ==> s[i] != s[j]
    &&& forall|k: PieceKind| s.contains(k)
}

/// `q` is a run of whole bags, one after another.
pub open spec fn whole_bags(q: Seq<PieceKind>) -> bool
    decreases q.len(),
{
    if q.len() == 0 {
        true
    } else if q.len() < 7 {
        false
    } else {
        is_full_bag(q.take(7)) && whole_bags(q.skip(7))
    }
}

/// The queued pieces are a partly drawn bag followed by whole bags.
pub open spec fn bag_aligned(q: Seq<PieceKind>) -> bool {
    whole_bags(q.skip(q.len() as int % 7))
}

/// Fisher-Yates pass over `pieces` from index `i` down to 1, drawing with the
/// generator state `s`: the shuffled pieces and the state left afterwards.
pub open spec fn shuffle_from(pieces: Seq<PieceKind>, s: u64, i: int) -> (Seq<PieceKind>, u64)
    decreases i,
{
    if i < 1 {
        (pieces, s)
    } else {
        let s2 = xorshift_step(s);
        let j = (s2 % ((i + 1) as u64)) as int;
        shuffle_from(pieces.update(i, pieces[j]).update(j, pieces[i]), s2, i - 1)
    }
}

/// One freshly shuffled bag drawn with generator state `s`, and the state after it.
pub open spec fn shuffled_bag(s: u64) -> (Seq<PieceKind>, u64) {
    shuffle_from(all_kinds(), s, 6)
}

/// Queue and generator state after appending one shuffled bag.
pub open spec fn refilled(v: (Seq<PieceKind>, u64)) -> (Seq<PieceKind>, u64) {
    let (bag, s) = shuffled_bag(v.1);
    (v.0 + bag, s)
}

/// Queue and generator state after appending bags until at least `n` pieces are queued.
pub open spec fn refilled_to(v: (Seq<PieceKind>, u64), n: int) -> (Seq<PieceKind>, u64)
    decreases n + 7 - v.0.len(),
{
    if v.0.len() >= n {
        v
    } else {
        proof {
            lemma_shuffle_len(all_kinds(), v.1, 6);
        }
        refilled_to(refilled(v), n)
    }
}

pub proof fn lemma_shuffle_len(pieces: Seq<PieceKind>, s: u64, i: int)
    requires
        i < 7,
        pieces.len() == 7,
    ensures
        shuffle_from(pieces, s, i).0.len() == 7,
    decreases i,
{
    if i >= 1 {
        let s2 = xorshift_step(s);
        let j = (s2 % ((i + 1) as u64)) as int;
        assert(0 <= j <= i);
        lemma_shuffle_len(pieces.update(i, pieces[j]).update(j, pieces[i]), s2, i - 1);
    }
}

/// The queue holds at least one bag's worth and is a partly drawn bag
/// followed by whole bags.
pub open spec fn bag_wf(v: (Seq<PieceKind>, u64)) -> bool {
    v.0.len() >= 7 && bag_aligned(v.0)
}

/// Queue and generator state after one draw, and the piece drawn.
pub open spec fn drawn(v: (Seq<PieceKind>, u64)) -> ((Seq<PieceKind>, u64), PieceKind) {
    let w = if v.0.len() <= 7 { refilled(v) } else { v };
    ((w.0.drop_first(), w.1), w.0[0])
}

proof fn lemma_shuffle_keeps_bag(pieces: Seq<PieceKind>, s: u64, i: int)
    requires
        is_full_bag(pieces),
        i < 7,
    ensures
        is_full_bag(shuffle_from(pieces, s, i).0),
    decreases i,
{
    if i >= 1 {
        let s2 = xorshift_step(s);
        let j = (s2 % ((i + 1) as u64)) as int;
        let next = pieces.update(i, pieces[j]).update(j, pieces[i]);
        assert(0 <= j <= i);
        assert forall|k: PieceKind| next.contains(k) by {
            assert(pieces.contains(k));
            let m = choose|m: int| 0 <= m < 7 && pieces[m] == k;
            if m == i {
                assert(next[j] == k);
            } else if m == j {
                assert(next[i] == k);
            } else {
                assert(next[m] == k);
            }
        }
        lemma_shuffle_keeps_bag(next, s2, i - 1);
    }
}

proof fn lemma_shuffled_bag_is_full(s: u64)
    ensures
        is_full_bag(shuffled_bag(s).0),
{
    let a = all_kinds();
    assert forall|k: PieceKind| a.contains(k) by {
        match k {
            PieceKind::I => assert(a[0] == k),
            PieceKind::J => assert(a[1] == k),
            PieceKind::L => assert(a[2] == k),
            PieceKind::O => assert(a[3] == k),
            PieceKind::S => assert(a[4] == k),
            PieceKind::Z => assert(a[5] == k),
            PieceKind::T => assert(a[6] == k),
        }
    }
    lemma_shuffle_keeps_bag(a, s, 6);
}

proof fn lemma_whole_bags_append(q: Seq<PieceKind>, bag: Seq<PieceKind>)
    requires
        whole_bags(q),
        is_full_bag(bag),
    ensures
        whole_bags(q + bag),
    decreases q.len(),
{
    if q.len() == 0 {
        assert(q + bag =~= bag);
        assert(bag.take(7) =~= bag);
        assert(bag.skip(7) =~= Seq::<PieceKind>::empty());
        assert(whole_bags(bag.skip(7)));
        assert(whole_bags(q + bag));
    } else {
        assert(q.len() >= 7);
        lemma_whole_bags_append(q.skip(7), bag);
        assert((q + bag).take(7) =~= q.take(7));
        assert((q + bag).skip(7) =~= q.skip(7) + bag);
    }
}

proof fn lemma_refill_aligned(v: (Seq<PieceKind>, u64))
    requires
        bag_aligned(v.0),
    ensures
        bag_aligned(refilled(v).0),
        refilled(v).0.len() == v.0.len() + 7,
        refilled(v).0.take(v.0.len() as int) == v.0,
{
    let q = v.0;
    let bag = shuffled_bag(v.1).0;
    lemma_shuffled_bag_is_full(v.1);
    let r = q.len() as int % 7;
    assert((q.len() + 7) as int % 7 == r);
    assert((q + bag).skip(r) =~= q.skip(r) + bag);
    lemma_whole_bags_append(q.skip(r), bag);
    assert((q + bag).take(q.len() as int) =~= q);
}

proof fn lemma_pop_aligned(q: Seq<PieceKind>)
    requires
        bag_aligned(q),
        q.len() >= 1,
    ensures
        bag_aligned(q.drop_first()),
{
    let r = q.len() as int % 7;
    let q2 = q.drop_first();
    if r >= 1 {
        assert((q.len() - 1) as int % 7 == r - 1);
        assert(q2.skip(r - 1) =~= q.skip(r));
    } else {
        assert((q.len() - 1) as int % 7 == 6);
        assert(q.skip(0) =~= q);
        assert(q2.skip(6) =~= q.skip(7));
    }
}

/// A standard 7-bag randomizer: each bag is a shuffled permutation of all 7
/// piece kinds, refilled whenever it runs out.
#[derive(Clone, PartialEq, Debug)]
pub struct SevenBag {
    rng: Rng,
    queue: VecDeque<PieceKind>,
}

impl View for SevenBag {
    type V = (Seq<PieceKind>, u64);

    /// The queued pieces, front first, and the generator state.
    closed spec fn view(&self) -> (Seq<PieceKind>, u64) {
        (self.queue@, self.rng@)
    }
}

impl SevenBag {
    /// The queue holds at least one bag's worth and is a partly drawn bag
    /// followed by whole bags.
    pub open spec fn wf(self) -> bool {
        bag_wf(self@)
    }

    /// The pieces the bag will hand out next, in order (those already queued).
    pub open spec fn upcoming(self) -> Seq<PieceKind> {
        self@.0
    }

    pub fn new(seed: u64) -> (bag: Self)
        ensures
            bag@ == refilled((Seq::empty(), seed_state(seed))),
            bag.wf(),
            is_full_bag(bag.upcoming()),
    {
        let mut bag = SevenBag { rng: Rng::new(seed), queue: VecDeque::new() };
        proof {
            assert(whole_bags(Seq::<PieceKind>::empty()));
            assert(Seq::<PieceKind>::empty().skip(0) =~= Seq::<PieceKind>::empty());
            lemma_refill_aligned(bag@);
            lemma_shuffled_bag_is_full(seed_state(seed));
            assert(Seq::<PieceKind>::empty() + shuffled_bag(seed_state(seed)).0 =~= shuffled_bag(
                seed_state(seed),
            ).0);
        }
        bag.refill();
        bag
    }

    fn refill(&mut self)
        ensures
            final(self)@ == refilled(old(self)@),
    {
        let mut pieces = PieceKind::ALL;
        assert(pieces@ == all_kinds());
        let mut i: usize = 6;
        while i >= 1
            invariant
                i <= 6,
                shuffle_from(pieces@, self.rng@, i as int) == shuffled_bag(old(self).rng@),
                self.queue@ == old(self).queue@,
            decreases i,
        {
            let ghost prev = pieces@;
            let j = self.rng.next_below((i + 1) as u32) as usize;
            let a = pieces[i];
            let b = pieces[j];
            pieces[i] = b;
            pieces[j] = a;
            assert(pieces@ =~= prev.update(i as int, prev[j as int]).update(j as int, prev[i as int]));
            i -= 1;
        }
        let mut k: usize = 0;
        while k < 7
            invariant
                k <= 7,
                self.rng@ == shuffled_bag(old(self).rng@).1,
                pieces@ == shuffled_bag(old(self).rng@).0,
                self.queue@ == old(self).queue@ + pieces@.take(k as int),
            decreases 7 - k,
        {
            self.queue.push_back(pieces[k]);
            assert(pieces@.take(k + 1) =~= pieces@.take(k as int).push(pieces@[k as int]));
            k += 1;
        }
        assert(pieces@.take(7) =~= pieces@);
    }

    /// Draws the next piece, topping the queue up with a new bag when only one
    /// bag's worth is left.
    pub fn next(&mut self) -> (k: PieceKind)
        requires
            old(self).wf(),
        ensures
            final(self).wf(),
            (final(self)@, k) == drawn(old(self)@),
            k == old(self).upcoming()[0],
    {
        if self.queue.len() <= 7 {
            proof {
                lemma_refill_aligned(self@);
            }
            self.refill();
        }
        proof {
            lemma_pop_aligned(self@.0);
        }
        let k = self.queue.pop_front().expect("bag refilled, never empty");
        k
    }

    /// Peek at the next `n` pieces without consuming them.
    pub fn preview(&mut self, n: usize) -> (r: Vec<PieceKind>)
        requires
            old(self).wf(),
        ensures
            final(self).wf(),
            final(self)@ == refilled_to(old(self)@, n as int),
            r@ == final(self).upcoming().take(n as int),
            final(self).upcoming().take(old(self).upcoming().len() as int) == old(self).upcoming(),
    {
        while self.queue.len() < n
            invariant
                self.wf(),
                refilled_to(self@, n as int) == refilled_to(old(self)@, n as int),
                self.upcoming().take(old(self).upcoming().len() as int) == old(self).upcoming(),
                self.upcoming().len() >= old(self).upcoming().len(),
            decreases n + 7 - self.queue@.len(),
        {
            let ghost before = self@;
            proof {
                lemma_refill_aligned(self@);
            }
            self.refill();
            assert(self.upcoming().take(old(self).upcoming().len() as int) =~= before.0.take(
                old(self).upcoming().len() as int,
            ));
        }
        let mut out: Vec<PieceKind> = Vec::new();
        let mut i: usize = 0;
        while i < n
            invariant
                i <= n <= self.queue@.len(),
                out@ == self.upcoming().take(i as int),
            decreases n - i,
        {
            out.push(self.queue[i]);
            assert(self.upcoming().take(i + 1) =~= self.upcoming().take(i as int).push(
                self.upcoming()[i as int],
            ));
            i += 1;
        }
        out
    }
}

/// Whenever the bag sits on a bag boundary (a multiple of seven pieces
/// queued, as right after `new`), the next seven draws hand out one piece of
/// each kind and leave the bag on a boundary again; so every seven draws
/// from the start are one of each.
pub proof fn law_bag_window(bag: SevenBag)
    requires
        bag.wf(),
        bag.upcoming().len() % 7 == 0,
    ensures
        is_full_bag(draws(bag@, 7).1),
        bag_wf(draws(bag@, 7).0),
        draws(bag@, 7).0.0.len() % 7 == 0,
{
    let q = bag.upcoming();
    assert(q.skip(0) =~= q);
    lemma_draws_match_preview(bag@, 7);
    lemma_draws_wf(bag@, 7);
}

proof fn lemma_drawn_wf(v: (Seq<PieceKind>, u64))
    requires
        bag_wf(v),
    ensures
        bag_wf(drawn(v).0),
        drawn(v).0.0.len() == if v.0.len() <= 7 { v.0.len() + 6int } else { v.0.len() - 1int },
{
    let pre = if v.0.len() <= 7 { refilled(v) } else { v };
    if v.0.len() <= 7 {
        lemma_refill_aligned(v);
    }
    lemma_pop_aligned(pre.0);
}

proof fn lemma_draws_wf(v: (Seq<PieceKind>, u64), k: nat)
    requires
        bag_wf(v),
    ensures
        bag_wf(draws(v, k).0),
        draws(v, k).0.0.len() % 7 == (v.0.len() - k) % 7,
    decreases k,
{
    if k > 0 {
        lemma_drawn_wf(v);
        lemma_draws_wf(drawn(v).0, (k - 1) as nat);
        let a = v.0.len() as int;
        let b = drawn(v).0.0.len() as int;
        assert((b - (k - 1)) % 7 == (a - k) % 7) by {
            if a <= 7 {
                assert(b - (k - 1) == (a - k) + 7);
            }
        }
    }
}

/// The pieces handed out by `k` draws in a row, and the bag afterwards.
pub open spec fn draws(v: (Seq<PieceKind>, u64), k: nat) -> ((Seq<PieceKind>, u64), Seq<PieceKind>)
    decreases k,
{
    if k == 0 {
        (v, Seq::empty())
    } else {
        let (w, x) = drawn(v);
        let (u, xs) = draws(w, (k - 1) as nat);
        (u, seq![x] + xs)
    }
}

proof fn lemma_refilled_to_len(v: (Seq<PieceKind>, u64), n: int)
    ensures
        refilled_to(v, n).0.len() >= n,
        refilled_to(v, n).0.len() >= v.0.len(),
    decreases n + 7 - v.0.len(),
{
    if v.0.len() < n {
        lemma_shuffle_len(all_kinds(), v.1, 6);
        lemma_refilled_to_len(refilled(v), n);
    }
}

proof fn lemma_refilled_to_cons(x: PieceKind, q: Seq<PieceKind>, s: u64, n: int)
    ensures
        refilled_to((seq![x] + q, s), n + 1) == (seq![x] + refilled_to((q, s), n).0, refilled_to((q, s), n).1),
    decreases n + 7 - q.len(),
{
    if q.len() < n {
        lemma_shuffle_len(all_kinds(), s, 6);
        let bag = shuffled_bag(s);
        assert(refilled((seq![x] + q, s)) == (seq![x] + (q + bag.0), bag.1)) by {
            assert(seq![x] + q + bag.0 =~= seq![x] + (q + bag.0));
        }
        lemma_refilled_to_cons(x, q + bag.0, bag.1, n);
    } else {
        assert((seq![x] + q).len() >= n + 1);
    }
}

proof fn lemma_refill_then_refilled_to(v: (Seq<PieceKind>, u64), n: int)
    requires
        n >= 0,
    ensures
        refilled_to(refilled(v), n).0.take(n) == refilled_to(v, n).0.take(n),
{
    lemma_shuffle_len(all_kinds(), v.1, 6);
    if v.0.len() >= n {
        assert(refilled(v).0.take(n) =~= v.0.take(n));
    }
}

/// `k` draws in a row hand out exactly the first `k` pieces that a preview of
/// `k` shows: previewing never changes what is drawn.
pub proof fn law_draws_match_preview(bag: SevenBag, k: nat)
    ensures
        draws(bag@, k).1 == refilled_to(bag@, k as int).0.take(k as int),
{
    lemma_draws_match_preview(bag@, k);
}

proof fn lemma_draws_match_preview(v: (Seq<PieceKind>, u64), k: nat)
    ensures
        draws(v, k).1 == refilled_to(v, k as int).0.take(k as int),
    decreases k,
{
    if k == 0 {
        assert(refilled_to(v, 0).0.take(0) =~= Seq::<PieceKind>::empty());
    } else {
        let km: nat = (k - 1) as nat;
        let pre = if v.0.len() <= 7 { refilled(v) } else { v };
        lemma_shuffle_len(all_kinds(), v.1, 6);
        assert(pre.0.len() >= 1);
        let (w, x) = drawn(v);
        assert(pre.0 =~= seq![x] + w.0);
        lemma_draws_match_preview(w, km);
        lemma_refilled_to_cons(x, w.0, w.1, km as int);
        lemma_refilled_to_len(w, km as int);
        if v.0.len() <= 7 {
            lemma_refill_then_refilled_to(v, k as int);
        }
        let r = refilled_to(w, km as int).0;
        assert((seq![x] + r).take(k as int) =~= seq![x] + r.take(km as int));
    }
}

proof fn lemma_preview_then_refilled_to(v: (Seq<PieceKind>, u64), n: int, k: int)
    requires
        k >= 0,
    ensures
        refilled_to(refilled_to(v, n), k).0.take(k) == refilled_to(v, k).0.take(k),
    decreases n + 7 - v.0.len(),
{
    if v.0.len() < n {
        lemma_shuffle_len(all_kinds(), v.1, 6);
        lemma_preview_then_refilled_to(refilled(v), n, k);
        lemma_refill_then_refilled_to(v, k);
    }
}

/// A preview of any length does not change what the following draws hand out.
pub proof fn law_preview_keeps_draws(bag: SevenBag, n: int, k: nat)
    ensures
        draws(refilled_to(bag@, n), k).1 == draws(bag@, k).1,
{
    lemma_preview_keeps_draws(bag@, n, k);
}

proof fn lemma_preview_keeps_draws(v: (Seq<PieceKind>, u64), n: int, k: nat)
    ensures
        draws(refilled_to(v, n), k).1 == draws(v, k).1,
{
    lemma_draws_match_preview(v, k);
    lemma_draws_match_preview(refilled_to(v, n), k);
    lemma_preview_then_refilled_to(v, n, k as int);
}

/// The bag after a run of operations (`None`: draw one piece; `Some(n)`:
/// preview `n` pieces) and the pieces drawn, in order.
pub open spec fn run_ops(v: (Seq<PieceKind>, u64), ops: Seq<Option<nat>>) -> ((Seq<PieceKind>, u64), Seq<PieceKind>)
    decreases ops.len(),
{
    if ops.len() == 0 {
        (v, Seq::empty())
    } else {
        match ops[0] {
            None => {
                let (w, x) = drawn(v);
                let (u, xs) = run_ops(w, ops.drop_first());
                (u, seq![x] + xs)
            },
            Some(n) => run_ops(refilled_to(v, n as int), ops.drop_first()),
        }
    }
}

/// How many draws a run of operations makes.
pub open spec fn count_draws(ops: Seq<Option<nat>>) -> nat
    decreases ops.len(),
{
    if ops.len() == 0 {
        0
    } else {
        (if ops[0] is None { 1nat } else { 0nat }) + count_draws(ops.drop_first())
    }
}

proof fn lemma_run_ops(v: (Seq<PieceKind>, u64), ops: Seq<Option<nat>>)
    ensures
        run_ops(v, ops).1 == draws(v, count_draws(ops)).1,
    decreases ops.len(),
{
    if ops.len() > 0 {
        match ops[0] {
            None => {
                lemma_run_ops(drawn(v).0, ops.drop_first());
            },
            Some(n) => {
                lemma_run_ops(refilled_to(v, n as int), ops.drop_first());
                lemma_preview_keeps_draws(v, n as int, count_draws(ops.drop_first()));
            },
        }
    }
}

proof fn lemma_draws_split(v: (Seq<PieceKind>, u64), a: nat, b: nat)
    ensures
        draws(v, a + b).1 == draws(v, a).1 + draws(draws(v, a).0, b).1,
        draws(v, a).1.len() == a,
    decreases a,
{
    if a > 0 {
        let (w, x) = drawn(v);
        lemma_draws_split(w, (a - 1) as nat, b);
        assert(((a - 1) as nat + b) == (a + b - 1) as nat);
        assert(seq![x] + (draws(w, (a - 1) as nat).1 + draws(draws(w, (a - 1) as nat).0, b).1) =~= (seq![x]
            + draws(w, (a - 1) as nat).1) + draws(draws(w, (a - 1) as nat).0, b).1);
    }
}

proof fn lemma_seven_windows(v: (Seq<PieceKind>, u64), m: nat, j: int)
    requires
        bag_wf(v),
        v.0.len() % 7 == 0,
        0 <= j < m,
    ensures
        is_full_bag(draws(v, 7 * m).1.subrange(7 * j, 7 * j + 7)),
    decreases m,
{
    lemma_draws_wf(v, 7);
    lemma_draws_match_preview(v, 7);
    let q = v.0;
    assert(q.skip(0) =~= q);
    lemma_draws_split(v, 7, (7 * m - 7) as nat);
    assert((7 + (7 * m - 7) as nat) as nat == 7 * m);
    let first = draws(v, 7).1;
    let rest = draws(draws(v, 7).0, (7 * m - 7) as nat).1;
    assert(first.len() == 7);
    if j == 0 {
        assert((first + rest).subrange(0, 7) =~= first);
        assert(is_full_bag(first.take(7)) ==> is_full_bag(first)) by {
            assert(first.take(7) =~= first);
        }
        assert(refilled_to(v, 7) == v);
    } else {
        let w = draws(v, 7).0;
        lemma_seven_windows(w, (m - 1) as nat, j - 1);
        assert((7 * (m - 1)) as nat == (7 * m - 7) as nat);
        lemma_draws_split(w, (7 * m - 7) as nat, 0);
        assert(rest.len() == 7 * m - 7);
        assert((first + rest).subrange(7 * j, 7 * j + 7) =~= rest.subrange(7 * (j - 1), 7 * (j - 1) + 7));
    }
}

/// From a bag boundary (as right after `new`), however draws and previews
/// are interleaved, every seven consecutive draws counted from the start hand
/// out one piece of each kind.
pub proof fn law_every_seven_draws(bag: SevenBag, ops: Seq<Option<nat>>, j: int)
    requires
        bag.wf(),
        bag.upcoming().len() % 7 == 0,
        0 <= j,
        7 * j + 7 <= run_ops(bag@, ops).1.len(),
    ensures
        is_full_bag(run_ops(bag@, ops).1.subrange(7 * j, 7 * j + 7)),
{
    let v = bag@;
    let c = count_draws(ops);
    lemma_run_ops(v, ops);
    lemma_draws_split(v, c, 0);
    let m = (j + 1) as nat;
    lemma_draws_split(v, 7 * m, (c - 7 * m) as nat);
    assert((7 * m + (c - 7 * m) as nat) as nat == c);
    lemma_seven_windows(v, m, j);
    let d = draws(v, 7 * m).1;
    assert((d + draws(draws(v, 7 * m).0, (c - 7 * m) as nat).1).subrange(7 * j, 7 * j + 7) =~= d.subrange(
        7 * j,
        7 * j + 7,
    ));
}

} // verus!
