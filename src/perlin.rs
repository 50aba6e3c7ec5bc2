use vstd::prelude::*;
use vstd::seq_lib::to_multiset_update;
use crate::rtweekend::random_int_in_range;

verus! {

/// Number of lattice entries along each axis of the noise.
pub const POINT_COUNT: usize = 256;

/// `p` holds each of `0..p.len()` exactly once.
pub open spec fn is_index_permutation(p: Seq<usize>) -> bool {
    &&& forall|i: int| 0 <= i < p.len() ==> #[trigger] p[i] < p.len()
    &&& forall|i: int, j: int| 0 <= i < j < p.len() ==> #[trigger] p[i] != #[trigger] p[j]
}

/// The lattice entry that integer coordinate `c` falls on: `c` modulo the
/// lattice size, always in `0..POINT_COUNT`.
pub open spec fn wrap(c: int) -> int {
    c % (POINT_COUNT as int)
}

/// `s` with the entries at `a` and `b` exchanged.
pub open spec fn swap_entries(s: Seq<usize>, a: int, b: int) -> Seq<usize> {
    s.update(a, s[b]).update(b, s[a])
}

/// The result of walking `s` from entry `i` down to entry 1, exchanging
/// each entry `k` with entry `targets[k]`.
pub open spec fn shuffled(s: Seq<usize>, targets: Seq<usize>, i: nat) -> Seq<usize>
    decreases i,
{
    if i == 0 {
        s
    } else {
        shuffled(swap_entries(s, i as int, targets[i as int] as int), targets, (i - 1) as nat)
    }
}

/// `targets` picks, for each entry `k` from 1 up, an entry strictly below it.
pub open spec fn valid_swap_targets(targets: Seq<usize>) -> bool {
    &&& targets.len() == POINT_COUNT
    &&& forall|k: int| 1 <= k < POINT_COUNT ==> #[trigger] targets[k] < k
}

proof fn lemma_swap_keeps_values(s: Seq<usize>, a: int, b: int)
    requires
        0 <= b < a < s.len(),
    ensures
        swap_entries(s, a, b).to_multiset() == s.to_multiset(),
        is_index_permutation(s) ==> is_index_permutation(swap_entries(s, a, b)),
{
    broadcast use vstd::multiset::group_multiset_axioms;

    let x = s[a];
    let y = s[b];
    let mid = s.update(a, y);
    let t = swap_entries(s, a, b);
    to_multiset_update(s, a, y);
    to_multiset_update(mid, b, x);
    vstd::seq_lib::to_multiset_contains(s, x);
    assert(s.contains(x)) by {
        assert(s[a] == x);
    }
    let m = s.to_multiset();
    let m1 = m.insert(y).remove(x);
    assert(mid[b] == y);
    assert(t.to_multiset() == m1.insert(x).remove(y));
    assert forall|v: usize| #[trigger] m1.insert(x).remove(y).count(v) == m.count(v) by {
        assert(m.count(x) > 0);
    }
    assert(t.to_multiset() =~= m);
    if is_index_permutation(s) {
        assert forall|i: int, j: int| 0 <= i < j < t.len() implies #[trigger] t[i]
            != #[trigger] t[j] by {
            let si = if i == a { b } else if i == b { a } else { i };
            let sj = if j == a { b } else if j == b { a } else { j };
            assert(t[i] == s[si]);
            assert(t[j] == s[sj]);
            if si < sj {
                assert(s[si] != s[sj]);
            } else {
                assert(s[sj] != s[si]);
            }
        }
        assert forall|i: int| 0 <= i < t.len() implies #[trigger] t[i] < t.len() by {
            let si = if i == a { b } else if i == b { a } else { i };
            assert(t[i] == s[si]);
        }
    }
}

/// Shuffles `p` in place with the given swap targets: from the last entry
/// down to entry 1, entry `k` trades places with entry `targets[k]`.
pub fn permute_with(p: &mut Vec<usize>, targets: &Vec<usize>)
    requires
        old(p)@.len() == POINT_COUNT,
        valid_swap_targets(targets@),
    ensures
        final(p)@.len() == POINT_COUNT,
        final(p)@ == shuffled(old(p)@, targets@, (POINT_COUNT - 1) as nat),
        final(p)@.to_multiset() == old(p)@.to_multiset(),
        is_index_permutation(old(p)@) ==> is_index_permutation(final(p)@),
{
    let ghost start = p@;
    let mut i: usize = POINT_COUNT - 1;
    while i > 0
        invariant
            i < POINT_COUNT,
            p@.len() == POINT_COUNT,
            valid_swap_targets(targets@),
            shuffled(p@, targets@, i as nat) == shuffled(start, targets@, (POINT_COUNT - 1) as nat),
            p@.to_multiset() == start.to_multiset(),
            is_index_permutation(start) ==> is_index_permutation(p@),
        decreases i,
    {
        let target = targets[i];
        let ghost before = p@;
        let a = p[i];
        let b = p[target];
        p.set(i, b);
        p.set(target, a);
        proof {
            assert(p@ == swap_entries(before, i as int, target as int));
            lemma_swap_keeps_values(before, i as int, target as int);
        }
        i = i - 1;
    }
}

/// Draws, for each entry `k` from 1 up, an entry strictly below it. The
/// draws are made from the last entry down.
pub fn draw_swap_targets() -> (r: Vec<usize>)
    ensures
        valid_swap_targets(r@),
{
    let mut targets: Vec<usize> = Vec::new();
    let mut k: usize = 0;
    while k < POINT_COUNT
        invariant
            k <= POINT_COUNT,
            targets@.len() == k,
            forall|j: int| 0 <= j < k ==> #[trigger] targets@[j] == 0,
        decreases POINT_COUNT - k,
    {
        targets.push(0);
        k = k + 1;
    }
    let mut i: usize = POINT_COUNT - 1;
    while i > 0
        invariant
            i < POINT_COUNT,
            targets@.len() == POINT_COUNT,
            forall|j: int| i < j < POINT_COUNT ==> #[trigger] targets@[j] < j,
        decreases i,
    {
        let t = random_int_in_range(0, i as i32) as usize;
        targets.set(i, t);
        i = i - 1;
    }
    targets
}

/// Shuffles `p` in place by random swaps, from the last entry down: entry
/// `k` trades places with an entry drawn strictly below it. Every value
/// stays, and the outcome is the shuffle of some valid choice of targets.
pub fn permute(p: &mut Vec<usize>)
    requires
        old(p)@.len() == POINT_COUNT,
    ensures
        final(p)@.len() == POINT_COUNT,
        exists|targets: Seq<usize>|
            valid_swap_targets(targets) && final(p)@ == shuffled(
                old(p)@,
                targets,
                (POINT_COUNT - 1) as nat,
            ),
        final(p)@.to_multiset() == old(p)@.to_multiset(),
        is_index_permutation(old(p)@) ==> is_index_permutation(final(p)@),
{
    let targets = draw_swap_targets();
    permute_with(p, &targets);
}

/// The table `0, 1, ..., POINT_COUNT - 1`.
pub open spec fn identity_table() -> Seq<usize> {
    Seq::new(POINT_COUNT as nat, |k: int| k as usize)
}

/// `t` is the identity table shuffled by some valid choice of swap targets.
pub open spec fn is_shuffled_table(t: Seq<usize>) -> bool {
    exists|targets: Seq<usize>|
        valid_swap_targets(targets) && t == shuffled(
            identity_table(),
            targets,
            (POINT_COUNT - 1) as nat,
        )
}

/// Halfway through a shuffle of the identity, with entry `i` next: every
/// entry above `i` has left its place, every entry up to `i` holds either
/// its own index or a value above `i`, and once all is done entry 0 has
/// left its place too.
spec fn partly_shuffled(s: Seq<usize>, i: int) -> bool {
    &&& s.len() == POINT_COUNT
    &&& 0 <= i < POINT_COUNT
    &&& forall|j: int| i < j < POINT_COUNT ==> #[trigger] s[j] != j
    &&& forall|j: int| 0 <= j <= i ==> #[trigger] s[j] == j || s[j] > i
    &&& i == 0 ==> s[0] != 0
}

proof fn lemma_shuffle_step(s: Seq<usize>, targets: Seq<usize>, i: nat)
    requires
        valid_swap_targets(targets),
        partly_shuffled(s, i as int),
    ensures
        forall|k: int| 0 <= k < POINT_COUNT ==> #[trigger] shuffled(s, targets, i)[k] != k,
    decreases i,
{
    if i > 0 {
        let t = targets[i as int] as int;
        let s2 = swap_entries(s, i as int, t);
        assert(t < i);
        assert(s[t] == t || s[t] > i);
        assert(s[i as int] == i || s[i as int] > i);
        assert forall|j: int| (i - 1) < j < POINT_COUNT implies #[trigger] s2[j] != j by {
            if j != i && j != t {
                assert(s2[j] == s[j]);
            }
        }
        assert forall|j: int| 0 <= j <= (i - 1) implies #[trigger] s2[j] == j || s2[j] > i - 1 by {
            if j != t {
                assert(s2[j] == s[j]);
            }
        }
        assert(i == 1 ==> s2[0] == s[1]);
        assert(partly_shuffled(s2, i - 1));
        lemma_shuffle_step(s2, targets, (i - 1) as nat);
        assert(shuffled(s, targets, i) == shuffled(s2, targets, (i - 1) as nat));
    } else {
        assert(shuffled(s, targets, i) == s);
        assert forall|k: int| 0 <= k < POINT_COUNT implies #[trigger] shuffled(s, targets, i)[k]
            != k by {
            if k == 0 {
                assert(s[0] != 0);
            } else {
                assert(s[k] != k);
            }
        }
    }
}

/// A table shuffled from the identity leaves no entry in its place: each
/// entry trades with one strictly below it, so the shuffle is a single
/// cycle through all entries.
pub proof fn lemma_shuffled_table_moves_every_entry(targets: Seq<usize>)
    requires
        valid_swap_targets(targets),
    ensures
        forall|k: int|
            0 <= k < POINT_COUNT ==> #[trigger] shuffled(
                identity_table(),
                targets,
                (POINT_COUNT - 1) as nat,
            )[k] != k,
{
    lemma_shuffle_step(identity_table(), targets, (POINT_COUNT - 1) as nat);
}

/// A random arrangement of `0..POINT_COUNT`: the identity table shuffled
/// by randomly drawn swap targets.
pub fn perlin_generate_perm() -> (r: Vec<usize>)
    ensures
        r@.len() == POINT_COUNT,
        is_index_permutation(r@),
        is_shuffled_table(r@),
{
    let mut p: Vec<usize> = Vec::new();
    let mut i: usize = 0;
    while i < POINT_COUNT
        invariant
            i <= POINT_COUNT,
            p@.len() == i,
            forall|k: int| 0 <= k < i ==> #[trigger] p@[k] == k,
        decreases POINT_COUNT - i,
    {
        p.push(i);
        i = i + 1;
    }
    assert(p@ =~= identity_table());
    permute(&mut p);
    p
}

/// The three lattice permutations of a Perlin noise source, one per axis.
/// They pick, for each corner of the unit cell around a point, which of the
/// random gradients that corner uses.
pub struct LatticeHash {
    pub perm_x: Vec<usize>,
    pub perm_y: Vec<usize>,
    pub perm_z: Vec<usize>,
}

impl LatticeHash {
    pub open spec fn wf(&self) -> bool {
        &&& self.perm_x@.len() == POINT_COUNT && is_index_permutation(self.perm_x@)
        &&& self.perm_y@.len() == POINT_COUNT && is_index_permutation(self.perm_y@)
        &&& self.perm_z@.len() == POINT_COUNT && is_index_permutation(self.perm_z@)
    }

    /// Each table is the identity shuffled by its own draws.
    pub open spec fn is_fresh(&self) -> bool {
        &&& is_shuffled_table(self.perm_x@)
        &&& is_shuffled_table(self.perm_y@)
        &&& is_shuffled_table(self.perm_z@)
    }

    /// The gradient index of the lattice corner at integer coordinates
    /// `(i, j, k)`.
    pub open spec fn corner_spec(&self, i: int, j: int, k: int) -> usize {
        self.perm_x@[wrap(i)] ^ self.perm_y@[wrap(j)] ^ self.perm_z@[wrap(k)]
    }

    /// Three freshly shuffled permutations.
    pub fn new() -> (r: LatticeHash)
        ensures
            r.wf(),
            r.is_fresh(),
    {
        let perm_x = perlin_generate_perm();
        let perm_y = perlin_generate_perm();
        let perm_z = perlin_generate_perm();
        LatticeHash { perm_x, perm_y, perm_z }
    }

    /// The gradient index of the lattice corner at integer coordinates
    /// `(i, j, k)`; each coordinate wraps around the lattice.
    pub fn corner(&self, i: i64, j: i64, k: i64) -> (r: usize)
        requires
            self.wf(),
        ensures
            r == self.corner_spec(i as int, j as int, k as int),
            r < POINT_COUNT,
    {
        let a = self.perm_x[lattice_index(i)];
        let b = self.perm_y[lattice_index(j)];
        let c = self.perm_z[lattice_index(k)];
        assert(a ^ b ^ c < 256) by (bit_vector)
            requires
                a < 256,
                b < 256,
                c < 256,
        ;
        a ^ b ^ c
    }
}

/// The noise lattice repeats every `POINT_COUNT` cells along each axis.
pub proof fn lemma_corner_periodic(h: LatticeHash, i: int, j: int, k: int)
    ensures
        h.corner_spec(i + POINT_COUNT as int, j, k) == h.corner_spec(i, j, k),
        h.corner_spec(i, j + POINT_COUNT as int, k) == h.corner_spec(i, j, k),
        h.corner_spec(i, j, k + POINT_COUNT as int) == h.corner_spec(i, j, k),
{
    vstd::arithmetic::div_mod::lemma_mod_add_multiples_vanish(i, 256);
    vstd::arithmetic::div_mod::lemma_mod_add_multiples_vanish(j, 256);
    vstd::arithmetic::div_mod::lemma_mod_add_multiples_vanish(k, 256);
    assert(i + 256 == 256 + i);
    assert(j + 256 == 256 + j);
    assert(k + 256 == 256 + k);
}

/// `c` modulo the lattice size.
pub fn lattice_index(c: i64) -> (r: usize)
    ensures
        r == wrap(c as int),
        r < POINT_COUNT,
{
    // Shifting by a multiple of the lattice size makes the value
    // non-negative without changing its residue.
    let s: i128 = c as i128 + 0x8000_0000_0000_0000i128;
    proof {
        vstd::arithmetic::div_mod::lemma_mod_multiples_vanish(0x80_0000_0000_0000, c as int, 256);
        assert(256 * 0x80_0000_0000_0000 + c as int == s as int);
    }
    ((s as u128) % 256) as usize
}

} // verus!
