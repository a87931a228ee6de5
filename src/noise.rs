//! The lattice behind the shake noise field: a seeded permutation of the
//! 256 byte values, hashed at integer grid points into one of eight gradient
//! directions. The renderer blends the gradients of a cell's four corners
//! into a smooth value.
use vstd::prelude::*;

verus! {

/// Number of entries of the permutation table; grid coordinates wrap at it.
pub const LATTICE_SIZE: usize = 256;

/// Multiplier of the linear congruential generator that shuffles the table.
pub const LCG_MULTIPLIER: u64 = 1664525;

/// Increment of the linear congruential generator that shuffles the table.
pub const LCG_INCREMENT: u64 = 1013904223;

/// Modulus of the linear congruential generator.
pub const LCG_MODULUS: u64 = 0x1_0000_0000;

/// The generator state after `state`.
pub open spec fn lcg_next(state: int) -> int {
    (state * LCG_MULTIPLIER + LCG_INCREMENT) % (LCG_MODULUS as int)
}

/// The values `0..n` in order.
pub open spec fn identity_table(n: nat) -> Seq<u8> {
    Seq::new(n, |i: int| i as u8)
}

/// The Fisher-Yates steps for positions `i` down to 1: each swaps position
/// `i` with the position that the next generator state selects among
/// `0..=i`.
pub open spec fn shuffle_down(t: Seq<u8>, state: int, i: nat) -> Seq<u8>
    decreases i,
{
    if i == 0 {
        t
    } else {
        let next = lcg_next(state);
        let j = next % (i + 1) as int;
        shuffle_down(t.update(i as int, t[j]).update(j, t[i as int]), next, (i - 1) as nat)
    }
}

/// The table that a seed gives.
pub open spec fn seeded_table(seed: u32) -> Seq<u8> {
    shuffle_down(identity_table(LATTICE_SIZE as nat), seed as int, (LATTICE_SIZE - 1) as nat)
}

/// No value occurs twice in `t`.
pub open spec fn distinct(t: Seq<u8>) -> bool {
    forall|i: int, j: int| 0 <= i < t.len() && 0 <= j < t.len() && i != j ==> t[i] != t[j]
}

/// The hash of grid point `(cx, cy)`: both coordinates wrap at the table
/// size, the first is looked up, the second added, and the sum looked up.
pub open spec fn corner_hash(t: Seq<u8>, cx: int, cy: int) -> u8 {
    t[(t[cx % 256] as int + cy % 256) % 256]
}

/// The gradient that a hash selects: the low three bits pick one of the four
/// diagonals or the four axes.
pub open spec fn gradient(h: int) -> (int, int) {
    let k = h % 8;
    if k == 0 {
        (1, 1)
    } else if k == 1 {
        (-1, 1)
    } else if k == 2 {
        (1, -1)
    } else if k == 3 {
        (-1, -1)
    } else if k == 4 {
        (1, 0)
    } else if k == 5 {
        (-1, 0)
    } else if k == 6 {
        (0, 1)
    } else {
        (0, -1)
    }
}

/// The gradient that the hash `h` selects.
pub fn gradient_of(h: u8) -> (g: (i8, i8))
    ensures
        g.0 == gradient(h as int).0,
        g.1 == gradient(h as int).1,
{
    match h % 8 {
        0 => (1, 1),
        1 => (-1, 1),
        2 => (1, -1),
        3 => (-1, -1),
        4 => (1, 0),
        5 => (-1, 0),
        6 => (0, 1),
        _ => (0, -1),
    }
}

/// The successor of a coordinate wraps to the successor of its wrapped value.
proof fn lemma_wrap_next(c: int)
    ensures
        (c + 1) % 256 == (c % 256 + 1) % 256,
{
}

/// The hash of a grid point depends on its coordinates modulo the table size.
proof fn lemma_wrapped_hash(t: Seq<u8>, cx: int, cy: int, wx: int, wy: int)
    requires
        wx == cx % 256,
        wy == cy % 256,
    ensures
        corner_hash(t, cx, cy) == corner_hash(t, wx, wy),
{
    assert(wx % 256 == wx);
    assert(wy % 256 == wy);
}

/// Swapping two entries keeps the values distinct.
proof fn lemma_swap_distinct(t: Seq<u8>, i: int, j: int)
    requires
        distinct(t),
        0 <= i < t.len(),
        0 <= j < t.len(),
    ensures
        distinct(t.update(i, t[j]).update(j, t[i])),
{
    let u = t.update(i, t[j]).update(j, t[i]);
    assert forall|a: int, b: int| 0 <= a < u.len() && 0 <= b < u.len() && a != b implies u[a]
        != u[b] by {
        let pa = if a == j {
            i
        } else if a == i {
            j
        } else {
            a
        };
        let pb = if b == j {
            i
        } else if b == i {
            j
        } else {
            b
        };
        assert(u[a] == t[pa]);
        assert(u[b] == t[pb]);
    }
}

/// The permutation table of a noise field.
pub struct NoiseLattice {
    table: Vec<u8>,
}

impl NoiseLattice {
    pub closed spec fn table(&self) -> Seq<u8> {
        self.table@
    }

    /// The table holds each byte value exactly once.
    pub open spec fn wf(&self) -> bool {
        &&& self.table().len() == LATTICE_SIZE
        &&& distinct(self.table())
    }

    /// The lattice of `seed`: the byte values shuffled by the generator
    /// started at `seed`. The same seed always gives the same lattice.
    pub fn new(seed: u32) -> (r: Self)
        ensures
            r.wf(),
            r.table() == seeded_table(seed),
    {
        let mut table: Vec<u8> = Vec::new();
        let mut v: usize = 0;
        while v < LATTICE_SIZE
            invariant
                v <= LATTICE_SIZE,
                table@ == identity_table(v as nat),
            decreases LATTICE_SIZE - v,
        {
            table.push(v as u8);
            v = v + 1;
            proof {
                assert(table@ =~= identity_table(v as nat));
            }
        }
        proof {
            assert(distinct(table@)) by {
                assert forall|a: int, b: int|
                    0 <= a < table@.len() && 0 <= b < table@.len() && a != b implies table@[a]
                    != table@[b] by {
                    assert(table@[a] == a as u8);
                    assert(table@[b] == b as u8);
                }
            }
        }
        let mut state: u64 = seed as u64;
        let mut i: usize = LATTICE_SIZE - 1;
        while i > 0
            invariant
                i < LATTICE_SIZE,
                state < LCG_MODULUS,
                table@.len() == LATTICE_SIZE,
                distinct(table@),
                shuffle_down(table@, state as int, i as nat) == seeded_table(seed),
            decreases i,
        {
            assert(state * LCG_MULTIPLIER <= (LCG_MODULUS - 1) * LCG_MULTIPLIER) by (nonlinear_arith)
                requires
                    state < LCG_MODULUS,
            ;
            let next: u64 = (state * LCG_MULTIPLIER + LCG_INCREMENT) % LCG_MODULUS;
            let j: usize = (next % ((i as u64) + 1)) as usize;
            let ti = table[i];
            let tj = table[j];
            proof {
                lemma_swap_distinct(table@, i as int, j as int);
            }
            table.set(i, tj);
            table.set(j, ti);
            state = next;
            i = i - 1;
        }
        NoiseLattice { table }
    }

    /// Reduces a grid coordinate modulo the table size.
    fn wrap(c: i32) -> (r: usize)
        ensures
            r as int == c as int % 256,
            r < LATTICE_SIZE,
    {
        let shifted: u64 = (c as i64 + 2147483648) as u64;
        proof {
            assert((c as int + 2147483648) % 256 == c as int % 256);
        }
        (shifted % 256) as usize
    }

    /// The hash of grid point `(cx, cy)`.
    pub fn corner_hash(&self, cx: i32, cy: i32) -> (h: u8)
        requires
            self.wf(),
        ensures
            h == corner_hash(self.table(), cx as int, cy as int),
    {
        let wx = Self::wrap(cx);
        let wy = Self::wrap(cy);
        proof {
            lemma_wrapped_hash(self.table(), cx as int, cy as int, wx as int, wy as int);
        }
        self.hash_at(wx, wy)
    }

    /// The gradient at grid point `(cx, cy)`.
    pub fn corner_gradient(&self, cx: i32, cy: i32) -> (g: (i8, i8))
        requires
            self.wf(),
        ensures
            g.0 == gradient(corner_hash(self.table(), cx as int, cy as int) as int).0,
            g.1 == gradient(corner_hash(self.table(), cx as int, cy as int) as int).1,
    {
        gradient_of(self.corner_hash(cx, cy))
    }

    /// The gradients at the corners of the cell whose lower corner is
    /// `(cx, cy)`, in the order `(cx, cy)`, `(cx + 1, cy)`, `(cx, cy + 1)`,
    /// `(cx + 1, cy + 1)`. The coordinates wrap, so the cell next to the
    /// largest `i32` is the one next to the table's last entry.
    pub fn cell_gradients(&self, cx: i32, cy: i32) -> (g: [(i8, i8); 4])
        requires
            self.wf(),
        ensures
            g[0].0 == gradient(corner_hash(self.table(), cx as int, cy as int) as int).0,
            g[0].1 == gradient(corner_hash(self.table(), cx as int, cy as int) as int).1,
            g[1].0 == gradient(corner_hash(self.table(), cx + 1, cy as int) as int).0,
            g[1].1 == gradient(corner_hash(self.table(), cx + 1, cy as int) as int).1,
            g[2].0 == gradient(corner_hash(self.table(), cx as int, cy + 1) as int).0,
            g[2].1 == gradient(corner_hash(self.table(), cx as int, cy + 1) as int).1,
            g[3].0 == gradient(corner_hash(self.table(), cx + 1, cy + 1) as int).0,
            g[3].1 == gradient(corner_hash(self.table(), cx + 1, cy + 1) as int).1,
    {
        let wx = Self::wrap(cx);
        let wy = Self::wrap(cy);
        let wx1 = (wx + 1) % 256;
        let wy1 = (wy + 1) % 256;
        proof {
            lemma_wrap_next(cx as int);
            lemma_wrap_next(cy as int);
            lemma_wrapped_hash(self.table(), cx as int, cy as int, wx as int, wy as int);
            lemma_wrapped_hash(self.table(), cx + 1, cy as int, wx1 as int, wy as int);
            lemma_wrapped_hash(self.table(), cx as int, cy + 1, wx as int, wy1 as int);
            lemma_wrapped_hash(self.table(), cx + 1, cy + 1, wx1 as int, wy1 as int);
        }
        let g0 = self.gradient_at(wx, wy);
        let g1 = self.gradient_at(wx1, wy);
        let g2 = self.gradient_at(wx, wy1);
        let g3 = self.gradient_at(wx1, wy1);
        [g0, g1, g2, g3]
    }

    /// The hash of the wrapped grid point `(wx, wy)`.
    fn hash_at(&self, wx: usize, wy: usize) -> (h: u8)
        requires
            self.wf(),
            wx < LATTICE_SIZE,
            wy < LATTICE_SIZE,
        ensures
            h == corner_hash(self.table(), wx as int, wy as int),
    {
        let first = self.table[wx] as usize;
        self.table[(first + wy) % 256]
    }

    /// The gradient at the wrapped grid point `(wx, wy)`.
    fn gradient_at(&self, wx: usize, wy: usize) -> (g: (i8, i8))
        requires
            self.wf(),
            wx < LATTICE_SIZE,
            wy < LATTICE_SIZE,
        ensures
            g.0 == gradient(corner_hash(self.table(), wx as int, wy as int) as int).0,
            g.1 == gradient(corner_hash(self.table(), wx as int, wy as int) as int).1,
    {
        gradient_of(self.hash_at(wx, wy))
    }
}

} // verus!
