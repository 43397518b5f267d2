//! Which units of a superblock have been reconstructed.
use vstd::prelude::*;

verus! {

/// The units of an area of 64 by 64 units that have been reconstructed.
pub struct CodedGrid {
    cells: Vec<bool>,
}

/// The place of a unit.
pub open spec fn cell(x: int, y: int) -> int {
    y * 64 + x
}

/// The unit lies in the area.
pub open spec fn in_area(x: int, y: int) -> bool {
    0 <= x < 64 && 0 <= y < 64
}

/// The unit lies in the rectangle of `w` by `h` units at `(x0, y0)`.
pub open spec fn in_rect(x: int, y: int, x0: int, y0: int, w: int, h: int) -> bool {
    x0 <= x < x0 + w && y0 <= y < y0 + h
}

impl CodedGrid {
    pub closed spec fn wf(self) -> bool {
        self.cells@.len() == 64 * 64
    }

    /// Whether a unit has been reconstructed; units outside of the area have
    /// not.
    pub closed spec fn coded(self, x: int, y: int) -> bool {
        in_area(x, y) && self.cells@[cell(x, y)]
    }

    /// How many units in a row from `(x, y)` to the right have been
    /// reconstructed, up to `n`.
    pub open spec fn run_right(self, x: int, y: int, n: int) -> int
        decreases n,
    {
        if n <= 0 || !self.coded(x, y) {
            0
        } else {
            1 + self.run_right(x + 1, y, n - 1)
        }
    }

    /// How many units in a column from `(x, y)` down have been reconstructed,
    /// up to `n`.
    pub open spec fn run_down(self, x: int, y: int, n: int) -> int
        decreases n,
    {
        if n <= 0 || !self.coded(x, y) {
            0
        } else {
            1 + self.run_down(x, y + 1, n - 1)
        }
    }

    /// An area of which nothing has been reconstructed.
    pub fn new() -> (r: Self)
        ensures
            r.wf(),
            forall|x: int, y: int| !(#[trigger] r.coded(x, y)),
    {
        let mut cells: Vec<bool> = Vec::new();
        while cells.len() < 4096
            invariant
                cells@.len() <= 4096,
                forall|i: int| 0 <= i < cells@.len() ==> !cells@[i],
            decreases 4096 - cells@.len(),
        {
            cells.push(false);
        }
        CodedGrid { cells }
    }

    /// Forgets all units.
    pub fn clear(&mut self)
        requires
            old(self).wf(),
        ensures
            final(self).wf(),
            forall|x: int, y: int| !(#[trigger] final(self).coded(x, y)),
    {
        let mut i: usize = 0;
        while i < 4096
            invariant
                i <= 4096,
                self.cells@.len() == 4096,
                forall|k: int| 0 <= k < i ==> !self.cells@[k],
            decreases 4096 - i,
        {
            self.cells.set(i, false);
            i = i + 1;
        }
    }

    pub fn is_coded(&self, x: i32, y: i32) -> (r: bool)
        requires
            self.wf(),
        ensures
            r == self.coded(x as int, y as int),
    {
        0 <= x && x < 64 && 0 <= y && y < 64 && self.cells[(y * 64 + x) as usize]
    }

    /// Marks the part of a rectangle that lies in the area.
    pub fn mark(&mut self, x: i32, y: i32, w: i32, h: i32)
        requires
            old(self).wf(),
            0 <= x <= 64,
            0 <= y <= 64,
            w <= 64,
            h <= 64,
        ensures
            final(self).wf(),
            forall|i: int, j: int|
                #[trigger] final(self).coded(i, j) == (old(self).coded(i, j) || (in_area(i, j)
                    && in_rect(i, j, x as int, y as int, w as int, h as int))),
    {
        let ghost c0 = self.cells@;
        let mut j: i32 = y;
        while j < 64 && j < y + h
            invariant
                0 <= x <= 64,
                0 <= y <= 64,
                y <= j <= 64,
                w <= 64,
                h <= 64,
                h > 0 ==> j <= y + h,
                h <= 0 ==> j == y,
                self.cells@.len() == 4096,
                c0.len() == 4096,
                forall|p: int, q: int|
                    #![trigger self.cells@[cell(p, q)]]
                    in_area(p, q) ==> self.cells@[cell(p, q)] == (c0[cell(p, q)] || (q < j
                        && in_rect(p, q, x as int, y as int, w as int, h as int))),
            decreases 64 - j,
        {
            let ghost c1 = self.cells@;
            let mut i: i32 = x;
            while i < 64 && i < x + w
                invariant
                    0 <= x <= i <= 64,
                    0 <= y <= j < 64,
                    j < y + h,
                    w <= 64,
                    w > 0 ==> i <= x + w,
                    w <= 0 ==> i == x,
                    self.cells@.len() == 4096,
                    c1.len() == 4096,
                    forall|k: int|
                        0 <= k < 4096 ==> #[trigger] self.cells@[k] == (c1[k] || (j * 64 + x <= k
                            < j * 64 + i)),
                decreases 64 - i,
            {
                self.cells.set((j * 64 + i) as usize, true);
                i = i + 1;
            }
            assert forall|p: int, q: int|
                #![trigger self.cells@[cell(p, q)]]
                in_area(p, q) implies self.cells@[cell(p, q)] == (c0[cell(p, q)] || (q < j + 1
                && in_rect(p, q, x as int, y as int, w as int, h as int))) by {
                assert(self.cells@[cell(p, q)] == (c1[cell(p, q)] || (j * 64 + x <= cell(p, q) < j
                    * 64 + i)));
                assert(c1[cell(p, q)] == (c0[cell(p, q)] || (q < j && in_rect(
                    p,
                    q,
                    x as int,
                    y as int,
                    w as int,
                    h as int,
                ))));
            }
            j = j + 1;
        }
        assert forall|p: int, q: int|
            #[trigger] self.coded(p, q) == (old(self).coded(p, q) || (in_area(p, q) && in_rect(
                p,
                q,
                x as int,
                y as int,
                w as int,
                h as int,
            ))) by {
            if in_area(p, q) {
                assert(self.cells@[cell(p, q)] == (c0[cell(p, q)] || (q < j && in_rect(
                    p,
                    q,
                    x as int,
                    y as int,
                    w as int,
                    h as int,
                ))));
            }
        }
    }

    pub fn count_right(&self, x: i32, y: i32, n: i32) -> (r: i32)
        requires
            self.wf(),
            0 <= x <= 64,
            n <= 64,
        ensures
            r == self.run_right(x as int, y as int, n as int),
            0 <= r,
            r <= n || r == 0,
    {
        let mut k: i32 = 0;
        while k < n && self.is_coded(x + k, y)
            invariant
                self.wf(),
                0 <= x <= 64,
                n <= 64,
                0 <= k,
                k <= n || k == 0,
                self.run_right(x as int, y as int, n as int) == k + self.run_right(
                    x + k,
                    y as int,
                    n - k,
                ),
            decreases n - k,
        {
            k = k + 1;
        }
        k
    }

    pub fn count_down(&self, x: i32, y: i32, n: i32) -> (r: i32)
        requires
            self.wf(),
            0 <= y <= 256,
            n <= 64,
        ensures
            r == self.run_down(x as int, y as int, n as int),
            0 <= r,
            r <= n || r == 0,
    {
        let mut k: i32 = 0;
        while k < n && self.is_coded(x, y + k)
            invariant
                self.wf(),
                0 <= y <= 256,
                n <= 64,
                0 <= k,
                k <= n || k == 0,
                self.run_down(x as int, y as int, n as int) == k + self.run_down(
                    x as int,
                    y + k,
                    n - k,
                ),
            decreases n - k,
        {
            k = k + 1;
        }
        k
    }
}

proof fn lemma_run_right_nonneg(g: CodedGrid, x: int, y: int, n: int)
    ensures
        0 <= g.run_right(x, y, n),
    decreases n,
{
    if n > 0 {
        lemma_run_right_nonneg(g, x + 1, y, n - 1);
    }
}

/// A run counts units that have all been reconstructed, and where it is
/// shorter than asked for, the next one has not.
pub proof fn law_run_right_is_maximal(g: CodedGrid, x: int, y: int, n: int, k: int)
    requires
        0 <= k < g.run_right(x, y, n),
    ensures
        g.coded(x + k, y),
        g.run_right(x, y, n) <= n,
        g.run_right(x, y, n) < n ==> !g.coded(x + g.run_right(x, y, n), y),
    decreases n,
{
    reveal_with_fuel(CodedGrid::run_right, 2);
    if n > 0 && g.coded(x, y) {
        if k > 0 {
            law_run_right_is_maximal(g, x + 1, y, n - 1, k - 1);
        } else if g.run_right(x + 1, y, n - 1) > 0 {
            law_run_right_is_maximal(g, x + 1, y, n - 1, 0);
        } else {
            lemma_run_right_nonneg(g, x + 1, y, n - 1);
            lemma_run_right_nonneg(g, x + 2, y, n - 2);
        }
        assert(x + g.run_right(x, y, n) == (x + 1) + g.run_right(x + 1, y, n - 1));
    }
}

proof fn lemma_run_down_nonneg(g: CodedGrid, x: int, y: int, n: int)
    ensures
        0 <= g.run_down(x, y, n),
    decreases n,
{
    if n > 0 {
        lemma_run_down_nonneg(g, x, y + 1, n - 1);
    }
}

/// A run downwards counts units of its column that have all been
/// reconstructed, and where it is shorter than asked for, the next one has not.
pub proof fn law_run_down_is_maximal(g: CodedGrid, x: int, y: int, n: int, k: int)
    requires
        0 <= k < g.run_down(x, y, n),
    ensures
        g.coded(x, y + k),
        g.run_down(x, y, n) <= n,
        g.run_down(x, y, n) < n ==> !g.coded(x, y + g.run_down(x, y, n)),
    decreases n,
{
    reveal_with_fuel(CodedGrid::run_down, 2);
    if n > 0 && g.coded(x, y) {
        if k > 0 {
            law_run_down_is_maximal(g, x, y + 1, n - 1, k - 1);
        } else if g.run_down(x, y + 1, n - 1) > 0 {
            law_run_down_is_maximal(g, x, y + 1, n - 1, 0);
        } else {
            lemma_run_down_nonneg(g, x, y + 1, n - 1);
            lemma_run_down_nonneg(g, x, y + 2, n - 2);
        }
        assert(y + g.run_down(x, y, n) == (y + 1) + g.run_down(x, y + 1, n - 1));
    }
}

} // verus!
