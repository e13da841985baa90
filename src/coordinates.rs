//! Cube coordinates of hex tiles and the canonical order of a tile's six neighbours.
use vstd::prelude::*;

verus! {

/// A hex position in cube coordinates; a valid position satisfies `q + r + s == 0`.
#[derive(Debug, Clone, Copy, PartialEq, Eq, Hash, Structural)]
pub struct CubeCoordinates {
    pub q: i32,
    pub r: i32,
    pub s: i32,
}

/// The six unit steps around a hex, in the canonical neighbour order
/// (east, south-east, south-west, west, north-west, north-east).
pub open spec fn direction(i: int) -> (int, int, int) {
    if i == 0 {
        (1, 0, -1)
    } else if i == 1 {
        (0, 1, -1)
    } else if i == 2 {
        (-1, 1, 0)
    } else if i == 3 {
        (-1, 0, 1)
    } else if i == 4 {
        (0, -1, 1)
    } else {
        (1, -1, 0)
    }
}

impl CubeCoordinates {
    /// Each coordinate is one step away from the integer limits, so a neighbour step fits.
    pub open spec fn in_range(self) -> bool {
        i32::MIN < self.q < i32::MAX && i32::MIN < self.r < i32::MAX && i32::MIN < self.s
            < i32::MAX
    }

    pub open spec fn is_valid(self) -> bool {
        self.q + self.r + self.s == 0
    }

    /// The neighbour of `self` in direction `i` (0..6).
    pub open spec fn neighbor(self, i: int) -> CubeCoordinates {
        CubeCoordinates {
            q: (self.q + direction(i).0) as i32,
            r: (self.r + direction(i).1) as i32,
            s: (self.s + direction(i).2) as i32,
        }
    }

    pub open spec fn neighbors(self) -> Seq<CubeCoordinates> {
        seq![
            self.neighbor(0),
            self.neighbor(1),
            self.neighbor(2),
            self.neighbor(3),
            self.neighbor(4),
            self.neighbor(5),
        ]
    }

    pub fn from(q: i32, r: i32, s: i32) -> (c: Self)
        ensures
            c == (CubeCoordinates { q, r, s }),
    {
        CubeCoordinates { q, r, s }
    }

    pub fn from_rs(r: i32, s: i32) -> (c: Self)
        requires
            r > i32::MIN,
            i32::MIN <= -(r + s) <= i32::MAX,
        ensures
            c.q == -(r + s),
            c.r == r,
            c.s == s,
    {
        CubeCoordinates::from(-r - s, r, s)
    }

    pub fn from_qs(q: i32, s: i32) -> (c: Self)
        requires
            q > i32::MIN,
            i32::MIN <= -(q + s) <= i32::MAX,
        ensures
            c.q == q,
            c.r == -(q + s),
            c.s == s,
    {
        CubeCoordinates::from(q, -q - s, s)
    }

    pub fn from_qr(q: i32, r: i32) -> (c: Self)
        requires
            q > i32::MIN,
            i32::MIN <= -(q + r) <= i32::MAX,
        ensures
            c.q == q,
            c.r == r,
            c.s == -(q + r),
    {
        CubeCoordinates::from(q, r, -q - r)
    }

    /// Componentwise sum of two positions.
    pub fn plus(self, rhs: CubeCoordinates) -> (c: CubeCoordinates)
        requires
            i32::MIN <= self.q + rhs.q <= i32::MAX,
            i32::MIN <= self.r + rhs.r <= i32::MAX,
            i32::MIN <= self.s + rhs.s <= i32::MAX,
        ensures
            c.q == self.q + rhs.q,
            c.r == self.r + rhs.r,
            c.s == self.s + rhs.s,
    {
        CubeCoordinates { q: self.q + rhs.q, r: self.r + rhs.r, s: self.s + rhs.s }
    }

    /// The six neighbours, in the canonical order:
    /// ```text
    ///  4 5
    /// 3 T 0
    ///  2 1
    /// ```
    pub fn get_neighbor_coordinates(&self) -> (n: Vec<CubeCoordinates>)
        requires
            self.in_range(),
        ensures
            n@ == self.neighbors(),
    {
        let mut n: Vec<CubeCoordinates> = Vec::new();
        n.push(self.plus(CubeCoordinates::from(1, 0, -1)));
        n.push(self.plus(CubeCoordinates::from(0, 1, -1)));
        n.push(self.plus(CubeCoordinates::from(-1, 1, 0)));
        n.push(self.plus(CubeCoordinates::from(-1, 0, 1)));
        n.push(self.plus(CubeCoordinates::from(0, -1, 1)));
        n.push(self.plus(CubeCoordinates::from(1, -1, 0)));
        assert(n@ =~= self.neighbors());
        n
    }

    /// Componentwise minimum of a non-empty list of positions.
    pub fn min(coordinates: &Vec<CubeCoordinates>) -> (m: CubeCoordinates)
        requires
            coordinates.len() > 0,
        ensures
            forall|i: int|
                0 <= i < coordinates.len() ==> m.q <= #[trigger] coordinates@[i].q && m.r
                    <= coordinates@[i].r && m.s <= coordinates@[i].s,
            exists|i: int| 0 <= i < coordinates.len() && m.q == #[trigger] coordinates@[i].q,
            exists|i: int| 0 <= i < coordinates.len() && m.r == #[trigger] coordinates@[i].r,
            exists|i: int| 0 <= i < coordinates.len() && m.s == #[trigger] coordinates@[i].s,
    {
        let mut m = coordinates[0];
        let ghost mut wq: int = 0;
        let ghost mut wr: int = 0;
        let ghost mut ws: int = 0;
        let mut k: usize = 1;
        while k < coordinates.len()
            invariant
                1 <= k <= coordinates.len(),
                forall|i: int|
                    0 <= i < k ==> m.q <= #[trigger] coordinates@[i].q && m.r <= coordinates@[i].r
                        && m.s <= coordinates@[i].s,
                0 <= wq < k && m.q == coordinates@[wq].q,
                0 <= wr < k && m.r == coordinates@[wr].r,
                0 <= ws < k && m.s == coordinates@[ws].s,
            decreases coordinates.len() - k,
        {
            let c = coordinates[k];
            if c.q < m.q {
                m.q = c.q;
                proof {
                    wq = k as int;
                }
            }
            if c.r < m.r {
                m.r = c.r;
                proof {
                    wr = k as int;
                }
            }
            if c.s < m.s {
                m.s = c.s;
                proof {
                    ws = k as int;
                }
            }
            k = k + 1;
        }
        m
    }

    /// Componentwise maximum of a non-empty list of positions.
    pub fn max(coordinates: &Vec<CubeCoordinates>) -> (m: CubeCoordinates)
        requires
            coordinates.len() > 0,
        ensures
            forall|i: int|
                0 <= i < coordinates.len() ==> m.q >= #[trigger] coordinates@[i].q && m.r
                    >= coordinates@[i].r && m.s >= coordinates@[i].s,
            exists|i: int| 0 <= i < coordinates.len() && m.q == #[trigger] coordinates@[i].q,
            exists|i: int| 0 <= i < coordinates.len() && m.r == #[trigger] coordinates@[i].r,
            exists|i: int| 0 <= i < coordinates.len() && m.s == #[trigger] coordinates@[i].s,
    {
        let mut m = coordinates[0];
        let ghost mut wq: int = 0;
        let ghost mut wr: int = 0;
        let ghost mut ws: int = 0;
        let mut k: usize = 1;
        while k < coordinates.len()
            invariant
                1 <= k <= coordinates.len(),
                forall|i: int|
                    0 <= i < k ==> m.q >= #[trigger] coordinates@[i].q && m.r >= coordinates@[i].r
                        && m.s >= coordinates@[i].s,
                0 <= wq < k && m.q == coordinates@[wq].q,
                0 <= wr < k && m.r == coordinates@[wr].r,
                0 <= ws < k && m.s == coordinates@[ws].s,
            decreases coordinates.len() - k,
        {
            let c = coordinates[k];
            if c.q > m.q {
                m.q = c.q;
                proof {
                    wq = k as int;
                }
            }
            if c.r > m.r {
                m.r = c.r;
                proof {
                    wr = k as int;
                }
            }
            if c.s > m.s {
                m.s = c.s;
                proof {
                    ws = k as int;
                }
            }
            k = k + 1;
        }
        m
    }
}

} // verus!
