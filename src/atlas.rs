//! A fixed-size square texture that hands out non-overlapping rectangles.
use vstd::prelude::*;

verus! {

/// A rectangle of the atlas, in texels.
#[derive(Clone, Copy, Debug, PartialEq, Eq, Structural)]
pub struct Sprite {
    pub x: u32,
    pub y: u32,
    pub width: u32,
    pub height: u32,
}

pub open spec fn disjoint(a: Sprite, b: Sprite) -> bool {
    ||| a.x + a.width <= b.x
    ||| b.x + b.width <= a.x
    ||| a.y + a.height <= b.y
    ||| b.y + b.height <= a.y
}

pub open spec fn within(s: Sprite, side: u32) -> bool {
    s.x + s.width <= side && s.y + s.height <= side
}

/// The atlas has no room for a rectangle; `size` is the side of an atlas
/// that would be worth trying instead.
#[derive(Clone, Copy, Debug, PartialEq, Eq, Structural)]
pub struct OutOfTextureSpace {
    pub size: u64,
}

/// Rows ("shelves") are filled left to right; a rectangle that does not
/// fit in the current row opens a new row under it.  The atlas never
/// grows: when no row has room, allocation fails.
pub struct Atlas {
    side: u32,
    cursor_x: u32,
    row_y: u32,
    row_height: u32,
    allocated: Ghost<Seq<Sprite>>,
}

impl Atlas {
    pub closed spec fn spec_side(&self) -> u32 {
        self.side
    }

    /// Every rectangle handed out so far, in order.
    pub closed spec fn spec_allocated(&self) -> Seq<Sprite> {
        self.allocated@
    }

    pub closed spec fn wf(&self) -> bool {
        &&& self.cursor_x <= self.side
        &&& self.row_y + self.row_height <= self.side
        &&& forall|i: int|
            0 <= i < self.allocated@.len() ==> {
                let s = #[trigger] self.allocated@[i];
                &&& within(s, self.side)
                &&& (s.y + s.height <= self.row_y || (s.y == self.row_y && s.x + s.width
                    <= self.cursor_x && s.height <= self.row_height))
            }
        &&& forall|i: int, j: int|
            0 <= i < j < self.allocated@.len() ==> disjoint(
                #[trigger] self.allocated@[i],
                #[trigger] self.allocated@[j],
            )
    }

    /// Whether a `width` x `height` rectangle fits: in the current row, or
    /// in a new row under it.
    pub closed spec fn spec_fits(&self, width: u32, height: u32) -> bool {
        ||| (self.cursor_x + width <= self.side && self.row_y + height <= self.side)
        ||| (width <= self.side && self.row_y + self.row_height + height <= self.side)
    }

    /// Where a `width` x `height` request is placed: after the last
    /// rectangle of the current row if it fits there, else at the start of
    /// a new row under it.
    pub closed spec fn spec_next_slot(&self, width: u32, height: u32) -> Sprite {
        if self.cursor_x + width <= self.side && self.row_y + height <= self.side {
            Sprite { x: self.cursor_x, y: self.row_y, width, height }
        } else {
            Sprite { x: 0, y: (self.row_y + self.row_height) as u32, width, height }
        }
    }

    /// The side worth asking for after a `width` x `height` request failed.
    pub open spec fn spec_grown_side(side: u32, width: u32, height: u32) -> u64 {
        let doubled = (2 * side) as u64;
        let needed = if width >= height { width as u64 } else { height as u64 };
        if doubled >= needed { doubled } else { needed }
    }

    /// An empty atlas of `side` x `side` texels.
    pub fn new(side: u32) -> (r: Atlas)
        ensures
            r.wf(),
            r.spec_side() == side,
            r.spec_allocated() == Seq::<Sprite>::empty(),
    {
        Atlas { side, cursor_x: 0, row_y: 0, row_height: 0, allocated: Ghost(Seq::empty()) }
    }

    pub fn side(&self) -> (r: u32)
        ensures
            r == self.spec_side(),
    {
        self.side
    }

    /// Reserves a `width` x `height` rectangle that overlaps no earlier one,
    /// or reports that there is no room.
    pub fn allocate(&mut self, width: u32, height: u32) -> (r: Result<Sprite, OutOfTextureSpace>)
        requires
            old(self).wf(),
        ensures
            final(self).wf(),
            final(self).spec_side() == old(self).spec_side(),
            r is Ok <==> old(self).spec_fits(width, height),
            r matches Ok(s) ==> {
                &&& s == old(self).spec_next_slot(width, height)
                &&& s.width == width && s.height == height
                &&& within(s, old(self).spec_side())
                &&& forall|i: int|
                    0 <= i < old(self).spec_allocated().len() ==> disjoint(
                        #[trigger] old(self).spec_allocated()[i],
                        s,
                    )
                &&& final(self).spec_allocated() == old(self).spec_allocated().push(s)
            },
            r matches Err(e) ==> {
                &&& e.size == Atlas::spec_grown_side(old(self).spec_side(), width, height)
                &&& *final(self) == *old(self)
            },
    {
        let fits_row = (self.cursor_x as u64 + width as u64 <= self.side as u64) && (self.row_y as u64
            + height as u64 <= self.side as u64);
        let fits_new_row = width <= self.side && (self.row_y as u64 + self.row_height as u64
            + height as u64 <= self.side as u64);
        if !fits_row && !fits_new_row {
            let doubled = 2 * self.side as u64;
            let needed = if width >= height {
                width as u64
            } else {
                height as u64
            };
            return Err(OutOfTextureSpace { size: if doubled >= needed { doubled } else { needed } });
        }
        if !fits_row {
            self.row_y = self.row_y + self.row_height;
            self.cursor_x = 0;
            self.row_height = 0;
        }
        let s = Sprite { x: self.cursor_x, y: self.row_y, width, height };
        let ghost old_alloc = self.allocated@;
        self.cursor_x = self.cursor_x + width;
        if height > self.row_height {
            self.row_height = height;
        }
        self.allocated = Ghost(old_alloc.push(s));
        proof {
            assert forall|i: int| 0 <= i < old_alloc.len() implies disjoint(
                #[trigger] old_alloc[i],
                s,
            ) by {
                assert(old_alloc[i] == old(self).allocated@[i]);
            }
            assert forall|i: int, j: int|
                0 <= i < j < self.allocated@.len() implies disjoint(
                #[trigger] self.allocated@[i],
                #[trigger] self.allocated@[j],
            ) by {
                if j == old_alloc.len() {
                    assert(self.allocated@[i] == old_alloc[i]);
                } else {
                    assert(self.allocated@[i] == old(self).allocated@[i]);
                    assert(self.allocated@[j] == old(self).allocated@[j]);
                }
            }
            assert forall|i: int| 0 <= i < self.allocated@.len() implies {
                let t = #[trigger] self.allocated@[i];
                &&& within(t, self.side)
                &&& (t.y + t.height <= self.row_y || (t.y == self.row_y && t.x + t.width
                    <= self.cursor_x && t.height <= self.row_height))
            } by {
                if i < old_alloc.len() {
                    assert(self.allocated@[i] == old(self).allocated@[i]);
                }
            }
        }
        Ok(s)
    }
}

} // verus!
