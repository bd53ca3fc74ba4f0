use vstd::prelude::*;

verus! {

/// `mem` with the bytes `[addr, addr + size)` replaced by element `k` of
/// `tile`, that is by the bytes `[k * size, (k + 1) * size)` of `tile`.
pub open spec fn put_item(mem: Seq<u8>, addr: int, tile: Seq<u8>, k: int, size: int) -> Seq<u8> {
    Seq::new(
        mem.len(),
        |j: int|
            if addr <= j < addr + size {
                tile[k * size + (j - addr)]
            } else {
                mem[j]
            },
    )
}

/// Where the elements of a micro-tile go in memory. Element `(y, x)` sits at
/// `origin + row_stride * y + col_stride * x` in memory, and at index
/// `y + x * mr` in the tile buffer; each element is `item_size` bytes.
pub struct Placement {
    pub origin: int,
    pub row_stride: int,
    pub col_stride: int,
    pub mr: int,
    pub item_size: int,
}

impl Placement {
    /// Memory address of element `(y, x)`.
    pub open spec fn addr(self, y: int, x: int) -> int {
        self.origin + self.row_stride * y + self.col_stride * x
    }

    /// Index of element `(y, x)` in the tile buffer.
    pub open spec fn index(self, y: int, x: int) -> int {
        y + x * self.mr
    }

    /// Whether memory byte `j` belongs to element `(y, x)`.
    pub open spec fn covers(self, y: int, x: int, j: int) -> bool {
        self.addr(y, x) <= j < self.addr(y, x) + self.item_size
    }

    /// `mem` after element `(y, x)` of `tile` is written.
    pub open spec fn put(self, mem: Seq<u8>, tile: Seq<u8>, y: int, x: int) -> Seq<u8> {
        put_item(mem, self.addr(y, x), tile, self.index(y, x), self.item_size)
    }

    /// `mem` after elements `(y, 0)` to `(y, w - 1)` are written, in order.
    pub open spec fn put_row(self, mem: Seq<u8>, tile: Seq<u8>, y: int, w: nat) -> Seq<u8>
        decreases w,
    {
        if w == 0 {
            mem
        } else {
            self.put(self.put_row(mem, tile, y, (w - 1) as nat), tile, y, w - 1)
        }
    }

    /// `mem` after rows `0` to `h - 1`, each of `w` elements, are written in order.
    pub open spec fn put_rows(self, mem: Seq<u8>, tile: Seq<u8>, h: nat, w: nat) -> Seq<u8>
        decreases h,
    {
        if h == 0 {
            mem
        } else {
            self.put_row(self.put_rows(mem, tile, (h - 1) as nat, w), tile, h - 1, w)
        }
    }

    /// Every element of an `h` by `w` tile lies inside a memory of `mem_len`
    /// bytes and inside a tile buffer of `tile_len` bytes.
    pub open spec fn fits(self, mem_len: int, tile_len: int, h: int, w: int) -> bool {
        forall|y: int, x: int|
            0 <= y < h && 0 <= x < w ==> {
                &&& 0 <= #[trigger] self.addr(y, x)
                &&& self.addr(y, x) + self.item_size <= mem_len
                &&& 0 <= self.index(y, x) * self.item_size
                &&& self.index(y, x) * self.item_size + self.item_size <= tile_len
            }
    }

    /// No two elements of an `h` by `w` tile share a memory byte.
    pub open spec fn disjoint(self, h: int, w: int) -> bool {
        forall|y1: int, x1: int, y2: int, x2: int|
            0 <= y1 < h && 0 <= x1 < w && 0 <= y2 < h && 0 <= x2 < w && (y1 != y2 || x1 != x2)
                ==> #[trigger] self.addr(y1, x1) + self.item_size <= #[trigger] self.addr(y2, x2)
                || self.addr(y2, x2) + self.item_size <= self.addr(y1, x1)
    }
}

pub proof fn lemma_put_row_len(p: Placement, mem: Seq<u8>, tile: Seq<u8>, y: int, w: nat)
    ensures
        p.put_row(mem, tile, y, w).len() == mem.len(),
    decreases w,
{
    if w > 0 {
        lemma_put_row_len(p, mem, tile, y, (w - 1) as nat);
    }
}

pub proof fn lemma_put_rows_len(p: Placement, mem: Seq<u8>, tile: Seq<u8>, h: nat, w: nat)
    ensures
        p.put_rows(mem, tile, h, w).len() == mem.len(),
    decreases h,
{
    if h > 0 {
        lemma_put_rows_len(p, mem, tile, (h - 1) as nat, w);
        lemma_put_row_len(p, p.put_rows(mem, tile, (h - 1) as nat, w), tile, h - 1, w);
    }
}

/// Writing row `y` leaves every byte outside its elements as it was.
pub proof fn lemma_put_row_outside(
    p: Placement,
    mem: Seq<u8>,
    tile: Seq<u8>,
    y: int,
    w: nat,
    j: int,
)
    requires
        0 <= j < mem.len(),
        forall|x: int| 0 <= x < w ==> !#[trigger] p.covers(y, x, j),
    ensures
        p.put_row(mem, tile, y, w)[j] == mem[j],
    decreases w,
{
    lemma_put_row_len(p, mem, tile, y, w);
    if w > 0 {
        lemma_put_row_outside(p, mem, tile, y, (w - 1) as nat, j);
        lemma_put_row_len(p, mem, tile, y, (w - 1) as nat);
        assert(!p.covers(y, w - 1, j));
    }
}

/// Writing the rows leaves every byte outside the tile's elements as it was.
pub proof fn lemma_put_rows_outside(
    p: Placement,
    mem: Seq<u8>,
    tile: Seq<u8>,
    h: nat,
    w: nat,
    j: int,
)
    requires
        0 <= j < mem.len(),
        forall|y: int, x: int| 0 <= y < h && 0 <= x < w ==> !#[trigger] p.covers(y, x, j),
    ensures
        p.put_rows(mem, tile, h, w)[j] == mem[j],
    decreases h,
{
    lemma_put_rows_len(p, mem, tile, h, w);
    if h > 0 {
        let prev = p.put_rows(mem, tile, (h - 1) as nat, w);
        lemma_put_rows_outside(p, mem, tile, (h - 1) as nat, w, j);
        lemma_put_rows_len(p, mem, tile, (h - 1) as nat, w);
        assert forall|x: int| 0 <= x < w implies !#[trigger] p.covers(h - 1, x, j) by {}
        lemma_put_row_outside(p, prev, tile, h - 1, w, j);
    }
}

/// After row `y` is written, byte `b` of element `(y, x)` holds byte `b` of
/// tile element `index(y, x)`, provided the row's elements do not overlap.
pub proof fn lemma_put_row_inside(
    p: Placement,
    mem: Seq<u8>,
    tile: Seq<u8>,
    y: int,
    h: int,
    w: nat,
    x: int,
    b: int,
)
    requires
        0 <= y < h,
        0 <= x < w,
        0 <= b < p.item_size,
        p.fits(mem.len() as int, tile.len() as int, h, w as int),
        p.disjoint(h, w as int),
    ensures
        p.put_row(mem, tile, y, w)[p.addr(y, x) + b] == tile[p.index(y, x) * p.item_size + b],
    decreases w,
{
    let prev = p.put_row(mem, tile, y, (w - 1) as nat);
    lemma_put_row_len(p, mem, tile, y, (w - 1) as nat);
    assert(0 <= p.addr(y, x));
    if x < w - 1 {
        assert(p.fits(mem.len() as int, tile.len() as int, h, w - 1));
        assert(p.disjoint(h, w - 1));
        lemma_put_row_inside(p, mem, tile, y, h, (w - 1) as nat, x, b);
        assert(0 <= p.addr(y, w - 1));
    }
}

/// After all rows are written, byte `b` of element `(y, x)` holds byte `b`
/// of tile element `index(y, x)`, provided the elements do not overlap.
pub proof fn lemma_put_rows_inside(
    p: Placement,
    mem: Seq<u8>,
    tile: Seq<u8>,
    h: nat,
    w: nat,
    y: int,
    x: int,
    b: int,
)
    requires
        0 <= y < h,
        0 <= x < w,
        0 <= b < p.item_size,
        p.fits(mem.len() as int, tile.len() as int, h as int, w as int),
        p.disjoint(h as int, w as int),
    ensures
        p.put_rows(mem, tile, h, w)[p.addr(y, x) + b] == tile[p.index(y, x) * p.item_size + b],
    decreases h,
{
    let prev = p.put_rows(mem, tile, (h - 1) as nat, w);
    lemma_put_rows_len(p, mem, tile, (h - 1) as nat, w);
    assert(0 <= p.addr(y, x));
    if y == h - 1 {
        lemma_put_row_inside(p, prev, tile, y, h as int, w, x, b);
    } else {
        assert(p.fits(mem.len() as int, tile.len() as int, h - 1, w as int));
        assert(p.disjoint(h - 1, w as int));
        lemma_put_rows_inside(p, mem, tile, (h - 1) as nat, w, y, x, b);
        assert forall|x2: int| 0 <= x2 < w implies !#[trigger] p.covers(
            h - 1,
            x2,
            p.addr(y, x) + b,
        ) by {
            assert(0 <= p.addr(h - 1, x2));
        }
        lemma_put_row_outside(p, prev, tile, h - 1, w, p.addr(y, x) + b);
    }
}

} // verus!
