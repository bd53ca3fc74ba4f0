use vstd::prelude::*;
use crate::bounds::{lemma_signed_times_unsigned, lemma_unsigned_product};
use crate::placement::{Placement, put_item, lemma_put_row_len, lemma_put_rows_len};
use crate::tensor::TensorView;
use vstd::slice::slice_subrange;
use vstd::string::StringExecFns;

verus! {

/// How the bytes of one matrix operand are organised.
#[derive(PartialEq, Clone, Debug, Hash)]
pub enum MatrixStoreSpec {
    /// The last two axes of the tensor (or the given row and column axes).
    View { axes: Option<(usize, usize)> },
    /// Contiguous pre-packed panels of `panel_len` elements each.
    Packed { panel_len: usize },
    /// A flat two-dimensional view with explicit byte strides.
    Strides { row_byte_stride: isize, col_byte_stride: isize },
    /// Gather layout: one byte offset per row, one per column.
    OffsetsAndPtrs { row_byte_offsets: Vec<isize>, col_byte_offsets: Vec<isize>, nr: usize },
    /// A single vector with one byte stride.
    VecStride { byte_stride: isize, mr: usize, nr: usize },
}

/// The descriptor handed to the micro-kernel: addresses (byte positions in
/// memory) and strides only, never the tensor or the layout.
#[derive(PartialEq, Copy, Clone, Debug)]
pub enum PanelStore<'a> {
    Strides { ptr: usize, row_byte_stride: isize, col_byte_stride: isize, item_size: usize },
    Packed { ptr: usize },
    OffsetsAndPtrs { row_byte_offsets: &'a [isize], col_ptrs: &'a [usize] },
    VecStride { ptr: usize, byte_stride: isize, item_size: usize },
}

/// A layout bound to a tensor for the length of one multiplication.
#[derive(Clone, Debug)]
pub struct MatrixStore<'s, 't> {
    pub spec: &'s MatrixStoreSpec,
    pub tensor: &'t TensorView,
    /// For a gather layout, the address of each column: base plus its offset.
    pub col_ptrs: Option<Vec<usize>>,
}

/// Whether every column address of a gather layout is a valid address.
pub open spec fn bindable(spec: MatrixStoreSpec, tensor: TensorView) -> bool {
    match spec {
        MatrixStoreSpec::OffsetsAndPtrs { col_byte_offsets, .. } => forall|j: int|
            0 <= j < col_byte_offsets@.len() ==> 0 <= tensor.base + #[trigger] col_byte_offsets@[j]
                <= usize::MAX,
        _ => true,
    }
}

/// The row and column axes of a view layout over a tensor of rank `rank`:
/// the given pair, or else the last two axes.
pub open spec fn view_axes(axes: Option<(usize, usize)>, rank: int) -> (int, int) {
    match axes {
        Some((m, n)) => (m as int, n as int),
        None => (rank - 2, rank - 1),
    }
}

/// Whether `v` is a value of `isize`.
pub open spec fn fits_isize(v: int) -> bool {
    isize::MIN <= v <= isize::MAX
}

/// Copies element `k` of `tile` (its bytes `[k * size, (k + 1) * size)`) to
/// the bytes `[addr, addr + size)` of `memory`.
fn copy_item(memory: &mut Vec<u8>, addr: usize, tile: &[u8], k: u128, size: usize)
    requires
        addr + size <= old(memory)@.len(),
        k * size + size <= tile@.len(),
    ensures
        final(memory)@ == put_item(old(memory)@, addr as int, tile@, k as int, size as int),
{
    let ghost before = memory@;
    let tile_len = tile.len();
    let memory_len = memory.len();
    let start = (k * size as u128) as usize;
    let mut b: usize = 0;
    while b < size
        invariant
            b <= size,
            addr + size <= before.len(),
            before.len() == memory_len,
            tile@.len() == tile_len,
            start + size <= tile@.len(),
            start == k * size,
            memory@.len() == before.len(),
            forall|j: int|
                0 <= j < before.len() ==> #[trigger] memory@[j] == if addr <= j < addr + b {
                    tile@[start + (j - addr)]
                } else {
                    before[j]
                },
        decreases size - b,
    {
        memory[addr + b] = tile[start + b];
        b = b + 1;
    }
    assert(memory@ =~= put_item(before, addr as int, tile@, k as int, size as int));
}

impl MatrixStoreSpec {
    /// The name of the variant, without its fields.
    pub open spec fn name(&self) -> Seq<char> {
        match *self {
            MatrixStoreSpec::View { .. } => "ViewAxis"@,
            MatrixStoreSpec::Packed { .. } => "Packed"@,
            MatrixStoreSpec::Strides { .. } => "Strides"@,
            MatrixStoreSpec::OffsetsAndPtrs { .. } => "OffsetsAndPtrs"@,
            MatrixStoreSpec::VecStride { .. } => "VecStrides"@,
        }
    }

    /// The diagnostic form of the layout: the name of its variant only.
    pub fn to_string(&self) -> (r: String)
        ensures
            r@ == self.name(),
    {
        match self {
            MatrixStoreSpec::View { .. } => String::from_str("ViewAxis"),
            MatrixStoreSpec::Packed { .. } => String::from_str("Packed"),
            MatrixStoreSpec::Strides { .. } => String::from_str("Strides"),
            MatrixStoreSpec::OffsetsAndPtrs { .. } => String::from_str("OffsetsAndPtrs"),
            MatrixStoreSpec::VecStride { .. } => String::from_str("VecStrides"),
        }
    }

    /// Binds this layout to `tensor`.
    pub fn wrap<'t>(&self, tensor: &'t TensorView) -> (r: MatrixStore<'_, 't>)
        requires
            bindable(*self, *tensor),
        ensures
            *r.spec == *self,
            *r.tensor == *tensor,
            r.wf(),
    {
        MatrixStore::new(self, tensor)
    }
}

impl<'s, 't> MatrixStore<'s, 't> {
    /// The column-address table is there exactly for a gather layout, and
    /// holds the base plus each column offset.
    pub open spec fn wf(&self) -> bool {
        match *self.spec {
            MatrixStoreSpec::OffsetsAndPtrs { col_byte_offsets, .. } => match self.col_ptrs {
                Some(p) => p@.len() == col_byte_offsets@.len() && forall|k: int|
                    0 <= k < p@.len() ==> #[trigger] p@[k] == self.tensor.base
                        + col_byte_offsets@[k],
                None => false,
            },
            _ => self.col_ptrs is None,
        }
    }

    /// Binds `spec` to `tensor`; for a gather layout, resolves each column
    /// offset to an address once.
    pub fn new(spec: &'s MatrixStoreSpec, tensor: &'t TensorView) -> (r: MatrixStore<'s, 't>)
        requires
            bindable(*spec, *tensor),
        ensures
            *r.spec == *spec,
            *r.tensor == *tensor,
            r.wf(),
    {
        let mut col_ptrs: Option<Vec<usize>> = None;
        if let MatrixStoreSpec::OffsetsAndPtrs { col_byte_offsets, .. } = spec {
            let mut ptrs: Vec<usize> = Vec::new();
            let mut j: usize = 0;
            while j < col_byte_offsets.len()
                invariant
                    forall|k: int|
                        0 <= k < col_byte_offsets@.len() ==> 0 <= tensor.base
                            + #[trigger] col_byte_offsets@[k] <= usize::MAX,
                    j <= col_byte_offsets@.len(),
                    ptrs@.len() == j,
                    forall|k: int|
                        0 <= k < j ==> #[trigger] ptrs@[k] == tensor.base + col_byte_offsets@[k],
                decreases col_byte_offsets@.len() - j,
            {
                let a = tensor.base as i128 + col_byte_offsets[j] as i128;
                ptrs.push(a as usize);
                j = j + 1;
            }
            col_ptrs = Some(ptrs);
        }
        MatrixStore { spec, tensor, col_ptrs }
    }

    /// Whether the layout has linear byte strides (a view, explicit strides
    /// or a vector) and, for a view, its axes exist and their byte strides
    /// fit in `isize`.
    pub open spec fn has_strides(&self) -> bool {
        match *self.spec {
            MatrixStoreSpec::View { axes } => {
                let rank = self.tensor.strides@.len() as int;
                let (m, n) = view_axes(axes, rank);
                &&& 0 <= m < rank
                &&& 0 <= n < rank
                &&& fits_isize(self.tensor.strides@[m] * self.tensor.item_size)
                &&& fits_isize(self.tensor.strides@[n] * self.tensor.item_size)
            },
            MatrixStoreSpec::Strides { .. } => true,
            MatrixStoreSpec::VecStride { .. } => true,
            _ => false,
        }
    }

    /// The (row, column) byte strides of a linear layout. A view takes the
    /// tensor's element strides at its two axes times the element size; a
    /// vector has no column dimension, so its column stride is 0.
    pub open spec fn byte_strides(&self) -> (int, int) {
        match *self.spec {
            MatrixStoreSpec::View { axes } => {
                let (m, n) = view_axes(axes, self.tensor.strides@.len() as int);
                (
                    self.tensor.strides@[m] * self.tensor.item_size,
                    self.tensor.strides@[n] * self.tensor.item_size,
                )
            },
            MatrixStoreSpec::Strides { row_byte_stride, col_byte_stride } => (
                row_byte_stride as int,
                col_byte_stride as int,
            ),
            MatrixStoreSpec::VecStride { byte_stride, .. } => (byte_stride as int, 0),
            _ => (0, 0),
        }
    }

    /// Byte offset of packed panel `i` from the base: `panel_len * i * item_size`.
    pub open spec fn packed_offset(&self, i: int) -> int {
        (*self.spec)->panel_len * i * self.tensor.item_size
    }

    /// Address of the output micro-tile at `(down, right)` for tiles of
    /// `mr` rows and `nr` columns.
    pub open spec fn tile_origin(&self, down: int, right: int, mr: int, nr: int) -> int {
        self.tensor.base + self.byte_strides().0 * (down * mr) + self.byte_strides().1 * (right
            * nr)
    }

    /// Whether the tile at `(down, right)` can be addressed: the layout is
    /// linear, the first row and column of the tile are indices that fit in
    /// `usize`, and the tile's address is a valid address.
    pub open spec fn tile_in_reach(&self, down: int, right: int, mr: int, nr: int) -> bool {
        &&& self.has_strides()
        &&& down * mr <= usize::MAX
        &&& ((*self.spec) is VecStride || right * nr <= usize::MAX)
        &&& 0 <= self.tile_origin(down, right, mr, nr) <= usize::MAX
    }

    /// What `panel_b(nr, i, n)` asks of its arguments.
    pub open spec fn panel_b_in_reach(&self, nr: int, i: int, n: int) -> bool {
        match *self.spec {
            MatrixStoreSpec::Packed { .. } => {
                &&& self.tensor.base + self.packed_offset(i) <= usize::MAX
                &&& (nr * i + 1 == n ==> nr * self.tensor.item_size <= isize::MAX)
            },
            MatrixStoreSpec::OffsetsAndPtrs { col_byte_offsets, nr: width, .. } => width * i
                <= col_byte_offsets@.len(),
            MatrixStoreSpec::VecStride { .. } => true,
            _ => false,
        }
    }

    /// The (row, column) byte strides of a linear layout.
    pub fn strides(&self) -> (r: (isize, isize))
        requires
            self.has_strides(),
        ensures
            r.0 == self.byte_strides().0,
            r.1 == self.byte_strides().1,
    {
        match self.spec {
            MatrixStoreSpec::View { axes } => {
                let (m, n) = match axes {
                    Some(a) => *a,
                    None => {
                        let rank = self.tensor.rank();
                        (rank - 2, rank - 1)
                    },
                };
                let size = self.tensor.item_size;
                let sm = self.tensor.strides[m];
                let sn = self.tensor.strides[n];
                proof {
                    lemma_signed_times_unsigned(sm as int, size as int);
                    lemma_signed_times_unsigned(sn as int, size as int);
                }
                let row_byte_stride = (sm as i128 * size as i128) as isize;
                let col_byte_stride = (sn as i128 * size as i128) as isize;
                (row_byte_stride, col_byte_stride)
            },
            MatrixStoreSpec::Strides { row_byte_stride, col_byte_stride } => {
                (*row_byte_stride, *col_byte_stride)
            },
            MatrixStoreSpec::VecStride { byte_stride, .. } => (*byte_stride, 0),
            MatrixStoreSpec::Packed { .. } | MatrixStoreSpec::OffsetsAndPtrs { .. } => {
                proof {
                    assert(false);
                }
                (0, 0)
            },
        }
    }

    /// The address of packed panel `i`.
    fn packed_address(&self, panel_len: usize, i: usize) -> (r: usize)
        requires
            self.tensor.base + panel_len * i * self.tensor.item_size <= usize::MAX,
        ensures
            r == self.tensor.base + panel_len * i * self.tensor.item_size,
    {
        proof {
            lemma_unsigned_product(panel_len as int, i as int);
        }
        let li = panel_len as u128 * i as u128;
        let offset = li * self.tensor.item_size as u128;
        (self.tensor.base as u128 + offset) as usize
    }

    /// The address of the output micro-tile at `(down, right)`.
    fn origin(&self, row_stride: isize, col_stride: isize, down: usize, right: usize, mr: usize, nr: usize) -> (r: usize)
        requires
            self.tile_in_reach(down as int, right as int, mr as int, nr as int),
            row_stride == self.byte_strides().0,
            col_stride == self.byte_strides().1,
        ensures
            r == self.tile_origin(down as int, right as int, mr as int, nr as int),
    {
        proof {
            lemma_unsigned_product(down as int, mr as int);
        }
        let rows = down as u128 * mr as u128;
        proof {
            lemma_signed_times_unsigned(row_stride as int, rows as int);
        }
        let mut a: i128 = self.tensor.base as i128 + row_stride as i128 * rows as i128;
        if let MatrixStoreSpec::VecStride { .. } = self.spec {
        } else {
            proof {
                lemma_unsigned_product(right as int, nr as int);
            }
            let cols = right as u128 * nr as u128;
            proof {
                lemma_signed_times_unsigned(col_stride as int, cols as int);
            }
            a = a + col_stride as i128 * cols as i128;
        }
        a as usize
    }

    /// Operand-A panel `i` of a packed layout: its address is the base plus
    /// `panel_len * i * item_size` bytes.
    pub fn panel_a(&self, i: usize) -> (r: PanelStore<'_>)
        requires
            (*self.spec) is Packed,
            self.tensor.base + self.packed_offset(i as int) <= usize::MAX,
        ensures
            r == (PanelStore::Packed { ptr: (self.tensor.base + self.packed_offset(i as int)) as usize }),
    {
        match self.spec {
            MatrixStoreSpec::Packed { panel_len } => PanelStore::Packed {
                ptr: self.packed_address(*panel_len, i),
            },
            _ => {
                proof {
                    assert(false);
                }
                PanelStore::Packed { ptr: 0 }
            },
        }
    }

    /// Operand-B panel `i` of `n`, for micro-tiles `nr` columns wide. The last
    /// packed panel, when it is a single column (`nr * i + 1 == n`), comes as a
    /// vector over the packed region.
    pub fn panel_b(&self, nr: usize, i: usize, n: usize) -> (r: PanelStore<'_>)
        requires
            self.wf(),
            self.panel_b_in_reach(nr as int, i as int, n as int),
        ensures
            match *self.spec {
                MatrixStoreSpec::Packed { .. } => {
                    let ptr = (self.tensor.base + self.packed_offset(i as int)) as usize;
                    if nr * i + 1 == n {
                        r == (PanelStore::VecStride {
                            ptr,
                            byte_stride: (nr * self.tensor.item_size) as isize,
                            item_size: self.tensor.item_size,
                        })
                    } else {
                        r == (PanelStore::Packed { ptr })
                    }
                },
                MatrixStoreSpec::OffsetsAndPtrs { row_byte_offsets, nr: width, .. } => {
                    let table = self.col_ptrs->0@;
                    &&& r is OffsetsAndPtrs
                    &&& r->row_byte_offsets@ == row_byte_offsets@
                    &&& r->col_ptrs@ == table.subrange(width * i, table.len() as int)
                },
                MatrixStoreSpec::VecStride { byte_stride, .. } => r == (PanelStore::VecStride {
                    ptr: self.tensor.base,
                    byte_stride,
                    item_size: self.tensor.item_size,
                }),
                _ => false,
            },
    {
        let size = self.tensor.item_size;
        match self.spec {
            MatrixStoreSpec::Packed { panel_len } => {
                let ptr = self.packed_address(*panel_len, i);
                proof {
                    lemma_unsigned_product(nr as int, i as int);
                }
                if nr as u128 * i as u128 + 1 == n as u128 {
                    proof {
                        lemma_unsigned_product(nr as int, size as int);
                    }
                    let byte_stride = (nr as u128 * size as u128) as isize;
                    PanelStore::VecStride { ptr, byte_stride, item_size: size }
                } else {
                    PanelStore::Packed { ptr }
                }
            },
            MatrixStoreSpec::OffsetsAndPtrs { row_byte_offsets, col_byte_offsets, nr: width } => {
                match &self.col_ptrs {
                    Some(table) => {
                        proof {
                            assert(table@.len() == col_byte_offsets@.len());
                        }
                        let len = table.len();
                        proof {
                            assert(*width * i <= len);
                        }
                        let start: usize = *width * i;
                        let col_ptrs = slice_subrange(table.as_slice(), start, len);
                        PanelStore::OffsetsAndPtrs {
                            row_byte_offsets: row_byte_offsets.as_slice(),
                            col_ptrs,
                        }
                    },
                    None => {
                        proof {
                            assert(false);
                        }
                        PanelStore::Packed { ptr: 0 }
                    },
                }
            },
            MatrixStoreSpec::VecStride { byte_stride, .. } => PanelStore::VecStride {
                ptr: self.tensor.base,
                byte_stride: *byte_stride,
                item_size: size,
            },
            MatrixStoreSpec::View { .. } | MatrixStoreSpec::Strides { .. } => {
                proof {
                    assert(false);
                }
                PanelStore::Packed { ptr: 0 }
            },
        }
    }

    /// The output micro-tile at `(down, right)` for tiles of `mr` rows and
    /// `nr` columns: its address with both byte strides, or for a vector its
    /// address with the single stride.
    pub fn tile_c(&self, down: usize, right: usize, mr: usize, nr: usize) -> (r: PanelStore<'_>)
        requires
            self.tile_in_reach(down as int, right as int, mr as int, nr as int),
        ensures
            match *self.spec {
                MatrixStoreSpec::VecStride { .. } => r == (PanelStore::VecStride {
                    ptr: self.tile_origin(down as int, right as int, mr as int, nr as int) as usize,
                    byte_stride: self.byte_strides().0 as isize,
                    item_size: self.tensor.item_size,
                }),
                _ => r == (PanelStore::Strides {
                    ptr: self.tile_origin(down as int, right as int, mr as int, nr as int) as usize,
                    row_byte_stride: self.byte_strides().0 as isize,
                    col_byte_stride: self.byte_strides().1 as isize,
                    item_size: self.tensor.item_size,
                }),
            },
    {
        let (row_byte_stride, col_byte_stride) = self.strides();
        let ptr = self.origin(row_byte_stride, col_byte_stride, down, right, mr, nr);
        match self.spec {
            MatrixStoreSpec::VecStride { .. } => PanelStore::VecStride {
                ptr,
                byte_stride: row_byte_stride,
                item_size: self.tensor.item_size,
            },
            _ => PanelStore::Strides {
                ptr,
                row_byte_stride,
                col_byte_stride,
                item_size: self.tensor.item_size,
            },
        }
    }

    /// Where the output micro-tile at `(down, right)` puts its elements: at
    /// the tile's address, with the layout's byte strides.
    pub open spec fn placement(&self, down: int, right: int, mr: int, nr: int) -> Placement {
        Placement {
            origin: self.tile_origin(down, right, mr, nr),
            row_stride: self.byte_strides().0,
            col_stride: self.byte_strides().1,
            mr,
            item_size: self.tensor.item_size as int,
        }
    }

    /// How many columns a write-back copies: a vector has a single one,
    /// whatever width is asked for.
    pub open spec fn written_width(&self, width: int) -> int {
        if (*self.spec) is VecStride {
            1
        } else {
            width
        }
    }

    /// Copies a `height` by `width` micro-tile computed into `tile` (element
    /// `(y, x)` at index `y + x * mr`) to the output tile at `(down, right)`
    /// in `memory`, element by element, rows in order and each row left to
    /// right. A vector layout copies `height` elements of column 0.
    pub fn set_from_tile(
        &self,
        memory: &mut Vec<u8>,
        down: usize,
        right: usize,
        height: usize,
        width: usize,
        tile: &[u8],
        mr: usize,
        nr: usize,
    )
        requires
            self.tile_in_reach(down as int, right as int, mr as int, nr as int),
            self.placement(down as int, right as int, mr as int, nr as int).fits(
                old(memory)@.len() as int,
                tile@.len() as int,
                height as int,
                self.written_width(width as int),
            ),
        ensures
            final(memory)@ == self.placement(down as int, right as int, mr as int, nr as int).put_rows(
                old(memory)@,
                tile@,
                height as nat,
                self.written_width(width as int) as nat,
            ),
    {
        let ghost p = self.placement(down as int, right as int, mr as int, nr as int);
        let ghost before = memory@;
        let memory_len = memory.len();
        let (row_byte_stride, col_byte_stride) = self.strides();
        let origin = self.origin(row_byte_stride, col_byte_stride, down, right, mr, nr);
        let w: usize = if let MatrixStoreSpec::VecStride { .. } = self.spec {
            1
        } else {
            width
        };
        let size = self.tensor.item_size;
        let mut row_addr: i128 = origin as i128;
        let mut y: usize = 0;
        while y < height
            invariant
                y <= height,
                before.len() == memory_len,
                w == self.written_width(width as int),
                p == self.placement(down as int, right as int, mr as int, nr as int),
                p.fits(before.len() as int, tile@.len() as int, height as int, w as int),
                row_byte_stride == p.row_stride,
                col_byte_stride == p.col_stride,
                size == p.item_size,
                mr == p.mr,
                memory@ == p.put_rows(before, tile@, y as nat, w as nat),
                y < height && w > 0 ==> row_addr == p.addr(y as int, 0),
            decreases height - y,
        {
            let mut col_addr: i128 = row_addr;
            let mut x: usize = 0;
            while x < w
                invariant
                    y < height,
                    x <= w,
                    before.len() == memory_len,
                    p.fits(before.len() as int, tile@.len() as int, height as int, w as int),
                    row_byte_stride == p.row_stride,
                    col_byte_stride == p.col_stride,
                    size == p.item_size,
                    mr == p.mr,
                    memory@ == p.put_row(
                        p.put_rows(before, tile@, y as nat, w as nat),
                        tile@,
                        y as int,
                        x as nat,
                    ),
                    w > 0 ==> row_addr == p.addr(y as int, 0),
                    x < w ==> col_addr == p.addr(y as int, x as int),
                decreases w - x,
            {
                proof {
                    lemma_put_rows_len(p, before, tile@, y as nat, w as nat);
                    lemma_put_row_len(
                        p,
                        p.put_rows(before, tile@, y as nat, w as nat),
                        tile@,
                        y as int,
                        x as nat,
                    );
                    assert(0 <= p.addr(y as int, x as int));
                    assert(0 <= col_addr && col_addr + size <= memory_len);
                    lemma_unsigned_product(x as int, mr as int);
                }
                let k: u128 = y as u128 + x as u128 * mr as u128;
                copy_item(memory, col_addr as usize, tile, k, size);
                proof {
                    assert(k == p.index(y as int, x as int));
                    assert(memory@ == p.put_row(
                        p.put_rows(before, tile@, y as nat, w as nat),
                        tile@,
                        y as int,
                        (x + 1) as nat,
                    ));
                }
                x = x + 1;
                if x < w {
                    proof {
                        assert(p.col_stride * x == p.col_stride * (x - 1) + p.col_stride)
                            by (nonlinear_arith);
                        assert(0 <= p.addr(y as int, x as int));
                    }
                    col_addr = col_addr + col_byte_stride as i128;
                }
            }
            y = y + 1;
            if y < height && w > 0 {
                proof {
                    assert(p.row_stride * y == p.row_stride * (y - 1) + p.row_stride)
                        by (nonlinear_arith);
                    assert(0 <= p.addr(y as int, 0));
                    assert(0 <= p.addr((y - 1) as int, 0));
                }
                row_addr = row_addr + row_byte_stride as i128;
            }
        }
    }
}

} // verus!
