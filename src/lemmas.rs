use vstd::prelude::*;
use crate::placement::{lemma_put_rows_inside, lemma_put_rows_len, lemma_put_rows_outside};
use crate::storage::{MatrixStore, MatrixStoreSpec};

verus! {

/// A view layout without axes takes the last two axes of the tensor: its
/// byte strides are the tensor's strides at axes `rank - 2` and `rank - 1`,
/// times the element size.
pub proof fn lemma_view_takes_last_two_axes(store: MatrixStore)
    requires
        *store.spec == (MatrixStoreSpec::View { axes: None }),
        store.has_strides(),
    ensures
        ({
            let r = store.tensor.strides@.len() as int;
            let size = store.tensor.item_size as int;
            store.byte_strides() == (
                store.tensor.strides@[r - 2] * size,
                store.tensor.strides@[r - 1] * size,
            )
        }),
{
}

/// Writing a micro-tile back through a view or explicit strides and then
/// reading the destination through the same geometry gives the tile's
/// `height` by `width` elements, for any tile position and any strides,
/// negative or not, as long as no two elements share a byte; and no byte
/// outside the tile's elements changes.
pub proof fn lemma_set_from_tile_round_trip(
    store: MatrixStore,
    memory: Seq<u8>,
    tile: Seq<u8>,
    down: int,
    right: int,
    height: nat,
    width: nat,
    mr: int,
    nr: int,
)
    requires
        (*store.spec) is View || (*store.spec) is Strides,
        store.tile_in_reach(down, right, mr, nr),
        store.placement(down, right, mr, nr).fits(
            memory.len() as int,
            tile.len() as int,
            height as int,
            width as int,
        ),
        store.placement(down, right, mr, nr).disjoint(height as int, width as int),
    ensures
        ({
            let p = store.placement(down, right, mr, nr);
            let after = p.put_rows(memory, tile, height, store.written_width(width as int) as nat);
            let size = store.tensor.item_size as int;
            &&& after.len() == memory.len()
            &&& forall|y: int, x: int|
                0 <= y < height && 0 <= x < width ==> after.subrange(
                    #[trigger] p.addr(y, x),
                    p.addr(y, x) + size,
                ) == tile.subrange(p.index(y, x) * size, p.index(y, x) * size + size)
            &&& forall|j: int|
                0 <= j < memory.len() && (forall|y: int, x: int|
                    0 <= y < height && 0 <= x < width ==> !#[trigger] p.covers(y, x, j))
                    ==> after[j] == memory[j]
        }),
{
    let p = store.placement(down, right, mr, nr);
    let after = p.put_rows(memory, tile, height, width);
    let size = store.tensor.item_size as int;
    lemma_put_rows_len(p, memory, tile, height, width);
    assert forall|y: int, x: int| 0 <= y < height && 0 <= x < width implies after.subrange(
        #[trigger] p.addr(y, x),
        p.addr(y, x) + size,
    ) == tile.subrange(p.index(y, x) * size, p.index(y, x) * size + size) by {
        assert(0 <= p.addr(y, x));
        let a = p.addr(y, x);
        let k = p.index(y, x) * size;
        assert forall|b: int| 0 <= b < size implies #[trigger] after.subrange(a, a + size)[b]
            == tile.subrange(k, k + size)[b] by {
            lemma_put_rows_inside(p, memory, tile, height, width, y, x, b);
        }
        assert(after.subrange(p.addr(y, x), p.addr(y, x) + size) =~= tile.subrange(
            p.index(y, x) * size,
            p.index(y, x) * size + size,
        ));
    }
    assert forall|j: int|
        0 <= j < memory.len() && (forall|y: int, x: int|
            0 <= y < height && 0 <= x < width ==> !#[trigger] p.covers(y, x, j)) implies after[j]
        == memory[j] by {
        lemma_put_rows_outside(p, memory, tile, height, width, j);
    }
}

/// A vector layout has no column dimension: its column byte stride is 0,
/// and a write-back copies `height` elements along the single stride,
/// whatever width is asked for. Each of them ends up holding its tile
/// element when no two share a byte, and no other byte changes.
pub proof fn lemma_vec_stride_single_column(
    store: MatrixStore,
    memory: Seq<u8>,
    tile: Seq<u8>,
    down: int,
    right: int,
    height: nat,
    width: nat,
    mr: int,
    nr: int,
)
    requires
        (*store.spec) is VecStride,
        store.tile_in_reach(down, right, mr, nr),
        store.placement(down, right, mr, nr).fits(
            memory.len() as int,
            tile.len() as int,
            height as int,
            1,
        ),
        store.placement(down, right, mr, nr).disjoint(height as int, 1),
    ensures
        ({
            let p = store.placement(down, right, mr, nr);
            let after = p.put_rows(memory, tile, height, store.written_width(width as int) as nat);
            let size = store.tensor.item_size as int;
            &&& store.byte_strides().1 == 0
            &&& after == p.put_rows(memory, tile, height, 1)
            &&& forall|y: int|
                0 <= y < height ==> after.subrange(
                    #[trigger] p.addr(y, 0),
                    p.addr(y, 0) + size,
                ) == tile.subrange(y * size, y * size + size)
            &&& forall|j: int|
                0 <= j < memory.len() && (forall|y: int|
                    0 <= y < height ==> !#[trigger] p.covers(y, 0, j)) ==> after[j] == memory[j]
        }),
{
    let p = store.placement(down, right, mr, nr);
    let after = p.put_rows(memory, tile, height, 1);
    let size = store.tensor.item_size as int;
    lemma_put_rows_len(p, memory, tile, height, 1);
    assert forall|y: int| 0 <= y < height implies after.subrange(
        #[trigger] p.addr(y, 0),
        p.addr(y, 0) + size,
    ) == tile.subrange(y * size, y * size + size) by {
        assert(0 <= p.addr(y, 0));
        assert(p.index(y, 0) == y);
        let a = p.addr(y, 0);
        assert forall|b: int| 0 <= b < size implies #[trigger] after.subrange(a, a + size)[b]
            == tile.subrange(y * size, y * size + size)[b] by {
            lemma_put_rows_inside(p, memory, tile, height, 1, y, 0, b);
        }
        assert(after.subrange(p.addr(y, 0), p.addr(y, 0) + size) =~= tile.subrange(
            y * size,
            y * size + size,
        ));
    }
    assert forall|j: int|
        0 <= j < memory.len() && (forall|y: int|
            0 <= y < height ==> !#[trigger] p.covers(y, 0, j)) implies after[j] == memory[j] by {
        assert forall|y: int, x: int| 0 <= y < height && 0 <= x < 1 implies !#[trigger] p.covers(
            y,
            x,
            j,
        ) by {
            assert(x == 0);
        }
        lemma_put_rows_outside(p, memory, tile, height, 1, j);
    }
}

} // verus!
