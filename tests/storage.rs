use mmm_storage::{MatrixStoreSpec, PanelStore, TensorView};

#[test]
fn it_works() {}

fn view(base: usize, strides: Vec<isize>, item_size: usize) -> TensorView {
    TensorView::new(base, strides, item_size)
}

#[test]
fn packed_panel_a_offset() {
    let tv = view(1000, vec![], 4);
    let spec = MatrixStoreSpec::Packed { panel_len: 8 };
    let store = spec.wrap(&tv);
    assert_eq!(store.panel_a(3), PanelStore::Packed { ptr: 1000 + 96 });
    assert_eq!(store.panel_a(0), PanelStore::Packed { ptr: 1000 });
}

#[test]
fn packed_panel_b_vector_tail() {
    let tv = view(1000, vec![], 4);
    let spec = MatrixStoreSpec::Packed { panel_len: 8 };
    let store = spec.wrap(&tv);
    assert_eq!(
        store.panel_b(4, 2, 9),
        PanelStore::VecStride { ptr: 1064, byte_stride: 16, item_size: 4 }
    );
    assert_eq!(store.panel_b(4, 2, 10), PanelStore::Packed { ptr: 1064 });
    assert_eq!(store.panel_b(4, 1, 9), PanelStore::Packed { ptr: 1032 });
}

#[test]
fn vec_stride_panel_b() {
    let tv = view(500, vec![], 2);
    let spec = MatrixStoreSpec::VecStride { byte_stride: -6, mr: 4, nr: 1 };
    let store = spec.wrap(&tv);
    assert_eq!(
        store.panel_b(1, 5, 6),
        PanelStore::VecStride { ptr: 500, byte_stride: -6, item_size: 2 }
    );
}

#[test]
fn offsets_and_ptrs_panel_b() {
    let tv = view(100, vec![], 4);
    let spec = MatrixStoreSpec::OffsetsAndPtrs {
        row_byte_offsets: vec![0, 40, 80],
        col_byte_offsets: vec![0, 4, 8, 12, -100],
        nr: 2,
    };
    let store = spec.wrap(&tv);
    assert_eq!(store.col_ptrs, Some(vec![100, 104, 108, 112, 0]));
    match store.panel_b(7, 1, 3) {
        PanelStore::OffsetsAndPtrs { row_byte_offsets, col_ptrs } => {
            assert_eq!(row_byte_offsets, &[0, 40, 80][..]);
            assert_eq!(col_ptrs, &[108, 112, 0][..]);
        }
        other => panic!("unexpected descriptor {:?}", other),
    }
}

#[test]
fn strides_tile_c_offset() {
    let tv = view(1000, vec![], 4);
    let spec = MatrixStoreSpec::Strides { row_byte_stride: 16, col_byte_stride: 4 };
    let store = spec.wrap(&tv);
    assert_eq!(
        store.tile_c(1, 2, 4, 4),
        PanelStore::Strides { ptr: 1096, row_byte_stride: 16, col_byte_stride: 4, item_size: 4 }
    );
}

#[test]
fn view_default_axes_strides() {
    let tv = view(0, vec![60, 12, 3, 1], 4);
    let spec = MatrixStoreSpec::View { axes: None };
    let store = spec.wrap(&tv);
    assert_eq!(store.strides(), (12, 4));
    let spec = MatrixStoreSpec::View { axes: Some((0, 2)) };
    let store = spec.wrap(&tv);
    assert_eq!(store.strides(), (240, 12));
}

#[test]
fn view_tile_c_negative_stride() {
    let tv = view(400, vec![-8, 1], 2);
    let spec = MatrixStoreSpec::View { axes: None };
    let store = spec.wrap(&tv);
    // rows 16 bytes apart going down in memory, columns 2 bytes apart
    assert_eq!(
        store.tile_c(2, 1, 3, 5),
        PanelStore::Strides {
            ptr: 400 - 16 * 6 + 2 * 5,
            row_byte_stride: -16,
            col_byte_stride: 2,
            item_size: 2
        }
    );
}

#[test]
fn vec_stride_tile_c_and_strides() {
    let tv = view(64, vec![], 4);
    let spec = MatrixStoreSpec::VecStride { byte_stride: 8, mr: 4, nr: 1 };
    let store = spec.wrap(&tv);
    assert_eq!(store.strides(), (8, 0));
    assert_eq!(
        store.tile_c(2, 9, 4, 1),
        PanelStore::VecStride { ptr: 64 + 8 * 8, byte_stride: 8, item_size: 4 }
    );
}

#[test]
fn strides_set_from_tile_round_trip() {
    // 2-byte items, rows 10 bytes apart, columns 2 bytes apart.
    let tv = view(4, vec![], 2);
    let spec = MatrixStoreSpec::Strides { row_byte_stride: 10, col_byte_stride: 2 };
    let store = spec.wrap(&tv);
    let mut memory = vec![0u8; 64];
    // mr = 2: element (y, x) at index y + 2 * x
    let tile: Vec<u8> = vec![1, 2, 3, 4, 5, 6, 7, 8, 9, 10, 11, 12];
    store.set_from_tile(&mut memory, 1, 0, 2, 3, &tile, 2, 3);
    let origin = 4 + 10 * 2;
    for y in 0..2usize {
        for x in 0..3usize {
            let a = origin + 10 * y + 2 * x;
            let k = (y + 2 * x) * 2;
            assert_eq!(&memory[a..a + 2], &tile[k..k + 2]);
        }
    }
    let touched: usize = memory.iter().filter(|b| **b != 0).count();
    assert_eq!(touched, 12);
}

#[test]
fn view_set_from_tile_negative_strides() {
    // one-byte items, rows going backwards
    let tv = view(40, vec![-5, 1], 1);
    let spec = MatrixStoreSpec::View { axes: None };
    let store = spec.wrap(&tv);
    let mut memory = vec![0u8; 48];
    let tile: Vec<u8> = vec![11, 12, 13, 14];
    store.set_from_tile(&mut memory, 0, 1, 2, 2, &tile, 2, 2);
    // origin = 40 + 1 * 2 = 42
    assert_eq!(memory[42], 11);
    assert_eq!(memory[43], 13);
    assert_eq!(memory[37], 12);
    assert_eq!(memory[38], 14);
}

#[test]
fn vec_stride_set_from_tile_ignores_width() {
    let tv = view(2, vec![], 1);
    let spec = MatrixStoreSpec::VecStride { byte_stride: 3, mr: 4, nr: 1 };
    let store = spec.wrap(&tv);
    let tile: Vec<u8> = vec![5, 6, 7, 8];
    let mut narrow = vec![0u8; 16];
    store.set_from_tile(&mut narrow, 0, 0, 3, 1, &tile, 4, 1);
    let mut wide = vec![0u8; 16];
    store.set_from_tile(&mut wide, 0, 0, 3, 4, &tile, 4, 1);
    assert_eq!(narrow, wide);
    assert_eq!(narrow, vec![0, 0, 5, 0, 0, 6, 0, 0, 7, 0, 0, 0, 0, 0, 0, 0]);
}

#[test]
fn overlapping_write_back_keeps_last() {
    let tv = view(0, vec![], 1);
    let spec = MatrixStoreSpec::Strides { row_byte_stride: 0, col_byte_stride: 1 };
    let store = spec.wrap(&tv);
    let mut memory = vec![0u8; 4];
    let tile: Vec<u8> = vec![1, 2, 3, 4];
    store.set_from_tile(&mut memory, 0, 0, 2, 2, &tile, 2, 2);
    // row 1 lands on row 0 and is written last
    assert_eq!(memory, vec![2, 4, 0, 0]);
}

#[test]
fn spec_names() {
    assert_eq!(MatrixStoreSpec::View { axes: None }.to_string(), "ViewAxis");
    assert_eq!(MatrixStoreSpec::Packed { panel_len: 1 }.to_string(), "Packed");
    assert_eq!(
        MatrixStoreSpec::Strides { row_byte_stride: 1, col_byte_stride: 1 }.to_string(),
        "Strides"
    );
    assert_eq!(
        MatrixStoreSpec::OffsetsAndPtrs {
            row_byte_offsets: vec![],
            col_byte_offsets: vec![],
            nr: 1
        }
        .to_string(),
        "OffsetsAndPtrs"
    );
    assert_eq!(MatrixStoreSpec::VecStride { byte_stride: 1, mr: 1, nr: 1 }.to_string(), "VecStrides");
}

#[test]
fn spec_equality_is_structural() {
    assert_eq!(MatrixStoreSpec::Packed { panel_len: 8 }, MatrixStoreSpec::Packed { panel_len: 8 });
    assert_ne!(MatrixStoreSpec::Packed { panel_len: 8 }, MatrixStoreSpec::Packed { panel_len: 4 });
    assert_ne!(
        MatrixStoreSpec::View { axes: None },
        MatrixStoreSpec::View { axes: Some((0, 1)) }
    );
}
