//! Matrix storage descriptors for a matrix-multiplication micro-kernel.
//!
//! A [`MatrixStoreSpec`] says how the bytes of a matrix operand are laid out;
//! binding it to a [`TensorView`] gives a [`MatrixStore`], whose accessors hand
//! out [`PanelStore`] descriptors and copy computed tiles back into memory.
//! Addresses are byte positions in a flat memory (`Vec<u8>`).
mod bounds;
pub mod placement;
pub mod lemmas;
pub mod tensor;
pub mod storage;

pub use tensor::TensorView;
pub use storage::{MatrixStore, MatrixStoreSpec, PanelStore};
