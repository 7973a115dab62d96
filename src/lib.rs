//! Interior-mutability building blocks, each exposed as an explicit, checked
//! state machine: a whole-value cell, a reference-counted heap block and a
//! dynamically borrow-checked cell with shared and exclusive views.
//!
//! Every state change is made through `&mut`, so that the bookkeeping each
//! primitive does (the value held, the live-handle count, the borrow state)
//! is stated exactly in the contracts and proved.
pub mod cell;
pub mod rc;
pub mod refcell;
