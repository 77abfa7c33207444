//! An in-memory registry of restaurant businesses.
//!
//! A [`store::Restaurateur`] maps business names to [`model::Business`]
//! entities, each carrying an optional [`model::Menu`] and a list of
//! [`model::Order`]s.  The [`menu`] module builds a menu out of cuisines
//! and foods, the [`assembly`] module turns menu selections into priced
//! orders, and [`parse`] reads the numeric and enumerated fields of the
//! data model from user-supplied text.
//!
//! Every monetary amount is held in hundredths of the currency unit, so the
//! arithmetic is exact.

pub mod assembly;
pub mod menu;
pub mod model;
pub mod parse;
pub mod store;
