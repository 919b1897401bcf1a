//! Asset cache paths, vanilla asset download planning, translation tables
//! with placeholder substitution, and chest loot table conversion.
pub mod path;
pub mod text;
pub mod locale;
pub mod translation;
pub mod substitution;
pub mod asset_path;
pub mod templates;
pub mod chest_loot;
pub mod manager;
pub mod cache;
