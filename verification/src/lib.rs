//! Verified core of a Tibia map editor: the OTBM tree reader, the protobuf
//! reader of `appearances.dat`, the item table built from it, the map model
//! with its edit history, and the small pieces of rendering logic that are
//! pure computation.

pub mod text;
pub mod binary;
pub mod pb;
pub mod appearances;
pub mod item_types;
pub mod item_assembly;
pub mod item_loader;
pub mod item_of;
pub mod otbm;
pub mod otbm_tiles;
pub mod position;
pub mod item;
pub mod chunk;
pub mod spatial_map;
pub mod history;
pub mod document;
pub mod import;
pub mod catalog;
pub mod sprite;
pub mod spr;
pub mod assets;
pub mod tabs;
pub mod components;
pub mod anim;
pub mod atlas;
pub mod scene;
pub mod messages;
