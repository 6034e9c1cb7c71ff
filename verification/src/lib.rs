//! Dependency resolution for an AUR helper.
//!
//! The library reads dependency strings and orders versions, gives packages
//! of the sync repositories and of the AUR one set of accessors, and resolves
//! a set of targets into a dependency forest and an ordered build plan. It
//! performs no lookup itself: the resolution is a machine that hands out
//! questions for the package databases and the AUR and takes the answers.
//!
//! Versions and constraints: `version`, `order`, `segments`, `constraint`,
//! `depend`. Packages: `package`. Resolution: `resolver`, `engine`, `node`,
//! `expand`, `protocol`, `cache`, `plan`, `dep_tree`, `report`. What holds of
//! every run: `laws`, `order_laws`. Around a run: `config`, `helpers`,
//! `sync`, with the text tools `text`, `render`, `colors`, `names`.

pub mod version;
pub mod order;
pub mod segments;
pub mod constraint;
pub mod depend;
pub mod order_laws;

pub mod package;
pub mod names;

pub mod node;
pub mod expand;
pub mod protocol;
pub mod cache;
pub mod resolver;
pub mod engine;
pub mod plan;
pub mod dep_tree;
pub mod report;
pub mod laws;

pub mod config;
pub mod helpers;
pub mod sync;
pub mod text;
pub mod render;
pub mod colors;
