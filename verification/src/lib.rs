//! `icy`: the decisions of a snapshot manager for btrfs subvolumes and LVM
//! volumes, with their specifications proved by Verus. Which snapshot id
//! comes next, which commands a create, delete, rollback or comparison
//! runs, what the snapshot record becomes, what a cleanup by retention
//! policy removes, and how the terminal interface answers each key are
//! decided here; the program around the library reads and writes files and
//! runs the commands.
pub mod text;
pub mod sorting;
pub mod paths;
pub mod config;
pub mod snapshots;
pub mod find_new;
pub mod retention;
pub mod utils;
pub mod tui;
pub mod display;
pub mod execution;
pub mod layout;
