//! The decisions that a release of a cargo workspace takes: which packages changed since they
//! were last released, what their next release is called and how it is described.
//!
//! The library does no input or output. Where a decision needs something from the disk, from git
//! or from cargo, it hands out a request and goes on with the reply.

pub mod changelog;
pub mod compare_laws;
pub mod file_list;
pub mod git_only;
pub mod io;
pub mod listing_laws;
pub mod next_ver;
pub mod order;
pub mod package;
pub mod package_compare;
pub mod packages_update;
pub mod path;
pub mod readme;
pub mod registry;
pub mod release_laws;
pub mod release_packages;
pub mod source_laws;
pub mod text;
pub mod update_request;
pub mod version;
pub mod walk_laws;
