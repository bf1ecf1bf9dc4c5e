//! Publishing a build output directory to a dedicated branch of a remote
//! repository, with asset paths rewritten so they resolve under a
//! repository-name subpath.
//!
//! Three components compose sequentially: [`origin`] resolves the URL of the
//! "origin" remote from the repository's configuration lines; [`rewrite`]
//! derives the repository name from that URL and prefixes it to asset
//! references in the entry file's lines; [`publish`] decides the ordered,
//! non-interruptible sequence of version-control commands that publishes the
//! directory, aborting everything after the first failure. Reading and writing
//! files, and running the version-control tool, are the caller's side of each
//! contract.

pub mod origin;
pub mod publish;
pub mod rewrite;
pub mod text;
