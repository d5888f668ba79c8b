//! The app-directory structure of a Next.js project, as handed to JavaScript:
//! file-system paths made relative to the project, component and metadata
//! tables, and the loader tree of every app entrypoint.

pub mod fs_path;
pub mod error;
pub mod structure;
pub mod for_js;
pub mod prepare;
pub mod project;
pub mod laws;
