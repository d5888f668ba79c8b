//! The app structure as JavaScript receives it: every file given by its
//! path relative to the project directory.

use vstd::prelude::*;

use crate::structure::{GlobalMetadata, Metadata, MetadataItem, MetadataWithAltItem};

verus! {

/// A metadata file, by its path relative to the project.
pub type MetadataItemForJs = MetadataItem<String>;

/// An image metadata file, by its paths relative to the project.
pub type MetadataWithAltItemForJs = MetadataWithAltItem<String>;

/// The metadata files of a route segment, by their paths relative to the
/// project.
pub type MetadataForJs = Metadata<String>;

/// The app-wide metadata files, by their paths relative to the project.
pub type GlobalMetadataForJs = GlobalMetadata<String>;

/// The special files of a route segment, by their paths relative to the
/// project; the global error page is not among them.
#[derive(Debug, PartialEq, Eq)]
pub struct ComponentsForJs {
    pub page: Option<String>,
    pub layout: Option<String>,
    pub error: Option<String>,
    pub loading: Option<String>,
    pub template: Option<String>,
    pub not_found: Option<String>,
    pub default: Option<String>,
    pub route: Option<String>,
    pub metadata: MetadataForJs,
}

/// A loader tree with every file given by its path relative to the project.
#[derive(Debug, PartialEq, Eq)]
pub struct LoaderTreeForJs {
    pub segment: String,
    pub parallel_routes: Vec<(String, LoaderTreeForJs)>,
    pub components: ComponentsForJs,
    pub global_metadata: GlobalMetadataForJs,
}

/// An entrypoint as JavaScript receives it: a page with its loader tree, or
/// a route by the path of its file.
#[derive(Debug, PartialEq, Eq)]
pub enum EntrypointForJs {
    AppPage { loader_tree: LoaderTreeForJs },
    AppRoute { path: String },
}

} // verus!
