//! The app structure as the app-directory scan finds it: file-system paths
//! of components and metadata files, arranged in loader trees.

use vstd::prelude::*;

use crate::fs_path::FsPath;

verus! {

/// A metadata file (sitemap, favicon, robots, manifest): a static file, or a
/// file whose code generates the metadata. `P` is the type of its path.
#[derive(Debug, PartialEq, Eq)]
pub enum MetadataItem<P> {
    Static { path: P },
    Dynamic { path: P },
}

impl<P> MetadataItem<P> {
    /// The path of the metadata file, whichever its kind.
    pub open spec fn spec_path(self) -> P {
        match self {
            MetadataItem::Static { path } => path,
            MetadataItem::Dynamic { path } => path,
        }
    }

    /// The path of the metadata file, whichever its kind.
    pub fn path(&self) -> (p: &P)
        ensures
            *p == self.spec_path(),
    {
        match self {
            MetadataItem::Static { path } => path,
            MetadataItem::Dynamic { path } => path,
        }
    }
}

/// An image metadata file (icon, apple icon, twitter or open-graph image): a
/// static image with an optional file of alternative text, or a file whose
/// code generates the image.
#[derive(Debug, PartialEq, Eq)]
pub enum MetadataWithAltItem<P> {
    Static { path: P, alt_path: Option<P> },
    Dynamic { path: P },
}

/// The metadata files of one route segment.
#[derive(Debug, PartialEq, Eq)]
pub struct Metadata<P> {
    pub icon: Vec<MetadataWithAltItem<P>>,
    pub apple: Vec<MetadataWithAltItem<P>>,
    pub twitter: Vec<MetadataWithAltItem<P>>,
    pub open_graph: Vec<MetadataWithAltItem<P>>,
    pub sitemap: Option<MetadataItem<P>>,
}

/// The metadata files that hold for the whole app.
#[derive(Debug, PartialEq, Eq)]
pub struct GlobalMetadata<P> {
    pub favicon: Option<MetadataItem<P>>,
    pub robots: Option<MetadataItem<P>>,
    pub manifest: Option<MetadataItem<P>>,
}

/// The special files of one route segment.
#[derive(Debug, PartialEq, Eq)]
pub struct Components {
    pub page: Option<FsPath>,
    pub layout: Option<FsPath>,
    pub error: Option<FsPath>,
    pub global_error: Option<FsPath>,
    pub loading: Option<FsPath>,
    pub template: Option<FsPath>,
    pub not_found: Option<FsPath>,
    pub default: Option<FsPath>,
    pub route: Option<FsPath>,
    pub metadata: Metadata<FsPath>,
}

/// A route segment with its components and the trees of its parallel
/// routes, in the order of their names. The parallel routes are a vector of
/// (name, tree) pairs in insertion order, whose names are meant to be
/// distinct ([`crate::laws::names_distinct`]); conversion keeps them so.
#[derive(Debug, PartialEq, Eq)]
pub struct LoaderTree {
    pub segment: String,
    pub parallel_routes: Vec<(String, LoaderTree)>,
    pub components: Components,
    pub global_metadata: GlobalMetadata<FsPath>,
}

/// What an app path leads to: a page with its loader tree, a route handler,
/// or a metadata file served as a route.
#[derive(Debug, PartialEq, Eq)]
pub enum Entrypoint {
    AppPage { loader_tree: LoaderTree },
    AppRoute { path: FsPath },
    AppMetadata { metadata: MetadataItem<FsPath> },
}

} // verus!
