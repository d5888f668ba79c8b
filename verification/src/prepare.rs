//! Turning the app structure into what JavaScript receives: each file path
//! made relative to the project path, the first path outside of the project
//! reported as an error.

use vstd::prelude::*;

use crate::error::AppStructureError;
use crate::for_js::{
    ComponentsForJs, EntrypointForJs, GlobalMetadataForJs, LoaderTreeForJs, MetadataForJs,
    MetadataItemForJs, MetadataWithAltItemForJs,
};
use crate::fs_path::{is_normalized, spec_get_path_to, spec_join_path, FsPath, FsPathView};
use crate::structure::{
    Components, Entrypoint, GlobalMetadata, LoaderTree, Metadata, MetadataItem,
    MetadataWithAltItem,
};

verus! {

// ---------------------------------------------------------------------------
// What each conversion gives
// ---------------------------------------------------------------------------

/// The path of `p` relative to the project path `pp`, where `p` lies inside
/// the project.
pub open spec fn relative_path(pp: FsPathView, p: FsPath) -> Option<Seq<char>> {
    spec_get_path_to(pp, p@)
}

/// `p` itself where it lies outside of the project, else `None`.
pub open spec fn path_failure(pp: FsPathView, p: FsPath) -> Option<FsPathView> {
    if relative_path(pp, p) is Some {
        None
    } else {
        Some(p@)
    }
}

/// `s` is the path of `p` relative to the project.
pub open spec fn path_converted(pp: FsPathView, p: FsPath, s: String) -> bool {
    relative_path(pp, p) == Some(s@)
}

/// The first of two failures.
pub open spec fn first_failure(a: Option<FsPathView>, b: Option<FsPathView>) -> Option<FsPathView> {
    if a is Some {
        a
    } else {
        b
    }
}

/// `e` reports the path `failure` as lying outside of the project path `pp`.
pub open spec fn outside_error(e: AppStructureError, failure: Option<FsPathView>, pp: FsPathView) -> bool {
    e matches AppStructureError::PathOutsideProject { path, project_path } && Some(path@) == failure
        && project_path@ == pp
}

pub open spec fn opt_path_failure(pp: FsPathView, o: Option<FsPath>) -> Option<FsPathView> {
    match o {
        Some(p) => path_failure(pp, p),
        None => None,
    }
}

pub open spec fn opt_path_converted(pp: FsPathView, o: Option<FsPath>, r: Option<String>) -> bool {
    match o {
        Some(p) => r matches Some(s) && path_converted(pp, p, s),
        None => r is None,
    }
}

pub open spec fn item_failure(pp: FsPathView, m: MetadataItem<FsPath>) -> Option<FsPathView> {
    path_failure(pp, m.spec_path())
}

pub open spec fn item_converted(pp: FsPathView, m: MetadataItem<FsPath>, r: MetadataItemForJs) -> bool {
    match m {
        MetadataItem::Static { path } => r matches MetadataItem::Static { path: s } && path_converted(
            pp,
            path,
            s,
        ),
        MetadataItem::Dynamic { path } => r matches MetadataItem::Dynamic { path: s }
            && path_converted(pp, path, s),
    }
}

pub open spec fn opt_item_failure(pp: FsPathView, o: Option<MetadataItem<FsPath>>) -> Option<FsPathView> {
    match o {
        Some(m) => item_failure(pp, m),
        None => None,
    }
}

pub open spec fn opt_item_converted(
    pp: FsPathView,
    o: Option<MetadataItem<FsPath>>,
    r: Option<MetadataItemForJs>,
) -> bool {
    match o {
        Some(m) => r matches Some(x) && item_converted(pp, m, x),
        None => r is None,
    }
}

pub open spec fn alt_item_failure(pp: FsPathView, m: MetadataWithAltItem<FsPath>) -> Option<FsPathView> {
    match m {
        MetadataWithAltItem::Static { path, alt_path } => first_failure(
            path_failure(pp, path),
            opt_path_failure(pp, alt_path),
        ),
        MetadataWithAltItem::Dynamic { path } => path_failure(pp, path),
    }
}

pub open spec fn alt_item_converted(
    pp: FsPathView,
    m: MetadataWithAltItem<FsPath>,
    r: MetadataWithAltItemForJs,
) -> bool {
    match m {
        MetadataWithAltItem::Static { path, alt_path } => r matches MetadataWithAltItem::Static {
            path: s,
            alt_path: t,
        } && path_converted(pp, path, s) && opt_path_converted(pp, alt_path, t),
        MetadataWithAltItem::Dynamic { path } => r matches MetadataWithAltItem::Dynamic { path: s }
            && path_converted(pp, path, s),
    }
}

/// The first failure among image metadata files, in order.
pub open spec fn alt_items_failure(pp: FsPathView, s: Seq<MetadataWithAltItem<FsPath>>) -> Option<
    FsPathView,
>
    decreases s.len(),
{
    if s.len() == 0 {
        None
    } else {
        first_failure(alt_items_failure(pp, s.drop_last()), alt_item_failure(pp, s.last()))
    }
}

pub open spec fn alt_items_converted(
    pp: FsPathView,
    s: Seq<MetadataWithAltItem<FsPath>>,
    r: Seq<MetadataWithAltItemForJs>,
) -> bool {
    &&& s.len() == r.len()
    &&& forall|i: int| 0 <= i < s.len() ==> #[trigger] alt_item_converted(pp, s[i], r[i])
}

pub open spec fn metadata_failure(pp: FsPathView, m: Metadata<FsPath>) -> Option<FsPathView> {
    first_failure(
        alt_items_failure(pp, m.icon@),
        first_failure(
            alt_items_failure(pp, m.apple@),
            first_failure(
                alt_items_failure(pp, m.twitter@),
                first_failure(alt_items_failure(pp, m.open_graph@), opt_item_failure(pp, m.sitemap)),
            ),
        ),
    )
}

pub open spec fn metadata_converted(pp: FsPathView, m: Metadata<FsPath>, r: MetadataForJs) -> bool {
    &&& alt_items_converted(pp, m.icon@, r.icon@)
    &&& alt_items_converted(pp, m.apple@, r.apple@)
    &&& alt_items_converted(pp, m.twitter@, r.twitter@)
    &&& alt_items_converted(pp, m.open_graph@, r.open_graph@)
    &&& opt_item_converted(pp, m.sitemap, r.sitemap)
}

/// The first failure among the components, in the order page, layout,
/// error, loading, template, not-found, default, route, then the metadata;
/// the global error page is not looked at.
pub open spec fn components_failure(pp: FsPathView, c: Components) -> Option<FsPathView> {
    first_failure(
        opt_path_failure(pp, c.page),
        first_failure(
            opt_path_failure(pp, c.layout),
            first_failure(
                opt_path_failure(pp, c.error),
                first_failure(
                    opt_path_failure(pp, c.loading),
                    first_failure(
                        opt_path_failure(pp, c.template),
                        first_failure(
                            opt_path_failure(pp, c.not_found),
                            first_failure(
                                opt_path_failure(pp, c.default),
                                first_failure(
                                    opt_path_failure(pp, c.route),
                                    metadata_failure(pp, c.metadata),
                                ),
                            ),
                        ),
                    ),
                ),
            ),
        ),
    )
}

pub open spec fn components_converted(pp: FsPathView, c: Components, r: ComponentsForJs) -> bool {
    &&& opt_path_converted(pp, c.page, r.page)
    &&& opt_path_converted(pp, c.layout, r.layout)
    &&& opt_path_converted(pp, c.error, r.error)
    &&& opt_path_converted(pp, c.loading, r.loading)
    &&& opt_path_converted(pp, c.template, r.template)
    &&& opt_path_converted(pp, c.not_found, r.not_found)
    &&& opt_path_converted(pp, c.default, r.default)
    &&& opt_path_converted(pp, c.route, r.route)
    &&& metadata_converted(pp, c.metadata, r.metadata)
}

/// The first failure among the app-wide metadata files, in the order
/// favicon, manifest, robots.
pub open spec fn global_metadata_failure(pp: FsPathView, g: GlobalMetadata<FsPath>) -> Option<FsPathView> {
    first_failure(
        opt_item_failure(pp, g.favicon),
        first_failure(opt_item_failure(pp, g.manifest), opt_item_failure(pp, g.robots)),
    )
}

pub open spec fn global_metadata_converted(
    pp: FsPathView,
    g: GlobalMetadata<FsPath>,
    r: GlobalMetadataForJs,
) -> bool {
    &&& opt_item_converted(pp, g.favicon, r.favicon)
    &&& opt_item_converted(pp, g.robots, r.robots)
    &&& opt_item_converted(pp, g.manifest, r.manifest)
}

/// The first failure in a loader tree: its parallel routes in order, then
/// its components, then its app-wide metadata.
pub open spec fn tree_failure(pp: FsPathView, t: LoaderTree) -> Option<FsPathView>
    decreases t,
{
    first_failure(
        routes_failure(pp, t.parallel_routes@),
        first_failure(
            components_failure(pp, t.components),
            global_metadata_failure(pp, t.global_metadata),
        ),
    )
}

/// The first failure among parallel routes, in order.
pub open spec fn routes_failure(pp: FsPathView, rs: Seq<(String, LoaderTree)>) -> Option<FsPathView>
    decreases rs,
{
    if rs.len() == 0 {
        None
    } else {
        first_failure(routes_failure(pp, rs.drop_last()), tree_failure(pp, rs[rs.len() - 1].1))
    }
}

/// `o` is the loader tree `t` with every path relative to the project: the
/// same segment, the same parallel routes under the same names in the same
/// order, and the components and app-wide metadata converted.
pub open spec fn tree_converted(pp: FsPathView, t: LoaderTree, o: LoaderTreeForJs) -> bool
    decreases t,
{
    &&& o.segment@ == t.segment@
    &&& routes_converted(pp, t.parallel_routes@, o.parallel_routes@)
    &&& components_converted(pp, t.components, o.components)
    &&& global_metadata_converted(pp, t.global_metadata, o.global_metadata)
}

/// Each parallel route converted, under the same name and in the same order.
pub open spec fn routes_converted(
    pp: FsPathView,
    rs: Seq<(String, LoaderTree)>,
    os: Seq<(String, LoaderTreeForJs)>,
) -> bool
    decreases rs,
{
    if rs.len() == 0 {
        os.len() == 0
    } else {
        &&& os.len() == rs.len()
        &&& routes_converted(pp, rs.drop_last(), os.drop_last())
        &&& os[os.len() - 1].0@ == rs[rs.len() - 1].0@
        &&& tree_converted(pp, rs[rs.len() - 1].1, os[os.len() - 1].1)
    }
}

pub open spec fn entrypoint_failure(pp: FsPathView, e: Entrypoint) -> Option<FsPathView> {
    match e {
        Entrypoint::AppPage { loader_tree } => tree_failure(pp, loader_tree),
        Entrypoint::AppRoute { path } => path_failure(pp, path),
        Entrypoint::AppMetadata { metadata } => path_failure(pp, metadata.spec_path()),
    }
}

/// A page keeps its converted loader tree; a route, and a metadata file,
/// become a route by the relative path of the file.
pub open spec fn entrypoint_converted(pp: FsPathView, e: Entrypoint, r: EntrypointForJs) -> bool {
    match e {
        Entrypoint::AppPage { loader_tree } => r matches EntrypointForJs::AppPage { loader_tree: o }
            && tree_converted(pp, loader_tree, o),
        Entrypoint::AppRoute { path } => r matches EntrypointForJs::AppRoute { path: s }
            && path_converted(pp, path, s),
        Entrypoint::AppMetadata { metadata } => r matches EntrypointForJs::AppRoute { path: s }
            && path_converted(pp, metadata.spec_path(), s),
    }
}

/// The first failure among the entrypoints, in order.
pub open spec fn entrypoints_failure(pp: FsPathView, s: Seq<(String, Entrypoint)>) -> Option<FsPathView>
    decreases s.len(),
{
    if s.len() == 0 {
        None
    } else {
        first_failure(entrypoints_failure(pp, s.drop_last()), entrypoint_failure(pp, s.last().1))
    }
}

/// Each entrypoint converted, under the same name and in the same order.
pub open spec fn entrypoints_converted(
    pp: FsPathView,
    s: Seq<(String, Entrypoint)>,
    r: Seq<(String, EntrypointForJs)>,
) -> bool {
    &&& s.len() == r.len()
    &&& forall|i: int| 0 <= i < s.len() ==> #[trigger] named_entrypoint_converted(pp, s[i], r[i])
}

/// The same app path, and the entrypoint converted.
pub open spec fn named_entrypoint_converted(
    pp: FsPathView,
    e: (String, Entrypoint),
    r: (String, EntrypointForJs),
) -> bool {
    r.0@ == e.0@ && entrypoint_converted(pp, e.1, r.1)
}

// ---------------------------------------------------------------------------
// Failures of a prefix stay the first failure
// ---------------------------------------------------------------------------

proof fn lemma_alt_items_failure_prefix(pp: FsPathView, s: Seq<MetadataWithAltItem<FsPath>>, k: int)
    requires
        0 <= k <= s.len(),
        alt_items_failure(pp, s.take(k)) is Some,
    ensures
        alt_items_failure(pp, s) == alt_items_failure(pp, s.take(k)),
    decreases s.len(),
{
    if k < s.len() {
        assert(s.drop_last().take(k) =~= s.take(k));
        lemma_alt_items_failure_prefix(pp, s.drop_last(), k);
    } else {
        assert(s.take(k) =~= s);
    }
}

proof fn lemma_routes_failure_prefix(pp: FsPathView, s: Seq<(String, LoaderTree)>, k: int)
    requires
        0 <= k <= s.len(),
        routes_failure(pp, s.take(k)) is Some,
    ensures
        routes_failure(pp, s) == routes_failure(pp, s.take(k)),
    decreases s.len(),
{
    if k < s.len() {
        assert(s.drop_last().take(k) =~= s.take(k));
        lemma_routes_failure_prefix(pp, s.drop_last(), k);
    } else {
        assert(s.take(k) =~= s);
    }
}

proof fn lemma_entrypoints_failure_prefix(pp: FsPathView, s: Seq<(String, Entrypoint)>, k: int)
    requires
        0 <= k <= s.len(),
        entrypoints_failure(pp, s.take(k)) is Some,
    ensures
        entrypoints_failure(pp, s) == entrypoints_failure(pp, s.take(k)),
    decreases s.len(),
{
    if k < s.len() {
        assert(s.drop_last().take(k) =~= s.take(k));
        lemma_entrypoints_failure_prefix(pp, s.drop_last(), k);
    } else {
        assert(s.take(k) =~= s);
    }
}

// ---------------------------------------------------------------------------
// The conversions
// ---------------------------------------------------------------------------

/// The path of `path` relative to `project_path`; an error where `path`
/// does not lie inside of the project.
pub fn fs_path_to_path(project_path: &FsPath, path: &FsPath) -> (r: Result<String, AppStructureError>)
    ensures
        match r {
            Ok(s) => path_converted(project_path@, *path, s),
            Err(e) => outside_error(e, path_failure(project_path@, *path), project_path@),
        },
        r matches Ok(s) ==> is_normalized(s@) && path@.fs == project_path@.fs && spec_join_path(
            project_path@.path,
            s@,
        ) == Some(path@.path),
{
    match project_path.get_path_to(path) {
        None => Err(
            AppStructureError::PathOutsideProject {
                path: path.copy(),
                project_path: project_path.copy(),
            },
        ),
        Some(p) => Ok(p),
    }
}

/// Sets `result` to the relative path of `value`, where there is one.
fn add_component(result: &mut Option<String>, project_path: &FsPath, value: &Option<FsPath>) -> (r:
    Result<(), AppStructureError>)
    ensures
        match r {
            Ok(_) => opt_path_failure(project_path@, *value) is None && (if value is Some {
                opt_path_converted(project_path@, *value, *final(result))
            } else {
                *final(result) == *old(result)
            }),
            Err(e) => outside_error(e, opt_path_failure(project_path@, *value), project_path@)
                && *final(result) == *old(result),
        },
{
    if let Some(value) = value {
        *result = Some(fs_path_to_path(project_path, value)?);
    }
    Ok(())
}

/// A metadata file by its path relative to the project.
fn prepare_meta_item(project_path: &FsPath, value: &MetadataItem<FsPath>) -> (r: Result<
    MetadataItemForJs,
    AppStructureError,
>)
    ensures
        match r {
            Ok(o) => item_failure(project_path@, *value) is None && item_converted(project_path@, *value, o),
            Err(e) => outside_error(e, item_failure(project_path@, *value), project_path@),
        },
{
    match value {
        MetadataItem::Static { path } => {
            let path = fs_path_to_path(project_path, path)?;
            Ok(MetadataItem::Static { path })
        },
        MetadataItem::Dynamic { path } => {
            let path = fs_path_to_path(project_path, path)?;
            Ok(MetadataItem::Dynamic { path })
        },
    }
}

/// An image metadata file by its paths relative to the project.
fn prepare_meta_with_alt_item(project_path: &FsPath, value: &MetadataWithAltItem<FsPath>) -> (r: Result<
    MetadataWithAltItemForJs,
    AppStructureError,
>)
    ensures
        match r {
            Ok(o) => alt_item_failure(project_path@, *value) is None && alt_item_converted(
                project_path@,
                *value,
                o,
            ),
            Err(e) => outside_error(e, alt_item_failure(project_path@, *value), project_path@),
        },
{
    match value {
        MetadataWithAltItem::Static { path, alt_path } => {
            let path = fs_path_to_path(project_path, path)?;
            let alt_path = if let Some(alt_path) = alt_path {
                Some(fs_path_to_path(project_path, alt_path)?)
            } else {
                None
            };
            Ok(MetadataWithAltItem::Static { path, alt_path })
        },
        MetadataWithAltItem::Dynamic { path } => {
            let path = fs_path_to_path(project_path, path)?;
            Ok(MetadataWithAltItem::Dynamic { path })
        },
    }
}

/// Replaces `meta` by the image metadata files of `value`, by their paths
/// relative to the project, unless `value` is empty.
fn add_meta_vec(
    meta: &mut Vec<MetadataWithAltItemForJs>,
    project_path: &FsPath,
    value: &Vec<MetadataWithAltItem<FsPath>>,
) -> (r: Result<(), AppStructureError>)
    ensures
        match r {
            Ok(_) => alt_items_failure(project_path@, value@) is None && (if value@.len() == 0 {
                final(meta)@ == old(meta)@
            } else {
                alt_items_converted(project_path@, value@, final(meta)@)
            }),
            Err(e) => outside_error(e, alt_items_failure(project_path@, value@), project_path@)
                && final(meta)@ == old(meta)@,
        },
{
    let n = value.len();
    if n == 0 {
        return Ok(());
    }
    let ghost pp = project_path@;
    let mut out: Vec<MetadataWithAltItemForJs> = Vec::new();
    for i in 0..n
        invariant
            n == value.len(),
            pp == project_path@,
            out.len() == i,
            alt_items_failure(pp, value@.take(i as int)) is None,
            forall|j: int| 0 <= j < i ==> #[trigger] alt_item_converted(pp, value@[j], out@[j]),
    {
        assert(value@.take(i + 1).drop_last() =~= value@.take(i as int));
        match prepare_meta_with_alt_item(project_path, &value[i]) {
            Ok(o) => {
                out.push(o);
            },
            Err(e) => {
                proof {
                    lemma_alt_items_failure_prefix(pp, value@, i + 1);
                }
                return Err(e);
            },
        }
    }
    assert(value@.take(n as int) =~= value@);
    *meta = out;
    Ok(())
}

/// Replaces `meta` by the metadata file of `value`, by its path relative to
/// the project, where there is one.
fn add_meta(meta: &mut Option<MetadataItemForJs>, project_path: &FsPath, value: &Option<MetadataItem<FsPath>>) -> (r:
    Result<(), AppStructureError>)
    ensures
        match r {
            Ok(_) => opt_item_failure(project_path@, *value) is None && (if value is Some {
                opt_item_converted(project_path@, *value, *final(meta))
            } else {
                *final(meta) == *old(meta)
            }),
            Err(e) => outside_error(e, opt_item_failure(project_path@, *value), project_path@)
                && *final(meta) == *old(meta),
        },
{
    if let Some(value) = value {
        *meta = Some(prepare_meta_item(project_path, value)?);
    }
    Ok(())
}

/// The components of a route segment with their paths relative to the
/// project; an error for the first path, in the order of
/// [`components_failure`], that lies outside of it.
pub fn prepare_components_for_js(project_path: &FsPath, components: &Components) -> (r: Result<
    ComponentsForJs,
    AppStructureError,
>)
    ensures
        match r {
            Ok(o) => components_failure(project_path@, *components) is None && components_converted(
                project_path@,
                *components,
                o,
            ),
            Err(e) => outside_error(e, components_failure(project_path@, *components), project_path@),
        },
{
    let mut result = ComponentsForJs {
        page: None,
        layout: None,
        error: None,
        loading: None,
        template: None,
        not_found: None,
        default: None,
        route: None,
        metadata: Metadata {
            icon: Vec::new(),
            apple: Vec::new(),
            twitter: Vec::new(),
            open_graph: Vec::new(),
            sitemap: None,
        },
    };
    add_component(&mut result.page, project_path, &components.page)?;
    add_component(&mut result.layout, project_path, &components.layout)?;
    add_component(&mut result.error, project_path, &components.error)?;
    add_component(&mut result.loading, project_path, &components.loading)?;
    add_component(&mut result.template, project_path, &components.template)?;
    add_component(&mut result.not_found, project_path, &components.not_found)?;
    add_component(&mut result.default, project_path, &components.default)?;
    add_component(&mut result.route, project_path, &components.route)?;
    let metadata = &components.metadata;
    add_meta_vec(&mut result.metadata.icon, project_path, &metadata.icon)?;
    add_meta_vec(&mut result.metadata.apple, project_path, &metadata.apple)?;
    add_meta_vec(&mut result.metadata.twitter, project_path, &metadata.twitter)?;
    add_meta_vec(&mut result.metadata.open_graph, project_path, &metadata.open_graph)?;
    add_meta(&mut result.metadata.sitemap, project_path, &metadata.sitemap)?;
    Ok(result)
}

/// The app-wide metadata files with their paths relative to the project,
/// in the order favicon, manifest, robots.
fn prepare_global_metadata_for_js(project_path: &FsPath, global_metadata: &GlobalMetadata<FsPath>) -> (r:
    Result<GlobalMetadataForJs, AppStructureError>)
    ensures
        match r {
            Ok(o) => global_metadata_failure(project_path@, *global_metadata) is None
                && global_metadata_converted(project_path@, *global_metadata, o),
            Err(e) => outside_error(
                e,
                global_metadata_failure(project_path@, *global_metadata),
                project_path@,
            ),
        },
{
    let mut meta = GlobalMetadata { favicon: None, robots: None, manifest: None };
    add_meta(&mut meta.favicon, project_path, &global_metadata.favicon)?;
    add_meta(&mut meta.manifest, project_path, &global_metadata.manifest)?;
    add_meta(&mut meta.robots, project_path, &global_metadata.robots)?;
    Ok(meta)
}

/// The loader tree with every path relative to the project; an error for
/// the first path, in the order of [`tree_failure`], that lies outside of it.
pub fn prepare_loader_tree_for_js_internal(project_path: &FsPath, loader_tree: &LoaderTree) -> (r: Result<
    LoaderTreeForJs,
    AppStructureError,
>)
    ensures
        match r {
            Ok(o) => tree_failure(project_path@, *loader_tree) is None && tree_converted(
                project_path@,
                *loader_tree,
                o,
            ),
            Err(e) => outside_error(e, tree_failure(project_path@, *loader_tree), project_path@),
        },
    decreases loader_tree,
{
    let ghost pp = project_path@;
    let n = loader_tree.parallel_routes.len();
    let mut parallel_routes: Vec<(String, LoaderTreeForJs)> = Vec::new();
    for i in 0..n
        invariant
            n == loader_tree.parallel_routes.len(),
            pp == project_path@,
            routes_failure(pp, loader_tree.parallel_routes@.take(i as int)) is None,
            routes_converted(pp, loader_tree.parallel_routes@.take(i as int), parallel_routes@),
    {
        let ghost rs = loader_tree.parallel_routes@;
        assert(rs.take(i + 1).drop_last() =~= rs.take(i as int));
        let entry = &loader_tree.parallel_routes[i];
        proof {
            assert(decreases_to!(loader_tree => loader_tree.parallel_routes));
            assert(decreases_to!(loader_tree.parallel_routes => rs));
            assert(decreases_to!(rs => rs[i as int]));
            assert(decreases_to!(rs[i as int] => rs[i as int].1));
        }
        match prepare_loader_tree_for_js_internal(project_path, &entry.1) {
            Ok(child) => {
                let ghost before = parallel_routes@;
                parallel_routes.push((entry.0.clone(), child));
                assert(parallel_routes@.drop_last() =~= before);
            },
            Err(e) => {
                proof {
                    lemma_routes_failure_prefix(pp, rs, i + 1);
                }
                return Err(e);
            },
        }
    }
    assert(loader_tree.parallel_routes@.take(n as int) =~= loader_tree.parallel_routes@);
    let components = prepare_components_for_js(project_path, &loader_tree.components)?;
    let global_metadata = prepare_global_metadata_for_js(project_path, &loader_tree.global_metadata)?;
    Ok(LoaderTreeForJs {
        segment: loader_tree.segment.clone(),
        parallel_routes,
        components,
        global_metadata,
    })
}

/// The loader tree of a page with every path relative to the project.
pub fn prepare_loader_tree_for_js(project_path: &FsPath, loader_tree: &LoaderTree) -> (r: Result<
    LoaderTreeForJs,
    AppStructureError,
>)
    ensures
        match r {
            Ok(o) => tree_failure(project_path@, *loader_tree) is None && tree_converted(
                project_path@,
                *loader_tree,
                o,
            ),
            Err(e) => outside_error(e, tree_failure(project_path@, *loader_tree), project_path@),
        },
{
    prepare_loader_tree_for_js_internal(project_path, loader_tree)
}

/// One entrypoint as JavaScript receives it.
fn prepare_entrypoint_for_js(project_path: &FsPath, value: &Entrypoint) -> (r: Result<
    EntrypointForJs,
    AppStructureError,
>)
    ensures
        match r {
            Ok(o) => entrypoint_failure(project_path@, *value) is None && entrypoint_converted(
                project_path@,
                *value,
                o,
            ),
            Err(e) => outside_error(e, entrypoint_failure(project_path@, *value), project_path@),
        },
{
    match value {
        Entrypoint::AppPage { loader_tree } => {
            let loader_tree = prepare_loader_tree_for_js(project_path, loader_tree)?;
            Ok(EntrypointForJs::AppPage { loader_tree })
        },
        Entrypoint::AppRoute { path } => {
            let path = fs_path_to_path(project_path, path)?;
            Ok(EntrypointForJs::AppRoute { path })
        },
        Entrypoint::AppMetadata { metadata } => {
            let path = fs_path_to_path(project_path, metadata.path())?;
            Ok(EntrypointForJs::AppRoute { path })
        },
    }
}

/// Every entrypoint, under its app path and in the same order, as
/// JavaScript receives it; an error for the first path, in that order, that
/// lies outside of the project.
pub fn prepare_entrypoints_for_js(project_path: &FsPath, entrypoints: &Vec<(String, Entrypoint)>) -> (r:
    Result<Vec<(String, EntrypointForJs)>, AppStructureError>)
    ensures
        match r {
            Ok(o) => entrypoints_failure(project_path@, entrypoints@) is None && entrypoints_converted(
                project_path@,
                entrypoints@,
                o@,
            ),
            Err(e) => outside_error(e, entrypoints_failure(project_path@, entrypoints@), project_path@),
        },
{
    let ghost pp = project_path@;
    let n = entrypoints.len();
    let mut out: Vec<(String, EntrypointForJs)> = Vec::new();
    for i in 0..n
        invariant
            n == entrypoints.len(),
            pp == project_path@,
            out.len() == i,
            entrypoints_failure(pp, entrypoints@.take(i as int)) is None,
            forall|j: int|
                0 <= j < i ==> #[trigger] named_entrypoint_converted(pp, entrypoints@[j], out@[j]),
    {
        assert(entrypoints@.take(i + 1).drop_last() =~= entrypoints@.take(i as int));
        let entry = &entrypoints[i];
        match prepare_entrypoint_for_js(project_path, &entry.1) {
            Ok(value) => {
                out.push((entry.0.clone(), value));
            },
            Err(e) => {
                proof {
                    lemma_entrypoints_failure_prefix(pp, entrypoints@, i + 1);
                }
                return Err(e);
            },
        }
    }
    assert(entrypoints@.take(n as int) =~= entrypoints@);
    Ok(out)
}

/// The entrypoints of the app directory as JavaScript receives them, or
/// `None` where the project has no app directory (`app_entrypoints` is
/// `None`).
pub fn get_value(project_path: &FsPath, app_entrypoints: Option<&Vec<(String, Entrypoint)>>) -> (r: Result<
    Option<Vec<(String, EntrypointForJs)>>,
    AppStructureError,
>)
    ensures
        match app_entrypoints {
            None => r matches Ok(None),
            Some(es) => match r {
                Ok(Some(o)) => entrypoints_failure(project_path@, es@) is None && entrypoints_converted(
                    project_path@,
                    es@,
                    o@,
                ),
                Ok(None) => false,
                Err(e) => outside_error(e, entrypoints_failure(project_path@, es@), project_path@),
            },
        },
{
    match app_entrypoints {
        Some(entrypoints) => Ok(Some(prepare_entrypoints_for_js(project_path, entrypoints)?)),
        None => Ok(None),
    }
}

} // verus!
