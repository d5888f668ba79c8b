use app_structure::error::AppStructureError;
use app_structure::for_js::{ComponentsForJs, EntrypointForJs, LoaderTreeForJs};
use app_structure::fs_path::FsPath;
use app_structure::prepare::{
    get_value, prepare_components_for_js, prepare_entrypoints_for_js, prepare_loader_tree_for_js,
    prepare_loader_tree_for_js_internal,
};
use app_structure::structure::{
    Components, Entrypoint, GlobalMetadata, LoaderTree, Metadata, MetadataItem,
    MetadataWithAltItem,
};

const FS: u64 = 1;

fn p(path: &str) -> FsPath {
    FsPath::new(FS, "project", path).unwrap()
}

fn project() -> FsPath {
    p("web")
}

fn no_metadata<P>() -> Metadata<P> {
    Metadata { icon: Vec::new(), apple: Vec::new(), twitter: Vec::new(), open_graph: Vec::new(), sitemap: None }
}

fn no_global<P>() -> GlobalMetadata<P> {
    GlobalMetadata { favicon: None, robots: None, manifest: None }
}

fn components(page: Option<FsPath>, layout: Option<FsPath>) -> Components {
    Components {
        page,
        layout,
        error: None,
        global_error: None,
        loading: None,
        template: None,
        not_found: None,
        default: None,
        route: None,
        metadata: no_metadata(),
    }
}

fn components_js(page: Option<&str>, layout: Option<&str>) -> ComponentsForJs {
    ComponentsForJs {
        page: page.map(|s| s.to_string()),
        layout: layout.map(|s| s.to_string()),
        error: None,
        loading: None,
        template: None,
        not_found: None,
        default: None,
        route: None,
        metadata: no_metadata(),
    }
}

fn leaf(segment: &str, page: &str) -> LoaderTree {
    LoaderTree {
        segment: segment.to_string(),
        parallel_routes: Vec::new(),
        components: components(Some(p(page)), None),
        global_metadata: no_global(),
    }
}

#[test]
fn every_component_made_relative() {
    let c = Components {
        page: Some(p("web/app/page.tsx")),
        layout: Some(p("web/app/layout.tsx")),
        error: Some(p("web/app/error.tsx")),
        global_error: Some(p("web/app/global-error.tsx")),
        loading: Some(p("web/app/loading.tsx")),
        template: Some(p("web/app/template.tsx")),
        not_found: Some(p("web/app/not-found.tsx")),
        default: Some(p("web/app/default.tsx")),
        route: Some(p("web/app/route.ts")),
        metadata: Metadata {
            icon: vec![
                MetadataWithAltItem::Static { path: p("web/app/icon.png"), alt_path: Some(p("web/app/icon.alt.txt")) },
                MetadataWithAltItem::Dynamic { path: p("web/app/icon.tsx") },
            ],
            apple: vec![MetadataWithAltItem::Static { path: p("web/app/apple-icon.png"), alt_path: None }],
            twitter: Vec::new(),
            open_graph: vec![MetadataWithAltItem::Dynamic { path: p("web/app/opengraph-image.tsx") }],
            sitemap: Some(MetadataItem::Dynamic { path: p("web/app/sitemap.ts") }),
        },
    };
    let expected = ComponentsForJs {
        page: Some("app/page.tsx".to_string()),
        layout: Some("app/layout.tsx".to_string()),
        error: Some("app/error.tsx".to_string()),
        loading: Some("app/loading.tsx".to_string()),
        template: Some("app/template.tsx".to_string()),
        not_found: Some("app/not-found.tsx".to_string()),
        default: Some("app/default.tsx".to_string()),
        route: Some("app/route.ts".to_string()),
        metadata: Metadata {
            icon: vec![
                MetadataWithAltItem::Static {
                    path: "app/icon.png".to_string(),
                    alt_path: Some("app/icon.alt.txt".to_string()),
                },
                MetadataWithAltItem::Dynamic { path: "app/icon.tsx".to_string() },
            ],
            apple: vec![MetadataWithAltItem::Static { path: "app/apple-icon.png".to_string(), alt_path: None }],
            twitter: Vec::new(),
            open_graph: vec![MetadataWithAltItem::Dynamic { path: "app/opengraph-image.tsx".to_string() }],
            sitemap: Some(MetadataItem::Dynamic { path: "app/sitemap.ts".to_string() }),
        },
    };
    assert_eq!(prepare_components_for_js(&project(), &c), Ok(expected));
}

#[test]
fn global_error_is_not_looked_at() {
    let mut c = components(Some(p("web/app/page.tsx")), None);
    c.global_error = Some(p("elsewhere/global-error.tsx"));
    assert_eq!(prepare_components_for_js(&project(), &c), Ok(components_js(Some("app/page.tsx"), None)));
}

#[test]
fn first_outside_component_is_reported() {
    let c = components(Some(p("other/page.tsx")), Some(p("other/layout.tsx")));
    assert_eq!(
        prepare_components_for_js(&project(), &c),
        Err(AppStructureError::PathOutsideProject { path: p("other/page.tsx"), project_path: project() })
    );
}

#[test]
fn outside_alt_path_is_reported() {
    let mut c = components(None, None);
    c.metadata.twitter = vec![MetadataWithAltItem::Static {
        path: p("web/app/twitter-image.png"),
        alt_path: Some(p("x/twitter-image.alt.txt")),
    }];
    assert_eq!(
        prepare_components_for_js(&project(), &c),
        Err(AppStructureError::PathOutsideProject { path: p("x/twitter-image.alt.txt"), project_path: project() })
    );
}

#[test]
fn loader_tree_keeps_route_order_and_segments() {
    let tree = LoaderTree {
        segment: "".to_string(),
        parallel_routes: vec![
            ("children".to_string(), leaf("blog", "web/app/blog/page.tsx")),
            ("modal".to_string(), leaf("(.)photo", "web/app/@modal/(.)photo/page.tsx")),
        ],
        components: components(None, Some(p("web/app/layout.tsx"))),
        global_metadata: GlobalMetadata {
            favicon: Some(MetadataItem::Static { path: p("web/app/favicon.ico") }),
            robots: None,
            manifest: Some(MetadataItem::Dynamic { path: p("web/app/site-info.ts") }),
        },
    };
    let out = prepare_loader_tree_for_js(&project(), &tree).unwrap();
    let expected = LoaderTreeForJs {
        segment: "".to_string(),
        parallel_routes: vec![
            (
                "children".to_string(),
                LoaderTreeForJs {
                    segment: "blog".to_string(),
                    parallel_routes: Vec::new(),
                    components: components_js(Some("app/blog/page.tsx"), None),
                    global_metadata: no_global(),
                },
            ),
            (
                "modal".to_string(),
                LoaderTreeForJs {
                    segment: "(.)photo".to_string(),
                    parallel_routes: Vec::new(),
                    components: components_js(Some("app/@modal/(.)photo/page.tsx"), None),
                    global_metadata: no_global(),
                },
            ),
        ],
        components: components_js(None, Some("app/layout.tsx")),
        global_metadata: GlobalMetadata {
            favicon: Some(MetadataItem::Static { path: "app/favicon.ico".to_string() }),
            robots: None,
            manifest: Some(MetadataItem::Dynamic { path: "app/site-info.ts".to_string() }),
        },
    };
    assert_eq!(out, expected);
    assert_eq!(prepare_loader_tree_for_js_internal(&project(), &tree), Ok(expected));
}

#[test]
fn outside_path_in_child_route_comes_before_own_components() {
    let tree = LoaderTree {
        segment: "".to_string(),
        parallel_routes: vec![("children".to_string(), leaf("a", "nope/page.tsx"))],
        components: components(None, Some(p("nope/layout.tsx"))),
        global_metadata: no_global(),
    };
    assert_eq!(
        prepare_loader_tree_for_js(&project(), &tree),
        Err(AppStructureError::PathOutsideProject { path: p("nope/page.tsx"), project_path: project() })
    );
}

#[test]
fn global_metadata_checked_favicon_manifest_robots() {
    let tree = LoaderTree {
        segment: "".to_string(),
        parallel_routes: Vec::new(),
        components: components(None, None),
        global_metadata: GlobalMetadata {
            favicon: None,
            robots: Some(MetadataItem::Static { path: p("x/robots.txt") }),
            manifest: Some(MetadataItem::Static { path: p("y/site-info.json") }),
        },
    };
    assert_eq!(
        prepare_loader_tree_for_js(&project(), &tree),
        Err(AppStructureError::PathOutsideProject { path: p("y/site-info.json"), project_path: project() })
    );
}

#[test]
fn entrypoints_of_each_kind() {
    let entrypoints = vec![
        ("/".to_string(), Entrypoint::AppPage { loader_tree: leaf("", "web/app/page.tsx") }),
        ("/api/hello".to_string(), Entrypoint::AppRoute { path: p("web/app/api/hello/route.ts") }),
        (
            "/robots.txt".to_string(),
            Entrypoint::AppMetadata { metadata: MetadataItem::Static { path: p("web/app/robots.txt") } },
        ),
    ];
    let out = prepare_entrypoints_for_js(&project(), &entrypoints).unwrap();
    assert_eq!(out.len(), 3);
    assert_eq!(out[0].0, "/");
    assert!(matches!(&out[0].1, EntrypointForJs::AppPage { loader_tree } if loader_tree.components.page.as_deref() == Some("app/page.tsx")));
    assert_eq!(out[1], ("/api/hello".to_string(), EntrypointForJs::AppRoute { path: "app/api/hello/route.ts".to_string() }));
    assert_eq!(out[2], ("/robots.txt".to_string(), EntrypointForJs::AppRoute { path: "app/robots.txt".to_string() }));
}

#[test]
fn first_outside_entrypoint_is_reported() {
    let entrypoints = vec![
        ("/a".to_string(), Entrypoint::AppRoute { path: p("web/app/a/route.ts") }),
        ("/b".to_string(), Entrypoint::AppRoute { path: p("b/route.ts") }),
        (
            "/sitemap.xml".to_string(),
            Entrypoint::AppMetadata { metadata: MetadataItem::Dynamic { path: p("c/sitemap.ts") } },
        ),
    ];
    assert_eq!(
        prepare_entrypoints_for_js(&project(), &entrypoints),
        Err(AppStructureError::PathOutsideProject { path: p("b/route.ts"), project_path: project() })
    );
}

#[test]
fn no_app_directory_gives_none() {
    assert_eq!(get_value(&project(), None), Ok(None));
}

#[test]
fn app_directory_gives_its_entrypoints() {
    let entrypoints = vec![("/x".to_string(), Entrypoint::AppRoute { path: p("web/app/x/route.ts") })];
    assert_eq!(
        get_value(&project(), Some(&entrypoints)),
        Ok(Some(vec![("/x".to_string(), EntrypointForJs::AppRoute { path: "app/x/route.ts".to_string() })]))
    );
}

#[test]
fn empty_entrypoints() {
    assert_eq!(prepare_entrypoints_for_js(&project(), &Vec::new()), Ok(Vec::new()));
}
