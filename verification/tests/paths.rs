use app_structure::error::AppStructureError;
use app_structure::fs_path::{join_path, normalize_path, to_chars, FsPath};
use app_structure::prepare::fs_path_to_path;
use app_structure::project::{project_path, project_relative_path};

fn p(fs: u64, path: &str) -> FsPath {
    FsPath::new(fs, "project", path).unwrap()
}

#[test]
fn relative_path_inside_project() {
    let project = p(1, "apps/web");
    let file = p(1, "apps/web/app/page.tsx");
    assert_eq!(fs_path_to_path(&project, &file), Ok("app/page.tsx".to_string()));
}

#[test]
fn relative_path_of_project_itself_is_empty() {
    let project = p(1, "apps/web");
    assert_eq!(fs_path_to_path(&project, &project.clone()), Ok(String::new()));
}

#[test]
fn relative_path_from_root_is_whole_path() {
    let root = FsPath::root(7, "project");
    let file = p(7, "app/layout.tsx");
    assert_eq!(fs_path_to_path(&root, &file), Ok("app/layout.tsx".to_string()));
}

#[test]
fn sibling_with_common_prefix_is_outside() {
    let project = p(1, "apps/web");
    let file = p(1, "apps/website/app/page.tsx");
    assert_eq!(
        fs_path_to_path(&project, &file),
        Err(AppStructureError::PathOutsideProject { path: file.clone(), project_path: project.clone() })
    );
}

#[test]
fn other_file_system_is_outside() {
    let project = p(1, "apps/web");
    let file = p(2, "apps/web/app/page.tsx");
    assert!(matches!(
        fs_path_to_path(&project, &file),
        Err(AppStructureError::PathOutsideProject { .. })
    ));
    assert_eq!(project.get_path_to(&file), None);
}

#[test]
fn parent_directory_is_outside() {
    let project = p(1, "apps/web");
    let parent = p(1, "apps");
    assert_eq!(project.get_path_to(&parent), None);
}

#[test]
fn normalize_drops_dots_and_empty_segments() {
    assert_eq!(normalize_path("a/./b//c/../d"), Some("a/b/d".to_string()));
    assert_eq!(normalize_path("/a/b/"), Some("a/b".to_string()));
    assert_eq!(normalize_path(""), Some(String::new()));
    assert_eq!(normalize_path("./."), Some(String::new()));
    assert_eq!(normalize_path("a/.."), Some(String::new()));
    assert_eq!(normalize_path("..a/b.."), Some("..a/b..".to_string()));
}

#[test]
fn normalize_refuses_to_climb_above_start() {
    assert_eq!(normalize_path(".."), None);
    assert_eq!(normalize_path("a/../.."), None);
    assert_eq!(normalize_path("../a"), None);
}

#[test]
fn normalize_is_idempotent_on_examples() {
    for s in ["a/./b//c/../d", "/x/y/", "", "q/../r/s/."] {
        let once = normalize_path(s).unwrap();
        assert_eq!(normalize_path(&once), Some(once.clone()));
    }
}

#[test]
fn join_path_cases() {
    assert_eq!(join_path("", "a/b"), Some("a/b".to_string()));
    assert_eq!(join_path("a/b", ""), Some("a/b".to_string()));
    assert_eq!(join_path("a/b", "../c"), Some("a/c".to_string()));
    assert_eq!(join_path("a", "../.."), None);
}

#[test]
fn join_of_relative_path_gives_file_back() {
    let project = p(3, "apps/web");
    let file = p(3, "apps/web/app/(group)/page.tsx");
    let rel = project.get_path_to(&file).unwrap();
    assert_eq!(project.join(&rel), Ok(file.clone()));
    let rel_self = project.get_path_to(&project).unwrap();
    assert_eq!(project.join(&rel_self), Ok(project.clone()));
}

#[test]
fn relative_path_of_joined_path_gives_relative_path_back() {
    let project = p(3, "apps/web");
    let joined = project.join("app/page.tsx").unwrap();
    assert_eq!(joined, p(3, "apps/web/app/page.tsx"));
    assert_eq!(project.get_path_to(&joined), Some("app/page.tsx".to_string()));
}

#[test]
fn join_that_leaves_the_root_fails() {
    let project = p(3, "apps");
    assert_eq!(
        project.join("../../x"),
        Err(AppStructureError::JoinLeavesRoot { base: "apps".to_string(), join: "../../x".to_string() })
    );
}

#[test]
fn chars_of_a_string() {
    assert_eq!(to_chars("añb/"), vec!['a', 'ñ', 'b', '/']);
}

#[test]
fn project_relative_with_slash_separator() {
    assert_eq!(project_relative_path("/repo", "/repo/apps/web", '/'), "apps/web");
    assert_eq!(project_relative_path("/repo", "/repo", '/'), "");
    assert_eq!(project_relative_path("/repo/", "/repo/apps", '/'), "apps");
}

#[test]
fn project_relative_with_backslash_separator() {
    assert_eq!(project_relative_path("C:\\repo", "C:\\repo\\apps\\web", '\\'), "apps/web");
    assert_eq!(project_relative_path("C:\\repo", "C:\\repo\\\\apps", '\\'), "/apps");
}

#[test]
fn project_path_is_normalized() {
    assert_eq!(project_path(9, "project", "/repo", "/repo/apps/./web/", '/'), Ok(p(9, "apps/web")));
    assert_eq!(project_path(9, "project", "/repo", "/repo", '/'), Ok(p(9, "")));
}

#[test]
fn project_path_above_root_fails() {
    assert_eq!(
        project_path(9, "project", "/repo", "/repo/..", '/'),
        Err(AppStructureError::JoinLeavesRoot { base: String::new(), join: "..".to_string() })
    );
}

#[test]
fn describe_and_error_messages() {
    assert_eq!(p(12, "apps/web").describe(), "[project]/apps/web");
    assert_eq!(FsPath::root(0, "disk").describe(), "[disk]/");
    let e = AppStructureError::PathOutsideProject { path: p(3, "other/page.tsx"), project_path: p(3, "apps/web") };
    assert_eq!(e.message(), "Path [project]/other/page.tsx is not inside of the project path [project]/apps/web");
    let e = AppStructureError::JoinLeavesRoot { base: "apps".to_string(), join: "../..".to_string() };
    assert_eq!(e.message(), "Vc<FileSystemPath>(\"apps\").join(\"../..\") leaves the filesystem root");
}

#[test]
fn error_of_fs_path_to_path_reads_as_expected() {
    let project = p(1, "apps/web");
    let file = p(1, "lib/util.ts");
    let e = fs_path_to_path(&project, &file).unwrap_err();
    assert_eq!(e.message(), "Path [project]/lib/util.ts is not inside of the project path [project]/apps/web");
}

#[test]
fn relative_paths_of_normal_paths_are_normal() {
    let project = p(5, "a");
    let file = p(5, "a/b/c");
    let rel = fs_path_to_path(&project, &file).unwrap();
    assert_eq!(normalize_path(&rel), Some(rel.clone()));
    assert_eq!(project.join(&rel), Ok(file));
}

#[test]
fn new_path_is_normalized() {
    let q = FsPath::new(4, "project", "/a//b/./c/../d/").unwrap();
    assert_eq!(q.path(), "a/b/d");
    assert_eq!(q.fs(), 4);
    assert_eq!(q.fs_name(), "project");
    assert_eq!(
        FsPath::new(4, "project", "a/../.."),
        Err(AppStructureError::JoinLeavesRoot { base: String::new(), join: "a/../..".to_string() })
    );
}

#[test]
fn join_back_from_denormal_input_is_the_normal_path() {
    let base = p(2, "a");
    let file = FsPath::new(2, "project", "a//b").unwrap();
    let rel = fs_path_to_path(&base, &file).unwrap();
    assert_eq!(rel, "b");
    assert_eq!(base.join(&rel), Ok(file));
}
