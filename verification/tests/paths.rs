use file_scanner::paths::{
    depth_below, file_name, is_parent, same_part, same_path, starts_with, PathPart,
};
use std::path::{Component, Path};

fn parts(path: &str) -> Vec<PathPart> {
    Path::new(path)
        .components()
        .map(|c| match c {
            Component::Prefix(p) => PathPart::Prefix(p.as_os_str().to_string_lossy().to_string()),
            Component::RootDir => PathPart::RootDir,
            Component::CurDir => PathPart::CurDir,
            Component::ParentDir => PathPart::ParentDir,
            Component::Normal(n) => PathPart::Normal(n.to_string_lossy().to_string()),
        })
        .collect()
}

#[test]
fn parts_compare_by_kind_and_name() {
    assert!(same_part(&PathPart::RootDir, &PathPart::RootDir));
    assert!(same_part(&PathPart::CurDir, &PathPart::CurDir));
    assert!(same_part(&PathPart::ParentDir, &PathPart::ParentDir));
    assert!(!same_part(&PathPart::RootDir, &PathPart::CurDir));
    assert!(!same_part(&PathPart::ParentDir, &PathPart::CurDir));
    assert!(same_part(&PathPart::Normal("a".to_string()), &PathPart::Normal("a".to_string())));
    assert!(!same_part(&PathPart::Normal("a".to_string()), &PathPart::Normal("b".to_string())));
    assert!(!same_part(&PathPart::Normal("a".to_string()), &PathPart::Normal("ab".to_string())));
    assert!(!same_part(&PathPart::Normal("C:".to_string()), &PathPart::Prefix("C:".to_string())));
    assert!(same_part(&PathPart::Prefix("C:".to_string()), &PathPart::Prefix("C:".to_string())));
    assert!(!same_part(&PathPart::Prefix("C:".to_string()), &PathPart::Prefix("D:".to_string())));
}

#[test]
fn paths_compare_component_by_component() {
    assert!(same_path(&parts("/a/b"), &parts("/a/b")));
    assert!(same_path(&parts("/a/b/"), &parts("/a//b")));
    assert!(!same_path(&parts("/a/b"), &parts("/a/c")));
    assert!(!same_path(&parts("/a/b"), &parts("/a/b/c")));
    assert!(!same_path(&parts("/a/b"), &parts("a/b")));
    assert!(same_path(&parts(""), &parts("")));
}

#[test]
fn a_path_starts_with_its_ancestors() {
    assert!(starts_with(&parts("/a/b/c"), &parts("/a/b")));
    assert!(starts_with(&parts("/a/b"), &parts("/a/b")));
    assert!(starts_with(&parts("/a/b"), &parts("")));
    assert!(!starts_with(&parts("/a/b"), &parts("/a/b/c")));
    assert!(!starts_with(&parts("/a/bc"), &parts("/a/b")));
    assert!(!starts_with(&parts("/x/b/c"), &parts("/a/b")));
}

#[test]
fn depth_counts_components_below_the_root() {
    let root = parts("/scan/root");
    assert_eq!(depth_below(&root, &parts("/scan/root/file.txt")), 1);
    assert_eq!(depth_below(&root, &parts("/scan/root/a/file.txt")), 2);
    assert_eq!(depth_below(&root, &parts("/scan/root/a/b/file.txt")), 3);
    assert_eq!(depth_below(&root, &parts("/scan/root")), 0);
}

#[test]
fn depth_of_a_path_outside_the_root_is_zero() {
    let root = parts("/scan/root");
    assert_eq!(depth_below(&root, &parts("/elsewhere/a/b")), 0);
    assert_eq!(depth_below(&root, &parts("/scan")), 0);
    assert_eq!(depth_below(&root, &parts("scan/root/a")), 0);
}

#[test]
fn depth_grows_by_one_per_level() {
    let root = parts("/r");
    let mut path = String::from("/r");
    let mut last = depth_below(&root, &parts(&path));
    assert_eq!(last, 0);
    for name in ["a", "b", "c", "d", "e"] {
        path.push('/');
        path.push_str(name);
        let depth = depth_below(&root, &parts(&path));
        assert_eq!(depth, last + 1);
        last = depth;
    }
    assert_eq!(last, 5);
}

#[test]
fn file_name_is_the_last_normal_component() {
    assert_eq!(file_name(&parts("/a/b/file.txt")), Some("file.txt".to_string()));
    assert_eq!(file_name(&parts("/a/b/")), Some("b".to_string()));
    assert_eq!(file_name(&parts("file")), Some("file".to_string()));
    assert_eq!(file_name(&parts("/")), None);
    assert_eq!(file_name(&parts("")), None);
    assert_eq!(file_name(&parts("/a/..")), None);
    assert_eq!(file_name(&parts(".")), None);
}

#[test]
fn parent_is_the_path_without_its_last_component() {
    assert!(is_parent(&parts("/a/b"), &parts("/a/b/file.txt")));
    assert!(is_parent(&parts("/a/b/"), &parts("/a//b/file.txt")));
    assert!(!is_parent(&parts("/a"), &parts("/a/b/file.txt")));
    assert!(!is_parent(&parts("/a/b/file.txt"), &parts("/a/b/file.txt")));
    assert!(!is_parent(&parts("/a/c"), &parts("/a/b/file.txt")));
    assert!(is_parent(&parts("/"), &parts("/file")));
    assert!(is_parent(&parts(""), &parts("file")));
    assert!(!is_parent(&parts(""), &parts("/")));
    assert!(!is_parent(&parts(""), &parts("")));
    assert!(is_parent(&parts("/a"), &parts("/a/..")));
}
