use cargo_cook::filter::NameFilter;
use cargo_cook::resolve::{collect, path_under, DirEntry, FileEntry, Ingredient, ResolveError, SourceKind};

fn ing(source: &str, destination: &str, filter: Option<&str>) -> Ingredient {
    Ingredient {
        source: source.to_string(),
        destination: destination.to_string(),
        filter: filter.map(|f| f.to_string()),
    }
}

fn entry(relative: &[&str], source: &str, is_file: bool) -> DirEntry {
    DirEntry {
        relative: relative.iter().map(|s| s.to_string()).collect(),
        source: source.to_string(),
        is_file,
    }
}

fn pairs(v: &[FileEntry]) -> Vec<(String, String)> {
    v.iter().map(|e| (e.destination.clone(), e.source.clone())).collect()
}

fn p(d: &str, s: &str) -> (String, String) {
    (d.to_string(), s.to_string())
}

#[test]
fn empty_ingredients_yield_only_the_artifact() {
    let r = collect(&vec![], &vec![], "target/release", "app", &None).unwrap();
    assert_eq!(pairs(&r), vec![p("app", "target/release/app")]);
}

#[test]
fn artifact_entry_uses_the_rename() {
    let r = collect(&vec![], &vec![], "target/release", "app", &Some("bin/tool".to_string())).unwrap();
    assert_eq!(pairs(&r), vec![p("bin/tool", "target/release/app")]);
}

#[test]
fn single_file_ingredient_is_kept_verbatim() {
    let r = collect(&vec![ing("README.md", "docs/readme", None)], &vec![SourceKind::File], "t", "app", &None).unwrap();
    assert_eq!(pairs(&r), vec![p("docs/readme", "README.md"), p("app", "t/app")]);
}

#[test]
fn filtered_directory_keeps_matching_children() {
    let listing = vec![
        entry(&["libfoo.so"], "lib/libfoo.so", true),
        entry(&["readme.txt"], "lib/readme.txt", true),
    ];
    let r = collect(
        &vec![ing("lib", "out", Some("^lib.*\\.so$"))],
        &vec![SourceKind::Directory(listing)],
        "t",
        "app",
        &None,
    )
    .unwrap();
    assert_eq!(pairs(&r), vec![p("out/libfoo.so", "lib/libfoo.so"), p("app", "t/app")]);
}

#[test]
fn filter_looks_only_at_direct_children() {
    let listing = vec![
        entry(&["sub"], "lib/sub", false),
        entry(&["sub", "libdeep.so"], "lib/sub/libdeep.so", true),
        entry(&["libtop.so"], "lib/libtop.so", true),
    ];
    let r = collect(
        &vec![ing("lib", "out", Some("^lib.*\\.so$"))],
        &vec![SourceKind::Directory(listing)],
        "t",
        "app",
        &None,
    )
    .unwrap();
    assert_eq!(pairs(&r), vec![p("out/libtop.so", "lib/libtop.so"), p("app", "t/app")]);
}

#[test]
fn unfiltered_directory_mirrors_nested_tree() {
    let listing = vec![
        entry(&["a.txt"], "res/a.txt", true),
        entry(&["img"], "res/img", false),
        entry(&["img", "b.png"], "res/img/b.png", true),
        entry(&["img", "icons"], "res/img/icons", false),
        entry(&["img", "icons", "c.ico"], "res/img/icons/c.ico", true),
    ];
    let r = collect(&vec![ing("res", "share", None)], &vec![SourceKind::Directory(listing)], "t", "app", &None).unwrap();
    assert_eq!(
        pairs(&r),
        vec![
            p("share/a.txt", "res/a.txt"),
            p("share/img/b.png", "res/img/b.png"),
            p("share/img/icons/c.ico", "res/img/icons/c.ico"),
            p("app", "t/app"),
        ]
    );
}

#[test]
fn ingredients_keep_declaration_order() {
    let r = collect(
        &vec![ing("b", "B", None), ing("a", "A", None)],
        &vec![SourceKind::File, SourceKind::File],
        "t",
        "app",
        &None,
    )
    .unwrap();
    assert_eq!(pairs(&r), vec![p("B", "b"), p("A", "a"), p("app", "t/app")]);
}

#[test]
fn missing_source_is_an_error() {
    let r = collect(
        &vec![ing("x", "X", None), ing("missing", "M", None), ing("y", "Y", Some("("))],
        &vec![SourceKind::File, SourceKind::Other, SourceKind::Directory(vec![])],
        "t",
        "app",
        &None,
    );
    assert_eq!(r.err(), Some(ResolveError::NotFileOrDirectory(1)));
}

#[test]
fn invalid_filter_is_an_error() {
    let r = collect(
        &vec![ing("x", "X", None), ing("d", "D", Some("("))],
        &vec![SourceKind::File, SourceKind::Directory(vec![])],
        "t",
        "app",
        &None,
    );
    assert_eq!(r.err(), Some(ResolveError::BadFilter(1)));
}

#[test]
fn name_filter_matches_by_regex() {
    let f = NameFilter::new("^lib.*\\.so$").unwrap();
    assert!(f.is_match("libfoo.so"));
    assert!(!f.is_match("readme.txt"));
    assert!(!f.is_match("xlibfoo.so"));
    assert!(NameFilter::new("(").is_none());
}

#[test]
fn path_under_joins_components() {
    let rel = vec!["a".to_string(), "b".to_string(), "c.txt".to_string()];
    assert_eq!(path_under("root", &rel), "root/a/b/c.txt");
    assert_eq!(path_under("root", &vec![]), "root");
}
