use gpui_mcp::path::{
    has_root, join, normalise, parent, parse_path, relative_path, render_path, Component,
};

fn folded(path: &str) -> String {
    render_path(&normalise(&parse_path(path)))
}

fn relative(base: &str, target: &str) -> Option<String> {
    relative_path(&parse_path(base), &parse_path(target)).map(|path| render_path(&path))
}

#[test]
fn a_relative_path_walks_from_the_base_to_the_target() {
    assert_eq!(
        relative_path(
            &parse_path("/repo/tests"),
            &parse_path("/repo/tests/golden/s.png")
        ),
        Some(vec![
            Component::Normal("golden".into()),
            Component::Normal("s.png".into())
        ])
    );
    assert_eq!(
        relative_path(
            &parse_path("/repo/scripts/."),
            &parse_path("/repo/tests/../tests/golden/s.png")
        ),
        Some(vec![
            Component::ParentDir,
            Component::Normal("tests".into()),
            Component::Normal("golden".into()),
            Component::Normal("s.png".into())
        ])
    );
}

/// Two drives have no path between them; the absolute path is what is
/// left, and writing it is better than writing something that is wrong.
#[test]
fn a_path_across_drives_has_no_relative_form() {
    let on = |drive: &str, names: &[&str]| {
        let mut path = vec![Component::Prefix(drive.into()), Component::RootDir];
        path.extend(names.iter().map(|name| Component::Normal(name.to_string())));
        path
    };
    assert_eq!(
        relative_path(&on("C:", &["repo"]), &on("D:", &["golden", "s.png"])),
        None
    );
    assert_eq!(
        relative_path(&on("C:", &["repo"]), &on("C:", &["golden", "s.png"]))
            .map(|path| render_path(&path)),
        Some("../golden/s.png".to_string())
    );
}

#[test]
fn a_rooted_and_an_unrooted_path_have_nothing_between_them() {
    assert_eq!(relative("/a", "b"), None);
    assert_eq!(relative("/a/b", "/a/b"), Some(String::new()));
    assert_eq!(relative("/a/b", "/"), Some("../..".to_string()));
}

#[test]
fn going_to_the_base_and_along_the_relative_path_leads_to_the_target() {
    for (base, target) in [
        ("/repo/tests", "/repo/golden/s.png"),
        ("/a/b/c", "/x"),
        ("/a/../b/./c", "/x/y"),
        ("../a/b", "../a/c"),
        ("../..", "../../x"),
    ] {
        let between = relative_path(&parse_path(base), &parse_path(target)).unwrap();
        assert_eq!(
            normalise(&join(&parse_path(base), &between)),
            normalise(&parse_path(target)),
            "{base} to {target}"
        );
    }
}

#[test]
fn dots_are_folded() {
    assert_eq!(folded("../scripts/../golden/x.png"), "../golden/x.png");
    assert_eq!(folded("./a/./b/.."), "a");
    assert_eq!(folded("/.."), "/..");
    assert_eq!(folded("a/.."), "");
    assert_eq!(folded("../.."), "../..");
    assert_eq!(folded("../../a/x.png"), "../../a/x.png");
    assert_eq!(folded("a/../../../b"), "../../b");
    assert_eq!(folded("/../.."), "/../..");
}

#[test]
fn paths_are_read_and_written() {
    assert_eq!(
        parse_path("/a//b/./../c"),
        vec![
            Component::RootDir,
            Component::Normal("a".into()),
            Component::Normal("b".into()),
            Component::ParentDir,
            Component::Normal("c".into()),
        ]
    );
    assert_eq!(
        parse_path("./a/"),
        vec![Component::CurDir, Component::Normal("a".into())]
    );
    assert_eq!(parse_path(""), Vec::new());
    for path in ["/", "a", "./a", "../a/b", "/a/..", "...", "", "/é/ü.png"] {
        assert_eq!(render_path(&parse_path(path)), path);
    }
    assert!(has_root("/a"));
    assert!(!has_root("a/"));
    assert!(!has_root(""));
}

#[test]
fn a_parent_is_what_comes_before_the_last_name() {
    let of = |path: &str| parent(&parse_path(path)).map(|dir| render_path(&dir));
    assert_eq!(of("a/b"), Some("a".to_string()));
    assert_eq!(of("/a"), Some("/".to_string()));
    assert_eq!(of("a"), Some(String::new()));
    assert_eq!(of("/"), None);
    assert_eq!(of(""), None);
}

#[test]
fn components_are_those_of_the_standard_library() {
    for path in [
        "", "/", "//", ".", "./", "..", "a", "a/", "/a", "./a", "a/.", "a/./b", "a//b", "/./a",
        "/../a", "../../a", "...", ".hidden", "a/../b/", "./.", "é/ü",
    ] {
        let expected: Vec<Component> = std::path::Path::new(path)
            .components()
            .map(|component| match component {
                std::path::Component::Prefix(_) => unreachable!(),
                std::path::Component::RootDir => Component::RootDir,
                std::path::Component::CurDir => Component::CurDir,
                std::path::Component::ParentDir => Component::ParentDir,
                std::path::Component::Normal(name) => {
                    Component::Normal(name.to_str().unwrap().to_string())
                }
            })
            .collect();
        assert_eq!(parse_path(path), expected, "{path:?}");

        let mut folded_by_std = std::path::PathBuf::new();
        for component in std::path::Path::new(path).components() {
            match component {
                std::path::Component::CurDir => {}
                std::path::Component::ParentDir => {
                    if folded_by_std.file_name().is_some() {
                        folded_by_std.pop();
                    } else {
                        folded_by_std.push("..");
                    }
                }
                other => folded_by_std.push(other),
            }
        }
        assert_eq!(folded(path), folded_by_std.to_str().unwrap(), "{path:?}");
    }
}

#[test]
fn a_path_that_stays_below_its_start_keeps_no_dots() {
    for (path, kept) in [("/a/../b/./c/..", "/b"), ("a/b/../../c", "c"), ("/", "/"), ("./a/..", "")]
    {
        assert_eq!(folded(path), kept);
    }
}

#[test]
fn the_relative_path_is_the_shortest() {
    assert_eq!(relative("/a/b/c", "/a/x/y"), Some("../../x/y".to_string()));
    assert_eq!(relative("/a/./b/../c", "/a/c/d"), Some("d".to_string()));
    assert_eq!(relative("/a/b/..", "/a"), Some(String::new()));
}
