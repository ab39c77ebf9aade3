use ferrite::paths::{to_forward_slashes, PathParts};
use ferrite::vcs::relative::{
    normalize_windows_path_for_prefix, repo_relative_path, CanonicalPath, HostPath,
};

fn parts(names: &[&str]) -> PathParts {
    PathParts { parts: names.iter().map(|name| name.as_bytes().to_vec()).collect() }
}

fn windows(names: &[&str], text: &str) -> HostPath {
    HostPath::with_canonical(
        parts(names),
        CanonicalPath { parts: parts(names), text: text.as_bytes().to_vec() },
    )
}

fn check(text: &str, names: &[&str]) {
    let path = PathParts::parse(text.as_bytes());
    assert!(path.same(&parts(names)), "{text} has the components {path:?}");
}

#[test]
fn components_of_a_path() {
    check("", &[]);
    check("/", &["/"]);
    check("a/b", &["a", "b"]);
    check("a//b/", &["a", "b"]);
    check("a/./b/.", &["a", "b"]);
    check("./a", &[".", "a"]);
    check(".", &["."]);
    check("./.", &["."]);
    check("/a/../b", &["/", "a", "..", "b"]);
    check("//a", &["/", "a"]);
    check(".hidden/x", &[".hidden", "x"]);
}

#[test]
fn components_agree_with_std() {
    for text in ["", "/", "a", "a/b/c", "/a//b", "./x/./y", "../z", "/.", "a/.", ".", "..", "/a/b/"] {
        let expected: Vec<Vec<u8>> = std::path::Path::new(text)
            .components()
            .map(|part| part.as_os_str().as_encoded_bytes().to_vec())
            .collect();
        assert_eq!(PathParts::parse(text.as_bytes()).parts, expected, "{text}");
    }
}

#[test]
fn written_paths_read_back() {
    for text in ["", "/", "a", "a/b/c", "/a/b", "./x/y", "../z", "."] {
        let path = PathParts::parse(text.as_bytes());
        assert_eq!(path.to_text(), text.as_bytes());
        assert!(PathParts::parse(&path.to_text()).same(&path));
    }
}

#[test]
fn relative_path_and_back() {
    let root = HostPath::from_text(b"/home/me/repo");
    let file = HostPath::from_text(b"/home/me/repo/src//main.rs");
    let relative = repo_relative_path(&file, &root).unwrap();
    assert_eq!(relative.to_text(), b"src/main.rs");
    assert!(root.parts.join(&relative).same(&file.parts));
    assert_eq!(repo_relative_path(&root, &root).unwrap().len(), 0);
}

#[test]
fn paths_outside_have_no_relative_path() {
    let root = HostPath::from_text(b"/home/me/repo");
    assert!(repo_relative_path(&HostPath::from_text(b"/home/me/repo2/x"), &root).is_none());
    assert!(repo_relative_path(&HostPath::from_text(b"/home/me"), &root).is_none());
    assert!(repo_relative_path(&HostPath::from_text(b"home/me/repo/x"), &root).is_none());
    assert!(repo_relative_path(&HostPath::from_text(b"/home/me/REPO/x"), &root).is_none());
}

#[test]
fn join_of_special_tails() {
    let base = parts(&["/", "a"]);
    assert!(base.join(&parts(&["/", "b"])).same(&parts(&["/", "b"])));
    assert!(base.join(&parts(&[".", "b"])).same(&parts(&["/", "a", "b"])));
    assert!(base.join(&parts(&[])).same(&base));
    assert!(parts(&[]).join(&parts(&[".", "b"])).same(&parts(&[".", "b"])));
}

#[test]
fn test_repo_relative_path_handles_windows_verbatim_prefix() {
    let repo_root = windows(&["C:", "\\", "repo"], r"C:\repo");
    let path = windows(&[r"\\?\C:", "\\", "repo", "test.txt"], r"\\?\C:\repo\test.txt");

    assert_eq!(
        repo_relative_path(&path, &repo_root).map(|relative| relative.to_text()).as_deref(),
        Some("test.txt".as_bytes())
    );
}

#[test]
fn windows_spellings_of_one_root() {
    let root = windows(&["c:", "\\", "Repo"], "c:\\Repo\\");
    let file = windows(&["C:", "\\", "repo", "Sub", "f"], r"C:\repo\Sub\f");
    assert_eq!(repo_relative_path(&file, &root).unwrap().to_text(), b"Sub/f");
    let same = windows(&["C:", "\\", "REPO"], r"C:\REPO");
    assert_eq!(repo_relative_path(&same, &root).unwrap().len(), 0);
    let sibling = windows(&["C:", "\\", "repository"], r"C:\repository");
    assert!(repo_relative_path(&sibling, &root).is_none());
}

#[test]
fn canonical_components_are_tried_before_the_texts() {
    let root = windows(&["R"], "irrelevant");
    let mut file = windows(&["elsewhere"], "unrelated");
    file.canonical = Some(CanonicalPath { parts: parts(&["R", "x"]), text: b"unrelated".to_vec() });
    assert_eq!(repo_relative_path(&file, &root).unwrap().to_text(), b"x");
}

#[test]
fn windows_texts_in_comparable_form() {
    assert_eq!(normalize_windows_path_for_prefix(br"C:\repo\"), b"C:/repo");
    assert_eq!(normalize_windows_path_for_prefix(br"\\?\C:\repo"), b"C:/repo");
    assert_eq!(
        normalize_windows_path_for_prefix(br"\\?\UNC\server\share\x"),
        b"//server/share/x"
    );
    assert_eq!(normalize_windows_path_for_prefix(br"\\server\share"), b"//server/share");
    assert_eq!(normalize_windows_path_for_prefix(b"///"), b"");
    assert_eq!(normalize_windows_path_for_prefix(b""), b"");
}

#[test]
fn backslashes_turn_into_slashes() {
    assert_eq!(to_forward_slashes(br"a\b/c"), b"a/b/c");
}
