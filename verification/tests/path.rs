use branchless::path::FilePath;
use std::path::Path;

fn samples() -> Vec<&'static str> {
    vec![
        "", "/", "//", ".", "..", "./", "/.", "/..", "a", "a/", "a//", "/a", "//a", "a/b", "a//b",
        "a/./b", "a/b/.", "a/b/./", "a/b/..", "./a", ".a", "a.", "..a", "a/..b", ".../x", "./.",
        "././a", "a/.//b/", "/a/b/c.txt", "foo.txt/.", "foo.txt/.//", "foo.txt/..", "~", "~/x",
        "/usr/bin/", "tmp/foo.txt", "é/ü", "/é/../ü/",
    ]
}

#[test]
fn file_names_are_those_of_the_standard_library() {
    for sample in samples() {
        let expected = Path::new(sample)
            .file_name()
            .map(|name| name.to_str().unwrap().as_bytes().to_vec());
        assert_eq!(FilePath::from_text(sample).file_name(), expected);
    }
}

#[test]
fn paths_are_equal_as_in_the_standard_library() {
    for left in samples() {
        for right in samples() {
            assert_eq!(
                FilePath::from_text(left) == FilePath::from_text(right),
                Path::new(left) == Path::new(right),
                "{left:?} and {right:?}"
            );
        }
    }
}

#[test]
fn paths_are_joined_as_in_the_standard_library() {
    for base in samples() {
        for path in samples() {
            let joined = FilePath::from_text(base).join(&FilePath::from_text(path));
            let expected = Path::new(base).join(path);
            assert_eq!(
                joined.to_text().as_deref(),
                expected.to_str(),
                "{base:?} and {path:?}"
            );
        }
    }
}

#[test]
fn text_of_a_path() {
    let valid = FilePath::from_text("/wörk/tree");
    assert_eq!(valid.to_text().as_deref(), Some("/wörk/tree"));
    assert_eq!(valid.to_text_lossy(), "/wörk/tree");
    assert_eq!(valid.bytes.len(), 11);
    let invalid = FilePath::from_bytes(vec![b'/', b'a', 0xff, b'b']);
    assert_eq!(invalid.to_text(), None);
    assert_eq!(invalid.to_text_lossy(), "/a\u{fffd}b");
    assert_eq!(invalid.clone().bytes, invalid.bytes);
}

#[test]
fn equal_paths_have_equal_names() {
    for left in samples() {
        for right in samples() {
            let (left, right) = (FilePath::from_text(left), FilePath::from_text(right));
            if left == right {
                assert_eq!(left.file_name(), right.file_name());
            }
        }
    }
}

#[test]
fn a_joined_name_is_the_last() {
    for base in samples() {
        for name in ["side", "..x", ".x", "é"] {
            let joint = FilePath::from_text(base).join(&FilePath::from_text(name));
            assert_eq!(joint.file_name(), Some(name.as_bytes().to_vec()));
        }
    }
}
