use rvm::liampm::{archive_path, repository};

fn names(owner: &str, name: &str) -> Option<(String, String)> {
    Some((String::from(owner), String::from(name)))
}

#[test]
fn repository_is_the_last_two_parts_of_the_path() {
    assert_eq!(repository("https://github.com/owner/project"), names("owner", "project"));
    assert_eq!(repository("owner/project"), names("owner", "project"));
    assert_eq!(repository("a/b/c/d"), names("c", "d"));
}

#[test]
fn path_without_a_slash_names_no_repository() {
    assert_eq!(repository("project"), None);
    assert_eq!(repository(""), None);
}

#[test]
fn empty_parts_are_parts_too() {
    assert_eq!(repository("/project"), names("", "project"));
    assert_eq!(repository("owner/"), names("owner", ""));
    assert_eq!(repository("owner/project/"), names("project", ""));
    assert_eq!(repository("a//"), names("", ""));
    assert_eq!(repository("/"), names("", ""));
}

#[test]
fn repository_agrees_with_splitting_at_slashes() {
    let samples = ["x/y", "https://host/u/r", "//", "a/b/", "/a", "caf\u{e9}/\u{4e2d}\u{6587}", "one", "a/b/c"];
    for sample in samples {
        let parts: Vec<&str> = sample.split("/").collect();
        let expected = if parts.len() < 2 {
            None
        } else {
            names(parts[parts.len() - 2], parts[parts.len() - 1])
        };
        assert_eq!(repository(sample), expected, "{}", sample);
    }
}

#[test]
fn archive_is_kept_under_the_directory() {
    assert_eq!(archive_path("dependencies", "project"), "dependencies/project.tar.gz");
    assert_eq!(archive_path("", ""), "/.tar.gz");
}
