use file_server::pathres::resolve;

#[test]
fn resolves_plain_path() {
    let r = resolve("/srv/root", "/a/b.txt").unwrap();
    assert_eq!(r.rel, "a/b.txt");
    assert_eq!(r.full, "/srv/root/a/b.txt");
}

#[test]
fn resolves_root_path() {
    let r = resolve("/srv/root", "/").unwrap();
    assert_eq!(r.rel, "");
    assert_eq!(r.full, "/srv/root");
}

#[test]
fn resolves_empty_path() {
    let r = resolve("/srv/root", "").unwrap();
    assert_eq!(r.rel, "");
    assert_eq!(r.full, "/srv/root");
}

#[test]
fn strips_repeated_leading_slashes() {
    let r = resolve("/srv/root", "///x").unwrap();
    assert_eq!(r.rel, "x");
    assert_eq!(r.full, "/srv/root/x");
}

#[test]
fn decodes_percent_escapes() {
    let r = resolve("/srv/root", "/hello%20world.txt").unwrap();
    assert_eq!(r.rel, "hello world.txt");
    assert_eq!(r.full, "/srv/root/hello world.txt");
}

#[test]
fn keeps_invalid_percent_escape_literal() {
    // "%zz" is not a valid escape: it passes through unchanged
    let r = resolve("/srv/root", "/bad%zzname").unwrap();
    assert_eq!(r.rel, "bad%zzname");
}

#[test]
fn falls_back_to_raw_on_invalid_utf8() {
    // "%FF" decodes to a byte that is not valid UTF-8: the raw path stands
    let r = resolve("/srv/root", "/bad%FF").unwrap();
    assert_eq!(r.rel, "bad%FF");
}

#[test]
fn rejects_literal_dotdot() {
    assert!(resolve("/srv/root", "/../etc/passwd").is_none());
    assert!(resolve("/srv/root", "/a/../b").is_none());
    assert!(resolve("/srv/root", "/a/..").is_none());
    assert!(resolve("/srv/root", "/..").is_none());
}

#[test]
fn rejects_encoded_dotdot() {
    assert!(resolve("/srv/root", "/%2e%2e/etc/passwd").is_none());
    assert!(resolve("/srv/root", "/a/%2E%2E").is_none());
    assert!(resolve("/srv/root", "/%2e%2e%2fsecret").is_none());
}

#[test]
fn rejects_backslash_bounded_dotdot() {
    // on a filesystem that separates on backslash, "..\" climbs too
    assert!(resolve("/srv/root", "/..%5Csecret").is_none());
    assert!(resolve("/srv/root", "/a%5C..%5Cb").is_none());
    assert!(resolve("/srv/root", "/a%5c..").is_none());
    assert!(resolve("/srv/root", "/..\\secret").is_none());
}

#[test]
fn accepts_backslash_in_plain_names() {
    // a backslash alone is an ordinary name character
    let r = resolve("/srv/root", "/a%5Cb.txt").unwrap();
    assert_eq!(r.rel, "a\\b.txt");
}

#[test]
fn accepts_names_that_only_resemble_dotdot() {
    assert!(resolve("/srv/root", "/a..b").is_some());
    assert!(resolve("/srv/root", "/...").is_some());
    assert!(resolve("/srv/root", "/..d/x").is_some());
    assert!(resolve("/srv/root", "/d../x").is_some());
}
