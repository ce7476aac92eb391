use file_server::BodyKind;
use file_server::DirEntry;
use file_server::ListingOutcome;
use file_server::Observation;
use file_server::RenderMode;
use file_server::ServerConfig;
use file_server::dispatch::dispatch;
use file_server::dispatch::open_failure_response;
use file_server::pathres::resolve;

fn config(mode: RenderMode) -> ServerConfig {
    ServerConfig { root: "/srv/root".to_string(), mode, english: true }
}

fn entry(name: &str, is_dir: bool) -> DirEntry {
    DirEntry { name: name.to_string(), is_dir }
}

#[test]
fn missing_path_gets_404() {
    let cfg = config(RenderMode::Minimal);
    let res = resolve(&cfg.root, "/nothing/here");
    let r = dispatch(&cfg, &res, Observation::Missing);
    assert_eq!(r.status, 404);
    assert_eq!(r.content_type, "text/plain; charset=utf-8");
    assert!(!r.cross_origin);
    match r.body {
        BodyKind::Text(t) => assert_eq!(t, "404 - 文件未找到"),
        _ => panic!("expected a plain-text body"),
    }
}

#[test]
fn traversal_path_gets_404_without_filesystem_contact() {
    let cfg = config(RenderMode::Styled);
    let res = resolve(&cfg.root, "/%2e%2e/secret");
    assert!(res.is_none());
    let r = dispatch(&cfg, &res, Observation::Missing);
    assert_eq!(r.status, 404);
}

#[test]
fn file_gets_200_with_guessed_content_type() {
    let cfg = config(RenderMode::Minimal);
    let res = resolve(&cfg.root, "/pics/cat.png");
    let r = dispatch(&cfg, &res, Observation::File);
    assert_eq!(r.status, 200);
    assert_eq!(r.content_type, "image/png");
    assert!(matches!(r.body, BodyKind::FileStream));
}

#[test]
fn file_without_known_extension_streams_octets() {
    let cfg = config(RenderMode::Minimal);
    let res = resolve(&cfg.root, "/data.unknownext");
    let r = dispatch(&cfg, &res, Observation::File);
    assert_eq!(r.status, 200);
    assert_eq!(r.content_type, "application/octet-stream");
}

#[test]
fn unreadable_directory_gets_500() {
    let cfg = config(RenderMode::Styled);
    let res = resolve(&cfg.root, "/locked");
    let r = dispatch(&cfg, &res, Observation::Directory(ListingOutcome::Unreadable));
    assert_eq!(r.status, 500);
    assert_eq!(r.content_type, "text/plain; charset=utf-8");
    match r.body {
        BodyKind::Text(t) => assert_eq!(t, "无法读取目录"),
        _ => panic!("expected a plain-text body"),
    }
}

#[test]
fn open_failure_gets_500() {
    let r = open_failure_response();
    assert_eq!(r.status, 500);
    match r.body {
        BodyKind::Text(t) => assert_eq!(t, "无法打开文件"),
        _ => panic!("expected a plain-text body"),
    }
}

#[test]
fn minimal_directory_listing_is_html_without_cross_origin() {
    let cfg = config(RenderMode::Minimal);
    let res = resolve(&cfg.root, "/sub");
    let entries = vec![entry("z.txt", false), entry("a", true)];
    let r = dispatch(&cfg, &res, Observation::Directory(ListingOutcome::Listed(entries)));
    assert_eq!(r.status, 200);
    assert_eq!(r.content_type, "text/html; charset=utf-8");
    assert!(!r.cross_origin);
    match r.body {
        BodyKind::Page(h) => {
            // sorted: the directory comes first
            let dir = h.find("<a href=\"/sub/a\">a</a>").unwrap();
            let file = h.find("<a href=\"/sub/z.txt\">z.txt</a>").unwrap();
            assert!(dir < file);
        },
        _ => panic!("expected an HTML body"),
    }
}

#[test]
fn styled_directory_listing_sets_cross_origin() {
    let cfg = config(RenderMode::Styled);
    let res = resolve(&cfg.root, "/");
    let entries = vec![entry("b.txt", false), entry("a.txt", false)];
    let r = dispatch(&cfg, &res, Observation::Directory(ListingOutcome::Listed(entries)));
    assert_eq!(r.status, 200);
    assert_eq!(r.content_type, "text/html; charset=utf-8");
    assert!(r.cross_origin);
    match r.body {
        BodyKind::Page(h) => {
            let a = h.find("a.txt").unwrap();
            let b = h.find("b.txt").unwrap();
            assert!(a < b);
            assert!(h.contains("0 directories, 2 files"));
        },
        _ => panic!("expected an HTML body"),
    }
}

#[test]
fn identical_requests_render_identical_listings() {
    let cfg = config(RenderMode::Styled);
    let res = resolve(&cfg.root, "/sub");
    let first = vec![entry("c", false), entry("a", true), entry("b", false)];
    let second = vec![entry("b", false), entry("c", false), entry("a", true)];
    let r1 = dispatch(&cfg, &res, Observation::Directory(ListingOutcome::Listed(first)));
    let r2 = dispatch(&cfg, &res, Observation::Directory(ListingOutcome::Listed(second)));
    match (r1.body, r2.body) {
        (BodyKind::Page(h1), BodyKind::Page(h2)) => assert_eq!(h1, h2),
        _ => panic!("expected HTML bodies"),
    }
}
