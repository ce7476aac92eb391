use file_server::DirEntry;
use file_server::render::html_escape;
use file_server::render::icon_for;
use file_server::render::is_image;
use file_server::render::parent_of;
use file_server::render::render_minimal;
use file_server::render::render_styled;
use file_server::render::usize_to_string;

fn entry(name: &str, is_dir: bool) -> DirEntry {
    DirEntry { name: name.to_string(), is_dir }
}

#[test]
fn escapes_markup_characters() {
    assert_eq!(html_escape("a<b>&\"c'"), "a&lt;b&gt;&amp;&quot;c&#39;");
    assert_eq!(html_escape("plain-name.txt"), "plain-name.txt");
    assert_eq!(html_escape(""), "");
}

#[test]
fn parent_drops_last_segment() {
    assert_eq!(parent_of("sub/inner"), "sub");
    assert_eq!(parent_of("a/b/c"), "a/b");
    assert_eq!(parent_of("single"), "");
    assert_eq!(parent_of(""), "");
}

#[test]
fn renders_decimals() {
    assert_eq!(usize_to_string(0), "0");
    assert_eq!(usize_to_string(7), "7");
    assert_eq!(usize_to_string(10), "10");
    assert_eq!(usize_to_string(90210), "90210");
}

#[test]
fn image_names_match_case_insensitively() {
    assert!(is_image("photo.jpg"));
    assert!(is_image("PHOTO.JPEG"));
    assert!(is_image("x.Png"));
    assert!(is_image("v.webp"));
    assert!(!is_image("movie.mp4"));
    assert!(!is_image("jpg"));
}

#[test]
fn icons_follow_extension_families() {
    assert_eq!(icon_for("notes.txt"), "\u{1F4C4}");
    assert_eq!(icon_for("movie.MKV"), "\u{1F3AC}");
    assert_eq!(icon_for("song.flac"), "\u{1F3B5}");
    assert_eq!(icon_for("paper.pdf"), "\u{1F4D5}");
    assert_eq!(icon_for("bundle.zip"), "\u{1F4E6}");
    assert_eq!(icon_for("page.html"), "\u{1F4BB}");
    assert_eq!(icon_for("letter.docx"), "\u{1F4D8}");
    assert_eq!(icon_for("sheet.xls"), "\u{1F4D7}");
    assert_eq!(icon_for("deck.pptx"), "\u{1F4D9}");
    assert_eq!(icon_for("mystery.bin"), "\u{1F4C4}");
}

#[test]
fn minimal_listing_of_empty_root_has_empty_list() {
    let v: Vec<DirEntry> = Vec::new();
    let html = render_minimal("/srv/root", "", &v);
    assert!(html.contains("<ul></ul>"));
    assert!(html.contains("Index of /srv/root"));
    // at the root there is no parent row
    assert!(!html.contains(".."));
}

#[test]
fn minimal_listing_shows_entries_with_links() {
    let v = vec![entry("docs", true), entry("a.txt", false)];
    let html = render_minimal("/srv/root/sub", "sub", &v);
    assert!(html.contains("<a href=\"/sub/docs\">docs</a>"));
    assert!(html.contains("<a href=\"/sub/a.txt\">a.txt</a>"));
    // the parent row of /sub links back to the root
    assert!(html.contains("<a href=\"/\">..</a>"));
}

#[test]
fn minimal_listing_escapes_names() {
    let v = vec![entry("<script>.txt", false)];
    let html = render_minimal("/srv/root", "", &v);
    assert!(html.contains("&lt;script&gt;.txt"));
    assert!(!html.contains("<script>"));
}

#[test]
fn styled_listing_of_empty_directory_reports_empty_state() {
    let v: Vec<DirEntry> = Vec::new();
    let html = render_styled("/srv/root", "sub", &v);
    assert!(html.contains("<div class=\"empty-state\">"));
    assert!(html.contains("0 directories, 0 files"));
}

#[test]
fn styled_listing_parent_card_links_to_parent() {
    let v = vec![entry("notes.txt", false)];
    let html = render_styled("/srv/root", "sub/inner", &v);
    let parent = html.find("<a href=\"/sub\" class=\"file-item folder\"").unwrap();
    let item = html.find("<a href=\"/sub/inner/notes.txt\"").unwrap();
    // the parent card is the grid's first entry
    assert!(parent < item);
}

#[test]
fn styled_listing_counts_in_footer() {
    let v = vec![
        entry("a", true),
        entry("b", true),
        entry("c.txt", false),
    ];
    let html = render_styled("/srv/root", "", &v);
    assert!(html.contains("2 directories, 1 files"));
    assert!(!html.contains("<div class=\"empty-state\">"));
}

#[test]
fn styled_listing_renders_image_thumbnails() {
    let v = vec![entry("cat.PNG", false)];
    let html = render_styled("/srv/root", "", &v);
    assert!(html.contains("<img src=\"/cat.PNG\" class=\"image-preview\""));
    assert!(html.contains("onerror="));
}

#[test]
fn styled_listing_escapes_names_and_paths() {
    let v = vec![entry("a\"b.txt", false)];
    let html = render_styled("/srv/root", "x<y", &v);
    assert!(html.contains("a&quot;b.txt"));
    assert!(html.contains("x&lt;y"));
    assert!(!html.contains("a\"b.txt"));
}
