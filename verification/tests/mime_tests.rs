use file_server::mimetype::content_type_for_path;
use file_server::mimetype::extension_of;

#[test]
fn extension_is_after_last_dot() {
    assert_eq!(extension_of("/srv/root/a/file.txt"), "txt");
    assert_eq!(extension_of("archive.tar.gz"), "gz");
    assert_eq!(extension_of("dir.d/noext"), "");
    assert_eq!(extension_of("/srv/root/.gitignore"), "");
    assert_eq!(extension_of("trailing."), "");
    assert_eq!(extension_of(""), "");
}

#[test]
fn known_extensions_map_to_their_types() {
    assert_eq!(content_type_for_path("/srv/root/cat.png"), "image/png");
    assert_eq!(content_type_for_path("/srv/root/notes.txt"), "text/plain");
    assert_eq!(content_type_for_path("/srv/root/page.html"), "text/html");
    assert_eq!(content_type_for_path("/srv/root/doc.pdf"), "application/pdf");
}

#[test]
fn unknown_extension_defaults_to_octet_stream() {
    assert_eq!(
        content_type_for_path("/srv/root/file.unknownext"),
        "application/octet-stream"
    );
    assert_eq!(content_type_for_path("/srv/root/noext"), "application/octet-stream");
    assert_eq!(content_type_for_path("/srv/root/.hidden"), "application/octet-stream");
}

#[test]
fn extension_lookup_is_case_insensitive() {
    assert_eq!(content_type_for_path("/srv/root/CAT.PNG"), "image/png");
}
