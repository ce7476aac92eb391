use file_server::DirEntry;
use file_server::entries::count_entries;
use file_server::entries::sort_entries;

fn entry(name: &str, is_dir: bool) -> DirEntry {
    DirEntry { name: name.to_string(), is_dir }
}

fn names(v: &Vec<DirEntry>) -> Vec<(String, bool)> {
    v.iter().map(|e| (e.name.clone(), e.is_dir)).collect()
}

#[test]
fn directories_precede_files() {
    let mut v = vec![
        entry("zebra.txt", false),
        entry("alpha", true),
        entry("beta.txt", false),
        entry("yak", true),
    ];
    sort_entries(&mut v);
    assert_eq!(
        names(&v),
        vec![
            ("alpha".to_string(), true),
            ("yak".to_string(), true),
            ("beta.txt".to_string(), false),
            ("zebra.txt".to_string(), false),
        ]
    );
}

#[test]
fn names_sorted_by_codepoint_within_groups() {
    // byte/codepoint order is case-sensitive: uppercase sorts first
    let mut v = vec![
        entry("banana", false),
        entry("Apple", false),
        entry("apple", false),
        entry("Banana", false),
    ];
    sort_entries(&mut v);
    assert_eq!(
        names(&v),
        vec![
            ("Apple".to_string(), false),
            ("Banana".to_string(), false),
            ("apple".to_string(), false),
            ("banana".to_string(), false),
        ]
    );
}

#[test]
fn same_entries_sort_identically() {
    // however the filesystem ordered them, the listing is the same
    let mut a = vec![
        entry("c", false),
        entry("a", true),
        entry("b", false),
        entry("d", true),
    ];
    let mut b = vec![
        entry("d", true),
        entry("b", false),
        entry("a", true),
        entry("c", false),
    ];
    sort_entries(&mut a);
    sort_entries(&mut b);
    assert_eq!(names(&a), names(&b));
}

#[test]
fn sorting_twice_changes_nothing() {
    let mut v = vec![entry("b", false), entry("a", false)];
    sort_entries(&mut v);
    let once = names(&v);
    sort_entries(&mut v);
    assert_eq!(names(&v), once);
}

#[test]
fn counts_directories_and_files() {
    let v = vec![
        entry("a", true),
        entry("b", false),
        entry("c", true),
        entry("d", false),
        entry("e", false),
    ];
    let (dirs, files) = count_entries(&v);
    assert_eq!(dirs, 2);
    assert_eq!(files, 3);
}

#[test]
fn counts_empty_directory() {
    let v: Vec<DirEntry> = Vec::new();
    let (dirs, files) = count_entries(&v);
    assert_eq!(dirs, 0);
    assert_eq!(files, 0);
}
