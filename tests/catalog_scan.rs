use bgc::catalog::{is_img, join_path_str, scan, ListedEntry};
use bgc::session::menu_labels;

fn file(name: &str) -> ListedEntry {
    ListedEntry { name: name.to_string(), is_file: true }
}

#[test]
fn catalog_filter_keeps_only_lower_case_image_extensions() {
    let listing = vec![file("a.png"), file("b.txt"), file("c.JPG"), file("noext")];
    let cat = scan("/walls", &listing);
    assert_eq!(cat.len(), 1);
    assert_eq!(cat[0].display_name, "a.png");
    assert_eq!(cat[0].full_path, "/walls/a.png");
}

#[test]
fn empty_directory_gives_only_fixed_entries() {
    let cat = scan("/walls", &Vec::new());
    assert!(cat.is_empty());
    let cat2 = scan("/walls", &vec![file("notes.txt"), file("README")]);
    assert!(cat2.is_empty());
    assert_eq!(menu_labels(&cat2), vec!["Online wallpaper".to_string(), "Quit".to_string()]);
}

#[test]
fn scan_skips_entries_that_are_not_files() {
    let listing = vec![ListedEntry { name: "dir.png".to_string(), is_file: false }, file("x.gif")];
    let cat = scan("/w/", &listing);
    assert_eq!(cat.len(), 1);
    assert_eq!(cat[0].full_path, "/w/x.gif");
}

#[test]
fn scan_keeps_listing_order() {
    let listing = vec![file("z.png"), file("a.jpg"), file("m.webp")];
    let names: Vec<String> = scan("/w", &listing).into_iter().map(|e| e.display_name).collect();
    assert_eq!(names, vec!["z.png", "a.jpg", "m.webp"]);
}

#[test]
fn is_img_follows_extension_rules() {
    for name in ["a.jpeg", "a.jpg", "a.png", "a.gif", "a.pnm", "a.tga", "a.ttf", "a.webp", "a.bmp", "a.farb", "a.farbfeld"] {
        assert!(is_img(name), "{}", name);
    }
    assert!(is_img("archive.tar.png"));
    assert!(!is_img("a.PNG"));
    assert!(!is_img(".png"));
    assert!(!is_img("png"));
    assert!(!is_img("a."));
    assert!(!is_img("a.png.txt"));
    assert!(!is_img(""));
}

#[test]
fn join_path_inserts_one_separator() {
    assert_eq!(join_path_str("/tmp/walls", "x.png"), "/tmp/walls/x.png");
    assert_eq!(join_path_str("/tmp/walls/", "x.png"), "/tmp/walls/x.png");
    assert_eq!(join_path_str("", "x.png"), "x.png");
}
