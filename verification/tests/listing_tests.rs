use crop_export::batch::BatchItem;
use crop_export::listing::{
    is_supported_extension, list_images, select_images, sort_by_key, sort_by_name, FoundFile, Keyed,
};

fn found(name: &str) -> FoundFile {
    let extension = name.rsplit_once('.').map(|(_, ext)| ext.to_string());
    FoundFile { path: format!("/in/{name}"), name: Some(name.to_string()), extension }
}

fn item(name: &str, ext: &str) -> BatchItem {
    BatchItem { path: format!("/in/{name}"), name: name.to_string(), ext: ext.to_string() }
}

#[test]
fn supported_extensions() {
    for ext in ["png", "jpg", "jpeg", "webp"] {
        assert!(is_supported_extension(ext));
    }
    for ext in ["", "gif", "PNG", "pngx", "bmp", "tiff", "jp"] {
        assert!(!is_supported_extension(ext));
    }
}

#[test]
fn selection_keeps_supported_files_in_their_order() {
    let files = vec![
        found("b.PNG"),
        found("notes.txt"),
        found("a.Jpeg"),
        found("noext"),
        found("c.webp"),
        found("d.gif"),
        found("e.jpg"),
    ];
    assert_eq!(
        select_images(&files),
        vec![item("b.PNG", "png"), item("a.Jpeg", "jpeg"), item("c.webp", "webp"), item("e.jpg", "jpg")]
    );
}

#[test]
fn file_without_readable_name_is_shown_as_image() {
    let files = vec![FoundFile {
        path: "/in/\u{fffd}.png".to_string(),
        name: None,
        extension: Some("png".to_string()),
    }];
    assert_eq!(
        select_images(&files),
        vec![BatchItem {
            path: "/in/\u{fffd}.png".to_string(),
            name: "image".to_string(),
            ext: "png".to_string(),
        }]
    );
}

#[test]
fn file_without_readable_extension_is_left_out() {
    let files = vec![FoundFile { path: "/in/x".to_string(), name: Some("x".to_string()), extension: None }];
    assert!(select_images(&files).is_empty());
}

#[test]
fn sorting_ignores_case() {
    let items = vec![item("b.png", "png"), item("C.png", "png"), item("a.png", "png"), item("B2.png", "png")];
    let names: Vec<String> = sort_by_name(&items).into_iter().map(|item| item.name).collect();
    assert_eq!(names, vec!["a.png", "b.png", "B2.png", "C.png"]);
}

#[test]
fn sorting_keeps_the_order_of_equal_names() {
    let mut first = item("Same.png", "png");
    first.path = "/one/Same.png".to_string();
    let mut second = item("same.PNG", "png");
    second.path = "/two/same.PNG".to_string();
    let mut third = item("SAME.png", "png");
    third.path = "/three/SAME.png".to_string();
    let items = vec![item("z.png", "png"), first.clone(), second.clone(), item("a.png", "png"), third.clone()];
    let sorted = sort_by_name(&items);
    assert_eq!(sorted, vec![item("a.png", "png"), first, second, third, item("z.png", "png")]);
}

#[test]
fn sorting_orders_by_code_point_and_length() {
    let items = vec![
        item("ab", "png"),
        item("a", "png"),
        item("é", "png"),
        item("z", "png"),
        item("", "png"),
        item("a0", "png"),
    ];
    let names: Vec<String> = sort_by_name(&items).into_iter().map(|item| item.name).collect();
    assert_eq!(names, vec!["", "a", "a0", "ab", "z", "é"]);
}

#[test]
fn sorting_nothing_gives_nothing() {
    assert!(sort_by_name(&Vec::new()).is_empty());
    assert!(list_images(&Vec::new()).is_empty());
}

#[test]
fn listing_selects_and_sorts() {
    let files = vec![found("c.webp"), found("readme.md"), found("B.JPG"), found("a.png")];
    assert_eq!(
        list_images(&files),
        vec![item("a.png", "png"), item("B.JPG", "jpg"), item("c.webp", "webp")]
    );
}

#[test]
fn sorting_by_key_goes_by_the_keys_alone() {
    let entries = vec![
        Keyed { key: "m".to_string(), item: item("first.png", "png") },
        Keyed { key: "a".to_string(), item: item("second.png", "png") },
        Keyed { key: "m".to_string(), item: item("third.png", "png") },
        Keyed { key: "".to_string(), item: item("fourth.png", "png") },
        Keyed { key: "am".to_string(), item: item("fifth.png", "png") },
    ];
    let names: Vec<String> = sort_by_key(&entries).into_iter().map(|entry| entry.item.name).collect();
    assert_eq!(names, vec!["fourth.png", "second.png", "fifth.png", "first.png", "third.png"]);
}
