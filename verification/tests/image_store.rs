use shiyue::digest::{digest, to_hex};
use shiyue::image_store::{
    reference_name, referenced_object, valid_digest, CacheStats, ImageStore, ObjectFile,
    ReferenceFile, DEFAULT_LIMIT_BYTES,
};

fn empty() -> ImageStore {
    ImageStore::open(Vec::new(), Vec::new())
}

#[test]
fn deduplicates_bytes_and_resolves_each_url() {
    let mut store = empty();
    store.put("https://a.example/x", b"same image", 1).unwrap();
    store.put("https://b.example/y", b"same image", 2).unwrap();
    assert_eq!(
        store.get("https://a.example/x", 3).unwrap(),
        b"same image"
    );
    assert_eq!(store.stats().objects, 1);
    assert_eq!(store.stats().references, 2);
}

#[test]
fn prune_removes_unreferenced_objects() {
    let mut store = empty();
    store.put("https://a.example/x", b"first", 1).unwrap();
    store.put("https://b.example/y", b"second image", 2).unwrap();
    assert!(store.prune_to(0) > 0);
    assert_eq!(store.stats(), CacheStats::default());
}

#[test]
fn digests_are_those_of_sha256() {
    assert_eq!(
        digest(b"abc"),
        "ba7816bf8f01cfea414140de5dae2223b00361a396177a9cb410ff61f20015ad"
    );
    assert_eq!(
        digest(b""),
        "e3b0c44298fc1c149afbf4c8996fb92427ae41e4649b934ca495991b7852b855"
    );
    assert_eq!(to_hex(&[0, 15, 16, 255]), "000f10ff");
    assert_eq!(reference_name("abc"), digest(b"abc"));
}

#[test]
fn empty_images_are_refused() {
    let mut store = empty();
    assert_eq!(
        store.put("https://a.example/x", b"", 1),
        Err("不能缓存空图片".to_string())
    );
    assert_eq!(store.stats(), CacheStats::default());
}

#[test]
fn pruning_drops_the_longest_unused_first() {
    let mut store = empty();
    store.put("https://a.example/x", b"aaaa", 1).unwrap();
    store.put("https://b.example/y", b"bbbb", 2).unwrap();
    store.get("https://a.example/x", 3).unwrap();
    assert_eq!(store.prune_to(4), 4);
    assert!(store.get("https://a.example/x", 4).is_some());
    assert!(store.get("https://b.example/y", 4).is_none());
}

#[test]
fn pruning_within_the_limit_only_sweeps() {
    let mut store = empty();
    store.put("https://a.example/x", b"old", 1).unwrap();
    store.put("https://a.example/x", b"newer", 2).unwrap();
    assert_eq!(store.stats().objects, 2);
    assert_eq!(store.prune_to(DEFAULT_LIMIT_BYTES), 3);
    assert_eq!(store.get("https://a.example/x", 3).unwrap(), b"newer");
}

#[test]
fn damaged_references_are_dropped_when_looked_up() {
    let url = "https://a.example/x";
    let broken = ReferenceFile {
        name: reference_name(url),
        text: "not a digest".into(),
        modified: 1,
    };
    let mut store = ImageStore::open(Vec::new(), vec![broken]);
    assert!(store.get(url, 2).is_none());
    assert_eq!(store.stats().references, 0);
}

#[test]
fn damaged_objects_are_not_handed_out() {
    let url = "https://a.example/x";
    let hash = digest(b"image");
    let object = ObjectFile {
        name: hash.clone(),
        bytes: b"tampered".to_vec(),
    };
    let reference = ReferenceFile {
        name: reference_name(url),
        text: format!("{hash}\n"),
        modified: 1,
    };
    let mut store = ImageStore::open(vec![object], vec![reference]);
    assert!(store.get(url, 2).is_none());
}

#[test]
fn references_name_objects_by_digest() {
    let hash = digest(b"x");
    assert!(valid_digest(&hash));
    assert!(!valid_digest("abc"));
    assert!(!valid_digest(&"g".repeat(64)));
    assert_eq!(referenced_object(&format!(" {hash}\n")), Some(hash));
    assert_eq!(referenced_object("../secret"), None);
}

#[test]
fn clearing_tells_what_was_freed() {
    let mut store = empty();
    store.put("https://a.example/x", b"12345", 1).unwrap();
    assert_eq!(store.clear(), 5);
    assert_eq!(store.stats(), CacheStats::default());
}

#[test]
fn keeping_an_image_leaves_other_addresses_alone() {
    let mut store = empty();
    store.put("https://a.example/x", b"first", 1).unwrap();
    store.put("https://b.example/y", b"second", 2).unwrap();
    store.put("https://b.example/y", b"third", 3).unwrap();
    assert_eq!(store.get("https://a.example/x", 4).unwrap(), b"first");
    assert_eq!(store.get("https://b.example/y", 5).unwrap(), b"third");
    assert!(store.get("https://c.example/z", 6).is_none());
}

#[test]
fn the_files_are_handed_back() {
    let mut store = empty();
    store.put("https://a.example/x", b"first", 7).unwrap();
    let (objects, references) = store.into_files();
    assert_eq!(objects[0].name, digest(b"first"));
    assert_eq!(objects[0].bytes, b"first");
    assert_eq!(references[0].name, reference_name("https://a.example/x"));
    assert_eq!(references[0].text, digest(b"first"));
    assert_eq!(references[0].modified, 7);
}

#[test]
fn looking_up_one_address_leaves_another_alone() {
    let mut store = ImageStore::open(
        vec![ObjectFile {
            name: digest(b"right"),
            bytes: b"damaged".to_vec(),
        }],
        vec![ReferenceFile {
            name: reference_name("https://a.example/x"),
            text: digest(b"right"),
            modified: 1,
        }],
    );
    store.put("https://b.example/y", b"other", 2).unwrap();
    assert_eq!(store.get("https://a.example/x", 3), None);
    assert_eq!(store.get("https://b.example/y", 4).unwrap(), b"other");
}

#[test]
fn pruning_drops_no_more_than_needed() {
    let mut store = empty();
    for (at, name) in ["a", "b", "c"].iter().enumerate() {
        let url = format!("https://{name}.example/");
        store.put(&url, name.repeat(4).as_bytes(), at as u64).unwrap();
    }
    assert_eq!(store.prune_to(11), 4);
    assert_eq!(store.stats().references, 2);
    assert_eq!(store.prune_to(8), 0);
}
