use image_compressor::collect::{self, EntryKind, SourceFile, Walker};
use image_compressor::paths;

fn pb(s: &str) -> Vec<u8> {
    s.as_bytes().to_vec()
}

fn pbs(names: &[&str]) -> Vec<Vec<u8>> {
    names.iter().map(|s| pb(s)).collect()
}

fn strs(paths: &[Vec<u8>]) -> Vec<String> {
    paths.iter().map(|p| String::from_utf8(p.clone()).unwrap()).collect()
}

#[test]
fn path_parts_of_nested_path() {
    let p = pb("photos/trip/IMG_01.CR2");
    assert_eq!(paths::file_name_of(&p), pb("IMG_01.CR2"));
    assert_eq!(paths::stem_of(&p), pb("IMG_01"));
    assert_eq!(paths::ext_of(&p), pb("cr2"));
    assert_eq!(paths::dir_of_path(&p), pb("photos/trip/"));
}

#[test]
fn path_parts_without_directory() {
    let p = pb("a.jpg");
    assert_eq!(paths::file_name_of(&p), pb("a.jpg"));
    assert_eq!(paths::stem_of(&p), pb("a"));
    assert_eq!(paths::ext_of(&p), pb("jpg"));
    assert_eq!(paths::dir_of_path(&p), pb(""));
}

#[test]
fn hidden_names_detected() {
    assert!(paths::path_has_hidden_name(&pb("d/.DS_Store")));
    assert!(paths::path_has_hidden_name(&pb("d/._IMG_01.jpg")));
    assert!(paths::path_has_hidden_name(&pb(".hidden.jpg")));
    assert!(!paths::path_has_hidden_name(&pb("d/IMG_01.jpg")));
}

#[test]
fn classify_accepts_known_extensions() {
    let f = SourceFile::classify(pb("d/a.JPG")).unwrap();
    assert_eq!(f.ext, pb("jpg"));
    assert!(!f.is_raw);
    let g = SourceFile::classify(pb("d/c.dng")).unwrap();
    assert_eq!(g.ext, pb("dng"));
    assert!(g.is_raw);
    assert!(SourceFile::classify(pb("d/x.txt")).is_none());
    assert!(SourceFile::classify(pb("d/.hidden.jpg")).is_none());
    assert!(SourceFile::classify(pb("d/noext")).is_none());
}

#[test]
fn raw_extension_set_is_fixed() {
    for e in ["dng", "cr2", "cr3", "nef", "arw", "orf", "raf", "rw2", "pef", "srw", "3fr"] {
        assert!(collect::raw_ext(&pb(e)), "{e} should be RAW");
        assert!(!collect::standard_ext(&pb(e)));
    }
    for e in ["jpg", "jpeg", "png", "webp", "bmp"] {
        assert!(collect::standard_ext(&pb(e)), "{e} should be standard");
        assert!(!collect::raw_ext(&pb(e)));
    }
    assert!(!collect::raw_ext(&pb("gif")));
    assert!(!collect::standard_ext(&pb("gif")));
}

#[test]
fn suppress_drops_raw_beside_jpeg() {
    let files = pbs(&["d/b.dng", "d/b.jpg", "d/c.dng"]);
    let kept = collect::suppress_raw_duplicates(&files);
    assert_eq!(strs(&kept), vec!["d/b.jpg", "d/c.dng"]);
}

#[test]
fn suppress_requires_same_directory_and_stem() {
    let files = pbs(&["a/b.dng", "c/b.jpg", "a/x.dng", "a/y.jpg"]);
    let kept = collect::suppress_raw_duplicates(&files);
    assert_eq!(strs(&kept), vec!["a/b.dng", "c/b.jpg", "a/x.dng", "a/y.jpg"]);
}

#[test]
fn suppress_handles_jpeg_variant_spelling() {
    let files = pbs(&["d/b.dng", "d/b.jpeg"]);
    let kept = collect::suppress_raw_duplicates(&files);
    assert_eq!(strs(&kept), vec!["d/b.jpeg"]);
}

#[test]
fn sort_paths_orders_lexicographically() {
    let files = pbs(&["b", "a/c", "a", "a/b", "a"]);
    let sorted = collect::sort_paths(&files);
    assert_eq!(strs(&sorted), vec!["a", "a", "a/b", "a/c", "b"]);
}

#[test]
fn finalize_is_order_independent() {
    let one = pbs(&["z/a.jpg", "d/b.dng", "d/b.jpg", "d/a.png"]);
    let two = pbs(&["d/b.jpg", "d/a.png", "z/a.jpg", "d/b.dng"]);
    let r1 = collect::finalize_collection(&one);
    let r2 = collect::finalize_collection(&two);
    assert_eq!(strs(&r1), strs(&r2));
    assert_eq!(strs(&r1), vec!["d/a.png", "d/b.jpg", "z/a.jpg"]);
}

#[test]
fn walker_skips_hidden_everywhere() {
    let mut w = Walker::new(pbs(&["root"]));
    let p = w.next_path().unwrap();
    assert_eq!(p, pb("root"));
    w.feed(
        &p,
        EntryKind::Dir(pbs(&[
            "root/.git",
            "root/a.jpg",
            "root/._a.jpg",
            "root/.DS_Store",
            "root/sub",
        ])),
    );
    // Children come back out sorted; hidden ones are dropped when fed back.
    let mut seen: Vec<String> = Vec::new();
    while let Some(q) = w.next_path() {
        let name = String::from_utf8(q.clone()).unwrap();
        seen.push(name.clone());
        if name == "root/sub" {
            w.feed(&q, EntryKind::Dir(pbs(&["root/sub/.hidden.jpg", "root/sub/c.png"])));
        } else if name.ends_with(".jpg") || name.ends_with(".png") {
            w.feed(&q, EntryKind::File);
        } else {
            w.feed(&q, EntryKind::Missing);
        }
    }
    let finished = collect::finalize_collection(&w.files);
    assert_eq!(strs(&finished), vec!["root/a.jpg", "root/sub/c.png"]);
    for p in &finished {
        assert!(!paths::path_has_hidden_name(p));
    }
}

#[test]
fn walker_queues_directory_children_sorted() {
    let mut w = Walker::new(pbs(&["r"]));
    let p = w.next_path().unwrap();
    w.feed(&p, EntryKind::Dir(pbs(&["r/c.jpg", "r/a.jpg", "r/b.jpg"])));
    assert_eq!(w.next_path().unwrap(), pb("r/a.jpg"));
    assert_eq!(w.next_path().unwrap(), pb("r/b.jpg"));
    assert_eq!(w.next_path().unwrap(), pb("r/c.jpg"));
    assert!(w.next_path().is_none());
}
