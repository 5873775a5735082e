use esodiff::archive::{decompress, plan_extraction, unpack_plan, ArchiveEntry, ArchiveError, ExtractStep};
use esodiff::paths::{split_path, DirWalk};

fn gzip(data: &[u8]) -> Vec<u8> {
    let mut e = libflate::gzip::Encoder::new(Vec::new()).unwrap();
    std::io::Write::write_all(&mut e, data).unwrap();
    e.finish().into_result().unwrap()
}

fn tar_of(entries: &[(&str, &[u8])]) -> Vec<u8> {
    let mut b = tar::Builder::new(Vec::new());
    for (p, c) in entries {
        let mut h = tar::Header::new_gnu();
        h.set_size(c.len() as u64);
        h.set_mode(0o644);
        b.append_data(&mut h, p, *c).unwrap();
    }
    b.into_inner().unwrap()
}

fn segs(ws: &[&str]) -> Vec<String> {
    ws.iter().map(|w| w.to_string()).collect()
}

#[test]
fn gzip_round_trip() {
    let plain = b"fn main() {}\nsome text\n".to_vec();
    let packed = gzip(&plain);
    assert_ne!(packed, plain);
    assert_eq!(decompress(&packed), Ok(plain));
}

#[test]
fn gzip_round_trip_of_archive() {
    let t = tar_of(&[("pkg-1.0.0/a.txt", b"abc")]);
    assert_eq!(decompress(&gzip(&t)).unwrap(), t);
}

#[test]
fn bad_gzip_is_a_decode_error() {
    assert_eq!(decompress(b"not gzip at all"), Err(ArchiveError::Decode));
    assert!(matches!(unpack_plan(b"not gzip at all", &Vec::new()), Err(ArchiveError::Decode)));
}

#[test]
fn corrupt_tar_is_reported() {
    let junk = vec![0x41u8; 1024];
    assert!(matches!(unpack_plan(&gzip(&junk), &Vec::new()), Err(ArchiveError::Corrupt)));
}

#[test]
fn single_entry_lands_under_root() {
    let raw = gzip(&tar_of(&[("foo-1.0.0/src/lib.txt", b"pub fn x() {}\n")]));
    let root = segs(&["tmp", "out"]);
    let steps = unpack_plan(&raw, &root).unwrap();
    assert_eq!(steps.len(), 2);
    match &steps[0] {
        ExtractStep::EnsureDir(p) => assert_eq!(p, &segs(&["tmp", "out", "foo-1.0.0", "src"])),
        _ => panic!("expected a directory first"),
    }
    match &steps[1] {
        ExtractStep::WriteFile(p, c) => {
            assert_eq!(p, &segs(&["tmp", "out", "foo-1.0.0", "src", "lib.txt"]));
            assert_eq!(c, &b"pub fn x() {}\n".to_vec());
        }
        _ => panic!("expected a file second"),
    }
}

#[test]
fn entries_keep_archive_order() {
    let raw = gzip(&tar_of(&[("p-1/b.txt", b"b"), ("p-1/a.txt", b"a")]));
    let steps = unpack_plan(&raw, &Vec::new()).unwrap();
    assert_eq!(steps.len(), 4);
    assert!(matches!(&steps[1], ExtractStep::WriteFile(p, c) if p == &segs(&["p-1", "b.txt"]) && c == b"b"));
    assert!(matches!(&steps[3], ExtractStep::WriteFile(p, c) if p == &segs(&["p-1", "a.txt"]) && c == b"a"));
}

fn entry(path: &str, is_dir: bool) -> ArchiveEntry {
    ArchiveEntry { path: path.to_string(), is_dir, contents: b"x".to_vec() }
}

#[test]
fn escaping_paths_are_refused() {
    let root = segs(&["r"]);
    let es = vec![entry("ok/a", false), entry("ok/../../etc/passwd", false)];
    assert!(matches!(plan_extraction(&root, &es), Err(ArchiveError::UnsafePath(1))));
    assert!(matches!(plan_extraction(&root, &vec![entry("/etc/x", false)]), Err(ArchiveError::UnsafePath(0))));
    assert!(matches!(plan_extraction(&root, &vec![entry("./", false)]), Err(ArchiveError::UnsafePath(0))));
}

#[test]
fn directory_entries_become_directories() {
    let root = segs(&["r"]);
    let steps = plan_extraction(&root, &vec![entry("pkg-1.0.0/src/", true)]).unwrap();
    assert_eq!(steps.len(), 1);
    assert!(matches!(&steps[0], ExtractStep::EnsureDir(p) if p == &segs(&["r", "pkg-1.0.0", "src"])));
}

#[test]
fn path_splitting() {
    assert_eq!(split_path("a/b/c"), segs(&["a", "b", "c"]));
    assert_eq!(split_path("/tmp//x/./y/"), segs(&["tmp", "x", "y"]));
    assert_eq!(split_path(""), Vec::<String>::new());
    assert_eq!(split_path("../a"), segs(&["..", "a"]));
}

#[test]
fn missing_directories_outermost_first() {
    let mut w = DirWalk::new(segs(&["a", "b", "c", "d"]));
    assert_eq!(w.next_probe(), Some(4));
    w.record(false);
    assert_eq!(w.next_probe(), Some(3));
    w.record(false);
    assert_eq!(w.next_probe(), Some(2));
    w.record(true);
    assert_eq!(w.next_probe(), None);
    let plan = w.creation_plan();
    assert_eq!(plan, vec![segs(&["a", "b", "c"]), segs(&["a", "b", "c", "d"])]);
}

#[test]
fn existing_directory_needs_nothing() {
    let mut w = DirWalk::new(segs(&["a", "b"]));
    w.record(true);
    assert_eq!(w.next_probe(), None);
    assert!(w.creation_plan().is_empty());
}

#[test]
fn walk_stops_at_the_base() {
    let mut w = DirWalk::new(segs(&["a", "b"]));
    w.record(false);
    w.record(false);
    assert_eq!(w.next_probe(), None);
    assert_eq!(w.creation_plan(), vec![segs(&["a"]), segs(&["a", "b"])]);
}
