use esodiff::archive::ExtractStep;
use esodiff::pipeline::{
    download_url, release_dir, Action, Event, PatchPipeline, PatchRequest, PipelineError, Stage,
};

const DIFF: &str = "diff --git a/src/main.txt b/src/main.txt\n--- a/src/main.txt\n+++ b/src/main.txt\n@@ -1,3 +1,3 @@\n A\n-B\n+B2\n C\n";

fn gzip(data: &[u8]) -> Vec<u8> {
    let mut e = libflate::gzip::Encoder::new(Vec::new()).unwrap();
    std::io::Write::write_all(&mut e, data).unwrap();
    e.finish().into_result().unwrap()
}

fn fixture() -> Vec<u8> {
    let mut b = tar::Builder::new(Vec::new());
    let c: &[u8] = b"A\nB\nC\n";
    let mut h = tar::Header::new_gnu();
    h.set_size(c.len() as u64);
    h.set_mode(0o644);
    b.append_data(&mut h, "pkg-1.0.0/src/main.txt", c).unwrap();
    gzip(&b.into_inner().unwrap())
}

fn request() -> PatchRequest {
    PatchRequest {
        package_name: "pkg".to_string(),
        version: "1.0.0".to_string(),
        diff_source: "fix.diff".to_string(),
        destination_root: "/tmp/dest".to_string(),
    }
}

fn segs(ws: &[&str]) -> Vec<String> {
    ws.iter().map(|w| w.to_string()).collect()
}

#[test]
fn names_and_addresses() {
    assert_eq!(release_dir("pkg", "1.0.0"), "pkg-1.0.0");
    assert_eq!(
        download_url("serde", "1.0.1"),
        "https://crates.io/api/v1/crates/serde/1.0.1/download"
    );
}

#[test]
fn first_action_probes_the_release_directory() {
    let (p, a) = PatchPipeline::new(request());
    assert!(p.absolute);
    assert_eq!(p.stage, Stage::Probing);
    assert!(matches!(a, Action::ProbeTarget(t) if t == segs(&["tmp", "dest", "pkg-1.0.0"])));
}

#[test]
fn existing_release_directory_is_skipped() {
    let (mut p, _) = PatchPipeline::new(request());
    assert!(matches!(p.step(Event::TargetProbed(true)), Action::Finish));
    assert_eq!(p.stage, Stage::Done);
    assert!(matches!(p.step(Event::Fetched(Some(fixture()))), Action::Finish));
    assert_eq!(p.stage, Stage::Done);
}

#[test]
fn full_run_in_order() {
    let (mut p, _) = PatchPipeline::new(request());
    assert!(matches!(p.step(Event::TargetProbed(false)), Action::ReadDiff(f) if f == "fix.diff"));
    let a = p.step(Event::DiffRead(Some(DIFF.as_bytes().to_vec())));
    assert!(matches!(a, Action::Fetch(u) if u == "https://crates.io/api/v1/crates/pkg/1.0.0/download"));
    let steps = match p.step(Event::Fetched(Some(fixture()))) {
        Action::Unpack(s) => s,
        _ => panic!("expected unpacking"),
    };
    assert_eq!(steps.len(), 3);
    assert!(matches!(&steps[0], ExtractStep::EnsureDir(d) if d == &segs(&["tmp", "dest", "pkg-1.0.0"])));
    assert!(matches!(&steps[1], ExtractStep::EnsureDir(d) if d == &segs(&["tmp", "dest", "pkg-1.0.0", "src"])));
    assert!(matches!(&steps[2], ExtractStep::WriteFile(f, c)
        if f == &segs(&["tmp", "dest", "pkg-1.0.0", "src", "main.txt"]) && c == b"A\nB\nC\n"));
    assert!(matches!(p.step(Event::Unpacked(true)), Action::InitRepository(t) if t == segs(&["tmp", "dest", "pkg-1.0.0"])));
    match p.step(Event::Initialized(true)) {
        Action::ApplyPatch(t, d) => {
            assert_eq!(t, segs(&["tmp", "dest", "pkg-1.0.0"]));
            assert_eq!(d.deltas().len(), 1);
        }
        _ => panic!("expected the patch"),
    }
    assert!(matches!(p.step(Event::Applied(true)), Action::Finish));
    assert_eq!(p.stage, Stage::Done);
}

#[test]
fn unreadable_diff_fails_before_download() {
    let (mut p, _) = PatchPipeline::new(request());
    p.step(Event::TargetProbed(false));
    assert!(matches!(p.step(Event::DiffRead(None)), Action::Fail(PipelineError::Filesystem)));
    assert_eq!(p.stage, Stage::Failed(PipelineError::Filesystem));
    assert!(matches!(p.step(Event::Fetched(Some(fixture()))), Action::Fail(PipelineError::Filesystem)));
}

fn at_fetch() -> PatchPipeline {
    let (mut p, _) = PatchPipeline::new(request());
    p.step(Event::TargetProbed(false));
    p.step(Event::DiffRead(Some(DIFF.as_bytes().to_vec())));
    p
}

#[test]
fn download_failures() {
    let mut p = at_fetch();
    assert!(matches!(p.step(Event::Fetched(None)), Action::Fail(PipelineError::Network)));
    let mut q = at_fetch();
    assert!(matches!(q.step(Event::Fetched(Some(b"junk".to_vec()))), Action::Fail(PipelineError::Decode)));
    let mut r = at_fetch();
    assert!(matches!(r.step(Event::Fetched(Some(gzip(&[0x41u8; 1024])))), Action::Fail(PipelineError::Extraction)));
}

#[test]
fn later_failures() {
    let mut p = at_fetch();
    p.step(Event::Fetched(Some(fixture())));
    assert!(matches!(p.step(Event::Unpacked(false)), Action::Fail(PipelineError::Filesystem)));
    let mut q = at_fetch();
    q.step(Event::Fetched(Some(fixture())));
    q.step(Event::Unpacked(true));
    assert!(matches!(q.step(Event::Initialized(false)), Action::Fail(PipelineError::Init)));
    let mut r = at_fetch();
    r.step(Event::Fetched(Some(fixture())));
    r.step(Event::Unpacked(true));
    r.step(Event::Initialized(true));
    assert!(matches!(r.step(Event::Applied(false)), Action::Fail(PipelineError::Patch)));
}

#[test]
fn events_out_of_order_fail() {
    let (mut p, _) = PatchPipeline::new(request());
    assert!(matches!(p.step(Event::Applied(true)), Action::Fail(PipelineError::OutOfOrder)));
}
