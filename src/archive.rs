//! Release archives: gzip decoding, reading the tar entries, and the plan of
//! directories and files that unpacking them under a root amounts to.
use vstd::prelude::*;
use crate::paths::{segments, seg_views, split_path};

verus! {

/// One entry of a tar archive: its relative path as written in the archive,
/// whether it is a directory, and its contents.
pub struct ArchiveEntry {
    pub path: String,
    pub is_dir: bool,
    pub contents: Vec<u8>,
}

pub open spec fn entry_view(e: ArchiveEntry) -> (Seq<char>, bool, Seq<u8>) {
    (e.path@, e.is_dir, e.contents@)
}

pub open spec fn entry_views(es: Seq<ArchiveEntry>) -> Seq<(Seq<char>, bool, Seq<u8>)> {
    es.map_values(|e: ArchiveEntry| entry_view(e))
}

/// What libflate's gzip decoder yields for a whole stream: the decoded bytes,
/// or `None` where the stream is not valid gzip.
pub uninterp spec fn gunzip(b: Seq<u8>) -> Option<Seq<u8>>;

/// The entries that the tar crate reads from an archive held in memory, in
/// archive order, or `None` where the archive is corrupt.
pub uninterp spec fn tar_listing(b: Seq<u8>) -> Option<Seq<(Seq<char>, bool, Seq<u8>)>>;

/// Relies on libflate::gzip::Decoder (`new`, then `read_to_end`) to decode a
/// gzip stream held in memory; the outcome depends on the bytes alone.
#[verifier::external_body]
fn gzip_decode(raw: &[u8]) -> (r: Option<Vec<u8>>)
    ensures
        match r {
            Some(v) => gunzip(raw@) == Some(v@),
            None => gunzip(raw@) is None,
        },
{
    let mut decoder = libflate::gzip::Decoder::new(raw).ok()?;
    let mut out = Vec::new();
    std::io::Read::read_to_end(&mut decoder, &mut out).ok()?;
    Some(out)
}

/// Relies on tar::Archive::entries over an archive held in memory: for each
/// entry its path (`Entry::path`), whether its header marks a directory, and
/// its contents, in archive order; any read error, or a path that is not
/// UTF-8, gives `None`.
#[verifier::external_body]
fn read_tar(bytes: &[u8]) -> (r: Option<Vec<ArchiveEntry>>)
    ensures
        match r {
            Some(v) => tar_listing(bytes@) == Some(entry_views(v@)),
            None => tar_listing(bytes@) is None,
        },
{
    let mut archive = tar::Archive::new(bytes);
    let mut out = Vec::new();
    for item in archive.entries().ok()? {
        let mut item = item.ok()?;
        let path = item.path().ok()?.to_str()?.to_string();
        let is_dir = item.header().entry_type().is_dir();
        let mut contents = Vec::new();
        std::io::Read::read_to_end(&mut item, &mut contents).ok()?;
        out.push(ArchiveEntry { path, is_dir, contents });
    }
    Some(out)
}

/// Why an archive could not be unpacked.
#[derive(Debug, Clone, Copy, PartialEq, Eq, Structural)]
pub enum ArchiveError {
    /// The download is not a valid gzip stream.
    Decode,
    /// The decompressed bytes are not a readable tar archive.
    Corrupt,
    /// The entry at this position has a path that would leave the root.
    UnsafePath(usize),
}

/// One filesystem step of unpacking, on paths given as segments.
#[derive(Debug, Clone)]
pub enum ExtractStep {
    /// Make sure this directory and all its ancestors exist.
    EnsureDir(Vec<String>),
    /// Create or truncate this file and write these bytes to it.
    WriteFile(Vec<String>, Vec<u8>),
}

pub enum StepView {
    Dir(Seq<Seq<char>>),
    File(Seq<Seq<char>>, Seq<u8>),
}

pub open spec fn step_view(s: ExtractStep) -> StepView {
    match s {
        ExtractStep::EnsureDir(p) => StepView::Dir(seg_views(p@)),
        ExtractStep::WriteFile(p, c) => StepView::File(seg_views(p@), c@),
    }
}

pub open spec fn step_views(s: Seq<ExtractStep>) -> Seq<StepView> {
    s.map_values(|x: ExtractStep| step_view(x))
}

/// An entry path stays inside the root: it is relative, names at least one
/// step, and never steps up with `..`.
pub open spec fn stays_inside(p: Seq<char>) -> bool {
    &&& !(p.len() > 0 && p[0] == '/')
    &&& segments(p).len() > 0
    &&& !segments(p).contains(".."@)
}

/// The steps for one entry unpacked under `root`: a directory entry becomes
/// that directory; a file entry needs its parent directory, then is written.
pub open spec fn entry_steps(root: Seq<Seq<char>>, e: (Seq<char>, bool, Seq<u8>)) -> Seq<
    StepView,
> {
    let t = root + segments(e.0);
    if e.1 {
        seq![StepView::Dir(t)]
    } else {
        seq![StepView::Dir(t.drop_last()), StepView::File(t, e.2)]
    }
}

/// The steps for the first `n` entries, in archive order, or the position of
/// the first of them whose path leaves the root.
pub open spec fn extraction_steps(
    root: Seq<Seq<char>>,
    es: Seq<(Seq<char>, bool, Seq<u8>)>,
    n: nat,
) -> Result<Seq<StepView>, nat>
    decreases n,
{
    if n == 0 || n > es.len() {
        Ok(Seq::empty())
    } else {
        match extraction_steps(root, es, (n - 1) as nat) {
            Err(i) => Err(i),
            Ok(s) => if stays_inside(es[n - 1].0) {
                Ok(s + entry_steps(root, es[n - 1]))
            } else {
                Err((n - 1) as nat)
            },
        }
    }
}

/// The whole plan for unpacking `es` under `root`.
pub open spec fn extraction_plan(root: Seq<Seq<char>>, es: Seq<(Seq<char>, bool, Seq<u8>)>) -> Result<
    Seq<StepView>,
    nat,
> {
    extraction_steps(root, es, es.len())
}

/// Path fidelity: a file entry whose path stays inside the root is written at
/// that path under the root, after its parent directory, with its bytes
/// unchanged.
pub proof fn lemma_entry_lands_under_root(root: Seq<Seq<char>>, p: Seq<char>, c: Seq<u8>)
    requires
        stays_inside(p),
    ensures
        extraction_plan(root, seq![(p, false, c)]) == Ok::<Seq<StepView>, nat>(
            seq![
                StepView::Dir((root + segments(p)).drop_last()),
                StepView::File(root + segments(p), c),
            ],
        ),
{
    let es = seq![(p, false, c)];
    assert(extraction_steps(root, es, 0) == Ok::<Seq<StepView>, nat>(Seq::empty()));
    assert(Seq::<StepView>::empty() + entry_steps(root, es[0]) =~= entry_steps(root, es[0]));
}

fn starts_with_slash(s: &str) -> (r: bool)
    ensures
        r == (s@.len() > 0 && s@[0] == '/'),
{
    s.unicode_len() > 0 && s.get_char(0) == '/'
}

fn has_parent_step(segs: &Vec<String>) -> (r: bool)
    ensures
        r == seg_views(segs@).contains(".."@),
{
    let up = String::from_str("..");
    let mut i: usize = 0;
    while i < segs.len()
        invariant
            i <= segs@.len(),
            up@ == ".."@,
            forall|j: int| 0 <= j < i ==> segs@[j]@ != ".."@,
        decreases segs@.len() - i,
    {
        if segs[i] == up {
            assert(seg_views(segs@)[i as int] == ".."@);
            return true;
        }
        i = i + 1;
    }
    assert(!seg_views(segs@).contains(".."@)) by {
        assert forall|j: int| 0 <= j < seg_views(segs@).len() implies seg_views(segs@)[j] != ".."@ by {
            assert(seg_views(segs@)[j] == segs@[j]@);
        }
    }
    false
}

fn concat_segments(root: &Vec<String>, rest: &Vec<String>) -> (r: Vec<String>)
    ensures
        seg_views(r@) == seg_views(root@) + seg_views(rest@),
{
    let mut out: Vec<String> = Vec::new();
    let mut i: usize = 0;
    while i < root.len()
        invariant
            i <= root@.len(),
            out@ == root@.subrange(0, i as int),
        decreases root@.len() - i,
    {
        out.push(root[i].clone());
        i = i + 1;
        assert(out@ =~= root@.subrange(0, i as int));
    }
    let mut j: usize = 0;
    while j < rest.len()
        invariant
            j <= rest@.len(),
            i == root@.len(),
            out@ == root@ + rest@.subrange(0, j as int),
        decreases rest@.len() - j,
    {
        out.push(rest[j].clone());
        j = j + 1;
        assert(out@ =~= root@ + rest@.subrange(0, j as int));
    }
    assert(out@ =~= root@ + rest@);
    assert(seg_views(out@) =~= seg_views(root@) + seg_views(rest@));
    out
}

fn parent_of(p: &Vec<String>) -> (r: Vec<String>)
    requires
        p@.len() > 0,
    ensures
        seg_views(r@) == seg_views(p@).drop_last(),
{
    let mut out: Vec<String> = Vec::new();
    let n: usize = p.len() - 1;
    let mut i: usize = 0;
    while i < n
        invariant
            i <= n,
            n == p@.len() - 1,
            out@ == p@.subrange(0, i as int),
        decreases n - i,
    {
        out.push(p[i].clone());
        i = i + 1;
        assert(out@ =~= p@.subrange(0, i as int));
    }
    assert(seg_views(out@) =~= seg_views(p@).drop_last());
    out
}

proof fn lemma_error_stays(root: Seq<Seq<char>>, es: Seq<(Seq<char>, bool, Seq<u8>)>, i: nat, n: nat)
    requires
        i < n <= es.len(),
        extraction_steps(root, es, i + 1) == Err::<Seq<StepView>, nat>(i),
    ensures
        extraction_steps(root, es, n) == Err::<Seq<StepView>, nat>(i),
    decreases n - i,
{
    if n > i + 1 {
        lemma_error_stays(root, es, i, (n - 1) as nat);
    }
}

/// The steps that unpack `entries` under `root`, in archive order, or the
/// position of the first entry whose path would leave `root`.
pub fn plan_extraction(root: &Vec<String>, entries: &Vec<ArchiveEntry>) -> (r: Result<
    Vec<ExtractStep>,
    ArchiveError,
>)
    ensures
        match extraction_plan(seg_views(root@), entry_views(entries@)) {
            Ok(s) => r matches Ok(v) && step_views(v@) == s,
                Err(i) => i < entries@.len() && r == Err::<Vec<ExtractStep>, ArchiveError>(
                ArchiveError::UnsafePath(i as usize),
            ),
        },
{
    let ghost rv = seg_views(root@);
    let ghost ev = entry_views(entries@);
    let mut out: Vec<ExtractStep> = Vec::new();
    assert(step_views(out@) =~= Seq::<StepView>::empty());
    let mut i: usize = 0;
    while i < entries.len()
        invariant
            i <= entries@.len(),
            rv == seg_views(root@),
            ev == entry_views(entries@),
            extraction_steps(rv, ev, i as nat) == Ok::<Seq<StepView>, nat>(step_views(out@)),
        decreases entries@.len() - i,
    {
        let e = &entries[i];
        assert(ev[i as int] == entry_view(*e));
        let segs = split_path(e.path.as_str());
        if starts_with_slash(e.path.as_str()) || segs.len() == 0 || has_parent_step(&segs) {
            proof {
                lemma_error_stays(rv, ev, i as nat, ev.len());
            }
            return Err(ArchiveError::UnsafePath(i));
        }
        assert(segments(ev[i as int].0).len() > 0);
        let target = concat_segments(root, &segs);
        let ghost before = step_views(out@);
        if e.is_dir {
            out.push(ExtractStep::EnsureDir(target));
        } else {
            out.push(ExtractStep::EnsureDir(parent_of(&target)));
            out.push(ExtractStep::WriteFile(target, e.contents.clone()));
        }
        assert(step_views(out@) =~= before + entry_steps(rv, ev[i as int]));
        i = i + 1;
    }
    assert(ev.len() == entries@.len());
    Ok(out)
}

/// What unpacking a downloaded release under `root` amounts to: the steps,
/// or why it cannot be done.
pub open spec fn unpack_outcome(raw: Seq<u8>, root: Seq<Seq<char>>) -> Result<
    Seq<StepView>,
    ArchiveError,
> {
    match gunzip(raw) {
        None => Err(ArchiveError::Decode),
        Some(t) => match tar_listing(t) {
            None => Err(ArchiveError::Corrupt),
            Some(es) => match extraction_plan(root, es) {
                Ok(s) => Ok(s),
                Err(i) => Err(ArchiveError::UnsafePath(i as usize)),
            },
        },
    }
}

/// Decodes a downloaded release and plans its unpacking under `root`.
pub fn unpack_plan(raw: &[u8], root: &Vec<String>) -> (r: Result<Vec<ExtractStep>, ArchiveError>)
    ensures
        match unpack_outcome(raw@, seg_views(root@)) {
            Ok(s) => r matches Ok(v) && step_views(v@) == s,
            Err(e) => r == Err::<Vec<ExtractStep>, ArchiveError>(e),
        },
{
    let tar_bytes = match gzip_decode(raw) {
        Some(t) => t,
        None => return Err(ArchiveError::Decode),
    };
    let entries = match read_tar(tar_bytes.as_slice()) {
        Some(es) => es,
        None => return Err(ArchiveError::Corrupt),
    };
    plan_extraction(root, &entries)
}

/// Decodes a gzip stream held in memory.
pub fn decompress(raw: &[u8]) -> (r: Result<Vec<u8>, ArchiveError>)
    ensures
        match gunzip(raw@) {
            Some(t) => r matches Ok(v) && v@ == t,
            None => r == Err::<Vec<u8>, ArchiveError>(ArchiveError::Decode),
        },
{
    match gzip_decode(raw) {
        Some(t) => Ok(t),
        None => Err(ArchiveError::Decode),
    }
}

} // verus!
