//! The patch pipeline for one package release: skip check, diff loading,
//! download, unpacking, working-tree setup and patch application, as a state
//! machine. Each step hands the caller one action to perform and takes back
//! what came of it.
use vstd::prelude::*;
use vstd::string::*;
use crate::archive::{ExtractStep, StepView, step_views, unpack_plan, unpack_outcome, ArchiveError};
use crate::paths::{seg_views, split_path, segments};

verus! {

#[verifier::external_type_specification]
#[verifier::external_body]
pub struct ExDiff<'a>(git2::Diff<'a>);

#[verifier::external_type_specification]
#[verifier::external_body]
pub struct ExGitError(git2::Error);

/// Whether git2 parses these bytes as a patch.
pub uninterp spec fn diff_parses(b: Seq<u8>) -> bool;

/// Relies on git2::Diff::from_buffer to parse a unified diff held in memory;
/// whether it parses depends on the bytes alone.
#[verifier::external_body]
fn diff_from_buffer(b: &[u8]) -> (r: Result<git2::Diff<'static>, git2::Error>)
    ensures
        r is Ok == diff_parses(b@),
{
    git2::Diff::from_buffer(b)
}

/// One package release to patch: the package and version, the diff file, and
/// the directory under which the release directory is made.
#[derive(Debug, Clone)]
pub struct PatchRequest {
    pub package_name: String,
    pub version: String,
    pub diff_source: String,
    pub destination_root: String,
}

/// The name of the directory that holds one release: `<name>-<version>`.
pub open spec fn release_dir_name(name: Seq<char>, version: Seq<char>) -> Seq<char> {
    name + "-"@ + version
}

/// The registry address a release archive is downloaded from.
pub open spec fn download_url_of(name: Seq<char>, version: Seq<char>) -> Seq<char> {
    "https://crates.io/api/v1/crates/"@ + name + "/"@ + version + "/download"@
}

pub fn release_dir(name: &str, version: &str) -> (r: String)
    ensures
        r@ == release_dir_name(name@, version@),
{
    let s = String::from_str(name);
    let s = s.concat("-");
    s.concat(version)
}

pub fn download_url(name: &str, version: &str) -> (r: String)
    ensures
        r@ == download_url_of(name@, version@),
{
    let s = String::from_str("https://crates.io/api/v1/crates/");
    let s = s.concat(name);
    let s = s.concat("/");
    let s = s.concat(version);
    let r = s.concat("/download");
    assert(r@ =~= download_url_of(name@, version@));
    r
}

/// Why a run failed.
#[derive(Debug, Clone, Copy, PartialEq, Eq, Structural)]
pub enum PipelineError {
    /// The diff file could not be read, or a directory or file could not be
    /// written while unpacking.
    Filesystem,
    /// The download failed.
    Network,
    /// The download is not valid gzip.
    Decode,
    /// The archive is corrupt or an entry's path leaves the destination.
    Extraction,
    /// The working tree could not be set up.
    Init,
    /// The diff does not parse, or a hunk does not apply.
    Patch,
    /// An event came that does not answer the last action.
    OutOfOrder,
}

/// Where a run stands: what it waits to hear about next, or how it ended.
#[derive(Debug, Clone, Copy, PartialEq, Eq, Structural)]
pub enum Stage {
    Probing,
    ReadingDiff,
    Fetching,
    Unpacking,
    Initializing,
    Applying,
    Done,
    Failed(PipelineError),
}

/// What came of the last action.
pub enum Event {
    /// Whether the release directory exists as a readable directory.
    TargetProbed(bool),
    /// The diff file's bytes, or `None` if it could not be read.
    DiffRead(Option<Vec<u8>>),
    /// The downloaded archive, or `None` if the download failed.
    Fetched(Option<Vec<u8>>),
    /// Whether every unpacking step succeeded.
    Unpacked(bool),
    /// Whether the working tree was set up.
    Initialized(bool),
    /// Whether the diff applied.
    Applied(bool),
}

/// What the caller is to do next. Paths are segments under the request's
/// base (see `PatchPipeline::absolute`).
pub enum Action {
    /// Check whether this directory exists and is readable.
    ProbeTarget(Vec<String>),
    /// Read this file whole.
    ReadDiff(String),
    /// Download this address whole.
    Fetch(String),
    /// Perform these steps in order, stopping at the first failure.
    Unpack(Vec<ExtractStep>),
    /// Set up a version-control working tree rooted here.
    InitRepository(Vec<String>),
    /// Apply this diff to the files of the working tree rooted here.
    ApplyPatch(Vec<String>, git2::Diff<'static>),
    /// The run is over and succeeded.
    Finish,
    /// The run is over and failed.
    Fail(PipelineError),
}

/// An action with its data as plain values (the parsed diff left out).
pub enum ActionView {
    ProbeTarget(Seq<Seq<char>>),
    ReadDiff(Seq<char>),
    Fetch(Seq<char>),
    Unpack(Seq<StepView>),
    InitRepository(Seq<Seq<char>>),
    ApplyPatch(Seq<Seq<char>>),
    Finish,
    Fail(PipelineError),
}

pub open spec fn action_view(a: Action) -> ActionView {
    match a {
        Action::ProbeTarget(p) => ActionView::ProbeTarget(seg_views(p@)),
        Action::ReadDiff(s) => ActionView::ReadDiff(s@),
        Action::Fetch(s) => ActionView::Fetch(s@),
        Action::Unpack(s) => ActionView::Unpack(step_views(s@)),
        Action::InitRepository(p) => ActionView::InitRepository(seg_views(p@)),
        Action::ApplyPatch(p, _) => ActionView::ApplyPatch(seg_views(p@)),
        Action::Finish => ActionView::Finish,
        Action::Fail(e) => ActionView::Fail(e),
    }
}

/// The request as plain values, the destination root split into segments.
pub struct RequestView {
    pub name: Seq<char>,
    pub version: Seq<char>,
    pub diff_source: Seq<char>,
    pub root: Seq<Seq<char>>,
}

pub open spec fn request_view(r: PatchRequest) -> RequestView {
    RequestView {
        name: r.package_name@,
        version: r.version@,
        diff_source: r.diff_source@,
        root: segments(r.destination_root@),
    }
}

/// The release directory: `<root>/<name>-<version>`.
pub open spec fn target_of(rv: RequestView) -> Seq<Seq<char>> {
    rv.root.push(release_dir_name(rv.name, rv.version))
}

pub open spec fn archive_error(e: ArchiveError) -> PipelineError {
    match e {
        ArchiveError::Decode => PipelineError::Decode,
        _ => PipelineError::Extraction,
    }
}

pub open spec fn fail(e: PipelineError) -> (Stage, ActionView) {
    (Stage::Failed(e), ActionView::Fail(e))
}

/// The next stage and action of a run in stage `st` on `ev`.
pub open spec fn transition(rv: RequestView, st: Stage, ev: Event) -> (Stage, ActionView) {
    match st {
        Stage::Done => (Stage::Done, ActionView::Finish),
        Stage::Failed(e) => fail(e),
        Stage::Probing => match ev {
            Event::TargetProbed(true) => (Stage::Done, ActionView::Finish),
            Event::TargetProbed(false) => (Stage::ReadingDiff, ActionView::ReadDiff(rv.diff_source)),
            _ => fail(PipelineError::OutOfOrder),
        },
        Stage::ReadingDiff => match ev {
            Event::DiffRead(Some(b)) => if diff_parses(b@) {
                (Stage::Fetching, ActionView::Fetch(download_url_of(rv.name, rv.version)))
            } else {
                fail(PipelineError::Patch)
            },
            Event::DiffRead(None) => fail(PipelineError::Filesystem),
            _ => fail(PipelineError::OutOfOrder),
        },
        Stage::Fetching => match ev {
            Event::Fetched(Some(b)) => match unpack_outcome(b@, rv.root) {
                Ok(s) => (
                    Stage::Unpacking,
                    ActionView::Unpack(seq![StepView::Dir(target_of(rv))] + s),
                ),
                Err(e) => fail(archive_error(e)),
            },
            Event::Fetched(None) => fail(PipelineError::Network),
            _ => fail(PipelineError::OutOfOrder),
        },
        Stage::Unpacking => match ev {
            Event::Unpacked(true) => (
                Stage::Initializing,
                ActionView::InitRepository(target_of(rv)),
            ),
            Event::Unpacked(false) => fail(PipelineError::Filesystem),
            _ => fail(PipelineError::OutOfOrder),
        },
        Stage::Initializing => match ev {
            Event::Initialized(true) => (Stage::Applying, ActionView::ApplyPatch(target_of(rv))),
            Event::Initialized(false) => fail(PipelineError::Init),
            _ => fail(PipelineError::OutOfOrder),
        },
        Stage::Applying => match ev {
            Event::Applied(true) => (Stage::Done, ActionView::Finish),
            Event::Applied(false) => fail(PipelineError::Patch),
            _ => fail(PipelineError::OutOfOrder),
        },
    }
}

/// The stage a run in stage `st` ends in on the events `evs`, and the actions
/// it takes, in order.
pub open spec fn run_from(rv: RequestView, st: Stage, evs: Seq<Event>) -> (Stage, Seq<ActionView>)
    decreases evs.len(),
{
    if evs.len() == 0 {
        (st, Seq::empty())
    } else {
        let (next, a) = transition(rv, st, evs[0]);
        let (last, rest) = run_from(rv, next, evs.drop_first());
        (last, seq![a] + rest)
    }
}

proof fn lemma_done_stays_done(rv: RequestView, evs: Seq<Event>)
    ensures
        run_from(rv, Stage::Done, evs).0 == Stage::Done,
        run_from(rv, Stage::Done, evs).1.len() == evs.len(),
        forall|i: int|
            0 <= i < evs.len() ==> #[trigger] run_from(rv, Stage::Done, evs).1[i]
                == ActionView::Finish,
    decreases evs.len(),
{
    if evs.len() > 0 {
        lemma_done_stays_done(rv, evs.drop_first());
    }
}

/// Idempotency: a run that finds the release directory already in place
/// ends there. Whatever comes back afterwards, every action it takes is
/// `Finish`: it reads no diff, downloads nothing and writes nothing.
pub proof fn lemma_present_target_is_left_alone(rv: RequestView, evs: Seq<Event>)
    requires
        evs.len() > 0,
        evs[0] == Event::TargetProbed(true),
    ensures
        run_from(rv, Stage::Probing, evs).0 == Stage::Done,
        run_from(rv, Stage::Probing, evs).1.len() == evs.len(),
        forall|i: int|
            0 <= i < evs.len() ==> #[trigger] run_from(rv, Stage::Probing, evs).1[i]
                == ActionView::Finish,
{
    lemma_done_stays_done(rv, evs.drop_first());
    let all = run_from(rv, Stage::Probing, evs).1;
    let rest = run_from(rv, Stage::Done, evs.drop_first()).1;
    assert(all == seq![ActionView::Finish] + rest);
    assert forall|i: int| 0 <= i < evs.len() implies #[trigger] all[i] == ActionView::Finish by {
        if i > 0 {
            assert(all[i] == rest[i - 1]);
        }
    }
}

/// One run of the pipeline for one request.
pub struct PatchPipeline {
    pub request: PatchRequest,
    /// The destination root as segments.
    pub root: Vec<String>,
    /// Whether the segments start at the filesystem root rather than at the
    /// current directory.
    pub absolute: bool,
    pub stage: Stage,
    /// The parsed diff, from the time it is read until it is handed out.
    pub diff: Option<git2::Diff<'static>>,
}

fn target_segments(root: &Vec<String>, name: &str, version: &str) -> (r: Vec<String>)
    ensures
        seg_views(r@) == seg_views(root@).push(release_dir_name(name@, version@)),
{
    let mut out: Vec<String> = Vec::new();
    let mut i: usize = 0;
    while i < root.len()
        invariant
            i <= root@.len(),
            out@ == root@.subrange(0, i as int),
        decreases root@.len() - i,
    {
        out.push(root[i].clone());
        i = i + 1;
        assert(out@ =~= root@.subrange(0, i as int));
    }
    let ghost before = out@;
    out.push(release_dir(name, version));
    assert(before =~= root@);
    assert(seg_views(out@) =~= seg_views(root@).push(release_dir_name(name@, version@)));
    out
}

impl PatchPipeline {
    pub open spec fn view(&self) -> RequestView {
        request_view(self.request)
    }

    pub open spec fn wf(&self) -> bool {
        &&& seg_views(self.root@) == self.view().root
        &&& (self.stage == Stage::Fetching || self.stage == Stage::Unpacking || self.stage
            == Stage::Initializing) ==> self.diff is Some
    }

    /// A run for `request`, waiting to probe the release directory; the
    /// first action is `ProbeTarget` of that directory.
    pub fn new(request: PatchRequest) -> (r: (Self, Action))
        ensures
            r.0.wf(),
            r.0.request == request,
            r.0.stage == Stage::Probing,
            r.0.absolute == (request.destination_root@.len() > 0
                && request.destination_root@[0] == '/'),
            action_view(r.1) == ActionView::ProbeTarget(target_of(request_view(request))),
    {
        let root = split_path(request.destination_root.as_str());
        let s = request.destination_root.as_str();
        let absolute = s.unicode_len() > 0 && s.get_char(0) == '/';
        let target = target_segments(&root, request.package_name.as_str(), request.version.as_str());
        let p = PatchPipeline { request, root, absolute, stage: Stage::Probing, diff: None };
        (p, Action::ProbeTarget(target))
    }

    /// Moves the run on by what came of the last action, and says what to
    /// do next.
    pub fn step(&mut self, ev: Event) -> (r: Action)
        requires
            old(self).wf(),
        ensures
            final(self).wf(),
            final(self).request == old(self).request,
            final(self).absolute == old(self).absolute,
            (final(self).stage, action_view(r)) == transition(old(self).view(), old(self).stage, ev),
    {
        let ghost rv = self.view();
        match self.stage {
            Stage::Done => Action::Finish,
            Stage::Failed(e) => Action::Fail(e),
            Stage::Probing => match ev {
                Event::TargetProbed(true) => {
                    self.stage = Stage::Done;
                    Action::Finish
                },
                Event::TargetProbed(false) => {
                    self.stage = Stage::ReadingDiff;
                    Action::ReadDiff(self.request.diff_source.clone())
                },
                _ => self.fail(PipelineError::OutOfOrder),
            },
            Stage::ReadingDiff => match ev {
                Event::DiffRead(Some(b)) => match diff_from_buffer(b.as_slice()) {
                    Ok(d) => {
                        self.diff = Some(d);
                        self.stage = Stage::Fetching;
                        Action::Fetch(
                            download_url(
                                self.request.package_name.as_str(),
                                self.request.version.as_str(),
                            ),
                        )
                    },
                    Err(_) => self.fail(PipelineError::Patch),
                },
                Event::DiffRead(None) => self.fail(PipelineError::Filesystem),
                _ => self.fail(PipelineError::OutOfOrder),
            },
            Stage::Fetching => match ev {
                Event::Fetched(Some(b)) => match unpack_plan(b.as_slice(), &self.root) {
                    Ok(steps) => {
                        let mut all: Vec<ExtractStep> = Vec::new();
                        all.push(ExtractStep::EnsureDir(self.target()));
                        let ghost first = step_views(all@);
                        assert(first =~= seq![StepView::Dir(target_of(rv))]);
                        let ghost rest = step_views(steps@);
                        let mut steps = steps;
                        all.append(&mut steps);
                        assert(step_views(all@) =~= first + rest);
                        self.stage = Stage::Unpacking;
                        Action::Unpack(all)
                    },
                    Err(ArchiveError::Decode) => self.fail(PipelineError::Decode),
                    Err(_) => self.fail(PipelineError::Extraction),
                },
                Event::Fetched(None) => self.fail(PipelineError::Network),
                _ => self.fail(PipelineError::OutOfOrder),
            },
            Stage::Unpacking => match ev {
                Event::Unpacked(true) => {
                    self.stage = Stage::Initializing;
                    Action::InitRepository(self.target())
                },
                Event::Unpacked(false) => self.fail(PipelineError::Filesystem),
                _ => self.fail(PipelineError::OutOfOrder),
            },
            Stage::Initializing => match ev {
                Event::Initialized(true) => {
                    let target = self.target();
                    let d = self.diff.take();
                    match d {
                        Some(d) => {
                            self.stage = Stage::Applying;
                            Action::ApplyPatch(target, d)
                        },
                        None => self.fail(PipelineError::OutOfOrder),
                    }
                },
                Event::Initialized(false) => self.fail(PipelineError::Init),
                _ => self.fail(PipelineError::OutOfOrder),
            },
            Stage::Applying => match ev {
                Event::Applied(true) => {
                    self.stage = Stage::Done;
                    Action::Finish
                },
                Event::Applied(false) => self.fail(PipelineError::Patch),
                _ => self.fail(PipelineError::OutOfOrder),
            },
        }
    }

    fn fail(&mut self, e: PipelineError) -> (r: Action)
        requires
            old(self).wf(),
        ensures
            final(self).wf(),
            final(self).request == old(self).request,
            final(self).absolute == old(self).absolute,
            final(self).stage == Stage::Failed(e),
            action_view(r) == ActionView::Fail(e),
    {
        self.stage = Stage::Failed(e);
        Action::Fail(e)
    }

    /// The release directory as segments.
    pub fn target(&self) -> (r: Vec<String>)
        requires
            self.wf(),
        ensures
            seg_views(r@) == target_of(self.view()),
    {
        target_segments(&self.root, self.request.package_name.as_str(), self.request.version.as_str())
    }
}

} // verus!
