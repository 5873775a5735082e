//! Paths as sequences of segments, and the walk that finds which ancestors of
//! a directory are missing and in which order to create them.
use vstd::prelude::*;
use vstd::string::*;
use crate::args::{find_char, index_of};

verus! {

/// A filesystem path given as text.
pub struct PathFinder {
    pub path: String,
}

impl From<String> for PathFinder {
    fn from(value: String) -> (r: Self)
        ensures
            r.path == value,
    {
        PathFinder { path: value }
    }
}

impl vstd::std_specs::convert::FromSpecImpl<String> for PathFinder {
    open spec fn obeys_from_spec() -> bool {
        true
    }

    open spec fn from_spec(v: String) -> Self {
        PathFinder { path: v }
    }
}

impl<'a> From<&'a str> for PathFinder {
    fn from(value: &'a str) -> (r: Self)
        ensures
            r.path@ == value@,
    {
        PathFinder { path: String::from_str(value) }
    }
}

impl<'a> vstd::std_specs::convert::FromSpecImpl<&'a str> for PathFinder {
    open spec fn obeys_from_spec() -> bool {
        false
    }

    open spec fn from_spec(v: &'a str) -> Self {
        arbitrary()
    }
}

pub open spec fn seg_views(p: Seq<String>) -> Seq<Seq<char>> {
    p.map_values(|s: String| s@)
}

/// Whether a piece between two `/` names a step into a directory: empty
/// pieces and `.` do not.
pub open spec fn is_step(piece: Seq<char>) -> bool {
    piece.len() > 0 && piece != "."@
}

/// The steps of `s` from position `start` on, split at `/`.
pub open spec fn segments_from(s: Seq<char>, start: int) -> Seq<Seq<char>>
    decreases s.len() - start,
{
    if start < 0 || start > s.len() {
        Seq::empty()
    } else {
        let k = index_of(s, '/', start);
        let piece = s.subrange(start, k);
        let rest = if k >= s.len() || k < start {
            Seq::<Seq<char>>::empty()
        } else {
            segments_from(s, k + 1)
        };
        if is_step(piece) {
            seq![piece] + rest
        } else {
            rest
        }
    }
}

/// The steps of a path written with `/` separators.
pub open spec fn segments(s: Seq<char>) -> Seq<Seq<char>> {
    segments_from(s, 0)
}

proof fn lemma_index_of_bounds(s: Seq<char>, c: char, from: int)
    requires
        0 <= from <= s.len(),
    ensures
        from <= index_of(s, c, from) <= s.len(),
        index_of(s, c, from) < s.len() ==> s[index_of(s, c, from)] == c,
    decreases s.len() - from,
{
    if from < s.len() && s[from] != c {
        lemma_index_of_bounds(s, c, from + 1);
    }
}

fn is_dot(s: &str) -> (r: bool)
    ensures
        r == (s@ == "."@),
{
    String::from_str(s) == String::from_str(".")
}

/// Splits a `/`-separated path into its steps, leaving out empty pieces and `.`.
pub fn split_path(s: &str) -> (r: Vec<String>)
    ensures
        seg_views(r@) == segments(s@),
{
    let len = s.unicode_len();
    let mut out: Vec<String> = Vec::new();
    let mut start: usize = 0;
    loop
        invariant
            start <= len,
            len == s@.len(),
            segments(s@) == seg_views(out@) + segments_from(s@, start as int),
        decreases len - start,
    {
        let k = find_char(s, len, '/', start);
        proof {
            lemma_index_of_bounds(s@, '/', start as int);
        }
        let piece = s.substring_char(start, k);
        let keep = piece.unicode_len() > 0 && !is_dot(piece);
        let ghost old_out = seg_views(out@);
        if keep {
            out.push(String::from_str(piece));
            assert(seg_views(out@) =~= old_out.push(piece@));
        }
        if k >= len {
            assert(segments_from(s@, start as int) =~= seg_views(out@).subrange(
                old_out.len() as int,
                seg_views(out@).len() as int,
            ));
            assert(segments(s@) =~= seg_views(out@));
            return out;
        }
        assert(seg_views(out@) + segments_from(s@, (k + 1) as int) =~= old_out + segments_from(
            s@,
            start as int,
        ));
        start = k + 1;
    }
}

/// The search for the nearest existing ancestor of `target`. Level `k` stands
/// for the first `k` segments of `target`; level 0, the base the segments are
/// relative to, is taken to exist. The walk probes from the full path upward
/// and stops at the first level reported to exist.
pub struct DirWalk {
    pub target: Vec<String>,
    pub level: usize,
    pub found: bool,
}

impl DirWalk {
    /// The first level not known to be missing: every level above it was
    /// probed and reported missing.
    pub open spec fn level(&self) -> nat {
        self.level as nat
    }

    pub open spec fn finished(&self) -> bool {
        self.found || self.level == 0
    }

    pub open spec fn wf(&self) -> bool {
        self.level <= self.target@.len()
    }

    pub fn new(target: Vec<String>) -> (r: Self)
        ensures
            r.wf(),
            r.target == target,
            r.level() == target@.len(),
            r.finished() == (target@.len() == 0),
    {
        let n = target.len();
        DirWalk { target, level: n, found: false }
    }

    /// The level to probe next, if the walk is not over.
    pub fn next_probe(&self) -> (r: Option<usize>)
        requires
            self.wf(),
        ensures
            self.finished() ==> r is None,
            !self.finished() ==> r == Some(self.level() as usize),
    {
        if self.found || self.level == 0 {
            None
        } else {
            Some(self.level)
        }
    }

    /// Records whether the level returned by `next_probe` exists as a directory.
    pub fn record(&mut self, exists: bool)
        requires
            old(self).wf(),
            !old(self).finished(),
        ensures
            final(self).wf(),
            final(self).target == old(self).target,
            exists ==> final(self).finished() && final(self).level() == old(self).level(),
            !exists ==> final(self).level() == old(self).level() - 1 && (final(self).finished()
                <==> final(self).level() == 0),
    {
        if exists {
            self.found = true;
        } else {
            self.level = self.level - 1;
        }
    }

    /// The missing directories, outermost first: the prefixes of `target` of
    /// every length above the level where the walk stopped.
    pub fn creation_plan(&self) -> (r: Vec<Vec<String>>)
        requires
            self.wf(),
        ensures
            r@.len() == self.target@.len() - self.level(),
            forall|i: int|
                0 <= i < r@.len() ==> #[trigger] r@[i]@ == self.target@.subrange(
                    0,
                    self.level() + i + 1,
                ),
    {
        let n = self.target.len();
        let mut out: Vec<Vec<String>> = Vec::new();
        let mut prefix: Vec<String> = Vec::new();
        let mut i: usize = 0;
        while i < self.level
            invariant
                i <= self.level <= n,
                n == self.target@.len(),
                prefix@ == self.target@.subrange(0, i as int),
                out@.len() == 0,
            decreases self.level - i,
        {
            prefix.push(self.target[i].clone());
            i = i + 1;
            assert(prefix@ =~= self.target@.subrange(0, i as int));
        }
        while i < n
            invariant
                self.level <= i <= n,
                n == self.target@.len(),
                prefix@ == self.target@.subrange(0, i as int),
                out@.len() == i - self.level,
                forall|j: int|
                    0 <= j < out@.len() ==> #[trigger] out@[j]@ == self.target@.subrange(
                        0,
                        self.level + j + 1,
                    ),
            decreases n - i,
        {
            prefix.push(self.target[i].clone());
            i = i + 1;
            assert(prefix@ =~= self.target@.subrange(0, i as int));
            out.push(prefix.clone());
        }
        out
    }
}

/// Creating the plan's directories in order never needs a parent that is
/// neither the level where the walk stopped nor created just before, and it
/// ends with every ancestor of the target, and the target, in place.
pub proof fn lemma_outermost_first(target: Seq<String>, level: nat, plan: Seq<Seq<String>>)
    requires
        level <= target.len(),
        plan.len() == target.len() - level,
        forall|i: int| 0 <= i < plan.len() ==> #[trigger] plan[i] == target.subrange(0, level + i + 1),
    ensures
        plan.len() > 0 ==> plan[0].drop_last() == target.subrange(0, level as int),
        forall|i: int|
            0 < i < plan.len() ==> #[trigger] plan[i].drop_last() == plan[i - 1],
        forall|k: int|
            level < k <= target.len() ==> #[trigger] target.subrange(0, k) == plan[k - level - 1],
        plan.len() > 0 ==> plan[plan.len() - 1] == target,
{
    if plan.len() > 0 {
        assert(plan[0].drop_last() =~= target.subrange(0, level as int));
        assert(plan[plan.len() - 1] =~= target);
    }
    assert forall|i: int| 0 < i < plan.len() implies #[trigger] plan[i].drop_last() == plan[i - 1] by {
        assert(plan[i].drop_last() =~= plan[i - 1]);
    }
    assert forall|k: int| level < k <= target.len() implies #[trigger] target.subrange(0, k) == plan[k - level - 1] by {
        assert(plan[k - level - 1] == target.subrange(0, level + (k - level - 1) + 1));
    }
}

} // verus!
