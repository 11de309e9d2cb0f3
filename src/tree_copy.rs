use vstd::prelude::*;

use crate::cache::{
    blob_path, collapse_slashes, copy_outcome, destination_child, digest_hex, large_files_dir,
    large_files_path, looks_like_pointer, parent_dir, parent_of, plan_file, plan_of, source_child,
    CacheError, FileAction, Plan, DEDUPLICATE_LARGER_THAN,
};

verus! {

/// What the world reports back to a tree copy.
pub enum CopyEvent {
    /// The inspected path does not exist.
    Absent,
    /// The inspected path is a directory with these entries, in this order.
    Directory(Vec<String>),
    /// The inspected path is a regular file with these contents.
    File(Vec<u8>),
    /// Whether the probed path exists.
    Present(bool),
    /// The requested change was made.
    Done,
}

/// What a tree copy asks of the world next.
#[derive(Debug, PartialEq, Eq)]
pub enum CopyAction {
    /// Tell whether this path exists, and list it or read it.
    Inspect(String),
    /// Create this directory and any missing parents.
    MakeDirAll(String),
    /// Write these bytes to a new file at this path.
    WriteFile(String, Vec<u8>),
    /// Tell whether this path exists.
    Probe(String),
    /// Copy the file at the first path, with its permissions, to the second.
    CopyFile(String, String),
    /// Stop: the copy failed.
    Fail(CacheError),
    /// Stop: everything was copied.
    Finished,
}

/// Where a tree copy stands.
pub enum CopyStage {
    /// Waiting to learn what is at the path the copy starts from, which is
    /// copied to the second path.
    Starting(String, String),
    /// Waiting to learn what is at the first path, which is copied to the second.
    Inspecting(String, String),
    /// The copy started at a regular file with these contents: waiting for
    /// the directory that holds its destination.
    Placing(String, String, Vec<u8>),
    /// Waiting for a change to be made before moving on.
    AwaitingDone,
    /// A pointer record was written for the file at the first path; its
    /// content belongs in the blob at the second.
    Recorded(String, String),
    /// Waiting to learn whether the blob at the second path exists.
    Probing(String, String),
    /// Waiting for the blob directory before copying the content there.
    Storing(String, String),
    /// Nothing is left to do.
    Over,
}

pub enum CopyEventView {
    Absent,
    Directory(Seq<Seq<char>>),
    File(Seq<u8>),
    Present(bool),
    Done,
}

pub enum CopyActionView {
    Inspect(Seq<char>),
    MakeDirAll(Seq<char>),
    WriteFile(Seq<char>, Seq<u8>),
    Probe(Seq<char>),
    CopyFile(Seq<char>, Seq<char>),
    Fail(CacheError),
    Finished,
}

pub enum StageView {
    Starting(Seq<char>, Seq<char>),
    Inspecting(Seq<char>, Seq<char>),
    Placing(Seq<char>, Seq<char>, Seq<u8>),
    AwaitingDone,
    Recorded(Seq<char>, Seq<char>),
    Probing(Seq<char>, Seq<char>),
    Storing(Seq<char>, Seq<char>),
    Over,
}

/// The names of directory entries as text.
pub open spec fn names_view(names: Seq<String>) -> Seq<Seq<char>> {
    names.map_values(|n: String| n@)
}

impl View for CopyEvent {
    type V = CopyEventView;

    open spec fn view(&self) -> CopyEventView {
        match self {
            CopyEvent::Absent => CopyEventView::Absent,
            CopyEvent::Directory(names) => CopyEventView::Directory(names_view(names@)),
            CopyEvent::File(c) => CopyEventView::File(c@),
            CopyEvent::Present(b) => CopyEventView::Present(*b),
            CopyEvent::Done => CopyEventView::Done,
        }
    }
}

impl View for CopyAction {
    type V = CopyActionView;

    open spec fn view(&self) -> CopyActionView {
        match self {
            CopyAction::Inspect(p) => CopyActionView::Inspect(p@),
            CopyAction::MakeDirAll(p) => CopyActionView::MakeDirAll(p@),
            CopyAction::WriteFile(p, b) => CopyActionView::WriteFile(p@, b@),
            CopyAction::Probe(p) => CopyActionView::Probe(p@),
            CopyAction::CopyFile(f, t) => CopyActionView::CopyFile(f@, t@),
            CopyAction::Fail(e) => CopyActionView::Fail(*e),
            CopyAction::Finished => CopyActionView::Finished,
        }
    }
}

impl View for CopyStage {
    type V = StageView;

    open spec fn view(&self) -> StageView {
        match self {
            CopyStage::Starting(f, t) => StageView::Starting(f@, t@),
            CopyStage::Inspecting(f, t) => StageView::Inspecting(f@, t@),
            CopyStage::Placing(f, t, c) => StageView::Placing(f@, t@, c@),
            CopyStage::AwaitingDone => StageView::AwaitingDone,
            CopyStage::Recorded(f, b) => StageView::Recorded(f@, b@),
            CopyStage::Probing(f, b) => StageView::Probing(f@, b@),
            CopyStage::Storing(f, b) => StageView::Storing(f@, b@),
            CopyStage::Over => StageView::Over,
        }
    }
}

/// A copy of the tree at one path to another, under a cache root: it walks
/// directories depth first, in the order of their entries, and copies each
/// regular file as its plan says.
pub struct TreeCopy {
    cache: String,
    pending: Vec<(String, String)>,
    stage: CopyStage,
}

pub struct TreeCopyView {
    pub cache: Seq<char>,
    /// Paths still to copy, each with its destination; the last comes next.
    pub pending: Seq<(Seq<char>, Seq<char>)>,
    pub stage: StageView,
}

impl View for TreeCopy {
    type V = TreeCopyView;

    closed spec fn view(&self) -> TreeCopyView {
        TreeCopyView {
            cache: self.cache@,
            pending: self.pending@.map_values(|p: (String, String)| (p.0@, p.1@)),
            stage: self.stage@,
        }
    }
}

/// The entries `names` of the directory `from`, copied to `to`, in the order
/// in which they are pushed so that the first entry comes next.
pub open spec fn children(from: Seq<char>, to: Seq<char>, names: Seq<Seq<char>>) -> Seq<
    (Seq<char>, Seq<char>),
> {
    Seq::new(
        names.len(),
        |k: int|
            (
                from + seq!['/'] + names[names.len() - 1 - k],
                collapse_slashes(to + seq!['/'] + names[names.len() - 1 - k]),
            ),
    )
}

/// Moves on to the next pending path, or finishes.
pub open spec fn advance(cache: Seq<char>, pending: Seq<(Seq<char>, Seq<char>)>) -> (
    TreeCopyView,
    CopyActionView,
) {
    if pending.len() == 0 {
        (TreeCopyView { cache, pending, stage: StageView::Over }, CopyActionView::Finished)
    } else {
        (
            TreeCopyView {
                cache,
                pending: pending.drop_last(),
                stage: StageView::Inspecting(pending.last().0, pending.last().1),
            },
            CopyActionView::Inspect(pending.last().0),
        )
    }
}

/// The events that a tree copy can take in state `s`.
pub open spec fn copy_accepts(s: TreeCopyView, e: CopyEventView) -> bool {
    match s.stage {
        StageView::Starting(_, _) => e is Absent || e is Directory || e is File,
        StageView::Inspecting(_, _) => e is Absent || e is Directory || e is File,
        StageView::Probing(_, _) => e is Present,
        StageView::Over => false,
        _ => e is Done,
    }
}

/// The next state and action of a tree copy in state `s` on the event `e`.
/// The step for a regular file at `from` with contents `c`, copied to `to`:
/// what its plan says.
pub open spec fn file_step(
    cache: Seq<char>,
    pending: Seq<(Seq<char>, Seq<char>)>,
    from: Seq<char>,
    to: Seq<char>,
    c: Seq<u8>,
) -> (TreeCopyView, CopyActionView) {
    match plan_of(cache, c) {
        None => (
            TreeCopyView { cache, pending, stage: StageView::Over },
            CopyActionView::Fail(CacheError::InvalidHash),
        ),
        Some(Plan::Verbatim) => (
            TreeCopyView {
                cache,
                pending,
                stage: StageView::AwaitingDone,
            },
            CopyActionView::CopyFile(from, to),
        ),
        Some(Plan::Restore(blob)) => (
            TreeCopyView {
                cache,
                pending,
                stage: StageView::AwaitingDone,
            },
            CopyActionView::CopyFile(blob, to),
        ),
        Some(Plan::Deduplicate(record, blob)) => (
            TreeCopyView {
                cache,
                pending,
                stage: StageView::Recorded(from, blob),
            },
            CopyActionView::WriteFile(to, record),
        ),
    }
}

/// The step once it is known what is at `from`, which is copied to `to`.
pub open spec fn inspected(s: TreeCopyView, from: Seq<char>, to: Seq<char>, e: CopyEventView) -> (
    TreeCopyView,
    CopyActionView,
) {
    match e {
        CopyEventView::Directory(names) => (
            TreeCopyView {
                cache: s.cache,
                pending: s.pending + children(from, to, names),
                stage: StageView::AwaitingDone,
            },
            CopyActionView::MakeDirAll(to),
        ),
        CopyEventView::File(c) => file_step(s.cache, s.pending, from, to, c),
        _ => advance(s.cache, s.pending),
    }
}

/// A copy that starts at a regular file first makes the directory that
/// holds its destination, unless that is the current directory or the root.
pub open spec fn needs_parent(to: Seq<char>) -> bool {
    parent_of(to) matches Some(p) && p.len() > 0
}

pub open spec fn copy_next(s: TreeCopyView, e: CopyEventView) -> (TreeCopyView, CopyActionView) {
    match s.stage {
        StageView::Starting(from, to) => match e {
            CopyEventView::File(c) => if needs_parent(to) {
                (
                    TreeCopyView {
                        cache: s.cache,
                        pending: s.pending,
                        stage: StageView::Placing(from, to, c),
                    },
                    CopyActionView::MakeDirAll(parent_of(to)->0),
                )
            } else {
                file_step(s.cache, s.pending, from, to, c)
            },
            _ => inspected(s, from, to, e),
        },
        StageView::Inspecting(from, to) => inspected(s, from, to, e),
        StageView::Placing(from, to, c) => file_step(s.cache, s.pending, from, to, c),
        StageView::Recorded(from, blob) => (
            TreeCopyView { cache: s.cache, pending: s.pending, stage: StageView::Probing(from, blob) },
            CopyActionView::Probe(blob),
        ),
        StageView::Probing(from, blob) => match e {
            CopyEventView::Present(true) => advance(s.cache, s.pending),
            _ => (
                TreeCopyView {
                    cache: s.cache,
                    pending: s.pending,
                    stage: StageView::Storing(from, blob),
                },
                CopyActionView::MakeDirAll(large_files_dir(s.cache)),
            ),
        },
        StageView::Storing(from, blob) => (
            TreeCopyView { cache: s.cache, pending: s.pending, stage: StageView::AwaitingDone },
            CopyActionView::CopyFile(from, blob),
        ),
        _ => advance(s.cache, s.pending),
    }
}

impl TreeCopy {
    /// Starts copying the tree at `from` to `to` under the cache root
    /// `cache`: the first action inspects `from`.
    pub fn start(cache: &str, from: &str, to: &str) -> (r: (TreeCopy, CopyAction))
        ensures
            r.0@ == (TreeCopyView {
                cache: cache@,
                pending: seq![],
                stage: StageView::Starting(from@, to@),
            }),
            r.1@ == CopyActionView::Inspect(from@),
    {
        let walk = TreeCopy {
            cache: String::from_str(cache),
            pending: Vec::new(),
            stage: CopyStage::Starting(String::from_str(from), String::from_str(to)),
        };
        assert(walk@.pending =~= seq![]);
        (walk, CopyAction::Inspect(String::from_str(from)))
    }

    fn advance(&mut self) -> (r: CopyAction)
        ensures
            (final(self)@, r@) == advance(old(self)@.cache, old(self)@.pending),
    {
        match self.pending.pop() {
            None => {
                self.stage = CopyStage::Over;
                CopyAction::Finished
            },
            Some((from, to)) => {
                let next = CopyAction::Inspect(from.clone());
                self.stage = CopyStage::Inspecting(from, to);
                proof {
                    assert(self@.pending =~= old(self)@.pending.drop_last());
                }
                next
            },
        }
    }

    fn push_children(&mut self, from: &str, to: &str, names: &Vec<String>)
        ensures
            final(self)@.pending == old(self)@.pending + children(from@, to@, names_view(names@)),
            final(self)@.cache == old(self)@.cache,
            final(self).stage == old(self).stage,
    {
        let ghost start = self@.pending;
        let ghost views = names_view(names@);
        let n = names.len();
        let mut i: usize = n;
        while i > 0
            invariant
                i <= n,
                n == names@.len(),
                views == names_view(names@),
                self@.cache == old(self)@.cache,
                self.stage == old(self).stage,
                self@.pending =~= start + children(from@, to@, views).take(n - i),
            decreases i,
        {
            i -= 1;
            let name = names[i].as_str();
            let pair = (source_child(from, name), destination_child(to, name));
            let ghost before = self.pending@;
            self.pending.push(pair);
            proof {
                assert(self.pending@ =~= before.push(pair));
                assert(self@.pending =~= before.map_values(|p: (String, String)| (p.0@, p.1@)).push(
                    (pair.0@, pair.1@),
                ));
                assert(views[i as int] == names@[i as int]@);
                assert(children(from@, to@, views).take(n - i) =~= children(from@, to@, views).take(
                    n - i - 1,
                ).push(children(from@, to@, views)[n - i - 1]));
            }
        }
        assert(children(from@, to@, views).take(n as int) =~= children(from@, to@, views));
    }

    fn on_file(&mut self, from: String, to: String, contents: Vec<u8>) -> (r: CopyAction)
        requires
            old(self)@.stage is Over,
        ensures
            (final(self)@, r@) == file_step(
                old(self)@.cache,
                old(self)@.pending,
                from@,
                to@,
                contents@,
            ),
    {
        match plan_file(self.cache.as_str(), contents.as_slice()) {
            Err(e) => CopyAction::Fail(e),
            Ok(FileAction::CopyVerbatim) => {
                self.stage = CopyStage::AwaitingDone;
                CopyAction::CopyFile(from, to)
            },
            Ok(FileAction::Restore { blob }) => {
                self.stage = CopyStage::AwaitingDone;
                CopyAction::CopyFile(blob, to)
            },
            Ok(FileAction::Deduplicate { record, blob }) => {
                self.stage = CopyStage::Recorded(from, blob);
                CopyAction::WriteFile(to, record)
            },
        }
    }

    fn on_inspected(&mut self, from: String, to: String, e: CopyEvent) -> (r: CopyAction)
        requires
            old(self)@.stage is Over,
        ensures
            (final(self)@, r@) == inspected(old(self)@, from@, to@, e@),
    {
        match e {
            CopyEvent::Directory(names) => {
                self.push_children(from.as_str(), to.as_str(), &names);
                self.stage = CopyStage::AwaitingDone;
                CopyAction::MakeDirAll(to)
            },
            CopyEvent::File(contents) => self.on_file(from, to, contents),
            _ => self.advance(),
        }
    }

    /// Takes in one event and decides what comes next.
    pub fn step(&mut self, e: CopyEvent) -> (r: CopyAction)
        requires
            copy_accepts(old(self)@, e@),
        ensures
            (final(self)@, r@) == copy_next(old(self)@, e@),
    {
        let mut stage = CopyStage::Over;
        core::mem::swap(&mut self.stage, &mut stage);
        match stage {
            CopyStage::Starting(from, to) => match e {
                CopyEvent::File(contents) => match parent_dir(to.as_str()) {
                    Some(p) => if p.as_str().unicode_len() > 0 {
                        self.stage = CopyStage::Placing(from, to, contents);
                        CopyAction::MakeDirAll(p)
                    } else {
                        self.on_file(from, to, contents)
                    },
                    None => self.on_file(from, to, contents),
                },
                _ => self.on_inspected(from, to, e),
            },
            CopyStage::Inspecting(from, to) => self.on_inspected(from, to, e),
            CopyStage::Placing(from, to, contents) => self.on_file(from, to, contents),
            CopyStage::Recorded(from, blob) => {
                let next = CopyAction::Probe(blob.clone());
                self.stage = CopyStage::Probing(from, blob);
                next
            },
            CopyStage::Probing(from, blob) => match e {
                CopyEvent::Present(true) => self.advance(),
                _ => {
                    self.stage = CopyStage::Storing(from, blob);
                    CopyAction::MakeDirAll(large_files_path(self.cache.as_str()))
                },
            },
            CopyStage::Storing(from, blob) => {
                self.stage = CopyStage::AwaitingDone;
                CopyAction::CopyFile(from, blob)
            },
            _ => self.advance(),
        }
    }
}

/// Copying a path that does not exist does nothing: the walk inspects it,
/// learns that it is absent, and finishes without asking for any change.
pub proof fn law_missing_source_is_a_no_op(cache: Seq<char>, from: Seq<char>, to: Seq<char>)
    ensures
        copy_next(
            TreeCopyView { cache, pending: seq![], stage: StageView::Starting(from, to) },
            CopyEventView::Absent,
        ) == (
            TreeCopyView { cache, pending: seq![], stage: StageView::Over },
            CopyActionView::Finished,
        ),
{
}
/// Runs a tree copy from state `s` and action `a` to its end, in a world that
/// maps the path of each regular file to its content (directories are left
/// out), for at most `fuel` actions: the world afterwards, or `None` where the
/// copy fails or does not end in time.
pub open spec fn drive(
    s: TreeCopyView,
    a: CopyActionView,
    w: Map<Seq<char>, Seq<u8>>,
    fuel: nat,
) -> Option<Map<Seq<char>, Seq<u8>>>
    decreases fuel,
{
    if fuel == 0 {
        None
    } else {
        match a {
            CopyActionView::Finished => Some(w),
            CopyActionView::Fail(_) => None,
            CopyActionView::Inspect(p) => {
                let e = if w.contains_key(p) {
                    CopyEventView::File(w[p])
                } else {
                    CopyEventView::Absent
                };
                drive(copy_next(s, e).0, copy_next(s, e).1, w, (fuel - 1) as nat)
            },
            CopyActionView::MakeDirAll(_) => drive(
                copy_next(s, CopyEventView::Done).0,
                copy_next(s, CopyEventView::Done).1,
                w,
                (fuel - 1) as nat,
            ),
            CopyActionView::WriteFile(p, b) => drive(
                copy_next(s, CopyEventView::Done).0,
                copy_next(s, CopyEventView::Done).1,
                w.insert(p, b),
                (fuel - 1) as nat,
            ),
            CopyActionView::Probe(p) => drive(
                copy_next(s, CopyEventView::Present(w.contains_key(p))).0,
                copy_next(s, CopyEventView::Present(w.contains_key(p))).1,
                w,
                (fuel - 1) as nat,
            ),
            CopyActionView::CopyFile(x, y) => if w.contains_key(x) {
                drive(
                    copy_next(s, CopyEventView::Done).0,
                    copy_next(s, CopyEventView::Done).1,
                    w.insert(y, w[x]),
                    (fuel - 1) as nat,
                )
            } else {
                None
            },
        }
    }
}

/// The tree copy of one regular file does what `copy_outcome` describes, with
/// the world's files as the blobs: the destination gets what the model
/// stores there and the blobs change as the model says, and the copy fails
/// exactly where the model does. (The file is not its own destination, and
/// where its content goes to a blob, that blob is not the destination either.)
pub proof fn law_file_copy_follows_model(
    cache: Seq<char>,
    from: Seq<char>,
    to: Seq<char>,
    w: Map<Seq<char>, Seq<u8>>,
)
    requires
        w.contains_key(from),
        from != to,
        looks_like_pointer(w[from]) || w[from].len() < DEDUPLICATE_LARGER_THAN || to
            != blob_path(cache, digest_hex(w[from])),
    ensures
        drive(
            TreeCopyView { cache, pending: seq![], stage: StageView::Starting(from, to) },
            CopyActionView::Inspect(from),
            w,
            9,
        ) == match copy_outcome(cache, w[from], w) {
            Some((stored, after)) => Some(after.insert(to, stored)),
            None => None::<Map<Seq<char>, Seq<u8>>>,
        },
{
    let c = w[from];
    let b = blob_path(cache, digest_hex(c));
    reveal_with_fuel(drive, 9);
    match plan_of(cache, c) {
        Some(Plan::Deduplicate(r, bb)) => {
            assert(bb == b);
            let w1 = w.insert(to, r);
            assert(w1[from] == c);
            assert(w1.contains_key(b) == w.contains_key(b));
            assert(w1.insert(b, c) =~= w.insert(b, c).insert(to, r));
        },
        _ => {},
    }
}

/// Saving a file with the tree copy, removing it, and loading it back with
/// the tree copy restores its contents. This holds for every file that is not
/// itself read as a pointer record, where neither the file nor its place in
/// the cache is the blob for its content, and that blob, if present, holds
/// that content.
pub proof fn law_walk_round_trip(
    cache: Seq<char>,
    from: Seq<char>,
    to: Seq<char>,
    w: Map<Seq<char>, Seq<u8>>,
)
    requires
        w.contains_key(from),
        from != to,
        !looks_like_pointer(w[from]),
        w[from].len() >= DEDUPLICATE_LARGER_THAN ==> {
            let b = blob_path(cache, digest_hex(w[from]));
            &&& from != b
            &&& to != b
            &&& w.contains_key(b) ==> w[b] == w[from]
        },
    ensures
        drive(
            TreeCopyView { cache, pending: seq![], stage: StageView::Starting(from, to) },
            CopyActionView::Inspect(from),
            w,
            9,
        ) matches Some(saved) && drive(
            TreeCopyView { cache, pending: seq![], stage: StageView::Starting(to, from) },
            CopyActionView::Inspect(to),
            saved.remove(from),
            9,
        ) matches Some(loaded) && loaded.contains_key(from) && loaded[from] == w[from],
{
    let c = w[from];
    law_file_copy_follows_model(cache, from, to, w);
    crate::cache::law_round_trip(cache, c, w);
    let (stored, after) = copy_outcome(cache, c, w).unwrap();
    let saved = after.insert(to, stored);
    let m = saved.remove(from);
    crate::cache::law_threshold(cache, c, w);
    if c.len() >= DEDUPLICATE_LARGER_THAN {
        crate::cache::lemma_record_of_digest(c);
        let b = blob_path(cache, digest_hex(c));
        assert(after.contains_key(b) && after[b] == c);
        assert(m.contains_key(b) && m[b] == c);
    }
    law_file_copy_follows_model(cache, to, from, m);
}

} // verus!
