//! Resolution of component paths into remote objects.
//!
//! The device protocol has no native path concept: only parent/child object
//! IDs, one property fetch or one enumeration step per round trip.  The
//! resolver therefore walks a path one component at a time, and since every
//! step needs a device answer, it is written as an explicit state machine:
//! the surrounding shell performs the round trip a [`WalkRequest`] asks for
//! and feeds the plain answer back in.  Nothing is cached — the device is a
//! shared, externally mutable medium, and every walk re-validates against
//! the live tree.
//!
//! The meaning of a whole walk is pinned by [`resolve_in`], a mathematical
//! resolution over a snapshot of the tree ([`Tree`]), and the machine is
//! proved to compute exactly that resolution whenever its answers come from
//! such a snapshot ([`lemma_walk_resolves`]).

use vstd::prelude::*;
use crate::error::{ItemByPathError, WinError};
use crate::object::{ObjView, ObjectInfo, ObjectType};
use crate::path::{has_drive_prefix, is_sep, spec_parse, PathComp, PathComponent};
use crate::utils::{are_path_eq, spec_names_match};

verus! {

// ---------------------------------------------------------------------------
// The mathematical model of a device tree snapshot.
// ---------------------------------------------------------------------------

/// A snapshot of the remote content tree: what the device would answer at
/// one instant.  IDs are opaque character sequences; `kids` lists children
/// in the device's enumeration order; the root has no entry in `parent`.
pub struct Tree {
    pub names: Map<Seq<char>, Seq<char>>,
    pub types: Map<Seq<char>, ObjectType>,
    pub kids: Map<Seq<char>, Seq<Seq<char>>>,
    pub parent: Map<Seq<char>, Seq<char>>,
    pub case_sensitive: bool,
}

/// A well-formed snapshot: every object has a name, a type and a child
/// list; every listed child and every parent is itself an object.
pub open spec fn tree_wf(t: Tree) -> bool {
    &&& t.types.dom() == t.names.dom()
    &&& t.kids.dom() == t.names.dom()
    &&& t.parent.dom().subset_of(t.names.dom())
    &&& forall|id: Seq<char>, k: int|
        t.kids.contains_key(id) && 0 <= k < t.kids[id].len() ==> t.names.contains_key(
            #[trigger] t.kids[id][k],
        )
    &&& forall|id: Seq<char>|
        t.parent.contains_key(id) ==> t.names.contains_key(#[trigger] t.parent[id])
}

/// The snapshot of the object with this ID.
pub open spec fn obj_of(t: Tree, id: Seq<char>) -> ObjView {
    ObjView { id, name: t.names[id], ty: t.types[id] }
}

/// The first child in `ids` whose name matches `target` under the tree's
/// case policy.  First match wins: if the device carries several same-named
/// children, the later ones are unreachable by path — a protocol limitation
/// that is kept, not fixed.
pub open spec fn find_child(t: Tree, ids: Seq<Seq<char>>, target: Seq<char>) -> Option<Seq<char>>
    decreases ids.len(),
{
    if ids.len() == 0 {
        None
    } else if spec_names_match(t.case_sensitive, t.names[ids[0]], target) {
        Some(ids[0])
    } else {
        find_child(t, ids.drop_first(), target)
    }
}

/// The object one component leads to from `at`, or the failure it causes.
pub open spec fn step_candidate(t: Tree, at: Seq<char>, comp: PathComp) -> Result<
    Seq<char>,
    ItemByPathError,
> {
    match comp {
        PathComp::Absolute => Err(ItemByPathError::AbsolutePath),
        PathComp::CurrentDir => Ok(at),
        PathComp::ParentDir => if t.parent.contains_key(at) {
            Ok(t.parent[at])
        } else {
            Err(ItemByPathError::NotFound)
        },
        PathComp::Named(target) => match find_child(t, t.kids[at], target) {
            Some(kid) => Ok(kid),
            None => Err(ItemByPathError::NotFound),
        },
    }
}

/// Resolution of a component sequence against a tree snapshot, starting at
/// the object `at`: the meaning of a whole path walk.
///
/// An empty sequence is no valid target and fails with `NotFound`; one
/// component is consumed per step, and the candidate the last component
/// leads to is the result.
pub open spec fn resolve_in(t: Tree, at: Seq<char>, comps: Seq<PathComp>) -> Result<
    Seq<char>,
    ItemByPathError,
>
    decreases comps.len(),
{
    if comps.len() == 0 {
        Err(ItemByPathError::NotFound)
    } else {
        match step_candidate(t, at, comps[0]) {
            Err(e) => Err(e),
            Ok(next) => if comps.len() == 1 {
                Ok(next)
            } else {
                resolve_in(t, next, comps.drop_first())
            },
        }
    }
}

// ---------------------------------------------------------------------------
// The walk machine.
// ---------------------------------------------------------------------------

/// What the machine needs next from the device.
#[derive(Debug)]
pub enum WalkRequest {
    /// A component was consumed without device work; call `step` again.
    Continue,
    /// Start enumerating the children of the object with this ID and feed
    /// them in one at a time with `offer_child`; feed `None` when the
    /// enumeration is exhausted.
    ChildrenOf { parent_id: String },
    /// Fetch the parent of the object with this ID and feed it in with
    /// `offer_parent`; feed `None` if the object has no parent.
    ParentOf { id: String },
    /// The walk is over; take the outcome.
    Finished,
}

/// Where the machine stands.
#[derive(Debug, Clone, Copy, PartialEq, Eq, Structural)]
pub enum WalkPhase {
    /// The next component can be consumed without device input yet.
    Ready,
    /// A named component is being matched against the children of the
    /// current object as they arrive.
    Scanning,
    /// The parent of the current object has been asked for.
    AwaitingParent,
    /// The walk is over.
    Finished,
}

/// The machine's state, mathematically.
pub struct WalkView {
    pub case_sensitive: bool,
    pub current: ObjView,
    pub comps: Seq<PathComp>,
    pub idx: int,
    pub phase: WalkPhase,
    pub outcome: Option<Result<ObjView, ItemByPathError>>,
}

/// A path walk in progress: the verified core of path resolution.
///
/// The shell constructs one with [`PathWalk::start`], then repeatedly calls
/// [`PathWalk::step`] and answers the requests with [`PathWalk::offer_child`],
/// [`PathWalk::offer_parent`] or [`PathWalk::fail_transport`], until the
/// phase is `Finished`.
#[derive(Debug)]
pub struct PathWalk {
    case_sensitive: bool,
    current: ObjectInfo,
    comps: Vec<PathComponent>,
    idx: usize,
    phase: WalkPhase,
    outcome: Option<Result<ObjectInfo, ItemByPathError>>,
}

impl View for PathWalk {
    type V = WalkView;

    closed spec fn view(&self) -> WalkView {
        WalkView {
            case_sensitive: self.case_sensitive,
            current: self.current@,
            comps: self.comps@.map_values(|c: PathComponent| c@),
            idx: self.idx as int,
            phase: self.phase,
            outcome: match self.outcome {
                None => None,
                Some(Ok(o)) => Some(Ok(o@)),
                Some(Err(e)) => Some(Err(e)),
            },
        }
    }
}

/// The machine states that can arise.
pub open spec fn walk_wf(w: WalkView) -> bool {
    &&& 0 <= w.idx <= w.comps.len()
    &&& (w.phase == WalkPhase::Finished <==> w.outcome is Some)
    &&& (w.phase == WalkPhase::Scanning ==> w.idx < w.comps.len() && w.comps[w.idx] is Named)
    &&& (w.phase == WalkPhase::AwaitingParent ==> w.idx < w.comps.len() && w.comps[w.idx]
        == PathComp::ParentDir)
}

/// The state a walk starts in.
pub open spec fn spec_start(origin: ObjView, comps: Seq<PathComp>, case_sensitive: bool) -> WalkView {
    WalkView {
        case_sensitive,
        current: origin,
        comps,
        idx: 0,
        phase: WalkPhase::Ready,
        outcome: None,
    }
}

/// The state after the walk ends with `r`.
pub open spec fn spec_finish(w: WalkView, r: Result<ObjView, ItemByPathError>) -> WalkView {
    WalkView { phase: WalkPhase::Finished, outcome: Some(r), ..w }
}

/// The state after the component under `idx` was consumed and led to
/// `candidate`: either more components remain, or the candidate is the
/// result.
pub open spec fn spec_advance(w: WalkView, candidate: ObjView) -> WalkView {
    if w.idx + 1 == w.comps.len() {
        WalkView {
            current: candidate,
            idx: w.idx + 1,
            phase: WalkPhase::Finished,
            outcome: Some(Ok(candidate)),
            ..w
        }
    } else {
        WalkView { current: candidate, idx: w.idx + 1, phase: WalkPhase::Ready, ..w }
    }
}

/// One `Ready` step: consume what needs no device answer, or move to the
/// phase that asks for one.
pub open spec fn spec_step(w: WalkView) -> WalkView {
    if w.idx >= w.comps.len() {
        spec_finish(w, Err(ItemByPathError::NotFound))
    } else {
        match w.comps[w.idx] {
            PathComp::Absolute => spec_finish(w, Err(ItemByPathError::AbsolutePath)),
            PathComp::CurrentDir => spec_advance(w, w.current),
            PathComp::ParentDir => WalkView { phase: WalkPhase::AwaitingParent, ..w },
            PathComp::Named(_) => WalkView { phase: WalkPhase::Scanning, ..w },
        }
    }
}

/// The state after one enumerated child (or the end of the enumeration)
/// was offered while scanning for a named component.
pub open spec fn spec_offer_child(w: WalkView, child: Option<ObjView>) -> WalkView {
    match child {
        None => spec_finish(w, Err(ItemByPathError::NotFound)),
        Some(c) => if spec_names_match(w.case_sensitive, c.name, w.comps[w.idx]->Named_0) {
            spec_advance(w, c)
        } else {
            w
        },
    }
}

/// The state after the parent answer arrived: no parent means the walk was
/// at the tree's root, where `..` has nowhere to go.
pub open spec fn spec_offer_parent(w: WalkView, parent: Option<ObjView>) -> WalkView {
    match parent {
        None => spec_finish(w, Err(ItemByPathError::NotFound)),
        Some(p) => spec_advance(w, p),
    }
}

impl PathWalk {
    /// Begin a walk of `comps` from `origin` under the session's case
    /// policy.
    pub fn start(origin: ObjectInfo, comps: Vec<PathComponent>, case_sensitive: bool) -> (r: Self)
        ensures
            r@ == spec_start(origin@, comps@.map_values(|c: PathComponent| c@), case_sensitive),
            walk_wf(r@),
    {
        PathWalk {
            case_sensitive,
            current: origin,
            comps,
            idx: 0,
            phase: WalkPhase::Ready,
            outcome: None,
        }
    }

    /// Where the machine stands.
    pub fn phase(&self) -> (r: WalkPhase)
        ensures
            r == self@.phase,
    {
        self.phase
    }

    /// Consume the next component as far as no device answer is needed,
    /// and say what is needed now.
    pub fn step(&mut self) -> (r: WalkRequest)
        requires
            walk_wf(old(self)@),
            old(self)@.phase == WalkPhase::Ready,
        ensures
            walk_wf(final(self)@),
            final(self)@ == spec_step(old(self)@),
            (final(self)@.phase == WalkPhase::Ready <==> r is Continue),
            (final(self)@.phase == WalkPhase::Scanning <==> r is ChildrenOf),
            (final(self)@.phase == WalkPhase::AwaitingParent <==> r is ParentOf),
            (final(self)@.phase == WalkPhase::Finished <==> r is Finished),
            r matches WalkRequest::ChildrenOf { parent_id } ==> parent_id@ == old(self)@.current.id,
            r matches WalkRequest::ParentOf { id } ==> id@ == old(self)@.current.id,
    {
        if self.idx >= self.comps.len() {
            self.phase = WalkPhase::Finished;
            self.outcome = Some(Err(ItemByPathError::NotFound));
            WalkRequest::Finished
        } else {
            match &self.comps[self.idx] {
                PathComponent::Absolute => {
                    self.phase = WalkPhase::Finished;
                    self.outcome = Some(Err(ItemByPathError::AbsolutePath));
                    WalkRequest::Finished
                },
                PathComponent::CurrentDir => {
                    let candidate = self.current.clone();
                    self.advance(candidate)
                },
                PathComponent::ParentDir => {
                    self.phase = WalkPhase::AwaitingParent;
                    WalkRequest::ParentOf { id: self.current.id.clone() }
                },
                PathComponent::Named(_) => {
                    self.phase = WalkPhase::Scanning;
                    WalkRequest::ChildrenOf { parent_id: self.current.id.clone() }
                },
            }
        }
    }

    /// Consume the component under `idx` with its candidate object.
    fn advance(&mut self, candidate: ObjectInfo) -> (r: WalkRequest)
        requires
            walk_wf(old(self)@),
            old(self)@.phase != WalkPhase::Finished,
            old(self)@.idx < old(self)@.comps.len(),
        ensures
            walk_wf(final(self)@),
            final(self)@ == spec_advance(old(self)@, candidate@),
            (final(self)@.phase == WalkPhase::Ready <==> r is Continue),
            (final(self)@.phase == WalkPhase::Finished <==> r is Finished),
            !(r is ChildrenOf),
            !(r is ParentOf),
    {
        let n = self.comps.len();
        self.idx = self.idx + 1;
        if self.idx == n {
            self.outcome = Some(Ok(candidate.clone()));
            self.current = candidate;
            self.phase = WalkPhase::Finished;
            WalkRequest::Finished
        } else {
            self.current = candidate;
            self.phase = WalkPhase::Ready;
            WalkRequest::Continue
        }
    }

    /// Feed in the next enumerated child, or `None` when the enumeration
    /// ended without a match.  The first matching child wins; a
    /// non-matching one leaves the machine waiting for the next.
    pub fn offer_child(&mut self, child: Option<ObjectInfo>) -> (r: WalkRequest)
        requires
            walk_wf(old(self)@),
            old(self)@.phase == WalkPhase::Scanning,
        ensures
            walk_wf(final(self)@),
            final(self)@ == spec_offer_child(
                old(self)@,
                match child {
                    None => None,
                    Some(c) => Some(c@),
                },
            ),
            (final(self)@.phase == WalkPhase::Ready <==> r is Continue),
            (final(self)@.phase == WalkPhase::Scanning <==> r is ChildrenOf),
            (final(self)@.phase == WalkPhase::Finished <==> r is Finished),
            r matches WalkRequest::ChildrenOf { parent_id } ==> parent_id@ == old(self)@.current.id,
            !(r is ParentOf),
    {
        match child {
            None => {
                self.phase = WalkPhase::Finished;
                self.outcome = Some(Err(ItemByPathError::NotFound));
                WalkRequest::Finished
            },
            Some(c) => {
                let matched: bool = match &self.comps[self.idx] {
                    PathComponent::Named(target) => are_path_eq(
                        c.name.as_str(),
                        target.as_str(),
                        self.case_sensitive,
                    ),
                    _ => false,
                };
                if matched {
                    self.advance(c)
                } else {
                    WalkRequest::ChildrenOf { parent_id: self.current.id.clone() }
                }
            },
        }
    }

    /// Feed in the parent answer: the parent object, or `None` if the walk
    /// stood at the tree's root, which has no parent.
    pub fn offer_parent(&mut self, parent: Option<ObjectInfo>) -> (r: WalkRequest)
        requires
            walk_wf(old(self)@),
            old(self)@.phase == WalkPhase::AwaitingParent,
        ensures
            walk_wf(final(self)@),
            final(self)@ == spec_offer_parent(
                old(self)@,
                match parent {
                    None => None,
                    Some(p) => Some(p@),
                },
            ),
            (final(self)@.phase == WalkPhase::Ready <==> r is Continue),
            (final(self)@.phase == WalkPhase::Finished <==> r is Finished),
            !(r is ChildrenOf),
            !(r is ParentOf),
    {
        match parent {
            None => {
                self.phase = WalkPhase::Finished;
                self.outcome = Some(Err(ItemByPathError::NotFound));
                WalkRequest::Finished
            },
            Some(p) => self.advance(p),
        }
    }

    /// Report that the round trip a request asked for failed.  The failure
    /// is surfaced verbatim as the walk's outcome; nothing is retried.
    pub fn fail_transport(&mut self, err: WinError)
        requires
            walk_wf(old(self)@),
            old(self)@.phase != WalkPhase::Finished,
        ensures
            walk_wf(final(self)@),
            final(self)@ == spec_finish(old(self)@, Err(ItemByPathError::Windows(err))),
    {
        self.phase = WalkPhase::Finished;
        self.outcome = Some(Err(ItemByPathError::Windows(err)));
    }

    /// Take the outcome of a finished walk.
    pub fn into_outcome(self) -> (r: Result<ObjectInfo, ItemByPathError>)
        requires
            walk_wf(self@),
            self@.phase == WalkPhase::Finished,
        ensures
            self@.outcome == Some(
                match r {
                    Ok(o) => Result::<ObjView, ItemByPathError>::Ok(o@),
                    Err(e) => Result::<ObjView, ItemByPathError>::Err(e),
                },
            ),
    {
        match self.outcome {
            Some(r) => r,
            None => vstd::pervasive::unreached(),
        }
    }
}

// ---------------------------------------------------------------------------
// The machine computes exactly the mathematical resolution.
// ---------------------------------------------------------------------------

/// Rank of a phase between two consumed components, for termination.
pub open spec fn phase_rank(p: WalkPhase) -> int {
    match p {
        WalkPhase::Ready => 2,
        WalkPhase::AwaitingParent => 1,
        WalkPhase::Scanning => 1,
        WalkPhase::Finished => 0,
    }
}

/// The outcome the machine reaches when every request is answered from the
/// snapshot `t`: children of the current object arrive one at a time (the
/// not-yet-offered ones are `pending`), the parent answer comes from the
/// snapshot's parent relation, and no transport failure occurs.
pub open spec fn run_in_tree(t: Tree, w: WalkView, pending: Seq<Seq<char>>) -> Result<
    ObjView,
    ItemByPathError,
>
    decreases w.comps.len() - w.idx, phase_rank(w.phase), pending.len(),
{
    if !walk_wf(w) {
        Err(ItemByPathError::NotFound)
    } else {
        match w.phase {
            WalkPhase::Finished => w.outcome->0,
            WalkPhase::Ready => {
                let w2 = spec_step(w);
                if w2.phase == WalkPhase::Scanning {
                    run_in_tree(t, w2, t.kids[w.current.id])
                } else {
                    run_in_tree(t, w2, Seq::empty())
                }
            },
            WalkPhase::AwaitingParent => {
                let answer = if t.parent.contains_key(w.current.id) {
                    Some(obj_of(t, t.parent[w.current.id]))
                } else {
                    None
                };
                run_in_tree(t, spec_offer_parent(w, answer), Seq::empty())
            },
            WalkPhase::Scanning => {
                if pending.len() == 0 {
                    run_in_tree(t, spec_offer_child(w, None), Seq::empty())
                } else {
                    run_in_tree(
                        t,
                        spec_offer_child(w, Some(obj_of(t, pending[0]))),
                        pending.drop_first(),
                    )
                }
            },
        }
    }
}

/// The machine's outcome and the mathematical resolution agree: same
/// object (with the snapshot's name and type), or the very same error.
pub open spec fn result_matches(
    t: Tree,
    got: Result<ObjView, ItemByPathError>,
    want: Result<Seq<char>, ItemByPathError>,
) -> bool {
    match (got, want) {
        (Ok(o), Ok(id)) => o == obj_of(t, id),
        (Err(e1), Err(e2)) => e1 == e2,
        _ => false,
    }
}

/// An unfinished machine state whose current object is an object of the
/// snapshot.
pub open spec fn state_in_tree(t: Tree, w: WalkView) -> bool {
    &&& w.case_sensitive == t.case_sensitive
    &&& t.names.contains_key(w.current.id)
    &&& w.current == obj_of(t, w.current.id)
}

proof fn lemma_run_refines(t: Tree, w: WalkView, pending: Seq<Seq<char>>)
    requires
        tree_wf(t),
        walk_wf(w),
        w.phase != WalkPhase::Finished ==> state_in_tree(t, w),
        w.phase == WalkPhase::Scanning ==> (forall|n: int|
            0 <= n < pending.len() ==> t.names.contains_key(#[trigger] pending[n])),
        w.phase == WalkPhase::Scanning ==> find_child(
            t,
            t.kids[w.current.id],
            w.comps[w.idx]->Named_0,
        ) == find_child(t, pending, w.comps[w.idx]->Named_0),
    ensures
        w.phase == WalkPhase::Finished ==> run_in_tree(t, w, pending) == w.outcome->0,
        w.phase != WalkPhase::Finished ==> result_matches(
            t,
            run_in_tree(t, w, pending),
            resolve_in(t, w.current.id, w.comps.skip(w.idx)),
        ),
    decreases w.comps.len() - w.idx, phase_rank(w.phase), pending.len(),
{
    let remaining = w.comps.skip(w.idx);
    match w.phase {
        WalkPhase::Finished => {
        },
        WalkPhase::Ready => {
            let w2 = spec_step(w);
            if w.idx >= w.comps.len() {
                assert(remaining.len() == 0);
                lemma_run_refines(t, w2, Seq::empty());
            } else {
                assert(remaining[0] == w.comps[w.idx]);
                match w.comps[w.idx] {
                    PathComp::Absolute => {
                        lemma_run_refines(t, w2, Seq::empty());
                    },
                    PathComp::CurrentDir => {
                        if w.idx + 1 == w.comps.len() {
                            lemma_run_refines(t, w2, Seq::empty());
                            assert(remaining.len() == 1);
                        } else {
                            lemma_run_refines(t, w2, Seq::empty());
                            assert(remaining.drop_first() =~= w.comps.skip(w.idx + 1));
                        }
                    },
                    PathComp::ParentDir => {
                        lemma_run_refines(t, w2, Seq::empty());
                    },
                    PathComp::Named(_) => {
                        lemma_run_refines(t, w2, t.kids[w.current.id]);
                    },
                }
            }
        },
        WalkPhase::AwaitingParent => {
            assert(remaining[0] == w.comps[w.idx]);
            if t.parent.contains_key(w.current.id) {
                let p = obj_of(t, t.parent[w.current.id]);
                let w2 = spec_offer_parent(w, Some(p));
                lemma_run_refines(t, w2, Seq::empty());
                if w.idx + 1 < w.comps.len() {
                    assert(remaining.drop_first() =~= w.comps.skip(w.idx + 1));
                }
            } else {
                let w2 = spec_offer_parent(w, None);
                lemma_run_refines(t, w2, Seq::empty());
            }
        },
        WalkPhase::Scanning => {
            let target = w.comps[w.idx]->Named_0;
            assert(remaining[0] == w.comps[w.idx]);
            if pending.len() == 0 {
                let w2 = spec_offer_child(w, None);
                lemma_run_refines(t, w2, Seq::empty());
            } else {
                let head = pending[0];
                let child = obj_of(t, head);
                let w2 = spec_offer_child(w, Some(child));
                if spec_names_match(t.case_sensitive, t.names[head], target) {
                    assert(find_child(t, pending, target) == Some(head));
                    lemma_run_refines(t, w2, pending.drop_first());
                    if w.idx + 1 < w.comps.len() {
                        assert(remaining.drop_first() =~= w.comps.skip(w.idx + 1));
                    }
                } else {
                    assert(find_child(t, pending, target) == find_child(
                        t,
                        pending.drop_first(),
                        target,
                    ));
                    assert(w2 == w);
                    lemma_run_refines(t, w2, pending.drop_first());
                }
            }
        },
    }
}

/// LAW: the walk machine is faithful.  When every request of a walk started
/// at an object of the snapshot `t` is answered from `t`, the machine's
/// outcome is exactly the mathematical resolution `resolve_in` of the
/// component sequence — the same object of the tree, or the very same error.
pub proof fn lemma_walk_resolves(t: Tree, origin: ObjView, comps: Seq<PathComp>)
    requires
        tree_wf(t),
        t.names.contains_key(origin.id),
        origin == obj_of(t, origin.id),
    ensures
        result_matches(
            t,
            run_in_tree(t, spec_start(origin, comps, t.case_sensitive), Seq::empty()),
            resolve_in(t, origin.id, comps),
        ),
{
    let w = spec_start(origin, comps, t.case_sensitive);
    lemma_run_refines(t, w, Seq::empty());
    assert(w.comps.skip(0) =~= comps);
}

// ---------------------------------------------------------------------------
// Laws of the mathematical resolution.
// ---------------------------------------------------------------------------

proof fn lemma_find_child_found(t: Tree, ids: Seq<Seq<char>>, target: Seq<char>)
    requires
        find_child(t, ids, target) is Some,
    ensures
        ids.contains(find_child(t, ids, target)->0),
        spec_names_match(t.case_sensitive, t.names[find_child(t, ids, target)->0], target),
    decreases ids.len(),
{
    if ids.len() > 0 {
        if spec_names_match(t.case_sensitive, t.names[ids[0]], target) {
        } else {
            lemma_find_child_found(t, ids.drop_first(), target);
            assert(ids.drop_first().contains(find_child(t, ids, target)->0));
            let i = choose|i: int|
                0 <= i < ids.drop_first().len() && ids.drop_first()[i] == find_child(
                    t,
                    ids,
                    target,
                )->0;
            assert(ids[i + 1] == find_child(t, ids, target)->0);
        }
    }
}

proof fn lemma_find_child_some(t: Tree, ids: Seq<Seq<char>>, target: Seq<char>)
    requires
        exists|i: int|
            0 <= i < ids.len() && spec_names_match(
                t.case_sensitive,
                t.names[#[trigger] ids[i]],
                target,
            ),
    ensures
        find_child(t, ids, target) is Some,
    decreases ids.len(),
{
    if !spec_names_match(t.case_sensitive, t.names[ids[0]], target) {
        let i = choose|i: int|
            0 <= i < ids.len() && spec_names_match(
                t.case_sensitive,
                t.names[#[trigger] ids[i]],
                target,
            );
        assert(ids.drop_first()[i - 1] == ids[i]);
        lemma_find_child_some(t, ids.drop_first(), target);
    }
}

proof fn lemma_find_child_none(t: Tree, ids: Seq<Seq<char>>, target: Seq<char>)
    requires
        forall|i: int|
            0 <= i < ids.len() ==> !spec_names_match(
                t.case_sensitive,
                t.names[#[trigger] ids[i]],
                target,
            ),
    ensures
        find_child(t, ids, target) is None,
    decreases ids.len(),
{
    if ids.len() > 0 {
        assert(ids.drop_first() =~= ids.subrange(1, ids.len() as int));
        lemma_find_child_none(t, ids.drop_first(), target);
    }
}

/// LAW: if the object `at` has a child whose name matches `target` under
/// the tree's case policy, then resolving the one-component path `target`
/// from `at` succeeds and returns a child whose name matches `target` under
/// that policy.
pub proof fn lemma_resolve_named_child(t: Tree, at: Seq<char>, target: Seq<char>)
    requires
        exists|i: int|
            0 <= i < t.kids[at].len() && spec_names_match(
                t.case_sensitive,
                t.names[#[trigger] t.kids[at][i]],
                target,
            ),
    ensures
        resolve_in(t, at, seq![PathComp::Named(target)]) is Ok,
        spec_names_match(
            t.case_sensitive,
            t.names[resolve_in(t, at, seq![PathComp::Named(target)])->Ok_0],
            target,
        ),
        t.kids[at].contains(resolve_in(t, at, seq![PathComp::Named(target)])->Ok_0),
{
    lemma_find_child_some(t, t.kids[at], target);
    lemma_find_child_found(t, t.kids[at], target);
}

/// LAW: resolving `.` from any object returns that very object.
pub proof fn lemma_resolve_current_dir(t: Tree, at: Seq<char>)
    ensures
        resolve_in(t, at, seq![PathComp::CurrentDir]) == Result::<
            Seq<char>,
            ItemByPathError,
        >::Ok(at),
{
}

/// LAW: resolving `..` from an object with a parent returns the parent;
/// from the tree's root, which has none, it fails with `NotFound`.
pub proof fn lemma_resolve_parent_dir(t: Tree, at: Seq<char>)
    ensures
        t.parent.contains_key(at) ==> resolve_in(t, at, seq![PathComp::ParentDir]) == Result::<
            Seq<char>,
            ItemByPathError,
        >::Ok(t.parent[at]),
        !t.parent.contains_key(at) ==> resolve_in(t, at, seq![PathComp::ParentDir]) == Result::<
            Seq<char>,
            ItemByPathError,
        >::Err(ItemByPathError::NotFound),
{
}

/// LAW: a `.` component anywhere in a path is a no-op — the path with it
/// resolves exactly as the path without it, wherever it stands, as long as
/// the path does not consist of that `.` alone.
pub proof fn lemma_current_dir_transparent(t: Tree, at: Seq<char>, c1: Seq<PathComp>, c2: Seq<
    PathComp,
>)
    requires
        c1.len() + c2.len() > 0,
    ensures
        resolve_in(t, at, c1 + seq![PathComp::CurrentDir] + c2) == resolve_in(t, at, c1 + c2),
    decreases c1.len(),
{
    if c1.len() == 0 {
        assert(c1 + seq![PathComp::CurrentDir] + c2 =~= seq![PathComp::CurrentDir] + c2);
        assert(c1 + c2 =~= c2);
        if c2.len() == 0 {
        } else {
            assert((seq![PathComp::CurrentDir] + c2)[0] == PathComp::CurrentDir);
            assert((seq![PathComp::CurrentDir] + c2).drop_first() =~= c2);
            assert(resolve_in(t, at, seq![PathComp::CurrentDir] + c2) == resolve_in(t, at, c2));
        }
    } else {
        let h = c1[0];
        let rest = c1.drop_first();
        let lhs = c1 + seq![PathComp::CurrentDir] + c2;
        let rhs = c1 + c2;
        assert(lhs[0] == h);
        assert(rhs[0] == h);
        assert(lhs.drop_first() =~= rest + seq![PathComp::CurrentDir] + c2);
        assert(rhs.drop_first() =~= rest + c2);
        match step_candidate(t, at, h) {
            Err(e) => {
            },
            Ok(next) => {
                assert(lhs.len() > 1);
                assert(resolve_in(t, at, lhs) == resolve_in(t, next, lhs.drop_first()));
                if rest.len() + c2.len() == 0 {
                    assert(rhs.len() == 1);
                    assert(lhs.drop_first() =~= seq![PathComp::CurrentDir]);
                    lemma_resolve_current_dir(t, next);
                    assert(resolve_in(t, at, rhs) == Result::<Seq<char>, ItemByPathError>::Ok(
                        next,
                    ));
                } else {
                    lemma_current_dir_transparent(t, next, rest, c2);
                    assert(rhs.len() > 1);
                    assert(resolve_in(t, at, rhs) == resolve_in(t, next, rhs.drop_first()));
                }
            },
        }
    }
}

/// LAW: stepping down into an existing child and straight back up through
/// `..` is transparent: `X/..` followed by anything resolves exactly as `.`
/// followed by the same thing, provided the matched child's parent is the
/// object itself.
pub proof fn lemma_parent_round_trip_transparent(
    t: Tree,
    at: Seq<char>,
    target: Seq<char>,
    c2: Seq<PathComp>,
)
    requires
        find_child(t, t.kids[at], target) is Some,
        t.parent.contains_key(find_child(t, t.kids[at], target)->0),
        t.parent[find_child(t, t.kids[at], target)->0] == at,
    ensures
        resolve_in(t, at, seq![PathComp::Named(target), PathComp::ParentDir] + c2) == resolve_in(
            t,
            at,
            seq![PathComp::CurrentDir] + c2,
        ),
{
    let k = find_child(t, t.kids[at], target)->0;
    let lhs = seq![PathComp::Named(target), PathComp::ParentDir] + c2;
    let rhs = seq![PathComp::CurrentDir] + c2;
    assert(lhs[0] == PathComp::Named(target));
    assert(rhs[0] == PathComp::CurrentDir);
    assert(lhs.drop_first() =~= seq![PathComp::ParentDir] + c2);
    assert(rhs.drop_first() =~= c2);
    assert(lhs.len() > 1);
    let mid = seq![PathComp::ParentDir] + c2;
    assert(mid[0] == PathComp::ParentDir);
    assert(mid.drop_first() =~= c2);
    assert(step_candidate(t, at, PathComp::Named(target)) == Result::<Seq<char>,
        ItemByPathError,
    >::Ok(k));
    assert(resolve_in(t, at, lhs) == resolve_in(t, k, mid));
    assert(step_candidate(t, k, PathComp::ParentDir) == Result::<Seq<char>,
        ItemByPathError,
    >::Ok(at));
    if c2.len() == 0 {
        assert(mid.len() == 1);
        assert(resolve_in(t, k, mid) == Result::<Seq<char>, ItemByPathError>::Ok(at));
        assert(resolve_in(t, at, rhs) == Result::<Seq<char>, ItemByPathError>::Ok(at));
    } else {
        assert(resolve_in(t, k, mid) == resolve_in(t, at, c2));
        assert(resolve_in(t, at, rhs) == resolve_in(t, at, c2));
    }
}

/// LAW: resolution composes over concatenation — if a prefix resolves to an
/// object, the whole path resolves as the suffix does from that object.
pub proof fn lemma_resolve_append(t: Tree, at: Seq<char>, c1: Seq<PathComp>, c2: Seq<PathComp>)
    requires
        resolve_in(t, at, c1) is Ok,
        c2.len() > 0,
    ensures
        resolve_in(t, at, c1 + c2) == resolve_in(t, resolve_in(t, at, c1)->Ok_0, c2),
    decreases c1.len(),
{
    let h = c1[0];
    let rest = c1.drop_first();
    let whole = c1 + c2;
    assert(whole[0] == h);
    assert(whole.drop_first() =~= rest + c2);
    match step_candidate(t, at, h) {
        Err(e) => {
        },
        Ok(next) => {
            if c1.len() == 1 {
                assert(rest + c2 =~= c2);
            } else {
                lemma_resolve_append(t, next, rest, c2);
            }
        },
    }
}

/// LAW: resolution never invents an object — there are no partial-success
/// states.  Whatever a walk from an object of the snapshot returns is
/// itself an object of the snapshot.
pub proof fn lemma_resolve_yields_object(t: Tree, at: Seq<char>, comps: Seq<PathComp>)
    requires
        tree_wf(t),
        t.names.contains_key(at),
        resolve_in(t, at, comps) is Ok,
    ensures
        t.names.contains_key(resolve_in(t, at, comps)->Ok_0),
    decreases comps.len(),
{
    let h = comps[0];
    match step_candidate(t, at, h) {
        Err(e) => {
        },
        Ok(next) => {
            match h {
                PathComp::Named(target) => {
                    lemma_find_child_found(t, t.kids[at], target);
                    let i = choose|i: int|
                        0 <= i < t.kids[at].len() && t.kids[at][i] == next;
                    assert(t.names.contains_key(t.kids[at][i]));
                },
                _ => {
                },
            }
            if comps.len() > 1 {
                lemma_resolve_yields_object(t, next, comps.drop_first());
            }
        },
    }
}

/// LAW: a path whose first component is the absolute marker fails with
/// `AbsolutePath`, whatever follows it.
pub proof fn lemma_absolute_rejected(t: Tree, at: Seq<char>, comps: Seq<PathComp>)
    requires
        comps.len() > 0,
        comps[0] == PathComp::Absolute,
    ensures
        resolve_in(t, at, comps) == Result::<Seq<char>, ItemByPathError>::Err(
            ItemByPathError::AbsolutePath,
        ),
{
}

/// LAW: a path text that opens with a separator or a drive-like prefix
/// fails with `AbsolutePath` from any starting object, regardless of
/// whether the rest of the path would otherwise resolve.
pub proof fn lemma_absolute_text_rejected(t: Tree, at: Seq<char>, s: Seq<char>)
    requires
        s.len() > 0,
        is_sep(s[0]) || has_drive_prefix(s),
    ensures
        resolve_in(t, at, spec_parse(s)) == Result::<Seq<char>, ItemByPathError>::Err(
            ItemByPathError::AbsolutePath,
        ),
{
    crate::path::lemma_absolute_start_marked(s);
    lemma_absolute_rejected(t, at, spec_parse(s));
}

/// LAW: under a case-sensitive policy a name only matches itself: if no
/// child of `at` carries exactly the name `target`, resolving `target`
/// fails with `NotFound`, even if a child matches up to letter case.
pub proof fn lemma_case_sensitive_exact(t: Tree, at: Seq<char>, target: Seq<char>)
    requires
        t.case_sensitive,
        forall|i: int| 0 <= i < t.kids[at].len() ==> t.names[#[trigger] t.kids[at][i]] != target,
    ensures
        resolve_in(t, at, seq![PathComp::Named(target)]) == Result::<Seq<char>, ItemByPathError>::Err(
            ItemByPathError::NotFound,
        ),
{
    lemma_find_child_none(t, t.kids[at], target);
}

} // verus!
