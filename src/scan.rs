//! The scan-and-set procedure as a state machine.
//!
//! The machine decides; the caller performs. `next_action` names the one
//! subsystem operation to perform now, and `step` takes what came of it.
//! The machine asks for the subsystem context once, and for the release of
//! the context and of every identifier string it was handed, on every path.

use vstd::prelude::*;
use crate::identity::{fold_target, identity_matches, lower_of, session_matches};
use crate::wide::utf16_lossy;

verus! {

/// One operation for the caller to perform on the audio subsystem.
#[derive(PartialEq, Eq, Structural, Clone, Copy, Debug)]
pub enum Action {
    /// Acquire the process-wide audio subsystem context.
    InitializeSubsystem,
    /// Obtain the default render device for the console role.
    ResolveDevice,
    /// Open the session collection of that device.
    OpenDirectory,
    /// Count the sessions in the collection.
    CountSessions,
    /// Fetch the session at this index, with its identity interface.
    FetchSession(i32),
    /// Read the identifier string of the session at this index.
    ReadIdentifier(i32),
    /// Release the identifier string that was just read.
    ReleaseIdentifier(i32),
    /// Obtain the volume capability of the session and set the level.
    SetVolume(i32),
    /// Release the subsystem context.
    ReleaseSubsystem,
    /// Stop, returning this status.
    Finish(i32),
}

/// What came of the last action.
pub enum Outcome {
    /// The action succeeded.
    Succeeded,
    /// The action failed.
    Failed,
    /// The sessions were counted.
    Counted(i32),
    /// An identifier was read: its UTF-16 units, or `None` for a null string.
    Identifier(Option<Vec<u16>>),
}

/// The abstract state of a scan.
pub struct ScanView {
    pub pending: Action,
    /// The lower-case target name.
    pub target: Seq<char>,
    pub count: int,
    /// The session whose identifier was just released is to be set.
    pub matched_current: bool,
    pub found: bool,
    pub contexts_acquired: nat,
    pub contexts_released: nat,
    pub identifiers_obtained: nat,
    pub identifiers_released: nat,
    /// The identifiers read so far, by session index.
    pub identities: Map<int, Seq<u16>>,
    /// The sessions for which a volume change was asked.
    pub set_requested: Set<int>,
    /// The sessions whose volume change succeeded.
    pub set_succeeded: Set<int>,
}

/// Status: at least one matching session took the requested level.
pub const STATUS_FOUND: i32 = 0;

/// Status: the subsystem was available but no session took the level.
pub const STATUS_NO_MATCH: i32 = 1;

/// Status: a null name, a level outside [0, 1], or no audio subsystem.
pub const STATUS_INVALID: i32 = -1;

/// The context is held while this action is pending.
pub open spec fn holds_context(a: Action) -> bool {
    !(a is InitializeSubsystem) && !(a is Finish)
}

/// The session index that an action concerns, if any.
pub open spec fn session_index(a: Action) -> Option<int> {
    match a {
        Action::FetchSession(i) => Some(i as int),
        Action::ReadIdentifier(i) => Some(i as int),
        Action::ReleaseIdentifier(i) => Some(i as int),
        Action::SetVolume(i) => Some(i as int),
        _ => None,
    }
}

/// The identifier read for session `k` selects it.
pub open spec fn is_matched(v: ScanView, k: int) -> bool {
    v.identities.contains_key(k) && session_matches(v.target, v.identities[k])
}

/// Move on from session `i` to the next one, or to the release of the context.
pub open spec fn advance(v: ScanView, i: int) -> ScanView {
    ScanView {
        pending: if i + 1 < v.count {
            Action::FetchSession((i + 1) as i32)
        } else {
            Action::ReleaseSubsystem
        },
        matched_current: false,
        ..v
    }
}

/// The state after `o` came of the pending action of `v`.
pub open spec fn after(v: ScanView, o: Outcome) -> ScanView {
    match v.pending {
        Action::InitializeSubsystem => if o is Succeeded {
            ScanView {
                pending: Action::ResolveDevice,
                contexts_acquired: v.contexts_acquired + 1,
                ..v
            }
        } else {
            ScanView { pending: Action::Finish(STATUS_INVALID), ..v }
        },
        Action::ResolveDevice => if o is Succeeded {
            ScanView { pending: Action::OpenDirectory, ..v }
        } else {
            ScanView { pending: Action::ReleaseSubsystem, ..v }
        },
        Action::OpenDirectory => if o is Succeeded {
            ScanView { pending: Action::CountSessions, ..v }
        } else {
            ScanView { pending: Action::ReleaseSubsystem, ..v }
        },
        Action::CountSessions => match o {
            Outcome::Counted(n) => if n > 0 {
                ScanView { pending: Action::FetchSession(0), count: n as int, ..v }
            } else {
                ScanView { pending: Action::ReleaseSubsystem, ..v }
            },
            _ => ScanView { pending: Action::ReleaseSubsystem, ..v },
        },
        Action::FetchSession(i) => if o is Succeeded {
            ScanView { pending: Action::ReadIdentifier(i), ..v }
        } else {
            advance(v, i as int)
        },
        Action::ReadIdentifier(i) => match o {
            Outcome::Identifier(Some(units)) => ScanView {
                pending: Action::ReleaseIdentifier(i),
                identifiers_obtained: v.identifiers_obtained + 1,
                identities: v.identities.insert(i as int, units@),
                matched_current: session_matches(v.target, units@),
                ..v
            },
            Outcome::Identifier(None) => ScanView {
                pending: Action::ReleaseIdentifier(i),
                identifiers_obtained: v.identifiers_obtained + 1,
                matched_current: false,
                ..v
            },
            _ => advance(v, i as int),
        },
        Action::ReleaseIdentifier(i) => {
            let released = ScanView { identifiers_released: v.identifiers_released + 1, ..v };
            if v.matched_current {
                ScanView {
                    pending: Action::SetVolume(i),
                    matched_current: false,
                    set_requested: v.set_requested.insert(i as int),
                    ..released
                }
            } else {
                advance(released, i as int)
            }
        },
        Action::SetVolume(i) => if o is Succeeded {
            advance(
                ScanView { found: true, set_succeeded: v.set_succeeded.insert(i as int), ..v },
                i as int,
            )
        } else {
            advance(v, i as int)
        },
        Action::ReleaseSubsystem => ScanView {
            pending: Action::Finish(if v.found { STATUS_FOUND } else { STATUS_NO_MATCH }),
            contexts_released: v.contexts_released + 1,
            ..v
        },
        Action::Finish(_) => v,
    }
}

/// Session `k` lies before the cursor of action `a`: sessions are visited in
/// increasing order, each once.
pub open spec fn before_cursor(a: Action, k: int) -> bool {
    match a {
        Action::FetchSession(i) => k < i,
        Action::ReadIdentifier(i) => k < i,
        Action::ReleaseIdentifier(i) => k <= i,
        Action::SetVolume(i) => k <= i,
        _ => true,
    }
}

/// No session has been looked at yet while this action is pending.
pub open spec fn before_sessions(a: Action) -> bool {
    ||| a is InitializeSubsystem
    ||| a is ResolveDevice
    ||| a is OpenDirectory
    ||| a is CountSessions
}

/// The invariant of a scan.
pub open spec fn scan_wf(v: ScanView) -> bool {
    &&& v.contexts_acquired <= 1
    &&& v.contexts_acquired == v.contexts_released + if holds_context(v.pending) { 1nat } else { 0nat }
    &&& v.identifiers_obtained == v.identifiers_released
        + if v.pending is ReleaseIdentifier { 1nat } else { 0nat }
    &&& v.count <= i32::MAX
    &&& (session_index(v.pending) matches Some(i) ==> 0 <= i < v.count)
    &&& forall|k: int| #[trigger]
        v.identities.contains_key(k) ==> 0 <= k && before_cursor(v.pending, k)
    &&& (v.matched_current ==> v.pending is ReleaseIdentifier)
    &&& (v.pending matches Action::SetVolume(i) ==> v.set_requested.contains(i as int))
    &&& (v.pending matches Action::ReleaseIdentifier(i) ==> (v.matched_current <==> is_matched(
        v,
        i as int,
    )))
    &&& forall|k: int| #[trigger]
        v.identities.contains_key(k) && session_matches(v.target, v.identities[k])
            ==> v.set_requested.contains(k) || v.pending == Action::ReleaseIdentifier(k as i32)
    &&& forall|k: int| #[trigger]
        v.set_requested.contains(k) ==> v.identities.contains_key(k) && session_matches(
            v.target,
            v.identities[k],
        )
    &&& forall|k: int| #[trigger] v.set_succeeded.contains(k) ==> v.set_requested.contains(k)
    &&& (v.found <==> v.set_succeeded != Set::<int>::empty())
    &&& (v.pending is InitializeSubsystem ==> v.contexts_acquired == 0)
    &&& (v.contexts_acquired == 0 || before_sessions(v.pending) ==> {
        &&& v.identities == Map::<int, Seq<u16>>::empty()
        &&& v.set_requested == Set::<int>::empty()
        &&& v.set_succeeded == Set::<int>::empty()
        &&& !v.found
    })
    &&& (v.pending matches Action::Finish(c) ==> {
        ||| c == STATUS_INVALID && v.contexts_acquired == 0
        ||| c == STATUS_FOUND && v.found && v.contexts_acquired == 1
        ||| c == STATUS_NO_MATCH && !v.found && v.contexts_acquired == 1
    })
}

/// The invariant holds of every state a scan passes through.
pub proof fn lemma_after_preserves_wf(v: ScanView, o: Outcome)
    requires
        scan_wf(v),
    ensures
        scan_wf(after(v, o)),
{
    let w = after(v, o);
    match v.pending {
        Action::ReadIdentifier(i) => {
            if let Outcome::Identifier(Some(units)) = o {
                assert(w.identities[i as int] == units@);
                assert forall|k: int| #[trigger] w.set_requested.contains(k) implies w.identities.contains_key(k)
                    && session_matches(w.target, w.identities[k]) by {
                    assert(v.identities.contains_key(k));
                }
            }
        },
        Action::SetVolume(i) => {
            if o is Succeeded {
                assert(w.set_succeeded.contains(i as int));
            }
        },
        _ => {},
    }
}

/// An upper bound on the actions a scan still takes before it finishes: at
/// most four for each session not yet passed, and a few around them.
pub open spec fn steps_left(v: ScanView) -> int {
    let per_session = |i: i32| 4 * (v.count - i);
    let before_count = 4 * i32::MAX + 2;
    match v.pending {
        Action::InitializeSubsystem => before_count + 3,
        Action::ResolveDevice => before_count + 2,
        Action::OpenDirectory => before_count + 1,
        Action::CountSessions => before_count,
        Action::FetchSession(i) => per_session(i) + 1,
        Action::ReadIdentifier(i) => per_session(i),
        Action::ReleaseIdentifier(i) => per_session(i) - 1,
        Action::SetVolume(i) => per_session(i) - 2,
        Action::ReleaseSubsystem => 1,
        Action::Finish(_) => 0,
    }
}

/// Every action but the last brings a scan closer to its end, so a caller
/// that performs each action in turn always reaches `Finish`.
pub proof fn lemma_after_makes_progress(v: ScanView, o: Outcome)
    requires
        scan_wf(v),
        !(v.pending is Finish),
    ensures
        0 <= steps_left(after(v, o)) < steps_left(v),
{
}

/// A finished scan is never left again: a rejected request acquires nothing.
pub proof fn lemma_finished_scan_is_final(v: ScanView, o: Outcome)
    requires
        v.pending is Finish,
    ensures
        after(v, o) == v,
{
}

/// At the end of any scan, the context was released exactly as often as it
/// was acquired, and every identifier string obtained was released once.
pub proof fn lemma_finished_scan_releases_everything(v: ScanView)
    requires
        scan_wf(v),
        v.pending is Finish,
    ensures
        v.contexts_released == v.contexts_acquired,
        v.identifiers_released == v.identifiers_obtained,
{
}

/// When the context was acquired and no identifier read selects a session
/// (there were none, or none matched), the scan ends with "no match" and no
/// volume change was asked for.
pub proof fn lemma_no_match_sets_nothing(v: ScanView)
    requires
        scan_wf(v),
        v.pending is Finish,
        v.contexts_acquired == 1,
        forall|k: int| !is_matched(v, k),
    ensures
        v.pending == Action::Finish(STATUS_NO_MATCH),
        v.set_requested == Set::<int>::empty(),
{
    assert forall|k: int| !v.set_requested.contains(k) by {
        if v.set_requested.contains(k) {
            assert(is_matched(v, k));
        }
    }
    assert(v.set_requested =~= Set::<int>::empty());
    assert(v.set_succeeded =~= Set::<int>::empty());
}

/// At the end of a scan every selected session was asked to take the level,
/// and the status is "found" exactly when at least one of them took it.
pub proof fn lemma_every_match_is_set(v: ScanView)
    requires
        scan_wf(v),
        v.pending is Finish,
        v.contexts_acquired == 1,
    ensures
        forall|k: int| #[trigger] is_matched(v, k) ==> v.set_requested.contains(k),
        v.pending == Action::Finish(STATUS_FOUND) <==> v.set_succeeded != Set::<int>::empty(),
{
}

/// A scan of the default device's sessions for one program name.
pub struct VolumeScan {
    pending: Action,
    target: String,
    count: i32,
    matched_current: bool,
    found: bool,
    contexts_acquired: Ghost<nat>,
    contexts_released: Ghost<nat>,
    identifiers_obtained: Ghost<nat>,
    identifiers_released: Ghost<nat>,
    identities: Ghost<Map<int, Seq<u16>>>,
    set_requested: Ghost<Set<int>>,
    set_succeeded: Ghost<Set<int>>,
}

impl View for VolumeScan {
    type V = ScanView;

    closed spec fn view(&self) -> ScanView {
        ScanView {
            pending: self.pending,
            target: self.target@,
            count: self.count as int,
            matched_current: self.matched_current,
            found: self.found,
            contexts_acquired: self.contexts_acquired@,
            contexts_released: self.contexts_released@,
            identifiers_obtained: self.identifiers_obtained@,
            identifiers_released: self.identifiers_released@,
            identities: self.identities@,
            set_requested: self.set_requested@,
            set_succeeded: self.set_succeeded@,
        }
    }
}

impl VolumeScan {
    /// The scan invariant holds of this scan's state.
    pub open spec fn wf(&self) -> bool {
        scan_wf(self@)
    }

    /// Starts a scan for `program_name` (UTF-16, `None` for a null name).
    /// `volume_in_range` tells whether the requested level lies in [0, 1].
    /// A rejected request finishes at once with the invalid-argument status,
    /// before the subsystem is touched.
    pub fn new(program_name: Option<&[u16]>, volume_in_range: bool) -> (r: Self)
        ensures
            r.wf(),
            r@.contexts_acquired == 0,
            r@.identifiers_obtained == 0,
            r@.identities == Map::<int, Seq<u16>>::empty(),
            r@.set_requested == Set::<int>::empty(),
            !volume_in_range || program_name is None ==> r@.pending == Action::Finish(
                STATUS_INVALID,
            ),
            volume_in_range && program_name is Some ==> {
                &&& r@.pending == Action::InitializeSubsystem
                &&& r@.target == lower_of(utf16_lossy(program_name->0@))
            },
            program_name matches Some(name) && name@.len() == 0 ==> r@.target.len() == 0,
    {
        let (pending, target) = match program_name {
            Some(name) => {
                let target = fold_target(name);
                if volume_in_range {
                    (Action::InitializeSubsystem, target)
                } else {
                    (Action::Finish(STATUS_INVALID), target)
                }
            },
            None => (Action::Finish(STATUS_INVALID), String::new()),
        };
        let r = VolumeScan {
            pending,
            target,
            count: 0,
            matched_current: false,
            found: false,
            contexts_acquired: Ghost(0),
            contexts_released: Ghost(0),
            identifiers_obtained: Ghost(0),
            identifiers_released: Ghost(0),
            identities: Ghost(Map::empty()),
            set_requested: Ghost(Set::empty()),
            set_succeeded: Ghost(Set::empty()),
        };
        assert(r@.set_succeeded =~= Set::<int>::empty());
        r
    }

    /// The operation to perform now.
    pub fn next_action(&self) -> (a: Action)
        ensures
            a == self@.pending,
    {
        self.pending
    }

    /// Moves on from session `i`.
    fn advance_from(&mut self, i: i32)
        requires
            0 <= i < old(self)@.count,
        ensures
            final(self)@ == advance(old(self)@, i as int),
    {
        if i < self.count - 1 {
            self.pending = Action::FetchSession(i + 1);
        } else {
            self.pending = Action::ReleaseSubsystem;
        }
        self.matched_current = false;
    }

    /// Takes what came of the pending action and moves to the next one.
    pub fn step(&mut self, outcome: Outcome)
        requires
            old(self).wf(),
        ensures
            final(self).wf(),
            final(self)@ == after(old(self)@, outcome),
            !(old(self)@.pending is Finish) ==> 0 <= steps_left(final(self)@) < steps_left(
                old(self)@,
            ),
    {
        proof {
            lemma_after_preserves_wf(self@, outcome);
            if !(self@.pending is Finish) {
                lemma_after_makes_progress(self@, outcome);
            }
        }
        match self.pending {
            Action::InitializeSubsystem => match outcome {
                Outcome::Succeeded => {
                    self.pending = Action::ResolveDevice;
                    self.contexts_acquired = Ghost(self.contexts_acquired@ + 1);
                },
                _ => {
                    self.pending = Action::Finish(STATUS_INVALID);
                },
            },
            Action::ResolveDevice => match outcome {
                Outcome::Succeeded => {
                    self.pending = Action::OpenDirectory;
                },
                _ => {
                    self.pending = Action::ReleaseSubsystem;
                },
            },
            Action::OpenDirectory => match outcome {
                Outcome::Succeeded => {
                    self.pending = Action::CountSessions;
                },
                _ => {
                    self.pending = Action::ReleaseSubsystem;
                },
            },
            Action::CountSessions => match outcome {
                Outcome::Counted(n) => {
                    if n > 0 {
                        self.pending = Action::FetchSession(0);
                        self.count = n;
                    } else {
                        self.pending = Action::ReleaseSubsystem;
                    }
                },
                _ => {
                    self.pending = Action::ReleaseSubsystem;
                },
            },
            Action::FetchSession(i) => match outcome {
                Outcome::Succeeded => {
                    self.pending = Action::ReadIdentifier(i);
                },
                _ => {
                    self.advance_from(i);
                },
            },
            Action::ReadIdentifier(i) => match outcome {
                Outcome::Identifier(Some(units)) => {
                    let matched = identity_matches(units.as_slice(), self.target.as_str());
                    self.pending = Action::ReleaseIdentifier(i);
                    self.matched_current = matched;
                    self.identifiers_obtained = Ghost(self.identifiers_obtained@ + 1);
                    self.identities = Ghost(self.identities@.insert(i as int, units@));
                },
                Outcome::Identifier(None) => {
                    self.pending = Action::ReleaseIdentifier(i);
                    self.matched_current = false;
                    self.identifiers_obtained = Ghost(self.identifiers_obtained@ + 1);
                },
                _ => {
                    self.advance_from(i);
                },
            },
            Action::ReleaseIdentifier(i) => {
                self.identifiers_released = Ghost(self.identifiers_released@ + 1);
                if self.matched_current {
                    self.pending = Action::SetVolume(i);
                    self.matched_current = false;
                    self.set_requested = Ghost(self.set_requested@.insert(i as int));
                } else {
                    self.advance_from(i);
                }
            },
            Action::SetVolume(i) => match outcome {
                Outcome::Succeeded => {
                    self.found = true;
                    self.set_succeeded = Ghost(self.set_succeeded@.insert(i as int));
                    self.advance_from(i);
                },
                _ => {
                    self.advance_from(i);
                },
            },
            Action::ReleaseSubsystem => {
                self.contexts_released = Ghost(self.contexts_released@ + 1);
                self.pending = Action::Finish(
                    if self.found {
                        STATUS_FOUND
                    } else {
                        STATUS_NO_MATCH
                    },
                );
            },
            Action::Finish(_) => {},
        }
    }
}

} // verus!
