use vstd::prelude::*;
use std::sync::Arc;
use crate::error::Error;
use crate::paths::parent_of;
use crate::registry::{
    Lib, LibView, Registry, index_of_original, reload_matches, should_reload, swap_removed,
};

verus! {

/// The states the host is told about during a reload.
#[derive(Debug)]
pub enum UpdateState {
    /// The library is about to be unloaded: stop using it, save what depends
    /// on it.
    Before,
    /// The library has been loaded again: restore what depends on it.
    After,
    /// Loading the library again failed; it is no longer registered.
    ReloadFailed(Error),
}

/// What the caller has to do next for a reported change.
pub enum ReloadAction {
    /// Call the host with this state and, for `Before` and `After`, the
    /// library concerned.
    Notify(UpdateState, Option<Arc<Lib>>),
    /// Load the library from this source path again (staging a fresh shadow
    /// copy) and report the outcome to `loaded`.
    Load(String),
    /// Every library the change concerns has been reloaded.
    Done,
}

/// Where a pass over the registry stands.
pub enum PassStage {
    /// Looking for the next library the change concerns.
    Scan,
    /// The host was told `Before` about the library at this position.
    Notified(usize),
    /// The library from this source was removed and is being loaded again.
    Loading(String),
}

/// The kind of a stage, without its data.
#[derive(Clone, Copy, Debug, PartialEq, Eq, Structural)]
pub enum StageKind {
    Scan,
    Notified,
    Loading,
}

/// The kind of an action, without its data.
#[derive(Clone, Copy, Debug, PartialEq, Eq, Structural)]
pub enum Step {
    Before,
    Load,
    After,
    Failed,
    Done,
}

pub open spec fn stage_kind(s: PassStage) -> StageKind {
    match s {
        PassStage::Scan => StageKind::Scan,
        PassStage::Notified(_) => StageKind::Notified,
        PassStage::Loading(_) => StageKind::Loading,
    }
}

pub open spec fn step_of(a: ReloadAction) -> Step {
    match a {
        ReloadAction::Notify(UpdateState::Before, _) => Step::Before,
        ReloadAction::Notify(UpdateState::After, _) => Step::After,
        ReloadAction::Notify(UpdateState::ReloadFailed(_), _) => Step::Failed,
        ReloadAction::Load(_) => Step::Load,
        ReloadAction::Done => Step::Done,
    }
}

/// The reload protocol: from scanning, either `Before` or the end of the
/// pass; after `Before` the library is loaded again; after loading, either
/// `After` or `ReloadFailed`, and scanning goes on.
pub open spec fn advance(from: StageKind, step: Step) -> Option<StageKind> {
    match (from, step) {
        (StageKind::Scan, Step::Before) => Some(StageKind::Notified),
        (StageKind::Scan, Step::Done) => Some(StageKind::Scan),
        (StageKind::Notified, Step::Load) => Some(StageKind::Loading),
        (StageKind::Loading, Step::After) => Some(StageKind::Scan),
        (StageKind::Loading, Step::Failed) => Some(StageKind::Scan),
        _ => None,
    }
}

/// Where a sequence of steps taken from `from` leads, if the protocol
/// allows every one of them.
pub open spec fn run_end(from: StageKind, steps: Seq<Step>) -> Option<StageKind>
    decreases steps.len(),
{
    if steps.len() == 0 {
        Some(from)
    } else {
        match advance(from, steps[0]) {
            Some(next) => run_end(next, steps.drop_first()),
            None => None,
        }
    }
}

/// The position of the last library below `cursor` that a change to
/// `event_path` concerns.
pub open spec fn last_match(event_path: Seq<char>, libs: Seq<Arc<Lib>>, cursor: int) -> Option<int> {
    if exists|i: int| 0 <= i < cursor && i < libs.len() && reload_matches(event_path, libs[i]@) {
        Some(
            choose|i: int|
                0 <= i < cursor && i < libs.len() && reload_matches(event_path, libs[i]@) && forall|
                    j: int,
                | i < j < cursor && j < libs.len() ==> !reload_matches(event_path, libs[j]@),
        )
    } else {
        None
    }
}

proof fn lemma_last_match(event_path: Seq<char>, libs: Seq<Arc<Lib>>, cursor: int, i: int)
    requires
        0 <= i < cursor <= libs.len(),
        reload_matches(event_path, libs[i]@),
        forall|j: int| i < j < cursor ==> !reload_matches(event_path, #[trigger] libs[j]@),
    ensures
        last_match(event_path, libs, cursor) == Some(i),
{
    let k = choose|k: int|
        0 <= k < cursor && k < libs.len() && reload_matches(event_path, libs[k]@) && forall|j: int|
            k < j < cursor && j < libs.len() ==> !reload_matches(event_path, libs[j]@);
    if k < i {
        assert(!reload_matches(event_path, libs[i]@));
    }
    if i < k {
        assert(!reload_matches(event_path, libs[k]@));
    }
}

/// The position of the last library below `cursor` that a change to
/// `event_path` concerns, searching from `cursor` down.
fn last_matching(event_path: &String, reg: &Registry, cursor: usize) -> (r: Option<usize>)
    requires
        cursor <= reg.libs().len(),
    ensures
        match r {
            Some(i) => i < cursor && reload_matches(event_path@, reg.libs()[i as int]@) && last_match(
                event_path@,
                reg.libs(),
                cursor as int,
            ) == Some(i as int),
            None => last_match(event_path@, reg.libs(), cursor as int) is None,
        },
{
    let mut k: usize = cursor;
    while k > 0
        invariant
            k <= cursor <= reg.libs().len(),
            forall|j: int|
                k <= j < cursor ==> !reload_matches(event_path@, #[trigger] reg.libs()[j]@),
        decreases k,
    {
        let i = k - 1;
        if should_reload(event_path.as_str(), reg.get(i)) {
            proof {
                lemma_last_match(event_path@, reg.libs(), cursor as int, i as int);
            }
            return Some(i);
        }
        k = i;
    }
    proof {
        assert(!exists|i: int|
            0 <= i < cursor && i < reg.libs().len() && reload_matches(
                event_path@,
                reg.libs()[i]@,
            ));
    }
    None
}

/// The library a successful reload of `source` registers.
pub open spec fn reloaded_view(source: Seq<char>, loaded_path: Seq<char>) -> LibView {
    LibView { loaded_path, original_path: Some(source) }
}

/// One pass over the registry for one reported change: every library the
/// change concerns is reloaded in turn, the most recently registered first.
/// For each, the host hears `Before` while the old library is still
/// registered, the library is removed and loaded again, and the host hears
/// `After` with the new library or `ReloadFailed` with the error.
pub struct ReloadPass {
    event_path: String,
    cursor: usize,
    stage: PassStage,
}

impl ReloadPass {
    /// The changed path the pass is for.
    pub closed spec fn event(&self) -> Seq<char> {
        self.event_path@
    }

    /// Libraries at positions below this have not been looked at yet.
    pub closed spec fn cursor(&self) -> int {
        self.cursor as int
    }

    pub closed spec fn stage(&self) -> PassStage {
        self.stage
    }

    /// The pass agrees with the registry it runs over.
    pub open spec fn inv(&self, reg: &Registry) -> bool {
        &&& self.cursor() <= reg.libs().len()
        &&& match self.stage() {
            PassStage::Scan => true,
            PassStage::Notified(i) => {
                &&& i == self.cursor()
                &&& i < reg.libs().len()
                &&& reload_matches(self.event(), reg.libs()[i as int]@)
            },
            PassStage::Loading(source) => {
                &&& reg.watching() ==> match parent_of(source@) {
                    Some(d) => reg.watched().contains(d),
                    None => true,
                }
                &&& forall|k: int|
                    0 <= k < reg.libs().len() ==> (#[trigger] reg.libs()[k])@.original_path
                        != Some(source@)
            },
        }
    }

    /// A pass for a change reported at `event_path`, before any library has
    /// been looked at.
    pub fn new(event_path: String, reg: &Registry) -> (r: ReloadPass)
        ensures
            r.event() == event_path@,
            r.cursor() == reg.libs().len(),
            r.stage() is Scan,
            r.inv(reg),
    {
        ReloadPass { event_path, cursor: reg.len(), stage: PassStage::Scan }
    }

    /// Whether the pass waits for the outcome of a load.
    pub fn is_loading(&self) -> (r: bool)
        ensures
            r == (self.stage() is Loading),
    {
        match self.stage {
            PassStage::Loading(_) => true,
            _ => false,
        }
    }

    /// The next action while the pass does not wait for a load.
    ///
    /// When scanning: the last library below the cursor that the change
    /// concerns is announced with `Before`, still registered; with none left
    /// the pass is `Done`. After `Before`: that library is removed and its
    /// source is to be loaded again.
    pub fn next(&mut self, reg: &mut Registry) -> (r: ReloadAction)
        requires
            old(reg).wf(),
            old(self).inv(old(reg)),
            !(old(self).stage() is Loading),
        ensures
            final(reg).wf(),
            final(self).inv(final(reg)),
            final(self).event() == old(self).event(),
            advance(stage_kind(old(self).stage()), step_of(r)) == Some(
                stage_kind(final(self).stage()),
            ),
            final(reg).watched() == old(reg).watched(),
            final(reg).watching() == old(reg).watching(),
            final(reg).never_unload() == old(reg).never_unload(),
            match old(self).stage() {
                PassStage::Notified(i) => {
                    &&& final(reg).libs() == swap_removed(old(reg).libs(), i as int)
                    &&& final(self).cursor() == i
                    &&& r matches ReloadAction::Load(source) && Some(source@) == old(
                        reg,
                    ).libs()[i as int]@.original_path && final(self).stage() == PassStage::Loading(
                        source,
                    )
                },
                _ => {
                    &&& final(reg).libs() == old(reg).libs()
                    &&& match last_match(old(self).event(), old(reg).libs(), old(self).cursor()) {
                        Some(i) => {
                            &&& r == ReloadAction::Notify(
                                UpdateState::Before,
                                Some(old(reg).libs()[i]),
                            )
                            &&& final(self).cursor() == i
                            &&& final(self).stage() == PassStage::Notified(i as usize)
                        },
                        None => r is Done && final(self).cursor() == 0 && final(self).stage() is Scan,
                    }
                },
            },
    {
        match self.stage {
            PassStage::Notified(i) => self.remove_notified(reg, i),
            _ => self.scan(reg),
        }
    }

    fn remove_notified(&mut self, reg: &mut Registry, i: usize) -> (r: ReloadAction)
        requires
            old(reg).wf(),
            old(self).inv(old(reg)),
            old(self).stage() == PassStage::Notified(i),
        ensures
            final(reg).wf(),
            final(self).inv(final(reg)),
            final(self).event() == old(self).event(),
            final(self).cursor() == i,
            final(reg).libs() == swap_removed(old(reg).libs(), i as int),
            final(reg).watched() == old(reg).watched(),
            final(reg).watching() == old(reg).watching(),
            final(reg).never_unload() == old(reg).never_unload(),
            r matches ReloadAction::Load(source) && Some(source@) == old(reg).libs()[i as int]@.original_path
                && final(self).stage() == PassStage::Loading(source),
    {
        let source = match &reg.get(i).original_path {
            Some(o) => o.clone(),
            None => {
                // `inv` rules this out: a library without a source never matches.
                String::new()
            },
        };
        let ghost before = reg.libs();
        proof {
            let k = i as int;
            assert(before[k]@.original_path == Some(source@));
            assert(reg.watching() ==> match parent_of(source@) {
                Some(d) => reg.watched().contains(d),
                None => true,
            });
        }
        reg.remove_lib(i);
        proof {
            let after = reg.libs();
            assert forall|k: int| 0 <= k < after.len() implies (
            #[trigger] after[k])@.original_path != Some(source@) by {
                let a = if k == i as int {
                    before.len() - 1
                } else {
                    k
                };
                assert(after[k] == before[a]);
                assert(before[a]@.original_path != before[i as int]@.original_path);
            }
        }
        self.stage = PassStage::Loading(source.clone());
        ReloadAction::Load(source)
    }

    fn scan(&mut self, reg: &Registry) -> (r: ReloadAction)
        requires
            old(self).inv(reg),
            !(old(self).stage() is Loading),
        ensures
            final(self).inv(reg),
            final(self).event() == old(self).event(),
            match last_match(old(self).event(), reg.libs(), old(self).cursor()) {
                Some(i) => {
                    &&& r == ReloadAction::Notify(UpdateState::Before, Some(reg.libs()[i]))
                    &&& final(self).cursor() == i
                    &&& final(self).stage() == PassStage::Notified(i as usize)
                },
                None => r is Done && final(self).cursor() == 0 && final(self).stage() is Scan,
            },
    {
        match last_matching(&self.event_path, reg, self.cursor) {
            Some(i) => {
                self.cursor = i;
                self.stage = PassStage::Notified(i);
                ReloadAction::Notify(UpdateState::Before, Some(reg.get(i).clone()))
            },
            None => {
                self.cursor = 0;
                self.stage = PassStage::Scan;
                ReloadAction::Done
            },
        }
    }

    /// Takes the outcome of loading the library again: the opened library
    /// and the path it was opened from, or the error. On success the new
    /// library is registered with the same source and announced with
    /// `After`; on failure nothing is registered and the host hears
    /// `ReloadFailed`. Scanning goes on either way.
    pub fn loaded(
        &mut self,
        reg: &mut Registry,
        outcome: Result<(libloading::Library, String), Error>,
    ) -> (r: ReloadAction)
        requires
            old(reg).wf(),
            old(self).inv(old(reg)),
            old(self).stage() is Loading,
        ensures
            final(reg).wf(),
            final(self).inv(final(reg)),
            final(self).event() == old(self).event(),
            final(self).cursor() == old(self).cursor(),
            final(self).stage() is Scan,
            advance(stage_kind(old(self).stage()), step_of(r)) == Some(
                stage_kind(final(self).stage()),
            ),
            final(reg).watched() == old(reg).watched(),
            final(reg).watching() == old(reg).watching(),
            final(reg).never_unload() == old(reg).never_unload(),
            match outcome {
                Ok((_, loaded_path)) => r matches ReloadAction::Notify(UpdateState::After, Some(lib))
                    && lib@ == reloaded_view(old(self).stage()->Loading_0@, loaded_path@)
                    && final(reg).libs() == old(reg).libs().push(lib),
                Err(e) => r == ReloadAction::Notify(UpdateState::ReloadFailed(e), None)
                    && final(reg).libs() == old(reg).libs(),
            },
    {
        let source = match &self.stage {
            PassStage::Loading(s) => s.clone(),
            // The pass waits for a load here, as `requires` states.
            _ => String::new(),
        };
        self.stage = PassStage::Scan;
        match outcome {
            Ok((library, loaded_path)) => {
                let lib = Lib { lib: library, loaded_path, original_path: Some(source) };
                let ghost before = reg.libs();
                let ghost view = lib@;
                proof {
                    assert(index_of_original(before, view.original_path->0) is None);
                }
                let (handle, _watch) = reg.add(lib);
                proof {
                    assert(reg.libs() == before.push(handle));
                }
                ReloadAction::Notify(UpdateState::After, Some(handle))
            },
            Err(e) => ReloadAction::Notify(UpdateState::ReloadFailed(e), None),
        }
    }
}

/// The step at `i`, if it is `Before`, is followed by loading and then by
/// exactly one of `After` or `ReloadFailed`.
pub open spec fn before_answered(steps: Seq<Step>, i: int) -> bool {
    steps[i] == Step::Before ==> i + 2 < steps.len() && steps[i + 1] == Step::Load && (steps[i
        + 2] == Step::After || steps[i + 2] == Step::Failed)
}

/// The step at `i`, if it is `After` or `ReloadFailed`, answers the
/// `Before` two steps earlier, with loading between them.
pub open spec fn outcome_announced(steps: Seq<Step>, i: int) -> bool {
    (steps[i] == Step::After || steps[i] == Step::Failed) ==> i >= 2 && steps[i - 2]
        == Step::Before && steps[i - 1] == Step::Load
}

/// The order the host hears about a reload in. In any run of the protocol
/// that ends scanning, every `Before` is followed by loading and then by
/// exactly one of `After` or `ReloadFailed`, and every `After` or
/// `ReloadFailed` answers the `Before` two steps earlier.
pub proof fn lemma_reload_protocol(steps: Seq<Step>)
    requires
        run_end(StageKind::Scan, steps) == Some(StageKind::Scan),
    ensures
        forall|i: int| 0 <= i < steps.len() ==> #[trigger] before_answered(steps, i),
        forall|i: int| 0 <= i < steps.len() ==> #[trigger] outcome_announced(steps, i),
{
    lemma_run(StageKind::Scan, steps);
    assert forall|i: int| 0 <= i < steps.len() implies #[trigger] outcome_announced(steps, i) by {
        assert(outcome_from(StageKind::Scan, steps, i));
    }
}

spec fn load_from(from: StageKind, steps: Seq<Step>, i: int) -> bool {
    steps[i] == Step::Load ==> (i >= 1 && steps[i - 1] == Step::Before) || (i == 0 && from
        == StageKind::Notified)
}

spec fn outcome_from(from: StageKind, steps: Seq<Step>, i: int) -> bool {
    (steps[i] == Step::After || steps[i] == Step::Failed) ==> (i >= 2 && steps[i - 2]
        == Step::Before && steps[i - 1] == Step::Load) || (i == 0 && from == StageKind::Loading) || (
    i == 1 && from == StageKind::Notified && steps[0] == Step::Load)
}

proof fn lemma_run(from: StageKind, steps: Seq<Step>)
    requires
        run_end(from, steps) == Some(StageKind::Scan),
    ensures
        from == StageKind::Notified ==> steps.len() >= 2 && steps[0] == Step::Load && (steps[1]
            == Step::After || steps[1] == Step::Failed),
        from == StageKind::Loading ==> steps.len() >= 1 && (steps[0] == Step::After || steps[0]
            == Step::Failed),
        forall|i: int| 0 <= i < steps.len() ==> #[trigger] before_answered(steps, i),
        forall|i: int| 0 <= i < steps.len() ==> #[trigger] load_from(from, steps, i),
        forall|i: int| 0 <= i < steps.len() ==> #[trigger] outcome_from(from, steps, i),
    decreases steps.len(),
{
    if steps.len() > 0 {
        let next = advance(from, steps[0])->0;
        let rest = steps.drop_first();
        assert(run_end(next, rest) == Some(StageKind::Scan));
        lemma_run(next, rest);
        if next == StageKind::Notified {
            assert(rest[0] == steps[1] && rest[1] == steps[2]);
        }
        if next == StageKind::Loading {
            assert(rest[0] == steps[1]);
        }
        assert forall|i: int| 0 <= i < steps.len() implies #[trigger] before_answered(steps, i) by {
            if i > 0 {
                assert(before_answered(rest, i - 1));
                assert(steps[i] == rest[i - 1]);
                if i + 1 < steps.len() {
                    assert(steps[i + 1] == rest[i]);
                }
                if i + 2 < steps.len() {
                    assert(steps[i + 2] == rest[i + 1]);
                }
            }
        }
        assert forall|i: int| 0 <= i < steps.len() implies #[trigger] load_from(from, steps, i) by {
            if i > 0 {
                assert(load_from(next, rest, i - 1));
                assert(steps[i] == rest[i - 1]);
                if i >= 2 {
                    assert(steps[i - 1] == rest[i - 2]);
                }
            }
        }
        assert forall|i: int| 0 <= i < steps.len() implies #[trigger] outcome_from(from, steps, i) by {
            if i > 0 {
                assert(outcome_from(next, rest, i - 1));
                assert(steps[i] == rest[i - 1]);
                if i >= 2 {
                    assert(steps[i - 1] == rest[i - 2]);
                }
                if i >= 3 {
                    assert(steps[i - 2] == rest[i - 3]);
                }
            }
        }
    }
}

} // verus!
