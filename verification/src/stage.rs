//! Staging a fetched image as the next deployment.
use vstd::prelude::*;
use vstd::string::StringExecFns;

use crate::error::DeployError;
use crate::event::{step_views, steps_with, Event, EventView, SubTaskStep, SubTaskStepView};
use crate::image::ImageState;

verus! {

/// The group of an origin file that says where a deployment came from.
pub const ORIGIN_GROUP: &'static str = "origin";

/// The key in that group that names the container image.
pub const ORIGIN_CONTAINER: &'static str = "container-image-reference";

/// The one entry of the origin file of a deployment that came from a container image.
#[derive(Debug)]
pub struct Origin {
    pub group: String,
    pub key: String,
    pub value: String,
}

/// Whether the origin is that of a deployment of the image.
pub open spec fn is_origin_of(origin: Origin, imgref: Seq<char>) -> bool {
    &&& origin.group@ == ORIGIN_GROUP@
    &&& origin.key@ == ORIGIN_CONTAINER@
    &&& origin.value@ == imgref
}

/// The origin of a deployment of the image, which is written with its transport and signature source.
pub fn origin_from_imageref(imgref: &str) -> (r: Origin)
    ensures
        is_origin_of(r, imgref@),
        r.group@ == "origin"@,
        r.key@ == "container-image-reference"@,
        r.value@ == imgref@,
{
    Origin {
        group: ORIGIN_GROUP.to_owned(),
        key: ORIGIN_CONTAINER.to_owned(),
        value: imgref.to_owned(),
    }
}

/// A deployment whose state is carried over: its stateroot and its index among the deployments.
#[derive(Debug)]
pub struct MergeDeployment {
    pub stateroot: String,
    pub index: i32,
}

/// The source of data for staging a new deployment.
#[derive(Debug)]
pub enum MergeState {
    /// Use the provided merge deployment.
    MergeDeployment(MergeDeployment),
    /// Don't use a merge deployment, but only this provided initial state.
    Reset { stateroot: String, kargs: Vec<String> },
}

impl MergeState {
    /// The default merge deployment of a stateroot, which must have been `found`.
    pub fn from_stateroot(found: Option<MergeDeployment>, stateroot: &str) -> (r: Result<
        MergeState,
        DeployError,
    >)
        ensures
            r is Ok <==> found is Some,
            r is Ok ==> r->Ok_0 == MergeState::MergeDeployment(found->0),
            r is Err ==> r->Err_0 is NoMergeDeployment && r->Err_0->stateroot@ == stateroot@,
    {
        match found {
            Some(d) => Ok(MergeState::MergeDeployment(d)),
            None => Err(DeployError::NoMergeDeployment { stateroot: stateroot.to_owned() }),
        }
    }

    /// The merge deployment, if there is one.
    pub fn as_merge_deployment(&self) -> (r: Option<&MergeDeployment>)
        ensures
            match *self {
                MergeState::MergeDeployment(d) => r is Some && *(r->0) == d,
                MergeState::Reset { .. } => r is None,
            },
    {
        match self {
            MergeState::MergeDeployment(d) => Some(d),
            MergeState::Reset { .. } => None,
        }
    }
}

/// What a new tree is staged with.
#[derive(Debug)]
pub struct StageTree {
    pub stateroot: String,
    pub ostree_commit: String,
    /// The index of the merge deployment.
    pub merge_deployment: Option<usize>,
    /// The kernel arguments, in place of the merge deployment's.
    pub override_kernel_argv: Vec<String>,
    /// Where the tree comes from.
    pub origin: Origin,
    /// Whether the deployment stays locked against finalization.
    pub locked: bool,
}

/// What the image is staged with. The kernel arguments are those of a reset, or else `merge_kargs`,
/// which were computed for the merge deployment.
pub fn deploy(
    from: MergeState,
    merge_kargs: Option<Vec<String>>,
    image: &ImageState,
    origin: Origin,
    lock_finalization: bool,
) -> (r: StageTree)
    requires
        from is MergeDeployment ==> merge_kargs is Some && from->MergeDeployment_0.index >= 0,
    ensures
        r.ostree_commit@ == image.ostree_commit@,
        r.origin == origin,
        r.locked == lock_finalization,
        match from {
            MergeState::MergeDeployment(d) => {
                &&& r.stateroot == d.stateroot
                &&& r.merge_deployment == Some(d.index as usize)
                &&& r.override_kernel_argv == merge_kargs->0
            },
            MergeState::Reset { stateroot, kargs } => {
                &&& r.stateroot == stateroot
                &&& r.merge_deployment is None
                &&& r.override_kernel_argv == kargs
            },
        },
{
    let merge_deployment: Option<usize> = match from.as_merge_deployment() {
        Some(d) => Some(d.index as usize),
        None => None,
    };
    let (stateroot, override_kernel_argv) = match from {
        MergeState::MergeDeployment(d) => (d.stateroot, merge_kargs.unwrap()),
        MergeState::Reset { stateroot, kargs } => (stateroot, kargs),
    };
    StageTree {
        stateroot,
        ostree_commit: image.ostree_commit.clone(),
        merge_deployment,
        override_kernel_argv,
        origin,
        locked: lock_finalization,
    }
}

/// How far staging has come.
#[derive(Debug, Clone, Copy, PartialEq, Eq, Structural)]
pub enum StagePhase {
    Merging,
    Deploying,
    BoundImages,
    Cleanup,
    Done,
}

/// The work of a phase, after its event was sent.
#[derive(Debug, Clone, Copy, PartialEq, Eq, Structural)]
pub enum StageWork {
    /// There is none.
    Nothing,
    /// Write the deployment.
    Deploy,
    /// Pull the images bound to the deployment.
    PullBoundImages,
    /// Remove old images and deployments.
    Cleanup,
    /// Signal that a reboot is required.
    WriteRebootRequired,
}

/// The phase after a phase.
pub open spec fn next_phase(p: StagePhase) -> StagePhase {
    match p {
        StagePhase::Merging => StagePhase::Deploying,
        StagePhase::Deploying => StagePhase::BoundImages,
        StagePhase::BoundImages => StagePhase::Cleanup,
        StagePhase::Cleanup => StagePhase::Done,
        StagePhase::Done => StagePhase::Done,
    }
}

/// What comes after a phase whose work ended so: the next phase, or the error if it failed.
pub open spec fn phase_after<E>(p: StagePhase, outcome: Result<(), E>) -> Result<StagePhase, E> {
    match outcome {
        Ok(_) => Ok(next_phase(p)),
        Err(e) => Err(e),
    }
}

/// The work of a phase.
pub open spec fn work_of(p: StagePhase) -> StageWork {
    match p {
        StagePhase::Merging => StageWork::Nothing,
        StagePhase::Deploying => StageWork::Deploy,
        StagePhase::BoundImages => StageWork::PullBoundImages,
        StagePhase::Cleanup => StageWork::Cleanup,
        StagePhase::Done => StageWork::WriteRebootRequired,
    }
}

/// How many steps count as done in a phase.
pub open spec fn steps_of(p: StagePhase) -> u64 {
    match p {
        StagePhase::Merging => 0,
        StagePhase::Deploying => 1,
        StagePhase::BoundImages => 1,
        StagePhase::Cleanup => 2,
        StagePhase::Done => 3,
    }
}

/// How many steps there are.
pub const STAGE_STEPS: u64 = 3;

/// The part of the task that a phase works on; there is no new one when all is done.
pub open spec fn part_of(p: StagePhase, completed: bool) -> SubTaskStepView {
    match p {
        StagePhase::Merging => SubTaskStepView {
            subtask: "merging"@,
            description: "Merging Image"@,
            id: "fetching"@,
            completed,
        },
        StagePhase::Deploying => SubTaskStepView {
            subtask: "deploying"@,
            description: "Deploying Image"@,
            id: "deploying"@,
            completed,
        },
        StagePhase::BoundImages => SubTaskStepView {
            subtask: "bound_images"@,
            description: "Pulling Bound Images"@,
            id: "bound_images"@,
            completed,
        },
        _ => SubTaskStepView {
            subtask: "cleanup"@,
            description: "Removing old images"@,
            id: "cleanup"@,
            completed,
        },
    }
}

/// The parts that were completed before a phase.
pub open spec fn completed_before(p: StagePhase) -> Seq<SubTaskStepView> {
    let merging = part_of(StagePhase::Merging, true);
    let deploying = part_of(StagePhase::Deploying, true);
    let bound = part_of(StagePhase::BoundImages, true);
    let cleanup = part_of(StagePhase::Cleanup, true);
    match p {
        StagePhase::Merging => seq![],
        StagePhase::Deploying => seq![merging],
        StagePhase::BoundImages => seq![merging, deploying],
        StagePhase::Cleanup => seq![merging, deploying, bound],
        StagePhase::Done => seq![merging, deploying, bound, cleanup],
    }
}

/// The part that an event names last: the one at work, or the last one again when all is done.
pub open spec fn current_part(p: StagePhase) -> SubTaskStepView {
    part_of(p, p is Done)
}

/// The event of a phase.
pub open spec fn stage_event(digest: Seq<char>, p: StagePhase) -> EventView {
    EventView::ProgressSteps {
        task: "staging"@,
        description: "Deploying Image"@,
        id: digest,
        steps_cached: 0,
        steps: steps_of(p),
        steps_total: STAGE_STEPS,
        subtasks: completed_before(p).push(current_part(p)),
    }
}

/// The state of staging an image.
#[derive(Debug)]
pub struct Stage {
    digest: String,
    phase: StagePhase,
    subtask: SubTaskStep,
    subtasks: Vec<SubTaskStep>,
}

fn set_part(part: &mut SubTaskStep, subtask: &str, description: &str)
    ensures
        final(part)@ == (SubTaskStepView {
            subtask: subtask@,
            description: description@,
            id: subtask@,
            completed: false,
        }),
{
    part.subtask = subtask.to_owned();
    part.id = subtask.to_owned();
    part.description = description.to_owned();
    part.completed = false;
}

impl Stage {
    /// The parts are those of the phase.
    #[verifier::type_invariant]
    spec fn inv(self) -> bool {
        &&& self.subtask@ == current_part(self.phase)
        &&& step_views(self.subtasks@) == completed_before(self.phase)
    }

    /// The digest of the image that is staged.
    pub closed spec fn staged_digest(self) -> Seq<char> {
        self.digest@
    }

    /// The phase that staging is in.
    pub closed spec fn current_phase(self) -> StagePhase {
        self.phase
    }

    /// Staging begins with the merge.
    pub fn new(image: &ImageState) -> (r: Stage)
        ensures
            r.staged_digest() == image.manifest_digest@,
            r.current_phase() is Merging,
    {
        let subtask = SubTaskStep {
            subtask: "merging".to_owned(),
            description: "Merging Image".to_owned(),
            id: "fetching".to_owned(),
            completed: false,
        };
        let subtasks: Vec<SubTaskStep> = Vec::new();
        assert(step_views(subtasks@) == Seq::<SubTaskStepView>::empty());
        Stage {
            digest: image.manifest_digest.as_str().to_owned(),
            phase: StagePhase::Merging,
            subtask,
            subtasks,
        }
    }

    /// The phase that staging is in.
    pub fn phase(&self) -> (r: StagePhase)
        ensures
            r == self.current_phase(),
    {
        self.phase
    }

    /// The event to send in this phase.
    pub fn event(&self) -> (r: Event)
        ensures
            r@ == stage_event(self.staged_digest(), self.current_phase()),
    {
        proof {
            use_type_invariant(self);
        }
        let steps: u64 = match self.phase {
            StagePhase::Merging => 0,
            StagePhase::Deploying => 1,
            StagePhase::BoundImages => 1,
            StagePhase::Cleanup => 2,
            StagePhase::Done => 3,
        };
        let subtasks = steps_with(&self.subtasks, &self.subtask);
        assert(step_views(subtasks@) == step_views(self.subtasks@).push(self.subtask@));
        Event::ProgressSteps {
            task: "staging".to_owned(),
            description: "Deploying Image".to_owned(),
            id: self.digest.clone(),
            steps_cached: 0,
            steps,
            steps_total: STAGE_STEPS,
            subtasks,
        }
    }

    /// The work of this phase, which comes after its event.
    pub fn work(&self) -> (r: StageWork)
        ensures
            r == work_of(self.current_phase()),
    {
        match self.phase {
            StagePhase::Merging => StageWork::Nothing,
            StagePhase::Deploying => StageWork::Deploy,
            StagePhase::BoundImages => StageWork::PullBoundImages,
            StagePhase::Cleanup => StageWork::Cleanup,
            StagePhase::Done => StageWork::WriteRebootRequired,
        }
    }

    /// The content of the file that signals that a reboot is required for the staged image.
    pub fn reboot_required(&self) -> (r: String)
        ensures
            r@ == reboot_text(self.staged_digest()),
    {
        write_reboot_required(self.digest.as_str())
    }

    /// Goes on to the next phase: the part at work is completed. When all is done, nothing changes.
    pub fn advance(&mut self)
        ensures
            final(self).staged_digest() == old(self).staged_digest(),
            final(self).current_phase() == next_phase(old(self).current_phase()),
    {
        proof {
            use_type_invariant(&*self);
        }
        let mut subtask = self.subtask.clone();
        subtask.completed = true;
        let ghost done = part_of(self.phase, true);
        let phase = match self.phase {
            StagePhase::Merging => StagePhase::Deploying,
            StagePhase::Deploying => StagePhase::BoundImages,
            StagePhase::BoundImages => StagePhase::Cleanup,
            StagePhase::Cleanup => StagePhase::Done,
            StagePhase::Done => {
                return ;
            },
        };
        let subtasks = steps_with(&self.subtasks, &subtask);
        assert(step_views(subtasks@) == completed_before(self.phase).push(done));
        match phase {
            StagePhase::Deploying => set_part(&mut subtask, "deploying", "Deploying Image"),
            StagePhase::BoundImages => {
                set_part(&mut subtask, "bound_images", "Pulling Bound Images")
            },
            StagePhase::Cleanup => set_part(&mut subtask, "cleanup", "Removing old images"),
            _ => (),
        }
        assert(step_views(subtasks@) == completed_before(phase));
        let digest = self.digest.clone();
        *self = Stage { digest, phase, subtask, subtasks };
    }

    /// Goes on to the next phase once the work of this one is done; if that work failed, staging ends
    /// there.
    pub fn after<E>(self, outcome: Result<(), E>) -> (r: Result<Stage, E>)
        ensures
            match phase_after(self.current_phase(), outcome) {
                Ok(phase) => {
                    &&& r is Ok
                    &&& r->Ok_0.staged_digest() == self.staged_digest()
                    &&& r->Ok_0.current_phase() == phase
                },
                Err(e) => r is Err && r->Err_0 == e,
            },
            r is Ok <==> outcome is Ok,
            r is Ok ==> r->Ok_0.staged_digest() == self.staged_digest(),
            r is Ok ==> r->Ok_0.current_phase() == next_phase(self.current_phase()),
            r is Err ==> r->Err_0 == outcome->Err_0,
    {
        match outcome {
            Ok(()) => {
                let mut next = self;
                next.advance();
                Ok(next)
            },
            Err(e) => Err(e),
        }
    }
}

/// The lines that say what was staged.
pub open spec fn staged_texts(shown: Seq<char>, image: ImageState) -> Seq<Seq<char>> {
    let first = "Queued for next boot: "@ + shown;
    let last = "  Digest: "@ + image.manifest_digest@;
    match image.version {
        Some(version) => seq![first, "  Version: "@ + version@, last],
        None => seq![first, last],
    }
}

/// The lines that say what was staged; the image is shown as `shown`.
pub fn staged_lines(shown: &str, image: &ImageState) -> (r: Vec<String>)
    ensures
        r@.map_values(|s: String| s@) == staged_texts(shown@, *image),
        r@.len() == (if image.version is Some {
            3int
        } else {
            2int
        }),
        r@[0]@ == "Queued for next boot: "@ + shown@,
        image.version is Some ==> r@[1]@ == "  Version: "@ + image.version->0@,
        r@.last()@ == "  Digest: "@ + image.manifest_digest@,
{
    let mut lines: Vec<String> = Vec::new();
    lines.push("Queued for next boot: ".to_owned().concat(shown));
    if let Some(version) = &image.version {
        lines.push("  Version: ".to_owned().concat(version.as_str()));
    }
    lines.push("  Digest: ".to_owned().concat(image.manifest_digest.as_str()));
    assert(lines@.map_values(|s: String| s@) == staged_texts(shown@, *image));
    lines
}

/// The file, below `/run`, that signals that a reboot is required.
pub const REBOOT_REQUIRED: &'static str = "reboot-required";

/// What that file says: the image will be active after a reboot.
pub open spec fn reboot_text(image: Seq<char>) -> Seq<char> {
    "bootc: Reboot required for image: "@ + image
}

/// The content of the file that signals that a reboot is required for the image to be active.
pub fn write_reboot_required(image: &str) -> (r: String)
    ensures
        r@ == reboot_text(image@),
        r@ == "bootc: Reboot required for image: "@ + image@,
{
    "bootc: Reboot required for image: ".to_owned().concat(image)
}

// ---------------------------------------------------------------------------
// Laws

/// The phase after `n` steps from the first.
pub open spec fn phase_at(n: nat) -> StagePhase
    decreases n,
{
    if n == 0 {
        StagePhase::Merging
    } else {
        next_phase(phase_at((n - 1) as nat))
    }
}

/// Staging does its work in order, once each, and ends.
pub proof fn stage_runs_through(n: nat)
    ensures
        work_of(phase_at(0)) is Nothing,
        work_of(phase_at(1)) is Deploy,
        work_of(phase_at(2)) is PullBoundImages,
        work_of(phase_at(3)) is Cleanup,
        work_of(phase_at(4)) is WriteRebootRequired,
        n >= 4 ==> phase_at(n) is Done,
        phase_at(0) is Merging,
        phase_at(n + 1) == next_phase(phase_at(n)),
    decreases n,
{
    reveal_with_fuel(phase_at, 5);
    if n > 4 {
        stage_runs_through((n - 1) as nat);
    }
}

/// From phase to phase the count of steps does not fall and stays within the total, which it reaches
/// when all is done; what was completed stays completed; and only the part named last may be at work.
pub proof fn stage_only_moves_on(p: StagePhase)
    ensures
        steps_of(p) <= steps_of(next_phase(p)) <= STAGE_STEPS,
        steps_of(p) == STAGE_STEPS <==> p is Done,
        completed_before(p).is_prefix_of(completed_before(next_phase(p))),
        forall|k: int|
            0 <= k < completed_before(p).len() ==> (#[trigger] completed_before(p)[k]).completed,
        current_part(p).completed <==> p is Done,
        !(p is Done) ==> completed_before(next_phase(p)) == completed_before(p).push(
            part_of(p, true),
        ),
{
    assert(!(p is Done) ==> completed_before(next_phase(p)) =~= completed_before(p).push(
        part_of(p, true),
    ));
}

/// What staging comes to where the work of its phases ends like this, from the first on: a phase, or
/// the error that ended it.
pub open spec fn stage_run<E>(outcomes: Seq<Result<(), E>>) -> Result<StagePhase, E>
    decreases outcomes.len(),
{
    if outcomes.len() == 0 {
        Ok(StagePhase::Merging)
    } else {
        match stage_run(outcomes.drop_last()) {
            Ok(p) => phase_after(p, outcomes.last()),
            Err(e) => Err(e),
        }
    }
}

/// The phases that staging entered by then. Those are the ones whose event was sent and whose work was
/// begun.
pub open spec fn phases_entered<E>(outcomes: Seq<Result<(), E>>) -> Seq<StagePhase>
    decreases outcomes.len(),
{
    if outcomes.len() == 0 {
        seq![StagePhase::Merging]
    } else {
        let before = phases_entered(outcomes.drop_last());
        match stage_run(outcomes) {
            Ok(p) => before.push(p),
            Err(_) => before,
        }
    }
}

proof fn phases_in_order<E>(outcomes: Seq<Result<(), E>>)
    ensures
        stage_run(outcomes) is Ok <==> forall|k: int|
            0 <= k < outcomes.len() ==> (#[trigger] outcomes[k]) is Ok,
        stage_run(outcomes) is Ok ==> stage_run(outcomes)->Ok_0 == phase_at(outcomes.len()),
        stage_run(outcomes) is Ok ==> phases_entered(outcomes).len() == outcomes.len() + 1,
        forall|k: int|
            0 <= k < outcomes.len() && (#[trigger] outcomes[k]) is Err ==> phases_entered(
                outcomes,
            ).len() <= k + 1,
        forall|i: int|
            0 <= i < phases_entered(outcomes).len() ==> #[trigger] phases_entered(outcomes)[i]
                == phase_at(i as nat),
    decreases outcomes.len(),
{
    if outcomes.len() > 0 {
        let before = outcomes.drop_last();
        phases_in_order(before);
        assert forall|k: int| 0 <= k < before.len() implies #[trigger] before[k]
            == outcomes[k] by {}
        assert forall|k: int|
            0 <= k < outcomes.len() && (#[trigger] outcomes[k]) is Err implies phases_entered(
            outcomes,
        ).len() <= k + 1 by {
            if k < before.len() {
                assert(before[k] is Err);
            }
        }
        if stage_run(outcomes) is Ok {
            assert forall|k: int| 0 <= k < outcomes.len() implies (
            #[trigger] outcomes[k]) is Ok by {
                if k < before.len() {
                    assert(before[k] is Ok);
                }
            }
        }
    }
}

/// Where the work of a phase failed, staging ends with that error: no later phase is entered. So no
/// later work is begun, and if it was not the reboot signal itself that failed, no event says that all
/// steps are done and no reboot signal is written.
pub proof fn failed_stage_ends<E>(outcomes: Seq<Result<(), E>>, k: int)
    requires
        0 <= k < outcomes.len(),
        outcomes[k] is Err,
        forall|i: int| 0 <= i < k ==> (#[trigger] outcomes[i]) is Ok,
    ensures
        stage_run(outcomes) is Err,
        stage_run(outcomes)->Err_0 == outcomes[k]->Err_0,
        phases_entered(outcomes) == Seq::new((k + 1) as nat, |i: int| phase_at(i as nat)),
        k < 4 ==> forall|i: int|
            0 <= i < phases_entered(outcomes).len() ==> {
                let p = #[trigger] phases_entered(outcomes)[i];
                &&& !(p is Done)
                &&& steps_of(p) < STAGE_STEPS
                &&& !(work_of(p) is WriteRebootRequired)
            },
    decreases outcomes.len(),
{
    phases_in_order(outcomes);
    let before = outcomes.drop_last();
    if k < before.len() {
        assert(before[k] is Err);
        assert forall|i: int| 0 <= i < k implies (#[trigger] before[i]) is Ok by {
            assert(outcomes[i] is Ok);
        }
        failed_stage_ends(before, k);
    } else {
        phases_in_order(before);
        assert forall|i: int| 0 <= i < before.len() implies (#[trigger] before[i]) is Ok by {
            assert(outcomes[i] is Ok);
        }
    }
    assert(phases_entered(outcomes) == Seq::new((k + 1) as nat, |i: int| phase_at(i as nat)));
    reveal_with_fuel(phase_at, 5);
}

/// Where no work failed, staging enters every phase in order and ends up where all is done.
pub proof fn good_stage_is_done<E>(outcomes: Seq<Result<(), E>>)
    requires
        outcomes.len() == 4,
        forall|k: int| 0 <= k < outcomes.len() ==> (#[trigger] outcomes[k]) is Ok,
    ensures
        stage_run(outcomes) == Ok::<StagePhase, E>(StagePhase::Done),
        phases_entered(outcomes) == seq![
            StagePhase::Merging,
            StagePhase::Deploying,
            StagePhase::BoundImages,
            StagePhase::Cleanup,
            StagePhase::Done,
        ],
{
    phases_in_order(outcomes);
    reveal_with_fuel(phase_at, 5);
}

/// The origin of a deployment holds the image reference as a whole, so that it can be read back from
/// there, and origins of different references differ.
pub proof fn origin_holds_the_reference(a: Origin, x: Seq<char>, b: Origin, y: Seq<char>)
    requires
        is_origin_of(a, x),
        is_origin_of(b, y),
    ensures
        a.group@ == "origin"@,
        a.key@ == "container-image-reference"@,
        a.value@ == x,
        a.value@ == b.value@ <==> x == y,
{
}

/// What signals that a reboot is required ends in the image, as a whole, so that signals for different
/// images differ.
pub proof fn signal_holds_the_image(x: Seq<char>, y: Seq<char>)
    ensures
        reboot_text(x) == "bootc: Reboot required for image: "@ + x,
        reboot_text(x) == reboot_text(y) <==> x == y,
{
    let n = "bootc: Reboot required for image: "@.len() as int;
    assert(reboot_text(x).skip(n) == x);
    assert(reboot_text(y).skip(n) == y);
}

/// The phases, each with its work and the one that follows it.
pub proof fn phases_and_their_work()
    ensures
        next_phase(StagePhase::Merging) is Deploying,
        next_phase(StagePhase::Deploying) is BoundImages,
        next_phase(StagePhase::BoundImages) is Cleanup,
        next_phase(StagePhase::Cleanup) is Done,
        next_phase(StagePhase::Done) is Done,
        work_of(StagePhase::Merging) is Nothing,
        work_of(StagePhase::Deploying) is Deploy,
        work_of(StagePhase::BoundImages) is PullBoundImages,
        work_of(StagePhase::Cleanup) is Cleanup,
        work_of(StagePhase::Done) is WriteRebootRequired,
{
}

/// The event of a phase names the image by its digest, and nothing else in it depends on the image. It
/// lists the parts in order, those before the phase as completed and that of the phase as not; the last
/// event lists them all as completed, and the last one twice.
pub proof fn stage_event_lists_parts(digest: Seq<char>, other: Seq<char>, p: StagePhase)
    ensures
        ({
            let event = stage_event(digest, p);
            let parts = event->ProgressSteps_subtasks;
            let named = |k: int, subtask: Seq<char>, description: Seq<char>, id: Seq<char>|
                k < parts.len() ==> parts[k].subtask == subtask && parts[k].description
                    == description && parts[k].id == id;
            &&& event is ProgressSteps
            &&& event->ProgressSteps_task == "staging"@
            &&& event->ProgressSteps_description == "Deploying Image"@
            &&& event->ProgressSteps_id == digest
            &&& event->ProgressSteps_steps_cached == 0
            &&& event->ProgressSteps_steps_total == 3
            &&& event->ProgressSteps_steps == (match p {
                StagePhase::Merging => 0int,
                StagePhase::Deploying => 1,
                StagePhase::BoundImages => 1,
                StagePhase::Cleanup => 2,
                StagePhase::Done => 3,
            })
            &&& parts.len() == (match p {
                StagePhase::Merging => 1int,
                StagePhase::Deploying => 2,
                StagePhase::BoundImages => 3,
                StagePhase::Cleanup => 4,
                StagePhase::Done => 5,
            })
            &&& named(0, "merging"@, "Merging Image"@, "fetching"@)
            &&& named(1, "deploying"@, "Deploying Image"@, "deploying"@)
            &&& named(2, "bound_images"@, "Pulling Bound Images"@, "bound_images"@)
            &&& named(3, "cleanup"@, "Removing old images"@, "cleanup"@)
            &&& named(4, "cleanup"@, "Removing old images"@, "cleanup"@)
            &&& forall|k: int|
                0 <= k < parts.len() ==> ((#[trigger] parts[k]).completed <==> k + 1 < parts.len()
                    || p is Done)
            &&& stage_event(other, p)->ProgressSteps_subtasks == parts
            &&& stage_event(other, p)->ProgressSteps_steps == event->ProgressSteps_steps
        }),
{
}

/// The names of the signal's file and of an origin's entry.
pub proof fn names_of_files_and_entries()
    ensures
        REBOOT_REQUIRED@ == "reboot-required"@,
        ORIGIN_GROUP@ == "origin"@,
        ORIGIN_CONTAINER@ == "container-image-reference"@,
{
}

} // verus!
