//! Fetching an image: what is to be fetched, whether it fits, and what comes of it.
use vstd::prelude::*;
use vstd::string::StringExecFns;

use crate::digest::Digest;
use crate::error::DeployError;
use crate::event::{Event, EventView, SubTaskStep, SubTaskStepView, step_views};
use crate::image::{
    check_bootc_label, compat_label, label_notice, new_proxy_config, Descriptor, ImageState,
    LayeredImageState, ProxyConfig, USER_AGENT,
};
use crate::spec::{ImageReference, ImageReferenceView};
use crate::text::str_eq;

verus! {

/// The transport that reads an image from local container storage.
pub const CONTAINERS_STORAGE: &'static str = "containers-storage";

/// The sum of the layers' sizes.
pub open spec fn total_size(layers: Seq<Descriptor>) -> nat
    decreases layers.len(),
{
    if layers.len() == 0 {
        0
    } else {
        total_size(layers.drop_last()) + layers.last().size as nat
    }
}

/// What is known of an image that is about to be fetched.
#[derive(Debug)]
pub struct PreparedImportMeta {
    pub digest: Digest,
    pub n_layers_to_fetch: usize,
    pub layers_total: usize,
    pub bytes_to_fetch: u64,
    pub bytes_total: u64,
}

/// What preparing a fetch ends in.
#[derive(Debug)]
pub enum PreparedPullResult {
    Ready(PreparedImportMeta),
    AlreadyPresent(ImageState),
}

/// What the importer reports of an image.
#[derive(Debug)]
pub enum PrepareResult {
    /// The store holds the image.
    AlreadyPresent(LayeredImageState),
    /// The image can be fetched; these are its manifest's digest and its configuration's labels.
    Ready { manifest_digest: Digest, labels: Option<Vec<(String, String)>> },
}

/// What is to be done on the importer's report.
#[derive(Debug)]
pub enum PrepareStep {
    /// Print the message; there is nothing to fetch.
    Finish { message: String, image: ImageState },
    /// Give the notice, if there is one, then count the layers.
    CountLayers { notice: Option<String>, manifest_digest: Digest },
}

/// The sum of the layers' sizes, if it fits.
pub fn checked_total(layers: &Vec<Descriptor>) -> (r: Option<u64>)
    ensures
        r is Some <==> total_size(layers@) <= u64::MAX,
        r is Some ==> r->0 == total_size(layers@),
{
    let mut sum: u64 = 0;
    let mut i: usize = 0;
    while i < layers.len()
        invariant
            i <= layers.len(),
            sum == total_size(layers@.take(i as int)),
        decreases layers.len() - i,
    {
        let ghost next = layers@.take(i + 1);
        assert(next.drop_last() == layers@.take(i as int));
        proof {
            total_size_take(layers@, i + 1);
        }
        sum = match sum.checked_add(layers[i].size) {
            Some(s) => s,
            None => {
                return None;
            },
        };
        i = i + 1;
    }
    assert(layers@.take(i as int) == layers@);
    Some(sum)
}

proof fn total_size_take(layers: Seq<Descriptor>, n: int)
    requires
        0 <= n <= layers.len(),
    ensures
        total_size(layers.take(n)) <= total_size(layers),
    decreases layers.len() - n,
{
    if n < layers.len() {
        total_size_take(layers, n + 1);
        assert(layers.take(n + 1).drop_last() == layers.take(n));
    } else {
        assert(layers.take(n) == layers);
    }
}

/// The message for an image that the store already holds.
pub open spec fn no_changes_text(shown: Seq<char>, digest: Seq<char>) -> Seq<char> {
    "No changes in "@ + shown + " => "@ + digest
}

/// What is to be done on the importer's report on an image, which is shown to the user as `shown`.
pub fn prepare_for_pull(shown: &str, result: PrepareResult) -> (r: PrepareStep)
    ensures
        match result {
            PrepareResult::AlreadyPresent(c) => {
                &&& r is Finish
                &&& r->message@ == no_changes_text(shown@, c.manifest_digest@)
                &&& r->message@ == "No changes in "@ + shown@ + " => "@ + c.manifest_digest@
                &&& r->image.manifest_digest == c.manifest_digest
                &&& r->image.version == c.version
                &&& r->image.ostree_commit == c.merge_commit
            },
            PrepareResult::Ready { manifest_digest, labels } => {
                let notice = label_notice(
                    compat_label(
                        match labels {
                            Some(l) => Some(l@),
                            None => None,
                        },
                    ),
                );
                &&& r is CountLayers
                &&& r->manifest_digest == manifest_digest
                &&& r->notice is Some <==> notice is Some
                &&& r->notice is Some ==> r->notice->0@ == notice->0
            },
        },
{
    match result {
        PrepareResult::AlreadyPresent(c) => {
            let message = "No changes in ".to_owned().concat(shown).concat(" => ").concat(
                c.manifest_digest.as_str(),
            );
            PrepareStep::Finish { message, image: ImageState::from(c) }
        },
        PrepareResult::Ready { manifest_digest, labels } => {
            let notice = check_bootc_label(labels.as_ref());
            PrepareStep::CountLayers { notice, manifest_digest }
        },
    }
}

/// The counts of an image: how many layers and bytes there are, and how many of them are fetched.
pub fn prepared_import_meta(
    digest: Digest,
    layers_to_fetch: &Vec<Descriptor>,
    all_layers: &Vec<Descriptor>,
) -> (r: PreparedImportMeta)
    requires
        total_size(layers_to_fetch@) <= u64::MAX,
        total_size(all_layers@) <= u64::MAX,
    ensures
        r.digest == digest,
        r.n_layers_to_fetch == layers_to_fetch@.len(),
        r.layers_total == all_layers@.len(),
        r.bytes_to_fetch == total_size(layers_to_fetch@),
        r.bytes_total == total_size(all_layers@),
{
    PreparedImportMeta {
        digest,
        n_layers_to_fetch: layers_to_fetch.len(),
        layers_total: all_layers.len(),
        bytes_to_fetch: checked_total(layers_to_fetch).unwrap(),
        bytes_total: checked_total(all_layers).unwrap(),
    }
}

/// The same image, read from local container storage.
pub open spec fn in_containers_storage(imgref: ImageReferenceView) -> ImageReferenceView {
    ImageReferenceView { transport: CONTAINERS_STORAGE@, ..imgref }
}

/// The same image, read from local container storage.
pub fn containers_storage_imgref(imgref: &ImageReference) -> (r: ImageReference)
    ensures
        r@ == in_containers_storage(imgref@),
        r.image@ == imgref.image@,
        r.transport@ == "containers-storage"@,
        r.signature == imgref.signature,
{
    let copy = imgref.clone();
    ImageReference {
        transport: CONTAINERS_STORAGE.to_owned(),
        image: copy.image,
        signature: copy.signature,
    }
}

/// When an image is pulled into local container storage.
#[derive(Debug, Clone, Copy, PartialEq, Eq, Structural)]
pub enum PullMode {
    /// Only if the storage does not hold it.
    IfNotExists,
    /// In any case, so that the storage holds the latest one.
    Always,
}

/// A pull into local container storage.
#[derive(Debug)]
pub struct StoragePull {
    /// The image, with its transport.
    pub image: String,
    pub mode: PullMode,
    /// Shown meanwhile.
    pub message: String,
}

/// What is imported from local container storage, and how.
#[derive(Debug)]
pub struct UnifiedSource {
    pub imgref: ImageReference,
    pub config: ProxyConfig,
}

/// How an image is fetched by way of local container storage: it is pulled into the storage first, and
/// what is then imported is to be had only for the outcome of that pull.
#[derive(Debug)]
pub struct UnifiedPull {
    pull: StoragePull,
    source: UnifiedSource,
}

/// Whether the plan fetches the image by way of local container storage at `storage_path`.
/// `transport_image` names the image with its transport.
pub open spec fn is_unified_plan(
    plan: UnifiedPull,
    imgref: ImageReferenceView,
    transport_image: Seq<char>,
    storage_path: Seq<char>,
    user_agent: Seq<char>,
) -> bool {
    let pull = plan.first_pull();
    let source = plan.later_source();
    &&& pull.image@ == transport_image
    &&& pull.mode is Always
    &&& pull.message@ == "Pulling "@ + transport_image + " to bootc storage"@
    &&& source.imgref@ == in_containers_storage(imgref)
    &&& source.config.user_agent_prefix is Some
    &&& source.config.user_agent_prefix->0@ == user_agent
    &&& source.config.additional_image_store is Some
    &&& source.config.additional_image_store->0@ == storage_path
}

/// What comes after the pull into the storage: the import, or the error if the pull failed.
pub open spec fn after_pull<E>(plan: UnifiedPull, outcome: Result<(), E>) -> Result<
    UnifiedSource,
    E,
> {
    match outcome {
        Ok(_) => Ok(plan.later_source()),
        Err(e) => Err(e),
    }
}

/// How an image is fetched by way of local container storage, which lies at `storage_subpath` below
/// `physical_root`. `transport_image` names the image with its transport.
pub fn prepare_for_pull_unified(
    imgref: &ImageReference,
    transport_image: &str,
    physical_root: &str,
    storage_subpath: &str,
    version: &str,
) -> (r: UnifiedPull)
    ensures
        is_unified_plan(
            r,
            imgref@,
            transport_image@,
            physical_root@ + "/"@ + storage_subpath@,
            USER_AGENT@ + version@,
        ),
        r.first_pull().image@ == transport_image@,
        r.first_pull().mode == PullMode::Always,
        r.first_pull().message@ == "Pulling "@ + transport_image@ + " to bootc storage"@,
        r.later_source().imgref.image@ == imgref.image@,
        r.later_source().imgref.transport@ == "containers-storage"@,
        r.later_source().imgref.signature == imgref.signature,
        r.later_source().config.user_agent_prefix is Some,
        r.later_source().config.user_agent_prefix->0@ == "bootc/"@ + version@,
        r.later_source().config.additional_image_store is Some,
        r.later_source().config.additional_image_store->0@ == physical_root@ + "/"@
            + storage_subpath@,
{
    let mut config = new_proxy_config(version);
    config.additional_image_store =
    Some(physical_root.to_owned().concat("/").concat(storage_subpath));
    let pull = StoragePull {
        image: transport_image.to_owned(),
        mode: PullMode::Always,
        message: "Pulling ".to_owned().concat(transport_image).concat(" to bootc storage"),
    };
    let source = UnifiedSource { imgref: containers_storage_imgref(imgref), config };
    UnifiedPull { pull, source }
}

impl UnifiedPull {
    /// The pull that is to be made first.
    pub closed spec fn first_pull(self) -> StoragePull {
        self.pull
    }

    /// What is imported after it.
    pub closed spec fn later_source(self) -> UnifiedSource {
        self.source
    }

    /// The pull that is to be made first.
    pub fn storage_pull(&self) -> (r: &StoragePull)
        ensures
            *r == self.first_pull(),
    {
        &self.pull
    }

    /// Takes in how the pull ended, and says what is to be imported; if the pull failed, that is
    /// nothing.
    pub fn pulled<E>(self, outcome: Result<(), E>) -> (r: Result<UnifiedSource, E>)
        ensures
            r == after_pull(self, outcome),
            r is Ok <==> outcome is Ok,
            r is Ok ==> r->Ok_0 == self.later_source(),
            r is Err ==> r->Err_0 == outcome->Err_0,
    {
        match outcome {
            Ok(()) => Ok(self.source),
            Err(e) => Err(e),
        }
    }
}

/// The room on a filesystem: the size of a block, and how many blocks are available.
#[derive(Debug, Clone, Copy)]
pub struct FreeSpace {
    pub f_bsize: u64,
    pub f_bavail: u64,
}

impl FreeSpace {
    /// The room in bytes.
    pub open spec fn bytes(self) -> int {
        self.f_bsize * self.f_bavail
    }
}

/// Checks that the bytes to fetch fit on the filesystem.
pub fn check_disk_space(
    stat: FreeSpace,
    image_meta: &PreparedImportMeta,
    imgref: &ImageReference,
) -> (r: Result<(), DeployError>)
    requires
        stat.bytes() <= u64::MAX,
    ensures
        r is Ok <==> image_meta.bytes_to_fetch <= stat.bytes(),
        r is Ok <==> image_meta.bytes_to_fetch <= stat.f_bsize * stat.f_bavail,
        r is Err ==> {
            &&& r->Err_0->available == stat.f_bsize * stat.f_bavail
            &&& r->Err_0 is InsufficientSpace
            &&& r->Err_0->image@ == imgref.image@
            &&& r->Err_0->available == stat.bytes()
            &&& r->Err_0->required == image_meta.bytes_to_fetch
        },
{
    let bytes_avail: u64 = stat.f_bsize * stat.f_bavail;
    if image_meta.bytes_to_fetch > bytes_avail {
        return Err(
            DeployError::InsufficientSpace {
                image: imgref.image.clone(),
                available: bytes_avail,
                required: image_meta.bytes_to_fetch,
            },
        );
    }
    Ok(())
}

/// What is to be done with a prepared fetch.
#[derive(Debug)]
pub enum PullStep {
    /// Nothing: this image is there.
    Done(ImageState),
    /// Import the image, as `imgref`.
    Import { meta: PreparedImportMeta, imgref: ImageReference },
}

/// What is to be done with a fetch that was prepared. Before an import the filesystem must have been
/// measured.
pub fn pull(
    prepared: PreparedPullResult,
    space: Option<FreeSpace>,
    imgref: &ImageReference,
) -> (r: Result<PullStep, DeployError>)
    requires
        prepared is Ready ==> space is Some && space->0.bytes() <= u64::MAX,
    ensures
        match prepared {
            PreparedPullResult::AlreadyPresent(existing) => r is Ok && r->Ok_0 == PullStep::Done(
                existing,
            ),
            PreparedPullResult::Ready(meta) => {
                let available = space->0.bytes();
                &&& r is Ok <==> meta.bytes_to_fetch <= available
                &&& r is Ok <==> meta.bytes_to_fetch <= space->0.f_bsize * space->0.f_bavail
                &&& r is Err ==> r->Err_0->available == space->0.f_bsize * space->0.f_bavail
                &&& r is Ok ==> r->Ok_0 == PullStep::Import { meta, imgref: *imgref }
                &&& r is Err ==> {
                    &&& r->Err_0 is InsufficientSpace
                    &&& r->Err_0->image@ == imgref.image@
                    &&& r->Err_0->available == available
                    &&& r->Err_0->required == meta.bytes_to_fetch
                }
            },
        },
{
    match prepared {
        PreparedPullResult::AlreadyPresent(existing) => Ok(PullStep::Done(existing)),
        PreparedPullResult::Ready(meta) => {
            match check_disk_space(space.unwrap(), &meta, imgref) {
                Ok(()) => Ok(PullStep::Import { meta, imgref: imgref.clone() }),
                Err(e) => Err(e),
            }
        },
    }
}

/// What is to be done with a fetch that was prepared in local container storage: the import reads
/// from there.
pub fn pull_unified(prepared: PreparedPullResult, imgref: &ImageReference) -> (r: PullStep)
    ensures
        match prepared {
            PreparedPullResult::AlreadyPresent(existing) => r == PullStep::Done(existing),
            PreparedPullResult::Ready(meta) => {
                &&& r is Import
                &&& r->meta == meta
                &&& r->imgref@ == in_containers_storage(imgref@)
                &&& r->imgref.image@ == imgref.image@
                &&& r->imgref.transport@ == "containers-storage"@
                &&& r->imgref.signature == imgref.signature
            },
        },
{
    match prepared {
        PreparedPullResult::AlreadyPresent(existing) => PullStep::Done(existing),
        PreparedPullResult::Ready(meta) => PullStep::Import {
            meta,
            imgref: containers_storage_imgref(imgref),
        },
    }
}

/// The event about importing an image, before it is `completed` and after.
pub open spec fn import_event_view(digest: Seq<char>, completed: bool) -> EventView {
    EventView::ProgressSteps {
        task: "importing"@,
        description: "Importing Image"@,
        id: digest,
        steps_cached: 0,
        steps: if completed {
            1
        } else {
            0
        },
        steps_total: 1,
        subtasks: seq![
            SubTaskStepView {
                subtask: "importing"@,
                description: "Importing Image"@,
                id: "importing"@,
                completed,
            },
        ],
    }
}

/// The event about importing an image, before it is `completed` and after.
pub fn import_event(digest: &str, completed: bool) -> (r: Event)
    ensures
        r@ == import_event_view(digest@, completed),
{
    let part = SubTaskStep {
        subtask: "importing".to_owned(),
        description: "Importing Image".to_owned(),
        id: "importing".to_owned(),
        completed,
    };
    let subtasks = vec![part];
    assert(step_views(subtasks@) == seq![part@]);
    Event::ProgressSteps {
        task: "importing".to_owned(),
        description: "Importing Image".to_owned(),
        id: digest.to_owned(),
        steps_cached: 0,
        steps: if completed {
            1
        } else {
            0
        },
        steps_total: 1,
        subtasks,
    }
}

/// An image that was imported.
#[derive(Debug)]
pub struct Imported {
    pub image: ImageState,
    /// Whether the success is put on record here.
    pub log_success: bool,
}

/// What comes of an import.
#[derive(Debug)]
pub struct ImportEnd<E> {
    /// Sent first, whether the import failed or not.
    pub event: Event,
    pub result: Result<Imported, E>,
}

/// Whether the import of an image is put on record. An import from local container storage is not,
/// for the pull into the storage was.
pub open spec fn logs_success(imgref: ImageReferenceView) -> bool {
    imgref.transport != CONTAINERS_STORAGE@
}

/// What comes of an import of the manifest with the given digest.
pub fn pull_from_prepared<E>(
    imgref: &ImageReference,
    digest: &Digest,
    import: Result<LayeredImageState, E>,
) -> (r: ImportEnd<E>)
    ensures
        r.event@ == import_event_view(digest@, true),
        match import {
            Ok(state) => {
                &&& r.result is Ok
                &&& r.result->Ok_0.image.manifest_digest == state.manifest_digest
                &&& r.result->Ok_0.image.version == state.version
                &&& r.result->Ok_0.image.ostree_commit == state.merge_commit
                &&& r.result->Ok_0.log_success == logs_success(imgref@)
                &&& r.result->Ok_0.log_success <==> imgref.transport@ != "containers-storage"@
            },
            Err(e) => r.result is Err && r.result->Err_0 == e,
        },
{
    let event = import_event(digest.as_str(), true);
    let result = match import {
        Ok(state) => {
            let is_unified_path = str_eq(imgref.transport.as_str(), CONTAINERS_STORAGE);
            Ok(Imported { image: ImageState::from(state), log_success: !is_unified_path })
        },
        Err(e) => Err(e),
    };
    ImportEnd { event, result }
}

// ---------------------------------------------------------------------------
// Laws

/// An image that is fetched by way of local container storage is the same image, and its import is
/// not put on record a second time.
pub proof fn unified_import_is_logged_once(imgref: ImageReferenceView)
    ensures
        in_containers_storage(imgref).image == imgref.image,
        in_containers_storage(imgref).signature == imgref.signature,
        !logs_success(in_containers_storage(imgref)),
        in_containers_storage(in_containers_storage(imgref)) == in_containers_storage(imgref),
{
}

proof fn total_size_remove(layers: Seq<Descriptor>, i: int)
    requires
        0 <= i < layers.len(),
    ensures
        total_size(layers.remove(i)) + layers[i].size == total_size(layers),
    decreases layers.len(),
{
    if i == layers.len() - 1 {
        assert(layers.remove(i) == layers.drop_last());
    } else {
        total_size_remove(layers.drop_last(), i);
        assert(layers.remove(i).drop_last() == layers.drop_last().remove(i));
        assert(layers.remove(i).last() == layers.last());
    }
}

/// Layers that are all among an image's layers are no more, and no larger in sum, than those.
pub proof fn fetch_is_part_of_image(to_fetch: Seq<Descriptor>, all: Seq<Descriptor>)
    requires
        to_fetch.to_multiset().subset_of(all.to_multiset()),
    ensures
        to_fetch.len() <= all.len(),
        total_size(to_fetch) <= total_size(all),
    decreases to_fetch.len(),
{
    broadcast use vstd::seq_lib::group_to_multiset_ensures;

    if to_fetch.len() > 0 {
        let x = to_fetch.last();
        let rest = to_fetch.drop_last();
        assert(rest.push(x) == to_fetch);
        assert(to_fetch.to_multiset() == rest.to_multiset().insert(x));
        assert(to_fetch.to_multiset().count(x) > 0);
        assert(all.to_multiset().count(x) > 0);
        assert(all.contains(x));
        let i = choose|i: int| 0 <= i < all.len() && all[i] == x;
        assert(all.remove(i).to_multiset() == all.to_multiset().remove(x));
        assert forall|d: Descriptor| rest.to_multiset().count(d) <= #[trigger] all.remove(
            i,
        ).to_multiset().count(d) by {
            assert(to_fetch.to_multiset().count(d) <= all.to_multiset().count(d));
        }
        fetch_is_part_of_image(rest, all.remove(i));
        total_size_remove(all, i);
    }
}

/// What is done to an image that is fetched by way of local container storage.
#[verifier::ext_equal]
pub enum UnifiedAction {
    Pull { image: Seq<char>, mode: PullMode },
    Import { imgref: ImageReferenceView },
}

/// What is done by a plan whose pull ends like this, in the order in which it is done.
pub open spec fn unified_actions<E>(plan: UnifiedPull, outcome: Result<(), E>) -> Seq<
    UnifiedAction,
> {
    let pull = UnifiedAction::Pull {
        image: plan.first_pull().image@,
        mode: plan.first_pull().mode,
    };
    match after_pull(plan, outcome) {
        Ok(source) => seq![pull, UnifiedAction::Import { imgref: source.imgref@ }],
        Err(_) => seq![pull],
    }
}

/// An image that is fetched by way of local container storage is pulled there exactly once, before
/// anything else and whether or not the storage holds it. It is imported, from the storage, if and only
/// if that pull succeeds; if it fails, its error is what comes of it.
pub proof fn unified_pulls_first<E>(
    plan: UnifiedPull,
    imgref: ImageReferenceView,
    transport_image: Seq<char>,
    storage_path: Seq<char>,
    user_agent: Seq<char>,
    outcome: Result<(), E>,
)
    requires
        is_unified_plan(plan, imgref, transport_image, storage_path, user_agent),
    ensures
        ({
            let actions = unified_actions(plan, outcome);
            let import = UnifiedAction::Import { imgref: in_containers_storage(imgref) };
            &&& actions[0] == UnifiedAction::Pull { image: transport_image, mode: PullMode::Always }
            &&& forall|k: int| 0 < k < actions.len() ==> #[trigger] actions[k] == import
            &&& actions.contains(import) <==> outcome is Ok
            &&& outcome is Err ==> actions.len() == 1 && after_pull(plan, outcome) == Err::<
                UnifiedSource,
                E,
            >(outcome->Err_0)
        }),
{
    let actions = unified_actions(plan, outcome);
    if outcome is Ok {
        assert(actions[1] == UnifiedAction::Import { imgref: in_containers_storage(imgref) });
    }
}

/// The sum of the sizes of layers is that of its parts: nothing for no layer, the size of a layer for
/// one, and the sums of both for the layers of two lists.
pub proof fn sizes_add_up(a: Seq<Descriptor>, b: Seq<Descriptor>, layer: Descriptor)
    ensures
        total_size(Seq::empty()) == 0,
        total_size(seq![layer]) == layer.size,
        total_size(a + b) == total_size(a) + total_size(b),
    decreases b.len(),
{
    assert(seq![layer].drop_last() == Seq::<Descriptor>::empty());
    if b.len() == 0 {
        assert(a + b == a);
    } else {
        sizes_add_up(a, b.drop_last(), layer);
        assert((a + b).drop_last() == a + b.drop_last());
    }
}

/// The same image in local container storage has that transport and is otherwise unchanged; an import
/// is put on record exactly if it is not from there.
pub proof fn storage_import_is_told_apart(imgref: ImageReferenceView)
    ensures
        in_containers_storage(imgref) == (ImageReferenceView {
            image: imgref.image,
            transport: "containers-storage"@,
            signature: imgref.signature,
        }),
        logs_success(imgref) <==> imgref.transport != "containers-storage"@,
{
}

/// The event about an import names the image by its digest. It has one step, which is done exactly if
/// the import is completed, and one part, which says the same.
pub proof fn import_event_counts_one_step(digest: Seq<char>, completed: bool)
    ensures
        ({
            let event = import_event_view(digest, completed);
            let parts = event->ProgressSteps_subtasks;
            &&& event is ProgressSteps
            &&& event->ProgressSteps_task == "importing"@
            &&& event->ProgressSteps_description == "Importing Image"@
            &&& event->ProgressSteps_id == digest
            &&& event->ProgressSteps_steps_cached == 0
            &&& event->ProgressSteps_steps_total == 1
            &&& event->ProgressSteps_steps == 1 <==> completed
            &&& event->ProgressSteps_steps == 0 <==> !completed
            &&& parts.len() == 1
            &&& parts[0].completed == completed
            &&& parts[0].subtask == "importing"@
            &&& parts[0].description == "Importing Image"@
            &&& parts[0].id == "importing"@
        }),
{
}

} // verus!
