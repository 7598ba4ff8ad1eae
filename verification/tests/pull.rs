use bootc_deploy::digest::Digest;
use bootc_deploy::event::Event;
use bootc_deploy::image::{Descriptor, ImageState, LayeredImageState};
use bootc_deploy::pull::{
    check_disk_space, checked_total, containers_storage_imgref, import_event, prepare_for_pull,
    prepare_for_pull_unified, prepared_import_meta, pull, pull_from_prepared, pull_unified,
    FreeSpace, PrepareResult, PrepareStep, PreparedImportMeta, PreparedPullResult, PullMode,
    PullStep, UnifiedPull,
};
use bootc_deploy::spec::{ImageReference, ImageSignature};

const SHA: &str = "sha256:6c3c624b58dbbcd3c0dd82b4c53f04194d1247c6eebdaab7c610cf7d66709b3b";

fn digest() -> Digest {
    Digest::parse(SHA).unwrap()
}

fn imgref(transport: &str) -> ImageReference {
    ImageReference {
        image: "quay.io/exampleos/original:sometag".into(),
        transport: transport.into(),
        signature: Some(ImageSignature::ContainerPolicy),
    }
}

fn unified_plan() -> UnifiedPull {
    prepare_for_pull_unified(
        &imgref("registry"),
        "docker://quay.io/exampleos/original:sometag",
        "/sysroot",
        "ostree/bootc/storage",
        "1.12.1",
    )
}

fn stored(version: Option<&str>) -> LayeredImageState {
    LayeredImageState {
        merge_commit: "commit".into(),
        manifest_digest: digest(),
        version: version.map(|v| v.to_string()),
    }
}

fn layers(sizes: &[u64]) -> Vec<Descriptor> {
    sizes
        .iter()
        .map(|&size| Descriptor { digest: digest(), size })
        .collect()
}

fn meta(bytes_to_fetch: u64) -> PreparedImportMeta {
    prepared_import_meta(digest(), &layers(&[bytes_to_fetch]), &layers(&[bytes_to_fetch, 9]))
}

#[test]
fn already_present() {
    match prepare_for_pull("quay.io/a/b", PrepareResult::AlreadyPresent(stored(Some("1")))) {
        PrepareStep::Finish { message, image } => {
            assert_eq!(message, format!("No changes in quay.io/a/b => {SHA}"));
            assert_eq!(image.ostree_commit, "commit");
            assert_eq!(image.version.as_deref(), Some("1"));
            assert_eq!(image.manifest_digest.as_str(), SHA);
        }
        _ => panic!("nothing to fetch"),
    }
}

#[test]
fn ready_to_fetch() {
    for (labels, expected) in [
        (None, Some("notice: Image is missing label: containers.bootc")),
        (Some(vec![("containers.bootc".to_string(), "1".to_string())]), None),
    ] {
        match prepare_for_pull("x", PrepareResult::Ready { manifest_digest: digest(), labels }) {
            PrepareStep::CountLayers { notice, manifest_digest } => {
                assert_eq!(notice.as_deref(), expected);
                assert_eq!(manifest_digest.as_str(), SHA);
            }
            _ => panic!("to be fetched"),
        }
    }
}

#[test]
fn counting_layers() {
    let m = prepared_import_meta(digest(), &layers(&[3, 4]), &layers(&[1, 3, 4, 10]));
    assert_eq!((m.n_layers_to_fetch, m.layers_total), (2, 4));
    assert_eq!((m.bytes_to_fetch, m.bytes_total), (7, 18));
    assert_eq!(m.digest.as_str(), SHA);
    let m = prepared_import_meta(digest(), &layers(&[]), &layers(&[]));
    assert_eq!((m.n_layers_to_fetch, m.layers_total, m.bytes_to_fetch, m.bytes_total), (0, 0, 0, 0));
    assert_eq!(checked_total(&layers(&[u64::MAX, 0])), Some(u64::MAX));
    assert_eq!(checked_total(&layers(&[u64::MAX, 1])), None);
}

#[test]
fn disk_space() {
    let stat = FreeSpace { f_bsize: 4096, f_bavail: 10 };
    assert!(check_disk_space(stat, &meta(40960), &imgref("registry")).is_ok());
    let e = check_disk_space(stat, &meta(40961), &imgref("registry")).unwrap_err();
    assert_eq!(
        e.message("41.0 kB", "41.0 kB"),
        "Insufficient free space for quay.io/exampleos/original:sometag (available: 41.0 kB required: 41.0 kB)"
    );
    match e {
        bootc_deploy::error::DeployError::InsufficientSpace { available, required, .. } => {
            assert_eq!((available, required), (40960, 40961));
        }
        _ => panic!("too full"),
    }
    assert!(check_disk_space(FreeSpace { f_bsize: 0, f_bavail: 0 }, &meta(0), &imgref("registry")).is_ok());
}

#[test]
fn pulling() {
    let existing = ImageState::from(stored(None));
    match pull(PreparedPullResult::AlreadyPresent(existing), None, &imgref("registry")).unwrap() {
        PullStep::Done(image) => assert_eq!(image.ostree_commit, "commit"),
        _ => panic!("present"),
    }
    let space = Some(FreeSpace { f_bsize: 1, f_bavail: 5 });
    match pull(PreparedPullResult::Ready(meta(5)), space, &imgref("registry")).unwrap() {
        PullStep::Import { meta, imgref } => {
            assert_eq!(meta.bytes_to_fetch, 5);
            assert_eq!(imgref.transport, "registry");
        }
        _ => panic!("to be imported"),
    }
    assert!(pull(PreparedPullResult::Ready(meta(6)), space, &imgref("registry")).is_err());
}

#[test]
fn pulling_by_way_of_storage() {
    let plan = unified_plan();
    let first = plan.storage_pull();
    assert_eq!(first.image, "docker://quay.io/exampleos/original:sometag");
    assert_eq!(first.mode, PullMode::Always);
    assert_eq!(
        first.message,
        "Pulling docker://quay.io/exampleos/original:sometag to bootc storage"
    );
    let source = plan.pulled(Ok::<(), String>(())).unwrap();
    assert_eq!(source.imgref.transport, "containers-storage");
    assert_eq!(source.imgref.image, "quay.io/exampleos/original:sometag");
    assert!(matches!(source.imgref.signature, Some(ImageSignature::ContainerPolicy)));
    assert_eq!(source.config.user_agent_prefix.as_deref(), Some("bootc/1.12.1"));
    assert_eq!(
        source.config.additional_image_store.as_deref(),
        Some("/sysroot/ostree/bootc/storage")
    );

    match pull_unified(PreparedPullResult::Ready(meta(5)), &imgref("registry")) {
        PullStep::Import { imgref, .. } => assert_eq!(imgref.transport, "containers-storage"),
        _ => panic!("to be imported"),
    }
    let existing = ImageState::from(stored(None));
    assert!(matches!(
        pull_unified(PreparedPullResult::AlreadyPresent(existing), &imgref("registry")),
        PullStep::Done(_)
    ));
    assert_eq!(containers_storage_imgref(&imgref("oci")).transport, "containers-storage");
}

#[test]
fn a_pull_into_storage_that_fails() {
    let e = unified_plan().pulled(Err("no route to host")).unwrap_err();
    assert_eq!(e, "no route to host");
}

fn importing(e: &Event) -> (u64, bool) {
    match e {
        Event::ProgressSteps {
            task,
            description,
            id,
            steps_cached,
            steps,
            steps_total,
            subtasks,
        } => {
            assert_eq!((task.as_str(), description.as_str()), ("importing", "Importing Image"));
            assert_eq!(id, SHA);
            assert_eq!((*steps_cached, *steps_total), (0, 1));
            assert_eq!(subtasks.len(), 1);
            let t = &subtasks[0];
            assert_eq!(t.subtask, "importing");
            assert_eq!(t.description, "Importing Image");
            assert_eq!(t.id, "importing");
            (*steps, t.completed)
        }
        _ => panic!("another event"),
    }
}

#[test]
fn import_events() {
    assert_eq!(importing(&import_event(SHA, false)), (0, false));
    assert_eq!(importing(&import_event(SHA, true)), (1, true));
}

#[test]
fn end_of_an_import() {
    let end = pull_from_prepared::<String>(&imgref("registry"), &digest(), Ok(stored(Some("3"))));
    assert_eq!(importing(&end.event), (1, true));
    let imported = end.result.unwrap();
    assert!(imported.log_success);
    assert_eq!(imported.image.version.as_deref(), Some("3"));

    let end =
        pull_from_prepared::<String>(&imgref("containers-storage"), &digest(), Ok(stored(None)));
    assert!(!end.result.unwrap().log_success);

    let end = pull_from_prepared(&imgref("registry"), &digest(), Err("broken".to_string()));
    assert_eq!(importing(&end.event), (1, true));
    assert_eq!(end.result.unwrap_err(), "broken");
}
