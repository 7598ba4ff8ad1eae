use bootc_deploy::digest::Digest;
use bootc_deploy::event::Event;
use bootc_deploy::image::ImageState;
use bootc_deploy::stage::{
    deploy, origin_from_imageref, staged_lines, write_reboot_required, MergeDeployment,
    MergeState, Stage, StagePhase, StageWork,
};

const SHA: &str = "sha256:6c3c624b58dbbcd3c0dd82b4c53f04194d1247c6eebdaab7c610cf7d66709b3b";

fn image(version: Option<&str>) -> ImageState {
    ImageState {
        manifest_digest: Digest::parse(SHA).unwrap(),
        version: version.map(|v| v.to_string()),
        ostree_commit: "commit".into(),
    }
}

fn parts(e: &Event) -> (u64, Vec<(String, String, String, bool)>) {
    match e {
        Event::ProgressSteps {
            task,
            description,
            id,
            steps_cached,
            steps,
            steps_total,
            subtasks,
        } => {
            assert_eq!((task.as_str(), description.as_str()), ("staging", "Deploying Image"));
            assert_eq!(id, SHA);
            assert_eq!((*steps_cached, *steps_total), (0, 3));
            let parts = subtasks
                .iter()
                .map(|t| (t.subtask.clone(), t.description.clone(), t.id.clone(), t.completed))
                .collect();
            (*steps, parts)
        }
        _ => panic!("another event"),
    }
}

#[test]
fn staging_from_begin_to_end() {
    let part = |subtask: &str, description: &str, id: &str, completed: bool| {
        (subtask.to_string(), description.to_string(), id.to_string(), completed)
    };
    let merging = |c| part("merging", "Merging Image", "fetching", c);
    let deploying = |c| part("deploying", "Deploying Image", "deploying", c);
    let bound = |c| part("bound_images", "Pulling Bound Images", "bound_images", c);
    let cleanup = |c| part("cleanup", "Removing old images", "cleanup", c);

    let mut stage = Stage::new(&image(None));
    assert_eq!(parts(&stage.event()), (0, vec![merging(false)]));
    assert_eq!(stage.work(), StageWork::Nothing);
    stage.advance();
    assert_eq!(parts(&stage.event()), (1, vec![merging(true), deploying(false)]));
    assert_eq!(stage.work(), StageWork::Deploy);
    stage.advance();
    assert_eq!(
        parts(&stage.event()),
        (1, vec![merging(true), deploying(true), bound(false)])
    );
    assert_eq!(stage.work(), StageWork::PullBoundImages);
    stage.advance();
    assert_eq!(
        parts(&stage.event()),
        (2, vec![merging(true), deploying(true), bound(true), cleanup(false)])
    );
    assert_eq!(stage.work(), StageWork::Cleanup);
    stage.advance();
    let last = (
        3,
        vec![merging(true), deploying(true), bound(true), cleanup(true), cleanup(true)],
    );
    assert_eq!(parts(&stage.event()), last);
    assert_eq!(stage.work(), StageWork::WriteRebootRequired);
    assert_eq!(
        stage.reboot_required(),
        format!("bootc: Reboot required for image: {SHA}")
    );
    stage.advance();
    assert_eq!(stage.phase(), StagePhase::Done);
    assert_eq!(parts(&stage.event()), last);
}

#[test]
fn what_was_staged() {
    assert_eq!(
        staged_lines("quay.io/a/b", &image(Some("42.1"))),
        vec![
            "Queued for next boot: quay.io/a/b".to_string(),
            "  Version: 42.1".to_string(),
            format!("  Digest: {SHA}"),
        ]
    );
    assert_eq!(
        staged_lines("quay.io/a/b", &image(None)),
        vec!["Queued for next boot: quay.io/a/b".to_string(), format!("  Digest: {SHA}")]
    );
    assert_eq!(
        write_reboot_required(SHA),
        format!("bootc: Reboot required for image: {SHA}")
    );
}

#[test]
fn origins() {
    let origin = origin_from_imageref("ostree-unverified-registry:quay.io/a/b");
    assert_eq!(origin.group, "origin");
    assert_eq!(origin.key, "container-image-reference");
    assert_eq!(origin.value, "ostree-unverified-registry:quay.io/a/b");
}

#[test]
fn deploying() {
    let found = Some(MergeDeployment { stateroot: "default".into(), index: 2 });
    let from = MergeState::from_stateroot(found, "default").unwrap();
    assert_eq!(from.as_merge_deployment().unwrap().index, 2);
    let kargs = vec!["root=UUID=1".to_string(), "rw".to_string()];
    let origin = origin_from_imageref("quay.io/a");
    let tree = deploy(from, Some(kargs.clone()), &image(None), origin, true);
    assert_eq!(tree.stateroot, "default");
    assert_eq!(tree.ostree_commit, "commit");
    assert_eq!(tree.merge_deployment, Some(2));
    assert_eq!(tree.override_kernel_argv, kargs);
    assert_eq!(tree.origin.group, "origin");
    assert_eq!(tree.origin.key, "container-image-reference");
    assert_eq!(tree.origin.value, "quay.io/a");
    assert!(tree.locked);

    let from = MergeState::Reset { stateroot: "other".into(), kargs: vec!["quiet".into()] };
    assert!(from.as_merge_deployment().is_none());
    let tree = deploy(from, None, &image(None), origin_from_imageref("quay.io/b"), false);
    assert_eq!(tree.stateroot, "other");
    assert_eq!(tree.merge_deployment, None);
    assert_eq!(tree.override_kernel_argv, vec!["quiet".to_string()]);
    assert_eq!(tree.origin.value, "quay.io/b");
    assert!(!tree.locked);

    let e = MergeState::from_stateroot(None, "lost").unwrap_err();
    assert_eq!(e.message("", ""), "No merge deployment found for stateroot lost");
}

#[test]
fn work_that_fails_ends_staging() {
    let work =
        [StageWork::Nothing, StageWork::Deploy, StageWork::PullBoundImages, StageWork::Cleanup];
    for failing in 0..work.len() {
        let mut stage = Stage::new(&image(None));
        for w in &work[..failing] {
            assert_eq!(stage.work(), *w);
            stage = stage.after(Ok::<(), String>(())).unwrap();
        }
        assert_eq!(stage.work(), work[failing]);
        assert!(parts(&stage.event()).0 < 3);
        assert_ne!(stage.phase(), StagePhase::Done);
        assert_eq!(stage.after(Err("broken")).unwrap_err(), "broken");
    }
    let mut stage = Stage::new(&image(None));
    for _ in 0..4 {
        stage = stage.after(Ok::<(), String>(())).unwrap();
    }
    assert_eq!(stage.phase(), StagePhase::Done);
    assert_eq!(parts(&stage.event()).0, 3);
    assert_eq!(
        stage.reboot_required(),
        format!("bootc: Reboot required for image: {SHA}")
    );
}
