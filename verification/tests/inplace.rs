use bootc_deploy::inplace::{
    deployment_entry, find_newest_deployment_name, search_step, switch_origin_inplace,
    DeploymentDir, Found, Search, DEPLOY_DIR, DEPLOY_ROOT,
};
use bootc_deploy::stage::origin_from_imageref;
use cap_std_ext::cap_std;
use cap_std_ext::cap_std::fs::{Dir, DirBuilderExt, MetadataExt};
use cap_std_ext::cap_tempfile::TempDir;
use cap_std_ext::dirext::CapStdExtDirExt;

/// The directory of deployments that the search takes.
fn deployments_of(root: &Dir) -> Dir {
    let mut entries = root.open_dir(DEPLOY_ROOT).unwrap().entries().unwrap();
    loop {
        let mut dir = None;
        let found = match entries.next() {
            None => Found::Nothing,
            Some(ent) => {
                let ent = ent.unwrap();
                if !ent.file_type().unwrap().is_dir() {
                    Found::Other
                } else {
                    dir = ent
                        .open_dir()
                        .unwrap()
                        .open_dir_optional(DEPLOY_DIR)
                        .unwrap();
                    if dir.is_some() {
                        Found::Deployments
                    } else {
                        Found::Empty
                    }
                }
            }
        };
        if search_step(found).unwrap() == Search::Take {
            return dir.unwrap();
        }
    }
}

/// The deployments in the directory.
fn dirs_of(deploydir: &Dir) -> Vec<DeploymentDir> {
    let mut dirs = Vec::new();
    for ent in deploydir.entries().unwrap() {
        let ent = ent.unwrap();
        let name = ent.file_name();
        if let Some(name) = deployment_entry(ent.file_type().unwrap().is_dir(), name.to_str()) {
            dirs.push(DeploymentDir { name, mtime: ent.metadata().unwrap().mtime() });
        }
    }
    dirs
}

#[test]
fn test_switch_inplace() {
    let td = TempDir::new(cap_std::ambient_authority()).unwrap();
    let mut builder = cap_std::fs::DirBuilder::new();
    let builder = builder.recursive(true).mode(0o755);
    let deploydir = "sysroot/ostree/deploy/default/deploy";
    let target_deployment = "af36eb0086bb55ac601600478c6168f834288013d60f8870b7851f44bf86c3c5.0";
    td.ensure_dir_with(
        format!("sysroot/ostree/deploy/default/deploy/{target_deployment}"),
        builder,
    )
    .unwrap();
    let deploydir = &td.open_dir(deploydir).unwrap();
    let orig_imgref = "ostree-unverified-registry:quay.io/exampleos/original:sometag";
    let origin = origin_from_imageref(orig_imgref);
    deploydir
        .atomic_write(
            format!("{target_deployment}.origin"),
            format!("[{}]\n{}={}\n", origin.group, origin.key, origin.value),
        )
        .unwrap();

    let target_imgref = "ostree-unverified-registry:quay.io/someother/otherimage:latest";
    let taken = deployments_of(&td);
    let switch = switch_origin_inplace(&dirs_of(&taken), target_imgref).unwrap();
    let origin = &switch.origin;
    taken
        .atomic_write(
            &switch.origin_path,
            format!("[{}]\n{}={}\n", origin.group, origin.key, origin.value),
        )
        .unwrap();
    assert_eq!(switch.deployment, target_deployment);
    assert_eq!(
        deploydir
            .read_to_string(format!("{target_deployment}.origin"))
            .unwrap(),
        "[origin]\ncontainer-image-reference=ostree-unverified-registry:quay.io/someother/otherimage:latest\n"
    );
}

fn dir(name: &str, mtime: i64) -> DeploymentDir {
    DeploymentDir { name: name.into(), mtime }
}

#[test]
fn newest_deployment() {
    let dirs = vec![dir("a", 5), dir("b", 9), dir("c", -3)];
    assert_eq!(find_newest_deployment_name(&dirs).unwrap(), "b");
    assert_eq!(find_newest_deployment_name(&vec![dir("x", -7)]).unwrap(), "x");
    let tied = find_newest_deployment_name(&vec![dir("a", 4), dir("b", 4), dir("c", 1)]).unwrap();
    assert!(tied == "a" || tied == "b");
    let switch = switch_origin_inplace(&dirs, "registry:quay.io/a/b").unwrap();
    assert_eq!(switch.deployment, "b");
    assert_eq!(switch.origin_path, "b.origin");
    assert_eq!(switch.origin.group, "origin");
    assert_eq!(switch.origin.key, "container-image-reference");
    assert_eq!(switch.origin.value, "registry:quay.io/a/b");
}

#[test]
fn no_deployment_directory() {
    let none = Vec::new();
    let e = find_newest_deployment_name(&none).unwrap_err();
    assert_eq!(e.message("", ""), "No deployment directory found");
    let e = switch_origin_inplace(&none, "registry:quay.io/a/b").unwrap_err();
    assert_eq!(e.message("", ""), "No deployment directory found");
}

#[test]
fn entries_that_count() {
    assert_eq!(deployment_entry(true, Some("a.0")), Some("a.0".to_string()));
    assert_eq!(deployment_entry(false, Some("a.0.origin")), None);
    assert_eq!(deployment_entry(true, None), None);
    assert_eq!(deployment_entry(false, None), None);
}

#[test]
fn searching() {
    assert_eq!(search_step(Found::Other).unwrap(), Search::Continue);
    assert_eq!(search_step(Found::Empty).unwrap(), Search::Continue);
    assert_eq!(search_step(Found::Deployments).unwrap(), Search::Take);
    let e = search_step(Found::Nothing).unwrap_err();
    assert_eq!(e.message("", ""), "Failed to find a deployment");
}
