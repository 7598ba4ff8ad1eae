use bootc_deploy::cleanup::{
    base_ref_updates, prune_container_store, pruned_message, DeploymentImages, Pruned,
};

fn strings(v: &[&str]) -> Vec<String> {
    v.iter().map(|s| s.to_string()).collect()
}

#[test]
fn images_in_use() {
    let deployments = vec![
        DeploymentImages { bound: strings(&["a", "b", "a"]), host_image: Some("host".into()) },
        DeploymentImages { bound: strings(&["c", "b"]), host_image: None },
        DeploymentImages { bound: vec![], host_image: Some("host".into()) },
    ];
    let mut roots = prune_container_store(&deployments);
    roots.sort();
    assert_eq!(roots, strings(&["a", "b", "c", "host"]));
    assert!(prune_container_store(&vec![]).is_empty());
}

fn updates(existing: &[&str], bases: &[Option<&str>]) -> Vec<(String, Option<String>)> {
    let bases = bases.iter().map(|b| b.map(|b| b.to_string())).collect();
    base_ref_updates(&strings(existing), &bases)
        .into_iter()
        .map(|u| (u.refspec, u.commit))
        .collect()
}

#[test]
fn base_refs() {
    let prefix = "ostree/container/baseimage/bootc";
    let set = |i: usize, c: &str| (format!("{prefix}/{i}"), Some(c.to_string()));
    let unset = |i: usize| (format!("{prefix}/{i}"), None);
    assert_eq!(updates(&[], &[]), vec![]);
    assert_eq!(updates(&[], &[None, None]), vec![]);
    let existing = format!("{prefix}/0");
    let existing_too = format!("{prefix}/7");
    assert_eq!(
        updates(&[&existing, &existing_too], &[Some("x"), None, Some("y")]),
        vec![unset(0), unset(7), set(0, "x"), set(2, "y")]
    );
    let many: Vec<Option<&str>> = (0..124).map(|i| if i % 41 == 0 { Some("z") } else { None }).collect();
    assert_eq!(
        updates(&[], &many),
        vec![set(0, "z"), set(41, "z"), set(82, "z"), set(123, "z")]
    );
}

#[test]
fn what_was_pruned() {
    let pruned = Pruned { n_images: 2, n_layers: 10, n_objects_pruned: 305, objsize: 5000 };
    assert_eq!(
        pruned_message(&pruned, "5.0 kB"),
        Some("Pruned images: 2 (layers: 10, objsize: 5.0 kB)".to_string())
    );
    let objects = Pruned { n_images: 0, n_layers: 0, n_objects_pruned: 1, objsize: 0 };
    assert_eq!(
        pruned_message(&objects, "0 bytes"),
        Some("Pruned images: 0 (layers: 0, objsize: 0 bytes)".to_string())
    );
    let nothing = Pruned { n_images: 0, n_layers: 0, n_objects_pruned: 0, objsize: 77 };
    assert!(nothing.is_empty());
    assert_eq!(pruned_message(&nothing, "77 bytes"), None);
}
