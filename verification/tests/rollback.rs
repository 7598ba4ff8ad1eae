use bootc_deploy::digest::Digest;
use bootc_deploy::rollback::{plan_rollback, reboot_signal, rollback, RollbackTarget};
use bootc_deploy::spec::{BootOrder, HostSpec, ImageReference};

const SHA: &str = "sha256:6c3c624b58dbbcd3c0dd82b4c53f04194d1247c6eebdaab7c610cf7d66709b3b";

const BOOTED: &str = "sha256:db6ce39b9cb3a1aba8bb9e8dd2f1f3e1f3f0ab3f25ec30f8e24d25a2ad1a2dd2";

fn booted_image() -> Option<Digest> {
    Some(Digest::parse(BOOTED).unwrap())
}

fn spec(boot_order: BootOrder) -> HostSpec {
    HostSpec {
        image: Some(ImageReference {
            image: "quay.io/a/b".into(),
            transport: "registry".into(),
            signature: None,
        }),
        boot_order,
    }
}

fn target() -> RollbackTarget {
    RollbackTarget::Image(Digest::parse(SHA).unwrap())
}

#[test]
fn rolling_back() {
    let plan = plan_rollback(&spec(BootOrder::Default)).unwrap();
    assert_eq!(plan.new_spec.boot_order, BootOrder::Rollback);
    assert_eq!(plan.new_spec.image.as_ref().unwrap().image, "quay.io/a/b");
    assert!(!plan.reverting);
    assert_eq!(plan.notice(), None);
    let r = rollback(&plan, target(), booted_image(), "booted", Some("rollback"), vec!["x", "y"])
        .unwrap();
    assert_eq!(r.new_deployments, vec!["rollback", "booted", "x", "y"]);
    assert_eq!(r.message, "Next boot: rollback deployment");
    assert_eq!(r.reboot_required, format!("bootc: Reboot required for image: {SHA}"));
}

#[test]
fn taking_a_rollback_back() {
    let first = plan_rollback(&spec(BootOrder::Default)).unwrap();
    let plan = plan_rollback(&first.new_spec).unwrap();
    assert_eq!(plan.new_spec.boot_order, BootOrder::Default);
    assert!(plan.reverting);
    assert_eq!(plan.notice(), Some("notice: Reverting queued rollback state"));
    let r = rollback(&plan, target(), booted_image(), 1, Some(2), vec![3]).unwrap();
    assert_eq!(r.new_deployments, vec![1, 2, 3]);
    assert_eq!(r.message, "Next boot: current deployment");
    assert_eq!(r.reboot_required, format!("bootc: Reboot required for image: {BOOTED}"));
}

#[test]
fn booted_image_not_known() {
    let plan = plan_rollback(&spec(BootOrder::Rollback)).unwrap();
    let r = rollback(&plan, target(), None, 1, Some(2), vec![3]).unwrap();
    assert_eq!(r.new_deployments, vec![1, 2, 3]);
    assert_eq!(r.reboot_required, format!("bootc: Reboot required for image: {SHA}"));
    let plan = plan_rollback(&spec(BootOrder::Default)).unwrap();
    let r = rollback(&plan, target(), None, 1, Some(2), vec![3]).unwrap();
    assert_eq!(r.new_deployments, vec![2, 1, 3]);
    assert_eq!(r.reboot_required, format!("bootc: Reboot required for image: {SHA}"));
}

#[test]
fn signal_follows_the_first_deployment() {
    let image = |d: &str| if d == "booted" { BOOTED } else { SHA };
    for order in [BootOrder::Default, BootOrder::Rollback] {
        let plan = plan_rollback(&spec(order)).unwrap();
        let r = rollback(&plan, target(), booted_image(), "booted", Some("rollback"), vec![])
            .unwrap();
        let signal = reboot_signal(&plan, &Digest::parse(SHA).unwrap(), &booted_image());
        assert!(signal.ends_with(image(r.new_deployments[0])));
        assert_eq!(r.reboot_required, signal);
    }
}

#[test]
fn nothing_to_roll_back_to() {
    let plan = plan_rollback(&spec(BootOrder::Default)).unwrap();
    let e = rollback(&plan, RollbackTarget::Missing, None, 1, None, vec![]).unwrap_err();
    assert_eq!(e.message("", ""), "No rollback available");
    let e = rollback(&plan, RollbackTarget::NotAnImage, None, 1, Some(2), vec![]).unwrap_err();
    assert_eq!(e.message("", ""), "Rollback is not container image based");
}
