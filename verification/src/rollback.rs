//! Going back to the previous deployment, and taking that back.
use vstd::prelude::*;

use crate::digest::Digest;
use crate::error::DeployError;
use crate::spec::{swapped, BootOrder, HostSpec};
use crate::stage::{reboot_text, write_reboot_required};

verus! {

/// A rollback that may be made.
#[derive(Debug)]
pub struct RollbackPlan {
    pub new_spec: HostSpec,
    /// Whether a rollback was queued, which is now taken back.
    pub reverting: bool,
}

/// The specification with the boot order swapped.
pub open spec fn swapped_spec(spec: HostSpec) -> HostSpec {
    HostSpec { boot_order: swapped(spec.boot_order), ..spec }
}

/// Whether a rollback is queued, so that the next one takes it back.
pub open spec fn is_reverting(spec: HostSpec) -> bool {
    spec.boot_order is Rollback
}

/// Plans the rollback of a host: its boot order is swapped, and nothing else.
pub fn plan_rollback(spec: &HostSpec) -> (r: Result<RollbackPlan, DeployError>)
    ensures
        r is Ok,
        r->Ok_0.new_spec == swapped_spec(*spec),
        r->Ok_0.reverting == is_reverting(*spec),
        r->Ok_0.new_spec.image == spec.image,
        r->Ok_0.new_spec.boot_order is Default <==> spec.boot_order is Rollback,
        r->Ok_0.reverting <==> spec.boot_order is Rollback,
{
    let mut new_spec = spec.clone();
    new_spec.boot_order = new_spec.boot_order.swap();
    match spec.verify_transition(&new_spec) {
        Ok(()) => {
            let reverting = new_spec.boot_order == BootOrder::Default;
            Ok(RollbackPlan { new_spec, reverting })
        },
        Err(e) => Err(e),
    }
}

impl RollbackPlan {
    /// What is said before anything is done.
    pub fn notice(&self) -> (r: Option<&'static str>)
        ensures
            r is Some <==> self.reverting,
            r is Some ==> r->0@ == "notice: Reverting queued rollback state"@,
    {
        if self.reverting {
            Some("notice: Reverting queued rollback state")
        } else {
            None
        }
    }
}

/// What there is to roll back to.
#[derive(Debug)]
pub enum RollbackTarget {
    /// Nothing.
    Missing,
    /// A deployment that did not come from a container image.
    NotAnImage,
    /// A deployment of the image whose manifest has this digest.
    Image(Digest),
}

/// A rollback that is made.
#[derive(Debug)]
pub struct Rollback<T> {
    /// The deployments in their new order; the first is booted next.
    pub new_deployments: Vec<T>,
    /// What is said once they are written.
    pub message: &'static str,
    /// The content of the file that signals that a reboot is required.
    pub reboot_required: String,
}

/// The deployments in their new order.
pub open spec fn rollback_order<T>(reverting: bool, booted: T, rollback: T, other: Seq<T>) -> Seq<
    T,
> {
    if reverting {
        seq![booted, rollback] + other
    } else {
        seq![rollback, booted] + other
    }
}

/// What is said once the deployments are written.
pub open spec fn next_boot_text(reverting: bool) -> Seq<char> {
    if reverting {
        "Next boot: current deployment"@
    } else {
        "Next boot: rollback deployment"@
    }
}

/// The image that the reboot signal names, which is the one that is active after a reboot: the one
/// rolled back to, or the booted one where a queued rollback is taken back. Where that would be the
/// booted one and it is not known, the image of the rollback deployment is named.
pub open spec fn next_image(
    reverting: bool,
    booted: Option<Seq<char>>,
    rollback: Seq<char>,
) -> Seq<char> {
    match booted {
        Some(image) => if reverting {
            image
        } else {
            rollback
        },
        None => rollback,
    }
}

/// The text of a digest, where there is one.
pub open spec fn digest_text(digest: Option<Digest>) -> Option<Seq<char>> {
    match digest {
        Some(d) => Some(d@),
        None => None,
    }
}

/// What signals that a reboot is required. It names the image that is active after that reboot, if
/// that image is known.
pub fn reboot_signal(
    plan: &RollbackPlan,
    rollback_image: &Digest,
    booted_image: &Option<Digest>,
) -> (r: String)
    ensures
        r@ == reboot_text(
            next_image(plan.reverting, digest_text(*booted_image), rollback_image@),
        ),
        plan.reverting && booted_image is Some ==> r@ == "bootc: Reboot required for image: "@
            + booted_image->0@,
        !plan.reverting || booted_image is None ==> r@ == "bootc: Reboot required for image: "@
            + rollback_image@,
{
    match booted_image {
        Some(image) => {
            if plan.reverting {
                write_reboot_required(image.as_str())
            } else {
                write_reboot_required(rollback_image.as_str())
            }
        },
        None => write_reboot_required(rollback_image.as_str()),
    }
}

/// Makes a planned rollback, or takes a queued one back. There must be something to roll back to, and
/// it must have come from a container image; where it did, its deployment is at hand. The image of the
/// booted deployment need not be known.
pub fn rollback<T>(
    plan: &RollbackPlan,
    target: RollbackTarget,
    booted_image: Option<Digest>,
    booted: T,
    rollback_deployment: Option<T>,
    other: Vec<T>,
) -> (r: Result<Rollback<T>, DeployError>)
    requires
        target is Image ==> rollback_deployment is Some,
    ensures
        match target {
            RollbackTarget::Missing => r is Err && r->Err_0 is NoRollback,
            RollbackTarget::NotAnImage => r is Err && r->Err_0 is RollbackNotContainer,
            RollbackTarget::Image(digest) => {
                &&& r is Ok
                &&& r->Ok_0.new_deployments@ == rollback_order(
                    plan.reverting,
                    booted,
                    rollback_deployment->0,
                    other@,
                )
                &&& r->Ok_0.message@ == next_boot_text(plan.reverting)
                &&& r->Ok_0.reboot_required@ == reboot_text(
                    next_image(plan.reverting, digest_text(booted_image), digest@),
                )
                &&& plan.reverting && booted_image is Some ==> r->Ok_0.reboot_required@
                    == "bootc: Reboot required for image: "@ + booted_image->0@
                &&& !plan.reverting || booted_image is None ==> r->Ok_0.reboot_required@
                    == "bootc: Reboot required for image: "@ + digest@
                &&& plan.reverting ==> {
                    &&& r->Ok_0.new_deployments@ == seq![booted, rollback_deployment->0] + other@
                    &&& r->Ok_0.message@ == "Next boot: current deployment"@
                }
                &&& !plan.reverting ==> {
                    &&& r->Ok_0.new_deployments@ == seq![rollback_deployment->0, booted] + other@
                    &&& r->Ok_0.message@ == "Next boot: rollback deployment"@
                }
            },
        },
{
    let digest = match target {
        RollbackTarget::Missing => {
            return Err(DeployError::NoRollback);
        },
        RollbackTarget::NotAnImage => {
            return Err(DeployError::RollbackNotContainer);
        },
        RollbackTarget::Image(digest) => digest,
    };
    let previous = rollback_deployment.unwrap();
    let ghost previous_g = previous;
    let ghost booted_g = booted;
    let mut new_deployments: Vec<T> = Vec::new();
    if plan.reverting {
        new_deployments.push(booted);
        new_deployments.push(previous);
    } else {
        new_deployments.push(previous);
        new_deployments.push(booted);
    }
    let mut other = other;
    let ghost other_g = other@;
    new_deployments.append(&mut other);
    assert(new_deployments@ == rollback_order(plan.reverting, booted_g, previous_g, other_g));
    Ok(
        Rollback {
            new_deployments,
            message: if plan.reverting {
                "Next boot: current deployment"
            } else {
                "Next boot: rollback deployment"
            },
            reboot_required: reboot_signal(plan, &digest, &booted_image),
        },
    )
}

// ---------------------------------------------------------------------------
// Laws

/// Rolling back is its own inverse: after a second rollback the specification is what it was.
pub proof fn rollback_twice(spec: HostSpec)
    ensures
        swapped_spec(swapped_spec(spec)) == spec,
        swapped_spec(spec).image == spec.image,
        swapped_spec(spec).boot_order != spec.boot_order,
{
}

/// Whichever way it goes, a rollback loses no deployment and adds none.
pub proof fn rollback_keeps_deployments<T>(booted: T, rollback: T, other: Seq<T>)
    ensures
        rollback_order(true, booted, rollback, other).to_multiset() == rollback_order(
            false,
            booted,
            rollback,
            other,
        ).to_multiset(),
{
    broadcast use vstd::seq_lib::group_to_multiset_ensures;

    let a = seq![booted, rollback];
    let b = seq![rollback, booted];
    let e = Seq::<T>::empty();
    assert(a == e.push(booted).push(rollback));
    assert(b == e.push(rollback).push(booted));
    assert(a.to_multiset() =~= b.to_multiset());
    vstd::seq_lib::lemma_multiset_commutative(a, other);
    vstd::seq_lib::lemma_multiset_commutative(b, other);
}

/// A rollback boots the previous deployment next; a second one before a reboot takes that back, and
/// the booted deployment is first again.
pub proof fn rollback_then_revert<T>(spec: HostSpec, booted: T, rollback: T, other: Seq<T>)
    requires
        spec.boot_order is Default,
    ensures
        rollback_order(is_reverting(spec), booted, rollback, other)[0] == rollback,
        rollback_order(is_reverting(swapped_spec(spec)), booted, rollback, other) == seq![
            booted,
            rollback,
        ] + other,
{
}

/// Whichever way it goes, the image that the reboot signal names is that of the deployment which is
/// booted next, wherever the images of both are known.
pub proof fn signal_names_next_boot<T>(
    reverting: bool,
    booted: T,
    rollback: T,
    other: Seq<T>,
    image_of: spec_fn(T) -> Option<Seq<char>>,
)
    requires
        image_of(rollback) is Some,
        reverting ==> image_of(booted) is Some,
    ensures
        image_of(rollback_order(reverting, booted, rollback, other)[0]) == Some(
            next_image(reverting, image_of(booted), image_of(rollback)->0),
        ),
{
}

} // verus!
