//! What a host should run.
use vstd::prelude::*;

use crate::error::DeployError;
use crate::text::str_eq;

verus! {

/// How the signature of an image is verified.
#[derive(Debug)]
pub enum ImageSignature {
    /// By the named ostree remote.
    OstreeRemote(String),
    /// By the container policy of the host, which must not accept anything.
    ContainerPolicy,
    /// Not at all.
    Insecure,
}

/// A container image and how it is fetched.
#[derive(Debug)]
pub struct ImageReference {
    pub image: String,
    pub transport: String,
    pub signature: Option<ImageSignature>,
}

/// Which deployment is booted by default.
#[derive(Debug, Clone, Copy, PartialEq, Eq, Structural)]
pub enum BootOrder {
    /// The newest one.
    Default,
    /// The one before it.
    Rollback,
}

/// The specification of a host.
#[derive(Debug)]
pub struct HostSpec {
    pub image: Option<ImageReference>,
    pub boot_order: BootOrder,
}

/// A host specification that names an image.
#[derive(Debug)]
pub struct RequiredHostSpec<'a> {
    pub image: &'a ImageReference,
}

#[verifier::ext_equal]
pub enum ImageSignatureView {
    OstreeRemote(Seq<char>),
    ContainerPolicy,
    Insecure,
}

#[verifier::ext_equal]
pub struct ImageReferenceView {
    pub image: Seq<char>,
    pub transport: Seq<char>,
    pub signature: Option<ImageSignatureView>,
}

impl View for ImageSignature {
    type V = ImageSignatureView;

    open spec fn view(&self) -> ImageSignatureView {
        match *self {
            ImageSignature::OstreeRemote(name) => ImageSignatureView::OstreeRemote(name@),
            ImageSignature::ContainerPolicy => ImageSignatureView::ContainerPolicy,
            ImageSignature::Insecure => ImageSignatureView::Insecure,
        }
    }
}

impl View for ImageReference {
    type V = ImageReferenceView;

    open spec fn view(&self) -> ImageReferenceView {
        ImageReferenceView {
            image: self.image@,
            transport: self.transport@,
            signature: match self.signature {
                Some(s) => Some(s@),
                None => None,
            },
        }
    }
}

impl HostSpec {
    /// The image, if one is named.
    pub open spec fn image_view(self) -> Option<ImageReferenceView> {
        match self.image {
            Some(i) => Some(i@),
            None => None,
        }
    }
}

impl Clone for ImageSignature {
    fn clone(&self) -> (r: ImageSignature)
        ensures
            r == *self,
    {
        match self {
            ImageSignature::OstreeRemote(name) => ImageSignature::OstreeRemote(name.clone()),
            ImageSignature::ContainerPolicy => ImageSignature::ContainerPolicy,
            ImageSignature::Insecure => ImageSignature::Insecure,
        }
    }
}

impl Clone for ImageReference {
    fn clone(&self) -> (r: ImageReference)
        ensures
            r == *self,
    {
        ImageReference {
            image: self.image.clone(),
            transport: self.transport.clone(),
            signature: match &self.signature {
                Some(s) => Some(s.clone()),
                None => None,
            },
        }
    }
}

impl Clone for HostSpec {
    fn clone(&self) -> (r: HostSpec)
        ensures
            r == *self,
    {
        HostSpec {
            image: match &self.image {
                Some(i) => Some(i.clone()),
                None => None,
            },
            boot_order: self.boot_order,
        }
    }
}

impl<'a> RequiredHostSpec<'a> {
    /// The specification with its image taken out of the option, which must be filled.
    pub fn from_spec(spec: &'a HostSpec) -> (r: Result<Self, DeployError>)
        ensures
            r is Ok <==> spec.image is Some,
            r is Ok ==> *(r->Ok_0.image) == spec.image->0,
            r is Err ==> r->Err_0 is MissingImage,
    {
        match &spec.image {
            Some(image) => Ok(RequiredHostSpec { image }),
            None => Err(DeployError::MissingImage),
        }
    }
}

/// The other boot order.
pub open spec fn swapped(order: BootOrder) -> BootOrder {
    match order {
        BootOrder::Default => BootOrder::Rollback,
        BootOrder::Rollback => BootOrder::Default,
    }
}

impl BootOrder {
    /// The other boot order.
    pub fn swap(self) -> (r: BootOrder)
        ensures
            r == swapped(self),
            r is Default <==> self is Rollback,
    {
        match self {
            BootOrder::Default => BootOrder::Rollback,
            BootOrder::Rollback => BootOrder::Default,
        }
    }
}

fn same_signature(a: &Option<ImageSignature>, b: &Option<ImageSignature>) -> (r: bool)
    ensures
        r == (match *a {
            Some(s) => Some(s@),
            None => None,
        } == match *b {
            Some(s) => Some(s@),
            None => None,
        }),
{
    match (a, b) {
        (None, None) => true,
        (Some(ImageSignature::OstreeRemote(x)), Some(ImageSignature::OstreeRemote(y))) => {
            str_eq(x.as_str(), y.as_str())
        },
        (Some(ImageSignature::ContainerPolicy), Some(ImageSignature::ContainerPolicy)) => true,
        (Some(ImageSignature::Insecure), Some(ImageSignature::Insecure)) => true,
        _ => false,
    }
}

fn same_image(a: &Option<ImageReference>, b: &Option<ImageReference>) -> (r: bool)
    ensures
        r == (match *a {
            Some(i) => Some(i@),
            None => None,
        } == match *b {
            Some(i) => Some(i@),
            None => None,
        }),
{
    match (a, b) {
        (None, None) => true,
        (Some(x), Some(y)) => {
            str_eq(x.image.as_str(), y.image.as_str()) && str_eq(
                x.transport.as_str(),
                y.transport.as_str(),
            ) && same_signature(&x.signature, &y.signature)
        },
        _ => false,
    }
}

impl HostSpec {
    /// Whether the host may go from this specification to `new`: the boot order and the image must
    /// not both change.
    pub fn verify_transition(&self, new: &HostSpec) -> (r: Result<(), DeployError>)
        ensures
            r is Ok <==> self.boot_order == new.boot_order || self.image_view()
                == new.image_view(),
            r is Err ==> r->Err_0 is RollbackWithImageChange,
    {
        let rollback = self.boot_order != new.boot_order;
        let image_change = !same_image(&self.image, &new.image);
        if rollback && image_change {
            Err(DeployError::RollbackWithImageChange)
        } else {
            Ok(())
        }
    }
}

/// Swapping the boot order twice changes nothing.
pub proof fn swap_twice(order: BootOrder)
    ensures
        swapped(swapped(order)) == order,
        swapped(order) != order,
{
}

/// Two references are stated to be the same exactly if they agree in image, transport and signature
/// source.
pub proof fn references_are_told_apart(a: ImageReference, b: ImageReference)
    ensures
        a@.image == a.image@,
        a@.transport == a.transport@,
        a@.signature is Some <==> a.signature is Some,
        a@ == b@ <==> {
            &&& a.image@ == b.image@
            &&& a.transport@ == b.transport@
            &&& match (a.signature, b.signature) {
                (None, None) => true,
                (Some(ImageSignature::ContainerPolicy), Some(ImageSignature::ContainerPolicy)) =>
                    true,
                (Some(ImageSignature::Insecure), Some(ImageSignature::Insecure)) => true,
                (
                    Some(ImageSignature::OstreeRemote(x)),
                    Some(ImageSignature::OstreeRemote(y)),
                ) => x@ == y@,
                _ => false,
            }
        },
{
}

/// Two specifications are stated to name the same image exactly if neither names one, or both name one
/// and the references agree.
pub proof fn images_are_told_apart(a: HostSpec, b: HostSpec)
    ensures
        a.image_view() == b.image_view() <==> {
            ||| a.image is None && b.image is None
            ||| a.image is Some && b.image is Some && a.image->0@ == b.image->0@
        },
{
}

} // verus!
