//! Images: what is known of them before, while and after they are fetched.
use vstd::prelude::*;
use vstd::string::StringExecFns;

use crate::digest::Digest;
use crate::text::str_eq;

verus! {

/// The label that marks an image as fit for this kind of host.
pub const BOOTC_COMPAT_LABEL: &'static str = "containers.bootc";

/// The one value of the label that is known.
pub const COMPAT_LABEL_V1: &'static str = "1";

/// What identifies this program to a registry.
pub const USER_AGENT: &'static str = "bootc/";

/// How images are fetched. What is not set is left to the fetching program's defaults.
#[derive(Debug)]
pub struct ProxyConfig {
    pub user_agent_prefix: Option<String>,
    /// A container storage that is searched as well.
    pub additional_image_store: Option<String>,
}

/// The configuration for fetching images, which tells registries what program fetches them, and in
/// which version.
pub fn new_proxy_config(version: &str) -> (r: ProxyConfig)
    ensures
        r.user_agent_prefix is Some,
        r.user_agent_prefix->0@ == USER_AGENT@ + version@,
        r.user_agent_prefix->0@ == "bootc/"@ + version@,
        r.additional_image_store is None,
{
    ProxyConfig {
        user_agent_prefix: Some(USER_AGENT.to_owned().concat(version)),
        additional_image_store: None,
    }
}

/// A layer of an image: its digest and its size in bytes.
#[derive(Debug)]
pub struct Descriptor {
    pub digest: Digest,
    pub size: u64,
}

impl Clone for Descriptor {
    fn clone(&self) -> (r: Descriptor)
        ensures
            r == *self,
    {
        Descriptor { digest: self.digest.clone(), size: self.size }
    }
}

/// News of one layer while an image is imported.
#[derive(Debug)]
pub enum ImportProgress {
    OstreeChunkStarted(Descriptor),
    OstreeChunkCompleted(Descriptor),
    DerivedLayerStarted(Descriptor),
    DerivedLayerCompleted(Descriptor),
}

impl ImportProgress {
    /// The layer that the news is of.
    pub open spec fn layer(self) -> Descriptor {
        match self {
            ImportProgress::OstreeChunkStarted(l) => l,
            ImportProgress::OstreeChunkCompleted(l) => l,
            ImportProgress::DerivedLayerStarted(l) => l,
            ImportProgress::DerivedLayerCompleted(l) => l,
        }
    }

    /// Whether the fetch of the layer begins.
    pub open spec fn starts(self) -> bool {
        self is OstreeChunkStarted || self is DerivedLayerStarted
    }

    /// Whether the layer is a chunk of an ostree commit.
    pub open spec fn is_chunk(self) -> bool {
        self is OstreeChunkStarted || self is OstreeChunkCompleted
    }

    /// What the layer is called.
    pub open spec fn prefix(self) -> Seq<char> {
        if self.is_chunk() {
            "ostree chunk"@
        } else {
            "layer"@
        }
    }

    /// Whether the fetch of the layer begins; if not, it has ended.
    pub fn is_starting(&self) -> (r: bool)
        ensures
            r == self.starts(),
            r <==> self is OstreeChunkStarted || self is DerivedLayerStarted,
    {
        match self {
            ImportProgress::OstreeChunkStarted(_) => true,
            ImportProgress::OstreeChunkCompleted(_) => false,
            ImportProgress::DerivedLayerStarted(_) => true,
            ImportProgress::DerivedLayerCompleted(_) => false,
        }
    }
}

/// The layer that the news is of.
pub fn descriptor_of_progress(p: &ImportProgress) -> (r: &Descriptor)
    ensures
        *r == p.layer(),
        match *p {
            ImportProgress::OstreeChunkStarted(l) => *r == l,
            ImportProgress::OstreeChunkCompleted(l) => *r == l,
            ImportProgress::DerivedLayerStarted(l) => *r == l,
            ImportProgress::DerivedLayerCompleted(l) => *r == l,
        },
{
    match p {
        ImportProgress::OstreeChunkStarted(l) => l,
        ImportProgress::OstreeChunkCompleted(l) => l,
        ImportProgress::DerivedLayerStarted(l) => l,
        ImportProgress::DerivedLayerCompleted(l) => l,
    }
}

/// What the layer that the news is of is called.
pub fn prefix_of_progress(p: &ImportProgress) -> (r: &'static str)
    ensures
        r@ == p.prefix(),
        p is OstreeChunkStarted || p is OstreeChunkCompleted ==> r@ == "ostree chunk"@,
        p is DerivedLayerStarted || p is DerivedLayerCompleted ==> r@ == "layer"@,
{
    match p {
        ImportProgress::OstreeChunkStarted(_) | ImportProgress::OstreeChunkCompleted(_) => {
            "ostree chunk"
        },
        ImportProgress::DerivedLayerStarted(_) | ImportProgress::DerivedLayerCompleted(_) => {
            "layer"
        },
    }
}

/// An image as the store holds it: the commit that unions its layers, its manifest's digest and its
/// version, where its configuration gives one.
#[derive(Debug)]
pub struct LayeredImageState {
    pub merge_commit: String,
    pub manifest_digest: Digest,
    pub version: Option<String>,
}

/// State of a locally fetched image.
#[derive(Debug)]
pub struct ImageState {
    pub manifest_digest: Digest,
    pub version: Option<String>,
    pub ostree_commit: String,
}

impl From<LayeredImageState> for ImageState {
    fn from(value: LayeredImageState) -> (r: ImageState) {
        ImageState {
            manifest_digest: value.manifest_digest,
            version: value.version,
            ostree_commit: value.merge_commit,
        }
    }
}

impl vstd::std_specs::convert::FromSpecImpl<LayeredImageState> for ImageState {
    open spec fn obeys_from_spec() -> bool {
        true
    }

    open spec fn from_spec(value: LayeredImageState) -> ImageState {
        ImageState {
            manifest_digest: value.manifest_digest,
            version: value.version,
            ostree_commit: value.merge_commit,
        }
    }
}

/// The value of the first label with the given key.
pub open spec fn label_value(labels: Seq<(String, String)>, key: Seq<char>) -> Option<Seq<char>>
    decreases labels.len(),
{
    if labels.len() == 0 {
        None
    } else if labels[0].0@ == key {
        Some(labels[0].1@)
    } else {
        label_value(labels.skip(1), key)
    }
}

fn find_label<'a>(labels: &'a Vec<(String, String)>, key: &str) -> (r: Option<&'a String>)
    ensures
        r is Some <==> label_value(labels@, key@) is Some,
        r is Some ==> r->0@ == label_value(labels@, key@)->0,
{
    let mut i: usize = 0;
    assert(labels@.skip(0) == labels@);
    while i < labels.len()
        invariant
            i <= labels.len(),
            label_value(labels@, key@) == label_value(labels@.skip(i as int), key@),
        decreases labels.len() - i,
    {
        let ghost rest = labels@.skip(i as int);
        assert(rest[0] == labels@[i as int]);
        assert(rest.skip(1) == labels@.skip(i + 1));
        if str_eq(labels[i].0.as_str(), key) {
            return Some(&labels[i].1);
        }
        i = i + 1;
    }
    None
}

/// The notice about an image's compatibility label; nothing if the label has the known value.
pub open spec fn label_notice(label: Option<Seq<char>>) -> Option<Seq<char>> {
    match label {
        Some(value) => if value == COMPAT_LABEL_V1@ {
            None
        } else {
            Some("notice: Unknown "@ + BOOTC_COMPAT_LABEL@ + " value "@ + value)
        },
        None => Some("notice: Image is missing label: "@ + BOOTC_COMPAT_LABEL@),
    }
}

/// The labels of a configuration, looked up. A configuration may have none at all.
pub open spec fn compat_label(labels: Option<Seq<(String, String)>>) -> Option<Seq<char>> {
    match labels {
        Some(l) => label_value(l, BOOTC_COMPAT_LABEL@),
        None => None,
    }
}

/// The notice that is due if an image lacks the compatibility label, or has another value in it than
/// the one that is known.
pub fn check_bootc_label(labels: Option<&Vec<(String, String)>>) -> (r: Option<String>)
    ensures
        ({
            let notice = label_notice(
                compat_label(
                    match labels {
                        Some(l) => Some(l@),
                        None => None,
                    },
                ),
            );
            &&& r is Some <==> notice is Some
            &&& r is Some ==> r->0@ == notice->0
        }),
{
    let label = match labels {
        Some(l) => find_label(l, BOOTC_COMPAT_LABEL),
        None => None,
    };
    match label {
        Some(value) => {
            if str_eq(value.as_str(), COMPAT_LABEL_V1) {
                None
            } else {
                Some(
                    "notice: Unknown ".to_owned().concat(BOOTC_COMPAT_LABEL).concat(
                        " value ",
                    ).concat(value.as_str()),
                )
            }
        },
        None => Some("notice: Image is missing label: ".to_owned().concat(BOOTC_COMPAT_LABEL)),
    }
}

// ---------------------------------------------------------------------------
// Laws

/// The label that is looked up is the first with the key: there is none before it, and there is no
/// value only if no label has the key.
pub proof fn first_label_counts(labels: Seq<(String, String)>, key: Seq<char>)
    ensures
        label_value(labels, key) is None <==> forall|k: int|
            0 <= k < labels.len() ==> (#[trigger] labels[k]).0@ != key,
        label_value(labels, key) is Some ==> exists|i: int|
            {
                &&& 0 <= i < labels.len()
                &&& (#[trigger] labels[i]).0@ == key
                &&& labels[i].1@ == label_value(labels, key)->0
                &&& forall|k: int| 0 <= k < i ==> (#[trigger] labels[k]).0@ != key
            },
    decreases labels.len(),
{
    if labels.len() > 0 && labels[0].0@ != key {
        let rest = labels.skip(1);
        first_label_counts(rest, key);
        assert(forall|k: int| 0 <= k < rest.len() ==> #[trigger] rest[k] == labels[k + 1]);
        if label_value(rest, key) is Some {
            let i = choose|i: int|
                {
                    &&& 0 <= i < rest.len()
                    &&& (#[trigger] rest[i]).0@ == key
                    &&& rest[i].1@ == label_value(rest, key)->0
                    &&& forall|k: int| 0 <= k < i ==> (#[trigger] rest[k]).0@ != key
                };
            assert forall|k: int| 0 <= k < i + 1 implies (#[trigger] labels[k]).0@ != key by {
                if k > 0 {
                    assert(rest[k - 1] == labels[k]);
                }
            }
            assert(labels[i + 1].0@ == key);
        } else {
            assert forall|k: int| 0 <= k < labels.len() implies (#[trigger] labels[k]).0@ != key by {
                if k > 0 {
                    assert(rest[k - 1] == labels[k]);
                }
            }
        }
    }
}

/// There is no notice exactly if the label is there and says `1`. The notice tells a label that is
/// missing from one with another value, which it gives.
pub proof fn notice_tells_what_is_wrong(labels: Seq<(String, String)>, value: Seq<char>)
    ensures
        label_notice(Some(value)) is None <==> value == "1"@,
        value != "1"@ ==> label_notice(Some(value)) == Some(
            "notice: Unknown "@ + "containers.bootc"@ + " value "@ + value,
        ),
        label_notice(None) == Some("notice: Image is missing label: "@ + "containers.bootc"@),
        compat_label(None) is None,
        compat_label(Some(labels)) == label_value(labels, "containers.bootc"@),
{
}

/// News of a layer is of the layer that it carries. A chunk of an ostree commit is called so, and any
/// other layer is called a layer, whether it begins or ends.
pub proof fn news_is_of_its_layer(l: Descriptor)
    ensures
        ImportProgress::OstreeChunkStarted(l).layer() == l,
        ImportProgress::OstreeChunkCompleted(l).layer() == l,
        ImportProgress::DerivedLayerStarted(l).layer() == l,
        ImportProgress::DerivedLayerCompleted(l).layer() == l,
        ImportProgress::OstreeChunkStarted(l).starts(),
        ImportProgress::DerivedLayerStarted(l).starts(),
        !ImportProgress::OstreeChunkCompleted(l).starts(),
        !ImportProgress::DerivedLayerCompleted(l).starts(),
        ImportProgress::OstreeChunkStarted(l).prefix() == "ostree chunk"@,
        ImportProgress::OstreeChunkCompleted(l).prefix() == "ostree chunk"@,
        ImportProgress::DerivedLayerStarted(l).prefix() == "layer"@,
        ImportProgress::DerivedLayerCompleted(l).prefix() == "layer"@,
{
}

/// The state of a fetched image is that of the image in the store: its digest, its version, and the
/// commit that unions its layers.
pub proof fn fetched_image_is_the_stored_one(value: LayeredImageState)
    ensures
        ({
            let image = <ImageState as vstd::std_specs::convert::FromSpec<
                LayeredImageState,
            >>::from_spec(value);
            &&& image.manifest_digest == value.manifest_digest
            &&& image.version == value.version
            &&& image.ostree_commit == value.merge_commit
        }),
{
}

} // verus!
