use bootc_deploy::digest::Digest;
use bootc_deploy::image::{
    check_bootc_label, descriptor_of_progress, new_proxy_config, prefix_of_progress, Descriptor,
    ImageState, ImportProgress, LayeredImageState,
};
use bootc_deploy::spec::{
    BootOrder, HostSpec, ImageReference, ImageSignature, RequiredHostSpec,
};

const SHA: &str = "sha256:6c3c624b58dbbcd3c0dd82b4c53f04194d1247c6eebdaab7c610cf7d66709b3b";

#[test]
fn test_new_proxy_config_user_agent() {
    let config = new_proxy_config("1.12.1");
    let prefix = config
        .user_agent_prefix
        .expect("user_agent_prefix should be set");
    assert!(
        prefix.starts_with("bootc/"),
        "User agent should start with bootc/"
    );
    // Verify the version is present (not just "bootc/")
    assert!(
        prefix.len() > "bootc/".len(),
        "Version should be present after bootc/"
    );
    assert_eq!(prefix, "bootc/1.12.1");
    assert!(config.additional_image_store.is_none());
}

#[test]
fn digests() {
    let d = Digest::parse(SHA).unwrap();
    assert_eq!(d.as_str(), SHA);
    assert_eq!(
        d.encoded(),
        "6c3c624b58dbbcd3c0dd82b4c53f04194d1247c6eebdaab7c610cf7d66709b3b"
    );
    assert!(d.can_shorten());
    assert_eq!(d.short(), "6c3c624b58dbbcd3c0dd8");
    assert_eq!(d.clone().as_str(), SHA);

    let d = Digest::parse("xxhash:42").unwrap();
    assert_eq!(d.encoded(), "42");
    assert!(!d.can_shorten());

    for text in ["", "foo", ":", ":blah", "blah:", "sha256:123", "foo:b r"] {
        assert!(Digest::parse(text).is_none(), "{text}");
    }
}

#[test]
fn texts_that_are_digests() {
    let hex = |n: usize| "0123456789abcdef".repeat(n / 16);
    for (algorithm, n) in [("sha256", 64), ("sha384", 96), ("sha512", 128)] {
        let d = Digest::parse(&format!("{algorithm}:{}", hex(n))).unwrap();
        assert_eq!(d.encoded(), hex(n));
        assert!(d.can_shorten());
        assert!(d.encoded().is_ascii());
        for wrong in [hex(n - 16), hex(n + 16), hex(n).to_uppercase(), "g".repeat(n)] {
            assert!(Digest::parse(&format!("{algorithm}:{wrong}")).is_none(), "{wrong}");
        }
    }

    let base58 = "QmRZxt2b1FVZPNqd8hsiykDL3TdBDeTSPX9Kv46HmX4Gx8";
    let d = Digest::parse(&format!("multihash+base58:{base58}")).unwrap();
    assert_eq!(d.encoded(), base58);
    assert_eq!(Digest::parse("a+b.c_d-e9:Az09=_-").unwrap().encoded(), "Az09=_-");
    assert_eq!(Digest::parse("sha256+b64:LCa0").unwrap().encoded(), "LCa0");

    for text in ["a++b:1", "+a:1", "a-:1", "A:1", "a b:1", "a:b:c", "a:1+", "a:1.", "a:\u{e9}"] {
        assert!(Digest::parse(text).is_none(), "{text}");
    }
}

fn layer(size: u64) -> Descriptor {
    Descriptor { digest: Digest::parse(SHA).unwrap(), size }
}

#[test]
fn news_of_layers() {
    for (p, prefix, starts) in [
        (ImportProgress::OstreeChunkStarted(layer(1)), "ostree chunk", true),
        (ImportProgress::OstreeChunkCompleted(layer(2)), "ostree chunk", false),
        (ImportProgress::DerivedLayerStarted(layer(3)), "layer", true),
        (ImportProgress::DerivedLayerCompleted(layer(4)), "layer", false),
    ] {
        assert_eq!(prefix_of_progress(&p), prefix);
        assert_eq!(p.is_starting(), starts);
        assert_eq!(descriptor_of_progress(&p).digest.as_str(), SHA);
    }
    let p = ImportProgress::DerivedLayerStarted(layer(7));
    assert_eq!(descriptor_of_progress(&p).size, 7);
}

#[test]
fn image_state_of_store() {
    let state = ImageState::from(LayeredImageState {
        merge_commit: "abc".into(),
        manifest_digest: Digest::parse(SHA).unwrap(),
        version: Some("42.0".into()),
    });
    assert_eq!(state.ostree_commit, "abc");
    assert_eq!(state.manifest_digest.as_str(), SHA);
    assert_eq!(state.version.as_deref(), Some("42.0"));
}

fn labels(pairs: &[(&str, &str)]) -> Vec<(String, String)> {
    pairs
        .iter()
        .map(|(k, v)| (k.to_string(), v.to_string()))
        .collect()
}

#[test]
fn compatibility_label() {
    let missing = Some("notice: Image is missing label: containers.bootc".to_string());
    assert_eq!(check_bootc_label(None), missing);
    assert_eq!(check_bootc_label(Some(&labels(&[]))), missing);
    assert_eq!(check_bootc_label(Some(&labels(&[("version", "1")]))), missing);
    assert_eq!(
        check_bootc_label(Some(&labels(&[("version", "9"), ("containers.bootc", "1")]))),
        None
    );
    assert_eq!(
        check_bootc_label(Some(&labels(&[("containers.bootc", "2")]))),
        Some("notice: Unknown containers.bootc value 2".to_string())
    );
}

fn imgref(image: &str, signature: Option<ImageSignature>) -> ImageReference {
    ImageReference { image: image.into(), transport: "registry".into(), signature }
}

#[test]
fn required_spec() {
    let spec = HostSpec { image: Some(imgref("quay.io/a/b", None)), boot_order: BootOrder::Default };
    assert_eq!(RequiredHostSpec::from_spec(&spec).unwrap().image.image, "quay.io/a/b");
    let spec = HostSpec { image: None, boot_order: BootOrder::Default };
    let e = RequiredHostSpec::from_spec(&spec).unwrap_err();
    assert_eq!(e.message("", ""), "Missing image in specification");
}

#[test]
fn transitions() {
    let spec = |image: Option<ImageReference>, boot_order| HostSpec { image, boot_order };
    let a = || Some(imgref("a", None));
    let signed = || Some(imgref("a", Some(ImageSignature::OstreeRemote("r".into()))));
    let current = spec(a(), BootOrder::Default);
    assert!(current.verify_transition(&spec(a(), BootOrder::Default)).is_ok());
    assert!(current.verify_transition(&spec(a(), BootOrder::Rollback)).is_ok());
    assert!(current.verify_transition(&spec(signed(), BootOrder::Default)).is_ok());
    assert!(current.verify_transition(&spec(None, BootOrder::Default)).is_ok());
    for other in [signed(), None, Some(imgref("b", None))] {
        let e = current
            .verify_transition(&spec(other, BootOrder::Rollback))
            .unwrap_err();
        assert_eq!(
            e.message("", ""),
            "Invalid state transition: rollback and image change"
        );
    }
    let current = spec(signed(), BootOrder::Rollback);
    assert!(current.verify_transition(&spec(signed(), BootOrder::Default)).is_ok());
    assert_eq!(BootOrder::Default.swap(), BootOrder::Rollback);
    assert_eq!(BootOrder::Default.swap().swap(), BootOrder::Default);
}
