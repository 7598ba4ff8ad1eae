use bootc_deploy::digest::Digest;
use bootc_deploy::event::{Event, SubTaskBytes};
use bootc_deploy::image::{Descriptor, ImportProgress};
use bootc_deploy::progress::{
    fetched_line, fetched_summary, LayerAction, LayerEvent, LayerProgress, LayerProgressConfig,
};
use bootc_deploy::pull::prepared_import_meta;

const A: &str = "sha256:6c3c624b58dbbcd3c0dd82b4c53f04194d1247c6eebdaab7c610cf7d66709b3b";
const B: &str = "sha256:af36eb0086bb55ac601600478c6168f834288013d60f8870b7851f44bf86c3c5";

fn layer(digest: &str, size: u64) -> Descriptor {
    Descriptor { digest: Digest::parse(digest).unwrap(), size }
}

fn config() -> LayerProgressConfig {
    LayerProgressConfig {
        digest: "sha256:manifest".into(),
        n_layers_to_fetch: 2,
        layers_total: 5,
        bytes_to_download: 300,
        bytes_total: 1000,
    }
}

fn part(t: &SubTaskBytes) -> (&str, &str, &str, u64, u64, u64) {
    (&t.subtask, &t.description, &t.id, t.bytes_cached, t.bytes, t.bytes_total)
}

/// The bytes, the steps and the parts of an event about the fetch of `config()`.
fn pulling(e: &Event) -> (u64, u64, Vec<(&str, &str, &str, u64, u64, u64)>) {
    match e {
        Event::ProgressBytes {
            task,
            description,
            id,
            bytes_cached,
            bytes,
            bytes_total,
            steps_cached,
            steps,
            steps_total,
            subtasks,
        } => {
            assert_eq!(task, "pulling");
            assert_eq!(description, "Pulling Image: sha256:manifest");
            assert_eq!(id, "sha256:manifest");
            assert_eq!((*bytes_cached, *bytes_total), (700, 300));
            assert_eq!((*steps_cached, *steps_total), (3, 2));
            (*bytes, *steps, subtasks.iter().map(part).collect())
        }
        _ => panic!("another event"),
    }
}

/// Checks that the event says that the import of `config()` has begun.
fn importing(e: &Event) {
    match e {
        Event::ProgressSteps { task, id, steps, steps_total, subtasks, .. } => {
            assert_eq!((task.as_str(), id.as_str()), ("importing", "sha256:manifest"));
            assert_eq!((*steps, *steps_total), (0, 1));
            assert_eq!(subtasks.len(), 1);
            assert!(!subtasks[0].completed);
        }
        _ => panic!("another event"),
    }
}

#[test]
fn a_whole_fetch() {
    let mut p = LayerProgress::new(config());
    let a_part = |bytes| {
        (
            "ostree chunk",
            "ostree chunk: 6c3c624b58dbbcd3c0dd8",
            "6c3c624b58dbbcd3c0dd8",
            0,
            bytes,
            100,
        )
    };
    let b_part = |bytes| {
        ("layer", "layer: af36eb0086bb55ac60160", "af36eb0086bb55ac60160", 0, bytes, 200)
    };

    match p.handle_layer_progress_print(LayerEvent::Layer(ImportProgress::OstreeChunkStarted(
        layer(A, 100),
    ))) {
        LayerAction::BeginLayer { length, message } => {
            assert_eq!(length, 100);
            assert_eq!(message, "ostree chunk 6c3c624b58dbbcd3c0dd8");
        }
        _ => panic!("layer begins"),
    }
    assert!(matches!(
        p.handle_layer_progress_print(LayerEvent::Bytes(None)),
        LayerAction::Wait
    ));
    match p.handle_layer_progress_print(LayerEvent::Bytes(Some(40))) {
        LayerAction::ShowBytes { position, event } => {
            assert_eq!(position, 40);
            assert_eq!(pulling(&event), (40, 0, vec![a_part(40)]));
        }
        _ => panic!("bytes"),
    }
    match p.handle_layer_progress_print(LayerEvent::Layer(ImportProgress::OstreeChunkCompleted(
        layer(A, 100),
    ))) {
        LayerAction::EndLayer { position, event } => {
            assert_eq!(position, 100);
            assert_eq!(pulling(&event), (100, 1, vec![a_part(100)]));
        }
        _ => panic!("layer ends"),
    }
    p.handle_layer_progress_print(LayerEvent::Layer(ImportProgress::DerivedLayerStarted(layer(
        B, 200,
    ))));
    match p.handle_layer_progress_print(LayerEvent::Bytes(Some(150))) {
        LayerAction::ShowBytes { position, event } => {
            assert_eq!(position, 150);
            assert_eq!(pulling(&event), (250, 1, vec![a_part(100), b_part(150)]));
        }
        _ => panic!("bytes"),
    }
    match p.handle_layer_progress_print(LayerEvent::Layer(ImportProgress::DerivedLayerCompleted(
        layer(B, 200),
    ))) {
        LayerAction::EndLayer { position, event } => {
            assert_eq!(position, 200);
            // Everything is done: as many bytes and steps as there are.
            assert_eq!(pulling(&event), (300, 2, vec![a_part(100), b_part(200)]));
        }
        _ => panic!("layer ends"),
    }
    for closed in [LayerEvent::LayersClosed, LayerEvent::BytesClosed] {
        let LayerAction::Finish { event } = p.handle_layer_progress_print(closed) else {
            panic!("the fetch is over")
        };
        importing(&event);
    }
    assert_eq!(p.total_read, 300);
    assert_eq!(p.subtasks.len(), 2);
}

#[test]
fn a_layer_that_ends_unannounced() {
    let mut p = LayerProgress::new(config());
    match p.handle_layer_progress_print(LayerEvent::Layer(ImportProgress::DerivedLayerCompleted(
        layer(A, 100),
    ))) {
        LayerAction::EndLayer { event, .. } => {
            assert_eq!(pulling(&event), (100, 1, vec![("", "", "", 0, 100, 0)]));
        }
        _ => panic!("layer ends"),
    }
}

#[test]
fn bytes_saturate() {
    let mut p = LayerProgress::new(config());
    for _ in 0..2 {
        p.handle_layer_progress_print(LayerEvent::Layer(ImportProgress::DerivedLayerCompleted(
            layer(A, u64::MAX - 1),
        )));
    }
    assert_eq!(p.total_read, u64::MAX);
}

#[test]
fn what_cannot_be_handled() {
    let mut p = LayerProgress::new(config());
    let short = || LayerEvent::Layer(ImportProgress::DerivedLayerStarted(layer("xxhash:42", 1)));
    assert!(!p.accepts(&short()));
    assert!(p.try_handle(short()).is_none());
    p.total_read = u64::MAX;
    assert!(p.try_handle(LayerEvent::Bytes(Some(1))).is_none());
    assert_eq!(p.total_read, u64::MAX);
    assert!(p.try_handle(LayerEvent::Bytes(Some(0))).is_some());

    let mut p = LayerProgress::new(LayerProgressConfig { bytes_total: 299, ..config() });
    let done = || LayerEvent::Layer(ImportProgress::DerivedLayerCompleted(layer(A, 1)));
    assert!(p.try_handle(done()).is_none());
    assert!(p.subtasks.is_empty());
    let begin = LayerEvent::Layer(ImportProgress::DerivedLayerStarted(layer(A, 1)));
    assert!(p.try_handle(begin).is_some());
    let mut p = LayerProgress::new(LayerProgressConfig { layers_total: 1, ..config() });
    assert!(p.try_handle(done()).is_none());
    assert!(p.try_handle(LayerEvent::LayersClosed).is_some());
}

#[test]
fn sums_of_a_prepared_import() {
    let to_fetch = vec![layer(A, 100)];
    let all = vec![layer(A, 100), layer(B, 200)];
    let meta = prepared_import_meta(Digest::parse(B).unwrap(), &to_fetch, &all);
    let c = LayerProgressConfig::of_prepared(&meta);
    assert_eq!(c.digest, B);
    assert_eq!((c.n_layers_to_fetch, c.layers_total), (1, 2));
    assert_eq!((c.bytes_to_download, c.bytes_total), (100, 300));
}

#[test]
fn closing_line() {
    assert_eq!(
        fetched_line("1 B", "2 seconds", "3 B"),
        "Fetched layers: 1 B in 2 seconds (3 B/s)"
    );
    assert_eq!(
        fetched_summary(1_500_000, 3, 0, 500_000),
        "Fetched layers: 1.43 MiB in 3 seconds (488.28 KiB/s)"
    );
    assert_eq!(
        fetched_summary(15, 1, 600_000_000, 9),
        "Fetched layers: 15 B in 2 seconds (9 B/s)"
    );
    assert_eq!(
        fetched_summary(0, 7200, 0, 0),
        "Fetched layers: 0 B in 2 hours (0 B/s)"
    );
}

/// What is sent where layers end.
fn layer_ends(numbers: &[Option<u64>]) -> Vec<String> {
    let mut p = LayerProgress::new(config());
    let mut ends = Vec::new();
    let news = [
        ImportProgress::OstreeChunkStarted(layer(A, 100)),
        ImportProgress::OstreeChunkCompleted(layer(A, 100)),
        ImportProgress::DerivedLayerStarted(layer(B, 200)),
        ImportProgress::DerivedLayerCompleted(layer(B, 200)),
    ];
    for layer in news {
        let action = p.handle_layer_progress_print(LayerEvent::Layer(layer));
        if let LayerAction::EndLayer { position, event } = action {
            ends.push(format!("{position} {:?}", pulling(&event)));
        }
        for n in numbers {
            p.handle_layer_progress_print(LayerEvent::Bytes(*n));
        }
    }
    ends
}

#[test]
fn layer_ends_ignore_bytes() {
    let ends = layer_ends(&[]);
    assert_eq!(ends.len(), 2);
    assert_eq!(layer_ends(&[Some(7)]), ends);
    assert_eq!(layer_ends(&[None, Some(50), Some(99), None]), ends);
}
