//! Progress of a fetch, layer by layer.
use vstd::prelude::*;
use vstd::string::StringExecFns;

use crate::digest::SHORT_DIGEST_LEN;
use crate::event::{
    bytes_views, bytes_with, Event, EventView, SubTaskBytes, SubTaskBytesView,
};
use crate::image::{descriptor_of_progress, prefix_of_progress, ImportProgress};
use crate::pull::{import_event, import_event_view, PreparedImportMeta};

verus! {

/// What is fetched, in sum.
#[derive(Debug)]
pub struct LayerProgressConfig {
    pub digest: String,
    pub n_layers_to_fetch: usize,
    pub layers_total: usize,
    pub bytes_to_download: u64,
    pub bytes_total: u64,
}

impl LayerProgressConfig {
    /// No more is fetched than there is.
    pub open spec fn wf(self) -> bool {
        &&& self.n_layers_to_fetch <= self.layers_total
        &&& self.bytes_to_download <= self.bytes_total
    }

    /// The sums of a prepared import.
    pub fn of_prepared(meta: &PreparedImportMeta) -> (r: LayerProgressConfig)
        ensures
            r.digest@ == meta.digest@,
            r.n_layers_to_fetch == meta.n_layers_to_fetch,
            r.layers_total == meta.layers_total,
            r.bytes_to_download == meta.bytes_to_fetch,
            r.bytes_total == meta.bytes_total,
    {
        LayerProgressConfig {
            digest: meta.digest.as_str().to_owned(),
            n_layers_to_fetch: meta.n_layers_to_fetch,
            layers_total: meta.layers_total,
            bytes_to_download: meta.bytes_to_fetch,
            bytes_total: meta.bytes_total,
        }
    }
}

/// How far a fetch has come.
#[derive(Debug)]
pub struct LayerProgress {
    pub config: LayerProgressConfig,
    /// The bytes of the layers that are done.
    pub total_read: u64,
    /// The layers that are done.
    pub subtasks: Vec<SubTaskBytes>,
    /// The layer that is being fetched, or was last.
    pub subtask: SubTaskBytes,
}

#[verifier::ext_equal]
pub struct LayerProgressView {
    pub total_read: u64,
    pub subtasks: Seq<SubTaskBytesView>,
    pub subtask: SubTaskBytesView,
}

impl View for LayerProgress {
    type V = LayerProgressView;

    open spec fn view(&self) -> LayerProgressView {
        LayerProgressView {
            total_read: self.total_read,
            subtasks: bytes_views(self.subtasks@),
            subtask: self.subtask@,
        }
    }
}

/// What is heard from the import.
#[derive(Debug)]
pub enum LayerEvent {
    /// News of a layer.
    Layer(ImportProgress),
    /// There will be no more news of layers.
    LayersClosed,
    /// The bytes fetched of the current layer changed; there may be no number yet.
    Bytes(Option<u64>),
    /// There will be no more numbers.
    BytesClosed,
}

/// What is to be shown and sent.
#[derive(Debug)]
pub enum LayerAction {
    /// Start the byte bar anew, with this length and message.
    BeginLayer { length: u64, message: String },
    /// Move the byte bar here, move the layer bar on by one, and send the event, which must arrive.
    EndLayer { position: u64, event: Event },
    /// Move the byte bar here, and send the event, which may get lost.
    ShowBytes { position: u64, event: Event },
    /// Nothing.
    Wait,
    /// The fetch is over and the import has begun: take the bars down, say what was fetched, and send
    /// the event, which must arrive.
    Finish { event: Event },
}

#[verifier::ext_equal]
pub enum LayerActionView {
    BeginLayer { length: u64, message: Seq<char> },
    EndLayer { position: u64, event: EventView },
    ShowBytes { position: u64, event: EventView },
    Wait,
    Finish { event: EventView },
}

impl View for LayerAction {
    type V = LayerActionView;

    open spec fn view(&self) -> LayerActionView {
        match *self {
            LayerAction::BeginLayer { length, message } => LayerActionView::BeginLayer {
                length,
                message: message@,
            },
            LayerAction::EndLayer { position, event } => LayerActionView::EndLayer {
                position,
                event: event@,
            },
            LayerAction::ShowBytes { position, event } => LayerActionView::ShowBytes {
                position,
                event: event@,
            },
            LayerAction::Wait => LayerActionView::Wait,
            LayerAction::Finish { event } => LayerActionView::Finish { event: event@ },
        }
    }
}

/// The first characters of the digest of the layer that the news is of.
pub open spec fn short_digest(p: ImportProgress) -> Seq<char> {
    p.layer().digest.encoded_part().take(SHORT_DIGEST_LEN as int)
}

/// The layer that begins.
pub open spec fn begun(p: ImportProgress) -> SubTaskBytesView {
    SubTaskBytesView {
        subtask: p.prefix(),
        description: p.prefix() + ": "@ + short_digest(p),
        id: short_digest(p),
        bytes_cached: 0,
        bytes: 0,
        bytes_total: p.layer().size,
    }
}

/// The sum, or the greatest number that fits if the sum does not.
pub open spec fn saturating_sum(a: u64, b: u64) -> u64 {
    if a + b > u64::MAX {
        u64::MAX
    } else {
        (a + b) as u64
    }
}

/// The event about a fetch of which `bytes` bytes and `steps` layers are done.
pub open spec fn pulling_event(
    c: LayerProgressConfig,
    bytes: u64,
    steps: u64,
    subtasks: Seq<SubTaskBytesView>,
) -> EventView {
    EventView::ProgressBytes {
        task: "pulling"@,
        description: "Pulling Image: "@ + c.digest@,
        id: c.digest@,
        bytes_cached: (c.bytes_total - c.bytes_to_download) as u64,
        bytes,
        bytes_total: c.bytes_to_download,
        steps_cached: (c.layers_total - c.n_layers_to_fetch) as u64,
        steps,
        steps_total: c.n_layers_to_fetch as u64,
        subtasks,
    }
}

/// The state after a layer is done: it counts in full.
pub open spec fn after_layer(s: LayerProgressView, size: u64) -> LayerProgressView {
    let done = SubTaskBytesView { bytes: size, ..s.subtask };
    LayerProgressView {
        total_read: saturating_sum(s.total_read, size),
        subtasks: s.subtasks.push(done),
        subtask: done,
    }
}

/// The state after what was heard.
pub open spec fn next_state(s: LayerProgressView, e: LayerEvent) -> LayerProgressView {
    match e {
        LayerEvent::Layer(p) => if p.starts() {
            LayerProgressView { subtask: begun(p), ..s }
        } else {
            after_layer(s, p.layer().size)
        },
        LayerEvent::Bytes(Some(fetched)) => LayerProgressView {
            subtask: SubTaskBytesView { bytes: fetched, ..s.subtask },
            ..s
        },
        _ => s,
    }
}

/// What is to be done on what was heard.
pub open spec fn action_on(
    c: LayerProgressConfig,
    s: LayerProgressView,
    e: LayerEvent,
) -> LayerActionView {
    let t = next_state(s, e);
    match e {
        LayerEvent::Layer(p) => if p.starts() {
            LayerActionView::BeginLayer {
                length: p.layer().size,
                message: p.prefix() + " "@ + short_digest(p),
            }
        } else {
            LayerActionView::EndLayer {
                position: p.layer().size,
                event: pulling_event(c, t.total_read, t.subtasks.len() as u64, t.subtasks),
            }
        },
        LayerEvent::LayersClosed => LayerActionView::Finish {
            event: import_event_view(c.digest@, false),
        },
        LayerEvent::Bytes(Some(fetched)) => LayerActionView::ShowBytes {
            position: fetched,
            event: pulling_event(
                c,
                (s.total_read + fetched) as u64,
                s.subtasks.len() as u64,
                s.subtasks.push(t.subtask),
            ),
        },
        LayerEvent::Bytes(None) => LayerActionView::Wait,
        LayerEvent::BytesClosed => LayerActionView::Finish {
            event: import_event_view(c.digest@, false),
        },
    }
}

/// Whether the fetch can go on with the event: a layer's digest is long enough to be shortened, the
/// bytes add up, and the sums that an event reports do not fall below zero.
pub open spec fn can_handle(c: LayerProgressConfig, s: LayerProgressView, e: LayerEvent) -> bool {
    match e {
        LayerEvent::Layer(p) => {
            &&& p.layer().digest.encoded_part().len() >= SHORT_DIGEST_LEN
            &&& !p.starts() ==> c.wf()
        },
        LayerEvent::Bytes(Some(fetched)) => s.total_read + fetched <= u64::MAX && c.wf(),
        _ => true,
    }
}

/// The state before anything was heard.
pub open spec fn initial_state() -> LayerProgressView {
    LayerProgressView {
        total_read: 0,
        subtasks: Seq::empty(),
        subtask: SubTaskBytesView {
            subtask: Seq::empty(),
            description: Seq::empty(),
            id: Seq::empty(),
            bytes_cached: 0,
            bytes: 0,
            bytes_total: 0,
        },
    }
}

impl LayerProgress {
    /// Nothing is fetched yet.
    pub fn new(config: LayerProgressConfig) -> (r: LayerProgress)
        ensures
            r.config == config,
            r@ == initial_state(),
    {
        let subtasks: Vec<SubTaskBytes> = Vec::new();
        assert(bytes_views(subtasks@) == Seq::<SubTaskBytesView>::empty());
        LayerProgress { config, total_read: 0, subtasks, subtask: SubTaskBytes::default() }
    }

    fn pulling(&self, bytes: u64, subtasks: Vec<SubTaskBytes>) -> (r: Event)
        requires
            self.config.wf(),
        ensures
            r@ == pulling_event(
                self.config,
                bytes,
                self.subtasks@.len() as u64,
                bytes_views(subtasks@),
            ),
    {
        let c = &self.config;
        Event::ProgressBytes {
            task: "pulling".to_owned(),
            description: "Pulling Image: ".to_owned().concat(c.digest.as_str()),
            id: c.digest.clone(),
            bytes_cached: c.bytes_total - c.bytes_to_download,
            bytes,
            bytes_total: c.bytes_to_download,
            steps_cached: (c.layers_total - c.n_layers_to_fetch) as u64,
            steps: self.subtasks.len() as u64,
            steps_total: c.n_layers_to_fetch as u64,
            subtasks,
        }
    }

    /// Whether the fetch can go on with the event.
    pub fn accepts(&self, e: &LayerEvent) -> (r: bool)
        ensures
            r == can_handle(self.config, self@, *e),
    {
        let fit = self.config.n_layers_to_fetch <= self.config.layers_total
            && self.config.bytes_to_download <= self.config.bytes_total;
        match e {
            LayerEvent::Layer(l) => {
                descriptor_of_progress(l).digest.can_shorten() && (l.is_starting() || fit)
            },
            LayerEvent::Bytes(Some(fetched)) => {
                self.total_read.checked_add(*fetched).is_some() && fit
            },
            _ => true,
        }
    }

    /// Takes in what was heard, if the fetch can go on with it; if not, nothing changes.
    pub fn try_handle(&mut self, e: LayerEvent) -> (r: Option<LayerAction>)
        ensures
            final(self).config == old(self).config,
            r is Some <==> can_handle(old(self).config, old(self)@, e),
            r is Some ==> final(self)@ == next_state(old(self)@, e),
            r is Some ==> r->0@ == action_on(old(self).config, old(self)@, e),
            r is None ==> *final(self) == *old(self),
    {
        if self.accepts(&e) {
            Some(self.handle_layer_progress_print(e))
        } else {
            None
        }
    }

    /// Takes in what was heard from the import, and says what is to be shown and sent.
    pub fn handle_layer_progress_print(&mut self, e: LayerEvent) -> (r: LayerAction)
        requires
            can_handle(old(self).config, old(self)@, e),
        ensures
            final(self).config == old(self).config,
            final(self)@ == next_state(old(self)@, e),
            r@ == action_on(old(self).config, old(self)@, e),
    {
        match e {
            LayerEvent::Layer(l) => {
                let layer = descriptor_of_progress(&l);
                let layer_type = prefix_of_progress(&l);
                let short_digest = layer.digest.short();
                let layer_size: u64 = layer.size;
                if l.is_starting() {
                    self.subtask =
                    SubTaskBytes {
                        subtask: layer_type.to_owned(),
                        description: layer_type.to_owned().concat(": ").concat(
                            short_digest.as_str(),
                        ),
                        id: short_digest.clone(),
                        bytes_cached: 0,
                        bytes: 0,
                        bytes_total: layer_size,
                    };
                    LayerAction::BeginLayer {
                        length: layer_size,
                        message: layer_type.to_owned().concat(" ").concat(short_digest.as_str()),
                    }
                } else {
                    self.total_read = self.total_read.saturating_add(layer_size);
                    self.subtask.bytes = layer_size;
                    self.subtasks.push(self.subtask.clone());
                    assert(self@.subtasks == next_state(old(self)@, e).subtasks);
                    let subtasks = self.subtasks.clone();
                    assert(subtasks@ == self.subtasks@);
                    let event = self.pulling(self.total_read, subtasks);
                    LayerAction::EndLayer { position: layer_size, event }
                }
            },
            LayerEvent::LayersClosed => LayerAction::Finish {
                event: import_event(self.config.digest.as_str(), false),
            },
            LayerEvent::Bytes(Some(fetched)) => {
                self.subtask.bytes = fetched;
                let subtasks = bytes_with(&self.subtasks, &self.subtask);
                assert(bytes_views(subtasks@) == self@.subtasks.push(self@.subtask));
                let event = self.pulling(self.total_read + fetched, subtasks);
                LayerAction::ShowBytes { position: fetched, event }
            },
            LayerEvent::Bytes(None) => LayerAction::Wait,
            LayerEvent::BytesClosed => LayerAction::Finish {
                event: import_event(self.config.digest.as_str(), false),
            },
        }
    }
}

/// What `indicatif::HumanBytes` displays for a number of bytes.
pub uninterp spec fn human_bytes_text(bytes: u64) -> Seq<char>;

/// What `indicatif::HumanDuration` displays for a time of so many seconds and nanoseconds.
pub uninterp spec fn human_duration_text(secs: u64, nanos: u32) -> Seq<char>;

/// `indicatif::HumanBytes`, displayed.
#[verifier::external_body]
fn human_bytes(bytes: u64) -> (r: String)
    ensures
        r@ == human_bytes_text(bytes),
{
    format!("{}", indicatif::HumanBytes(bytes))
}

/// Whether the time is short of so many years that their number may not fit in a `usize`.
pub open spec fn countable_years(secs: u64) -> bool {
    secs / 31_536_000 < 0xffff_ffff
}

/// `indicatif::HumanDuration` of `std::time::Duration::new`, displayed.
///
/// What it displays depends on the arguments alone as long as the years can be counted in a `usize`
/// of any width; nothing is said of longer times.
#[verifier::external_body]
fn human_duration(secs: u64, nanos: u32) -> (r: String)
    requires
        nanos < 1_000_000_000,
    ensures
        countable_years(secs) ==> r@ == human_duration_text(secs, nanos),
{
    format!("{}", indicatif::HumanDuration(std::time::Duration::new(secs, nanos)))
}

/// The line that closes a fetch.
pub open spec fn fetched_text(total: Seq<char>, elapsed: Seq<char>, persec: Seq<char>) -> Seq<
    char,
> {
    "Fetched layers: "@ + total + " in "@ + elapsed + " ("@ + persec + "/s)"@
}

/// The line that closes a fetch, from its parts.
pub fn fetched_line(total: &str, elapsed: &str, persec: &str) -> (r: String)
    ensures
        r@ == fetched_text(total@, elapsed@, persec@),
        r@ == "Fetched layers: "@ + total@ + " in "@ + elapsed@ + " ("@ + persec@ + "/s)"@,
{
    "Fetched layers: ".to_owned().concat(total).concat(" in ").concat(elapsed).concat(" (").concat(
        persec,
    ).concat("/s)")
}

/// The line that closes a fetch of `total_read` bytes at `persec` bytes in a second.
pub fn fetched_summary(total_read: u64, secs: u64, nanos: u32, persec: u64) -> (r: String)
    requires
        nanos < 1_000_000_000,
    ensures
        countable_years(secs) ==> r@ == fetched_text(
            human_bytes_text(total_read),
            human_duration_text(secs, nanos),
            human_bytes_text(persec),
        ),
        secs / 31_536_000 < 0xffff_ffff ==> r@ == "Fetched layers: "@ + human_bytes_text(total_read)
            + " in "@ + human_duration_text(secs, nanos) + " ("@ + human_bytes_text(persec) + "/s)"@,
        exists|elapsed: Seq<char>|
            r@ == #[trigger] fetched_text(
                human_bytes_text(total_read),
                elapsed,
                human_bytes_text(persec),
            ),
{
    let total = human_bytes(total_read);
    let elapsed = human_duration(secs, nanos);
    let rate = human_bytes(persec);
    fetched_line(total.as_str(), elapsed.as_str(), rate.as_str())
}

} // verus!
