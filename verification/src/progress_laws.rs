//! What holds of a fetch from its beginning to its end.
use vstd::prelude::*;

use crate::event::{EventView, SubTaskBytes, SubTaskBytesView, SubTaskStepView};
use crate::image::{Descriptor, ImportProgress};
use crate::progress::{
    action_on, begun, can_handle, initial_state, next_state, pulling_event, saturating_sum,
    LayerAction, LayerActionView, LayerEvent, LayerProgress, LayerProgressConfig,
    LayerProgressView,
};
use crate::pull::{fetch_is_part_of_image, total_size, PreparedImportMeta};

verus! {

/// The state after everything that was heard.
pub open spec fn run(s: LayerProgressView, heard: Seq<LayerEvent>) -> LayerProgressView
    decreases heard.len(),
{
    if heard.len() == 0 {
        s
    } else {
        next_state(run(s, heard.drop_last()), heard.last())
    }
}

/// Whether a layer is done.
pub open spec fn completes(e: LayerEvent) -> bool {
    e is Layer && !(e->Layer_0.starts())
}

/// The layers that are done, in the order in which they were.
pub open spec fn completed_layers(heard: Seq<LayerEvent>) -> Seq<Descriptor>
    decreases heard.len(),
{
    if heard.len() == 0 {
        seq![]
    } else if completes(heard.last()) {
        completed_layers(heard.drop_last()).push(heard.last()->Layer_0.layer())
    } else {
        completed_layers(heard.drop_last())
    }
}

/// A number, or the greatest that fits.
pub open spec fn capped(n: nat) -> u64 {
    if n > u64::MAX {
        u64::MAX
    } else {
        n as u64
    }
}

/// At any time the layers that are done are on record, each with its size, and the bytes read are
/// the sum of their sizes.
pub proof fn record_matches_news(heard: Seq<LayerEvent>)
    ensures
        ({
            let s = run(initial_state(), heard);
            let done = completed_layers(heard);
            &&& s.subtasks.len() == done.len()
            &&& forall|k: int| 0 <= k < done.len() ==> (#[trigger] s.subtasks[k]).bytes
                == done[k].size
            &&& s.total_read == capped(total_size(done))
        }),
    decreases heard.len(),
{
    if heard.len() > 0 {
        let before = heard.drop_last();
        record_matches_news(before);
        let e = heard.last();
        if completes(e) {
            let done = completed_layers(before);
            let l = e->Layer_0.layer();
            assert(done.push(l).drop_last() == done);
            let s = run(initial_state(), heard);
            assert forall|k: int| 0 <= k < done.len() + 1 implies (#[trigger] s.subtasks[k]).bytes
                == completed_layers(heard)[k].size by {
                if k < done.len() {
                    assert(s.subtasks[k] == run(initial_state(), before).subtasks[k]);
                }
            }
        }
    }
}

/// Nothing that is on record is lost or changed by what is heard later, and no byte is unread.
pub proof fn record_only_grows(s: LayerProgressView, heard: Seq<LayerEvent>)
    ensures
        s.subtasks.is_prefix_of(run(s, heard).subtasks),
        s.total_read <= run(s, heard).total_read,
    decreases heard.len(),
{
    if heard.len() > 0 {
        record_only_grows(s, heard.drop_last());
    }
}

/// Whether only numbers of bytes are heard.
pub open spec fn only_bytes(heard: Seq<LayerEvent>) -> bool {
    forall|k: int| 0 <= k < heard.len() ==> (#[trigger] heard[k]) is Bytes
}

proof fn bytes_keep_the_layer(s: LayerProgressView, heard: Seq<LayerEvent>)
    requires
        only_bytes(heard),
    ensures
        run(s, heard) == (LayerProgressView { subtask: run(s, heard).subtask, ..s }),
        run(s, heard).subtask == (SubTaskBytesView {
            bytes: run(s, heard).subtask.bytes,
            ..s.subtask
        }),
    decreases heard.len(),
{
    if heard.len() > 0 {
        assert forall|k: int| 0 <= k < heard.drop_last().len() implies (
        #[trigger] heard.drop_last()[k]) is Bytes by {
            assert(heard[k] is Bytes);
        }
        bytes_keep_the_layer(s, heard.drop_last());
        assert(heard[heard.len() - 1] is Bytes);
    }
}

/// A layer that begins, is fetched and ends is put on record under its own name, with as many bytes
/// done as it has in sum, whatever numbers were heard in between.
pub proof fn layer_from_begin_to_end(
    s: LayerProgressView,
    begin: ImportProgress,
    heard: Seq<LayerEvent>,
    end: ImportProgress,
)
    requires
        begin.starts(),
        only_bytes(heard),
        !end.starts(),
        end.layer().size == begin.layer().size,
    ensures
        ({
            let t = next_state(
                run(next_state(s, LayerEvent::Layer(begin)), heard),
                LayerEvent::Layer(end),
            );
            let size = begin.layer().size;
            &&& t.subtasks == s.subtasks.push(SubTaskBytesView { bytes: size, ..begun(begin) })
            &&& t.subtasks.last().bytes == t.subtasks.last().bytes_total
            &&& t.total_read == saturating_sum(s.total_read, size)
        }),
{
    bytes_keep_the_layer(next_state(s, LayerEvent::Layer(begin)), heard);
}

/// What was heard but for the numbers of bytes.
pub open spec fn without_bytes(heard: Seq<LayerEvent>) -> Seq<LayerEvent>
    decreases heard.len(),
{
    if heard.len() == 0 {
        seq![]
    } else if heard.last() is Bytes {
        without_bytes(heard.drop_last())
    } else {
        without_bytes(heard.drop_last()).push(heard.last())
    }
}

/// What is done where layers end, in the order in which it is done.
pub open spec fn layer_ends(
    c: LayerProgressConfig,
    s: LayerProgressView,
    heard: Seq<LayerEvent>,
) -> Seq<LayerActionView>
    decreases heard.len(),
{
    if heard.len() == 0 {
        seq![]
    } else {
        let before = layer_ends(c, s, heard.drop_last());
        let action = action_on(c, run(s, heard.drop_last()), heard.last());
        if action is EndLayer {
            before.push(action)
        } else {
            before
        }
    }
}

/// Numbers of bytes show in nothing but the bytes of the current layer.
proof fn bytes_leave_no_trace(
    c: LayerProgressConfig,
    s: LayerProgressView,
    heard: Seq<LayerEvent>,
)
    ensures
        ({
            let t = run(s, heard);
            let u = run(s, without_bytes(heard));
            t == LayerProgressView {
                subtask: SubTaskBytesView { bytes: t.subtask.bytes, ..u.subtask },
                ..u
            }
        }),
        layer_ends(c, s, heard) == layer_ends(c, s, without_bytes(heard)),
    decreases heard.len(),
{
    if heard.len() > 0 {
        let before = heard.drop_last();
        bytes_leave_no_trace(c, s, before);
        if !(heard.last() is Bytes) {
            assert(without_bytes(heard).drop_last() == without_bytes(before));
        }
    }
}

/// What is sent where a layer ends does not depend on the numbers of bytes that were heard, nor on
/// when they were: news that differ only in them send the same.
pub proof fn layer_ends_ignore_bytes(
    c: LayerProgressConfig,
    s: LayerProgressView,
    heard: Seq<LayerEvent>,
    other: Seq<LayerEvent>,
)
    requires
        without_bytes(heard) == without_bytes(other),
    ensures
        layer_ends(c, s, heard) == layer_ends(c, s, other),
{
    bytes_leave_no_trace(c, s, heard);
    bytes_leave_no_trace(c, s, other);
}

/// Once every layer that was to be fetched is done, the event says so: as many bytes and as many
/// steps are done as there are.
pub proof fn whole_fetch_reaches_total(
    c: LayerProgressConfig,
    to_fetch: Seq<Descriptor>,
    heard: Seq<LayerEvent>,
)
    requires
        c.n_layers_to_fetch == to_fetch.len(),
        c.bytes_to_download == total_size(to_fetch),
        completed_layers(heard).to_multiset() == to_fetch.to_multiset(),
        heard.len() > 0,
        completes(heard.last()),
    ensures
        ({
            let before = run(initial_state(), heard.drop_last());
            let action = action_on(c, before, heard.last());
            let s = run(initial_state(), heard);
            action == LayerActionView::EndLayer {
                position: heard.last()->Layer_0.layer().size,
                event: pulling_event(
                    c,
                    c.bytes_to_download,
                    c.n_layers_to_fetch as u64,
                    s.subtasks,
                ),
            }
        }),
{
    record_matches_news(heard);
    let done = completed_layers(heard);
    fetch_is_part_of_image(done, to_fetch);
    fetch_is_part_of_image(to_fetch, done);
}

/// Layers that are all among an image's layers give sums from which the events' differences can be
/// taken.
pub proof fn prepared_sums_are_fit(
    c: LayerProgressConfig,
    meta: PreparedImportMeta,
    to_fetch: Seq<Descriptor>,
    all: Seq<Descriptor>,
)
    requires
        to_fetch.to_multiset().subset_of(all.to_multiset()),
        meta.n_layers_to_fetch == to_fetch.len(),
        meta.layers_total == all.len(),
        meta.bytes_to_fetch == total_size(to_fetch),
        meta.bytes_total == total_size(all),
        c.n_layers_to_fetch == meta.n_layers_to_fetch,
        c.layers_total == meta.layers_total,
        c.bytes_to_download == meta.bytes_to_fetch,
        c.bytes_total == meta.bytes_total,
    ensures
        c.wf(),
{
    fetch_is_part_of_image(to_fetch, all);
}

// ---------------------------------------------------------------------------
// One piece of news

/// What is on record changes only where a layer ends: its size is then added to the bytes read, which
/// stop at the greatest number that fits, and the current layer is added to the list, in full. A number
/// of bytes changes that of the current layer alone.
pub proof fn record_changes_where_layers_end(s: LayerProgressView, e: LayerEvent)
    ensures
        ({
            let t = next_state(s, e);
            match e {
                LayerEvent::Layer(ImportProgress::OstreeChunkCompleted(l)) => {
                    &&& s.total_read + l.size <= u64::MAX ==> t.total_read == s.total_read + l.size
                    &&& s.total_read + l.size > u64::MAX ==> t.total_read == u64::MAX
                    &&& t.subtasks.len() == s.subtasks.len() + 1
                    &&& t.subtasks.drop_last() == s.subtasks
                    &&& t.subtasks.last() == SubTaskBytesView { bytes: l.size, ..s.subtask }
                    &&& t.subtask == t.subtasks.last()
                },
                LayerEvent::Layer(ImportProgress::DerivedLayerCompleted(l)) => {
                    &&& s.total_read + l.size <= u64::MAX ==> t.total_read == s.total_read + l.size
                    &&& s.total_read + l.size > u64::MAX ==> t.total_read == u64::MAX
                    &&& t.subtasks.len() == s.subtasks.len() + 1
                    &&& t.subtasks.drop_last() == s.subtasks
                    &&& t.subtasks.last() == SubTaskBytesView { bytes: l.size, ..s.subtask }
                    &&& t.subtask == t.subtasks.last()
                },
                LayerEvent::Layer(_) => t.total_read == s.total_read && t.subtasks == s.subtasks,
                LayerEvent::Bytes(Some(n)) => {
                    &&& t.total_read == s.total_read
                    &&& t.subtasks == s.subtasks
                    &&& t.subtask == SubTaskBytesView { bytes: n, ..s.subtask }
                },
                _ => t == s,
            }
        }),
{
}

/// Which event is sent, if any, depends on the kind of news: where a layer ends and where a number of
/// bytes is heard, one about the fetch; where the news end, one about the import; else none. Where a
/// layer begins, the bar is set to its size.
pub proof fn kind_of_action(c: LayerProgressConfig, s: LayerProgressView, e: LayerEvent)
    ensures
        ({
            let action = action_on(c, s, e);
            match e {
                LayerEvent::Layer(ImportProgress::OstreeChunkStarted(l)) => action is BeginLayer
                    && action->length == l.size,
                LayerEvent::Layer(ImportProgress::DerivedLayerStarted(l)) => action is BeginLayer
                    && action->length == l.size,
                LayerEvent::Layer(ImportProgress::OstreeChunkCompleted(l)) => action is EndLayer
                    && action->EndLayer_position == l.size && action->EndLayer_event is ProgressBytes,
                LayerEvent::Layer(ImportProgress::DerivedLayerCompleted(l)) => action is EndLayer
                    && action->EndLayer_position == l.size && action->EndLayer_event is ProgressBytes,
                LayerEvent::Bytes(Some(n)) => action is ShowBytes && action->ShowBytes_position == n
                    && action->ShowBytes_event is ProgressBytes,
                LayerEvent::Bytes(None) => action is Wait,
                LayerEvent::LayersClosed => action is Finish,
                LayerEvent::BytesClosed => action is Finish,
            }
        }),
{
}

/// Every event about a fetch names the image, and what it says is cached and what it says is to be
/// fetched make up the image, in bytes and in layers.
pub proof fn fetch_event_is_of_the_image(
    c: LayerProgressConfig,
    s: LayerProgressView,
    e: LayerEvent,
)
    requires
        c.n_layers_to_fetch <= c.layers_total,
        c.bytes_to_download <= c.bytes_total,
    ensures
        ({
            let action = action_on(c, s, e);
            let named = |v: EventView|
                {
                    &&& v is ProgressBytes
                    &&& v->ProgressBytes_task == "pulling"@
                    &&& v->ProgressBytes_description == "Pulling Image: "@ + c.digest@
                    &&& v->ProgressBytes_id == c.digest@
                    &&& v->bytes_total == c.bytes_to_download
                    &&& v->bytes_cached + v->bytes_total == c.bytes_total
                    &&& v->ProgressBytes_steps_total == c.n_layers_to_fetch
                    &&& v->ProgressBytes_steps_cached + v->ProgressBytes_steps_total
                        == c.layers_total
                };
            &&& action is EndLayer ==> named(action->EndLayer_event)
            &&& action is ShowBytes ==> named(action->ShowBytes_event)
        }),
{
}

/// When the news end, what is sent says that the import of the image has begun and is not completed.
pub proof fn import_begins_when_news_end(c: LayerProgressConfig, s: LayerProgressView)
    ensures
        ({
            let part = SubTaskStepView {
                subtask: "importing"@,
                description: "Importing Image"@,
                id: "importing"@,
                completed: false,
            };
            let begun = EventView::ProgressSteps {
                task: "importing"@,
                description: "Importing Image"@,
                id: c.digest@,
                steps_cached: 0,
                steps: 0,
                steps_total: 1,
                subtasks: seq![part],
            };
            &&& action_on(c, s, LayerEvent::LayersClosed) == LayerActionView::Finish { event: begun }
            &&& action_on(c, s, LayerEvent::BytesClosed) == LayerActionView::Finish { event: begun }
        }),
{
}

/// What a fetch can go on with: news of a layer whose digest has at least so many characters as stand
/// for it, and numbers of bytes that can be added to the bytes read, as long as no more is fetched than
/// there is; and any other news.
pub proof fn what_is_accepted(c: LayerProgressConfig, s: LayerProgressView, e: LayerEvent)
    ensures
        ({
            let fits = c.n_layers_to_fetch <= c.layers_total && c.bytes_to_download <= c.bytes_total;
            can_handle(c, s, e) <==> match e {
                LayerEvent::Layer(ImportProgress::OstreeChunkStarted(l)) =>
                    l.digest.encoded_part().len() >= 21,
                LayerEvent::Layer(ImportProgress::DerivedLayerStarted(l)) =>
                    l.digest.encoded_part().len() >= 21,
                LayerEvent::Layer(ImportProgress::OstreeChunkCompleted(l)) =>
                    l.digest.encoded_part().len() >= 21 && fits,
                LayerEvent::Layer(ImportProgress::DerivedLayerCompleted(l)) =>
                    l.digest.encoded_part().len() >= 21 && fits,
                LayerEvent::Bytes(Some(n)) => s.total_read + n <= u64::MAX && fits,
                _ => true,
            }
        }),
{
}

// ---------------------------------------------------------------------------
// All news

/// The layers that are done are those that were heard to be completed, in order.
pub proof fn layers_done_are_those_completed(heard: Seq<LayerEvent>, e: LayerEvent)
    ensures
        completed_layers(Seq::empty()) == Seq::<Descriptor>::empty(),
        match e {
            LayerEvent::Layer(ImportProgress::OstreeChunkCompleted(l)) => completed_layers(
                heard.push(e),
            ) == completed_layers(heard).push(l),
            LayerEvent::Layer(ImportProgress::DerivedLayerCompleted(l)) => completed_layers(
                heard.push(e),
            ) == completed_layers(heard).push(l),
            _ => completed_layers(heard.push(e)) == completed_layers(heard),
        },
{
    assert(heard.push(e).drop_last() == heard);
}

/// News are taken in one after the other.
pub proof fn news_are_taken_in_order(
    s: LayerProgressView,
    heard: Seq<LayerEvent>,
    more: Seq<LayerEvent>,
    e: LayerEvent,
)
    ensures
        run(s, Seq::empty()) == s,
        run(s, heard.push(e)) == next_state(run(s, heard), e),
        run(s, heard + more) == run(run(s, heard), more),
    decreases more.len(),
{
    assert(heard.push(e).drop_last() == heard);
    if more.len() == 0 {
        assert(heard + more == heard);
    } else {
        news_are_taken_in_order(s, heard, more.drop_last(), e);
        assert((heard + more).drop_last() == heard + more.drop_last());
    }
}

/// At any time the event that is sent for a number of bytes reports all that was fetched: the sizes of
/// all layers that are done, and those bytes. It lists the layers that are done, each in full, and the
/// current one with just those bytes.
pub proof fn bytes_reported_add_up(c: LayerProgressConfig, heard: Seq<LayerEvent>, n: u64)
    requires
        total_size(completed_layers(heard)) + n <= u64::MAX,
        completed_layers(heard).len() <= u64::MAX,
    ensures
        ({
            let done = completed_layers(heard);
            let action = action_on(c, run(initial_state(), heard), LayerEvent::Bytes(Some(n)));
            let event = action->ShowBytes_event;
            let parts = event->ProgressBytes_subtasks;
            &&& action is ShowBytes
            &&& action->ShowBytes_position == n
            &&& event is ProgressBytes
            &&& event->bytes == total_size(done) + n
            &&& event->ProgressBytes_steps == done.len()
            &&& parts.len() == done.len() + 1
            &&& parts.last().bytes == n
            &&& forall|k: int| 0 <= k < done.len() ==> (#[trigger] parts[k]).bytes == done[k].size
        }),
{
    record_matches_news(heard);
    let s = run(initial_state(), heard);
    let action = action_on(c, s, LayerEvent::Bytes(Some(n)));
    let parts = action->ShowBytes_event->ProgressBytes_subtasks;
    let done = completed_layers(heard);
    assert forall|k: int| 0 <= k < done.len() implies (#[trigger] parts[k]).bytes == done[k].size by {
        assert(parts[k] == s.subtasks[k]);
    }
}

/// Where a layer ends, the event that is sent reports all layers that are done, that one among them:
/// their sizes in sum, their number, and each of them in full.
pub proof fn layers_reported_add_up(
    c: LayerProgressConfig,
    heard: Seq<LayerEvent>,
    p: ImportProgress,
)
    requires
        p is OstreeChunkCompleted || p is DerivedLayerCompleted,
        total_size(completed_layers(heard.push(LayerEvent::Layer(p)))) <= u64::MAX,
        completed_layers(heard).len() < u64::MAX,
    ensures
        ({
            let e = LayerEvent::Layer(p);
            let done = completed_layers(heard.push(e));
            let action = action_on(c, run(initial_state(), heard), e);
            let event = action->EndLayer_event;
            let parts = event->ProgressBytes_subtasks;
            &&& action is EndLayer
            &&& event is ProgressBytes
            &&& event->bytes == total_size(done)
            &&& event->ProgressBytes_steps == done.len()
            &&& parts.len() == done.len()
            &&& forall|k: int| 0 <= k < done.len() ==> (#[trigger] parts[k]).bytes == done[k].size
        }),
{
    let e = LayerEvent::Layer(p);
    let all = heard.push(e);
    record_matches_news(all);
    layers_done_are_those_completed(heard, e);
    assert(all.drop_last() == heard);
    let s = run(initial_state(), all);
    assert(s == next_state(run(initial_state(), heard), e));
}

/// The bytes reported never fall below those that were reported where a layer ended earlier, neither
/// by a number of bytes heard later nor where another layer ends.
pub proof fn bytes_reported_never_fall(
    c: LayerProgressConfig,
    heard: Seq<LayerEvent>,
    i: int,
    j: int,
)
    requires
        0 <= i < j < heard.len(),
        heard[i] is Layer,
        heard[i]->Layer_0 is OstreeChunkCompleted || heard[i]->Layer_0 is DerivedLayerCompleted,
        can_handle(c, run(initial_state(), heard.take(j)), heard[j]),
    ensures
        ({
            let earlier = action_on(c, run(initial_state(), heard.take(i)), heard[i]);
            let later = action_on(c, run(initial_state(), heard.take(j)), heard[j]);
            &&& earlier is EndLayer
            &&& later is ShowBytes ==> earlier->EndLayer_event->bytes
                <= later->ShowBytes_event->bytes
            &&& later is EndLayer ==> earlier->EndLayer_event->bytes <= later->EndLayer_event->bytes
        }),
{
    let first = heard.take(i);
    let e = heard[i];
    let s = run(initial_state(), first.push(e));
    news_are_taken_in_order(initial_state(), first, seq![], e);
    let between = heard.subrange(i + 1, j);
    news_are_taken_in_order(initial_state(), first.push(e), between, e);
    assert(first.push(e) + between == heard.take(j));
    record_only_grows(s, between);
}

/// A layer is reported under one name, from its beginning to its end: the kind of layer, and the first
/// characters of its digest. While it is fetched, the event for a number of bytes lists it last, after
/// all that was on record, with those bytes of its size; when it ends it is listed in full.
pub proof fn layer_is_reported_by_name(
    c: LayerProgressConfig,
    s: LayerProgressView,
    chunk: bool,
    layer: Descriptor,
    numbers: Seq<LayerEvent>,
    n: u64,
)
    requires
        forall|k: int| 0 <= k < numbers.len() ==> (#[trigger] numbers[k]) is Bytes,
        s.total_read + n <= u64::MAX,
    ensures
        ({
            let begin = LayerEvent::Layer(
                if chunk {
                    ImportProgress::OstreeChunkStarted(layer)
                } else {
                    ImportProgress::DerivedLayerStarted(layer)
                },
            );
            let end = LayerEvent::Layer(
                if chunk {
                    ImportProgress::OstreeChunkCompleted(layer)
                } else {
                    ImportProgress::DerivedLayerCompleted(layer)
                },
            );
            let kind = if chunk {
                "ostree chunk"@
            } else {
                "layer"@
            };
            let short = layer.digest.encoded_part().take(21);
            let part = SubTaskBytesView {
                subtask: kind,
                description: kind + ": "@ + short,
                id: short,
                bytes_cached: 0,
                bytes: n,
                bytes_total: layer.size,
            };
            let whole = SubTaskBytesView { bytes: layer.size, ..part };
            let during = run(next_state(s, begin), numbers);
            let shown = action_on(c, during, LayerEvent::Bytes(Some(n)));
            let ended = action_on(c, during, end);
            &&& action_on(c, s, begin) == LayerActionView::BeginLayer {
                length: layer.size,
                message: kind + " "@ + short,
            }
            &&& shown is ShowBytes
            &&& shown->ShowBytes_event->bytes == s.total_read + n
            &&& shown->ShowBytes_event->ProgressBytes_subtasks == s.subtasks.push(part)
            &&& ended is EndLayer
            &&& ended->EndLayer_event->ProgressBytes_subtasks == s.subtasks.push(whole)
            &&& next_state(during, end).subtasks == s.subtasks.push(whole)
        }),
{
    let p = if chunk {
        ImportProgress::OstreeChunkStarted(layer)
    } else {
        ImportProgress::DerivedLayerStarted(layer)
    };
    bytes_keep_the_layer(next_state(s, LayerEvent::Layer(p)), numbers);
}

/// Before anything is heard nothing is fetched, and nothing is on record.
pub proof fn fetch_begins_with_nothing()
    ensures
        initial_state().total_read == 0,
        initial_state().subtasks.len() == 0,
        initial_state().subtask.bytes == 0,
        initial_state().subtask.bytes_cached == 0,
        initial_state().subtask.bytes_total == 0,
        initial_state().subtask.subtask.len() == 0,
        initial_state().subtask.description.len() == 0,
        initial_state().subtask.id.len() == 0,
{
}

/// The state of a fetch, and what is to be shown and sent, are just what they are stated to be.
pub proof fn fetch_is_what_is_stated(p: LayerProgress, a: LayerAction)
    ensures
        p@.total_read == p.total_read,
        p@.subtask == p.subtask@,
        p@.subtasks == p.subtasks@.map_values(|t: SubTaskBytes| t@),
        match a {
            LayerAction::BeginLayer { length, message } => a@ == LayerActionView::BeginLayer {
                length,
                message: message@,
            },
            LayerAction::EndLayer { position, event } => a@ == LayerActionView::EndLayer {
                position,
                event: event@,
            },
            LayerAction::ShowBytes { position, event } => a@ == LayerActionView::ShowBytes {
                position,
                event: event@,
            },
            LayerAction::Wait => a@ == LayerActionView::Wait,
            LayerAction::Finish { event } => a@ == LayerActionView::Finish { event: event@ },
        },
{
    assert(p@.subtasks == p.subtasks@.map_values(|t: SubTaskBytes| t@));
}

} // verus!
