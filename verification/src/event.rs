//! Progress events, as they are written for other programs to read.
use vstd::prelude::*;

verus! {

/// A part of a task that is measured in bytes.
#[derive(Debug)]
pub struct SubTaskBytes {
    pub subtask: String,
    pub description: String,
    pub id: String,
    pub bytes_cached: u64,
    pub bytes: u64,
    pub bytes_total: u64,
}

/// A part of a task that is done or not.
#[derive(Debug)]
pub struct SubTaskStep {
    pub subtask: String,
    pub description: String,
    pub id: String,
    pub completed: bool,
}

/// One event.
#[derive(Debug)]
#[allow(inconsistent_fields)]
pub enum Event {
    ProgressBytes {
        task: String,
        description: String,
        id: String,
        bytes_cached: u64,
        bytes: u64,
        bytes_total: u64,
        steps_cached: u64,
        steps: u64,
        steps_total: u64,
        subtasks: Vec<SubTaskBytes>,
    },
    ProgressSteps {
        task: String,
        description: String,
        id: String,
        steps_cached: u64,
        steps: u64,
        steps_total: u64,
        subtasks: Vec<SubTaskStep>,
    },
}

#[verifier::ext_equal]
pub struct SubTaskBytesView {
    pub subtask: Seq<char>,
    pub description: Seq<char>,
    pub id: Seq<char>,
    pub bytes_cached: u64,
    pub bytes: u64,
    pub bytes_total: u64,
}

#[verifier::ext_equal]
pub struct SubTaskStepView {
    pub subtask: Seq<char>,
    pub description: Seq<char>,
    pub id: Seq<char>,
    pub completed: bool,
}

#[verifier::ext_equal]
#[allow(inconsistent_fields)]
pub enum EventView {
    ProgressBytes {
        task: Seq<char>,
        description: Seq<char>,
        id: Seq<char>,
        bytes_cached: u64,
        bytes: u64,
        bytes_total: u64,
        steps_cached: u64,
        steps: u64,
        steps_total: u64,
        subtasks: Seq<SubTaskBytesView>,
    },
    ProgressSteps {
        task: Seq<char>,
        description: Seq<char>,
        id: Seq<char>,
        steps_cached: u64,
        steps: u64,
        steps_total: u64,
        subtasks: Seq<SubTaskStepView>,
    },
}

impl View for SubTaskBytes {
    type V = SubTaskBytesView;

    open spec fn view(&self) -> SubTaskBytesView {
        SubTaskBytesView {
            subtask: self.subtask@,
            description: self.description@,
            id: self.id@,
            bytes_cached: self.bytes_cached,
            bytes: self.bytes,
            bytes_total: self.bytes_total,
        }
    }
}

impl View for SubTaskStep {
    type V = SubTaskStepView;

    open spec fn view(&self) -> SubTaskStepView {
        SubTaskStepView {
            subtask: self.subtask@,
            description: self.description@,
            id: self.id@,
            completed: self.completed,
        }
    }
}

/// The views of the parts, in order.
pub open spec fn bytes_views(s: Seq<SubTaskBytes>) -> Seq<SubTaskBytesView> {
    s.map_values(|t: SubTaskBytes| t@)
}

/// The views of the parts, in order.
pub open spec fn step_views(s: Seq<SubTaskStep>) -> Seq<SubTaskStepView> {
    s.map_values(|t: SubTaskStep| t@)
}

impl View for Event {
    type V = EventView;

    open spec fn view(&self) -> EventView {
        match *self {
            Event::ProgressBytes {
                task,
                description,
                id,
                bytes_cached,
                bytes,
                bytes_total,
                steps_cached,
                steps,
                steps_total,
                subtasks,
            } => EventView::ProgressBytes {
                task: task@,
                description: description@,
                id: id@,
                bytes_cached,
                bytes,
                bytes_total,
                steps_cached,
                steps,
                steps_total,
                subtasks: bytes_views(subtasks@),
            },
            Event::ProgressSteps {
                task,
                description,
                id,
                steps_cached,
                steps,
                steps_total,
                subtasks,
            } => EventView::ProgressSteps {
                task: task@,
                description: description@,
                id: id@,
                steps_cached,
                steps,
                steps_total,
                subtasks: step_views(subtasks@),
            },
        }
    }
}

impl Clone for SubTaskBytes {
    fn clone(&self) -> (r: SubTaskBytes)
        ensures
            r == *self,
    {
        SubTaskBytes {
            subtask: self.subtask.clone(),
            description: self.description.clone(),
            id: self.id.clone(),
            bytes_cached: self.bytes_cached,
            bytes: self.bytes,
            bytes_total: self.bytes_total,
        }
    }
}

impl Clone for SubTaskStep {
    fn clone(&self) -> (r: SubTaskStep)
        ensures
            r == *self,
    {
        SubTaskStep {
            subtask: self.subtask.clone(),
            description: self.description.clone(),
            id: self.id.clone(),
            completed: self.completed,
        }
    }
}

impl Default for SubTaskBytes {
    fn default() -> (r: SubTaskBytes)
        ensures
            r@ == (SubTaskBytesView {
                subtask: Seq::empty(),
                description: Seq::empty(),
                id: Seq::empty(),
                bytes_cached: 0,
                bytes: 0,
                bytes_total: 0,
            }),
    {
        SubTaskBytes {
            subtask: String::new(),
            description: String::new(),
            id: String::new(),
            bytes_cached: 0,
            bytes: 0,
            bytes_total: 0,
        }
    }
}

/// A copy of the parts with one more at the end.
pub(crate) fn bytes_with(done: &Vec<SubTaskBytes>, last: &SubTaskBytes) -> (r: Vec<SubTaskBytes>)
    ensures
        r@ == done@.push(*last),
{
    let mut r = done.clone();
    assert(r@ == done@);
    r.push(last.clone());
    r
}

/// A copy of the parts with one more at the end.
pub(crate) fn steps_with(done: &Vec<SubTaskStep>, last: &SubTaskStep) -> (r: Vec<SubTaskStep>)
    ensures
        r@ == done@.push(*last),
{
    let mut r = done.clone();
    assert(r@ == done@);
    r.push(last.clone());
    r
}

// ---------------------------------------------------------------------------
// Laws

/// A part of a task is just what it is stated to be.
pub proof fn part_is_what_is_stated(b: SubTaskBytes, s: SubTaskStep)
    ensures
        b@.subtask == b.subtask@,
        b@.description == b.description@,
        b@.id == b.id@,
        b@.bytes_cached == b.bytes_cached,
        b@.bytes == b.bytes,
        b@.bytes_total == b.bytes_total,
        s@.subtask == s.subtask@,
        s@.description == s.description@,
        s@.id == s.id@,
        s@.completed == s.completed,
{
}

/// An event is just what it is stated to be, field by field and part by part.
pub proof fn event_is_what_is_stated(e: Event)
    ensures
        match e {
            Event::ProgressBytes {
                task,
                description,
                id,
                bytes_cached,
                bytes,
                bytes_total,
                steps_cached,
                steps,
                steps_total,
                subtasks,
            } => {
                &&& e@ is ProgressBytes
                &&& e@->ProgressBytes_task == task@
                &&& e@->ProgressBytes_description == description@
                &&& e@->ProgressBytes_id == id@
                &&& e@->bytes_cached == bytes_cached
                &&& e@->bytes == bytes
                &&& e@->bytes_total == bytes_total
                &&& e@->ProgressBytes_steps_cached == steps_cached
                &&& e@->ProgressBytes_steps == steps
                &&& e@->ProgressBytes_steps_total == steps_total
                &&& e@->ProgressBytes_subtasks.len() == subtasks@.len()
                &&& forall|k: int|
                    0 <= k < subtasks@.len() ==> #[trigger] e@->ProgressBytes_subtasks[k]
                        == subtasks@[k]@
            },
            Event::ProgressSteps {
                task,
                description,
                id,
                steps_cached,
                steps,
                steps_total,
                subtasks,
            } => {
                &&& e@ is ProgressSteps
                &&& e@->ProgressSteps_task == task@
                &&& e@->ProgressSteps_description == description@
                &&& e@->ProgressSteps_id == id@
                &&& e@->ProgressSteps_steps_cached == steps_cached
                &&& e@->ProgressSteps_steps == steps
                &&& e@->ProgressSteps_steps_total == steps_total
                &&& e@->ProgressSteps_subtasks.len() == subtasks@.len()
                &&& forall|k: int|
                    0 <= k < subtasks@.len() ==> #[trigger] e@->ProgressSteps_subtasks[k]
                        == subtasks@[k]@
            },
        },
{
}

} // verus!
