use std::collections::HashMap;
use vstd::prelude::*;

verus! {

broadcast use vstd::std_specs::hash::group_hash_axioms;

/// Why an operation on a URL scheme task was refused.
#[derive(Debug, Clone, Copy, PartialEq, Eq, Structural)]
pub enum TaskError {
    /// The web view stopped the task; nothing more may be sent to it.
    TaskInvalidated,
    /// Data, completion or failure was attempted before the response head.
    ResponseNotSent,
    /// The main thread could not be reached to run the operation.
    QueueSyncFailed,
}

/// The human-readable description of a task error.
pub open spec fn task_error_message(e: TaskError) -> Seq<char> {
    match e {
        TaskError::TaskInvalidated => "task was externally invalidated"@,
        TaskError::ResponseNotSent => "attempted to finish stream or send data before responding"@,
        TaskError::QueueSyncFailed => "receiver dropped or queue blocked indefinitely"@,
    }
}

impl TaskError {
    /// The human-readable description of the error.
    pub fn message(&self) -> (m: &'static str)
        ensures
            m@ == task_error_message(*self),
    {
        match self {
            TaskError::TaskInvalidated => "task was externally invalidated",
            TaskError::ResponseNotSent => "attempted to finish stream or send data before responding",
            TaskError::QueueSyncFailed => "receiver dropped or queue blocked indefinitely",
        }
    }
}

/// What the caller has to do after `finish` or `fail` was accepted.
#[derive(Debug, Clone, Copy, PartialEq, Eq, Structural)]
pub enum Delivery {
    /// Pass the completion on to the platform task.
    Deliver,
    /// The task was stopped by the web view: the completion is dropped.
    Skip,
}

/// The bookkeeping kept for one live URL scheme task.
pub struct TaskState<T> {
    /// The platform task itself.
    pub task: T,
    /// False once the web view has stopped the task.
    pub is_valid: bool,
    /// True once the response head was handed to the task.
    pub response_sent: bool,
}

/// The state of a task just handed to the handler.
pub open spec fn fresh_state<T>(task: T) -> TaskState<T> {
    TaskState { task, is_valid: true, response_sent: false }
}

/// Registry effect of the web view stopping task `id`.
pub open spec fn spec_stop<T>(m: Map<usize, TaskState<T>>, id: usize) -> Map<usize, TaskState<T>> {
    if m.contains_key(id) {
        m.insert(id, TaskState { is_valid: false, ..m[id] })
    } else {
        m
    }
}

/// Outcome of sending the response head to task `id`.
pub open spec fn spec_send_response_result<T>(m: Map<usize, TaskState<T>>, id: usize) -> Result<(), TaskError> {
    if m.contains_key(id) && m[id].is_valid {
        Ok(())
    } else {
        Err(TaskError::TaskInvalidated)
    }
}

/// Registry after sending the response head to task `id`.
pub open spec fn spec_send_response<T>(m: Map<usize, TaskState<T>>, id: usize) -> Map<usize, TaskState<T>> {
    if m.contains_key(id) && m[id].is_valid {
        m.insert(id, TaskState { response_sent: true, ..m[id] })
    } else {
        m
    }
}

/// Outcome of sending a chunk of body data to task `id`.
pub open spec fn spec_send_data<T>(m: Map<usize, TaskState<T>>, id: usize) -> Result<(), TaskError> {
    if !m.contains_key(id) {
        Err(TaskError::TaskInvalidated)
    } else if !m[id].response_sent {
        Err(TaskError::ResponseNotSent)
    } else if !m[id].is_valid {
        Err(TaskError::TaskInvalidated)
    } else {
        Ok(())
    }
}

/// Outcome of finishing, or failing, task `id`.
pub open spec fn spec_complete<T>(m: Map<usize, TaskState<T>>, id: usize) -> Result<Delivery, TaskError> {
    if !m.contains_key(id) {
        Err(TaskError::TaskInvalidated)
    } else if !m[id].response_sent {
        Err(TaskError::ResponseNotSent)
    } else if !m[id].is_valid {
        Ok(Delivery::Skip)
    } else {
        Ok(Delivery::Deliver)
    }
}

/// A task just handed to the handler accepts its response head, and refuses
/// body data, completion and failure until that head was sent.
pub proof fn lemma_fresh_task_needs_response<T>(m: Map<usize, TaskState<T>>, id: usize, task: T)
    ensures
        spec_send_response_result(m.insert(id, fresh_state(task)), id) == Ok::<(), TaskError>(()),
        spec_send_data(m.insert(id, fresh_state(task)), id) == Err::<(), TaskError>(TaskError::ResponseNotSent),
        spec_complete(m.insert(id, fresh_state(task)), id) == Err::<Delivery, TaskError>(TaskError::ResponseNotSent),
{
}

/// Once the response head was accepted, body data is accepted and a
/// completion or failure is passed on to the platform task.
pub proof fn lemma_response_opens_body<T>(m: Map<usize, TaskState<T>>, id: usize)
    requires
        spec_send_response_result(m, id) is Ok,
    ensures
        spec_send_data(spec_send_response(m, id), id) == Ok::<(), TaskError>(()),
        spec_complete(spec_send_response(m, id), id) == Ok::<Delivery, TaskError>(Delivery::Deliver),
{
}

/// Stopping a task twice is the same as stopping it once.
pub proof fn lemma_stop_idempotent<T>(m: Map<usize, TaskState<T>>, id: usize)
    ensures
        spec_stop(spec_stop(m, id), id) == spec_stop(m, id),
{
    if m.contains_key(id) {
        assert(spec_stop(spec_stop(m, id), id) =~= spec_stop(m, id));
    }
}

/// A stopped task receives nothing more: its response head and body data
/// are refused, and a completion or failure is never passed on to it.
pub proof fn lemma_stopped_task_receives_nothing<T>(m: Map<usize, TaskState<T>>, id: usize)
    ensures
        spec_send_response_result(spec_stop(m, id), id) == Err::<(), TaskError>(TaskError::TaskInvalidated),
        spec_send_response(spec_stop(m, id), id) == spec_stop(m, id),
        spec_send_data(spec_stop(m, id), id) is Err,
        spec_complete(spec_stop(m, id), id) != Ok::<Delivery, TaskError>(Delivery::Deliver),
{
}

/// An operation on one task leaves every other task as it was, and no
/// operation forgets a task.
pub proof fn lemma_operations_are_local<T>(m: Map<usize, TaskState<T>>, id: usize, other: usize)
    requires
        other != id,
    ensures
        spec_stop(m, id).dom() == m.dom(),
        spec_send_response(m, id).dom() == m.dom(),
        m.contains_key(other) ==> spec_stop(m, id)[other] == m[other],
        m.contains_key(other) ==> spec_send_response(m, id)[other] == m[other],
{
    if m.contains_key(id) {
        assert(spec_stop(m, id).dom() =~= m.dom());
        assert(spec_send_response(m, id).dom() =~= m.dom());
    }
}

/// Only stopping makes a task invalid, and only a response head makes it
/// count as responded; neither is ever undone, and the platform task is kept.
pub proof fn lemma_flags_only_move_forward<T>(m: Map<usize, TaskState<T>>, id: usize)
    requires
        m.contains_key(id),
    ensures
        spec_stop(m, id)[id].response_sent == m[id].response_sent,
        !spec_stop(m, id)[id].is_valid,
        spec_stop(m, id)[id].task == m[id].task,
        spec_send_response(m, id)[id].is_valid == m[id].is_valid,
        m[id].response_sent ==> spec_send_response(m, id)[id].response_sent,
        spec_send_response(m, id)[id].task == m[id].task,
{
}

/// The live URL scheme tasks, keyed by task identifier.
///
/// Every decision on what may be sent to a task is taken here; the caller
/// performs the platform calls that an accepted operation asks for.
pub struct TaskRegistry<T> {
    tasks: HashMap<usize, TaskState<T>>,
}

impl<T> View for TaskRegistry<T> {
    type V = Map<usize, TaskState<T>>;

    closed spec fn view(&self) -> Map<usize, TaskState<T>> {
        self.tasks@
    }
}

impl<T> TaskRegistry<T> {
    /// A registry with no task.
    pub fn new() -> (r: Self)
        ensures
            r@ == Map::<usize, TaskState<T>>::empty(),
    {
        TaskRegistry { tasks: HashMap::new() }
    }

    /// Records a task handed to the handler: valid, with no response sent yet.
    /// A task previously recorded under the same identifier is replaced.
    pub fn register(&mut self, id: usize, task: T)
        ensures
            final(self)@ == old(self)@.insert(id, fresh_state(task)),
    {
        self.tasks.insert(id, TaskState { task, is_valid: true, response_sent: false });
    }

    /// Marks task `id` as stopped by the web view; unknown identifiers are ignored.
    pub fn stop(&mut self, id: usize)
        ensures
            final(self)@ == spec_stop(old(self)@, id),
    {
        match self.tasks.remove(&id) {
            Some(state) => {
                self.tasks.insert(id, TaskState { task: state.task, is_valid: false, response_sent: state.response_sent });
                assert(self@ =~= spec_stop(old(self)@, id));
            },
            None => {
                assert(self@ =~= old(self)@);
            },
        }
    }

    /// The platform task recorded under `id`, if any.
    pub fn task(&self, id: usize) -> (t: Option<&T>)
        ensures
            match t {
                Some(t) => self@.contains_key(id) && *t == self@[id].task,
                None => !self@.contains_key(id),
            },
    {
        match self.tasks.get(&id) {
            Some(state) => Some(&state.task),
            None => None,
        }
    }

    /// Accepts the response head for task `id` if the task is still valid,
    /// and records that it was sent.
    pub fn send_response(&mut self, id: usize) -> (r: Result<(), TaskError>)
        ensures
            r == spec_send_response_result(old(self)@, id),
            final(self)@ == spec_send_response(old(self)@, id),
    {
        match self.tasks.remove(&id) {
            Some(state) => {
                if state.is_valid {
                    self.tasks.insert(id, TaskState { task: state.task, is_valid: true, response_sent: true });
                    assert(self@ =~= spec_send_response(old(self)@, id));
                    Ok(())
                } else {
                    self.tasks.insert(id, state);
                    assert(self@ =~= old(self)@);
                    Err(TaskError::TaskInvalidated)
                }
            },
            None => {
                assert(self@ =~= old(self)@);
                Err(TaskError::TaskInvalidated)
            },
        }
    }

    /// Decides whether a chunk of body data may be sent to task `id`.
    pub fn send_data(&self, id: usize) -> (r: Result<(), TaskError>)
        ensures
            r == spec_send_data(self@, id),
    {
        match self.tasks.get(&id) {
            None => Err(TaskError::TaskInvalidated),
            Some(state) => {
                if !state.response_sent {
                    Err(TaskError::ResponseNotSent)
                } else if !state.is_valid {
                    Err(TaskError::TaskInvalidated)
                } else {
                    Ok(())
                }
            },
        }
    }

    /// Decides whether task `id` may be finished, and whether the platform
    /// task is still to be told.
    pub fn finish(&self, id: usize) -> (r: Result<Delivery, TaskError>)
        ensures
            r == spec_complete(self@, id),
    {
        self.complete(id)
    }

    /// Decides whether task `id` may be failed, and whether the platform
    /// task is still to be told.
    pub fn fail(&self, id: usize) -> (r: Result<Delivery, TaskError>)
        ensures
            r == spec_complete(self@, id),
    {
        self.complete(id)
    }

    fn complete(&self, id: usize) -> (r: Result<Delivery, TaskError>)
        ensures
            r == spec_complete(self@, id),
    {
        match self.tasks.get(&id) {
            None => Err(TaskError::TaskInvalidated),
            Some(state) => {
                if !state.response_sent {
                    Err(TaskError::ResponseNotSent)
                } else if !state.is_valid {
                    Ok(Delivery::Skip)
                } else {
                    Ok(Delivery::Deliver)
                }
            },
        }
    }
}

} // verus!
