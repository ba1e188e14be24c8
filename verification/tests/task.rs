use wry::{Delivery, TaskError, TaskRegistry};

#[test]
fn fresh_task_waits_for_response() {
    let mut r: TaskRegistry<&str> = TaskRegistry::new();
    r.register(7, "task");
    assert_eq!(r.send_data(7), Err(TaskError::ResponseNotSent));
    assert_eq!(r.finish(7), Err(TaskError::ResponseNotSent));
    assert_eq!(r.fail(7), Err(TaskError::ResponseNotSent));
    assert_eq!(r.send_response(7), Ok(()));
    assert_eq!(r.send_data(7), Ok(()));
    assert_eq!(r.finish(7), Ok(Delivery::Deliver));
    assert_eq!(r.fail(7), Ok(Delivery::Deliver));
    assert_eq!(r.task(7), Some(&"task"));
}

#[test]
fn unknown_task_is_invalidated() {
    let mut r: TaskRegistry<u8> = TaskRegistry::new();
    assert_eq!(r.send_response(1), Err(TaskError::TaskInvalidated));
    assert_eq!(r.send_data(1), Err(TaskError::TaskInvalidated));
    assert_eq!(r.finish(1), Err(TaskError::TaskInvalidated));
    assert_eq!(r.fail(1), Err(TaskError::TaskInvalidated));
    r.stop(1);
    assert_eq!(r.task(1), None);
}

#[test]
fn stopped_task_receives_nothing() {
    let mut r: TaskRegistry<u8> = TaskRegistry::new();
    r.register(3, 0);
    assert_eq!(r.send_response(3), Ok(()));
    r.stop(3);
    r.stop(3);
    assert_eq!(r.send_response(3), Err(TaskError::TaskInvalidated));
    assert_eq!(r.send_data(3), Err(TaskError::TaskInvalidated));
    assert_eq!(r.finish(3), Ok(Delivery::Skip));
    assert_eq!(r.fail(3), Ok(Delivery::Skip));
}

#[test]
fn stopped_before_response() {
    let mut r: TaskRegistry<u8> = TaskRegistry::new();
    r.register(3, 0);
    r.stop(3);
    assert_eq!(r.send_response(3), Err(TaskError::TaskInvalidated));
    assert_eq!(r.send_data(3), Err(TaskError::ResponseNotSent));
    assert_eq!(r.finish(3), Err(TaskError::ResponseNotSent));
}

#[test]
fn tasks_are_independent_and_reregistration_resets() {
    let mut r: TaskRegistry<u8> = TaskRegistry::new();
    r.register(1, 10);
    r.register(2, 20);
    assert_eq!(r.send_response(1), Ok(()));
    r.stop(2);
    assert_eq!(r.send_data(1), Ok(()));
    assert_eq!(r.send_response(2), Err(TaskError::TaskInvalidated));
    r.register(2, 21);
    assert_eq!(r.send_response(2), Ok(()));
    assert_eq!(r.task(2), Some(&21));
}

#[test]
fn task_error_messages() {
    assert_eq!(TaskError::TaskInvalidated.message(), "task was externally invalidated");
    assert_eq!(
        TaskError::ResponseNotSent.message(),
        "attempted to finish stream or send data before responding"
    );
    assert_eq!(TaskError::QueueSyncFailed.message(), "receiver dropped or queue blocked indefinitely");
}
