//! Jobs run in their own task, and what is done when a job ends.
use vstd::prelude::*;
use crate::text::{split_char, split_on};

verus! {

/// Actions to take after a job finishes.
///
/// * IgnoreFailures - do nothing (the error, if any, is logged line by line).
/// * NotifyOnFailure - call a function with the error.
/// * NotifyOnExit - call a function with the error or None.
/// * ShutdownOnFailure - call cleanup actions and then exit.
pub enum FailurePolicy<N, E> {
    IgnoreFailures,
    NotifyOnFailure(N),
    NotifyOnExit(E),
    ShutdownOnFailure,
}

/// A function to execute within a task (it returns a message on errors) and
/// what to do when it finishes.
pub struct Job<A, N, E> {
    pub action: A,
    pub policy: FailurePolicy<N, E>,
}

/// What is to be done once a job's action has returned.
pub enum Outcome {
    /// Nothing.
    Nothing,
    /// Log each of these lines.
    Log(Vec<String>),
    /// Call the policy's notify function with this error.
    Notify(String),
    /// Call the policy's notify function with this result.
    NotifyExit(Option<String>),
    /// Log this error, run the cleanup actions, and exit with status 3.
    Shutdown(String),
}

/// The status with which the process exits after a job fails under
/// `ShutdownOnFailure`.
pub const SHUTDOWN_STATUS: i32 = 3;

/// What is to be done after a job ran under `policy` and its action returned
/// `err`.
pub fn outcome_of<N, E>(policy: &FailurePolicy<N, E>, err: Option<String>) -> (r: Outcome)
    ensures
        match policy {
            FailurePolicy::IgnoreFailures => match err {
                Some(e) => r matches Outcome::Log(lines) && lines@.len() == split_on(e@, '\n').len()
                    && forall|i: int| 0 <= i < lines@.len() ==> #[trigger] lines@[i]@ == split_on(e@, '\n')[i],
                None => r is Nothing,
            },
            FailurePolicy::NotifyOnFailure(_) => match err {
                Some(e) => r matches Outcome::Notify(m) && m@ == e@,
                None => r is Nothing,
            },
            FailurePolicy::NotifyOnExit(_) => match err {
                Some(e) => r matches Outcome::NotifyExit(Some(m)) && m@ == e@,
                None => r matches Outcome::NotifyExit(None),
            },
            FailurePolicy::ShutdownOnFailure => match err {
                Some(e) => r matches Outcome::Shutdown(m) && m@ == e@,
                None => r is Nothing,
            },
        },
{
    match policy {
        FailurePolicy::IgnoreFailures => match err {
            Some(e) => Outcome::Log(split_char(e.as_str(), '\n')),
            None => Outcome::Nothing,
        },
        FailurePolicy::NotifyOnFailure(_) => match err {
            Some(e) => Outcome::Notify(e),
            None => Outcome::Nothing,
        },
        FailurePolicy::NotifyOnExit(_) => Outcome::NotifyExit(err),
        FailurePolicy::ShutdownOnFailure => match err {
            Some(e) => Outcome::Shutdown(e),
            None => Outcome::Nothing,
        },
    }
}

} // verus!
