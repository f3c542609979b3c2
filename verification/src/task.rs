//! The unit of work: one output cell, what a worker makes of it, and the
//! reply that carries the value back.

use crate::error::Error;
use crate::vector::{dot_defined, dot_product, is_dot, is_zero, lawful, Vector};
use core::ops::Add;
use core::ops::Mul;
use vstd::prelude::*;

verus! {

/// The sending end of a single-use channel (`oneshot::Sender`).
#[verifier::external_type_specification]
#[verifier::external_body]
#[verifier::reject_recursive_types(T)]
pub struct ExReplySender<T>(oneshot::Sender<T>);

/// The error of a send that found the receiving end gone (`oneshot::SendError`).
#[verifier::external_type_specification]
#[verifier::external_body]
#[verifier::reject_recursive_types(T)]
pub struct ExReplySendError<T>(oneshot::SendError<T>);

/// What a worker needs for one cell: its place in the result, and the row and
/// the column whose dot product belongs there.
pub struct MsgInput<T> {
    pub idx: usize,
    pub row: Vector<T>,
    pub col: Vector<T>,
}

impl<T> MsgInput<T> {
    /// The task for cell `idx`, over `row` and `col`.
    pub fn new(idx: usize, row: Vector<T>, col: Vector<T>) -> (input: Self)
        ensures
            input.idx == idx,
            input.row == row,
            input.col == col,
    {
        Self { idx, row, col }
    }
}

/// What a worker answers: the value, and the place it belongs to.
pub struct MsgOutput<T> {
    pub idx: usize,
    pub value: T,
}

/// A task on its way to a worker, with the channel on which the worker replies.
#[verifier::reject_recursive_types(T)]
pub struct Msg<T> {
    pub input: MsgInput<T>,
    pub output: oneshot::Sender<MsgOutput<T>>,
}

impl<T> Msg<T> {
    /// The task `input`, to be answered on `output`.
    pub fn new(input: MsgInput<T>, output: oneshot::Sender<MsgOutput<T>>) -> (msg: Self)
        ensures
            msg.input == input,
            msg.output == output,
    {
        Self { input, output }
    }
}

/// `T` admits every operation that `input` asks for.
pub open spec fn task_defined<T: Add<Output = T> + Mul<Output = T> + Default>(
    input: MsgInput<T>,
) -> bool {
    input.row@.len() == input.col@.len() ==> forall|z: T|
        is_zero(z) ==> dot_defined(z, input.row@, input.col@)
}

/// `out` answers `input`: same place, and the dot product of its operands.
pub open spec fn answers<T: Add<Output = T> + Mul<Output = T> + Default>(
    out: MsgOutput<T>,
    input: MsgInput<T>,
) -> bool {
    &&& out.idx == input.idx
    &&& is_dot(out.value, input.row@, input.col@)
}

/// The work on one task: the dot product of its operands, addressed to its
/// place. Operands of different lengths make no answer.
pub fn compute<T>(input: MsgInput<T>) -> (r: Result<MsgOutput<T>, Error>) where
    T: Add<Output = T> + Mul<Output = T> + Copy + Default,

    requires
        lawful::<T>(),
        task_defined(input),
    ensures
        r is Err <==> input.row@.len() != input.col@.len(),
        r matches Err(e) ==> e == Error::SizeMismatch,
        r matches Ok(out) ==> answers(out, input),
{
    let MsgInput { idx, row, col } = input;
    match dot_product(row, col) {
        Ok(value) => Ok(MsgOutput { idx, value }),
        Err(e) => Err(e),
    }
}

/// Hands `out` to `oneshot::Sender::send`, which consumes the sender and
/// reports whether the receiving end was still there. Nothing is claimed of
/// the outcome: it depends on what the receiving side has done.
#[verifier::external_body]
fn send_reply<T>(tx: oneshot::Sender<MsgOutput<T>>, out: MsgOutput<T>) -> (r: Result<
    (),
    oneshot::SendError<MsgOutput<T>>,
>) {
    tx.send(out)
}

/// Sends `out` on `tx`. A receiver that is gone is an error that a worker
/// survives.
pub fn reply<T>(tx: oneshot::Sender<MsgOutput<T>>, out: MsgOutput<T>) -> (r: Result<(), Error>)
    ensures
        r matches Err(e) ==> e == Error::SendFailure,
{
    delivery(send_reply(tx, out))
}

/// What a send has come to, in the library's own terms: a send that found
/// its receiver is a success, and one that did not is a send failure, whatever
/// the answer was that came back with it.
pub fn delivery<T>(sent: Result<(), oneshot::SendError<MsgOutput<T>>>) -> (r: Result<(), Error>)
    ensures
        r is Ok <==> sent is Ok,
        r matches Err(e) ==> e == Error::SendFailure,
{
    match sent {
        Ok(()) => Ok(()),
        Err(_) => Err(Error::SendFailure),
    }
}

/// One round of a worker: computes the task of `msg` and sends the answer on
/// its reply channel.
///
/// A task whose operands differ in length is dropped unanswered, and nothing
/// is sent. A reply that finds no receiver is lost. Either is reported, and
/// neither keeps the worker from its next task.
pub fn serve<T>(msg: Msg<T>) -> (r: Result<(), Error>) where
    T: Add<Output = T> + Mul<Output = T> + Copy + Default,

    requires
        lawful::<T>(),
        task_defined(msg.input),
    ensures
        msg.input.row@.len() != msg.input.col@.len() ==> r == Err::<(), Error>(
            Error::SizeMismatch,
        ),
        msg.input.row@.len() == msg.input.col@.len() ==> r is Ok || r == Err::<(), Error>(
            Error::SendFailure,
        ),
{
    let Msg { input, output } = msg;
    match compute(input) {
        Ok(out) => reply(output, out),
        Err(e) => Err(e),
    }
}

} // verus!
