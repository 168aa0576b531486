//! The decisions of a non-blocking raw socket that is driven by a readiness
//! reactor. The caller performs what an [`Action`] asks for (a poll of the
//! reactor, one system call, a suspension) and reports what came of it as an
//! [`Event`]; nothing here blocks or touches a descriptor.

use vstd::prelude::*;

verus! {

/// The port of a destination: raw sockets have no ports.
pub const DESTINATION_PORT: u16 = 0;

/// The readiness that an operation waits for.
#[derive(Clone, Copy, Debug, PartialEq, Eq, Structural)]
pub enum Interest {
    /// The socket has a datagram to read.
    Readable,
    /// The socket can take a datagram to send.
    Writable,
}

/// The two operations of the socket. At most one of each is under way at a
/// time.
#[derive(Clone, Copy, Debug, PartialEq, Eq, Structural)]
pub enum Direction {
    /// Sending a datagram to a destination.
    Send,
    /// Receiving a datagram and the address of its sender.
    Receive,
}

/// Where an operation stands.
#[derive(Clone, Copy, Debug, PartialEq, Eq, Structural)]
pub enum Phase {
    /// Not polled yet.
    Idle,
    /// Waiting for the reactor to report readiness.
    WaitingReadiness,
    /// Readiness was reported and the system call is being made.
    Attempting,
    /// The caller has its result.
    Complete,
}

/// One send or receive operation.
#[derive(Clone, Copy, Debug, PartialEq, Eq, Structural)]
pub struct Operation {
    /// Which operation it is.
    pub direction: Direction,
    /// Where it stands.
    pub phase: Phase,
}

/// What the caller reports. `T` is what the system call returns and `E` the
/// error of the operating system, neither of which is looked into.
#[derive(Debug, PartialEq, Eq)]
pub enum Event<T, E> {
    /// The task was polled: for the first time, or after a wake.
    Polled,
    /// The reactor reports no readiness yet.
    NotReady,
    /// The reactor reports readiness.
    Ready,
    /// The cached readiness was cleared.
    Cleared,
    /// The system call returned.
    Done(T),
    /// The system call could not go on without blocking.
    WouldBlock,
    /// The reactor or the system call failed with any other error.
    Failed(E),
}

/// What the caller is to do next.
#[derive(Debug, PartialEq, Eq)]
pub enum Action<T, E> {
    /// Ask the reactor whether the socket is ready, and report `Ready`,
    /// `NotReady` or `Failed`.
    PollReadiness(Interest),
    /// Make the system call once, and report `Done`, `WouldBlock` or
    /// `Failed`.
    Attempt,
    /// Clear the cached readiness, and report `Cleared` or `Failed`.
    ClearReadiness(Interest),
    /// Hand control back until the reactor wakes the task, then report
    /// `Polled`.
    Suspend,
    /// Resume the caller of the operation with this result.
    Finish(Result<T, E>),
}

impl Direction {
    /// The readiness that the operation waits for.
    pub open spec fn spec_interest(self) -> Interest {
        match self {
            Direction::Send => Interest::Writable,
            Direction::Receive => Interest::Readable,
        }
    }

    /// The readiness that the operation waits for.
    #[verifier::when_used_as_spec(spec_interest)]
    pub fn interest(self) -> (interest: Interest)
        ensures
            interest == self.spec_interest(),
    {
        match self {
            Direction::Send => Interest::Writable,
            Direction::Receive => Interest::Readable,
        }
    }
}

impl Operation {
    /// The operation in another phase.
    pub open spec fn in_phase(self, phase: Phase) -> Operation {
        Operation { direction: self.direction, phase }
    }

    /// The phase and the action that follow when `event` is reported, or
    /// `None` where the operation does not wait for `event`.
    pub open spec fn transition<T, E>(self, event: Event<T, E>) -> Option<
        (Operation, Action<T, E>),
    > {
        match (self.phase, event) {
            (Phase::Idle, Event::Polled) => Some(
                (
                    self.in_phase(Phase::WaitingReadiness),
                    Action::PollReadiness(self.direction.interest()),
                ),
            ),
            (Phase::WaitingReadiness, Event::Polled) => Some(
                (self, Action::PollReadiness(self.direction.interest())),
            ),
            (Phase::WaitingReadiness, Event::NotReady) => Some((self, Action::Suspend)),
            (Phase::WaitingReadiness, Event::Cleared) => Some((self, Action::Suspend)),
            (Phase::WaitingReadiness, Event::Ready) => Some(
                (self.in_phase(Phase::Attempting), Action::Attempt),
            ),
            (Phase::WaitingReadiness, Event::Failed(error)) => Some(
                (self.in_phase(Phase::Complete), Action::Finish(Err(error))),
            ),
            (Phase::Attempting, Event::Done(value)) => Some(
                (self.in_phase(Phase::Complete), Action::Finish(Ok(value))),
            ),
            (Phase::Attempting, Event::WouldBlock) => Some(
                (
                    self.in_phase(Phase::WaitingReadiness),
                    Action::ClearReadiness(self.direction.interest()),
                ),
            ),
            (Phase::Attempting, Event::Failed(error)) => Some(
                (self.in_phase(Phase::Complete), Action::Finish(Err(error))),
            ),
            _ => None,
        }
    }

    /// A send or receive operation that has not been polled.
    pub fn new(direction: Direction) -> (operation: Operation)
        ensures
            operation == (Operation { direction, phase: Phase::Idle }),
    {
        Operation { direction, phase: Phase::Idle }
    }

    /// Takes `event` and returns the operation in its next phase with what
    /// the caller is to do next, or `None` where the operation does not wait
    /// for `event`: it then stands as before.
    pub fn step<T, E>(self, event: Event<T, E>) -> (next: Option<(Operation, Action<T, E>)>)
        ensures
            next == self.transition(event),
    {
        let direction = self.direction;
        match self.phase {
            Phase::Idle => match event {
                Event::Polled => Some(
                    (
                        Operation { direction, phase: Phase::WaitingReadiness },
                        Action::PollReadiness(direction.interest()),
                    ),
                ),
                _ => None,
            },
            Phase::WaitingReadiness => match event {
                Event::Polled => Some((self, Action::PollReadiness(direction.interest()))),
                Event::NotReady => Some((self, Action::Suspend)),
                Event::Cleared => Some((self, Action::Suspend)),
                Event::Ready => Some(
                    (Operation { direction, phase: Phase::Attempting }, Action::Attempt),
                ),
                Event::Failed(error) => Some(
                    (Operation { direction, phase: Phase::Complete }, Action::Finish(Err(error))),
                ),
                _ => None,
            },
            Phase::Attempting => match event {
                Event::Done(value) => Some(
                    (Operation { direction, phase: Phase::Complete }, Action::Finish(Ok(value))),
                ),
                Event::WouldBlock => Some(
                    (
                        Operation { direction, phase: Phase::WaitingReadiness },
                        Action::ClearReadiness(direction.interest()),
                    ),
                ),
                Event::Failed(error) => Some(
                    (Operation { direction, phase: Phase::Complete }, Action::Finish(Err(error))),
                ),
                _ => None,
            },
            Phase::Complete => None,
        }
    }
}

/// An operation is finished only with what the system call returned or with
/// an error that the reactor or the system call gave, unchanged; a system
/// call that would have blocked never finishes it.
pub proof fn lemma_finish_hands_on_outcome<T, E>(
    operation: Operation,
    event: Event<T, E>,
    next: Operation,
    result: Result<T, E>,
)
    requires
        operation.transition(event) == Some((next, Action::Finish(result))),
    ensures
        next.phase == Phase::Complete,
        !(event is WouldBlock),
        match result {
            Ok(value) => operation.phase == Phase::Attempting && event == Event::<T, E>::Done(
                value,
            ),
            Err(error) => event == Event::<T, E>::Failed(error),
        },
{
}

/// The system call is made only when the reactor has just reported
/// readiness, and what it gives either finishes the operation or sends it
/// back to wait: no second call follows without a new report of readiness.
pub proof fn lemma_one_attempt_per_readiness<T, E>(
    operation: Operation,
    event: Event<T, E>,
    next: Operation,
    action: Action<T, E>,
)
    requires
        operation.transition(event) == Some((next, action)),
    ensures
        action is Attempt <==> next.phase == Phase::Attempting,
        action is Attempt ==> operation.phase == Phase::WaitingReadiness && event is Ready,
        operation.phase == Phase::Attempting ==> (action is Finish && next.phase
            == Phase::Complete) || (event is WouldBlock && next.phase == Phase::WaitingReadiness
            && action == Action::<T, E>::ClearReadiness(operation.direction.interest())),
{
}

/// A completed operation takes no further event, and no step changes the
/// direction of an operation.
pub proof fn lemma_complete_is_final<T, E>(operation: Operation, event: Event<T, E>)
    ensures
        operation.phase == Phase::Complete ==> operation.transition(event) is None,
        operation.transition(event) matches Some((next, _)) ==> next.direction
            == operation.direction,
{
}

/// An IPv4 address and a port.
#[derive(Clone, Copy, Debug, PartialEq, Eq)]
pub struct SocketAddressV4 {
    /// The four bytes of the address, first byte first.
    pub ip: [u8; 4],
    /// The port.
    pub port: u16,
}

/// The address that the operating system gives for a peer.
#[derive(Clone, Copy, Debug, PartialEq, Eq)]
pub enum SocketAddress {
    /// An IPv4 address.
    V4(SocketAddressV4),
    /// An IPv6 address: its sixteen bytes and its port.
    V6 { ip: [u8; 16], port: u16 },
    /// An address of any other family.
    Other,
}

/// Why an operation of the socket failed. `E` is the error of the operating
/// system, handed on as it came.
#[derive(Debug, PartialEq, Eq)]
pub enum SocketError<E> {
    /// The operating system failed the operation.
    Io(E),
    /// The peer address of a received datagram is not an IPv4 address.
    UnexpectedAddressFamily,
}

impl SocketAddress {
    /// The IPv4 address and port, if the address is one of IPv4.
    pub open spec fn spec_into_v4(self) -> Option<SocketAddressV4> {
        match self {
            SocketAddress::V4(address) => Some(address),
            _ => None,
        }
    }

    /// The IPv4 address and port, if the address is one of IPv4.
    #[verifier::when_used_as_spec(spec_into_v4)]
    pub fn into_v4(self) -> (address: Option<SocketAddressV4>)
        ensures
            address == self.spec_into_v4(),
    {
        match self {
            SocketAddress::V4(address) => Some(address),
            _ => None,
        }
    }
}

/// The address that a datagram for `target` is sent to.
pub fn destination(target: [u8; 4]) -> (address: SocketAddressV4)
    ensures
        address == (SocketAddressV4 { ip: target, port: DESTINATION_PORT }),
{
    SocketAddressV4 { ip: target, port: DESTINATION_PORT }
}

/// What the caller of a receive operation gets for `outcome`, the result
/// that the operation finished with: the number of bytes received and the
/// IPv4 address of the sender.
pub open spec fn received<E>(outcome: Result<(usize, SocketAddress), E>) -> Result<
    (usize, [u8; 4]),
    SocketError<E>,
> {
    match outcome {
        Ok((length, from)) => match from.into_v4() {
            Some(address) => Ok((length, address.ip)),
            None => Err(SocketError::UnexpectedAddressFamily),
        },
        Err(error) => Err(SocketError::Io(error)),
    }
}

/// Turns the result that a receive operation finished with into what its
/// caller gets: the sender as an IPv4 address, or a failure where the sender
/// has no such address.
pub fn finish_receive<E>(outcome: Result<(usize, SocketAddress), E>) -> (result: Result<
    (usize, [u8; 4]),
    SocketError<E>,
>)
    ensures
        result == received(outcome),
{
    match outcome {
        Ok((length, from)) => match from.into_v4() {
            Some(address) => Ok((length, address.ip)),
            None => Err(SocketError::UnexpectedAddressFamily),
        },
        Err(error) => Err(SocketError::Io(error)),
    }
}

} // verus!
