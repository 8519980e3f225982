//! Channel handlers and the notification dispatcher.
//!
//! A channel handler renders and delivers one notification for one newly
//! appeared entity — a webhook post, a cast on a social feed. The engine
//! models a handler by the sequence of entity identities it has delivered so
//! far; a concrete handler performs its side effect inside `handle_new` and
//! reports success or failure.
//!
//! The dispatcher invokes every enabled handler in list order for one entity
//! and captures each outcome independently: one handler's failure neither
//! stops the remaining handlers nor is retried within the cycle, and no
//! outcome is fatal to the cycle itself.

use vstd::prelude::*;
use vstd::string::StringExecFns;

verus! {

/// Why one channel's delivery failed. The failure is logged and isolated;
/// the notification is not retried on a later cycle, since the snapshot is
/// rewritten regardless.
pub struct HandlerError {
    pub message: String,
}

impl HandlerError {
    pub fn new(message: String) -> (e: HandlerError)
        ensures
            e.message == message,
    {
        HandlerError { message }
    }
}

/// One notification channel, modelled by two histories: the identities it
/// was asked to announce (`attempted`) and the identities it has announced
/// successfully (`delivered`), each in order.
pub trait ChannelHandler: Sized {
    spec fn attempted(&self) -> Seq<u64>;

    spec fn delivered(&self) -> Seq<u64>;

    /// Render and deliver a notification for one newly appeared entity.
    /// Every call appends the entity to the attempted sequence; success
    /// appends it to the delivered sequence too, failure leaves that one
    /// unchanged.
    fn handle_new(&mut self, entity: &crate::entity::Entity) -> (r: Result<(), HandlerError>)
        ensures
            final(self).attempted() == old(self).attempted().push(entity.id),
            r is Ok ==> final(self).delivered() == old(self).delivered().push(entity.id),
            r is Err ==> final(self).delivered() == old(self).delivered(),
    ;
}

/// An in-memory handler: it delivers into a log it keeps, or is configured
/// to fail every delivery, as a channel with an unreachable destination
/// would. The engine's tests drive the dispatcher and the cycle with these.
pub struct RecordingHandler {
    reachable: bool,
    attempts: Vec<u64>,
    log: Vec<u64>,
}

impl RecordingHandler {
    /// A handler whose deliveries all succeed.
    pub fn reliable() -> (h: RecordingHandler)
        ensures
            h.attempted() == Seq::<u64>::empty(),
            h.delivered() == Seq::<u64>::empty(),
            h.is_reachable(),
    {
        RecordingHandler { reachable: true, attempts: Vec::new(), log: Vec::new() }
    }

    /// A handler whose deliveries all fail.
    pub fn unreachable_channel() -> (h: RecordingHandler)
        ensures
            h.attempted() == Seq::<u64>::empty(),
            h.delivered() == Seq::<u64>::empty(),
            !h.is_reachable(),
    {
        RecordingHandler { reachable: false, attempts: Vec::new(), log: Vec::new() }
    }

    /// Whether deliveries through this handler succeed.
    pub closed spec fn is_reachable(&self) -> bool {
        self.reachable
    }

    /// The identities announced so far, oldest first.
    pub fn log(&self) -> (r: &Vec<u64>)
        ensures
            r@ == self.delivered(),
    {
        &self.log
    }

    /// The identities this handler was asked to announce, oldest first.
    pub fn attempts(&self) -> (r: &Vec<u64>)
        ensures
            r@ == self.attempted(),
    {
        &self.attempts
    }
}

impl ChannelHandler for RecordingHandler {
    closed spec fn attempted(&self) -> Seq<u64> {
        self.attempts@
    }

    closed spec fn delivered(&self) -> Seq<u64> {
        self.log@
    }

    fn handle_new(&mut self, entity: &crate::entity::Entity) -> (r: Result<(), HandlerError>)
        ensures
            r is Ok <==> old(self).is_reachable(),
            final(self).is_reachable() == old(self).is_reachable(),
    {
        self.attempts.push(entity.id);
        if self.reachable {
            self.log.push(entity.id);
            Ok(())
        } else {
            Err(HandlerError::new(String::from_str("channel unreachable")))
        }
    }
}

/// Invoke every handler, in list order, for one newly appeared entity, and
/// capture each outcome independently.
///
/// The outcome list has one entry per handler: entry `i` is `Ok` exactly
/// when handler `i` delivered the entity — then and only then its delivered
/// sequence grew by this entity — whatever the other handlers did. A failure
/// is isolated: it never prevents the remaining handlers from running and is
/// not retried.
pub fn dispatch<H: ChannelHandler>(
    entity: &crate::entity::Entity,
    handlers: &mut Vec<H>,
) -> (outcomes: Vec<Result<(), HandlerError>>)
    ensures
        outcomes.len() == old(handlers).len(),
        final(handlers).len() == old(handlers).len(),
        forall|i: int|
            0 <= i < outcomes.len() ==> (#[trigger] final(handlers)@[i]).attempted() == old(
                handlers,
            )@[i].attempted().push(entity.id),
        forall|i: int|
            0 <= i < outcomes.len() ==> if outcomes[i] is Ok {
                (#[trigger] final(handlers)@[i]).delivered() == old(handlers)@[i].delivered().push(
                    entity.id,
                )
            } else {
                final(handlers)@[i].delivered() == old(handlers)@[i].delivered()
            },
{
    let mut outcomes: Vec<Result<(), HandlerError>> = Vec::new();
    let n = handlers.len();
    let mut i: usize = 0;
    while i < n
        invariant
            i <= n,
            n == old(handlers).len(),
            handlers.len() == n,
            outcomes.len() == i,
            forall|j: int|
                0 <= j < i ==> (#[trigger] handlers@[j]).attempted() == old(
                    handlers,
                )@[j].attempted().push(entity.id),
            forall|j: int|
                0 <= j < i ==> if outcomes[j] is Ok {
                    (#[trigger] handlers@[j]).delivered() == old(handlers)@[j].delivered().push(
                        entity.id,
                    )
                } else {
                    handlers@[j].delivered() == old(handlers)@[j].delivered()
                },
            forall|j: int| i <= j < n ==> (#[trigger] handlers@[j]) == old(handlers)@[j],
        decreases n - i,
    {
        let r = handlers[i].handle_new(entity);
        outcomes.push(r);
        i = i + 1;
    }
    outcomes
}

} // verus!
