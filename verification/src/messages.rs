//! Type-erased messages and addresses.
//!
//! A handler's concrete type is known only to the application that installs
//! it; everything above it talks through two erased shapes: [`BoxMsg`], an
//! envelope carrying a rendered payload, and [`BoxAddr`], a duplicable
//! capability naming one handler's mailbox inside the registry.
use vstd::prelude::*;

verus! {

/// A unit of communication whose concrete payload type is known only to the
/// sender and the receiving handler; the envelope carries the rendered text.
pub struct BoxMsg(String);

/// Anything an application wants to send to a handler: it only has to say how
/// the payload renders.
pub trait TraitMsg {
    /// The rendered payload, as the specification sees it. The default
    /// leaves it unspecified; a verified message type overrides it.
    open spec fn text(&self) -> Seq<char> {
        vstd::pervasive::arbitrary()
    }

    /// Render the payload.
    fn moo(&self) -> (r: String)
        ensures
            r@ == self.text(),
    ;
}

impl BoxMsg {
    /// Erase a concrete message into an envelope.
    pub fn from_msg<M: TraitMsg>(msg: &M) -> (r: BoxMsg)
        ensures
            r@ == msg.text(),
    {
        BoxMsg(msg.moo())
    }

    /// The rendered payload carried by this envelope.
    pub fn payload(&self) -> (r: &str)
        ensures
            r@ == self@,
    {
        self.0.as_str()
    }
}

impl View for BoxMsg {
    type V = Seq<char>;

    closed spec fn view(&self) -> Seq<char> {
        self.0@
    }
}

/// A type-erased, duplicable capability to enqueue envelopes for one specific
/// handler: it names the handler's slot in the registry that created it.
/// Every clone addresses the same mailbox.
#[derive(Clone, Copy, PartialEq, Eq, Structural, Debug)]
pub struct BoxAddr(pub usize);

/// The addressing capability: enqueue an envelope for asynchronous,
/// order-preserving delivery to one specific handler. Implementations live
/// with the transport that owns the real mailboxes; nothing is promised of
/// them here.
pub trait TraitAddr: Sized {
    /// Enqueue one envelope for the handler this address names.
    fn send(&self, msg: BoxMsg);

    /// Duplicate the capability: many holders, one logical destination.
    fn clone_box(&self) -> Self;
}

} // verus!
