//! Wire-protocol value types: message addressing, the tagged request union and
//! the tagged response union, together with their mathematical views.
//!
//! These types carry only plain values (strings and byte blobs); encoding them
//! to bytes is a transport concern and happens outside the library.

use vstd::prelude::*;

verus! {

/// Identifier of one participant. Equality is exact byte-wise comparison.
pub type GamerIdType = String;

/// Identifier of one session. Equality is exact byte-wise comparison.
pub type SessionIdType = String;

/// Where a message is to be delivered: to every other joined participant,
/// or to exactly one participant.
#[derive(Debug, PartialEq, Eq)]
pub enum MessageAddress {
    All,
    One(GamerIdType),
}

/// Mathematical value of a [`MessageAddress`].
pub enum AddressView {
    All,
    One(Seq<char>),
}

impl View for MessageAddress {
    type V = AddressView;

    open spec fn view(&self) -> AddressView {
        match self {
            MessageAddress::All => AddressView::All,
            MessageAddress::One(id) => AddressView::One(id@),
        }
    }
}

impl DeepView for MessageAddress {
    type V = AddressView;

    open spec fn deep_view(&self) -> AddressView {
        self.view()
    }
}

impl Clone for MessageAddress {
    fn clone(&self) -> (r: Self)
        ensures
            r == *self,
    {
        match self {
            MessageAddress::All => MessageAddress::All,
            MessageAddress::One(id) => MessageAddress::One(id.clone()),
        }
    }
}

/// One addressed message: sender, destination, and an opaque payload that the
/// core never inspects.
#[derive(Debug, PartialEq, Eq)]
pub struct Message {
    pub from: GamerIdType,
    pub to: MessageAddress,
    pub payload: Vec<u8>,
}

/// Mathematical value of a [`Message`].
#[verifier::ext_equal]
pub struct MessageView {
    pub from: Seq<char>,
    pub to: AddressView,
    pub payload: Seq<u8>,
}

impl View for Message {
    type V = MessageView;

    open spec fn view(&self) -> MessageView {
        MessageView { from: self.from@, to: self.to@, payload: self.payload@ }
    }
}

impl DeepView for Message {
    type V = MessageView;

    open spec fn deep_view(&self) -> MessageView {
        self.view()
    }
}

/// Mathematical value of a sequence of messages.
pub open spec fn msgs_view(v: Seq<Message>) -> Seq<MessageView> {
    v.map_values(|m: Message| m@)
}

/// Mathematical value of a sequence of byte blobs.
pub open spec fn blobs_view(v: Seq<Vec<u8>>) -> Seq<Seq<u8>> {
    v.map_values(|b: Vec<u8>| b@)
}

/// Mathematical value of a per-gamer latest-update listing.
pub open spec fn updates_view(v: Seq<(GamerIdType, Option<Vec<u8>>)>) -> Seq<
    (Seq<char>, Option<Seq<u8>>),
> {
    v.map_values(
        |p: (GamerIdType, Option<Vec<u8>>)|
            (
                p.0@,
                match p.1 {
                    Some(b) => Some(b@),
                    None => None,
                },
            ),
    )
}

impl Clone for Message {
    fn clone(&self) -> (r: Self)
        ensures
            r@ == self@,
    {
        Message {
            from: self.from.clone(),
            to: self.to.clone(),
            payload: clone_bytes(&self.payload),
        }
    }
}

/// Copies a byte blob; the copy holds exactly the same bytes.
pub fn clone_bytes(v: &Vec<u8>) -> (r: Vec<u8>)
    ensures
        r@ == v@,
{
    let r = v.clone();
    proof {
        assert(r@ =~= v@);
    }
    r
}

/// One request against the registry, tagged by operation. Every variant names
/// the session it addresses; participant-specific variants name the gamer too.
#[derive(Debug, PartialEq, Eq)]
pub enum Operation {
    JoinSession(SessionIdType, GamerIdType),
    ResetSession(SessionIdType),
    StartSession(SessionIdType),
    EndSession(SessionIdType),
    IsGamerTurn(SessionIdType, GamerIdType),
    NextGamer(SessionIdType),
    IsGameOn(SessionIdType),
    SendUpdate(SessionIdType, GamerIdType, Vec<u8>),
    GetPreviousRoundUpdates(SessionIdType),
    SendMessage(SessionIdType, Message),
    FetchAllMessages(SessionIdType, GamerIdType),
}

/// Mathematical value of an [`Operation`].
pub enum OperationView {
    JoinSession(Seq<char>, Seq<char>),
    ResetSession(Seq<char>),
    StartSession(Seq<char>),
    EndSession(Seq<char>),
    IsGamerTurn(Seq<char>, Seq<char>),
    NextGamer(Seq<char>),
    IsGameOn(Seq<char>),
    SendUpdate(Seq<char>, Seq<char>, Seq<u8>),
    GetPreviousRoundUpdates(Seq<char>),
    SendMessage(Seq<char>, MessageView),
    FetchAllMessages(Seq<char>, Seq<char>),
}

impl View for Operation {
    type V = OperationView;

    open spec fn view(&self) -> OperationView {
        match self {
            Operation::JoinSession(s, g) => OperationView::JoinSession(s@, g@),
            Operation::ResetSession(s) => OperationView::ResetSession(s@),
            Operation::StartSession(s) => OperationView::StartSession(s@),
            Operation::EndSession(s) => OperationView::EndSession(s@),
            Operation::IsGamerTurn(s, g) => OperationView::IsGamerTurn(s@, g@),
            Operation::NextGamer(s) => OperationView::NextGamer(s@),
            Operation::IsGameOn(s) => OperationView::IsGameOn(s@),
            Operation::SendUpdate(s, g, u) => OperationView::SendUpdate(s@, g@, u@),
            Operation::GetPreviousRoundUpdates(s) => OperationView::GetPreviousRoundUpdates(s@),
            Operation::SendMessage(s, m) => OperationView::SendMessage(s@, m@),
            Operation::FetchAllMessages(s, g) => OperationView::FetchAllMessages(s@, g@),
        }
    }
}

/// One answer from the registry, tagged by outcome. `Error` covers an unknown
/// session, an unknown gamer, and a request for a state transition the
/// addressed session does not allow.
#[derive(Debug, PartialEq, Eq)]
pub enum Response {
    Okay,
    Error,
    OkWithBool(bool),
    OkWithPreviousRoundUpdates(Vec<(GamerIdType, Option<Vec<u8>>)>),
    OkWithMessages(Vec<Message>),
}

/// Mathematical value of a [`Response`].
#[verifier::ext_equal]
pub enum ResponseView {
    Okay,
    Error,
    OkWithBool(bool),
    OkWithPreviousRoundUpdates(Seq<(Seq<char>, Option<Seq<u8>>)>),
    OkWithMessages(Seq<MessageView>),
}

impl View for Response {
    type V = ResponseView;

    open spec fn view(&self) -> ResponseView {
        match self {
            Response::Okay => ResponseView::Okay,
            Response::Error => ResponseView::Error,
            Response::OkWithBool(b) => ResponseView::OkWithBool(*b),
            Response::OkWithPreviousRoundUpdates(u) => ResponseView::OkWithPreviousRoundUpdates(
                updates_view(u@),
            ),
            Response::OkWithMessages(m) => ResponseView::OkWithMessages(msgs_view(m@)),
        }
    }
}

} // verus!
