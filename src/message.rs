use crate::pattern::{pattern_contains, Pattern};
use vstd::prelude::*;

verus! {

/// A protocol message: one of five kinds, each on a namespace.
#[derive(Clone, Debug, Eq, Hash, PartialEq)]
pub enum Message {
    Provide(Pattern),
    Revoke(Pattern),
    Subscribe(Pattern),
    Unsubscribe(Pattern),
    Event(Pattern, String),
}

/// A message as the namespace and payload text it carries.
pub enum MessageView {
    Provide(Seq<char>),
    Revoke(Seq<char>),
    Subscribe(Seq<char>),
    Unsubscribe(Seq<char>),
    Event(Seq<char>, Seq<char>),
}

impl MessageView {
    /// The tag that stands for the kind on the wire.
    pub open spec fn tag(self) -> u8 {
        match self {
            MessageView::Provide(_) => 0,
            MessageView::Revoke(_) => 1,
            MessageView::Subscribe(_) => 2,
            MessageView::Unsubscribe(_) => 3,
            MessageView::Event(_, _) => 4,
        }
    }

    pub open spec fn namespace(self) -> Seq<char> {
        match self {
            MessageView::Provide(ns) => ns,
            MessageView::Revoke(ns) => ns,
            MessageView::Subscribe(ns) => ns,
            MessageView::Unsubscribe(ns) => ns,
            MessageView::Event(ns, _) => ns,
        }
    }

    /// The payload of an event; empty for the other kinds.
    pub open spec fn payload(self) -> Seq<char> {
        match self {
            MessageView::Event(_, data) => data,
            _ => Seq::empty(),
        }
    }
}

/// The message of kind `tag` on `namespace`; the payload counts for an event only.
pub open spec fn message_of_tag(tag: u8, namespace: Seq<char>, payload: Seq<char>) -> MessageView {
    if tag == 0 {
        MessageView::Provide(namespace)
    } else if tag == 1 {
        MessageView::Revoke(namespace)
    } else if tag == 2 {
        MessageView::Subscribe(namespace)
    } else if tag == 3 {
        MessageView::Unsubscribe(namespace)
    } else {
        MessageView::Event(namespace, payload)
    }
}

/// A tag names a kind of message exactly when it is at most 4.
pub open spec fn valid_tag(tag: u8) -> bool {
    tag <= 4
}

impl View for Message {
    type V = MessageView;

    open spec fn view(&self) -> MessageView {
        match self {
            Message::Provide(p) => MessageView::Provide(p@),
            Message::Revoke(p) => MessageView::Revoke(p@),
            Message::Subscribe(p) => MessageView::Subscribe(p@),
            Message::Unsubscribe(p) => MessageView::Unsubscribe(p@),
            Message::Event(p, data) => MessageView::Event(p@, data@),
        }
    }
}

impl Message {
    /// Whether `discriminant` is the tag of some kind of message.
    pub fn test_poor_mans_discriminant(discriminant: &u8) -> (r: bool)
        ensures
            r == valid_tag(*discriminant),
    {
        *discriminant <= 4
    }

    /// Builds the message of kind `discriminant`; an event takes `data` as its payload.
    pub fn from_poor_mans_discriminant(
        discriminant: u8,
        namespace: Pattern,
        data: Option<String>,
    ) -> (r: Self)
        requires
            valid_tag(discriminant),
            discriminant == 4 ==> data is Some,
        ensures
            r@ == message_of_tag(
                discriminant,
                namespace@,
                match data {
                    Some(d) => d@,
                    None => Seq::empty(),
                },
            ),
    {
        match discriminant {
            0 => Message::Provide(namespace),
            1 => Message::Revoke(namespace),
            2 => Message::Subscribe(namespace),
            3 => Message::Unsubscribe(namespace),
            _ => match data {
                Some(d) => Message::Event(namespace, d),
                None => Message::Event(namespace, String::new()),
            },
        }
    }

    /// The pattern of a provide message.
    pub fn unwrap_provide(self) -> (r: Pattern)
        requires
            self is Provide,
        ensures
            r@ == self@.namespace(),
    {
        match self {
            Message::Provide(pattern) => pattern,
            Message::Revoke(pattern) => pattern,
            Message::Subscribe(pattern) => pattern,
            Message::Unsubscribe(pattern) => pattern,
            Message::Event(pattern, _) => pattern,
        }
    }

    /// The pattern of a revoke message.
    pub fn unwrap_revoke(self) -> (r: Pattern)
        requires
            self is Revoke,
        ensures
            r@ == self@.namespace(),
    {
        match self {
            Message::Revoke(pattern) => pattern,
            Message::Provide(pattern) => pattern,
            Message::Subscribe(pattern) => pattern,
            Message::Unsubscribe(pattern) => pattern,
            Message::Event(pattern, _) => pattern,
        }
    }

    /// The pattern of a subscribe message.
    pub fn unwrap_subscribe(self) -> (r: Pattern)
        requires
            self is Subscribe,
        ensures
            r@ == self@.namespace(),
    {
        match self {
            Message::Subscribe(pattern) => pattern,
            Message::Provide(pattern) => pattern,
            Message::Revoke(pattern) => pattern,
            Message::Unsubscribe(pattern) => pattern,
            Message::Event(pattern, _) => pattern,
        }
    }

    /// The pattern of an unsubscribe message.
    pub fn unwrap_unsubscribe(self) -> (r: Pattern)
        requires
            self is Unsubscribe,
        ensures
            r@ == self@.namespace(),
    {
        match self {
            Message::Unsubscribe(pattern) => pattern,
            Message::Provide(pattern) => pattern,
            Message::Revoke(pattern) => pattern,
            Message::Subscribe(pattern) => pattern,
            Message::Event(pattern, _) => pattern,
        }
    }

    /// The namespace of any kind of message.
    pub fn namespace(&self) -> (r: &Pattern)
        ensures
            r@ == self@.namespace(),
    {
        match self {
            Message::Provide(p) => p,
            Message::Revoke(p) => p,
            Message::Subscribe(p) => p,
            Message::Unsubscribe(p) => p,
            Message::Event(p, _) => p,
        }
    }

    /// The tag of the message's kind.
    pub fn poor_mans_discriminant(&self) -> (r: u8)
        ensures
            r == self@.tag(),
            valid_tag(r),
    {
        match self {
            Message::Provide(_) => 0,
            Message::Revoke(_) => 1,
            Message::Subscribe(_) => 2,
            Message::Unsubscribe(_) => 3,
            Message::Event(_, _) => 4,
        }
    }

    /// Same kind, and this namespace contains the other's; an event's payload
    /// plays no part.
    pub fn contains(&self, other: &Message) -> (r: bool)
        ensures
            r == message_contains(self@, other@),
    {
        self.poor_mans_discriminant() == other.poor_mans_discriminant() && self.namespace().contains(
            other.namespace(),
        )
    }
}

/// Containment of messages: the same kind, and containment of the namespaces.
pub open spec fn message_contains(a: MessageView, b: MessageView) -> bool {
    a.tag() == b.tag() && pattern_contains(a.namespace(), b.namespace())
}

/// A tag read back from a message gives that message again, for its namespace
/// and payload.
pub proof fn lemma_tag_round_trip(m: MessageView)
    ensures
        valid_tag(m.tag()),
        message_of_tag(m.tag(), m.namespace(), m.payload()) == m,
{
}

/// Containment of two events depends on their namespaces alone, never on
/// their payloads.
pub proof fn lemma_contains_ignores_payload(
    ns1: Seq<char>,
    d1: Seq<char>,
    ns2: Seq<char>,
    d2: Seq<char>,
)
    ensures
        message_contains(MessageView::Event(ns1, d1), MessageView::Event(ns2, d2))
            == pattern_contains(ns1, ns2),
{
}

/// A message never contains one of another kind.
pub proof fn lemma_contains_same_kind(a: MessageView, b: MessageView)
    requires
        a.tag() != b.tag(),
    ensures
        !message_contains(a, b),
{
}

} // verus!
