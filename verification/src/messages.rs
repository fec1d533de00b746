use vstd::prelude::*;

verus! {

/// A protocol message exchanged between a client and the broker.
///
/// `Ping` and `Pong` are liveness probes; the broker accepts but ignores
/// them. `Consume` and `Publish` travel client-to-server; `Deliver` is the
/// server-to-client push of a previously published payload.
pub enum Message {
    Ping,
    Pong,
    Consume { topic: String },
    Publish { topic: String, message: String },
    Deliver { topic: String, message: String },
}

/// The mathematical value of a `Message`: the same tagged union with each
/// string read as its character sequence.
pub enum MessageView {
    Ping,
    Pong,
    Consume { topic: Seq<char> },
    Publish { topic: Seq<char>, message: Seq<char> },
    Deliver { topic: Seq<char>, message: Seq<char> },
}

impl View for Message {
    type V = MessageView;

    open spec fn view(&self) -> MessageView {
        match self {
            Message::Ping => MessageView::Ping,
            Message::Pong => MessageView::Pong,
            Message::Consume { topic } => MessageView::Consume { topic: topic@ },
            Message::Publish { topic, message } => MessageView::Publish {
                topic: topic@,
                message: message@,
            },
            Message::Deliver { topic, message } => MessageView::Deliver {
                topic: topic@,
                message: message@,
            },
        }
    }
}

} // verus!
