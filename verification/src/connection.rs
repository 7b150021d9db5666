//! What is said on a connection: the messages of a client, and the replies that are sent back.
use vstd::prelude::*;

use crate::debug_engine::EngineView;
use crate::json::{self, JsonView};
use crate::server;
use crate::system::Reply;

verus! {

/// A message of a client.
#[derive(Debug, Clone, PartialEq, Eq)]
pub enum Incoming {
    /// A text.
    Text(String),
    /// Anything else: bytes, a ping, a farewell.
    Other,
}

impl View for Incoming {
    type V = Option<Seq<char>>;

    open spec fn view(&self) -> Option<Seq<char>> {
        match self {
            Incoming::Text(text) => Some(text@),
            Incoming::Other => None,
        }
    }
}

/// What is sent back, given the reply to each message, where it has one.
pub open spec fn sent(replies: Seq<Option<JsonView>>) -> Seq<JsonView>
    decreases replies.len(),
{
    if replies.len() == 0 {
        Seq::empty()
    } else {
        let earlier = sent(replies.drop_last());
        match replies.last() {
            Some(reply) => earlier.push(reply),
            None => earlier,
        }
    }
}

/// How many of the messages are texts.
pub open spec fn text_count(messages: Seq<Option<Seq<char>>>) -> nat
    decreases messages.len(),
{
    if messages.len() == 0 {
        0
    } else {
        text_count(messages.drop_last()) + if messages.last() is Some {
            1nat
        } else {
            0nat
        }
    }
}

/// A message to the server with an engine: the engine as the message finds it and, where the
/// message asks for memory, what became of the read.
pub struct Exchange {
    pub message: Option<Seq<char>>,
    pub engine: EngineView,
    pub read: Reply,
}

impl Exchange {
    /// Whether the message can be answered, where it is a text: it is JSON, the memory that it
    /// asks for has a size that can be had, and the read was answered.
    pub open spec fn possible(self) -> bool {
        self.message matches Some(text) ==> match json::parsed(text) {
            Some(request) => server::answerable(request) && (server::plan(request) is Read
                ==> self.read is Bytes || self.read is Failed),
            None => false,
        }
    }

    /// The reply to the message, where it is a text.
    pub open spec fn reply(self) -> Option<JsonView> {
        match self.message {
            Some(text) => Some(
                server::reply_to(json::parsed(text)->0, self.engine, self.read),
            ),
            None => None,
        }
    }
}

/// The messages of a series of exchanges.
pub open spec fn messages_of(exchanges: Seq<Exchange>) -> Seq<Option<Seq<char>>> {
    exchanges.map_values(|exchange: Exchange| exchange.message)
}

/// The replies to a series of messages, where they have one.
pub open spec fn replies_of(exchanges: Seq<Exchange>) -> Seq<Option<JsonView>> {
    exchanges.map_values(|exchange: Exchange| exchange.reply())
}

/// The replies of the server without an engine to a series of messages, where they have one.
pub open spec fn line_replies_of(messages: Seq<Option<Seq<char>>>) -> Seq<Option<JsonView>> {
    messages.map_values(
        |message: Option<Seq<char>>|
            match message {
                Some(text) => Some(crate::line_server::answer_tree(json::parsed(text)->0)),
                None => None,
            },
    )
}

/// Where texts have replies and nothing else has one, the replies are sent in the order of the
/// texts.
proof fn lemma_sent_in_order(
    messages: Seq<Option<Seq<char>>>,
    replies: Seq<Option<JsonView>>,
)
    requires
        messages.len() == replies.len(),
        forall|i: int|
            0 <= i < messages.len() ==> (#[trigger] messages[i] is Some <==> replies[i] is Some),
    ensures
        sent(replies).len() == text_count(messages),
        forall|i: int|
            0 <= i < messages.len() && #[trigger] messages[i] is Some ==> {
                let place = text_count(messages.take(i));
                place < sent(replies).len() && sent(replies)[place as int] == replies[i]->0
            },
    decreases messages.len(),
{
    if messages.len() > 0 {
        let last = messages.len() - 1;
        let earlier = messages.drop_last();
        let answered = replies.drop_last();
        assert forall|i: int| 0 <= i < earlier.len() implies (#[trigger] earlier[i] is Some
            <==> answered[i] is Some) by {
            assert(messages[i] is Some <==> replies[i] is Some);
        }
        lemma_sent_in_order(earlier, answered);
        assert(messages[last] is Some <==> replies[last] is Some);
        assert forall|i: int| 0 <= i < messages.len() && #[trigger] messages[i] is Some implies {
            let place = text_count(messages.take(i));
            place < sent(replies).len() && sent(replies)[place as int] == replies[i]->0
        } by {
            if i < last {
                assert(earlier[i] is Some);
                assert(earlier.take(i) =~= messages.take(i));
            } else {
                assert(messages.take(i) =~= earlier);
            }
        }
    }
}

/// Every text gets one reply, in the order in which the texts came, and nothing else gets any:
/// the reply to a text stands behind as many replies as there were texts before it, and is the
/// answer to its request or the account of what is wrong with it.
pub proof fn law_every_text_gets_its_reply(exchanges: Seq<Exchange>)
    requires
        forall|i: int| 0 <= i < exchanges.len() ==> (#[trigger] exchanges[i]).possible(),
    ensures
        ({
            let messages = messages_of(exchanges);
            let replies = sent(replies_of(exchanges));
            &&& replies.len() == text_count(messages)
            &&& forall|i: int|
                0 <= i < exchanges.len() && (#[trigger] exchanges[i]).message is Some ==> {
                    let place = text_count(messages.take(i));
                    let request = json::parsed(exchanges[i].message->0);
                    &&& request is Some
                    &&& place < replies.len()
                    &&& replies[place as int] == server::reply_to(
                        request->0,
                        exchanges[i].engine,
                        exchanges[i].read,
                    )
                }
        }),
{
    let messages = messages_of(exchanges);
    lemma_sent_in_order(messages, replies_of(exchanges));
    assert forall|i: int| 0 <= i < exchanges.len() && (
    #[trigger] exchanges[i]).message is Some implies {
        let place = text_count(messages.take(i));
        let request = json::parsed(exchanges[i].message->0);
        &&& request is Some
        &&& place < sent(replies_of(exchanges)).len()
        &&& sent(replies_of(exchanges))[place as int] == server::reply_to(
            request->0,
            exchanges[i].engine,
            exchanges[i].read,
        )
    } by {
        assert(messages[i] is Some);
        assert(exchanges[i].possible());
    }
}

/// The same holds of the server without an engine.
pub proof fn law_every_text_gets_its_line_reply(messages: Seq<Option<Seq<char>>>)
    requires
        forall|i: int|
            0 <= i < messages.len() && #[trigger] messages[i] is Some ==> json::parsed(
                messages[i]->0,
            ) is Some,
    ensures
        ({
            let replies = sent(line_replies_of(messages));
            &&& replies.len() == text_count(messages)
            &&& forall|i: int|
                0 <= i < messages.len() && #[trigger] messages[i] is Some ==> {
                    let place = text_count(messages.take(i));
                    &&& place < replies.len()
                    &&& replies[place as int] == crate::line_server::answer_tree(
                        json::parsed(messages[i]->0)->0,
                    )
                }
        }),
{
    lemma_sent_in_order(messages, line_replies_of(messages));
}

} // verus!
