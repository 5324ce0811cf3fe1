use crate::errors::OpaiError;
use crate::service_config::{ServiceConfig, ServiceConfigView};
use crate::types::{
    choice_views, message_views, ChatConfig, ChatConfigView, Message, MessageView, RequestBody,
    RequestBodyView, ResponseBody, ResponseChoice, Role, Usage, UsageView,
};
use vstd::prelude::*;
use vstd::string::*;

verus! {

/// Whether a status tells that the endpoint accepted the request.
pub open spec fn success_status(status: u16) -> bool {
    200 <= status <= 299
}

/// `reqwest::StatusCode::is_success`, on the status made of a number by
/// `reqwest::StatusCode::from_u16`: whether the number is within 200 to 299.
/// A number that is no status is none of success.
#[verifier::external_body]
fn status_is_success(status: u16) -> (yes: bool)
    ensures
        yes == success_status(status),
{
    match reqwest::StatusCode::from_u16(status) {
        Ok(code) => code.is_success(),
        Err(_) => false,
    }
}

/// Whether a status tells that the endpoint accepted the request, so that
/// its answer is worth reading.
pub fn is_success(status: u16) -> (yes: bool)
    ensures
        yes == success_status(status),
{
    status_is_success(status)
}

/// What came back from one exchange with the endpoint.
#[derive(Debug, PartialEq, Eq)]
pub enum Reply {
    /// No answer came: the text says why.
    Failed(String),
    /// The endpoint answered with a status. The body is what its answer
    /// held, or the reason why it could not be read; it counts only under a
    /// status of success.
    Answered(u16, Result<ResponseBody, String>),
}

impl Reply {
    /// Whether the reply carries an answer that the endpoint gave under a
    /// status of success.
    pub open spec fn accepted(self) -> bool {
        self matches Reply::Answered(status, Ok(_)) && success_status(status)
    }

    /// The messages that the reply adds to the conversation.
    pub open spec fn delivered(self) -> Seq<MessageView> {
        match self {
            Reply::Answered(status, Ok(body)) => if success_status(status) {
                choice_views(body.choices@)
            } else {
                Seq::empty()
            },
            _ => Seq::empty(),
        }
    }

    /// The token counts that the reply adds to the totals.
    pub open spec fn reported(self) -> UsageView {
        match self {
            Reply::Answered(status, Ok(body)) => if success_status(status) {
                body.usage@
            } else {
                UsageView::zero()
            },
            _ => UsageView::zero(),
        }
    }

    /// What the turn hands to its caller: the choices of an accepted answer,
    /// the status of a rejected one, or the failure of the exchange.
    pub open spec fn outcome(self) -> Result<Vec<ResponseChoice>, OpaiError> {
        match self {
            Reply::Failed(detail) => Err(OpaiError::Network(detail)),
            Reply::Answered(status, body) => if !success_status(status) {
                Err(OpaiError::Http(status))
            } else {
                match body {
                    Ok(body) => Ok(body.choices),
                    Err(detail) => Err(OpaiError::Network(detail)),
                }
            },
        }
    }
}

/// A request that is ready to be sent.
#[derive(Clone, Debug, PartialEq, Eq)]
pub struct Outbound {
    /// Where the request is posted to.
    pub url: String,
    /// The value of the `Authorization` header.
    pub authorization: String,
    pub body: RequestBody,
}

/// An `Outbound` as plain values.
pub struct OutboundView {
    pub url: Seq<char>,
    pub authorization: Seq<char>,
    pub body: RequestBodyView,
}

impl View for Outbound {
    type V = OutboundView;

    open spec fn view(&self) -> OutboundView {
        OutboundView { url: self.url@, authorization: self.authorization@, body: self.body@ }
    }
}

/// A conversation: the transcript so far, the token counts so far, and what
/// is needed to ask the endpoint for the next answer.
#[derive(Clone, Debug)]
pub struct Chat {
    service_config: ServiceConfig,
    /// The system's prompt, with which the transcript begins.
    system: String,
    /// The transcript after the system's prompt.
    message_history: Vec<Message>,
    total_usage: Usage,
    config: ChatConfig,
}

/// A `Chat` as plain values.
pub struct ChatView {
    pub service: ServiceConfigView,
    pub history: Seq<MessageView>,
    pub usage: UsageView,
    pub config: ChatConfigView,
}

impl ChatView {
    /// Whether the transcript begins with a message of the system.
    pub open spec fn starts_with_system(self) -> bool {
        self.history.len() >= 1 && self.history[0].role == Role::System
    }

    /// The conversation after the user's line was taken up.
    pub open spec fn submitted(self, line: Seq<char>) -> ChatView {
        ChatView {
            history: self.history.push(MessageView { role: Role::User, content: line }),
            ..self
        }
    }

    /// The request that asks for the next answer: it carries the whole
    /// transcript.
    pub open spec fn request(self) -> OutboundView {
        OutboundView {
            url: self.service.chat_url,
            authorization: "Bearer "@ + self.service.api_key,
            body: RequestBodyView {
                model: self.config.model,
                messages: self.history,
                settings: self.config.settings(),
            },
        }
    }

    /// The conversation after a reply was taken in.
    pub open spec fn received(self, reply: Reply) -> ChatView {
        ChatView {
            history: self.history + reply.delivered(),
            usage: self.usage.plus(reply.reported()),
            ..self
        }
    }
}

impl View for Chat {
    type V = ChatView;

    closed spec fn view(&self) -> ChatView {
        ChatView {
            service: self.service_config@,
            history: seq![MessageView { role: Role::System, content: self.system@ }]
                + message_views(self.message_history@),
            usage: self.total_usage@,
            config: self.config@,
        }
    }
}

impl Chat {
    /// A conversation that holds the system's prompt and nothing else.
    pub fn new(service_config: ServiceConfig, system: &str, config: ChatConfig) -> (chat: Chat)
        ensures
            chat@ == (ChatView {
                service: service_config@,
                history: seq![MessageView { role: Role::System, content: system@ }],
                usage: UsageView::zero(),
                config: config@,
            }),
    {
        let chat = Chat {
            service_config,
            system: system.to_owned(),
            message_history: Vec::new(),
            total_usage: Usage::default(),
            config,
        };
        assert(chat@.history =~= seq![MessageView { role: Role::System, content: system@ }]);
        chat
    }

    /// The transcript, from the system's prompt on.
    pub fn history(&self) -> (messages: Vec<Message>)
        ensures
            message_views(messages@) == self@.history,
    {
        let mut messages: Vec<Message> = Vec::new();
        messages.push(Message { role: Role::System, content: self.system.clone() });
        let mut i: usize = 0;
        assert(message_views(messages@) =~= self@.history.take(1));
        while i < self.message_history.len()
            invariant
                i <= self.message_history.len(),
                message_views(messages@) == self@.history.take(i + 1),
            decreases self.message_history.len() - i,
        {
            let message = &self.message_history[i];
            let ghost before = message_views(messages@);
            assert(self@.history.len() == self.message_history.len() + 1);
            assert(self@.history[i + 1] == message@);
            let copy = Message { role: message.role, content: message.content.clone() };
            assert(copy@ == message@);
            messages.push(copy);
            assert(message_views(messages@) =~= before.push(message@));
            i += 1;
            assert(before.push(message@) =~= self@.history.take(i + 1));
        }
        assert(self@.history.take(i + 1) =~= self@.history);
        messages
    }

    /// The token counts of all the answers taken in so far.
    pub fn usage(&self) -> (usage: Usage)
        ensures
            usage@ == self@.usage,
    {
        self.total_usage
    }

    /// The generation parameters of the conversation.
    pub fn config(&self) -> (config: &ChatConfig)
        ensures
            config@ == self@.config,
    {
        &self.config
    }

    /// The credential and the endpoint of the conversation.
    pub fn service_config(&self) -> (service: &ServiceConfig)
        ensures
            service@ == self@.service,
    {
        &self.service_config
    }

    fn add_message(&mut self, role: Role, message: &str)
        ensures
            final(self)@ == (ChatView {
                history: old(self)@.history.push(MessageView { role, content: message@ }),
                ..old(self)@
            }),
    {
        let m = Message { role, content: message.to_owned() };
        self.message_history.push(m);
        assert(final(self)@.history =~= old(self)@.history.push(m@));
    }

    /// Opens a turn: takes the user's line into the transcript, and hands
    /// out the request that asks the endpoint for the next answer. The line
    /// stands in the transcript before anything is sent, whatever becomes of
    /// the request; the host sends the request and hands what came back to
    /// `receive`.
    pub fn chat_with_gpt(&mut self, line: &str) -> (request: Outbound)
        ensures
            final(self)@ == old(self)@.submitted(line@),
            request@ == final(self)@.request(),
    {
        self.add_message(Role::User, line);
        let mut authorization = "Bearer ".to_owned();
        authorization.append(self.service_config.api_key.as_str());
        Outbound {
            url: self.service_config.chat_url.clone(),
            authorization,
            body: RequestBody::carrying(&self.config, self.history()),
        }
    }

    /// Whether the token counts of a reply can be added to the totals
    /// without leaving 64 bits.
    pub fn can_receive(&self, reply: &Reply) -> (yes: bool)
        ensures
            yes == self@.usage.plus(reply.reported()).fits(),
    {
        match reply {
            Reply::Answered(status, Ok(body)) => !is_success(*status) || self.total_usage.can_accumulate(
                &body.usage,
            ),
            _ => true,
        }
    }

    /// Closes a turn with what came back from the endpoint. An answer under
    /// a status of success adds its choices to the transcript, in their
    /// order and each under its own role, adds its token counts to the
    /// totals, and is handed out. Anything else changes nothing and is
    /// handed out as the error that it is.
    pub fn receive(&mut self, reply: Reply) -> (outcome: Result<Vec<ResponseChoice>, OpaiError>)
        requires
            old(self)@.usage.plus(reply.reported()).fits(),
        ensures
            final(self)@ == old(self)@.received(reply),
            outcome == reply.outcome(),
    {
        match reply {
            Reply::Failed(detail) => {
                assert(self@.history + Seq::<MessageView>::empty() =~= self@.history);
                Err(OpaiError::Network(detail))
            },
            Reply::Answered(status, body) => {
                if !is_success(status) {
                    assert(self@.history + Seq::<MessageView>::empty() =~= self@.history);
                    Err(OpaiError::Http(status))
                } else {
                    match body {
                        Ok(body) => {
                            let ghost delivered = choice_views(body.choices@);
                            let mut i: usize = 0;
                            assert(old(self)@.history + delivered.take(0) =~= old(self)@.history);
                            while i < body.choices.len()
                                invariant
                                    i <= body.choices.len(),
                                    delivered == choice_views(body.choices@),
                                    self@ == (ChatView {
                                        history: old(self)@.history + delivered.take(i as int),
                                        ..old(self)@
                                    }),
                                decreases body.choices.len() - i,
                            {
                                let choice = &body.choices[i];
                                let ghost before = self@.history;
                                self.add_message(choice.message.role, choice.message.content.as_str());
                                i += 1;
                                assert(before.push(choice.message@) =~= old(self)@.history
                                    + delivered.take(i as int));
                            }
                            assert(delivered.take(i as int) =~= delivered);
                            self.total_usage.accumulate(&body.usage);
                            Ok(body.choices)
                        },
                        Err(detail) => {
                            assert(self@.history + Seq::<MessageView>::empty() =~= self@.history);
                            Err(OpaiError::Network(detail))
                        },
                    }
                }
            },
        }
    }
}

/// The transcript of a conversation is never empty, and it begins with a
/// message of the system.
pub proof fn lemma_history_starts_with_system(chat: Chat)
    ensures
        chat@.starts_with_system(),
{
}

/// One turn of a conversation: the user's line, and what came back from the
/// endpoint.
pub struct Turn {
    pub line: Seq<char>,
    pub reply: Reply,
}

impl ChatView {
    /// The conversation after one whole turn.
    pub open spec fn turn(self, turn: Turn) -> ChatView {
        self.submitted(turn.line).received(turn.reply)
    }

    /// The conversation after a run of turns.
    pub open spec fn after(self, turns: Seq<Turn>) -> ChatView
        decreases turns.len(),
    {
        if turns.len() == 0 {
            self
        } else {
            self.after(turns.drop_last()).turn(turns.last())
        }
    }
}

/// The number of messages that a run of turns adds to the transcript: for
/// each turn the user's line and the choices that came back.
pub open spec fn messages_added(turns: Seq<Turn>) -> nat
    decreases turns.len(),
{
    if turns.len() == 0 {
        0
    } else {
        messages_added(turns.drop_last()) + 1 + turns.last().reply.delivered().len()
    }
}

/// The token counts that a run of turns reports, summed count by count.
pub open spec fn usage_reported(turns: Seq<Turn>) -> UsageView
    decreases turns.len(),
{
    if turns.len() == 0 {
        UsageView::zero()
    } else {
        usage_reported(turns.drop_last()).plus(turns.last().reply.reported())
    }
}

/// A turn whose reply is no accepted answer adds the user's line to the
/// transcript and nothing else, and leaves the token counts as they were.
pub proof fn lemma_failed_turn(chat: ChatView, turn: Turn)
    requires
        !turn.reply.accepted(),
    ensures
        chat.turn(turn).history == chat.history.push(
            MessageView { role: Role::User, content: turn.line },
        ),
        chat.turn(turn).history.len() == chat.history.len() + 1,
        chat.turn(turn).usage == chat.usage,
        turn.reply.outcome() is Err,
{
    assert(turn.reply.delivered() =~= Seq::<MessageView>::empty());
    assert(chat.turn(turn).history =~= chat.history.push(
        MessageView { role: Role::User, content: turn.line },
    ));
}

/// A turn whose reply is an accepted answer adds the user's line and then
/// the choices of the answer, in their order, and adds the answer's token
/// counts to the totals.
pub proof fn lemma_successful_turn(chat: ChatView, turn: Turn)
    requires
        turn.reply.accepted(),
    ensures
        chat.turn(turn).history == chat.history.push(
            MessageView { role: Role::User, content: turn.line },
        ) + turn.reply.delivered(),
        chat.turn(turn).history.len() == chat.history.len() + 1 + turn.reply.delivered().len(),
        chat.turn(turn).usage == chat.usage.plus(turn.reply.reported()),
        turn.reply.outcome() matches Ok(choices) && choice_views(choices@) == turn.reply.delivered(),
{
}

/// After a run of turns the transcript holds what it held before, and after
/// that one message for each turn and one for each choice that came back.
/// Nothing that stood in it is changed or taken away.
pub proof fn lemma_history_after_turns(chat: ChatView, turns: Seq<Turn>)
    ensures
        chat.after(turns).history.len() == chat.history.len() + messages_added(turns),
        chat.after(turns).history.take(chat.history.len() as int) == chat.history,
        chat.after(turns).service == chat.service,
        chat.after(turns).config == chat.config,
    decreases turns.len(),
{
    if turns.len() > 0 {
        lemma_history_after_turns(chat, turns.drop_last());
        let before = chat.after(turns.drop_last());
        assert(chat.after(turns).history.take(chat.history.len() as int) =~= before.history.take(
            chat.history.len() as int,
        ));
    } else {
        assert(chat.history.take(chat.history.len() as int) =~= chat.history);
    }
}

/// After a run of turns in which each reply is an accepted answer with one
/// choice, the transcript has grown by two messages for each turn.
pub proof fn lemma_history_after_single_choices(chat: ChatView, turns: Seq<Turn>)
    requires
        forall|i: int|
            0 <= i < turns.len() ==> (#[trigger] turns[i]).reply.accepted()
                && turns[i].reply.delivered().len() == 1,
    ensures
        chat.after(turns).history.len() == chat.history.len() + 2 * turns.len(),
{
    lemma_history_after_turns(chat, turns);
    lemma_single_choices_add_two(turns);
}

/// A run of turns of one choice each adds two messages for each turn.
proof fn lemma_single_choices_add_two(turns: Seq<Turn>)
    requires
        forall|i: int| 0 <= i < turns.len() ==> (#[trigger] turns[i]).reply.delivered().len() == 1,
    ensures
        messages_added(turns) == 2 * turns.len(),
    decreases turns.len(),
{
    if turns.len() > 0 {
        let front = turns.drop_last();
        assert forall|i: int| 0 <= i < front.len() implies (#[trigger] front[i]).reply.delivered().len()
            == 1 by {
            assert(front[i] == turns[i]);
        }
        lemma_single_choices_add_two(front);
        assert(turns.last() == turns[turns.len() - 1]);
    }
}

/// After a run of turns the token counts are what they were before, plus
/// the sum, count by count, of what the accepted answers reported. No count
/// is ever less than it was.
pub proof fn lemma_usage_after_turns(chat: ChatView, turns: Seq<Turn>)
    ensures
        chat.after(turns).usage == chat.usage.plus(usage_reported(turns)),
        chat.usage.at_most(chat.after(turns).usage),
    decreases turns.len(),
{
    if turns.len() > 0 {
        lemma_usage_after_turns(chat, turns.drop_last());
    }
}

} // verus!
