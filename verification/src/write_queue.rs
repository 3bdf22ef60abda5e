//! Writes that another instance carries out.
//!
//! An instance that is not the leader sends its writes to the leader, and waits
//! for the answer. Requests and answers belong together by an id.

use crate::statement::text_in;
use crate::text::{concat, same};
use vstd::prelude::*;

verus! {

/// A write that the leader is asked for.
#[derive(Debug)]
pub struct WriteRequest {
    pub request_id: String,
    pub sql: String,
}

/// What the leader answers.
#[derive(Debug)]
pub enum WriteResponse {
    Success { request_id: String, affected_rows: usize },
    Error { request_id: String, error_message: String },
}

/// What instances send each other.
#[derive(Debug)]
pub enum WriteQueueMessage {
    WriteRequest(WriteRequest),
    WriteResponse(WriteResponse),
}

/// What a [`WriteQueueMessage`] says.
#[verifier::ext_equal]
pub enum Message {
    Request { id: Seq<char>, sql: Seq<char> },
    Success { id: Seq<char>, affected_rows: usize },
    Error { id: Seq<char>, message: Seq<char> },
}

impl WriteResponse {
    pub open spec fn view(&self) -> Message {
        match self {
            WriteResponse::Success { request_id, affected_rows } => Message::Success {
                id: request_id@,
                affected_rows: *affected_rows,
            },
            WriteResponse::Error { request_id, error_message } => Message::Error {
                id: request_id@,
                message: error_message@,
            },
        }
    }
}

impl WriteQueueMessage {
    pub open spec fn view(&self) -> Message {
        match self {
            WriteQueueMessage::WriteRequest(request) => Message::Request {
                id: request.request_id@,
                sql: request.sql@,
            },
            WriteQueueMessage::WriteResponse(response) => response@,
        }
    }
}

/// The request that an instance serves when it gets a message. `leader` says
/// whether the instance is the leader, and is missing where it has no storage:
/// only the leader serves requests, and everything else is ignored.
pub fn request_to_serve(message: WriteQueueMessage, leader: Option<bool>) -> (r: Option<
    WriteRequest,
>)
    ensures
        r is Some <==> message@ is Request && leader == Some(true),
        r matches Some(request) ==> message@ == (Message::Request {
            id: request.request_id@,
            sql: request.sql@,
        }),
{
    match (message, leader) {
        (WriteQueueMessage::WriteRequest(request), Some(true)) => Some(request),
        _ => None,
    }
}

/// The answer to a request: the number of rows that its statement changed, or
/// why it failed.
pub open spec fn answered(id: Seq<char>, outcome: Result<u32, Seq<char>>) -> Message {
    match outcome {
        Ok(affected_rows) => Message::Success { id, affected_rows: affected_rows as usize },
        Err(message) => Message::Error { id, message },
    }
}

/// How a statement went, as the answer to a request reports it.
pub open spec fn outcome_in(outcome: Result<u32, String>) -> Result<u32, Seq<char>> {
    match outcome {
        Ok(affected_rows) => Ok(affected_rows),
        Err(message) => Err(message@),
    }
}

/// The answer to a request.
pub fn answer(request: &WriteRequest, outcome: Result<u32, String>) -> (response: WriteResponse)
    ensures
        response@ == answered(request.request_id@, outcome_in(outcome)),
{
    match outcome {
        Ok(affected_rows) => WriteResponse::Success {
            request_id: request.request_id.clone(),
            affected_rows: affected_rows as usize,
        },
        Err(error_message) => WriteResponse::Error {
            request_id: request.request_id.clone(),
            error_message,
        },
    }
}

/// The milliseconds between two looks at whether there is an answer.
pub const ANSWER_POLL_MS: u32 = 100;

/// The milliseconds for which an answer is waited for, unless it is said
/// otherwise.
pub const DEFAULT_TIMEOUT_MS: u32 = 5000;

/// How far a queued write has come.
#[derive(Clone, Copy, Debug, PartialEq, Eq, Structural)]
pub enum QueuePhase {
    /// Find out whether this instance is the leader.
    AskLeader,
    /// Execute the write here.
    Execute,
    /// Send the write to the leader.
    Send,
    /// Listen for the answer.
    Listen,
    /// See how long the answer has been waited for.
    ReadClock,
    /// Wait before looking again.
    Wait,
    Over,
}

/// How a part of a queued write went.
#[derive(Debug)]
pub enum QueueEvent {
    /// Whether this instance is the leader; missing where it has no storage.
    Leader(Option<bool>),
    /// The write has been executed here, or has failed with this message.
    Executed(Option<String>),
    /// The write has been sent under this id.
    Sent(String),
    /// The write cannot be sent.
    NotSent(String),
    /// This instance listens for the answer, or cannot, with this message.
    Listening(Option<String>),
    /// A message from another instance.
    Received(WriteQueueMessage),
    /// The answer has been waited for this many milliseconds.
    Elapsed(i64),
    /// The time to wait is over.
    Waited,
}

/// What a [`QueueEvent`] says.
#[verifier::ext_equal]
pub enum QueueNews {
    Leader(Option<bool>),
    Executed(Option<Seq<char>>),
    Sent(Seq<char>),
    NotSent(Seq<char>),
    Listening(Option<Seq<char>>),
    Received(Message),
    Elapsed(i64),
    Waited,
}

impl QueueEvent {
    pub open spec fn view(&self) -> QueueNews {
        match self {
            QueueEvent::Leader(leader) => QueueNews::Leader(*leader),
            QueueEvent::Executed(error) => QueueNews::Executed(text_in(*error)),
            QueueEvent::Sent(id) => QueueNews::Sent(id@),
            QueueEvent::NotSent(error) => QueueNews::NotSent(error@),
            QueueEvent::Listening(error) => QueueNews::Listening(text_in(*error)),
            QueueEvent::Received(message) => QueueNews::Received(message@),
            QueueEvent::Elapsed(ms) => QueueNews::Elapsed(*ms),
            QueueEvent::Waited => QueueNews::Waited,
        }
    }
}

/// The state of a queued write.
#[verifier::ext_equal]
pub struct QueueState {
    /// The statement that is written.
    pub sql: Seq<char>,
    pub timeout_ms: u32,
    pub phase: QueuePhase,
    /// The id under which the write was sent.
    pub request_id: Seq<char>,
    /// Whether there is an answer.
    pub answered: bool,
    /// The error that an answer reported.
    pub reported: Option<Seq<char>>,
    /// Why the write failed, if it did.
    pub error: Option<Seq<char>>,
}

/// A queued write that has just begun.
pub open spec fn begun_write(sql: Seq<char>, timeout_ms: u32) -> QueueState {
    QueueState {
        sql,
        timeout_ms,
        phase: QueuePhase::AskLeader,
        request_id: Seq::empty(),
        answered: false,
        reported: None,
        error: None,
    }
}

/// A queued write that is over.
pub open spec fn ended_write(state: QueueState, error: Option<Seq<char>>) -> QueueState {
    QueueState { phase: QueuePhase::Over, error, ..state }
}

/// A message with something said before it, if there is a message.
pub open spec fn explained(prefix: Seq<char>, message: Option<Seq<char>>) -> Option<Seq<char>> {
    match message {
        Some(message) => Some(prefix + message),
        None => None,
    }
}

/// A queued write that looks whether there is an answer.
pub open spec fn looking(state: QueueState) -> QueueState {
    if state.answered {
        ended_write(state, explained("Write failed: "@, state.reported))
    } else {
        QueueState { phase: QueuePhase::ReadClock, ..state }
    }
}

/// A queued write that gets a message. Only the answer to its own request
/// counts.
pub open spec fn informed(state: QueueState, message: Message) -> QueueState {
    match message {
        Message::Request { .. } => state,
        Message::Success { id, .. } => if id == state.request_id {
            QueueState { answered: true, ..state }
        } else {
            state
        },
        Message::Error { id, message } => if id == state.request_id {
            QueueState { answered: true, reported: Some(message), ..state }
        } else {
            state
        },
    }
}

/// A queued write after some news. News that do not fit leave it as it is.
pub open spec fn after_news(state: QueueState, news: QueueNews) -> QueueState {
    match (state.phase, news) {
        (QueuePhase::AskLeader, QueueNews::Leader(leader)) => QueueState {
            phase: if leader == Some(true) {
                QueuePhase::Execute
            } else {
                QueuePhase::Send
            },
            ..state
        },
        (QueuePhase::Execute, QueueNews::Executed(error)) => ended_write(
            state,
            explained("Execute failed: "@, error),
        ),
        (QueuePhase::Send, QueueNews::Sent(id)) => QueueState {
            phase: QueuePhase::Listen,
            request_id: id,
            ..state
        },
        (QueuePhase::Send, QueueNews::NotSent(error)) => ended_write(
            state,
            Some("Failed to send write request: "@ + error),
        ),
        (QueuePhase::Listen, QueueNews::Listening(error)) => match error {
            Some(error) => ended_write(state, Some("Failed to register listener: "@ + error)),
            None => looking(state),
        },
        (QueuePhase::ReadClock, QueueNews::Elapsed(ms)) => if ms > state.timeout_ms {
            ended_write(state, Some("Write request timed out"@))
        } else {
            QueueState { phase: QueuePhase::Wait, ..state }
        },
        (QueuePhase::Wait, QueueNews::Waited) => looking(state),
        (QueuePhase::Listen, QueueNews::Received(message)) => informed(state, message),
        (QueuePhase::ReadClock, QueueNews::Received(message)) => informed(state, message),
        (QueuePhase::Wait, QueueNews::Received(message)) => informed(state, message),
        _ => state,
    }
}

/// What a queued write does next.
#[derive(Debug)]
pub enum QueueAction {
    /// Find out whether this instance is the leader.
    AskLeader,
    /// Execute this statement here.
    Execute { sql: String },
    /// Send this statement to the leader.
    Send { sql: String },
    /// Listen to the messages of other instances.
    Listen,
    /// Read how long the answer has been waited for.
    ReadClock,
    /// Wait for this many milliseconds.
    Wait { ms: u32 },
    /// None: the write is over.
    Return,
}

/// Whether an action is the one that a queued write does next.
pub open spec fn is_next_of_write(action: QueueAction, state: QueueState) -> bool {
    match state.phase {
        QueuePhase::AskLeader => action is AskLeader,
        QueuePhase::Execute => action matches QueueAction::Execute { sql } && sql@ == state.sql,
        QueuePhase::Send => action matches QueueAction::Send { sql } && sql@ == state.sql,
        QueuePhase::Listen => action is Listen,
        QueuePhase::ReadClock => action is ReadClock,
        QueuePhase::Wait => action matches QueueAction::Wait { ms } && ms == ANSWER_POLL_MS,
        QueuePhase::Over => action is Return,
    }
}

/// A write that goes to the leader.
#[derive(Debug)]
pub struct QueuedWrite {
    sql: String,
    timeout_ms: u32,
    phase: QueuePhase,
    request_id: String,
    answered: bool,
    reported: Option<String>,
    error: Option<String>,
}

impl QueuedWrite {
    pub closed spec fn view(&self) -> QueueState {
        QueueState {
            sql: self.sql@,
            timeout_ms: self.timeout_ms,
            phase: self.phase,
            request_id: self.request_id@,
            answered: self.answered,
            reported: text_in(self.reported),
            error: text_in(self.error),
        }
    }

    /// Begins a write that waits this many milliseconds for its answer.
    pub fn begin(sql: &str, timeout_ms: u32) -> (r: QueuedWrite)
        ensures
            r@ == begun_write(sql@, timeout_ms),
    {
        let r = QueuedWrite {
            sql: sql.to_owned(),
            timeout_ms,
            phase: QueuePhase::AskLeader,
            request_id: String::new(),
            answered: false,
            reported: None,
            error: None,
        };
        assert(r@ =~= begun_write(sql@, timeout_ms));
        r
    }

    /// What is done next.
    pub fn action(&self) -> (action: QueueAction)
        ensures
            is_next_of_write(action, self@),
    {
        match self.phase {
            QueuePhase::AskLeader => QueueAction::AskLeader,
            QueuePhase::Execute => QueueAction::Execute { sql: self.sql.clone() },
            QueuePhase::Send => QueueAction::Send { sql: self.sql.clone() },
            QueuePhase::Listen => QueueAction::Listen,
            QueuePhase::ReadClock => QueueAction::ReadClock,
            QueuePhase::Wait => QueueAction::Wait { ms: ANSWER_POLL_MS },
            QueuePhase::Over => QueueAction::Return,
        }
    }

    fn end(&mut self, prefix: &str, message: Option<String>)
        ensures
            final(self)@ == ended_write(old(self)@, explained(prefix@, text_in(message))),
    {
        self.error = match message {
            Some(message) => Some(concat(prefix, message.as_str())),
            None => None,
        };
        self.phase = QueuePhase::Over;
        assert(self@ =~= ended_write(old(self)@, explained(prefix@, text_in(message))));
    }

    fn look(&mut self)
        ensures
            final(self)@ == looking(old(self)@),
    {
        if self.answered {
            let reported: Option<String> = self.reported.clone();
            assert(text_in(reported) == text_in(self.reported));
            self.end("Write failed: ", reported);
        } else {
            self.phase = QueuePhase::ReadClock;
            assert(self@ =~= looking(old(self)@));
        }
    }

    fn inform(&mut self, message: WriteQueueMessage)
        ensures
            final(self)@ == informed(old(self)@, message@),
    {
        match message {
            WriteQueueMessage::WriteRequest(_) => {},
            WriteQueueMessage::WriteResponse(WriteResponse::Success { request_id, .. }) => {
                if same(request_id.as_str(), self.request_id.as_str()) {
                    self.answered = true;
                }
            },
            WriteQueueMessage::WriteResponse(
                WriteResponse::Error { request_id, error_message },
            ) => {
                if same(request_id.as_str(), self.request_id.as_str()) {
                    self.answered = true;
                    self.reported = Some(error_message);
                }
            },
        }
        assert(self@ =~= informed(old(self)@, message@));
    }

    /// Takes note of how a part of the write went.
    pub fn advance(&mut self, event: QueueEvent)
        ensures
            final(self)@ == after_news(old(self)@, event@),
    {
        let ghost before = self@;
        match (self.phase, event) {
            (QueuePhase::AskLeader, QueueEvent::Leader(leader)) => {
                self.phase = match leader {
                    Some(true) => QueuePhase::Execute,
                    _ => QueuePhase::Send,
                };
                assert(self@ =~= after_news(before, event@));
            },
            (QueuePhase::Execute, QueueEvent::Executed(error)) => {
                self.end("Execute failed: ", error);
            },
            (QueuePhase::Send, QueueEvent::Sent(id)) => {
                self.request_id = id;
                self.phase = QueuePhase::Listen;
                assert(self@ =~= after_news(before, event@));
            },
            (QueuePhase::Send, QueueEvent::NotSent(error)) => {
                self.end("Failed to send write request: ", Some(error));
            },
            (QueuePhase::Listen, QueueEvent::Listening(error)) => {
                if error.is_some() {
                    self.end("Failed to register listener: ", error);
                } else {
                    self.look();
                }
            },
            (QueuePhase::ReadClock, QueueEvent::Elapsed(ms)) => {
                if ms > self.timeout_ms as i64 {
                    self.error = Some("Write request timed out".to_owned());
                    self.phase = QueuePhase::Over;
                } else {
                    self.phase = QueuePhase::Wait;
                }
                assert(self@ =~= after_news(before, event@));
            },
            (QueuePhase::Wait, QueueEvent::Waited) => {
                self.look();
            },
            (QueuePhase::Listen, QueueEvent::Received(message)) => {
                self.inform(message);
            },
            (QueuePhase::ReadClock, QueueEvent::Received(message)) => {
                self.inform(message);
            },
            (QueuePhase::Wait, QueueEvent::Received(message)) => {
                self.inform(message);
            },
            _ => {},
        }
    }

    /// Whether the write succeeded, or why it failed, once it is over.
    pub fn into_result(self) -> (r: Option<Result<(), String>>)
        ensures
            r is None <==> !(self@.phase is Over),
            r matches Some(Ok(_)) ==> self@.error is None,
            r matches Some(Err(error)) ==> self@.error == Some(error@),
    {
        match self.phase {
            QueuePhase::Over => match self.error {
                Some(error) => Some(Err(error)),
                None => Some(Ok(())),
            },
            _ => None,
        }
    }
}

/// The answer of the leader reaches the instance that asked: a write that waits
/// for its answer and gets it is over when it looks next, and it has failed
/// exactly if its statement failed, with the message of the leader.
pub proof fn law_answers_reach_who_asked(
    state: QueueState,
    id: Seq<char>,
    outcome: Result<u32, Seq<char>>,
)
    requires
        state.phase is Wait,
        state.request_id == id,
        !state.answered,
        state.reported is None,
    ensures
        ({
            let told = after_news(state, QueueNews::Received(answered(id, outcome)));
            let over = after_news(told, QueueNews::Waited);
            &&& over.phase is Over
            &&& match outcome {
                Ok(_) => over.error is None,
                Err(message) => over.error == Some("Write failed: "@ + message),
            }
        }),
{
}

/// The answer to another request changes nothing, and neither does a request.
pub proof fn law_other_answers_are_ignored(state: QueueState, message: Message)
    requires
        match message {
            Message::Request { .. } => true,
            Message::Success { id, .. } => id != state.request_id,
            Message::Error { id, .. } => id != state.request_id,
        },
    ensures
        after_news(state, QueueNews::Received(message)) == state,
{
}

/// A write does not wait for ever: once it has waited for longer than its
/// timeout without an answer, it fails.
pub proof fn law_waiting_for_an_answer_ends(state: QueueState, elapsed_ms: i64)
    requires
        state.phase is Wait,
        !state.answered,
        elapsed_ms > state.timeout_ms,
    ensures
        ({
            let looked = after_news(state, QueueNews::Waited);
            let over = after_news(looked, QueueNews::Elapsed(elapsed_ms));
            over.phase is Over && over.error == Some("Write request timed out"@)
        }),
{
}

/// The leader executes its own writes, and nothing is sent: the statement that
/// was given is the one that is executed, and its error is the error of the
/// write.
pub proof fn law_leader_writes_itself(
    sql: Seq<char>,
    timeout_ms: u32,
    error: Option<Seq<char>>,
    action: QueueAction,
)
    ensures
        ({
            let asked = after_news(begun_write(sql, timeout_ms), QueueNews::Leader(Some(true)));
            let over = after_news(asked, QueueNews::Executed(error));
            &&& is_next_of_write(action, asked) <==> (action matches QueueAction::Execute {
                sql: executed,
            } && executed@ == sql)
            &&& over.phase is Over
            &&& over.error == explained("Execute failed: "@, error)
        }),
{
}

/// Every other instance sends the statement that was given, and executes
/// nothing.
pub proof fn law_followers_send_their_writes(
    sql: Seq<char>,
    timeout_ms: u32,
    leader: Option<bool>,
    action: QueueAction,
)
    requires
        leader != Some(true),
    ensures
        ({
            let asked = after_news(begun_write(sql, timeout_ms), QueueNews::Leader(leader));
            is_next_of_write(action, asked) <==> (action matches QueueAction::Send { sql: sent }
                && sent@ == sql)
        }),
{
}

/// What is written stays what it was.
pub proof fn law_writes_keep_their_statement(state: QueueState, news: QueueNews)
    ensures
        after_news(state, news).sql == state.sql,
        after_news(state, news).timeout_ms == state.timeout_ms,
{
}

/// A write gives up no sooner and no later than its own timeout: when it sees how
/// long it has waited, it fails exactly if that is longer than the timeout it was
/// given, and goes on waiting otherwise. Where none was given, it is five seconds.
pub proof fn law_writes_wait_for_their_own_timeout(
    sql: Seq<char>,
    timeout_ms: u32,
    state: QueueState,
    elapsed_ms: i64,
)
    requires
        state.phase is ReadClock,
    ensures
        ({
            let after = after_news(state, QueueNews::Elapsed(elapsed_ms));
            &&& elapsed_ms <= state.timeout_ms ==> after.phase is Wait && after.error == state.error
            &&& elapsed_ms > state.timeout_ms ==> after.phase is Over && after.error == Some(
                "Write request timed out"@,
            )
            &&& after.answered == state.answered
            &&& after.request_id == state.request_id
        }),
        begun_write(sql, timeout_ms).timeout_ms == timeout_ms,
        begun_write(sql, timeout_ms).sql == sql,
        begun_write(sql, timeout_ms).phase is AskLeader,
        begun_write(sql, timeout_ms).error is None,
        !begun_write(sql, timeout_ms).answered,
        begun_write(sql, timeout_ms).reported is None,
        DEFAULT_TIMEOUT_MS == 5000,
{
}

/// However often a write looks before its timeout, an answer that comes while it
/// waits still ends it with what the leader says.
pub proof fn law_late_answers_still_count(
    state: QueueState,
    elapsed_ms: i64,
    affected_rows: usize,
    message: Seq<char>,
)
    requires
        state.phase is Wait,
        !state.answered,
        state.reported is None,
        elapsed_ms <= state.timeout_ms,
    ensures
        ({
            let looked = after_news(state, QueueNews::Waited);
            let waiting = after_news(looked, QueueNews::Elapsed(elapsed_ms));
            let success = after_news(
                waiting,
                QueueNews::Received(Message::Success { id: state.request_id, affected_rows }),
            );
            let failure = after_news(
                waiting,
                QueueNews::Received(Message::Error { id: state.request_id, message }),
            );
            &&& waiting == state
            &&& after_news(success, QueueNews::Waited).phase is Over
            &&& after_news(success, QueueNews::Waited).error is None
            &&& after_news(failure, QueueNews::Waited).phase is Over
            &&& after_news(failure, QueueNews::Waited).error == Some("Write failed: "@ + message)
        }),
{
}

/// What an instance does with its write: the leader executes it, every other
/// instance sends it and listens under the id that it was sent with, and what
/// goes wrong on the way is told.
pub proof fn law_course_of_a_write(
    state: QueueState,
    leader: Option<bool>,
    id: Seq<char>,
    error: Seq<char>,
)
    ensures
        state.phase is AskLeader ==> {
            let after = after_news(state, QueueNews::Leader(leader));
            &&& leader == Some(true) ==> after == (QueueState { phase: QueuePhase::Execute, ..state })
            &&& leader != Some(true) ==> after == (QueueState { phase: QueuePhase::Send, ..state })
        },
        state.phase is Execute ==> {
            let done = after_news(state, QueueNews::Executed(None));
            let failed = after_news(state, QueueNews::Executed(Some(error)));
            &&& done.phase is Over && done.error is None
            &&& failed.phase is Over && failed.error == Some("Execute failed: "@ + error)
        },
        state.phase is Send ==> {
            let sent = after_news(state, QueueNews::Sent(id));
            let failed = after_news(state, QueueNews::NotSent(error));
            &&& sent == (QueueState { phase: QueuePhase::Listen, request_id: id, ..state })
            &&& failed.phase is Over && failed.error == Some(
                "Failed to send write request: "@ + error,
            )
        },
        state.phase is Listen ==> {
            let deaf = after_news(state, QueueNews::Listening(Some(error)));
            let heard = after_news(state, QueueNews::Listening(None));
            &&& deaf.phase is Over && deaf.error == Some("Failed to register listener: "@ + error)
            &&& !state.answered ==> heard == (QueueState { phase: QueuePhase::ReadClock, ..state })
        },
{
}

/// What is done in each phase: the leader is asked, the statement itself is
/// executed or sent, and there is a look for the answer every tenth of a second.
pub proof fn law_actions_of_a_write(state: QueueState, action: QueueAction)
    requires
        is_next_of_write(action, state),
    ensures
        state.phase is AskLeader ==> action is AskLeader,
        state.phase is Execute ==> action is Execute && action->Execute_sql@ == state.sql,
        state.phase is Send ==> action is Send && action->Send_sql@ == state.sql,
        state.phase is Listen ==> action is Listen,
        state.phase is ReadClock ==> action is ReadClock,
        state.phase is Wait ==> action == (QueueAction::Wait { ms: 100 }),
        state.phase is Over ==> action is Return,
{
}

/// The answer of the leader has the id of the request, and tells how many rows
/// were changed or why the statement failed. What instances send each other is
/// seen as it is.
pub proof fn law_answers_tell_what_happened(
    id: Seq<char>,
    affected_rows: u32,
    error: Seq<char>,
    message: WriteQueueMessage,
    outcome: Result<u32, String>,
)
    ensures
        answered(id, Ok(affected_rows)) is Success,
        answered(id, Ok(affected_rows))->Success_id == id,
        answered(id, Ok(affected_rows))->affected_rows == affected_rows,
        answered(id, Err(error)) == (Message::Error { id, message: error }),
        match outcome {
            Ok(n) => outcome_in(outcome) == Ok::<u32, Seq<char>>(n),
            Err(text) => outcome_in(outcome) == Err::<u32, Seq<char>>(text@),
        },
        match message {
            WriteQueueMessage::WriteRequest(request) => message@ == (Message::Request {
                id: request.request_id@,
                sql: request.sql@,
            }),
            WriteQueueMessage::WriteResponse(
                WriteResponse::Success { request_id, affected_rows },
            ) => message@ == (Message::Success { id: request_id@, affected_rows }),
            WriteQueueMessage::WriteResponse(
                WriteResponse::Error { request_id, error_message },
            ) => message@ == (Message::Error { id: request_id@, message: error_message@ }),
        },
{
}

/// What a write is told is seen as it is.
pub proof fn law_news_are_seen_as_they_are(event: QueueEvent)
    ensures
        match event {
            QueueEvent::Leader(leader) => event@ == QueueNews::Leader(leader),
            QueueEvent::Executed(Some(error)) => event@ == QueueNews::Executed(Some(error@)),
            QueueEvent::Executed(None) => event@ == QueueNews::Executed(None),
            QueueEvent::Sent(id) => event@ == QueueNews::Sent(id@),
            QueueEvent::NotSent(error) => event@ == QueueNews::NotSent(error@),
            QueueEvent::Listening(Some(error)) => event@ == QueueNews::Listening(Some(error@)),
            QueueEvent::Listening(None) => event@ == QueueNews::Listening(None),
            QueueEvent::Received(message) => event@ == QueueNews::Received(message@),
            QueueEvent::Elapsed(ms) => event@ == QueueNews::Elapsed(ms),
            QueueEvent::Waited => event@ is Waited,
        },
{
}

/// A message counts whenever a write listens, be it between two looks or not: an
/// answer under its own id is an answer, and an error that it reports stays
/// reported. In any other phase a message changes nothing.
pub proof fn law_messages_count_while_listening(
    state: QueueState,
    affected_rows: usize,
    message: Seq<char>,
)
    ensures
        ({
            let success = after_news(
                state,
                QueueNews::Received(Message::Success { id: state.request_id, affected_rows }),
            );
            let failure = after_news(
                state,
                QueueNews::Received(Message::Error { id: state.request_id, message }),
            );
            let listening = state.phase is Listen || state.phase is ReadClock || state.phase is Wait;
            &&& listening ==> success == (QueueState { answered: true, ..state })
            &&& listening ==> failure == (QueueState {
                answered: true,
                reported: Some(message),
                ..state
            })
            &&& !listening ==> success == state && failure == state
        }),
{
}

/// A write that looks and finds an answer is over, with the error that the answer
/// reported; and only what a write waits for counts.
pub proof fn law_writes_heed_nothing_else(state: QueueState, news: QueueNews)
    ensures
        state.answered && state.reported is None && state.phase is Listen ==> after_news(
            state,
            QueueNews::Listening(None),
        ) == (QueueState { phase: QueuePhase::Over, error: None, ..state }),
        state.answered && state.reported is Some && state.phase is Wait ==> after_news(
            state,
            QueueNews::Waited,
        ) == (QueueState {
            phase: QueuePhase::Over,
            error: Some("Write failed: "@ + state.reported->0),
            ..state
        }),
        !(match state.phase {
            QueuePhase::AskLeader => news is Leader,
            QueuePhase::Execute => news is Executed,
            QueuePhase::Send => news is Sent || news is NotSent,
            QueuePhase::Listen => news is Listening || news is Received,
            QueuePhase::ReadClock => news is Elapsed || news is Received,
            QueuePhase::Wait => news is Waited || news is Received,
            QueuePhase::Over => false,
        }) ==> after_news(state, news) == state,
{
}

} // verus!
