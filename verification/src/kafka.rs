//! `SITE SEND`: publishing stored files to a Kafka topic, one message per file.
//!
//! The command's decisions live here; the work between them (connecting to
//! the broker, reading a file, waiting for a delivery) is done by the caller,
//! which performs each [`SendAction`] and reports back with a [`SendEvent`].

use vstd::prelude::*;

use crate::keyed::string_views;
use crate::storage::{file_key, spec_get};

verus! {

/// The Kafka broker that messages go to.
pub const BROKERS: &'static str = "localhost:9092";

/// The topic used when the command names none.
pub const DEFAULT_TOPIC: &'static str = "rust-topic";

/// How long the producer waits for a message to be delivered, in milliseconds.
pub const MESSAGE_TIMEOUT_MS: &'static str = "5000";

/// The FTP reply codes that `SITE SEND` answers with.
#[derive(Clone, Copy, Debug, PartialEq, Eq, Structural)]
pub enum ReplyCode {
    /// 200
    CommandOkay,
    /// 501
    ParameterSyntaxError,
    /// 530
    NotLoggedIn,
    /// 451
    LocalError,
}

/// The answer to a `SITE SEND` command.
#[derive(Debug)]
pub enum SiteReply {
    /// A one-line answer.
    CodeAndMsg { code: ReplyCode, msg: String },
    /// An answer of several lines.
    MultiLine { code: ReplyCode, lines: Vec<String> },
}

/// `r` is the one-line answer `code` with message `msg`.
pub open spec fn is_reply(r: SiteReply, code: ReplyCode, msg: Seq<char>) -> bool {
    r matches SiteReply::CodeAndMsg { code: c, msg: m } && c == code && m@ == msg
}

/// The arguments of `SITE SEND [--topic <topic>] [--key <key>] <file>...`.
#[derive(Debug)]
pub struct SendArgs {
    /// The topic to publish to.
    pub topic: String,
    /// The key of every message; each file's own name where absent.
    pub key: Option<String>,
    /// The files to publish, one message each, in this order.
    pub file_names: Vec<String>,
}

/// What `shlex::split` makes of `raw`: the words of a POSIX shell command line,
/// or `None` where the line is malformed (an unterminated quote, say).
pub uninterp spec fn shell_words(raw: Seq<char>) -> Option<Seq<Seq<char>>>;

/// Splits `raw` into words through `shlex::split`. The contract names the
/// result `shell_words(raw@)` and claims nothing more of it.
#[verifier::external_body]
fn split_words(raw: &str) -> (r: Option<Vec<String>>)
    ensures
        match r {
            Some(ws) => shell_words(raw@) == Some(string_views(ws@)),
            None => shell_words(raw@) is None,
        },
{
    shlex::split(raw)
}

impl SendArgs {
    /// The first step of reading the arguments: the words of the command line,
    /// quoted as in a shell.
    pub fn tokenize(raw: &str) -> (r: Result<Vec<String>, SiteReply>)
        ensures
            match r {
                Ok(ws) => shell_words(raw@) == Some(string_views(ws@)),
                Err(reply) => shell_words(raw@) is None && is_reply(
                    reply,
                    ReplyCode::ParameterSyntaxError,
                    "Unbalanced quotes in arguments"@,
                ),
            },
    {
        Self::from_words(split_words(raw))
    }

    /// What the shell words of the command line make: the words themselves, or,
    /// where the line could not be split, a syntax error.
    pub fn from_words(words: Option<Vec<String>>) -> (r: Result<Vec<String>, SiteReply>)
        ensures
            match words {
                Some(ws) => r == Ok::<Vec<String>, SiteReply>(ws),
                None => r matches Err(reply) && is_reply(
                    reply,
                    ReplyCode::ParameterSyntaxError,
                    "Unbalanced quotes in arguments"@,
                ),
            },
    {
        match words {
            Some(ws) => Ok(ws),
            None => Err(
                SiteReply::CodeAndMsg {
                    code: ReplyCode::ParameterSyntaxError,
                    msg: String::from_str("Unbalanced quotes in arguments"),
                },
            ),
        }
    }

    /// The last step of reading the arguments: `parsed` is what the option
    /// parser made of the words, or its complaint; at least one file must be named.
    pub fn from_parsed(parsed: Result<SendArgs, String>) -> (r: Result<SendArgs, SiteReply>)
        ensures
            match parsed {
                Err(m) => r matches Err(reply) && is_reply(
                    reply,
                    ReplyCode::ParameterSyntaxError,
                    m@,
                ),
                Ok(a) => if a.file_names.len() == 0 {
                    r matches Err(reply) && is_reply(
                        reply,
                        ReplyCode::ParameterSyntaxError,
                        "Missing file names"@,
                    )
                } else {
                    r == Ok::<SendArgs, SiteReply>(a)
                },
            },
    {
        match parsed {
            Err(m) => Err(SiteReply::CodeAndMsg { code: ReplyCode::ParameterSyntaxError, msg: m }),
            Ok(a) => {
                if a.file_names.len() == 0 {
                    Err(
                        SiteReply::CodeAndMsg {
                            code: ReplyCode::ParameterSyntaxError,
                            msg: String::from_str("Missing file names"),
                        },
                    )
                } else {
                    Ok(a)
                }
            },
        }
    }
}

/// How far a `SITE SEND` has come.
pub enum SendPhase {
    /// Waiting for the connection to the broker.
    Connecting,
    /// Connected; the next file (if any is left) is to be read.
    Working,
    /// The current file was read and is being published.
    Publishing,
    /// The broker could not be reached, for the given reason.
    Unreachable(Seq<char>),
}

/// What a `SITE SEND` in progress is: its arguments, what became of each file
/// so far (the delivery report, or why it failed), and its phase.
pub struct SendModel {
    pub topic: Seq<char>,
    pub key: Option<Seq<char>>,
    pub file_names: Seq<Seq<char>>,
    pub outcomes: Seq<Result<Seq<char>, Seq<char>>>,
    pub phase: SendPhase,
}

/// The work the caller is asked to do next.
#[derive(Debug)]
pub enum SendAction {
    /// Answer the client; the command is over.
    Finish(SiteReply),
    /// Connect a producer to `brokers`, with the given delivery timeout.
    Connect { brokers: String, message_timeout_ms: String },
    /// Read the stored file `file_name`.
    Fetch { file_name: String },
    /// Publish `payload` to `topic` under `key`.
    Publish { topic: String, key: String, payload: Vec<u8> },
}

/// What came of the work the caller was asked to do.
#[derive(Debug)]
pub enum SendEvent {
    /// The producer was created, or why not.
    Connected(Result<(), String>),
    /// The file's content, or why it could not be read.
    Fetched(Result<Vec<u8>, String>),
    /// The delivery report, or why the message was not delivered.
    Published(Result<String, String>),
}

/// What came of the requested work, as read by the session.
pub enum EventModel {
    Connected(Result<(), Seq<char>>),
    Fetched(Result<Seq<u8>, Seq<char>>),
    Published(Result<Seq<char>, Seq<char>>),
}

/// How the session reads `e`.
pub open spec fn event_view(e: SendEvent) -> EventModel {
    match e {
        SendEvent::Connected(r) => EventModel::Connected(
            match r {
                Ok(_) => Ok(()),
                Err(m) => Err(m@),
            },
        ),
        SendEvent::Fetched(r) => EventModel::Fetched(
            match r {
                Ok(d) => Ok(d@),
                Err(m) => Err(m@),
            },
        ),
        SendEvent::Published(r) => EventModel::Published(
            match r {
                Ok(d) => Ok(d@),
                Err(m) => Err(m@),
            },
        ),
    }
}

/// A message that the command asks to have published.
pub struct SentRecord {
    pub topic: Seq<char>,
    pub key: Seq<char>,
    pub payload: Seq<u8>,
}

/// What a delivery report, or a failure, reads.
pub open spec fn outcome_view(o: Result<String, String>) -> Result<Seq<char>, Seq<char>> {
    match o {
        Ok(d) => Ok(d@),
        Err(e) => Err(e@),
    }
}

/// The line that reports a file that was not sent.
pub open spec fn failure_line(name: Seq<char>, err: Seq<char>) -> Seq<char> {
    "\""@ + name + "\": "@ + err
}

/// The line that reports a file that was sent.
pub open spec fn sent_line(name: Seq<char>, topic: Seq<char>, delivery: Seq<char>) -> Seq<char> {
    "Sent file \""@ + name + "\" as message to "@ + topic + ". "@ + delivery
}

/// The line that reports what became of file `name`.
pub open spec fn outcome_line(
    name: Seq<char>,
    topic: Seq<char>,
    outcome: Result<Seq<char>, Seq<char>>,
) -> Seq<char> {
    match outcome {
        Ok(delivery) => sent_line(name, topic, delivery),
        Err(err) => failure_line(name, err),
    }
}

/// One line per file handled so far, in order.
pub open spec fn report_lines(m: SendModel) -> Seq<Seq<char>> {
    Seq::new(m.outcomes.len(), |i: int| outcome_line(m.file_names[i], m.topic, m.outcomes[i]))
}

/// Every file handled so far was delivered.
pub open spec fn all_sent(outcomes: Seq<Result<Seq<char>, Seq<char>>>) -> bool {
    forall|i: int| 0 <= i < outcomes.len() ==> #[trigger] outcomes[i] is Ok
}

/// The code of the final answer: success only if every file was delivered.
pub open spec fn report_code(outcomes: Seq<Result<Seq<char>, Seq<char>>>) -> ReplyCode {
    if all_sent(outcomes) {
        ReplyCode::CommandOkay
    } else {
        ReplyCode::LocalError
    }
}

/// The key of the message for file `name`.
pub open spec fn message_key(m: SendModel, name: Seq<char>) -> Seq<char> {
    match m.key {
        Some(k) => k,
        None => name,
    }
}

/// The answer when the broker cannot be reached.
pub open spec fn connect_failure_message(err: Seq<char>) -> Seq<char> {
    "Cannot connect to Kafka broker "@ + BROKERS@ + ": "@ + err
}

/// Whether a session in state `m` expects `event` now.
pub open spec fn expects(m: SendModel, event: EventModel) -> bool {
    match m.phase {
        SendPhase::Connecting => event is Connected,
        SendPhase::Working => m.outcomes.len() < m.file_names.len() && event is Fetched,
        SendPhase::Publishing => event is Published,
        SendPhase::Unreachable(_) => false,
    }
}

/// The state that `event` leads to from `m` (unchanged where it is not expected).
pub open spec fn spec_next(m: SendModel, event: EventModel) -> SendModel {
    if !expects(m, event) {
        m
    } else {
        match event {
            EventModel::Connected(Ok(_)) => SendModel { phase: SendPhase::Working, ..m },
            EventModel::Connected(Err(e)) => SendModel { phase: SendPhase::Unreachable(e), ..m },
            EventModel::Fetched(Ok(_)) => SendModel { phase: SendPhase::Publishing, ..m },
            EventModel::Fetched(Err(e)) => SendModel { outcomes: m.outcomes.push(Err(e)), ..m },
            EventModel::Published(o) => SendModel {
                outcomes: m.outcomes.push(o),
                phase: SendPhase::Working,
                ..m
            },
        }
    }
}

/// The message that taking in `event` in state `m` asks to publish: the
/// content just read of the current file, under the command's topic and key.
pub open spec fn record_of(m: SendModel, event: EventModel) -> Option<SentRecord> {
    if expects(m, event) && m.phase is Working {
        match event {
            EventModel::Fetched(Ok(d)) => Some(
                SentRecord {
                    topic: m.topic,
                    key: message_key(m, m.file_names[m.outcomes.len() as int]),
                    payload: d,
                },
            ),
            _ => None,
        }
    } else {
        None
    }
}

/// `a` is the work that a session in state `m` asks for (but for the payload
/// of a `Publish`, which is the content just read).
pub open spec fn requested(m: SendModel, a: SendAction) -> bool {
    match m.phase {
        SendPhase::Connecting => a matches SendAction::Connect { brokers, message_timeout_ms }
            && brokers@ == BROKERS@ && message_timeout_ms@ == MESSAGE_TIMEOUT_MS@,
        SendPhase::Unreachable(e) => a matches SendAction::Finish(r) && is_reply(
            r,
            ReplyCode::LocalError,
            connect_failure_message(e),
        ),
        SendPhase::Working => if m.outcomes.len() < m.file_names.len() {
            a matches SendAction::Fetch { file_name } && file_name@ == m.file_names[m.outcomes.len() as int]
        } else {
            a matches SendAction::Finish(SiteReply::MultiLine { code, lines }) && code
                == report_code(m.outcomes) && string_views(lines@) == report_lines(m)
        },
        SendPhase::Publishing => a matches SendAction::Publish { topic, key, payload } && topic@
            == m.topic && key@ == message_key(m, m.file_names[m.outcomes.len() as int]),
    }
}

/// The stage of a session, as kept at run time.
enum Stage {
    Connecting,
    Working,
    Publishing,
    Unreachable(String),
}

/// What a `SITE SEND` in progress keeps.
struct SendState {
    topic: String,
    key: Option<String>,
    file_names: Vec<String>,
    stage: Stage,
    results: Vec<String>,
    all_ok: bool,
    outcomes: Ghost<Seq<Result<Seq<char>, Seq<char>>>>,
}

impl View for SendState {
    type V = SendModel;

    closed spec fn view(&self) -> SendModel {
        SendModel {
            topic: self.topic@,
            key: match self.key {
                Some(k) => Some(k@),
                None => None,
            },
            file_names: string_views(self.file_names@),
            outcomes: self.outcomes@,
            phase: match self.stage {
                Stage::Connecting => SendPhase::Connecting,
                Stage::Working => SendPhase::Working,
                Stage::Publishing => SendPhase::Publishing,
                Stage::Unreachable(e) => SendPhase::Unreachable(e@),
            },
        }
    }
}

/// `s` followed by `t`.
fn concat(s: String, t: &str) -> (r: String)
    ensures
        r@ == s@ + t@,
{
    let mut r = s;
    r.append(t);
    r
}

impl SendState {
    /// The state's invariant: one report line per file handled, and the
    /// success flag tells whether all of them were delivered.
    closed spec fn wf(&self) -> bool {
        &&& self.results.len() == self.outcomes@.len()
        &&& self.outcomes@.len() <= self.file_names.len()
        &&& self.stage is Publishing ==> self.outcomes@.len() < self.file_names.len()
        &&& string_views(self.results@) == report_lines(self@)
        &&& self.all_ok == all_sent(self.outcomes@)
    }

    /// A state with nothing to do, kept while the real one is being changed.
    fn idle() -> (st: SendState)
        ensures
            st.wf(),
    {
        let st = SendState {
            topic: String::new(),
            key: None,
            file_names: Vec::new(),
            stage: Stage::Working,
            results: Vec::new(),
            all_ok: true,
            outcomes: Ghost(Seq::empty()),
        };
        proof {
            assert(string_views(st.results@) =~= report_lines(st@));
        }
        st
    }

    /// Whether the session expects `event` now.
    fn expects(&self, event: &SendEvent) -> (b: bool)
        requires
            self.wf(),
        ensures
            b == expects(self@, event_view(*event)),
    {
        match self.stage {
            Stage::Connecting => matches!(event, SendEvent::Connected(_)),
            Stage::Working => self.results.len() < self.file_names.len() && matches!(
                event,
                SendEvent::Fetched(_)
            ),
            Stage::Publishing => matches!(event, SendEvent::Published(_)),
            Stage::Unreachable(_) => false,
        }
    }

    /// What the session asks for in its current state.
    fn action(&self) -> (a: SendAction)
        requires
            self.wf(),
            !(self.stage is Publishing),
        ensures
            requested(self@, a),
    {
        match &self.stage {
            Stage::Connecting => SendAction::Connect {
                brokers: String::from_str(BROKERS),
                message_timeout_ms: String::from_str(MESSAGE_TIMEOUT_MS),
            },
            Stage::Unreachable(e) => {
                let msg = concat(
                    concat(concat(String::from_str("Cannot connect to Kafka broker "), BROKERS), ": "),
                    e.as_str(),
                );
                SendAction::Finish(SiteReply::CodeAndMsg { code: ReplyCode::LocalError, msg })
            },
            Stage::Working => {
                let i = self.results.len();
                if i < self.file_names.len() {
                    SendAction::Fetch { file_name: self.file_names[i].clone() }
                } else {
                    let code = if self.all_ok {
                        ReplyCode::CommandOkay
                    } else {
                        ReplyCode::LocalError
                    };
                    let lines = clone_strings(&self.results);
                    SendAction::Finish(SiteReply::MultiLine { code, lines })
                }
            },
            Stage::Publishing => vstd::pervasive::unreached(),
        }
    }

    /// Records the outcome for the current file and moves on to the next one.
    fn record(&mut self, outcome: Result<String, String>)
        requires
            old(self).wf(),
            old(self).outcomes@.len() < old(self).file_names.len(),
        ensures
            final(self).wf(),
            final(self).stage is Working,
            final(self)@.outcomes == old(self)@.outcomes.push(outcome_view(outcome)),
            final(self)@.topic == old(self)@.topic,
            final(self)@.key == old(self)@.key,
            final(self)@.file_names == old(self)@.file_names,
    {
        let i = self.results.len();
        let ghost o = outcome_view(outcome);
        let line = match &outcome {
            Ok(d) => concat(
                concat(
                    concat(
                        concat(
                            concat(String::from_str("Sent file \""), self.file_names[i].as_str()),
                            "\" as message to ",
                        ),
                        self.topic.as_str(),
                    ),
                    ". ",
                ),
                d.as_str(),
            ),
            Err(e) => concat(
                concat(concat(String::from_str("\""), self.file_names[i].as_str()), "\": "),
                e.as_str(),
            ),
        };
        let ok = outcome.is_ok();
        let ghost old_model = self@;
        let ghost old_results = self.results@;
        assert(line@ == outcome_line(old_model.file_names[i as int], old_model.topic, o));
        self.results.push(line);
        self.all_ok = self.all_ok && ok;
        self.outcomes = Ghost(self.outcomes@.push(o));
        self.stage = Stage::Working;
        proof {
            assert forall|j: int| 0 <= j < self.results@.len() implies string_views(self.results@)[j]
                == report_lines(self@)[j] by {
                if j < i {
                    assert(self.results@[j] == old_results[j]);
                    assert(string_views(old_results)[j] == report_lines(old_model)[j]);
                    assert(self.outcomes@[j] == old_model.outcomes[j]);
                }
            }
            assert(string_views(self.results@) =~= report_lines(self@));
            assert(all_sent(self.outcomes@) == (all_sent(old_model.outcomes) && o is Ok)) by {
                if all_sent(old_model.outcomes) && o is Ok {
                    assert forall|j: int| 0 <= j < self.outcomes@.len() implies #[trigger] self.outcomes@[j] is Ok by {
                        if j < old_model.outcomes.len() {
                            assert(self.outcomes@[j] == old_model.outcomes[j]);
                        }
                    }
                }
                if !all_sent(old_model.outcomes) {
                    let j = choose|j: int| 0 <= j < old_model.outcomes.len() && !(old_model.outcomes[j] is Ok);
                    assert(self.outcomes@[j] == old_model.outcomes[j]);
                }
                if !(o is Ok) {
                    assert(self.outcomes@[old_model.outcomes.len() as int] == o);
                }
            }
        }
    }

    /// Takes in what came of the requested work and says what to do next.
    fn step(&mut self, event: SendEvent) -> (a: SendAction)
        requires
            old(self).wf(),
            expects(old(self)@, event_view(event)),
        ensures
            final(self).wf(),
            final(self)@ == spec_next(old(self)@, event_view(event)),
            requested(final(self)@, a),
            record_of(old(self)@, event_view(event)) matches Some(r) ==> a matches SendAction::Publish {
                topic,
                key,
                payload,
            } && topic@ == r.topic && key@ == r.key && payload@ == r.payload,
    {
        match event {
            SendEvent::Connected(Ok(())) => {
                self.stage = Stage::Working;
                self.action()
            },
            SendEvent::Connected(Err(e)) => {
                self.stage = Stage::Unreachable(e);
                self.action()
            },
            SendEvent::Fetched(Ok(payload)) => {
                self.stage = Stage::Publishing;
                let i = self.results.len();
                let key = match &self.key {
                    Some(k) => k.clone(),
                    None => self.file_names[i].clone(),
                };
                SendAction::Publish { topic: self.topic.clone(), key, payload }
            },
            SendEvent::Fetched(Err(e)) => {
                self.record(Err(e));
                self.action()
            },
            SendEvent::Published(outcome) => {
                self.record(outcome);
                self.action()
            },
        }
    }
}

/// A `SITE SEND` in progress.
pub struct SendSession {
    state: SendState,
}

impl View for SendSession {
    type V = SendModel;

    closed spec fn view(&self) -> SendModel {
        self.state@
    }
}

impl SendSession {
    /// The session's invariant: that of its state.
    #[verifier::type_invariant]
    spec fn inv(self) -> bool {
        self.state.wf()
    }

    /// Whether the session expects `event` now.
    pub fn expects(&self, event: &SendEvent) -> (b: bool)
        ensures
            b == expects(self@, event_view(*event)),
    {
        proof {
            use_type_invariant(self);
        }
        self.state.expects(event)
    }

    /// Takes in what came of the requested work and says what to do next.
    pub fn step(&mut self, event: SendEvent) -> (a: SendAction)
        requires
            expects(old(self)@, event_view(event)),
        ensures
            final(self)@ == spec_next(old(self)@, event_view(event)),
            requested(final(self)@, a),
            record_of(old(self)@, event_view(event)) matches Some(r) ==> a matches SendAction::Publish {
                topic,
                key,
                payload,
            } && topic@ == r.topic && key@ == r.key && payload@ == r.payload,
    {
        proof {
            use_type_invariant(&*self);
        }
        let mut st = SendState::idle();
        std::mem::swap(&mut st, &mut self.state);
        let a = st.step(event);
        self.state = st;
        a
    }
}

/// Copies of the strings of `v`.
fn clone_strings(v: &Vec<String>) -> (r: Vec<String>)
    ensures
        string_views(r@) == string_views(v@),
{
    let mut r: Vec<String> = Vec::new();
    let mut i: usize = 0;
    while i < v.len()
        invariant
            i <= v.len(),
            r.len() == i,
            forall|j: int| 0 <= j < i ==> r@[j]@ == v@[j]@,
        decreases v.len() - i,
    {
        r.push(v[i].clone());
        i = i + 1;
    }
    assert(string_views(r@) =~= string_views(v@));
    r
}

/// The `SITE SEND` command.
#[derive(Debug)]
pub struct KafkaSendHandler;

impl KafkaSendHandler {
    /// Starts a `SITE SEND`: `parsed` is what reading the arguments gave, and
    /// `logged_in` whether the session has a user.
    pub fn start(&self, parsed: Result<SendArgs, SiteReply>, logged_in: bool) -> (r: Result<
        (SendSession, SendAction),
        SiteReply,
    >)
        ensures
            match parsed {
                Err(reply) => r == Err::<(SendSession, SendAction), SiteReply>(reply),
                Ok(args) => if !logged_in {
                    r matches Err(reply) && is_reply(reply, ReplyCode::NotLoggedIn, "Not logged in"@)
                } else {
                    r matches Ok((s, a)) && s@ == initial_model(
                        args.topic@,
                        match args.key {
                            Some(k) => Some(k@),
                            None => None,
                        },
                        string_views(args.file_names@),
                    ) && requested(s@, a)
                },
            },
    {
        match parsed {
            Err(reply) => Err(reply),
            Ok(args) => {
                if !logged_in {
                    return Err(
                        SiteReply::CodeAndMsg {
                            code: ReplyCode::NotLoggedIn,
                            msg: String::from_str("Not logged in"),
                        },
                    );
                }
                let st = SendState {
                    topic: args.topic,
                    key: args.key,
                    file_names: args.file_names,
                    stage: Stage::Connecting,
                    results: Vec::new(),
                    all_ok: true,
                    outcomes: Ghost(Seq::empty()),
                };
                proof {
                    assert(string_views(st.results@) =~= report_lines(st@));
                }
                let a = st.action();
                Ok((SendSession { state: st }, a))
            },
        }
    }
}

/// How far a session has come: it grows with every step the session expects.
pub open spec fn progress(m: SendModel) -> int {
    match m.phase {
        SendPhase::Connecting => 0,
        SendPhase::Working => 2 * (m.outcomes.len() as int) + 1,
        SendPhase::Publishing => 2 * (m.outcomes.len() as int) + 2,
        SendPhase::Unreachable(_) => 2 * (m.file_names.len() as int) + 2,
    }
}

/// A step never changes the command's arguments, records at most one more
/// outcome, and never records more outcomes than there are files.
pub proof fn law_steps_keep_arguments(m: SendModel, event: EventModel)
    requires
        m.outcomes.len() <= m.file_names.len(),
        m.phase is Publishing ==> m.outcomes.len() < m.file_names.len(),
    ensures
        spec_next(m, event).topic == m.topic,
        spec_next(m, event).key == m.key,
        spec_next(m, event).file_names == m.file_names,
        spec_next(m, event).outcomes == m.outcomes || spec_next(m, event).outcomes
            == m.outcomes.push(spec_next(m, event).outcomes.last()),
        spec_next(m, event).outcomes.len() <= m.file_names.len(),
{
}

/// Every expected step brings the command closer to its end, which it reaches
/// after at most two steps per file and two more.
pub proof fn law_sessions_end(m: SendModel, event: EventModel)
    requires
        m.outcomes.len() <= m.file_names.len(),
        m.phase is Publishing ==> m.outcomes.len() < m.file_names.len(),
        expects(m, event),
    ensures
        progress(m) < progress(spec_next(m, event)),
        progress(spec_next(m, event)) <= 2 * m.file_names.len() + 2,
{
}

/// The final answer has one line per named file, in order, and succeeds only
/// if every file was delivered.
pub proof fn law_report_covers_every_file(m: SendModel)
    requires
        m.outcomes.len() == m.file_names.len(),
    ensures
        report_lines(m).len() == m.file_names.len(),
        forall|i: int|
            0 <= i < m.file_names.len() ==> #[trigger] report_lines(m)[i] == outcome_line(
                m.file_names[i],
                m.topic,
                m.outcomes[i],
            ),
        report_code(m.outcomes) == ReplyCode::CommandOkay <==> forall|i: int|
            0 <= i < m.outcomes.len() ==> #[trigger] m.outcomes[i] is Ok,
{
}

/// Without `--key`, each message is keyed by the name of its file.
pub proof fn law_key_defaults_to_file_name(m: SendModel, name: Seq<char>)
    requires
        m.key is None,
    ensures
        message_key(m, name) == name,
{
}

/// The state of a `SITE SEND` that has just started with these arguments.
pub open spec fn initial_model(
    topic: Seq<char>,
    key: Option<Seq<char>>,
    file_names: Seq<Seq<char>>,
) -> SendModel {
    SendModel { topic, key, file_names, outcomes: Seq::empty(), phase: SendPhase::Connecting }
}

/// What the outside world answers during one `SITE SEND`: whether the producer
/// could be created, what reading each named file gave, and what became of the
/// delivery of each file's message.
pub struct SendWorld {
    pub connect: Result<(), Seq<char>>,
    pub fetches: Seq<Result<Seq<u8>, Seq<char>>>,
    pub deliveries: Seq<Result<Seq<char>, Seq<char>>>,
}

/// What `w` answers to the work that a session in state `m` asks for.
pub open spec fn world_answer(m: SendModel, w: SendWorld) -> EventModel {
    match m.phase {
        SendPhase::Connecting => EventModel::Connected(w.connect),
        SendPhase::Publishing => EventModel::Published(w.deliveries[m.outcomes.len() as int]),
        _ => EventModel::Fetched(w.fetches[m.outcomes.len() as int]),
    }
}

/// The state after at most `n` exchanges with `w` (fewer once the session
/// expects nothing more), and the messages asked for on the way, in order.
pub open spec fn run(m: SendModel, w: SendWorld, n: nat) -> (SendModel, Seq<SentRecord>)
    decreases n,
{
    if n == 0 || !expects(m, world_answer(m, w)) {
        (m, Seq::empty())
    } else {
        let event = world_answer(m, w);
        let rest = run(spec_next(m, event), w, (n - 1) as nat);
        match record_of(m, event) {
            Some(r) => (rest.0, seq![r] + rest.1),
            None => rest,
        }
    }
}

/// What becomes of file `i` in `w`: its delivery if it could be read, otherwise
/// why it could not be read.
pub open spec fn expected_outcome(w: SendWorld, i: int) -> Result<Seq<char>, Seq<char>> {
    match w.fetches[i] {
        Ok(_) => w.deliveries[i],
        Err(e) => Err(e),
    }
}

/// The messages for files `from..` of `file_names`, in order: one for each file
/// that could be read, with the command's topic, its key (the file's name
/// without `--key`) and the file's content.
pub open spec fn expected_records(
    topic: Seq<char>,
    key: Option<Seq<char>>,
    file_names: Seq<Seq<char>>,
    w: SendWorld,
    from: nat,
) -> Seq<SentRecord>
    decreases file_names.len() - from,
{
    if from >= file_names.len() {
        Seq::empty()
    } else {
        let here = match w.fetches[from as int] {
            Ok(d) => seq![
                SentRecord {
                    topic,
                    key: match key {
                        Some(k) => k,
                        None => file_names[from as int],
                    },
                    payload: d,
                },
            ],
            Err(_) => Seq::empty(),
        };
        here + expected_records(topic, key, file_names, w, (from + 1) as nat)
    }
}

proof fn lemma_run_from_working(m: SendModel, w: SendWorld, fuel: nat)
    requires
        m.phase is Working,
        m.outcomes.len() <= m.file_names.len(),
        w.fetches.len() == m.file_names.len(),
        w.deliveries.len() == m.file_names.len(),
        fuel >= 2 * (m.file_names.len() - m.outcomes.len()),
    ensures
        run(m, w, fuel).0.phase is Working,
        run(m, w, fuel).0.topic == m.topic,
        run(m, w, fuel).0.key == m.key,
        run(m, w, fuel).0.file_names == m.file_names,
        run(m, w, fuel).0.outcomes.len() == m.file_names.len(),
        forall|i: int|
            0 <= i < m.outcomes.len() ==> #[trigger] run(m, w, fuel).0.outcomes[i] == m.outcomes[i],
        forall|i: int|
            m.outcomes.len() <= i < m.file_names.len() ==> #[trigger] run(m, w, fuel).0.outcomes[i]
                == expected_outcome(w, i),
        run(m, w, fuel).1 == expected_records(
            m.topic,
            m.key,
            m.file_names,
            w,
            m.outcomes.len(),
        ),
    decreases m.file_names.len() - m.outcomes.len(),
{
    let k = m.outcomes.len();
    let n = m.file_names.len();
    if k == n {
        assert(!expects(m, world_answer(m, w)));
    } else {
        let ev = world_answer(m, w);
        assert(ev == EventModel::Fetched(w.fetches[k as int]));
        match w.fetches[k as int] {
            Err(e) => {
                let m1 = spec_next(m, ev);
                assert(m1.outcomes == m.outcomes.push(Err(e)));
                lemma_run_from_working(m1, w, (fuel - 1) as nat);
                assert(record_of(m, ev) is None);
                assert forall|i: int| 0 <= i < k implies #[trigger] run(m, w, fuel).0.outcomes[i]
                    == m.outcomes[i] by {
                    assert(m1.outcomes[i] == m.outcomes[i]);
                }
                assert(run(m, w, fuel).0.outcomes[k as int] == m1.outcomes[k as int]);
                assert(expected_records(m.topic, m.key, m.file_names, w, k) =~= expected_records(
                    m.topic,
                    m.key,
                    m.file_names,
                    w,
                    k + 1,
                ));
            },
            Ok(d) => {
                let m1 = spec_next(m, ev);
                assert(m1.phase is Publishing);
                let ev2 = world_answer(m1, w);
                assert(ev2 == EventModel::Published(w.deliveries[k as int]));
                let m2 = spec_next(m1, ev2);
                assert(m2.outcomes == m.outcomes.push(w.deliveries[k as int]));
                assert(record_of(m1, ev2) is None);
                lemma_run_from_working(m2, w, (fuel - 2) as nat);
                assert(run(m1, w, (fuel - 1) as nat) == run(m2, w, (fuel - 2) as nat));
                let r = record_of(m, ev)->Some_0;
                assert(run(m, w, fuel).1 == seq![r] + run(m2, w, (fuel - 2) as nat).1);
                assert forall|i: int| 0 <= i < k implies #[trigger] run(m, w, fuel).0.outcomes[i]
                    == m.outcomes[i] by {
                    assert(m2.outcomes[i] == m.outcomes[i]);
                }
                assert(run(m, w, fuel).0.outcomes[k as int] == m2.outcomes[k as int]);
                assert(seq![r] + expected_records(m.topic, m.key, m.file_names, w, k + 1)
                    =~= expected_records(m.topic, m.key, m.file_names, w, k));
            },
        }
    }
}

/// A whole `SITE SEND` against `w`: when the producer cannot be created,
/// nothing is read and nothing is sent; otherwise every named file is read, in
/// order, one message is asked for per file that could be read (with the
/// command's topic, its key, and the content read), and what became of each
/// file is recorded, a failure stopping none of the files after it.
pub proof fn law_send_run(
    topic: Seq<char>,
    key: Option<Seq<char>>,
    file_names: Seq<Seq<char>>,
    w: SendWorld,
)
    requires
        w.fetches.len() == file_names.len(),
        w.deliveries.len() == file_names.len(),
    ensures
        w.connect matches Err(e) ==> {
            &&& run(initial_model(topic, key, file_names), w, 2 * file_names.len() + 2).0.phase
                == SendPhase::Unreachable(e)
            &&& run(initial_model(topic, key, file_names), w, 2 * file_names.len() + 2).0.outcomes
                == Seq::<Result<Seq<char>, Seq<char>>>::empty()
            &&& run(initial_model(topic, key, file_names), w, 2 * file_names.len() + 2).1
                == Seq::<SentRecord>::empty()
        },
        w.connect is Ok ==> {
            &&& run(initial_model(topic, key, file_names), w, 2 * file_names.len() + 2).0.phase is Working
            &&& run(initial_model(topic, key, file_names), w, 2 * file_names.len() + 2).0.topic == topic
            &&& run(initial_model(topic, key, file_names), w, 2 * file_names.len() + 2).0.file_names
                == file_names
            &&& run(initial_model(topic, key, file_names), w, 2 * file_names.len() + 2).0.outcomes.len()
                == file_names.len()
            &&& forall|i: int|
                0 <= i < file_names.len() ==> #[trigger] run(
                    initial_model(topic, key, file_names),
                    w,
                    2 * file_names.len() + 2,
                ).0.outcomes[i] == expected_outcome(w, i)
            &&& run(initial_model(topic, key, file_names), w, 2 * file_names.len() + 2).1
                == expected_records(topic, key, file_names, w, 0)
        },
{
    let m0 = initial_model(topic, key, file_names);
    let fuel = (2 * file_names.len() + 2) as nat;
    let ev = world_answer(m0, w);
    let m1 = spec_next(m0, ev);
    assert(record_of(m0, ev) is None);
    assert(run(m0, w, fuel) == run(m1, w, (fuel - 1) as nat));
    match w.connect {
        Err(e) => {
            assert(!expects(m1, world_answer(m1, w)));
        },
        Ok(_) => {
            lemma_run_from_working(m1, w, (fuel - 1) as nat);
        },
    }
}

/// The answer that ends a whole `SITE SEND` against `w`: the broker's failure
/// when the producer cannot be created; otherwise one line per named file, in
/// order, and success exactly when every file was read and delivered.
pub proof fn law_send_answer(
    topic: Seq<char>,
    key: Option<Seq<char>>,
    file_names: Seq<Seq<char>>,
    w: SendWorld,
    a: SendAction,
)
    requires
        w.fetches.len() == file_names.len(),
        w.deliveries.len() == file_names.len(),
        requested(run(initial_model(topic, key, file_names), w, 2 * file_names.len() + 2).0, a),
    ensures
        w.connect matches Err(e) ==> (a matches SendAction::Finish(r) && is_reply(
            r,
            ReplyCode::LocalError,
            connect_failure_message(e),
        )),
        w.connect is Ok ==> (a matches SendAction::Finish(SiteReply::MultiLine { code, lines }) && {
            &&& (code == ReplyCode::CommandOkay <==> forall|i: int|
                0 <= i < file_names.len() ==> #[trigger] w.fetches[i] is Ok && w.deliveries[i] is Ok)
            &&& code != ReplyCode::CommandOkay ==> code == ReplyCode::LocalError
            &&& lines.len() == file_names.len()
            &&& forall|i: int|
                0 <= i < file_names.len() ==> #[trigger] lines@[i]@ == outcome_line(
                    file_names[i],
                    topic,
                    expected_outcome(w, i),
                )
        }),
{
    law_send_run(topic, key, file_names, w);
    let end = run(initial_model(topic, key, file_names), w, 2 * file_names.len() + 2).0;
    if w.connect is Ok {
        if let SendAction::Finish(SiteReply::MultiLine { code, lines }) = a {
            assert(string_views(lines@) == report_lines(end));
            assert(report_lines(end).len() == file_names.len());
            assert(string_views(lines@).len() == lines@.len());
            assert forall|i: int| 0 <= i < file_names.len() implies #[trigger] lines@[i]@
                == outcome_line(file_names[i], topic, expected_outcome(w, i)) by {
                assert(string_views(lines@)[i] == lines@[i]@);
                assert(report_lines(end)[i] == outcome_line(end.file_names[i], end.topic, end.outcomes[i]));
            }
            if forall|i: int| 0 <= i < file_names.len() ==> #[trigger] w.fetches[i] is Ok
                && w.deliveries[i] is Ok {
                assert forall|i: int| 0 <= i < end.outcomes.len() implies #[trigger] end.outcomes[i] is Ok by {
                    assert(end.outcomes[i] == expected_outcome(w, i));
                    assert(w.fetches[i] is Ok && w.deliveries[i] is Ok);
                }
            } else {
                let i = choose|i: int| 0 <= i < file_names.len() && !(w.fetches[i] is Ok
                    && w.deliveries[i] is Ok);
                assert(end.outcomes[i] == expected_outcome(w, i));
                assert(!(end.outcomes[i] is Ok));
            }
        }
    }
}

/// The messages for files `from..` of `file_names` when the files are read
/// from the store `files`: one for each name that names a stored file, in
/// order, carrying that file's content.
pub open spec fn stored_records(
    topic: Seq<char>,
    key: Option<Seq<char>>,
    file_names: Seq<Seq<char>>,
    files: Map<Seq<char>, Seq<u8>>,
    from: nat,
) -> Seq<SentRecord>
    decreases file_names.len() - from,
{
    if from >= file_names.len() {
        Seq::empty()
    } else {
        let name = file_names[from as int];
        let here = if files.contains_key(file_key(name)) {
            seq![
                SentRecord {
                    topic,
                    key: match key {
                        Some(k) => k,
                        None => name,
                    },
                    payload: files[file_key(name)],
                },
            ]
        } else {
            Seq::empty()
        };
        here + stored_records(topic, key, file_names, files, (from + 1) as nat)
    }
}

/// `w` reads each named file from the store `files`, from its first byte.
pub open spec fn reads_from(w: SendWorld, file_names: Seq<Seq<char>>, files: Map<Seq<char>, Seq<u8>>) -> bool {
    forall|i: int|
        0 <= i < file_names.len() ==> match #[trigger] spec_get(files, file_names[i], 0) {
            Ok(d) => w.fetches[i] == Ok::<Seq<u8>, Seq<char>>(d),
            Err(_) => w.fetches[i] is Err,
        }
}

proof fn lemma_stored_records(
    topic: Seq<char>,
    key: Option<Seq<char>>,
    file_names: Seq<Seq<char>>,
    files: Map<Seq<char>, Seq<u8>>,
    w: SendWorld,
    from: nat,
)
    requires
        w.fetches.len() == file_names.len(),
        reads_from(w, file_names, files),
    ensures
        expected_records(topic, key, file_names, w, from) == stored_records(
            topic,
            key,
            file_names,
            files,
            from,
        ),
    decreases file_names.len() - from,
{
    if from < file_names.len() {
        lemma_stored_records(topic, key, file_names, files, w, (from + 1) as nat);
        let name = file_names[from as int];
        let g = spec_get(files, name, 0);
        if files.contains_key(file_key(name)) {
            let d = files[file_key(name)];
            assert(d.subrange(0, d.len() as int) =~= d);
            assert(w.fetches[from as int] == Ok::<Seq<u8>, Seq<char>>(d));
        } else {
            assert(w.fetches[from as int] is Err);
        }
    }
}

/// A whole `SITE SEND` whose files are read from the store `files` publishes,
/// once the broker is reached, one message per named file that is stored, in
/// order, with the command's topic, its key, and that file's stored content;
/// a name that names no stored file is reported and skipped.
pub proof fn law_send_publishes_stored_files(
    topic: Seq<char>,
    key: Option<Seq<char>>,
    file_names: Seq<Seq<char>>,
    files: Map<Seq<char>, Seq<u8>>,
    w: SendWorld,
)
    requires
        w.fetches.len() == file_names.len(),
        w.deliveries.len() == file_names.len(),
        w.connect is Ok,
        reads_from(w, file_names, files),
    ensures
        run(initial_model(topic, key, file_names), w, 2 * file_names.len() + 2).1 == stored_records(
            topic,
            key,
            file_names,
            files,
            0,
        ),
        forall|i: int|
            0 <= i < file_names.len() && !files.contains_key(file_key(file_names[i])) ==> #[trigger] run(
                initial_model(topic, key, file_names),
                w,
                2 * file_names.len() + 2,
            ).0.outcomes[i] is Err,
{
    law_send_run(topic, key, file_names, w);
    lemma_stored_records(topic, key, file_names, files, w, 0);
    assert forall|i: int|
        0 <= i < file_names.len() && !files.contains_key(file_key(file_names[i])) implies #[trigger] run(
        initial_model(topic, key, file_names),
        w,
        2 * file_names.len() + 2,
    ).0.outcomes[i] is Err by {
        assert(spec_get(files, file_names[i], 0) is Err);
    }
}

/// While files are left, the session asks to read the current file, by the
/// name the command gave it, whether or not a key was given.
pub proof fn law_fetch_names_the_current_file(m: SendModel, a: SendAction)
    requires
        m.phase is Working,
        m.outcomes.len() < m.file_names.len(),
        requested(m, a),
    ensures
        a matches SendAction::Fetch { file_name } && file_name@ == m.file_names[m.outcomes.len() as int],
{
}

/// A file that was read is published to the command's topic, under the key
/// given with `--key`, or else under the file's own name.
pub proof fn law_publish_uses_topic_and_key(m: SendModel, a: SendAction)
    requires
        m.phase is Publishing,
        requested(m, a),
    ensures
        a matches SendAction::Publish { topic, key, .. } && topic@ == m.topic && key@ == match m.key {
            Some(k) => k,
            None => m.file_names[m.outcomes.len() as int],
        },
{
}

/// The session first asks for a producer for the broker at `localhost:9092`.
pub proof fn law_connect_names_the_broker(m: SendModel, a: SendAction)
    requires
        m.phase is Connecting,
        requested(m, a),
    ensures
        a matches SendAction::Connect { brokers, .. } && brokers@ == BROKERS@,
{
}

} // verus!
