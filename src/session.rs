//! The conversation state machine. A turn starts from the session's state and
//! the user's message; whenever it needs the outside world (the completion
//! oracle, the fact store, the shell) it stops with a [`Request`] and the step
//! to resume at, and the caller hands the answer back as an [`Event`]. A turn
//! ends with the session's next state and the text to send, or with an error
//! that leaves the state as it was.
use crate::extract::{extract_tag, is_tag_name, tag_content};
use crate::intent::{classified, classify, Intent};
use crate::memory::{
    is_relevant, largest_id, next_document_id, next_id_after, search_one, search_smart,
    smart_selection, views, Document, DocumentView,
};
use crate::text::{contains, join3, lower_of, lowercase, same_text, seq_contains, trim, trimmed};
use vstd::prelude::*;
use vstd::string::*;

verus! {

/// The state of one conversation between turns.
#[derive(Clone, Debug, PartialEq, Eq)]
pub enum State {
    AwaitingPassword,
    Pending,
    ConfirmForget { info: String },
    ConfirmCommand { message: String, command: String },
}

pub enum StateView {
    AwaitingPassword,
    Pending,
    ConfirmForget { info: Seq<char> },
    ConfirmCommand { message: Seq<char>, command: Seq<char> },
}

impl View for State {
    type V = StateView;

    open spec fn view(&self) -> StateView {
        match self {
            State::AwaitingPassword => StateView::AwaitingPassword,
            State::Pending => StateView::Pending,
            State::ConfirmForget { info } => StateView::ConfirmForget { info: info@ },
            State::ConfirmCommand { message, command } => StateView::ConfirmCommand {
                message: message@,
                command: command@,
            },
        }
    }
}

/// Work that a turn needs done outside before it can go on.
#[derive(Debug, PartialEq, Eq)]
pub enum Request {
    /// Ask the completion oracle; answered by [`Event::Text`].
    Complete { system: String, user: String },
    /// Nearest-neighbour search; answered by [`Event::Documents`], best first.
    Search { query: String, limit: u64 },
    /// Every stored document; answered by [`Event::Documents`].
    ListAll,
    /// Store `text` under `id`; answered by [`Event::Done`].
    Store { id: i32, text: String },
    /// Delete the document `id`; answered by [`Event::Done`].
    Remove { id: i32 },
    /// Run a shell command; answered by [`Event::Output`] or [`Event::SpawnFailed`].
    Run { command: String },
}

pub enum RequestView {
    Complete { system: Seq<char>, user: Seq<char> },
    Search { query: Seq<char>, limit: u64 },
    ListAll,
    Store { id: i32, text: Seq<char> },
    Remove { id: i32 },
    Run { command: Seq<char> },
}

impl View for Request {
    type V = RequestView;

    open spec fn view(&self) -> RequestView {
        match self {
            Request::Complete { system, user } => RequestView::Complete {
                system: system@,
                user: user@,
            },
            Request::Search { query, limit } => RequestView::Search { query: query@, limit: *limit },
            Request::ListAll => RequestView::ListAll,
            Request::Store { id, text } => RequestView::Store { id: *id, text: text@ },
            Request::Remove { id } => RequestView::Remove { id: *id },
            Request::Run { command } => RequestView::Run { command: command@ },
        }
    }
}

/// Where a suspended turn goes on, with what it has to remember.
#[derive(Debug, PartialEq, Eq)]
pub enum Step {
    /// The oracle's classification of `message`.
    Intent { message: String },
    /// The keywords of a question.
    AnswerKeywords { message: String },
    /// The search hits that ground the answer to `message`.
    AnswerHits { message: String },
    /// The reply to send as it is.
    Reply,
    /// The stored documents, to pick an id for `message`.
    Remember { message: String },
    /// The store's acknowledgement of a new fact.
    Saved,
    /// The keywords of a request to forget.
    ForgetKeywords,
    /// The fact that a request to forget names.
    ForgetCandidate,
    /// The oracle's reading of the answer to "forget `info`?".
    ForgetConsent { info: String },
    /// The stored document that holds the fact to forget.
    ForgetTarget,
    /// The store's acknowledgement of a deletion.
    Forgotten,
    /// The command that the oracle drew up from `message`.
    CommandText { message: String },
    /// The oracle's reading of `reply`, the answer to "run `command`?".
    CommandConsent { reply: String, command: String, message: String },
    /// The outcome of running the command.
    CommandRun,
}

pub enum StepView {
    Intent { message: Seq<char> },
    AnswerKeywords { message: Seq<char> },
    AnswerHits { message: Seq<char> },
    Reply,
    Remember { message: Seq<char> },
    Saved,
    ForgetKeywords,
    ForgetCandidate,
    ForgetConsent { info: Seq<char> },
    ForgetTarget,
    Forgotten,
    CommandText { message: Seq<char> },
    CommandConsent { reply: Seq<char>, command: Seq<char>, message: Seq<char> },
    CommandRun,
}

impl View for Step {
    type V = StepView;

    open spec fn view(&self) -> StepView {
        match self {
            Step::Intent { message } => StepView::Intent { message: message@ },
            Step::AnswerKeywords { message } => StepView::AnswerKeywords { message: message@ },
            Step::AnswerHits { message } => StepView::AnswerHits { message: message@ },
            Step::Reply => StepView::Reply,
            Step::Remember { message } => StepView::Remember { message: message@ },
            Step::Saved => StepView::Saved,
            Step::ForgetKeywords => StepView::ForgetKeywords,
            Step::ForgetCandidate => StepView::ForgetCandidate,
            Step::ForgetConsent { info } => StepView::ForgetConsent { info: info@ },
            Step::ForgetTarget => StepView::ForgetTarget,
            Step::Forgotten => StepView::Forgotten,
            Step::CommandText { message } => StepView::CommandText { message: message@ },
            Step::CommandConsent { reply, command, message } => StepView::CommandConsent {
                reply: reply@,
                command: command@,
                message: message@,
            },
            Step::CommandRun => StepView::CommandRun,
        }
    }
}

/// The outside world's answer to a [`Request`].
#[derive(Debug, PartialEq, Eq)]
pub enum Event {
    Text(String),
    Documents(Vec<Document>),
    Done,
    /// What a command wrote, decoded as text.
    Output { stdout: String, stderr: String },
    /// The command could not be started; the reason as text.
    SpawnFailed(String),
}

pub enum EventView {
    Text(Seq<char>),
    Documents(Seq<DocumentView>),
    Done,
    Output { stdout: Seq<char>, stderr: Seq<char> },
    SpawnFailed(Seq<char>),
}

impl View for Event {
    type V = EventView;

    open spec fn view(&self) -> EventView {
        match self {
            Event::Text(t) => EventView::Text(t@),
            Event::Documents(ds) => EventView::Documents(views(ds@)),
            Event::Done => EventView::Done,
            Event::Output { stdout, stderr } => EventView::Output {
                stdout: stdout@,
                stderr: stderr@,
            },
            Event::SpawnFailed(e) => EventView::SpawnFailed(e@),
        }
    }
}

/// Where a turn stands: waiting on a request, finished, or failed.
#[derive(Debug, PartialEq, Eq)]
pub enum Turn {
    Ask { request: Request, then: Step },
    Finish { state: State, output: String },
    Fail { error: String },
}

pub enum TurnView {
    Ask { request: RequestView, then: StepView },
    Finish { state: StateView, output: Seq<char> },
    Fail { error: Seq<char> },
}

impl View for Turn {
    type V = TurnView;

    open spec fn view(&self) -> TurnView {
        match self {
            Turn::Ask { request, then } => TurnView::Ask { request: request@, then: then@ },
            Turn::Finish { state, output } => TurnView::Finish { state: state@, output: output@ },
            Turn::Fail { error } => TurnView::Fail { error: error@ },
        }
    }
}

/// The system instruction for classification, extraction and yes/no questions.
pub const BRIEF_SYSTEM: &'static str = "Give a short answer without explanations or details";

/// The system instruction for an answer grounded in stored facts.
pub const ANSWER_SYSTEM: &'static str =
    "You are a friendly and helpful assistant. Start answering without a greeting.";

/// The system instruction for free chat.
pub const CHAT_SYSTEM: &'static str =
    "You are a friendly and helpful assistant. Start answering without a greeting. Preferably answer in one or no more than three sentences.";

pub const MESSAGE_OPEN: &'static str = "<user_message>";

pub const CLASSIFY_TAIL: &'static str =
    "</user_message> Inside user_message there is: \n 1. a question (interrogative sentence) \n 2. affirmative information, data, facts or details \n 3. a sentence requesting to delete information from memory \n 4. a terminal command \n 5. other \n Respond with a number. ";

pub const REQUEST_OPEN: &'static str = "<user_request>";

pub const KEYWORDS_TAIL: &'static str =
    "</user_request> Extract the keywords from user_request Respond in the format <keywords>KEYWORDS</keywords> ";

pub const COMMAND_TAIL: &'static str =
    "</user_request> Based on the user_request description, I will form a Linux command for the terminal. Respond in the format <command>COMMAND</command>";

pub const CONDITION_MIDDLE: &'static str = "</user_request> Does user_request contain ";

pub const CONDITION_TAIL: &'static str =
    "? Respond in the format <response>yes</response> or <response>no</response>";

pub const CONSENT: &'static str = "consent";

pub const YES: &'static str = "yes";

pub const KEYWORDS_TAG: &'static str = "keywords";

pub const COMMAND_TAG: &'static str = "command";

pub const PARAGRAPH: &'static str = "\n\n";

pub const QUESTION_BREAK: &'static str = "\n\n ";

pub const LINE_BREAK: &'static str = "\n";

pub const PASSWORD_ACCEPTED: &'static str = "Password accepted. You may continue using the bot.";

pub const PASSWORD_REJECTED: &'static str = "Incorrect password. Please try again.";

pub const SAVED: &'static str = "Information saved.";

pub const FORGOTTEN: &'static str = "Information forgotten.";

pub const NOT_FORGOTTEN: &'static str = "Information not forgotten.";

pub const FORGET_OPEN: &'static str = "'";

pub const FORGET_TAIL: &'static str = "' Forget this information?";

pub const RUN_OPEN: &'static str = "Run command \"";

pub const RUN_TAIL: &'static str = "\"?";

pub const NOT_RUN: &'static str = "Command not executed.";

pub const OUTPUT_OPEN: &'static str = "Command execution result\n```\n";

pub const ERRORS_OPEN: &'static str = "Errors during command execution\n```\n";

pub const FENCE_CLOSE: &'static str = "\n```";

pub const SPAWN_OPEN: &'static str = "Error executing command: ";

pub const NO_DOCUMENTS: &'static str = "No documents found";

pub const NO_FREE_ID: &'static str = "No document id is left";

pub const UNEXPECTED: &'static str = "The answer does not fit the request";

/// A reply of more characters than this that does not consent to a proposed
/// command corrects it rather than refusing it.
pub const REFUSAL_MAX_LEN: usize = 7;

pub open spec fn ask(request: RequestView, then: StepView) -> TurnView {
    TurnView::Ask { request, then }
}

pub open spec fn finish(state: StateView, output: Seq<char>) -> TurnView {
    TurnView::Finish { state, output }
}

pub open spec fn fail(error: Seq<char>) -> TurnView {
    TurnView::Fail { error }
}

pub open spec fn complete(system: Seq<char>, user: Seq<char>) -> RequestView {
    RequestView::Complete { system, user }
}

pub open spec fn classify_prompt(message: Seq<char>) -> Seq<char> {
    MESSAGE_OPEN@ + message + CLASSIFY_TAIL@
}

pub open spec fn keywords_prompt(message: Seq<char>) -> Seq<char> {
    REQUEST_OPEN@ + message + KEYWORDS_TAIL@
}

pub open spec fn command_prompt(message: Seq<char>) -> Seq<char> {
    REQUEST_OPEN@ + message + COMMAND_TAIL@
}

pub open spec fn condition_prompt(message: Seq<char>, condition: Seq<char>) -> Seq<char> {
    REQUEST_OPEN@ + message + CONDITION_MIDDLE@ + condition + CONDITION_TAIL@
}

/// The yes/no question whether `message` holds `condition`.
pub open spec fn condition_request(message: Seq<char>, condition: Seq<char>) -> RequestView {
    complete(BRIEF_SYSTEM@, condition_prompt(message, condition))
}

/// An oracle reply says yes when its lowercase form contains "yes".
pub open spec fn says_yes(reply: Seq<char>) -> bool {
    seq_contains(lower_of(reply), YES@)
}

/// The texts of `docs`, a blank line between each two.
pub open spec fn joined_texts(docs: Seq<DocumentView>) -> Seq<char>
    decreases docs.len(),
{
    if docs.len() == 0 {
        Seq::empty()
    } else if docs.len() == 1 {
        docs[0].text
    } else {
        joined_texts(docs.drop_last()) + PARAGRAPH@ + docs.last().text
    }
}

/// The prompt that answers `message` from the grounding documents.
pub open spec fn grounded_prompt(docs: Seq<DocumentView>, message: Seq<char>) -> Seq<char> {
    joined_texts(docs) + QUESTION_BREAK@ + message
}

pub open spec fn pending_turn(message: Seq<char>) -> TurnView {
    ask(complete(BRIEF_SYSTEM@, classify_prompt(message)), StepView::Intent { message })
}

pub open spec fn answer_turn(message: Seq<char>) -> TurnView {
    ask(complete(BRIEF_SYSTEM@, keywords_prompt(message)), StepView::AnswerKeywords { message })
}

pub open spec fn chat_turn(message: Seq<char>) -> TurnView {
    ask(complete(CHAT_SYSTEM@, message), StepView::Reply)
}

pub open spec fn remember_turn(message: Seq<char>) -> TurnView {
    ask(RequestView::ListAll, StepView::Remember { message })
}

pub open spec fn forget_turn(message: Seq<char>) -> TurnView {
    ask(complete(BRIEF_SYSTEM@, keywords_prompt(message)), StepView::ForgetKeywords)
}

pub open spec fn forget_confirm_turn(reply: Seq<char>, info: Seq<char>) -> TurnView {
    ask(condition_request(reply, CONSENT@), StepView::ForgetConsent { info })
}

pub open spec fn command_turn(message: Seq<char>) -> TurnView {
    ask(complete(BRIEF_SYSTEM@, command_prompt(message)), StepView::CommandText { message })
}

pub open spec fn command_confirm_turn(
    reply: Seq<char>,
    command: Seq<char>,
    message: Seq<char>,
) -> TurnView {
    ask(condition_request(reply, YES@), StepView::CommandConsent { reply, command, message })
}

/// Where a classified message is routed.
pub open spec fn intent_turn(intent: Intent, message: Seq<char>) -> TurnView {
    match intent {
        Intent::Question => answer_turn(message),
        Intent::Fact => remember_turn(message),
        Intent::ForgetRequest => forget_turn(message),
        Intent::CommandRequest => command_turn(message),
        Intent::Other => chat_turn(message),
    }
}

/// How a turn starts, from the session's state and the user's message.
pub open spec fn start_turn(state: StateView, input: Seq<char>, secret: Seq<char>) -> TurnView {
    match state {
        StateView::AwaitingPassword => password_turn(trim(input), secret),
        StateView::Pending => pending_turn(input),
        StateView::ConfirmForget { info } => forget_confirm_turn(input, info),
        StateView::ConfirmCommand { message, command } => command_confirm_turn(
            input,
            command,
            message,
        ),
    }
}

/// How a suspended turn goes on once its request is answered. An answer of
/// the wrong kind fails the turn.
pub open spec fn resume_turn(step: StepView, event: EventView) -> TurnView {
    match (step, event) {
        (StepView::Intent { message }, EventView::Text(reply)) => intent_turn(
            classified(reply),
            message,
        ),
        (StepView::AnswerKeywords { message }, EventView::Text(reply)) => ask(
            RequestView::Search { query: tag_content(reply, KEYWORDS_TAG@), limit: 3 },
            StepView::AnswerHits { message },
        ),
        (StepView::AnswerHits { message }, EventView::Documents(found)) => ask(
            complete(ANSWER_SYSTEM@, grounded_prompt(smart_selection(found), message)),
            StepView::Reply,
        ),
        (StepView::Reply, EventView::Text(reply)) => finish(StateView::Pending, reply),
        (StepView::Remember { message }, EventView::Documents(stored)) => match next_id_after(
            largest_id(stored),
        ) {
            Some(id) => ask(RequestView::Store { id: id as i32, text: message }, StepView::Saved),
            None => fail(NO_FREE_ID@),
        },
        (StepView::Saved, EventView::Done) => finish(StateView::Pending, SAVED@),
        (StepView::ForgetKeywords, EventView::Text(reply)) => ask(
            RequestView::Search { query: tag_content(reply, KEYWORDS_TAG@), limit: 1 },
            StepView::ForgetCandidate,
        ),
        (StepView::ForgetCandidate, EventView::Documents(found)) => if found.len() == 0 {
            fail(NO_DOCUMENTS@)
        } else {
            finish(
                StateView::ConfirmForget { info: found[0].text },
                FORGET_OPEN@ + found[0].text + FORGET_TAIL@,
            )
        },
        (StepView::ForgetConsent { info }, EventView::Text(reply)) => if says_yes(reply) {
            ask(RequestView::Search { query: info, limit: 1 }, StepView::ForgetTarget)
        } else {
            finish(StateView::Pending, NOT_FORGOTTEN@)
        },
        (StepView::ForgetTarget, EventView::Documents(found)) => if found.len() == 0 {
            fail(NO_DOCUMENTS@)
        } else {
            ask(RequestView::Remove { id: found[0].id }, StepView::Forgotten)
        },
        (StepView::Forgotten, EventView::Done) => finish(StateView::Pending, FORGOTTEN@),
        (StepView::CommandText { message }, EventView::Text(reply)) => {
            let command = tag_content(reply, COMMAND_TAG@);
            finish(
                StateView::ConfirmCommand { message, command },
                RUN_OPEN@ + command + RUN_TAIL@,
            )
        },
        (
            StepView::CommandConsent { reply, command, message },
            EventView::Text(verdict),
        ) => if says_yes(verdict) {
            ask(RequestView::Run { command }, StepView::CommandRun)
        } else if reply.len() > REFUSAL_MAX_LEN {
            command_turn(message + LINE_BREAK@ + reply)
        } else {
            finish(StateView::Pending, NOT_RUN@)
        },
        (StepView::CommandRun, EventView::Output { stdout, stderr }) => finish(
            StateView::Pending,
            if stderr.len() == 0 {
                OUTPUT_OPEN@ + stdout + FENCE_CLOSE@
            } else {
                ERRORS_OPEN@ + stderr + FENCE_CLOSE@
            },
        ),
        (StepView::CommandRun, EventView::SpawnFailed(reason)) => finish(
            StateView::Pending,
            SPAWN_OPEN@ + reason,
        ),
        _ => fail(UNEXPECTED@),
    }
}

/// The first turn of a session: the trimmed message must be the shared secret.
pub open spec fn password_turn(trimmed_input: Seq<char>, secret: Seq<char>) -> TurnView {
    if trimmed_input == secret {
        TurnView::Finish { state: StateView::Pending, output: PASSWORD_ACCEPTED@ }
    } else {
        TurnView::Finish { state: StateView::AwaitingPassword, output: PASSWORD_REJECTED@ }
    }
}

impl State {
    /// Decides a password attempt that has already been trimmed.
    pub fn password_verdict(trimmed_input: &str, secret: &str) -> (t: Turn)
        ensures
            t@ == password_turn(trimmed_input@, secret@),
    {
        if same_text(trimmed_input, secret) {
            Turn::Finish { state: State::Pending, output: String::from_str(PASSWORD_ACCEPTED) }
        } else {
            Turn::Finish {
                state: State::AwaitingPassword,
                output: String::from_str(PASSWORD_REJECTED),
            }
        }
    }

    /// A message while the session waits for the password.
    pub fn process_password(input: &str, secret: &str) -> (t: Turn)
        ensures
            t@ == password_turn(trim(input@), secret@),
    {
        State::password_verdict(trimmed(input), secret)
    }
}

proof fn lemma_tag_names()
    ensures
        is_tag_name(KEYWORDS_TAG@),
        is_tag_name(COMMAND_TAG@),
{
    reveal_strlit("keywords");
    reveal_strlit("command");
}

/// Whether the oracle's reply to a yes/no question says yes.
pub fn is_affirmative(reply: &str) -> (r: bool)
    ensures
        r == says_yes(reply@),
{
    let lowered = lowercase(reply);
    contains(lowered.as_str(), YES)
}

/// The texts of `docs`, a blank line between each two.
pub fn join_texts(docs: &Vec<Document>) -> (r: String)
    ensures
        r@ == joined_texts(views(docs@)),
{
    let ghost all = views(docs@);
    let mut out = String::new();
    let mut i: usize = 0;
    while i < docs.len()
        invariant
            all == views(docs@),
            i <= docs@.len(),
            out@ == joined_texts(all.subrange(0, i as int)),
        decreases docs@.len() - i,
    {
        proof {
            let ds = all.subrange(0, i as int + 1);
            assert(ds.drop_last() =~= all.subrange(0, i as int));
            assert(ds.last() == docs@[i as int]@);
        }
        if i > 0 {
            out.append(PARAGRAPH);
        }
        out.append(docs[i].text.as_str());
        i = i + 1;
    }
    assert(all.subrange(0, docs@.len() as int) =~= all);
    out
}

fn brief_request(user: String) -> (r: Request)
    ensures
        r@ == complete(BRIEF_SYSTEM@, user@),
{
    Request::Complete { system: String::from_str(BRIEF_SYSTEM), user }
}

impl State {
    /// Starts a turn: what the session does with `input` in `state`. `secret`
    /// is the shared password that opens the session.
    pub fn process(input: &str, state: &State, secret: &str) -> (t: Turn)
        ensures
            t@ == start_turn(state@, input@, secret@),
    {
        match state {
            State::AwaitingPassword => State::process_password(input, secret),
            State::Pending => State::exec_pending(input),
            State::ConfirmForget { info } => State::exec_forget(input, info.as_str()),
            State::ConfirmCommand { message, command } => State::exec_confirm_command(
                input,
                command.as_str(),
                message.as_str(),
            ),
        }
    }

    /// A new message in the steady state: ask the oracle what it is.
    pub fn exec_pending(message: &str) -> (t: Turn)
        ensures
            t@ == pending_turn(message@),
    {
        Turn::Ask {
            request: brief_request(join3(MESSAGE_OPEN, message, CLASSIFY_TAIL)),
            then: Step::Intent { message: String::from_str(message) },
        }
    }

    /// Routes a classified message to its handler.
    pub fn route(intent: Intent, message: &str) -> (t: Turn)
        ensures
            t@ == intent_turn(intent, message@),
    {
        match intent {
            Intent::Question => State::exec_answer(message),
            Intent::Fact => State::exec_remember(message),
            Intent::ForgetRequest => State::new_forget(message),
            Intent::CommandRequest => State::new_command(message),
            Intent::Other => State::exec_chat(message),
        }
    }

    /// A question: first have the oracle pick out its keywords.
    pub fn exec_answer(message: &str) -> (t: Turn)
        ensures
            t@ == answer_turn(message@),
    {
        Turn::Ask {
            request: brief_request(join3(REQUEST_OPEN, message, KEYWORDS_TAIL)),
            then: Step::AnswerKeywords { message: String::from_str(message) },
        }
    }

    /// Free chat: the oracle's reply is the answer.
    pub fn exec_chat(message: &str) -> (t: Turn)
        ensures
            t@ == chat_turn(message@),
    {
        Turn::Ask {
            request: Request::Complete {
                system: String::from_str(CHAT_SYSTEM),
                user: String::from_str(message),
            },
            then: Step::Reply,
        }
    }

    /// A fact: list the store to find the next id, then store the message verbatim.
    pub fn exec_remember(message: &str) -> (t: Turn)
        ensures
            t@ == remember_turn(message@),
    {
        Turn::Ask { request: Request::ListAll, then: Step::Remember { message: String::from_str(message) } }
    }

    /// A request to forget: find its keywords, then the closest stored fact.
    pub fn new_forget(message: &str) -> (t: Turn)
        ensures
            t@ == forget_turn(message@),
    {
        Turn::Ask {
            request: brief_request(join3(REQUEST_OPEN, message, KEYWORDS_TAIL)),
            then: Step::ForgetKeywords,
        }
    }

    /// The answer to "forget `info`?": ask the oracle whether it consents.
    pub fn exec_forget(message: &str, info: &str) -> (t: Turn)
        ensures
            t@ == forget_confirm_turn(message@, info@),
    {
        Turn::Ask {
            request: State::is_condition(message, CONSENT),
            then: Step::ForgetConsent { info: String::from_str(info) },
        }
    }

    /// A command request: have the oracle draw up the command.
    pub fn new_command(message: &str) -> (t: Turn)
        ensures
            t@ == command_turn(message@),
    {
        Turn::Ask {
            request: brief_request(join3(REQUEST_OPEN, message, COMMAND_TAIL)),
            then: Step::CommandText { message: String::from_str(message) },
        }
    }

    /// The answer to "run `command`?", proposed for `priv_message`: ask the
    /// oracle whether it says yes.
    pub fn exec_confirm_command(message: &str, command: &str, priv_message: &str) -> (t: Turn)
        ensures
            t@ == command_confirm_turn(message@, command@, priv_message@),
    {
        Turn::Ask {
            request: State::is_condition(message, YES),
            then: Step::CommandConsent {
                reply: String::from_str(message),
                command: String::from_str(command),
                message: String::from_str(priv_message),
            },
        }
    }

    /// The yes/no question whether `message` holds `condition`; read the
    /// oracle's reply with [`is_affirmative`].
    pub fn is_condition(message: &str, condition: &str) -> (r: Request)
        ensures
            r@ == condition_request(message@, condition@),
    {
        let mut user = join3(REQUEST_OPEN, message, CONDITION_MIDDLE);
        user.append(condition);
        user.append(CONDITION_TAIL);
        brief_request(user)
    }

    /// Goes on with a suspended turn, given the answer to its request.
    pub fn resume(step: Step, event: Event) -> (t: Turn)
        ensures
            t@ == resume_turn(step@, event@),
    {
        proof {
            lemma_tag_names();
        }
        match (step, event) {
            (Step::Intent { message }, Event::Text(reply)) => State::route(
                classify(reply.as_str()),
                message.as_str(),
            ),
            (Step::AnswerKeywords { message }, Event::Text(reply)) => Turn::Ask {
                request: Request::Search { query: extract_tag(reply.as_str(), KEYWORDS_TAG), limit: 3 },
                then: Step::AnswerHits { message },
            },
            (Step::AnswerHits { message }, Event::Documents(found)) => {
                let chosen = search_smart(&found);
                let mut user = join_texts(&chosen);
                user.append(QUESTION_BREAK);
                user.append(message.as_str());
                Turn::Ask {
                    request: Request::Complete { system: String::from_str(ANSWER_SYSTEM), user },
                    then: Step::Reply,
                }
            },
            (Step::Reply, Event::Text(reply)) => Turn::Finish { state: State::Pending, output: reply },
            (Step::Remember { message }, Event::Documents(stored)) => match next_document_id(
                &stored,
            ) {
                Some(id) => Turn::Ask { request: Request::Store { id, text: message }, then: Step::Saved },
                None => Turn::Fail { error: String::from_str(NO_FREE_ID) },
            },
            (Step::Saved, Event::Done) => Turn::Finish {
                state: State::Pending,
                output: String::from_str(SAVED),
            },
            (Step::ForgetKeywords, Event::Text(reply)) => Turn::Ask {
                request: Request::Search { query: extract_tag(reply.as_str(), KEYWORDS_TAG), limit: 1 },
                then: Step::ForgetCandidate,
            },
            (Step::ForgetCandidate, Event::Documents(found)) => match search_one(&found) {
                Some(doc) => {
                    let output = join3(FORGET_OPEN, doc.text.as_str(), FORGET_TAIL);
                    Turn::Finish { state: State::ConfirmForget { info: doc.text }, output }
                },
                None => Turn::Fail { error: String::from_str(NO_DOCUMENTS) },
            },
            (Step::ForgetConsent { info }, Event::Text(reply)) => {
                if is_affirmative(reply.as_str()) {
                    Turn::Ask { request: Request::Search { query: info, limit: 1 }, then: Step::ForgetTarget }
                } else {
                    Turn::Finish { state: State::Pending, output: String::from_str(NOT_FORGOTTEN) }
                }
            },
            (Step::ForgetTarget, Event::Documents(found)) => match search_one(&found) {
                Some(doc) => Turn::Ask {
                    request: Request::Remove { id: doc.id },
                    then: Step::Forgotten,
                },
                None => Turn::Fail { error: String::from_str(NO_DOCUMENTS) },
            },
            (Step::Forgotten, Event::Done) => Turn::Finish {
                state: State::Pending,
                output: String::from_str(FORGOTTEN),
            },
            (Step::CommandText { message }, Event::Text(reply)) => {
                let command = extract_tag(reply.as_str(), COMMAND_TAG);
                let output = join3(RUN_OPEN, command.as_str(), RUN_TAIL);
                Turn::Finish { state: State::ConfirmCommand { message, command }, output }
            },
            (Step::CommandConsent { reply, command, message }, Event::Text(verdict)) => {
                if is_affirmative(verdict.as_str()) {
                    Turn::Ask { request: Request::Run { command }, then: Step::CommandRun }
                } else if reply.as_str().unicode_len() > REFUSAL_MAX_LEN {
                    let refined = join3(message.as_str(), LINE_BREAK, reply.as_str());
                    State::new_command(refined.as_str())
                } else {
                    Turn::Finish { state: State::Pending, output: String::from_str(NOT_RUN) }
                }
            },
            (Step::CommandRun, Event::Output { stdout, stderr }) => {
                let output = if stderr.as_str().unicode_len() == 0 {
                    join3(OUTPUT_OPEN, stdout.as_str(), FENCE_CLOSE)
                } else {
                    join3(ERRORS_OPEN, stderr.as_str(), FENCE_CLOSE)
                };
                Turn::Finish { state: State::Pending, output }
            },
            (Step::CommandRun, Event::SpawnFailed(reason)) => {
                let mut output = String::from_str(SPAWN_OPEN);
                output.append(reason.as_str());
                Turn::Finish { state: State::Pending, output }
            },
            _ => Turn::Fail { error: String::from_str(UNEXPECTED) },
        }
    }
}


/// Answering a proposed command: the oracle is asked whether the reply says
/// yes. When it does not, a reply of more than seven characters refines the
/// command: a new one is drawn up from the original request and the reply on a
/// new line, and the session waits to confirm that one. A shorter reply
/// cancels back to `Pending`.
pub proof fn lemma_command_refine_or_refuse(
    message: Seq<char>,
    command: Seq<char>,
    reply: Seq<char>,
    verdict: Seq<char>,
    drafted: Seq<char>,
    secret: Seq<char>,
)
    requires
        !says_yes(verdict),
    ensures
        start_turn(StateView::ConfirmCommand { message, command }, reply, secret) == ask(
            condition_request(reply, YES@),
            StepView::CommandConsent { reply, command, message },
        ),
        reply.len() > 7 ==> {
            let refined = message + LINE_BREAK@ + reply;
            &&& resume_turn(
                StepView::CommandConsent { reply, command, message },
                EventView::Text(verdict),
            ) == ask(
                complete(BRIEF_SYSTEM@, command_prompt(refined)),
                StepView::CommandText { message: refined },
            )
            &&& resume_turn(StepView::CommandText { message: refined }, EventView::Text(drafted))
                == finish(
                StateView::ConfirmCommand {
                    message: refined,
                    command: tag_content(drafted, COMMAND_TAG@),
                },
                RUN_OPEN@ + tag_content(drafted, COMMAND_TAG@) + RUN_TAIL@,
            )
        },
        reply.len() <= 7 ==> resume_turn(
            StepView::CommandConsent { reply, command, message },
            EventView::Text(verdict),
        ) == finish(StateView::Pending, NOT_RUN@),
{
}

/// A session opens only on the shared secret: a message whose trimmed text
/// is the secret moves it to `Pending`, any other keeps it waiting.
pub proof fn lemma_password_gate(input: Seq<char>, secret: Seq<char>)
    ensures
        trim(input) == secret ==> start_turn(StateView::AwaitingPassword, input, secret)
            == finish(StateView::Pending, PASSWORD_ACCEPTED@),
        trim(input) != secret ==> start_turn(StateView::AwaitingPassword, input, secret)
            == finish(StateView::AwaitingPassword, PASSWORD_REJECTED@),
{
}

/// A message that the oracle classifies as a fact is stored verbatim under
/// one past the largest stored id, and the turn ends in `Pending` with a
/// fixed confirmation.
pub proof fn lemma_fact_is_stored(
    message: Seq<char>,
    classification: Seq<char>,
    stored: Seq<DocumentView>,
    secret: Seq<char>,
)
    requires
        classified(classification) == Intent::Fact,
        largest_id(stored) < i32::MAX,
    ensures
        start_turn(StateView::Pending, message, secret) == ask(
            complete(BRIEF_SYSTEM@, classify_prompt(message)),
            StepView::Intent { message },
        ),
        resume_turn(StepView::Intent { message }, EventView::Text(classification)) == ask(
            RequestView::ListAll,
            StepView::Remember { message },
        ),
        resume_turn(StepView::Remember { message }, EventView::Documents(stored)) == ask(
            RequestView::Store { id: (largest_id(stored) + 1) as i32, text: message },
            StepView::Saved,
        ),
        resume_turn(StepView::Saved, EventView::Done) == finish(StateView::Pending, SAVED@),
{
}

proof fn lemma_joined_texts_starts_with_first(docs: Seq<DocumentView>)
    requires
        docs.len() > 0,
    ensures
        joined_texts(docs).len() >= docs[0].text.len(),
        joined_texts(docs).subrange(0, docs[0].text.len() as int) == docs[0].text,
    decreases docs.len(),
{
    if docs.len() == 1 {
        assert(docs[0].text.subrange(0, docs[0].text.len() as int) =~= docs[0].text);
    } else {
        let rest = docs.drop_last();
        lemma_joined_texts_starts_with_first(rest);
        let whole = joined_texts(rest) + PARAGRAPH@ + docs.last().text;
        assert(whole.subrange(0, docs[0].text.len() as int) =~= joined_texts(rest).subrange(
            0,
            docs[0].text.len() as int,
        ));
    }
}

proof fn lemma_filter_keeps_first(s: Seq<DocumentView>, pred: spec_fn(DocumentView) -> bool)
    requires
        s.len() > 0,
        pred(s[0]),
    ensures
        s.filter(pred).len() > 0,
        s.filter(pred)[0] == s[0],
    decreases s.len(),
{
    reveal(Seq::filter);
    if s.len() == 1 {
        assert(s.drop_last() =~= Seq::<DocumentView>::empty());
        assert(s.drop_last().filter(pred) =~= Seq::<DocumentView>::empty());
    } else {
        lemma_filter_keeps_first(s.drop_last(), pred);
    }
}

/// A message that the oracle classifies as a question is answered from the
/// store: its keywords are searched for, and when the top hit scores above
/// the threshold, or no hit does, its text stands at the head of the prompt
/// that the oracle answers the question from.
pub proof fn lemma_question_is_grounded(
    message: Seq<char>,
    classification: Seq<char>,
    keywords: Seq<char>,
    found: Seq<DocumentView>,
)
    requires
        classified(classification) == Intent::Question,
        found.len() > 0,
        is_relevant(found[0]) || found.filter(
            |d: DocumentView| is_relevant(d),
        ).len() == 0,
    ensures
        resume_turn(StepView::Intent { message }, EventView::Text(classification)) == ask(
            complete(BRIEF_SYSTEM@, keywords_prompt(message)),
            StepView::AnswerKeywords { message },
        ),
        resume_turn(StepView::AnswerKeywords { message }, EventView::Text(keywords)) == ask(
            RequestView::Search { query: tag_content(keywords, KEYWORDS_TAG@), limit: 3 },
            StepView::AnswerHits { message },
        ),
        ({
            let prompt = grounded_prompt(smart_selection(found), message);
            &&& resume_turn(StepView::AnswerHits { message }, EventView::Documents(found)) == ask(
                complete(ANSWER_SYSTEM@, prompt),
                StepView::Reply,
            )
            &&& prompt.len() >= found[0].text.len()
            &&& prompt.subrange(0, found[0].text.len() as int) == found[0].text
        }),
{
    let pred = |d: DocumentView| is_relevant(d);
    let chosen = smart_selection(found);
    if is_relevant(found[0]) {
        lemma_filter_keeps_first(found, pred);
    }
    assert(chosen.len() > 0 && chosen[0] == found[0]);
    lemma_joined_texts_starts_with_first(chosen);
    let prompt = grounded_prompt(chosen, message);
    assert(prompt.subrange(0, found[0].text.len() as int) =~= joined_texts(chosen).subrange(
        0,
        found[0].text.len() as int,
    ));
}

} // verus!
