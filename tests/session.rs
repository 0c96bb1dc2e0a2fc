use memobot::memory::Document;
use memobot::session::{
    is_affirmative, join_texts, Event, Request, State, Step, Turn, ANSWER_SYSTEM, BRIEF_SYSTEM,
    CHAT_SYSTEM,
};

const SECRET: &str = "opensesame";

fn asked(t: Turn) -> (Request, Step) {
    match t {
        Turn::Ask { request, then } => (request, then),
        other => panic!("expected a request, got {:?}", other),
    }
}

fn finished(t: Turn) -> (State, String) {
    match t {
        Turn::Finish { state, output } => (state, output),
        other => panic!("expected the end of the turn, got {:?}", other),
    }
}

fn brief(user: &str) -> Request {
    Request::Complete { system: BRIEF_SYSTEM.to_string(), user: user.to_string() }
}

fn text(s: &str) -> Event {
    Event::Text(s.to_string())
}

fn doc(id: i32, text: &str, score: f32) -> Document {
    Document::new(id, text.to_string(), score.to_bits())
}

fn classification_prompt(message: &str) -> String {
    format!(
        "<user_message>{}</user_message> Inside user_message there is: \n \
        1. a question (interrogative sentence) \n \
        2. affirmative information, data, facts or details \n \
        3. a sentence requesting to delete information from memory \n \
        4. a terminal command \n \
        5. other \n \
        Respond with a number. ",
        message
    )
}

fn keywords_prompt(message: &str) -> String {
    format!(
        "<user_request>{}</user_request> Extract the keywords from user_request \
         Respond in the format <keywords>KEYWORDS</keywords> ",
        message
    )
}

fn command_prompt(message: &str) -> String {
    format!(
        "<user_request>{}</user_request> Based on the user_request description, I will form a Linux command for the terminal. \
             Respond in the format <command>COMMAND</command>",
        message
    )
}

fn condition_prompt(message: &str, condition: &str) -> String {
    format!(
        "<user_request>{}</user_request> Does user_request contain {}? \
         Respond in the format <response>yes</response> or <response>no</response>",
        message, condition
    )
}

#[test]
fn wrong_password_keeps_the_session_closed() {
    let (state, output) = finished(State::process("guess", &State::AwaitingPassword, SECRET));
    assert_eq!(state, State::AwaitingPassword);
    assert_eq!(output, "Incorrect password. Please try again.");
}

#[test]
fn password_is_compared_after_trimming() {
    let (state, output) =
        finished(State::process("  opensesame \n", &State::AwaitingPassword, SECRET));
    assert_eq!(state, State::Pending);
    assert_eq!(output, "Password accepted. You may continue using the bot.");
    let (state, _) = finished(State::process_password("open sesame", SECRET));
    assert_eq!(state, State::AwaitingPassword);
}

#[test]
fn affirmative_replies_are_read_case_insensitively() {
    assert!(is_affirmative("<response>YES</response>"));
    assert!(is_affirmative("Yes."));
    assert!(!is_affirmative("<response>no</response>"));
    assert!(!is_affirmative(""));
}

#[test]
fn grounding_texts_are_joined_by_blank_lines() {
    assert_eq!(join_texts(&vec![doc(1, "a", 0.0), doc(2, "b", 0.0)]), "a\n\nb");
    assert_eq!(join_texts(&vec![]), "");
}

#[test]
fn end_to_end_fact_then_question() {
    let mut store: Vec<Document> = Vec::new();

    let (state, _) = finished(State::process("wrong", &State::AwaitingPassword, SECRET));
    assert_eq!(state, State::AwaitingPassword);
    let (state, _) = finished(State::process(SECRET, &state, SECRET));
    assert_eq!(state, State::Pending);

    let fact = "the password is 1234";
    let (request, step) = asked(State::process(fact, &state, SECRET));
    assert_eq!(request, brief(&classification_prompt(fact)));
    let (request, step) = asked(State::resume(step, text("2")));
    assert_eq!(request, Request::ListAll);
    let (request, step) = asked(State::resume(step, Event::Documents(store.clone())));
    assert_eq!(request, Request::Store { id: 1, text: fact.to_string() });
    store.push(doc(1, fact, 0.0));
    let (state, output) = finished(State::resume(step, Event::Done));
    assert_eq!(state, State::Pending);
    assert_eq!(output, "Information saved.");

    let question = "what is the password?";
    let (_, step) = asked(State::process(question, &state, SECRET));
    let (request, step) = asked(State::resume(step, text("1")));
    assert_eq!(request, brief(&keywords_prompt(question)));
    let (request, step) =
        asked(State::resume(step, text("<keywords>password</keywords>")));
    assert_eq!(request, Request::Search { query: "password".to_string(), limit: 3 });
    let hits = vec![doc(1, &store[0].text, 0.83)];
    let (request, step) = asked(State::resume(step, Event::Documents(hits)));
    assert_eq!(
        request,
        Request::Complete {
            system: ANSWER_SYSTEM.to_string(),
            user: "the password is 1234\n\n what is the password?".to_string(),
        }
    );
    let (state, output) = finished(State::resume(step, text("It is 1234.")));
    assert_eq!(state, State::Pending);
    assert_eq!(output, "It is 1234.");
}

#[test]
fn question_grounds_on_relevant_hits_only() {
    let (_, step) = asked(State::exec_answer("q"));
    let (_, step) = asked(State::resume(step, text("<keywords>k</keywords>")));
    let hits = vec![doc(1, "a", 0.9), doc(2, "b", 0.7), doc(3, "c", 0.2)];
    let (request, _) = asked(State::resume(step, Event::Documents(hits)));
    assert_eq!(
        request,
        Request::Complete { system: ANSWER_SYSTEM.to_string(), user: "a\n\nb\n\n q".to_string() }
    );
}

#[test]
fn question_without_hits_is_answered_ungrounded() {
    let (_, step) = asked(State::exec_answer("q"));
    let (_, step) = asked(State::resume(step, text("nothing tagged")));
    let (request, _) = asked(State::resume(step, Event::Documents(vec![])));
    assert_eq!(
        request,
        Request::Complete { system: ANSWER_SYSTEM.to_string(), user: "\n\n q".to_string() }
    );
}

#[test]
fn unclassified_message_is_chat() {
    let (_, step) = asked(State::process("hello there", &State::Pending, SECRET));
    let (request, step) = asked(State::resume(step, text("I think 5")));
    assert_eq!(
        request,
        Request::Complete { system: CHAT_SYSTEM.to_string(), user: "hello there".to_string() }
    );
    let (state, output) = finished(State::resume(step, text("Hi!")));
    assert_eq!((state, output.as_str()), (State::Pending, "Hi!"));
}

#[test]
fn forgetting_asks_first_then_deletes() {
    let (_, step) = asked(State::process("forget about my cat", &State::Pending, SECRET));
    let (request, step) = asked(State::resume(step, text("3")));
    assert_eq!(request, brief(&keywords_prompt("forget about my cat")));
    let (request, step) = asked(State::resume(step, text("<keywords>cat</keywords>")));
    assert_eq!(request, Request::Search { query: "cat".to_string(), limit: 1 });
    let (state, output) =
        finished(State::resume(step, Event::Documents(vec![doc(4, "my cat is Tom", 0.7)])));
    assert_eq!(state, State::ConfirmForget { info: "my cat is Tom".to_string() });
    assert_eq!(output, "'my cat is Tom' Forget this information?");

    let (request, step) = asked(State::process("yes, forget it", &state, SECRET));
    assert_eq!(request, brief(&condition_prompt("yes, forget it", "consent")));
    let (request, step) = asked(State::resume(step, text("<response>Yes</response>")));
    assert_eq!(request, Request::Search { query: "my cat is Tom".to_string(), limit: 1 });
    let (request, step) =
        asked(State::resume(step, Event::Documents(vec![doc(4, "my cat is Tom", 0.99)])));
    assert_eq!(request, Request::Remove { id: 4 });
    let (state, output) = finished(State::resume(step, Event::Done));
    assert_eq!((state, output.as_str()), (State::Pending, "Information forgotten."));
}

#[test]
fn refused_forgetting_keeps_the_fact() {
    let state = State::ConfirmForget { info: "x".to_string() };
    let (_, step) = asked(State::process("no", &state, SECRET));
    let (state, output) = finished(State::resume(step, text("<response>no</response>")));
    assert_eq!((state, output.as_str()), (State::Pending, "Information not forgotten."));
}

#[test]
fn forgetting_with_nothing_stored_fails() {
    let (_, step) = asked(State::new_forget("forget it"));
    let (_, step) = asked(State::resume(step, text("<keywords>it</keywords>")));
    let turn = State::resume(step, Event::Documents(vec![]));
    assert_eq!(turn, Turn::Fail { error: "No documents found".to_string() });
}

#[test]
fn command_is_proposed_for_confirmation() {
    let (_, step) = asked(State::process("list my files", &State::Pending, SECRET));
    let (request, step) = asked(State::resume(step, text("4")));
    assert_eq!(request, brief(&command_prompt("list my files")));
    let (state, output) = finished(State::resume(step, text("<command>ls ~</command>")));
    assert_eq!(
        state,
        State::ConfirmCommand { message: "list my files".to_string(), command: "ls ~".to_string() }
    );
    assert_eq!(output, "Run command \"ls ~\"?");
}

fn confirming() -> State {
    State::ConfirmCommand { message: "list files".to_string(), command: "ls".to_string() }
}

#[test]
fn long_non_affirmative_reply_refines_the_command() {
    let (request, step) = asked(State::process("use ls -la instead", &confirming(), SECRET));
    assert_eq!(request, brief(&condition_prompt("use ls -la instead", "yes")));
    let (request, step) = asked(State::resume(step, text("<response>no</response>")));
    assert_eq!(request, brief(&command_prompt("list files\nuse ls -la instead")));
    let (state, output) = finished(State::resume(step, text("<command>ls -la</command>")));
    assert_eq!(
        state,
        State::ConfirmCommand {
            message: "list files\nuse ls -la instead".to_string(),
            command: "ls -la".to_string()
        }
    );
    assert_eq!(output, "Run command \"ls -la\"?");
}

#[test]
fn short_non_affirmative_reply_cancels_the_command() {
    for reply in ["no", "nope no", "нет нет"] {
        let (_, step) = asked(State::process(reply, &confirming(), SECRET));
        let (state, output) = finished(State::resume(step, text("<response>no</response>")));
        assert_eq!((state, output.as_str()), (State::Pending, "Command not executed."));
    }
    let (_, step) = asked(State::process("nope, no", &confirming(), SECRET));
    let (request, _) = asked(State::resume(step, text("no")));
    assert_eq!(request, brief(&command_prompt("list files\nnope, no")));
}

#[test]
fn affirmed_command_is_run_and_its_output_relayed() {
    let (_, step) = asked(State::process("yes", &confirming(), SECRET));
    let (request, step) = asked(State::resume(step, text("<response>yes</response>")));
    assert_eq!(request, Request::Run { command: "ls".to_string() });
    let (state, output) = finished(State::resume(
        step,
        Event::Output { stdout: "a\nb".to_string(), stderr: String::new() },
    ));
    assert_eq!(state, State::Pending);
    assert_eq!(output, "Command execution result\n```\na\nb\n```");
}

#[test]
fn command_errors_take_priority() {
    let turn = State::resume(
        Step::CommandRun,
        Event::Output { stdout: "partial".to_string(), stderr: "denied".to_string() },
    );
    let (_, output) = finished(turn);
    assert_eq!(output, "Errors during command execution\n```\ndenied\n```");
    let (state, output) =
        finished(State::resume(Step::CommandRun, Event::SpawnFailed("no shell".to_string())));
    assert_eq!((state, output.as_str()), (State::Pending, "Error executing command: no shell"));
}

#[test]
fn remembering_past_the_last_id_fails() {
    let (_, step) = asked(State::exec_remember("fact"));
    let turn = State::resume(step, Event::Documents(vec![doc(i32::MAX, "full", 0.0)]));
    assert!(matches!(turn, Turn::Fail { .. }));
}

#[test]
fn answer_of_the_wrong_kind_fails_the_turn() {
    let turn = State::resume(Step::Saved, text("what?"));
    assert_eq!(turn, Turn::Fail { error: "The answer does not fit the request".to_string() });
}

#[test]
fn condition_question_names_the_condition() {
    assert_eq!(State::is_condition("ok", "consent"), brief(&condition_prompt("ok", "consent")));
}
