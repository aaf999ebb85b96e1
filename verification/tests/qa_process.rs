use sfo_io::error::SfoIOErrorCode;
use sfo_io::qa_process::{
    command_line, command_result, execute, execute_result, parse_command, CommandError,
    CommandOutput, Dialogue, DialogueEvent, DialogueStep, Output, QAProcess, WaitStep,
    ANSWER_BUF_SIZE,
};

fn process() -> QAProcess {
    QAProcess::new(true, true, true)
}

/// Feeds a text to a dialogue, and returns the last step.
fn tell(dialogue: &mut Dialogue, output: Output, text: &[u8]) -> DialogueStep<&'static str> {
    let mut step = DialogueStep::Listen;
    for byte in text {
        assert!(matches!(step, DialogueStep::Listen));
        step = dialogue.step(DialogueEvent::Read(output, Some(*byte)));
    }
    step
}

fn message_of(step: DialogueStep<&'static str>) -> String {
    match step {
        DialogueStep::Fail(error) => {
            assert_eq!(error.code(), SfoIOErrorCode::Failed);
            error.msg().to_string()
        }
        _ => panic!("expected an error"),
    }
}

#[test]
fn commands_are_split_like_a_shell_does() {
    let command = parse_command("scp -P 22 'my file' \"a \\\"b\\\"\" c\\ d").unwrap();
    assert_eq!(command.program, "scp");
    assert_eq!(command.args, vec!["-P", "22", "my file", "a \"b\"", "c d"]);
    let command = parse_command("  ls # and no more").unwrap();
    assert_eq!(command.program, "ls");
    assert!(command.args.is_empty());
    // Words stop at a quote that is not closed.
    let command = parse_command("echo one 'two").unwrap();
    assert_eq!(command.args, vec!["one"]);
}

#[test]
fn there_is_no_command_without_words() {
    assert!(parse_command("").is_none());
    assert!(parse_command("   \t\n").is_none());
    assert!(parse_command("# nothing").is_none());
    assert!(parse_command("'open").is_none());
}

#[test]
fn the_first_word_is_the_program() {
    let command = command_line(vec!["a".to_string(), "b".to_string(), "c".to_string()]);
    assert_eq!(command.program, "a");
    assert_eq!(command.args, vec!["b", "c"]);
}

#[test]
fn a_question_is_answered_once_it_is_asked() {
    let mut dialogue = process().answer("password:", "secret");
    let step = tell(&mut dialogue, Output::Stdout, b"Enter your password:");
    match step {
        DialogueStep::Reply(reply) => assert_eq!(reply, b"secret\n"),
        _ => panic!("expected an answer"),
    }
    assert_eq!(dialogue.stdout, b"Enter your password:");
    assert!(dialogue.stderr.is_empty());
}

#[test]
fn questions_can_come_on_either_stream() {
    let mut dialogue = process().answer("yes/no?", "yes");
    assert!(matches!(tell(&mut dialogue, Output::Stdout, b"yes/"), DialogueStep::Listen));
    // The streams are not mixed.
    assert!(matches!(tell(&mut dialogue, Output::Stderr, b"no?"), DialogueStep::Listen));
    let step = tell(&mut dialogue, Output::Stderr, b" yes/no?");
    assert!(matches!(step, DialogueStep::Reply(reply) if reply == b"yes\n"));
}

#[test]
fn questions_and_answers_can_be_any_text() {
    let mut dialogue = process().answer("\u{5bc6}\u{7801}\u{ff1a}", "\u{e9}");
    let step = tell(&mut dialogue, Output::Stdout, "\u{8bf7} \u{5bc6}\u{7801}\u{ff1a}".as_bytes());
    assert!(matches!(step, DialogueStep::Reply(reply) if reply == "\u{e9}\n".as_bytes()));
    // Bytes that are no text are shown as something else, and do no harm.
    let mut dialogue = process().answer("ok?", "");
    let step = tell(&mut dialogue, Output::Stdout, b"\xff\xfeok?");
    assert!(matches!(step, DialogueStep::Reply(reply) if reply == b"\n"));
    let mut dialogue = process().answer("\u{fffd}", "x");
    let step = tell(&mut dialogue, Output::Stdout, b"a\xff");
    assert!(matches!(step, DialogueStep::Reply(_)));
}

#[test]
fn an_empty_question_is_asked_with_the_first_byte() {
    let mut dialogue = process().answer("", "x");
    assert!(matches!(tell(&mut dialogue, Output::Stdout, b"a"), DialogueStep::Reply(_)));
}

#[test]
fn dialogues_fail_where_no_answer_can_be_given() {
    let mut dialogue = QAProcess::new(false, true, true).answer("?", "x");
    assert_eq!(message_of(tell(&mut dialogue, Output::Stdout, b"?")), "Failed to get stdin");

    let mut dialogue = process().answer("?", "x");
    let step = dialogue.step(DialogueEvent::Read(Output::Stderr, None));
    assert_eq!(message_of(step), "EOF");

    let step = dialogue.step(DialogueEvent::Failed("broken pipe"));
    assert!(matches!(step, DialogueStep::Broken("broken pipe")));

    let event: DialogueEvent<()> = DialogueEvent::Exited;
    assert!(matches!(dialogue.step(event), DialogueStep::Done));
}

#[test]
fn dialogues_end_when_a_stream_is_full() {
    for output in [Output::Stdout, Output::Stderr] {
        let mut dialogue = process().answer("?", "x");
        let text = vec![b'a'; ANSWER_BUF_SIZE - 1];
        assert!(matches!(tell(&mut dialogue, output, &text), DialogueStep::Listen));
        let event: DialogueEvent<&'static str> = DialogueEvent::Read(output, Some(b'a'));
        let step = dialogue.step(event);
        assert_eq!(message_of(step), "Buffer overflow");
    }
    // The last byte can still be the question.
    let mut dialogue = process().answer("?", "x");
    let text = vec![b'a'; ANSWER_BUF_SIZE - 1];
    tell(&mut dialogue, Output::Stdout, &text);
    let event: DialogueEvent<()> = DialogueEvent::Read(Output::Stdout, Some(b'?'));
    let step = dialogue.step(event);
    assert!(matches!(step, DialogueStep::Reply(_)));
}

#[test]
fn texts_are_judged_by_their_end() {
    let dialogue = process().answer("name:", "x");
    let judge = |text: &str| -> DialogueStep<()> { dialogue.judge(text) };
    assert!(matches!(judge("your name:"), DialogueStep::Reply(_)));
    assert!(matches!(judge("name: "), DialogueStep::Listen));
    assert!(matches!(judge("ame:"), DialogueStep::Listen));
}

#[test]
fn commands_that_fail_report_their_complaints() {
    assert_eq!(execute_result(true, vec![1, 2], b"noise").ok().unwrap(), vec![1, 2]);
    let error = execute_result(false, vec![1, 2], b"not \xff found").err().unwrap();
    assert_eq!(error.code(), SfoIOErrorCode::CmdReturnFailed);
    assert_eq!(error.msg(), "not \u{fffd} found");
    let error = command_result(false, vec![], "no".to_string()).err().unwrap();
    assert_eq!(error.code(), SfoIOErrorCode::CmdReturnFailed);
    assert_eq!(error.msg(), "no");
}

#[test]
fn children_that_fail_report_their_complaints() {
    assert!(matches!(process().wait(true), WaitStep::Done));
    assert!(matches!(process().wait(false), WaitStep::ReadStderr));
    match QAProcess::new(true, true, false).wait(false) {
        WaitStep::Fail(error) => {
            assert_eq!(error.code(), SfoIOErrorCode::Failed);
            assert_eq!(error.msg(), "Failed to get stderr");
        }
        _ => panic!("expected an error"),
    }
    let error = QAProcess::wait_error(b"bad \xff");
    assert_eq!(error.code(), SfoIOErrorCode::Failed);
    assert_eq!(error.msg(), "bad \u{fffd}");
}

#[test]
fn commands_that_cannot_be_run_have_failed() {
    let ran = |success: bool| -> Result<CommandOutput, &'static str> {
        Ok(CommandOutput { success, stdout: vec![7, 8], stderr: b"went \xff wrong".to_vec() })
    };
    assert_eq!(execute(ran(true)).ok().unwrap(), vec![7, 8]);
    let error = execute(ran(false)).err().unwrap();
    assert_eq!(error.code(), SfoIOErrorCode::CmdReturnFailed);
    match error {
        CommandError::Returned(error) => assert_eq!(error.msg(), "went \u{fffd} wrong"),
        CommandError::NotRun(_) => panic!("the command ran"),
    }
    let error = execute(Err("no such program")).err().unwrap();
    assert_eq!(error.code(), SfoIOErrorCode::Failed);
    assert!(matches!(error, CommandError::NotRun("no such program")));
}

#[test]
fn dialogues_that_fail_have_a_code() {
    let mut dialogue = process().answer("ok?", "yes");
    let step = dialogue.step(DialogueEvent::Failed("gone"));
    assert_eq!(step.error_code(), Some(SfoIOErrorCode::Failed));
    assert!(matches!(step, DialogueStep::Broken("gone")));
    let step: DialogueStep<()> = dialogue.step(DialogueEvent::Read(Output::Stderr, None));
    assert_eq!(step.error_code(), Some(SfoIOErrorCode::Failed));
    let step: DialogueStep<()> = dialogue.step(DialogueEvent::Exited);
    assert_eq!(step.error_code(), None);
    let step: DialogueStep<()> = dialogue.step(DialogueEvent::Read(Output::Stdout, Some(b'o')));
    assert_eq!(step.error_code(), None);
}
