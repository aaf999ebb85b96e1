//! Child processes that ask questions.

use crate::error::{SfoIOError, SfoIOErrorCode, SfoIOResult};
use shlex::Shlex;
use vstd::prelude::*;
use vstd::utf8::{decode_utf8, encode_utf8, valid_utf8};

verus! {

/// How much of a child's output is kept while waiting for a question, for each of its streams.
pub const ANSWER_BUF_SIZE: usize = 4096;

/// The words of a command line by the rules of the POSIX shell, as `shlex::Shlex` yields them. At
/// a quote that is not closed, or a backslash at the end, they stop.
pub uninterp spec fn words_of(command: Seq<char>) -> Seq<Seq<char>>;

/// What `String::from_utf8_lossy` makes of bytes.
pub uninterp spec fn lossy_text_of(bytes: Seq<u8>) -> Seq<char>;

/// The text of each of these.
pub open spec fn texts(words: Seq<String>) -> Seq<Seq<char>> {
    words.map_values(|word: String| word@)
}

/// Bytes that are valid UTF-8 are taken for the text that they encode.
pub open spec fn lossless_if_valid(bytes: Seq<u8>) -> bool {
    valid_utf8(bytes) ==> lossy_text_of(bytes) == decode_utf8(bytes)
}

/// Collects what the iterator `shlex::Shlex` yields for a command line.
#[verifier::external_body]
fn split_words(command: &str) -> (words: Vec<String>)
    ensures
        texts(words@) == words_of(command@),
{
    Shlex::new(command).collect()
}

/// Calls `String::from_utf8_lossy`. Bytes that are valid UTF-8 become the text that they encode.
#[verifier::external_body]
fn lossy_text(bytes: &[u8]) -> (text: String)
    ensures
        text@ == lossy_text_of(bytes@),
        valid_utf8(bytes@) ==> text@ == decode_utf8(bytes@),
{
    String::from_utf8_lossy(bytes).into_owned()
}

/// Calls `str::ends_with` with a text: whether that is the end of the other.
#[verifier::external_body]
fn text_ends_with(text: &str, end: &str) -> (ends: bool)
    ensures
        ends == end@.is_suffix_of(text@),
{
    text.ends_with(end)
}

/// The code of the error of a stream that cannot be read or written, or of a process that cannot be
/// started or waited for.
pub const IO_ERROR_CODE: SfoIOErrorCode = SfoIOErrorCode::Failed;

/// A program and its arguments.
pub struct CommandLine {
    pub program: String,
    pub args: Vec<String>,
}

/// The first word is the program, and the others are its arguments.
pub fn command_line(words: Vec<String>) -> (command: CommandLine)
    requires
        words@.len() > 0,
    ensures
        command.program@ == words@[0]@,
        texts(command.args@) == texts(words@).skip(1),
{
    let mut args = words;
    let program = args.remove(0);
    assert(texts(args@) =~= texts(words@).skip(1));
    CommandLine { program, args }
}

/// Splits a command line into a program and its arguments. There is no command in a line without
/// words.
pub fn parse_command(command: &str) -> (parsed: Option<CommandLine>)
    ensures
        match parsed {
            Some(parsed) => {
                &&& words_of(command@).len() > 0
                &&& parsed.program@ == words_of(command@)[0]
                &&& texts(parsed.args@) == words_of(command@).skip(1)
            },
            None => words_of(command@).len() == 0,
        },
{
    let words = split_words(command);
    assert(words@.len() == words_of(command@).len());
    if words.len() == 0 {
        return None;
    }
    assert(words_of(command@)[0] == words@[0]@);
    Some(command_line(words))
}

/// What a command that has run comes to: what it wrote, or an error with its complaint.
pub fn command_result(success: bool, stdout: Vec<u8>, complaint: String) -> (result: SfoIOResult<
    Vec<u8>,
>)
    ensures
        match result {
            Ok(output) => success && output == stdout,
            Err(error) => !success && error.says(SfoIOErrorCode::CmdReturnFailed, complaint@),
        },
{
    if success {
        Ok(stdout)
    } else {
        Err(SfoIOError::new(SfoIOErrorCode::CmdReturnFailed, complaint))
    }
}

/// What a command that has run comes to, by what it wrote to its two streams.
pub fn execute_result(success: bool, stdout: Vec<u8>, stderr: &[u8]) -> (result: SfoIOResult<
    Vec<u8>,
>)
    ensures
        match result {
            Ok(output) => success && output == stdout,
            Err(error) => !success && error.says(
                SfoIOErrorCode::CmdReturnFailed,
                lossy_text_of(stderr@),
            ),
        },
        lossless_if_valid(stderr@),
{
    command_result(success, stdout, lossy_text(stderr))
}

/// What a command that has run leaves: whether it succeeded, and what it wrote.
pub struct CommandOutput {
    pub success: bool,
    pub stdout: Vec<u8>,
    pub stderr: Vec<u8>,
}

/// Why there is no output of a command.
pub enum CommandError<E> {
    /// It ran, and reported failure.
    Returned(SfoIOError),
    /// It could not be run, for this reason.
    NotRun(E),
}

impl<E> CommandError<E> {
    /// The code of the error: that of the command, or the one for what could not be run.
    pub fn code(&self) -> (code: SfoIOErrorCode)
        ensures
            match *self {
                CommandError::Returned(error) => code == error.code,
                CommandError::NotRun(_) => code == SfoIOErrorCode::Failed,
            },
    {
        match self {
            CommandError::Returned(error) => error.code(),
            CommandError::NotRun(_) => IO_ERROR_CODE,
        }
    }
}

/// What running a command comes to: what it wrote, if it could be run and succeeded.
pub fn execute<E>(outcome: Result<CommandOutput, E>) -> (result: Result<Vec<u8>, CommandError<E>>)
    ensures
        match outcome {
            Ok(output) => {
                &&& output.success ==> result == Ok::<Vec<u8>, CommandError<E>>(output.stdout)
                &&& !output.success ==> (result matches Err(CommandError::Returned(error))
                    && error.says(
                    SfoIOErrorCode::CmdReturnFailed,
                    lossy_text_of(output.stderr@),
                ))
                &&& lossless_if_valid(output.stderr@)
            },
            Err(e) => result == Err::<Vec<u8>, CommandError<E>>(CommandError::NotRun(e)),
        },
{
    match outcome {
        Ok(output) => match execute_result(
            output.success,
            output.stdout,
            output.stderr.as_slice(),
        ) {
            Ok(stdout) => Ok(stdout),
            Err(error) => Err(CommandError::Returned(error)),
        },
        Err(e) => Err(CommandError::NotRun(e)),
    }
}

/// A child process, by the streams to it that are open.
pub struct QAProcess {
    pub has_stdin: bool,
    pub has_stdout: bool,
    pub has_stderr: bool,
}

/// What comes next after a child has ended.
pub enum WaitStep {
    /// Nothing: it succeeded.
    Done,
    /// Its complaints are to be read, and are its error.
    ReadStderr,
    Fail(SfoIOError),
}

impl QAProcess {
    pub fn new(has_stdin: bool, has_stdout: bool, has_stderr: bool) -> (process: QAProcess)
        ensures
            process == (QAProcess { has_stdin, has_stdout, has_stderr }),
    {
        QAProcess { has_stdin, has_stdout, has_stderr }
    }

    /// Starts to wait for a question on either output, to give it this answer.
    pub fn answer(&self, question: &str, answer: &str) -> (dialogue: Dialogue)
        requires
            self.has_stdout,
            self.has_stderr,
        ensures
            dialogue.question@ == question@,
            dialogue.answer@ == answer@,
            dialogue.has_stdin == self.has_stdin,
            dialogue.stdout@ == Seq::<u8>::empty(),
            dialogue.stderr@ == Seq::<u8>::empty(),
            dialogue.wf(),
    {
        Dialogue {
            question: question.to_owned(),
            answer: answer.to_owned(),
            has_stdin: self.has_stdin,
            stdout: Vec::with_capacity(ANSWER_BUF_SIZE),
            stderr: Vec::with_capacity(ANSWER_BUF_SIZE),
        }
    }

    /// What comes next after the child has ended, with success or not.
    pub fn wait(&self, success: bool) -> (step: WaitStep)
        ensures
            match step {
                WaitStep::Done => success,
                WaitStep::ReadStderr => !success && self.has_stderr,
                WaitStep::Fail(error) => !success && !self.has_stderr && error.says(
                    SfoIOErrorCode::Failed,
                    "Failed to get stderr"@,
                ),
            },
    {
        if success {
            WaitStep::Done
        } else if self.has_stderr {
            WaitStep::ReadStderr
        } else {
            WaitStep::Fail(SfoIOError::failed("Failed to get stderr"))
        }
    }

    /// The error of a child that ended without success, with what it complained of.
    pub fn wait_error(stderr: &[u8]) -> (error: SfoIOError)
        ensures
            error.says(SfoIOErrorCode::Failed, lossy_text_of(stderr@)),
            lossless_if_valid(stderr@),
    {
        SfoIOError::new(SfoIOErrorCode::Failed, lossy_text(stderr))
    }
}

/// One of the streams that a child writes to.
#[derive(Clone, Copy, PartialEq, Eq, Structural)]
pub enum Output {
    Stdout,
    Stderr,
}

/// Waiting for a question.
pub struct Dialogue {
    pub question: String,
    pub answer: String,
    pub has_stdin: bool,
    /// What the child has written to each stream so far.
    pub stdout: Vec<u8>,
    pub stderr: Vec<u8>,
}

/// What comes next while waiting for a question.
pub enum DialogueStep<E> {
    /// The next byte of either stream, or the end of the child, is to be waited for.
    Listen,
    /// The question was asked, and this is to be written to the child.
    Reply(Vec<u8>),
    /// The child is gone.
    Done,
    /// The dialogue failed.
    Fail(SfoIOError),
    /// The dialogue failed for this reason.
    Broken(E),
}

impl<E> DialogueStep<E> {
    /// The code of the error that the dialogue ends with, if it fails.
    pub fn error_code(&self) -> (code: Option<SfoIOErrorCode>)
        ensures
            code == match *self {
                DialogueStep::Fail(error) => Some(error.code),
                DialogueStep::Broken(_) => Some(SfoIOErrorCode::Failed),
                _ => None,
            },
    {
        match self {
            DialogueStep::Fail(error) => Some(error.code()),
            DialogueStep::Broken(_) => Some(IO_ERROR_CODE),
            _ => None,
        }
    }
}

/// What happened while waiting for a question.
pub enum DialogueEvent<E> {
    /// A stream has one more byte, or has come to its end.
    Read(Output, Option<u8>),
    /// A stream could not be read.
    Failed(E),
    /// The child has ended.
    Exited,
}

impl Dialogue {
    /// There is room for one more byte of either stream.
    pub open spec fn wf(self) -> bool {
        &&& self.stdout@.len() < ANSWER_BUF_SIZE
        &&& self.stderr@.len() < ANSWER_BUF_SIZE
    }

    /// What the child has written to a stream so far.
    pub open spec fn heard(self, output: Output) -> Seq<u8> {
        match output {
            Output::Stdout => self.stdout@,
            Output::Stderr => self.stderr@,
        }
    }

    /// Whether `after` is this with one more byte of a stream.
    pub open spec fn heard_more(self, output: Output, byte: u8, after: Dialogue) -> bool {
        &&& after.question == self.question
        &&& after.answer == self.answer
        &&& after.has_stdin == self.has_stdin
        &&& after.heard(output) == self.heard(output).push(byte)
        &&& output is Stdout ==> after.stderr@ == self.stderr@
        &&& output is Stderr ==> after.stdout@ == self.stdout@
    }

    /// Whether `step` is what comes next once a stream reads `text`: the answer with a line feed if
    /// the text ends with the question, and otherwise the next byte as long as there is room for
    /// it.
    pub open spec fn judged<E>(self, text: Seq<char>, step: DialogueStep<E>) -> bool {
        let asked = self.question@.is_suffix_of(text);
        let full = self.stdout@.len() == ANSWER_BUF_SIZE || self.stderr@.len() == ANSWER_BUF_SIZE;
        match step {
            DialogueStep::Reply(reply) => {
                &&& asked
                &&& self.has_stdin
                &&& reply@ == encode_utf8(self.answer@).push(10)
            },
            DialogueStep::Listen => !asked && !full,
            DialogueStep::Fail(error) => if asked {
                !self.has_stdin && error.says(SfoIOErrorCode::Failed, "Failed to get stdin"@)
            } else {
                full && error.says(SfoIOErrorCode::Failed, "Buffer overflow"@)
            },
            DialogueStep::Done | DialogueStep::Broken(_) => false,
        }
    }

    /// Decides what comes next once a stream reads `text`.
    pub fn judge<E>(&self, text: &str) -> (step: DialogueStep<E>)
        ensures
            self.judged(text@, step),
    {
        if text_ends_with(text, self.question.as_str()) {
            if !self.has_stdin {
                return DialogueStep::Fail(SfoIOError::failed("Failed to get stdin"));
            }
            let mut reply: Vec<u8> = Vec::new();
            reply.extend_from_slice(self.answer.as_str().as_bytes());
            reply.push(10);
            assert(reply@ =~= encode_utf8(self.answer@).push(10));
            DialogueStep::Reply(reply)
        } else if self.stdout.len() == ANSWER_BUF_SIZE || self.stderr.len() == ANSWER_BUF_SIZE {
            DialogueStep::Fail(SfoIOError::failed("Buffer overflow"))
        } else {
            DialogueStep::Listen
        }
    }

    /// Takes note of one more byte of a stream.
    fn hear<E>(&mut self, output: Output, byte: u8) -> (step: DialogueStep<E>)
        requires
            old(self).wf(),
        ensures
            old(self).heard_more(output, byte, *final(self)),
            final(self).judged(lossy_text_of(final(self).heard(output)), step),
            lossless_if_valid(final(self).heard(output)),
    {
        let text = match output {
            Output::Stdout => {
                self.stdout.push(byte);
                lossy_text(self.stdout.as_slice())
            },
            Output::Stderr => {
                self.stderr.push(byte);
                lossy_text(self.stderr.as_slice())
            },
        };
        self.judge(text.as_str())
    }

    /// Goes on with what happened.
    pub fn step<E>(&mut self, event: DialogueEvent<E>) -> (step: DialogueStep<E>)
        requires
            old(self).wf(),
        ensures
            match event {
                DialogueEvent::Read(output, Some(byte)) => {
                    &&& old(self).heard_more(output, byte, *final(self))
                    &&& final(self).judged(lossy_text_of(final(self).heard(output)), step)
                    &&& lossless_if_valid(final(self).heard(output))
                },
                DialogueEvent::Read(_, None) => {
                    &&& *final(self) == *old(self)
                    &&& step matches DialogueStep::Fail(error) && error.says(
                        SfoIOErrorCode::Failed,
                        "EOF"@,
                    )
                },
                DialogueEvent::Failed(error) => {
                    &&& *final(self) == *old(self)
                    &&& step == DialogueStep::Broken(error)
                },
                DialogueEvent::Exited => {
                    &&& *final(self) == *old(self)
                    &&& step is Done
                },
            },
            step matches DialogueStep::Fail(error) ==> error.code == SfoIOErrorCode::Failed,
            step is Listen ==> final(self).wf(),
    {
        match event {
            DialogueEvent::Read(output, Some(byte)) => self.hear(output, byte),
            DialogueEvent::Read(_, None) => DialogueStep::Fail(SfoIOError::failed("EOF")),
            DialogueEvent::Failed(error) => DialogueStep::Broken(error),
            DialogueEvent::Exited => DialogueStep::Done,
        }
    }
}

/// A dialogue goes on for a limited time only: with each byte that it listens on after, there is
/// room for fewer.
pub proof fn law_dialogues_end<E>(
    before: Dialogue,
    output: Output,
    byte: u8,
    after: Dialogue,
    text: Seq<char>,
    step: DialogueStep<E>,
)
    requires
        before.wf(),
        before.heard_more(output, byte, after),
        after.judged(text, step),
        step is Listen,
    ensures
        after.wf(),
        after.stdout@.len() + after.stderr@.len() == before.stdout@.len() + before.stderr@.len()
            + 1,
        after.stdout@.len() + after.stderr@.len() <= 2 * (ANSWER_BUF_SIZE - 1),
{
}

/// A question is answered as soon as it is asked, wherever in the output that is: text that ends
/// with the question is always answered, if there is a stream to answer on.
pub proof fn law_questions_are_answered<E>(
    dialogue: Dialogue,
    before: Seq<char>,
    step: DialogueStep<E>,
)
    requires
        dialogue.has_stdin,
        dialogue.judged(before + dialogue.question@, step),
    ensures
        step matches DialogueStep::Reply(reply) && reply@ == encode_utf8(dialogue.answer@).push(10),
{
    let text = before + dialogue.question@;
    assert(dialogue.question@.is_suffix_of(text)) by {
        assert(text.subrange(before.len() as int, text.len() as int) =~= dialogue.question@);
    }
}

/// An answer is given only to the question: a reply comes only where the text so far is some text
/// followed by the question, and is the answer and a line feed. Text that does not end with the
/// question is listened on after, as long as neither stream has filled its 4096 bytes, and then is
/// an error.
pub proof fn law_only_questions_are_answered<E>(
    dialogue: Dialogue,
    text: Seq<char>,
    step: DialogueStep<E>,
)
    requires
        dialogue.judged(text, step),
    ensures
        ({
            let asked = exists|before: Seq<char>| text == #[trigger] (before
                + dialogue.question@);
            let full = dialogue.stdout@.len() == 4096 || dialogue.stderr@.len() == 4096;
            &&& step is Reply <==> asked && dialogue.has_stdin
            &&& step matches DialogueStep::Reply(reply) ==> reply@ == encode_utf8(
                dialogue.answer@,
            ).push(10)
            &&& step is Listen <==> !asked && !full
            &&& step is Fail <==> asked && !dialogue.has_stdin || !asked && full
            &&& step matches DialogueStep::Fail(error) ==> error.code == SfoIOErrorCode::Failed && (
            if asked {
                error.message@ == "Failed to get stdin"@
            } else {
                error.message@ == "Buffer overflow"@
            })
        }),
{
    let question = dialogue.question@;
    if question.is_suffix_of(text) {
        let before = text.subrange(0, text.len() - question.len());
        assert(text =~= before + question);
    }
    if exists|before: Seq<char>| text == #[trigger] (before + question) {
        let before = choose|before: Seq<char>| text == #[trigger] (before + question);
        assert(text.subrange(before.len() as int, text.len() as int) =~= question);
        assert(question.is_suffix_of(text));
    }
}

/// A byte is heard behind what its stream has written before, and nowhere else. The question, the
/// answer and the way to answer stay.
pub proof fn law_bytes_are_heard_on_their_stream(
    dialogue: Dialogue,
    output: Output,
    byte: u8,
    after: Dialogue,
)
    requires
        dialogue.heard_more(output, byte, after),
    ensures
        dialogue.heard(Output::Stdout) == dialogue.stdout@,
        dialogue.heard(Output::Stderr) == dialogue.stderr@,
        output is Stdout ==> after.stdout@ == dialogue.stdout@.push(byte) && after.stderr@
            == dialogue.stderr@,
        output is Stderr ==> after.stderr@ == dialogue.stderr@.push(byte) && after.stdout@
            == dialogue.stdout@,
        after.question@ == dialogue.question@,
        after.answer@ == dialogue.answer@,
        after.has_stdin == dialogue.has_stdin,
{
}

/// The text of words is that of each word, in their order. Bytes that are valid UTF-8 are never
/// taken for another text than they encode.
pub proof fn law_texts_are_of_each_word(words: Seq<String>, bytes: Seq<u8>)
    ensures
        texts(words).len() == words.len(),
        forall|i: int| 0 <= i < words.len() ==> #[trigger] texts(words)[i] == words[i]@,
        lossless_if_valid(bytes) && valid_utf8(bytes) ==> lossy_text_of(bytes) == decode_utf8(
            bytes,
        ),
{
}

/// Running a command comes to what the command wrote exactly where it could be run and succeeded.
/// One that reports failure is an error with its own complaint, whatever it wrote besides. One that
/// could not be run is an error with the reason for that.
pub proof fn law_commands_come_to_their_output_or_their_complaint<E>(
    outcome: Result<CommandOutput, E>,
    result: Result<Vec<u8>, CommandError<E>>,
)
    requires
        call_ensures(execute::<E>, (outcome,), result),
    ensures
        result is Ok <==> outcome is Ok && outcome->Ok_0.success,
        result is Ok ==> result->Ok_0@ == outcome->Ok_0.stdout@,
        outcome is Ok && !outcome->Ok_0.success ==> {
            &&& result matches Err(CommandError::Returned(error)) && error.code
                == SfoIOErrorCode::CmdReturnFailed && error.message@ == lossy_text_of(
                outcome->Ok_0.stderr@,
            )
            &&& valid_utf8(outcome->Ok_0.stderr@) ==> (result matches Err(
                CommandError::Returned(error),
            ) && error.message@ == decode_utf8(outcome->Ok_0.stderr@))
        },
        outcome matches Err(e) ==> result == Err::<Vec<u8>, CommandError<E>>(
            CommandError::NotRun(e),
        ),
{
}

/// A command line with words has the first of them as its program and the others as its arguments,
/// in their order; one without has no command.
pub proof fn law_command_lines_are_program_and_arguments(
    command: &str,
    parsed: Option<CommandLine>,
)
    requires
        call_ensures(parse_command, (command,), parsed),
    ensures
        parsed is None <==> words_of(command@).len() == 0,
        parsed matches Some(line) ==> {
            &&& line.args@.len() + 1 == words_of(command@).len()
            &&& line.program@ == words_of(command@)[0]
            &&& forall|i: int|
                0 <= i < line.args@.len() ==> #[trigger] line.args@[i]@ == words_of(command@)[i + 1]
        },
{
    if let Some(line) = parsed {
        assert(texts(line.args@).len() == line.args@.len());
        assert forall|i: int| 0 <= i < line.args@.len() implies #[trigger] line.args@[i]@
            == words_of(command@)[i + 1] by {
            assert(texts(line.args@)[i] == line.args@[i]@);
        }
    }
}

/// A child that has succeeded is done with. One that has not is an error: with its complaints where
/// these can be read, and without them otherwise.
pub proof fn law_children_are_judged_by_their_success(
    process: &QAProcess,
    success: bool,
    step: WaitStep,
)
    requires
        call_ensures(QAProcess::wait, (process, success), step),
    ensures
        step is Done <==> success,
        step is ReadStderr <==> !success && process.has_stderr,
        step matches WaitStep::Fail(error) ==> !process.has_stderr && error.code
            == SfoIOErrorCode::Failed && error.message@ == "Failed to get stderr"@,
{
}

/// A dialogue replies exactly where the text that it judges ends with the question and there is a
/// way to answer, and listens on exactly where the text does not and there is room for more.
pub proof fn law_dialogues_judge_by_the_question<E>(
    dialogue: &Dialogue,
    text: &str,
    step: DialogueStep<E>,
)
    requires
        call_ensures(Dialogue::judge::<E>, (dialogue, text), step),
    ensures
        ({
            let asked = exists|before: Seq<char>| text@ == #[trigger] (before
                + dialogue.question@);
            let full = dialogue.stdout@.len() == 4096 || dialogue.stderr@.len() == 4096;
            &&& step is Reply <==> asked && dialogue.has_stdin
            &&& step matches DialogueStep::Reply(reply) ==> reply@ == encode_utf8(
                dialogue.answer@,
            ).push(10)
            &&& step is Listen <==> !asked && !full
        }),
{
    law_only_questions_are_answered(*dialogue, text@, step);
}

/// A dialogue hears a byte on the stream that it came from, and judges by what that stream reads
/// then. Any other event changes nothing: an end of a stream and a stream that fails end it with an
/// error, and the end of the child ends it without one.
pub proof fn law_dialogues_go_by_what_happened<E>()
    ensures
        forall|dialogue: &mut Dialogue, event: DialogueEvent<E>, step: DialogueStep<E>| #[trigger]
            call_ensures(Dialogue::step::<E>, (dialogue, event), step) ==> match event {
                DialogueEvent::Read(Output::Stdout, Some(byte)) => {
                    &&& (*final(dialogue)).stdout@ == (*dialogue).stdout@.push(byte)
                    &&& (*final(dialogue)).stderr@ == (*dialogue).stderr@
                    &&& (*final(dialogue)).judged(
                        lossy_text_of((*dialogue).stdout@.push(byte)),
                        step,
                    )
                },
                DialogueEvent::Read(Output::Stderr, Some(byte)) => {
                    &&& (*final(dialogue)).stderr@ == (*dialogue).stderr@.push(byte)
                    &&& (*final(dialogue)).stdout@ == (*dialogue).stdout@
                    &&& (*final(dialogue)).judged(
                        lossy_text_of((*dialogue).stderr@.push(byte)),
                        step,
                    )
                },
                DialogueEvent::Read(_, None) => {
                    &&& *final(dialogue) == *dialogue
                    &&& step matches DialogueStep::Fail(error) && error.code
                        == SfoIOErrorCode::Failed && error.message@ == "EOF"@
                },
                DialogueEvent::Failed(e) => *final(dialogue) == *dialogue && step
                    == DialogueStep::Broken(e),
                DialogueEvent::Exited => *final(dialogue) == *dialogue && step is Done,
            },
{
}

} // verus!
