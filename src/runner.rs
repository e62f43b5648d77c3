use vstd::prelude::*;
use vstd::string::*;
use vstd::utf8::*;

use crate::command::Command;
use crate::error::WatchdogError;

verus! {

/// The text that `String::from_utf8_lossy` makes of `bytes`.
pub uninterp spec fn utf8_lossy(bytes: Seq<u8>) -> Seq<char>;

/// Relies on `String::from_utf8_lossy`: the text of `bytes`, with each invalid
/// sequence replaced; valid UTF-8 is decoded unchanged.
#[verifier::external_body]
fn lossy_text(bytes: &[u8]) -> (r: String)
    ensures
        r@ == utf8_lossy(bytes@),
        valid_utf8(bytes@) ==> r@ == decode_utf8(bytes@),
{
    String::from_utf8_lossy(bytes).into_owned()
}

/// How one launched command ended, as reported by the operating system.
#[derive(Debug, Clone, PartialEq, Eq)]
pub struct ProcessOutcome {
    /// Whether the exit status was success.
    pub success: bool,
    /// The exit code, absent when the process was ended by a signal.
    pub code: Option<i32>,
    /// Everything the process wrote to standard output.
    pub stdout: Vec<u8>,
    /// Everything the process wrote to standard error.
    pub stderr: Vec<u8>,
}

/// The text appended to the output file for a successful command: its standard
/// output followed by a line terminator.
pub open spec fn record_text(stdout: Seq<u8>) -> Seq<char> {
    utf8_lossy(stdout) + seq!['\n']
}

/// Builds the output-file record for a command that wrote `stdout`.
pub fn output_record(stdout: &[u8]) -> (r: String)
    ensures
        r@ == record_text(stdout@),
{
    let mut text = lossy_text(stdout);
    proof {
        reveal_strlit("\n");
    }
    text.append("\n");
    text
}

/// Runs an ordered command list one command at a time, stopping at the first
/// failure. The caller launches each command that `next_command` names and hands
/// back how it ended.
pub struct CommandRunner {
    commands: Vec<Command>,
    next: usize,
    failure: Option<WatchdogError>,
}

impl CommandRunner {
    /// The command list, in execution order.
    pub closed spec fn commands(&self) -> Seq<Command> {
        self.commands@
    }

    /// How many commands have completed successfully.
    pub closed spec fn completed(&self) -> nat {
        self.next as nat
    }

    /// The error of the failed command, once one has failed.
    pub closed spec fn failure(&self) -> Option<WatchdogError> {
        self.failure
    }

    /// Whether no further command will be run.
    pub open spec fn done(&self) -> bool {
        self.failure() is Some || self.completed() >= self.commands().len()
    }

    pub closed spec fn wf(&self) -> bool {
        self.next <= self.commands@.len()
    }

    /// A runner that has run nothing yet.
    pub fn new(commands: Vec<Command>) -> (r: CommandRunner)
        ensures
            r.wf(),
            r.commands() == commands@,
            r.completed() == 0,
            r.failure() is None,
    {
        CommandRunner { commands, next: 0, failure: None }
    }

    /// The command to run next; none once all have succeeded or one has failed.
    pub fn next_command(&self) -> (r: Option<&Command>)
        requires
            self.wf(),
        ensures
            r is Some <==> !self.done(),
            r matches Some(c) ==> *c == self.commands()[self.completed() as int],
    {
        if self.failure.is_some() || self.next >= self.commands.len() {
            None
        } else {
            Some(&self.commands[self.next])
        }
    }

    /// Takes how the command named by `next_command` ended. On success the runner
    /// moves to the following command and returns the record to append to the
    /// output file. On failure it keeps the error, naming the command with its exit
    /// code and standard-error text, and runs nothing more.
    pub fn record(&mut self, outcome: &ProcessOutcome) -> (r: Option<String>)
        requires
            old(self).wf(),
            !old(self).done(),
        ensures
            final(self).wf(),
            final(self).commands() == old(self).commands(),
            outcome.success ==> final(self).completed() == old(self).completed() + 1,
            outcome.success ==> final(self).failure() is None,
            outcome.success ==> (r matches Some(t) && t@ == record_text(outcome.stdout@)),
            !outcome.success ==> r is None,
            !outcome.success ==> final(self).completed() == old(self).completed(),
            !outcome.success ==> (final(self).failure() matches Some(
                WatchdogError::Command { name, code, stderr },
            ) && name@ == old(self).commands()[old(self).completed() as int].name@ && code
                == outcome.code && stderr@ == utf8_lossy(outcome.stderr@)),
    {
        let n = self.commands.len();
        assert(self.next < n);
        if outcome.success {
            self.next = self.next + 1;
            Some(output_record(outcome.stdout.as_slice()))
        } else {
            let name = self.commands[self.next].name.clone();
            let stderr = lossy_text(outcome.stderr.as_slice());
            self.failure = Some(WatchdogError::Command { name, code: outcome.code, stderr });
            None
        }
    }

    /// The result of the whole list: the failure if a command failed, else success.
    pub fn finish(self) -> (r: Result<(), WatchdogError>)
        requires
            self.done(),
        ensures
            self.failure() matches Some(e) ==> r == Err::<(), WatchdogError>(e),
            self.failure() is None ==> r is Ok,
    {
        match self.failure {
            Some(e) => Err(e),
            None => Ok(()),
        }
    }
}

} // verus!
