//! Errors that carry a chain of causes and tell invalid usage from other failures.

use vstd::prelude::*;

verus! {

/// A failure: what went wrong, what caused it, and whether the usage was invalid.
#[derive(Debug)]
pub struct Error {
    message: String,
    source: Option<Box<Error>>,
    usage: bool,
}

/// What an [`Error`] says: its own message followed by those of its causes, and whether any of
/// them reports invalid usage.
pub struct ErrorModel {
    pub messages: Seq<Seq<char>>,
    pub usage: bool,
}

impl View for Error {
    type V = ErrorModel;

    closed spec fn view(&self) -> ErrorModel {
        ErrorModel { messages: self.chain(), usage: self.any_usage() }
    }
}

/// The model of a failure that has no cause.
pub open spec fn failure(message: Seq<char>) -> ErrorModel {
    ErrorModel { messages: seq![message], usage: false }
}

/// The model of an invalid use that has no cause.
pub open spec fn misuse(message: Seq<char>) -> ErrorModel {
    ErrorModel { messages: seq![message], usage: true }
}

/// The model of a failure that is caused by another one.
pub open spec fn caused(message: Seq<char>, cause: ErrorModel) -> ErrorModel {
    ErrorModel { messages: seq![message] + cause.messages, usage: cause.usage }
}

/// The exit code that an error ends the program with.
pub open spec fn code_of(e: ErrorModel) -> int {
    if e.usage {
        2
    } else {
        1
    }
}

/// A message and the messages of its causes, each cause on a line of its own.
pub open spec fn report_text(messages: Seq<Seq<char>>) -> Seq<char>
    decreases messages.len(),
{
    if messages.len() == 0 {
        Seq::empty()
    } else if messages.len() == 1 {
        messages[0]
    } else {
        messages[0] + "\ncaused by: "@ + report_text(messages.skip(1))
    }
}

impl Error {
    spec fn chain(self) -> Seq<Seq<char>>
        decreases self,
    {
        match self.source {
            None => seq![self.message@],
            Some(next) => seq![self.message@] + next.chain(),
        }
    }

    spec fn any_usage(self) -> bool
        decreases self,
    {
        self.usage || match self.source {
            None => false,
            Some(next) => next.any_usage(),
        }
    }

    /// A failure with the given message and no cause.
    pub fn msg(message: String) -> (r: Self)
        ensures
            r@ == failure(message@),
    {
        Error { message, source: None, usage: false }
    }

    /// An invalid use with the given message and no cause.
    pub fn usage(message: String) -> (r: Self)
        ensures
            r@ == misuse(message@),
    {
        Error { message, source: None, usage: true }
    }

    /// A failure with the given message, caused by `source`.
    pub fn with_source(message: String, source: Error) -> (r: Self)
        ensures
            r@ == caused(message@, source@),
    {
        Error { message, source: Some(Box::new(source)), usage: false }
    }

    /// The exit code of the binary for this error: 2 for invalid usage, or 1 for other failures.
    /// A cause keeps this distinction under any number of wrappers.
    pub fn exit_code(&self) -> (r: i32)
        ensures
            r == code_of(self@),
            r == if self@.usage { 2i32 } else { 1i32 },
        decreases self,
    {
        if self.usage {
            return 2;
        }
        match &self.source {
            None => 1,
            Some(next) => next.exit_code(),
        }
    }

    /// The message of the error itself.
    pub fn message(&self) -> (r: &str)
        ensures
            r@ == self@.messages[0],
            self@.messages.len() > 0,
    {
        self.message.as_str()
    }

    /// The message of the error followed by those of its causes.
    pub fn report(&self) -> (r: String)
        ensures
            r@ == report_text(self@.messages),
        decreases self,
    {
        let mut out = self.message.clone();
        match &self.source {
            None => {},
            Some(next) => {
                let rest = next.report();
                out.append("\ncaused by: ");
                out.append(rest.as_str());
                proof {
                    let tail = next@.messages;
                    assert((seq![self.message@] + tail).skip(1) =~= tail);
                    lemma_chain_len(**next);
                }
            },
        }
        out
    }
}

proof fn lemma_chain_len(e: Error)
    ensures
        e.chain().len() > 0,
    decreases e,
{
    match e.source {
        None => {},
        Some(next) => {
            lemma_chain_len(*next);
        },
    }
}

/// Adds a message in front of a failure, or names the failure of a value that is not there.
pub trait Context<T>: Sized {
    /// Adds `message`.
    fn context(self, message: &str) -> Result<T, Error>;

    /// Adds the message that `f` returns. `f` is called on failure only.
    fn with_context<F: FnOnce() -> String>(self, f: F) -> Result<T, Error>
        requires
            f.requires(()),
    ;
}

impl<T> Context<T> for Result<T, Error> {
    fn context(self, message: &str) -> (r: Result<T, Error>)
        ensures
            match self {
                Ok(v) => r == Ok::<T, Error>(v),
                Err(e) => r is Err && r->Err_0@ == caused(message@, e@),
            },
    {
        match self {
            Ok(v) => Ok(v),
            Err(e) => Err(Error::with_source(message.to_owned(), e)),
        }
    }

    fn with_context<F: FnOnce() -> String>(self, f: F) -> (r: Result<T, Error>)
        ensures
            match self {
                Ok(v) => r == Ok::<T, Error>(v),
                Err(e) => r is Err && exists|m: String|
                    f.ensures((), m) && r->Err_0@ == #[trigger] caused(m@, e@),
            },
    {
        match self {
            Ok(v) => Ok(v),
            Err(e) => {
                let m = f();
                let ghost cause = e@;
                let wrapped = Error::with_source(m, e);
                assert(wrapped@ == caused(m@, cause));
                Err(wrapped)
            },
        }
    }
}

impl<T> Context<T> for Option<T> {
    fn context(self, message: &str) -> (r: Result<T, Error>)
        ensures
            match self {
                Some(v) => r == Ok::<T, Error>(v),
                None => r is Err && r->Err_0@ == failure(message@),
            },
    {
        match self {
            Some(v) => Ok(v),
            None => Err(Error::msg(message.to_owned())),
        }
    }

    fn with_context<F: FnOnce() -> String>(self, f: F) -> (r: Result<T, Error>)
        ensures
            match self {
                Some(v) => r == Ok::<T, Error>(v),
                None => r is Err && exists|m: String|
                    f.ensures((), m) && r->Err_0@ == #[trigger] failure(m@),
            },
    {
        match self {
            Some(v) => Ok(v),
            None => {
                let m = f();
                let e = Error::msg(m);
                assert(e@ == failure(m@));
                Err(e)
            },
        }
    }
}

/// A context never changes the exit code of the failure it is added to.
pub proof fn law_context_keeps_usage(message: Seq<char>, cause: ErrorModel)
    ensures
        caused(message, cause).usage == cause.usage,
{
}

/// The report of a wrapped failure is the new message followed by the report of the cause.
pub proof fn law_context_extends_report(message: Seq<char>, cause: ErrorModel)
    requires
        cause.messages.len() > 0,
    ensures
        report_text(caused(message, cause).messages) == message + "\ncaused by: "@ + report_text(
            cause.messages,
        ),
{
    assert((seq![message] + cause.messages).skip(1) =~= cause.messages);
}

} // verus!
