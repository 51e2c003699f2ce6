//! What can go wrong between an actor and its callers.
use vstd::prelude::*;
use vstd::std_specs::convert::FromSpecImpl;

verus! {

/// Why a question put to an actor has no answer.
#[derive(Debug, Clone, Copy, PartialEq, Eq, Structural)]
pub enum AskError {
    /// The mailbox is full.
    Full,
    /// The actor has closed its mailbox, or has ended.
    Closed,
    /// No answer came in time.
    Timeout,
    /// The actor dropped the question without an answer.
    Canceled,
}

/// Why a message was not taken by an actor.
#[derive(Debug, Clone, Copy, PartialEq, Eq, Structural)]
pub enum TellError {
    /// The mailbox is full.
    Full,
    /// The actor has closed its mailbox, or has ended.
    Closed,
}

/// Why an actor was not spawned.
#[derive(Debug)]
pub enum SpawnError {
    /// Another actor of the system has the name.
    NameTaken(String),
    /// A restart policy was asked for, and there is but one instance.
    NotRestartable,
    /// The system is shutting down.
    ShuttingDown,
}

/// A refused message, as the error of the question that it carries.
pub open spec fn refused_ask(e: TellError) -> AskError {
    match e {
        TellError::Full => AskError::Full,
        TellError::Closed => AskError::Closed,
    }
}

impl From<TellError> for AskError {
    fn from(e: TellError) -> (ask: Self) {
        match e {
            TellError::Full => AskError::Full,
            TellError::Closed => AskError::Closed,
        }
    }
}

impl FromSpecImpl<TellError> for AskError {
    open spec fn obeys_from_spec() -> bool {
        true
    }

    open spec fn from_spec(e: TellError) -> AskError {
        refused_ask(e)
    }
}

impl AskError {
    /// The text of the error.
    pub open spec fn text(self) -> Seq<char> {
        match self {
            AskError::Full => "Mailbox full"@,
            AskError::Closed => "Actor closed"@,
            AskError::Timeout => "Request timed out"@,
            AskError::Canceled => "Response canceled"@,
        }
    }

    /// The status of an HTTP response that reports the error.
    pub open spec fn status(self) -> u16 {
        match self {
            AskError::Full => 503,
            AskError::Closed => 503,
            AskError::Timeout => 504,
            AskError::Canceled => 500,
        }
    }

    /// The text of the error.
    pub fn message(&self) -> (message: String)
        ensures
            message@ == self.text(),
    {
        match self {
            AskError::Full => "Mailbox full".to_owned(),
            AskError::Closed => "Actor closed".to_owned(),
            AskError::Timeout => "Request timed out".to_owned(),
            AskError::Canceled => "Response canceled".to_owned(),
        }
    }

    /// The status and the body of an HTTP response that reports the error:
    /// what is refused for now is 503, a late answer is 504, and a lost one
    /// is 500.
    pub fn into_response(self) -> (response: (u16, String))
        ensures
            response.0 == self.status(),
            response.1@ == self.text(),
    {
        let status: u16 = match self {
            AskError::Full => 503,
            AskError::Closed => 503,
            AskError::Timeout => 504,
            AskError::Canceled => 500,
        };
        (status, self.message())
    }
}

impl TellError {
    /// The text of the error.
    pub open spec fn text(self) -> Seq<char> {
        match self {
            TellError::Full => "Mailbox full"@,
            TellError::Closed => "Actor closed"@,
        }
    }

    /// The text of the error.
    pub fn message(&self) -> (message: String)
        ensures
            message@ == self.text(),
    {
        match self {
            TellError::Full => "Mailbox full".to_owned(),
            TellError::Closed => "Actor closed".to_owned(),
        }
    }

    /// The status and the body of an HTTP response that reports the error.
    pub fn into_response(self) -> (response: (u16, String))
        ensures
            response.0 == 503,
            response.1@ == self.text(),
    {
        (503, self.message())
    }
}

impl SpawnError {
    /// The text of the error.
    pub open spec fn text(self) -> Seq<char> {
        match self {
            SpawnError::NameTaken(name) => "Actor name already exists: "@ + name@,
            SpawnError::NotRestartable =>
                "spawn(actor, ..) cannot restart; use spawn_with(...) for restart policies"@,
            SpawnError::ShuttingDown => "system is shutting down"@,
        }
    }

    /// The text of the error.
    pub fn message(&self) -> (message: String)
        ensures
            message@ == self.text(),
    {
        match self {
            SpawnError::NameTaken(name) => {
                let mut text = "Actor name already exists: ".to_owned();
                text.append(name.as_str());
                text
            },
            SpawnError::NotRestartable =>
                "spawn(actor, ..) cannot restart; use spawn_with(...) for restart policies".to_owned(),
            SpawnError::ShuttingDown => "system is shutting down".to_owned(),
        }
    }
}

/// An ask that fails because the message was refused reports it just as a
/// tell does.
pub proof fn law_ask_reports_as_tell(e: TellError)
    ensures
        refused_ask(e).text() == e.text(),
        refused_ask(e).status() == 503,
{
}

/// A question whose message was refused fails for the reason of the refusal,
/// and for no other.
pub proof fn law_refusal_keeps_its_reason(e: TellError)
    ensures
        refused_ask(e) is Full <==> e is Full,
        refused_ask(e) is Closed <==> e is Closed,
{
}

/// A name that is taken is named in the error, whole, behind the same words.
pub proof fn law_taken_name_is_named(error: SpawnError, other: SpawnError)
    ensures
        error matches SpawnError::NameTaken(name) ==> error.text()
            == "Actor name already exists: "@ + name@,
        error matches SpawnError::NameTaken(a) ==> other matches SpawnError::NameTaken(b) ==> (
        error.text() == other.text() <==> a@ == b@),
{
    if let SpawnError::NameTaken(a) = error {
        if let SpawnError::NameTaken(b) = other {
            let n = "Actor name already exists: "@.len() as int;
            assert(error.text().skip(n) =~= a@);
            assert(other.text().skip(n) =~= b@);
        }
    }
}

/// What is refused for now and what comes too late is reported as such; only an
/// answer that was lost is a fault.
pub proof fn law_statuses(e: AskError)
    ensures
        e is Full || e is Closed <==> e.status() == 503,
        e is Timeout <==> e.status() == 504,
        e is Canceled <==> e.status() == 500,
{
}

} // verus!
