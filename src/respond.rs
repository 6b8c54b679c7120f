//! Request routing outcomes: the status each repository operation answers
//! with, and the defaults filled into request bodies.
use vstd::prelude::*;

verus! {

/// Port the local service listens on.
pub const SERVER_PORT: u16 = 8001;

/// Largest request body accepted, in bytes (100 MB).
pub const MAX_BODY_BYTES: usize = 104857600;

/// The port the UI layer is told to connect to.
pub fn server_port() -> (r: u16)
    ensures
        r == SERVER_PORT,
{
    SERVER_PORT
}

/// The repository operations that the service exposes.
#[derive(Clone, Copy, Debug, PartialEq, Eq, Structural)]
pub enum Operation {
    ListChats,
    GetChat,
    CreateChat,
    DeleteChat,
    ListMessages,
    SaveMessage,
    UpdateMessage,
    UpdateChatTitle,
    UpdateChatImage,
    ListWorkflows,
    CreateWorkflow,
    DeleteWorkflow,
    ListSteps,
    ReplaceSteps,
}

/// Status of a successful operation: creation answers 201 with the new id,
/// deletion 204 with no body, everything else 200.
pub open spec fn success_code(op: Operation) -> u16 {
    match op {
        Operation::CreateChat | Operation::SaveMessage | Operation::CreateWorkflow => 201,
        Operation::DeleteChat | Operation::DeleteWorkflow => 204,
        _ => 200,
    }
}

/// How an operation against the store ended.
#[derive(Clone, Copy, Debug, PartialEq, Eq, Structural)]
pub enum Outcome {
    /// The operation succeeded.
    Done,
    /// The entity asked for does not exist.
    NotFound,
    /// The store failed (I/O or a constraint).
    StoreFailed,
}

/// Status of an operation's outcome: an absent entity is not found (404),
/// a store failure is a persistence error (500).
pub open spec fn status_of(op: Operation, outcome: Outcome) -> u16 {
    match outcome {
        Outcome::Done => success_code(op),
        Outcome::NotFound => 404,
        Outcome::StoreFailed => 500,
    }
}

/// The status an operation answers with.
pub fn status_for(op: Operation, outcome: Outcome) -> (r: u16)
    ensures
        r == status_of(op, outcome),
{
    match outcome {
        Outcome::Done => match op {
            Operation::CreateChat | Operation::SaveMessage | Operation::CreateWorkflow => 201,
            Operation::DeleteChat | Operation::DeleteWorkflow => 204,
            _ => 200,
        },
        Outcome::NotFound => 404,
        Outcome::StoreFailed => 500,
    }
}

/// The folder stored with a new message: the one given, or empty.
pub fn message_folder(folder: Option<String>) -> (r: String)
    ensures
        r@ == (match folder {
            Some(f) => f@,
            None => Seq::<char>::empty(),
        }),
{
    match folder {
        Some(f) => f,
        None => String::new(),
    }
}

} // verus!
