//! The errors of the service and the answers that they become.

use vstd::prelude::*;
use vstd::string::to_string_from_display_ensures;

use crate::store::{missing_text, OpenFault, TableFault};
use crate::text::join;

verus! {

/// Why a database could not be opened.
#[derive(Debug)]
pub enum DatabaseFault {
    /// Another process has it open.
    AlreadyOpen,
    /// Any other reason, in words.
    Other(String),
}

/// What can go wrong while a request is served.
#[derive(Debug)]
pub enum AppError {
    Unauthorized,
    DatabaseLocked,
    NotFound,
    Database(DatabaseFault),
    Table(String),
    Transaction(String),
    Network(String),
    Io(String),
    Template(String),
    Internal(AnyhowError),
    Storage(String),
    Commit(String),
}

/// An error of which only the message is known.
#[derive(Debug)]
pub struct AnyhowError(pub String);

/// The answer to a request that failed: the status, and the message of the JSON body.
#[derive(Debug)]
pub struct ErrorReply {
    pub status: u16,
    pub error: String,
}

/// An answer in plain text.
#[derive(Debug)]
pub struct TextReply {
    pub status: u16,
    pub body: String,
}

impl View for AnyhowError {
    type V = Seq<char>;

    open spec fn view(&self) -> Seq<char> {
        self.0@
    }
}

impl View for DatabaseFault {
    type V = Seq<char>;

    open spec fn view(&self) -> Seq<char> {
        match *self {
            DatabaseFault::AlreadyOpen => "Database already open. Cannot acquire lock."@,
            DatabaseFault::Other(text) => text@,
        }
    }
}

impl DatabaseFault {
    /// The fault in words.
    pub fn message(&self) -> (text: String)
        ensures
            text@ == self@,
    {
        match self {
            DatabaseFault::AlreadyOpen => "Database already open. Cannot acquire lock.".to_string(),
            DatabaseFault::Other(text) => text.clone(),
        }
    }
}

/// `text` is what the error for a table that cannot be opened displays.
pub open spec fn is_table_text(text: String) -> bool {
    exists|error: redb::TableError| #[trigger] to_string_from_display_ensures(&error, text)
}

/// `text` is what an error of reading or writing displays.
pub open spec fn is_storage_text(text: String) -> bool {
    exists|error: redb::StorageError| #[trigger] to_string_from_display_ensures(&error, text)
}

/// `text` is what an error of beginning a transaction displays.
pub open spec fn is_transaction_text(text: String) -> bool {
    exists|error: redb::TransactionError| #[trigger] to_string_from_display_ensures(&error, text)
}

/// `text` is what an error of committing displays.
pub open spec fn is_commit_text(text: String) -> bool {
    exists|error: redb::CommitError| #[trigger] to_string_from_display_ensures(&error, text)
}

impl AppError {
    /// The error comes from storage that failed while a table was opened, and says what the
    /// database said.
    pub open spec fn is_opening_error(self) -> bool {
        self matches AppError::Table(text) && is_storage_text(text)
    }

    /// The error says that the table `name` does not exist.
    pub open spec fn is_missing_error(self, name: Seq<char>) -> bool {
        self matches AppError::Table(text) && is_table_text(text) && text@ == missing_text(name)
    }

    /// The error comes from a table that cannot be opened, and says what the database said.
    pub open spec fn is_table_error(self) -> bool {
        self matches AppError::Table(text) && is_table_text(text)
    }

    /// The error comes from reading or writing, and says what the database said.
    pub open spec fn is_storage_error(self) -> bool {
        self matches AppError::Storage(text) && is_storage_text(text)
    }

    /// The error comes from beginning a transaction, and says what the database said.
    pub open spec fn is_transaction_error(self) -> bool {
        self matches AppError::Transaction(text) && is_transaction_text(text)
    }

    /// The error comes from committing, and says what the database said.
    pub open spec fn is_commit_error(self) -> bool {
        self matches AppError::Commit(text) && is_commit_text(text)
    }

    /// The error in words.
    pub open spec fn message_spec(self) -> Seq<char> {
        match self {
            AppError::Unauthorized => "Authentication failed: Invalid Bearer token"@,
            AppError::DatabaseLocked => "Database is currently locked by another process"@,
            AppError::NotFound => "Resource not found"@,
            AppError::Database(fault) => "Database integrity error: "@ + fault@,
            AppError::Table(text) => "Table error: "@ + text@,
            AppError::Transaction(text) => "Storage transaction failed: "@ + text@,
            AppError::Network(text) => "Network request failed: "@ + text@,
            AppError::Io(text) => "Configuration or IO failure: "@ + text@,
            AppError::Template(text) => "Template rendering failed: "@ + text@,
            AppError::Internal(error) => "Internal system error: "@ + error@,
            AppError::Storage(text) => "Storage error: "@ + text@,
            AppError::Commit(text) => "Commit error: "@ + text@,
        }
    }

    /// The status of the answer.
    pub open spec fn status_spec(self) -> u16 {
        match self {
            AppError::Unauthorized => 401,
            AppError::NotFound => 404,
            AppError::Database(DatabaseFault::AlreadyOpen) => 423,
            _ => 500,
        }
    }

    /// The message of the answer: that of the error, unless the status is 500.
    pub open spec fn answer_spec(self) -> Seq<char> {
        if self.status_spec() == 500 {
            "An internal server error occurred"@
        } else {
            self.message_spec()
        }
    }

    /// The error in words.
    pub fn message(&self) -> (text: String)
        ensures
            text@ == self.message_spec(),
    {
        match self {
            AppError::Unauthorized => "Authentication failed: Invalid Bearer token".to_string(),
            AppError::DatabaseLocked => {
                "Database is currently locked by another process".to_string()
            },
            AppError::NotFound => "Resource not found".to_string(),
            AppError::Database(fault) => {
                join("Database integrity error: ", fault.message().as_str())
            },
            AppError::Table(text) => join("Table error: ", text.as_str()),
            AppError::Transaction(text) => join("Storage transaction failed: ", text.as_str()),
            AppError::Network(text) => join("Network request failed: ", text.as_str()),
            AppError::Io(text) => join("Configuration or IO failure: ", text.as_str()),
            AppError::Template(text) => join("Template rendering failed: ", text.as_str()),
            AppError::Internal(error) => join("Internal system error: ", error.0.as_str()),
            AppError::Storage(text) => join("Storage error: ", text.as_str()),
            AppError::Commit(text) => join("Commit error: ", text.as_str()),
        }
    }

    /// The answer to the request that failed.
    pub fn into_response(self) -> (reply: ErrorReply)
        ensures
            reply.status == self.status_spec(),
            reply.error@ == self.answer_spec(),
    {
        let error = self.message();
        match self {
            AppError::Unauthorized => ErrorReply { status: 401, error },
            AppError::NotFound => ErrorReply { status: 404, error },
            AppError::Database(DatabaseFault::AlreadyOpen) => ErrorReply { status: 423, error },
            _ => ErrorReply {
                status: 500,
                error: "An internal server error occurred".to_string(),
            },
        }
    }

    /// The error for a table that could not be opened.
    pub fn from_table(error: redb::TableError) -> (result: AppError)
        ensures
            result matches AppError::Table(text) && to_string_from_display_ensures(&error, text),
    {
        AppError::Table(error.to_string())
    }

    /// The error for a table that could not be read or written.
    pub fn from_storage(error: redb::StorageError) -> (result: AppError)
        ensures
            result matches AppError::Storage(text) && to_string_from_display_ensures(&error, text),
    {
        AppError::Storage(error.to_string())
    }

    /// The error for a transaction that could not begin.
    pub fn from_transaction(error: redb::TransactionError) -> (result: AppError)
        ensures
            result matches AppError::Transaction(text) && to_string_from_display_ensures(
                &error,
                text,
            ),
    {
        AppError::Transaction(error.to_string())
    }

    /// The error for a transaction that could not be committed.
    pub fn from_commit(error: redb::CommitError) -> (result: AppError)
        ensures
            result matches AppError::Commit(text) && to_string_from_display_ensures(&error, text),
    {
        AppError::Commit(error.to_string())
    }

    /// The error for a table that could not be opened for reading.
    pub fn from_open_fault(fault: OpenFault) -> (result: AppError)
        ensures
            result matches AppError::Table(text) && match fault {
                OpenFault::Missing(error) => to_string_from_display_ensures(&error, text),
                OpenFault::Refused(error) => to_string_from_display_ensures(&error, text),
                OpenFault::Storage(error) => to_string_from_display_ensures(&error, text),
            },
    {
        match fault {
            OpenFault::Missing(error) => AppError::from_table(error),
            OpenFault::Refused(error) => AppError::from_table(error),
            OpenFault::Storage(error) => AppError::Table(error.to_string()),
        }
    }

    /// The error for a table that could not be opened or written.
    pub fn from_fault(fault: TableFault) -> (result: AppError)
        ensures
            match fault {
                TableFault::Refused(error) => result matches AppError::Table(text)
                    && to_string_from_display_ensures(&error, text),
                TableFault::Opening(error) => result matches AppError::Table(text)
                    && to_string_from_display_ensures(&error, text),
                TableFault::Storage(error) => result matches AppError::Storage(text)
                    && to_string_from_display_ensures(&error, text),
            },
    {
        match fault {
            TableFault::Refused(error) => AppError::from_table(error),
            TableFault::Opening(error) => AppError::Table(error.to_string()),
            TableFault::Storage(error) => AppError::from_storage(error),
        }
    }
}

impl AnyhowError {
    /// The error whose message is what `error` displays.
    pub fn from<E: core::fmt::Display>(error: E) -> (result: AnyhowError)
        ensures
            to_string_from_display_ensures(&error, result.0),
    {
        AnyhowError(error.to_string())
    }

    /// The error for a table that could not be opened or used.
    pub fn from_fault(fault: TableFault) -> (result: AnyhowError)
        ensures
            match fault {
                TableFault::Refused(error) => to_string_from_display_ensures(&error, result.0),
                TableFault::Opening(error) => to_string_from_display_ensures(&error, result.0),
                TableFault::Storage(error) => to_string_from_display_ensures(&error, result.0),
            },
    {
        match fault {
            TableFault::Refused(error) => AnyhowError::from(error),
            TableFault::Opening(error) => AnyhowError::from(error),
            TableFault::Storage(error) => AnyhowError::from(error),
        }
    }

    /// The answer to the request that failed: the message itself.
    pub fn into_response(self) -> (reply: TextReply)
        ensures
            reply.status == 500,
            reply.body@ == self@,
    {
        TextReply { status: 500, body: self.0 }
    }
}

} // verus!
