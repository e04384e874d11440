//! The library's error type and the texts it reports to clients.

use vstd::prelude::*;

verus! {

#[derive(Debug, Clone)]
pub enum AppError {
    NotFound,
    InternalServerError(String),
    UnProcessableEntity { field: String, message: String },
    MissingEnvironmentVarible(String),
    ParsingError(String),
    UnAuthorized(String),
}

/// An `AppError` with its texts as character sequences.
pub enum ErrorView {
    NotFound,
    InternalServerError(Seq<char>),
    UnProcessableEntity { field: Seq<char>, message: Seq<char> },
    MissingEnvironmentVarible(Seq<char>),
    ParsingError(Seq<char>),
    UnAuthorized(Seq<char>),
}

impl View for AppError {
    type V = ErrorView;

    open spec fn view(&self) -> ErrorView {
        match self {
            AppError::NotFound => ErrorView::NotFound,
            AppError::InternalServerError(s) => ErrorView::InternalServerError(s@),
            AppError::UnProcessableEntity { field, message } => ErrorView::UnProcessableEntity {
                field: field@,
                message: message@,
            },
            AppError::MissingEnvironmentVarible(s) => ErrorView::MissingEnvironmentVarible(s@),
            AppError::ParsingError(s) => ErrorView::ParsingError(s@),
            AppError::UnAuthorized(s) => ErrorView::UnAuthorized(s@),
        }
    }
}

/// The text an error is reported with.
pub open spec fn error_text(e: ErrorView) -> Seq<char> {
    match e {
        ErrorView::NotFound => "Resource not found"@,
        ErrorView::InternalServerError(s) => "Internal Server Error: "@ + s,
        ErrorView::UnProcessableEntity { field, message } => "Invalid Input, cannot be processed: "@
            + field + " - "@ + message,
        ErrorView::MissingEnvironmentVarible(s) => "Environement Variable is missing: "@ + s,
        ErrorView::ParsingError(s) => "Failed to Parse: "@ + s,
        ErrorView::UnAuthorized(s) => "You dont have permission to perform this action: "@ + s,
    }
}

impl AppError {
    /// The error as a text, as its `Display` shows it.
    pub fn to_string(&self) -> (s: String)
        ensures
            s@ == error_text(self@),
    {
        match self {
            AppError::NotFound => String::from_str("Resource not found"),
            AppError::InternalServerError(m) => {
                let mut s = String::from_str("Internal Server Error: ");
                s.append(m.as_str());
                s
            },
            AppError::UnProcessableEntity { field, message } => {
                let mut s = String::from_str("Invalid Input, cannot be processed: ");
                s.append(field.as_str());
                s.append(" - ");
                s.append(message.as_str());
                s
            },
            AppError::MissingEnvironmentVarible(m) => {
                let mut s = String::from_str("Environement Variable is missing: ");
                s.append(m.as_str());
                s
            },
            AppError::ParsingError(m) => {
                let mut s = String::from_str("Failed to Parse: ");
                s.append(m.as_str());
                s
            },
            AppError::UnAuthorized(m) => {
                let mut s = String::from_str("You dont have permission to perform this action: ");
                s.append(m.as_str());
                s
            },
        }
    }
}

} // verus!
