//! The ways in which decoding fails.

use crate::scalar::{decimal, push_decimal};
use vstd::prelude::*;

verus! {

/// Why a text could not be decoded. Every failure ends the whole decode:
/// no part of a document is returned beside an error.
///
/// `Xml`, `UnexpectedClose`, `Unclosed`, `NoRoot` and `ExtraRoot` say that the
/// text is not one well-formed XML element. `UnexpectedElement`,
/// `MissingField`, `DuplicateField` and `InvalidValue` say that the element
/// does not have the shape of the document model. `DepthExceeded` says that
/// a limit on resources was reached, whatever the data holds.
#[derive(Debug, PartialEq)]
pub enum DecodeError {
    /// The XML parser rejected the text. `position` is the byte offset that
    /// the parser reported, where it reported one.
    Xml { message: String, position: Option<u64> },
    /// A closing tag that does not close the innermost open element.
    UnexpectedClose { name: String },
    /// The text ended while the element `name` was still open.
    Unclosed { name: String },
    /// The text holds no element.
    NoRoot,
    /// A second element after the end of the first outermost one.
    ExtraRoot { name: String },
    /// Elements are nested more deeply than `limit`.
    DepthExceeded { limit: usize },
    /// An element named `found` where one named `expected` must stand.
    UnexpectedElement { expected: String, found: String },
    /// A required attribute or child element is absent.
    MissingField { field: String },
    /// An attribute or child element that may occur once occurs again.
    DuplicateField { field: String },
    /// The text of an attribute or child element does not denote a value
    /// of the field's type. `value` is the offending text.
    InvalidValue { field: String, value: String },
}

/// A decoding failure as a mathematical value.
pub enum Failure {
    Xml { message: Seq<char>, position: Option<u64> },
    UnexpectedClose { name: Seq<char> },
    Unclosed { name: Seq<char> },
    NoRoot,
    ExtraRoot { name: Seq<char> },
    DepthExceeded { limit: usize },
    UnexpectedElement { expected: Seq<char>, found: Seq<char> },
    MissingField { field: Seq<char> },
    DuplicateField { field: Seq<char> },
    InvalidValue { field: Seq<char>, value: Seq<char> },
}

impl View for DecodeError {
    type V = Failure;

    open spec fn view(&self) -> Failure {
        match self {
            DecodeError::Xml { message, position } => Failure::Xml {
                message: message@,
                position: *position,
            },
            DecodeError::UnexpectedClose { name } => Failure::UnexpectedClose { name: name@ },
            DecodeError::Unclosed { name } => Failure::Unclosed { name: name@ },
            DecodeError::NoRoot => Failure::NoRoot,
            DecodeError::ExtraRoot { name } => Failure::ExtraRoot { name: name@ },
            DecodeError::DepthExceeded { limit } => Failure::DepthExceeded { limit: *limit },
            DecodeError::UnexpectedElement { expected, found } => Failure::UnexpectedElement {
                expected: expected@,
                found: found@,
            },
            DecodeError::MissingField { field } => Failure::MissingField { field: field@ },
            DecodeError::DuplicateField { field } => Failure::DuplicateField { field: field@ },
            DecodeError::InvalidValue { field, value } => Failure::InvalidValue {
                field: field@,
                value: value@,
            },
        }
    }
}

/// What a fallible function returns, as a value of the model.
pub open spec fn outcome<T: DeepView>(r: Result<T, DecodeError>) -> Result<T::V, Failure> {
    match r {
        Ok(v) => Ok(v.deep_view()),
        Err(e) => Err(e@),
    }
}

/// A failure in words.
pub open spec fn description(f: Failure) -> Seq<char> {
    match f {
        Failure::Xml { message, position: Some(at) } => "malformed XML at byte "@ + decimal(
            at as nat,
        ) + ": "@ + message,
        Failure::Xml { message, position: None } => "malformed XML: "@ + message,
        Failure::UnexpectedClose { name } => "closing tag `"@ + name
            + "` does not close the innermost open element"@,
        Failure::Unclosed { name } => "element `"@ + name + "` is not closed"@,
        Failure::NoRoot => "the text holds no element"@,
        Failure::ExtraRoot { name } => "element `"@ + name
            + "` stands behind the end of the outermost element"@,
        Failure::DepthExceeded { limit } => "elements are nested more than "@ + decimal(
            limit as nat,
        ) + " deep"@,
        Failure::UnexpectedElement { expected, found } => "expected element `"@ + expected
            + "`, found `"@ + found + "`"@,
        Failure::MissingField { field } => "missing field `"@ + field + "`"@,
        Failure::DuplicateField { field } => "field `"@ + field + "` occurs more than once"@,
        Failure::InvalidValue { field, value } => "invalid value `"@ + value + "` for field `"@
            + field + "`"@,
    }
}

impl DecodeError {
    /// Says in words what failed.
    pub fn describe(&self) -> (s: String)
        ensures
            s@ == description(self@),
    {
        let mut s = String::new();
        match self {
            DecodeError::Xml { message, position: Some(at) } => {
                s.append("malformed XML at byte ");
                push_decimal(&mut s, *at);
                s.append(": ");
                s.append(message.as_str());
            },
            DecodeError::Xml { message, position: None } => {
                s.append("malformed XML: ");
                s.append(message.as_str());
            },
            DecodeError::UnexpectedClose { name } => {
                s.append("closing tag `");
                s.append(name.as_str());
                s.append("` does not close the innermost open element");
            },
            DecodeError::Unclosed { name } => {
                s.append("element `");
                s.append(name.as_str());
                s.append("` is not closed");
            },
            DecodeError::NoRoot => {
                s.append("the text holds no element");
            },
            DecodeError::ExtraRoot { name } => {
                s.append("element `");
                s.append(name.as_str());
                s.append("` stands behind the end of the outermost element");
            },
            DecodeError::DepthExceeded { limit } => {
                s.append("elements are nested more than ");
                push_decimal(&mut s, *limit as u64);
                s.append(" deep");
            },
            DecodeError::UnexpectedElement { expected, found } => {
                s.append("expected element `");
                s.append(expected.as_str());
                s.append("`, found `");
                s.append(found.as_str());
                s.append("`");
            },
            DecodeError::MissingField { field } => {
                s.append("missing field `");
                s.append(field.as_str());
                s.append("`");
            },
            DecodeError::DuplicateField { field } => {
                s.append("field `");
                s.append(field.as_str());
                s.append("` occurs more than once");
            },
            DecodeError::InvalidValue { field, value } => {
                s.append("invalid value `");
                s.append(value.as_str());
                s.append("` for field `");
                s.append(field.as_str());
                s.append("`");
            },
        }
        s
    }

    /// A required field is absent.
    pub fn missing(field: &str) -> (e: DecodeError)
        ensures
            e@ == (Failure::MissingField { field: field@ }),
    {
        DecodeError::MissingField { field: field.to_owned() }
    }

    /// A field occurs twice.
    pub fn duplicate(field: &str) -> (e: DecodeError)
        ensures
            e@ == (Failure::DuplicateField { field: field@ }),
    {
        DecodeError::DuplicateField { field: field.to_owned() }
    }

    /// A field holds a text that denotes no value of its type.
    pub fn invalid(field: &str, value: &str) -> (e: DecodeError)
        ensures
            e@ == (Failure::InvalidValue { field: field@, value: value@ }),
    {
        DecodeError::InvalidValue { field: field.to_owned(), value: value.to_owned() }
    }
}

} // verus!
