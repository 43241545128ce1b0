use crate::percent::{Percent, INVALID_PERCENT};
use vstd::prelude::*;
use vstd::string::*;

verus! {

/// Why an operation on the battery cannot be carried out.
#[derive(Debug, PartialEq, Eq)]
pub enum BatteryError {
    /// No battery device was named and none of the usual ones exists.
    NotFound,
    /// The attribute file at `path` could not be read.
    Unreadable { path: String },
    /// The file of the charge limit at `path` holds no level between 1 and 99.
    InvalidLimit { path: String },
    /// The device has a start threshold, and `limit` is too low to put one
    /// below it.
    NoStartThreshold { limit: Percent },
}

/// An error with its texts as sequences of characters.
pub enum BatteryErrorView {
    NotFound,
    Unreadable { path: Seq<char> },
    InvalidLimit { path: Seq<char> },
    NoStartThreshold { limit: Percent },
}

impl BatteryErrorView {
    /// What the user is told of the error.
    pub open spec fn message(self) -> Seq<char> {
        match self {
            BatteryErrorView::NotFound => "Battery not found"@,
            BatteryErrorView::Unreadable { path } => "Failed to read from "@ + path,
            BatteryErrorView::InvalidLimit { path } => "Failed to parse battery limit from "@ + path
                + ": "@ + INVALID_PERCENT@,
            BatteryErrorView::NoStartThreshold { limit } => "Limit "@ + limit.text()
                + " is too low for a start threshold"@,
        }
    }
}

impl View for BatteryError {
    type V = BatteryErrorView;

    open spec fn view(&self) -> BatteryErrorView {
        match self {
            BatteryError::NotFound => BatteryErrorView::NotFound,
            BatteryError::Unreadable { path } => BatteryErrorView::Unreadable { path: path@ },
            BatteryError::InvalidLimit { path } => BatteryErrorView::InvalidLimit { path: path@ },
            BatteryError::NoStartThreshold { limit } => BatteryErrorView::NoStartThreshold {
                limit: *limit,
            },
        }
    }
}

impl BatteryError {
    /// Words the error for the user.
    pub fn message(&self) -> (text: String)
        ensures
            text@ == self@.message(),
    {
        match self {
            BatteryError::NotFound => "Battery not found".to_owned(),
            BatteryError::Unreadable { path } => {
                let mut text = "Failed to read from ".to_owned();
                text.append(path.as_str());
                text
            },
            BatteryError::InvalidLimit { path } => {
                let mut text = "Failed to parse battery limit from ".to_owned();
                text.append(path.as_str());
                text.append(": ");
                text.append(INVALID_PERCENT);
                text
            },
            BatteryError::NoStartThreshold { limit } => {
                let mut text = "Limit ".to_owned();
                text.append(limit.to_string().as_str());
                text.append(" is too low for a start threshold");
                text
            },
        }
    }
}

} // verus!
