//! What can go wrong with the API.

use vstd::prelude::*;
use vstd::string::*;

use crate::text::{nat_text, number_text};

verus! {

/// Why bars could not be had, with the words of it.
pub enum Trouble {
    Http(Seq<char>),
    Api { status: nat, detail: Seq<char> },
    Parse(Seq<char>),
    Config(Seq<char>),
}

/// Why bars could not be had.
#[derive(Debug)]
pub enum AlpacaError {
    /// The request could not be made, or its answer not be read.
    Http(String),
    /// The API answered with an error.
    Api { status: u16, detail: String },
    /// The answer is not what the API promises.
    Parse(String),
    /// A value in the answer is out of bounds.
    Config(String),
}

impl View for AlpacaError {
    type V = Trouble;

    open spec fn view(&self) -> Trouble {
        match self {
            AlpacaError::Http(e) => Trouble::Http(e@),
            AlpacaError::Api { status, detail } => Trouble::Api {
                status: *status as nat,
                detail: detail@,
            },
            AlpacaError::Parse(e) => Trouble::Parse(e@),
            AlpacaError::Config(e) => Trouble::Config(e@),
        }
    }
}

/// The words of an error.
pub open spec fn trouble_text(t: Trouble) -> Seq<char> {
    match t {
        Trouble::Http(e) => "request failed: "@ + e,
        Trouble::Api { status, detail } => "alpaca api error ("@ + nat_text(status) + "): "@ + detail,
        Trouble::Parse(e) => "response parse failed: "@ + e,
        Trouble::Config(e) => "invalid configuration: "@ + e,
    }
}

impl AlpacaError {
    /// The error in words.
    pub fn message(&self) -> (res: String)
        ensures
            res@ == trouble_text(self@),
    {
        match self {
            AlpacaError::Http(e) => {
                let mut out = "request failed: ".to_owned();
                out.append(e.as_str());
                out
            },
            AlpacaError::Api { status, detail } => {
                let mut out = "alpaca api error (".to_owned();
                out.append(number_text(*status as u64).as_str());
                out.append("): ");
                out.append(detail.as_str());
                out
            },
            AlpacaError::Parse(e) => {
                let mut out = "response parse failed: ".to_owned();
                out.append(e.as_str());
                out
            },
            AlpacaError::Config(e) => {
                let mut out = "invalid configuration: ".to_owned();
                out.append(e.as_str());
                out
            },
        }
    }
}

} // verus!
