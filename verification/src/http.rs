//! Network errors, simplified for the provider layer.
use vstd::prelude::*;
use crate::text;
use crate::text::{push_decimal, push_str};

verus! {

/// Simplified network error.
#[derive(Debug, Clone, PartialEq, Eq)]
pub enum HttpError {
    /// An HTTP status other than success, with the URL that answered it.
    Status(u16, String),
    Transport(String),
    Decode(String),
}

/// Text shown to the user for a network error.
pub open spec fn http_message(e: HttpError) -> Seq<char> {
    match e {
        HttpError::Status(c, url) => "HTTP "@ + text::decimal(c as nat) + " sur "@ + url@,
        HttpError::Transport(m) => "réseau : "@ + m@,
        HttpError::Decode(m) => "décodage : "@ + m@,
    }
}

impl HttpError {
    /// Text shown to the user (what `Display` prints).
    pub fn message(&self) -> (r: String)
        ensures
            r@ == http_message(*self),
    {
        match self {
            HttpError::Status(c, url) => {
                let mut r = "HTTP ".to_owned();
                push_decimal(&mut r, *c as u64);
                push_str(&mut r, " sur ");
                push_str(&mut r, url.as_str());
                r
            },
            HttpError::Transport(m) => {
                let mut r = "réseau : ".to_owned();
                push_str(&mut r, m.as_str());
                r
            },
            HttpError::Decode(m) => {
                let mut r = "décodage : ".to_owned();
                push_str(&mut r, m.as_str());
                r
            },
        }
    }
}

} // verus!
