//! The HTML page that the proxy shows when it cannot serve a request.
use vstd::prelude::*;
use crate::shared::error::{BAD_GATEWAY, BAD_REQUEST, INTERNAL_SERVER_ERROR, NOT_FOUND, UNAUTHORIZED};
use crate::shared::status::{canonical_reason, status_reason, valid_status_code};
use crate::text::{decimal, decimal_string, owned, push_str};

verus! {

pub struct ErrorPage {
    pub status_code: u16,
    pub message: String,
}

impl ErrorPage {
    pub fn bad_request(message: String) -> (r: Self)
        ensures
            r.status_code == BAD_REQUEST,
            r.message@ == message@,
    {
        ErrorPage { status_code: BAD_REQUEST, message }
    }

    pub fn bad_gateway(message: String) -> (r: Self)
        ensures
            r.status_code == BAD_GATEWAY,
            r.message@ == message@,
    {
        ErrorPage { status_code: BAD_GATEWAY, message }
    }

    pub fn error(message: String) -> (r: Self)
        ensures
            r.status_code == INTERNAL_SERVER_ERROR,
            r.message@ == message@,
    {
        ErrorPage { status_code: INTERNAL_SERVER_ERROR, message }
    }

    pub fn not_found(message: String) -> (r: Self)
        ensures
            r.status_code == NOT_FOUND,
            r.message@ == message@,
    {
        ErrorPage { status_code: NOT_FOUND, message }
    }

    pub fn unauthorized(message: String) -> (r: Self)
        ensures
            r.status_code == UNAUTHORIZED,
            r.message@ == message@,
    {
        ErrorPage { status_code: UNAUTHORIZED, message }
    }

    /// The page for an error that the server behind the proxy reported
    /// (status and message of its error body): 502, 400, 401 and 404 keep
    /// their status, anything else becomes 500.
    pub fn for_reported_status(status: u16, message: String) -> (r: Self)
        ensures
            r.message@ == message@,
            r.status_code == (if status == BAD_GATEWAY || status == BAD_REQUEST || status == UNAUTHORIZED
                || status == NOT_FOUND {
                status
            } else {
                INTERNAL_SERVER_ERROR
            }),
    {
        if status == 502 {
            Self::bad_gateway(message)
        } else if status == 400 {
            Self::bad_request(message)
        } else if status == 401 {
            Self::unauthorized(message)
        } else if status == 404 {
            Self::not_found(message)
        } else {
            Self::error(message)
        }
    }
}

pub const PAGE_START: &'static str = "\n<!DOCTYPE html>\n<html>\n    <head>\n        <title>";

pub const PAGE_STYLE_AND_HEADING: &'static str = "</title>\n        <style>\n            body {\n                font-family: sans-serif;\n                display: flex;\n                justify-content: center;\n                align-items: center;\n                height: 100vh;\n                margin: 0;\n            }\n            div {\n                width: 100vw;\n                max-width: 600px;\n                text-align: center;\n            }\n            h1 {\n                font-size: 2.5em;\n            }\n        </style>\n    </head>\n    <body>\n        <div>\n            <h1>";

pub const PAGE_BEFORE_MESSAGE: &'static str = "</h1>\n            <hr />\n            <p>";

pub const PAGE_END: &'static str = "</p>\n        </div>\n    </body>\n</html>\n";

/// The reason phrase shown for a status code: `http`'s, or nothing.
pub open spec fn reason_or_empty(code: u16) -> Seq<char> {
    match status_reason(code) {
        Some(r) => r,
        None => Seq::empty(),
    }
}

/// The error page for a status code and a message: the reason phrase as the
/// title, the code and the phrase as the heading, and the message (as it is,
/// not escaped) as the paragraph.
pub open spec fn html_page(code: u16, message: Seq<char>) -> Seq<char> {
    PAGE_START@ + reason_or_empty(code) + PAGE_STYLE_AND_HEADING@ + decimal(code as nat) + " "@
        + reason_or_empty(code) + PAGE_BEFORE_MESSAGE@ + message + PAGE_END@
}

pub fn create_html(status_code: u16, message: &str) -> (r: String)
    requires
        valid_status_code(status_code),
    ensures
        r@ == html_page(status_code, message@),
{
    let reason = match canonical_reason(status_code) {
        Some(r) => r,
        None => String::new(),
    };
    let mut page = owned(PAGE_START);
    push_str(&mut page, reason.as_str());
    push_str(&mut page, PAGE_STYLE_AND_HEADING);
    let code = decimal_string(status_code as u64);
    push_str(&mut page, code.as_str());
    push_str(&mut page, " ");
    push_str(&mut page, reason.as_str());
    push_str(&mut page, PAGE_BEFORE_MESSAGE);
    push_str(&mut page, message);
    push_str(&mut page, PAGE_END);
    page
}

} // verus!
