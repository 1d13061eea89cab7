//! HTTP statuses and the ways in which an HTTP exchange can end.

use vstd::prelude::*;

verus! {

/// What `reqwest::StatusCode` displays for a status code: the number and the
/// reason phrase.
pub uninterp spec fn status_text(code: u16) -> Seq<char>;

/// `reqwest::StatusCode::from_u16`, which accepts the codes from 100 to 999,
/// and the `Display` of the status. The result is a function of the code alone
/// and has the name `status_text`; which phrase belongs to which code is not
/// stated.
#[verifier::external_body]
fn status_line(code: u16) -> (r: String)
    requires
        100 <= code <= 999,
    ensures
        r@ == status_text(code),
{
    reqwest::StatusCode::from_u16(code).unwrap().to_string()
}

/// An HTTP status code, from 100 to 999.
#[derive(Debug, Clone, Copy, PartialEq, Eq)]
pub struct HttpStatus {
    code: u16,
}

impl View for HttpStatus {
    type V = u16;

    closed spec fn view(&self) -> u16 {
        self.code
    }
}

/// Whether the code reports success (200 to 299).
pub open spec fn is_success_code(code: u16) -> bool {
    200 <= code < 300
}

/// Whether the code reports a redirection (300 to 399).
pub open spec fn is_redirection_code(code: u16) -> bool {
    300 <= code < 400
}

impl HttpStatus {
    #[verifier::type_invariant]
    closed spec fn valid(self) -> bool {
        100 <= self.code <= 999
    }

    /// The status with the given code, where there is one.
    pub fn new(code: u16) -> (r: Option<HttpStatus>)
        ensures
            r is Some <==> 100 <= code <= 999,
            r matches Some(status) ==> status@ == code,
    {
        if 100 <= code && code <= 999 {
            Some(HttpStatus { code })
        } else {
            None
        }
    }

    /// The code of the status.
    pub fn code(&self) -> (r: u16)
        ensures
            r == self@,
            100 <= r <= 999,
    {
        proof {
            use_type_invariant(self);
        }
        self.code
    }

    /// Whether the status reports success.
    pub fn is_success(&self) -> (r: bool)
        ensures
            r == is_success_code(self@),
    {
        200 <= self.code && self.code < 300
    }

    /// Whether the status reports a redirection.
    pub fn is_redirection(&self) -> (r: bool)
        ensures
            r == is_redirection_code(self@),
    {
        300 <= self.code && self.code < 400
    }

    /// The number and the reason phrase of the status.
    pub fn line(&self) -> (r: String)
        ensures
            r@ == status_text(self@),
    {
        let code = self.code();
        status_line(code)
    }
}

/// How an HTTP exchange ended.
#[derive(Debug)]
pub enum HttpOutcome {
    /// The request could not be sent or was not answered, and why.
    Unsent(String),
    /// The body of the answer could not be read, and why.
    Unread(String),
    /// The answer: its status and its body.
    Reply(HttpStatus, String),
}

/// What an [`HttpOutcome`] stands for.
pub enum HttpOutcomeView {
    Unsent(Seq<char>),
    Unread(Seq<char>),
    Reply(u16, Seq<char>),
}

impl View for HttpOutcome {
    type V = HttpOutcomeView;

    open spec fn view(&self) -> HttpOutcomeView {
        match self {
            HttpOutcome::Unsent(e) => HttpOutcomeView::Unsent(e@),
            HttpOutcome::Unread(e) => HttpOutcomeView::Unread(e@),
            HttpOutcome::Reply(status, body) => HttpOutcomeView::Reply(status@, body@),
        }
    }
}

} // verus!
