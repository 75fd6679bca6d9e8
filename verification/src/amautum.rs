//! What Amautum answers.
use crate::text::{decimal, prefixed, push_decimal};
use vstd::prelude::*;
use vstd::string::*;

verus! {

/// What can go wrong with a call to Amautum. An error of the network is given by its message.
#[derive(Debug)]
pub enum AmautumError {
    Network(String),
    Rejected { status: u16, body: String },
}

/// An error by its texts.
pub enum AmautumErrorView {
    Network(Seq<char>),
    Rejected { status: u16, body: Seq<char> },
}

impl View for AmautumError {
    type V = AmautumErrorView;

    open spec fn view(&self) -> AmautumErrorView {
        match *self {
            AmautumError::Network(e) => AmautumErrorView::Network(e@),
            AmautumError::Rejected { status, body } => AmautumErrorView::Rejected {
                status,
                body: body@,
            },
        }
    }
}

impl AmautumErrorView {
    /// The message of the error.
    pub open spec fn text(self) -> Seq<char> {
        match self {
            AmautumErrorView::Network(e) => "Error de red al hablar con Amautum: "@ + e,
            AmautumErrorView::Rejected { status, body } => "Amautum rechazó la llamada ("@
                + decimal(status as nat) + "): "@ + body,
        }
    }

    /// Whether the call may succeed later: the network failed, or the server did. What the
    /// server refused it refuses again.
    pub open spec fn passing(self) -> bool {
        match self {
            AmautumErrorView::Network(_) => true,
            AmautumErrorView::Rejected { status, .. } => status >= 500,
        }
    }
}

impl AmautumError {
    /// The message of the error.
    pub fn message(&self) -> (r: String)
        ensures
            r@ == self@.text(),
    {
        match self {
            AmautumError::Network(e) => prefixed(
                "Error de red al hablar con Amautum: ",
                e.as_str(),
            ),
            AmautumError::Rejected { status, body } => {
                let mut out = "Amautum rechazó la llamada (".to_string();
                push_decimal(&mut out, *status as u64);
                out.append("): ");
                out.append(body.as_str());
                out
            },
        }
    }

    /// Whether the call may succeed later.
    pub fn retriable(&self) -> (r: bool)
        ensures
            r == self@.passing(),
    {
        match self {
            AmautumError::Network(_) => true,
            AmautumError::Rejected { status, .. } => *status >= 500,
        }
    }
}

/// What Amautum answers to a transcript that it takes.
#[derive(Debug)]
pub struct TranscriptResponse {
    pub ok: bool,
    pub transcript_id: String,
    pub already_done: bool,
}

/// Whether a status of HTTP says that the call succeeded.
pub open spec fn success(status: u16) -> bool {
    200 <= status < 300
}

/// Whether a status of HTTP says that the call succeeded.
pub fn is_success(status: u16) -> (r: bool)
    ensures
        r == success(status),
{
    200 <= status && status < 300
}

/// What stands for an answer that could not be read.
pub const UNREADABLE_BODY: &'static str = "(cuerpo no legible)";

/// What an answer of Amautum comes to, given its status and, where it could be read, its body.
pub fn check_answer(status: u16, body: Option<String>) -> (r: Result<(), AmautumError>)
    ensures
        r is Ok <==> success(status),
        r matches Err(e) ==> e@ == (AmautumErrorView::Rejected {
            status,
            body: match body {
                Some(b) => b@,
                None => UNREADABLE_BODY@,
            },
        }),
{
    if is_success(status) {
        return Ok(());
    }
    let body = match body {
        Some(b) => b,
        None => UNREADABLE_BODY.to_string(),
    };
    Err(AmautumError::Rejected { status, body })
}

/// A call that the network or the server failed may succeed later; one that was refused may not.
/// A call succeeded where its status says so. The message of an error carries its cause.
pub proof fn refusals_are_final(e: AmautumError, status: u16)
    ensures
        match e {
            AmautumError::Network(x) => e@.passing() && e@.text()
                == "Error de red al hablar con Amautum: "@ + x@,
            AmautumError::Rejected { status: s, body } => {
                &&& s >= 500 ==> e@.passing()
                &&& s < 500 ==> !e@.passing()
                &&& e@.text() == "Amautum rechazó la llamada ("@ + decimal(s as nat) + "): "@ + body@
            },
        },
        success(status) <==> status as int / 100 == 2,
{
}

} // verus!
