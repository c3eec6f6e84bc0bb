//! HTTP responses of the deferred and pending flows: status codes, headers and
//! bodies, ready for a web framework to send.
use vstd::prelude::*;

use crate::common::str_eq;
use crate::deferred::{
    AuthTokenFlowOutcome, AuthTokenPollOutcome, DeferCreated, DeferError, DeferRequirement,
    DeferRequirementView, DeferWaiting, PaymentRequiredDefer, PendingOutcome,
    PersonTokenFlowOutcome, ResourceConsentFlowOutcome, requirement_body, requirement_challenge,
};
use crate::common::PendingStatus;
use crate::error::{AAuthErrorCode, AAuthProtocolError};
use crate::wire::{PaymentRequiredBody, PendingBody, PendingBodyView, TokenResponseBody};

verus! {

/// Infrastructure failure from a role service; answered with `server_error` (500 + JSON).
#[derive(Debug, Clone, Copy)]
pub struct InternalServiceError;

/// Body of a planned response.
#[derive(Debug, Clone)]
pub enum ResponseBody {
    Empty,
    Text(String),
    Pending(PendingBody),
    Token(TokenResponseBody),
    Error(AAuthProtocolError),
    Payment(PaymentRequiredBody),
}

/// Mathematical value of a [`ResponseBody`].
pub enum ResponseBodyView {
    Empty,
    Text(Seq<char>),
    Pending(PendingBodyView),
    Token(TokenResponseBody),
    Error(AAuthProtocolError),
    Payment(Seq<char>),
}

impl View for ResponseBody {
    type V = ResponseBodyView;

    open spec fn view(&self) -> ResponseBodyView {
        match self {
            ResponseBody::Empty => ResponseBodyView::Empty,
            ResponseBody::Text(t) => ResponseBodyView::Text(t@),
            ResponseBody::Pending(b) => ResponseBodyView::Pending(b@),
            ResponseBody::Token(b) => ResponseBodyView::Token(*b),
            ResponseBody::Error(e) => ResponseBodyView::Error(*e),
            ResponseBody::Payment(p) => ResponseBodyView::Payment(p.status@),
        }
    }
}

/// Status, headers (in insertion order) and body of an HTTP response.
#[derive(Debug, Clone)]
pub struct ResponsePlan {
    pub status: u16,
    pub headers: Vec<(String, String)>,
    pub body: ResponseBody,
}

pub open spec fn header_views(h: Seq<(String, String)>) -> Seq<(Seq<char>, Seq<char>)> {
    h.map_values(|e: (String, String)| (e.0@, e.1@))
}

impl View for ResponsePlan {
    type V = (u16, Seq<(Seq<char>, Seq<char>)>, ResponseBodyView);

    open spec fn view(&self) -> (u16, Seq<(Seq<char>, Seq<char>)>, ResponseBodyView) {
        (self.status, header_views(self.headers@), self.body@)
    }
}

// ---------------------------------------------------------------------------------------------
// Polling status
// ---------------------------------------------------------------------------------------------

/// HTTP status of a polling error, by the error code's spelling.
pub open spec fn polling_status_of_text(s: Seq<char>) -> u16 {
    if s == "denied"@ || s == "abandoned"@ || s == "access_denied"@ {
        403
    } else if s == "expired"@ || s == "interaction_expired"@ {
        408
    } else if s == "invalid_code"@ {
        410
    } else if s == "slow_down"@ {
        429
    } else if s == "server_error"@ || s == "temporarily_unavailable"@ {
        500
    } else {
        403
    }
}

/// HTTP status of a polling error response.
pub open spec fn polling_status_of(code: AAuthErrorCode) -> u16 {
    match code {
        AAuthErrorCode::Denied | AAuthErrorCode::Abandoned | AAuthErrorCode::AccessDenied => 403,
        AAuthErrorCode::Expired | AAuthErrorCode::InteractionExpired => 408,
        AAuthErrorCode::InvalidCode => 410,
        AAuthErrorCode::SlowDown => 429,
        AAuthErrorCode::ServerError | AAuthErrorCode::TemporarilyUnavailable => 500,
        AAuthErrorCode::Custom(s) => polling_status_of_text(s@),
        _ => 403,
    }
}

/// HTTP status for a polling error response: 403 for denial, 408 for expiry,
/// 410 for an invalid code, 429 for slow down, 500 for server trouble; an
/// extension code spelled like one of these is treated the same.
pub fn polling_status(err: &AAuthProtocolError) -> (s: u16)
    ensures
        s == polling_status_of(err.error),
{
    match &err.error {
        AAuthErrorCode::Denied | AAuthErrorCode::Abandoned | AAuthErrorCode::AccessDenied => 403,
        AAuthErrorCode::Expired | AAuthErrorCode::InteractionExpired => 408,
        AAuthErrorCode::InvalidCode => 410,
        AAuthErrorCode::SlowDown => 429,
        AAuthErrorCode::ServerError | AAuthErrorCode::TemporarilyUnavailable => 500,
        AAuthErrorCode::Custom(code) => {
            let c = code.as_str();
            if str_eq(c, "denied") || str_eq(c, "abandoned") || str_eq(c, "access_denied") {
                403
            } else if str_eq(c, "expired") || str_eq(c, "interaction_expired") {
                408
            } else if str_eq(c, "invalid_code") {
                410
            } else if str_eq(c, "slow_down") {
                429
            } else if str_eq(c, "server_error") || str_eq(c, "temporarily_unavailable") {
                500
            } else {
                403
            }
        },
        _ => 403,
    }
}

/// The polling status of an error depends on its spelling alone: a code parsed
/// from `s` is answered with the status that `s` names, whether the code is a
/// listed one or an extension code.
pub proof fn lemma_polling_status_by_spelling(code: AAuthErrorCode, s: Seq<char>)
    requires
        code.parsed_from(s),
    ensures
        polling_status_of(code) == polling_status_of_text(s),
{
    crate::error::lemma_known_spellings();
    crate::error::lemma_error_code_spelling(code, s);
}

/// The polling statuses by error code: denial, abandonment and refused access
/// are `403 Forbidden`; expiry `408`; an invalid code `410`; slow down `429`;
/// server trouble `500`. An extension code spelled like one of these gets the
/// same status.
pub proof fn lemma_polling_status_classes(code: AAuthErrorCode, s: Seq<char>)
    ensures
        code == AAuthErrorCode::Denied || code == AAuthErrorCode::Abandoned || code
            == AAuthErrorCode::AccessDenied ==> polling_status_of(code) == 403,
        code == AAuthErrorCode::Expired || code == AAuthErrorCode::InteractionExpired
            ==> polling_status_of(code) == 408,
        code == AAuthErrorCode::InvalidCode ==> polling_status_of(code) == 410,
        code == AAuthErrorCode::SlowDown ==> polling_status_of(code) == 429,
        code == AAuthErrorCode::ServerError || code == AAuthErrorCode::TemporarilyUnavailable
            ==> polling_status_of(code) == 500,
        s == "denied"@ || s == "abandoned"@ || s == "access_denied"@ ==> polling_status_of_text(s)
            == 403,
        s == "expired"@ || s == "interaction_expired"@ ==> polling_status_of_text(s) == 408,
        polling_status_of(AAuthErrorCode::Abandoned) == polling_status_of(AAuthErrorCode::Denied),
        polling_status_of_text("abandoned"@) == polling_status_of_text("denied"@),
{
    reveal_strlit("denied");
    reveal_strlit("abandoned");
    reveal_strlit("access_denied");
    reveal_strlit("expired");
    reveal_strlit("interaction_expired");
    assert("denied"@.len() == 6);
    assert("abandoned"@.len() == 9);
    assert("access_denied"@.len() == 13);
    assert("expired"@.len() == 7);
    assert("interaction_expired"@.len() == 19);
}

// ---------------------------------------------------------------------------------------------
// Headers
// ---------------------------------------------------------------------------------------------

/// Headers of every pending response: no retry delay, no caching, and the
/// `AAuth-Requirement` challenge when the requirement has one.
pub open spec fn poll_headers(requirement: DeferRequirementView) -> Seq<(Seq<char>, Seq<char>)> {
    seq![("Retry-After"@, "0"@), ("Cache-Control"@, "no-store"@)] + match requirement_challenge(
        requirement,
    ) {
        Some(c) => seq![("AAuth-Requirement"@, c.header())],
        None => Seq::empty(),
    }
}

/// Headers of a `202` that creates a pending URL.
pub open spec fn defer_created_headers(location: Seq<char>, requirement: DeferRequirementView) -> Seq<
    (Seq<char>, Seq<char>),
> {
    seq![("Location"@, location)] + poll_headers(requirement) + seq![
        ("Content-Type"@, "application/json"@),
    ]
}

fn header(name: &str, value: &str) -> (h: (String, String))
    ensures
        h.0@ == name@,
        h.1@ == value@,
{
    (String::from_str(name), String::from_str(value))
}

fn push_poll_headers(headers: &mut Vec<(String, String)>, requirement: &DeferRequirement)
    ensures
        header_views(final(headers)@) == header_views(old(headers)@) + poll_headers(requirement@),
{
    let ghost before = header_views(headers@);
    headers.push(header("Retry-After", "0"));
    headers.push(header("Cache-Control", "no-store"));
    proof {
        assert(header_views(headers@) =~= before + seq![
            ("Retry-After"@, "0"@),
            ("Cache-Control"@, "no-store"@),
        ]);
    }
    match requirement.header_challenge() {
        Ok(challenge) => {
            let ghost mid = header_views(headers@);
            let value = challenge.to_header();
            headers.push((String::from_str("AAuth-Requirement"), value));
            proof {
                assert(header_views(headers@) =~= mid.push(("AAuth-Requirement"@, value@)));
                assert(header_views(headers@) =~= header_views(old(headers)@) + poll_headers(
                    requirement@,
                ));
            }
        },
        Err(_) => {
            proof {
                assert(header_views(headers@) =~= header_views(old(headers)@) + poll_headers(
                    requirement@,
                ));
            }
        },
    }
}

// ---------------------------------------------------------------------------------------------
// Response plans
// ---------------------------------------------------------------------------------------------

/// A response with no headers.
pub open spec fn bare(status: u16, body: ResponseBodyView) -> (
    u16,
    Seq<(Seq<char>, Seq<char>)>,
    ResponseBodyView,
) {
    (status, Seq::empty(), body)
}

pub open spec fn defer_error_text(e: DeferError) -> Seq<char> {
    match e {
        DeferError::PaymentHasNoChallenge => "payment defer uses 402, not AAuth-Requirement"@,
        DeferError::PaymentHasNoPendingBody => "payment defer uses 402, not pending JSON body"@,
    }
}

/// Response to a newly created deferred request.
pub open spec fn defer_created_response(location: Seq<char>, requirement: DeferRequirementView) -> (
    u16,
    Seq<(Seq<char>, Seq<char>)>,
    ResponseBodyView,
) {
    match requirement_body(requirement, PendingStatus::Pending) {
        Some(b) => (202, defer_created_headers(location, requirement), ResponseBodyView::Pending(b)),
        None => bare(500, ResponseBodyView::Text(defer_error_text(DeferError::PaymentHasNoPendingBody))),
    }
}

/// Response while a deferred request is still waiting.
pub open spec fn defer_waiting_response(status: PendingStatus, requirement: DeferRequirementView) -> (
    u16,
    Seq<(Seq<char>, Seq<char>)>,
    ResponseBodyView,
) {
    match requirement_body(requirement, status) {
        Some(b) => (
            202,
            poll_headers(requirement) + seq![("Content-Type"@, "application/json"@)],
            ResponseBodyView::Pending(b),
        ),
        None => bare(500, ResponseBodyView::Text(defer_error_text(DeferError::PaymentHasNoPendingBody))),
    }
}

/// Response carrying a terminal pending outcome.
pub open spec fn pending_outcome_response(o: PendingOutcome) -> (
    u16,
    Seq<(Seq<char>, Seq<char>)>,
    ResponseBodyView,
) {
    match o {
        PendingOutcome::AuthToken(b) => bare(200, ResponseBodyView::Token(b)),
        PendingOutcome::OpaqueAccess(t) => (
            200,
            seq![("AAuth-Access"@, t@)],
            ResponseBodyView::Empty,
        ),
        PendingOutcome::Error(e) => bare(polling_status_of(e.error), ResponseBodyView::Error(e)),
    }
}

fn text_response(status: u16, text: String) -> (r: ResponsePlan)
    ensures
        r@ == bare(status, ResponseBodyView::Text(text@)),
{
    let r = ResponsePlan { status, headers: Vec::new(), body: ResponseBody::Text(text) };
    proof {
        assert(header_views(r.headers@) =~= Seq::<(Seq<char>, Seq<char>)>::empty());
    }
    r
}

fn bare_response(status: u16, body: ResponseBody) -> (r: ResponsePlan)
    ensures
        r@ == bare(status, body@),
{
    let r = ResponsePlan { status, headers: Vec::new(), body };
    proof {
        assert(header_views(r.headers@) =~= Seq::<(Seq<char>, Seq<char>)>::empty());
    }
    r
}

impl InternalServiceError {
    /// `500` with a `server_error` body.
    pub fn response_plan(self) -> (r: ResponsePlan)
        ensures
            r@ == bare(500, ResponseBodyView::Error(AAuthProtocolError {
                error: AAuthErrorCode::ServerError,
                error_description: None,
                error_uri: None,
            })),
    {
        bare_response(500, ResponseBody::Error(AAuthProtocolError::server_error()))
    }
}

impl DeferCreated {
    /// `202` with `Location`, the poll headers and the pending body.
    pub fn response_plan(self) -> (r: ResponsePlan)
        ensures
            r@ == defer_created_response(self.location@, self.requirement@),
    {
        let body = match PendingBody::for_created(&self.requirement) {
            Ok(b) => b,
            Err(e) => {
                return text_response(500, e.to_string());
            },
        };
        self.finish_created(body)
    }

    fn finish_created(self, body: PendingBody) -> (r: ResponsePlan)
        requires
            requirement_body(self.requirement@, PendingStatus::Pending) == Some(body@),
        ensures
            r@ == defer_created_response(self.location@, self.requirement@),
    {
        let mut headers: Vec<(String, String)> = Vec::new();
        let ghost location = self.location@;
        headers.push((String::from_str("Location"), self.location));
        proof {
            assert(header_views(headers@) =~= seq![("Location"@, location)]);
        }
        push_poll_headers(&mut headers, &self.requirement);
        let ghost mid = header_views(headers@);
        headers.push(header("Content-Type", "application/json"));
        proof {
            assert(header_views(headers@) =~= mid.push(("Content-Type"@, "application/json"@)));
            assert(header_views(headers@) =~= defer_created_headers(location, self.requirement@));
        }
        ResponsePlan { status: 202, headers, body: ResponseBody::Pending(body) }
    }
}

impl DeferWaiting {
    /// `202` with the poll headers and the pending body.
    pub fn response_plan(self) -> (r: ResponsePlan)
        ensures
            r@ == defer_waiting_response(self.status, self.requirement@),
    {
        let body = match PendingBody::for_waiting(&self.requirement, self.status) {
            Ok(b) => b,
            Err(e) => {
                return text_response(500, e.to_string());
            },
        };
        let mut headers: Vec<(String, String)> = Vec::new();
        push_poll_headers(&mut headers, &self.requirement);
        let ghost mid = header_views(headers@);
        headers.push(header("Content-Type", "application/json"));
        proof {
            assert(header_views(headers@) =~= mid.push(("Content-Type"@, "application/json"@)));
            assert(Seq::<(Seq<char>, Seq<char>)>::empty() + poll_headers(self.requirement@)
                =~= poll_headers(self.requirement@));
        }
        ResponsePlan { status: 202, headers, body: ResponseBody::Pending(body) }
    }
}

impl PaymentRequiredDefer {
    /// `402` with `Location` and a `{"status": "pending"}` body.
    pub fn response_plan(self) -> (r: ResponsePlan)
        ensures
            r@ == (
                402u16,
                seq![("Location"@, self.location@), ("Content-Type"@, "application/json"@)],
                ResponseBodyView::Payment("pending"@),
            ),
    {
        let ghost location = self.location@;
        let mut headers: Vec<(String, String)> = Vec::new();
        headers.push((String::from_str("Location"), self.location));
        headers.push(header("Content-Type", "application/json"));
        proof {
            assert(header_views(headers@) =~= seq![
                ("Location"@, location),
                ("Content-Type"@, "application/json"@),
            ]);
        }
        ResponsePlan {
            status: 402,
            headers,
            body: ResponseBody::Payment(PaymentRequiredBody::pending()),
        }
    }
}

impl PendingOutcome {
    /// `200` with the token or the opaque access header, or the error with its polling status.
    pub fn response_plan(self) -> (r: ResponsePlan)
        ensures
            r@ == pending_outcome_response(self),
    {
        match self {
            PendingOutcome::AuthToken(body) => bare_response(200, ResponseBody::Token(body)),
            PendingOutcome::OpaqueAccess(token) => {
                let ghost t = token@;
                let mut headers: Vec<(String, String)> = Vec::new();
                headers.push((String::from_str("AAuth-Access"), token));
                proof {
                    assert(header_views(headers@) =~= seq![("AAuth-Access"@, t)]);
                }
                ResponsePlan { status: 200, headers, body: ResponseBody::Empty }
            },
            PendingOutcome::Error(err) => {
                let status = polling_status(&err);
                bare_response(status, ResponseBody::Error(err))
            },
        }
    }
}

/// Response to a token exchange flow outcome.
pub open spec fn flow_response(o: AuthTokenFlowOutcome) -> (
    u16,
    Seq<(Seq<char>, Seq<char>)>,
    ResponseBodyView,
) {
    match o {
        AuthTokenFlowOutcome::Granted(b) => bare(200, ResponseBodyView::Token(b)),
        AuthTokenFlowOutcome::Deferred(d) => defer_created_response(d.location@, d.requirement@),
        AuthTokenFlowOutcome::Denied(e) => bare(403, ResponseBodyView::Error(e)),
        AuthTokenFlowOutcome::Gone => bare(410, ResponseBodyView::Empty),
    }
}

impl AuthTokenFlowOutcome {
    /// `200` token, the deferred `202`, `403` error, or `410 Gone`.
    pub fn response_plan(self) -> (r: ResponsePlan)
        ensures
            r@ == flow_response(self),
    {
        match self {
            AuthTokenFlowOutcome::Granted(body) => bare_response(200, ResponseBody::Token(body)),
            AuthTokenFlowOutcome::Deferred(defer) => defer.response_plan(),
            AuthTokenFlowOutcome::Denied(err) => bare_response(403, ResponseBody::Error(err)),
            AuthTokenFlowOutcome::Gone => bare_response(410, ResponseBody::Empty),
        }
    }
}

impl AuthTokenPollOutcome {
    /// The waiting `202`, the terminal outcome, or `410 Gone`.
    pub fn response_plan(self) -> (r: ResponsePlan)
        ensures
            r@ == match self {
                AuthTokenPollOutcome::Pending(w) => defer_waiting_response(
                    w.status,
                    w.requirement@,
                ),
                AuthTokenPollOutcome::Complete(o) => pending_outcome_response(o),
                AuthTokenPollOutcome::Gone => bare(410, ResponseBodyView::Empty),
            },
    {
        match self {
            AuthTokenPollOutcome::Pending(waiting) => waiting.response_plan(),
            AuthTokenPollOutcome::Complete(outcome) => outcome.response_plan(),
            AuthTokenPollOutcome::Gone => bare_response(410, ResponseBody::Empty),
        }
    }
}

impl PersonTokenFlowOutcome {
    /// The flow response, `401`, `502`, or `410 Gone`.
    pub fn response_plan(self) -> (r: ResponsePlan)
        ensures
            r@ == match self {
                PersonTokenFlowOutcome::Flow(f) => flow_response(f),
                PersonTokenFlowOutcome::Unauthorized => bare(401, ResponseBodyView::Empty),
                PersonTokenFlowOutcome::BadGateway => bare(502, ResponseBodyView::Empty),
                PersonTokenFlowOutcome::Gone => bare(410, ResponseBodyView::Empty),
            },
    {
        match self {
            PersonTokenFlowOutcome::Flow(flow) => flow.response_plan(),
            PersonTokenFlowOutcome::Unauthorized => bare_response(401, ResponseBody::Empty),
            PersonTokenFlowOutcome::BadGateway => bare_response(502, ResponseBody::Empty),
            PersonTokenFlowOutcome::Gone => bare_response(410, ResponseBody::Empty),
        }
    }
}

impl ResourceConsentFlowOutcome {
    /// `200` with `AAuth-Access`, the deferred `202`, or `403` error.
    pub fn response_plan(self) -> (r: ResponsePlan)
        ensures
            r@ == match self {
                ResourceConsentFlowOutcome::GrantOpaque(t) => (
                    200u16,
                    seq![("AAuth-Access"@, t@)],
                    ResponseBodyView::Empty,
                ),
                ResourceConsentFlowOutcome::Deferred(d) => defer_created_response(
                    d.location@,
                    d.requirement@,
                ),
                ResourceConsentFlowOutcome::Denied(e) => bare(403, ResponseBodyView::Error(e)),
            },
    {
        match self {
            ResourceConsentFlowOutcome::GrantOpaque(token) => {
                let ghost t = token@;
                let mut headers: Vec<(String, String)> = Vec::new();
                headers.push((String::from_str("AAuth-Access"), token));
                proof {
                    assert(header_views(headers@) =~= seq![("AAuth-Access"@, t)]);
                }
                ResponsePlan { status: 200, headers, body: ResponseBody::Empty }
            },
            ResourceConsentFlowOutcome::Deferred(defer) => defer.response_plan(),
            ResourceConsentFlowOutcome::Denied(err) => bare_response(403, ResponseBody::Error(err)),
        }
    }
}

} // verus!
