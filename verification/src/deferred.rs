//! Deferred (`202`/`402`) requirements, pending state and the outcomes of the
//! token and consent flows.
use vstd::prelude::*;

use crate::clock::now_unix_secs;
use crate::common::PendingStatus;
use crate::error::AAuthProtocolError;
use crate::headers::{AAuthChallenge, ChallengeView};
use crate::wire::{
    ClaimsChallenge, ClarificationChallenge, PendingBody, PendingBodyView, PendingStatusBody,
    TokenResponseBody, strings_view,
};

verus! {

/// Deferred `AAuth-Requirement` kept in server-side pending state.
#[derive(Debug, Clone, PartialEq, Eq)]
pub enum DeferRequirement {
    /// `requirement=interaction` with its `url` and `code`.
    Interaction { url: String, code: String },
    /// `requirement=clarification` with an optional response deadline in seconds.
    Clarification { question: String, timeout: Option<u64> },
    /// `requirement=claims` with the claim names the recipient must provide.
    Claims { required_claims: Vec<String> },
    /// `requirement=approval`: poll until a terminal response.
    Approval,
    /// `402 Payment Required`: poll `location` after payment settlement.
    Payment { location: String },
}

/// Mathematical value of a [`DeferRequirement`].
pub enum DeferRequirementView {
    Interaction(Seq<char>, Seq<char>),
    Clarification(Seq<char>, Option<u64>),
    Claims(Seq<Seq<char>>),
    Approval,
    Payment(Seq<char>),
}

impl View for DeferRequirement {
    type V = DeferRequirementView;

    open spec fn view(&self) -> DeferRequirementView {
        match self {
            DeferRequirement::Interaction { url, code } => DeferRequirementView::Interaction(
                url@,
                code@,
            ),
            DeferRequirement::Clarification { question, timeout } =>
                DeferRequirementView::Clarification(question@, *timeout),
            DeferRequirement::Claims { required_claims } => DeferRequirementView::Claims(
                strings_view(required_claims@),
            ),
            DeferRequirement::Approval => DeferRequirementView::Approval,
            DeferRequirement::Payment { location } => DeferRequirementView::Payment(location@),
        }
    }
}

/// Why a payment requirement cannot take the form asked for.
#[derive(Debug, Clone, Copy, PartialEq, Eq, Structural)]
pub enum DeferError {
    /// A payment defer is answered with `402`, not an `AAuth-Requirement` header.
    PaymentHasNoChallenge,
    /// A payment defer is answered with `402`, not a pending JSON body.
    PaymentHasNoPendingBody,
}

impl DeferError {
    /// Human-readable description of the error.
    pub fn to_string(&self) -> (s: String)
        ensures
            s@ == match self {
                DeferError::PaymentHasNoChallenge => "payment defer uses 402, not AAuth-Requirement"@,
                DeferError::PaymentHasNoPendingBody =>
                    "payment defer uses 402, not pending JSON body"@,
            },
    {
        match self {
            DeferError::PaymentHasNoChallenge => String::from_str(
                "payment defer uses 402, not AAuth-Requirement",
            ),
            DeferError::PaymentHasNoPendingBody => String::from_str(
                "payment defer uses 402, not pending JSON body",
            ),
        }
    }
}

/// A copy of a list of strings.
pub fn clone_strings(v: &Vec<String>) -> (r: Vec<String>)
    ensures
        strings_view(r@) == strings_view(v@),
{
    let mut r: Vec<String> = Vec::new();
    let mut i: usize = 0;
    while i < v.len()
        invariant
            i <= v.len(),
            strings_view(r@) == strings_view(v@.subrange(0, i as int)),
        decreases v.len() - i,
    {
        let ghost before = r@;
        r.push(v[i].clone());
        proof {
            assert(strings_view(r@) =~= strings_view(before).push(v@[i as int]@));
            assert(strings_view(v@.subrange(0, i + 1)) =~= strings_view(
                v@.subrange(0, i as int),
            ).push(v@[i as int]@));
        }
        i = i + 1;
    }
    proof {
        assert(v@.subrange(0, v@.len() as int) =~= v@);
    }
    r
}

/// The `AAuth-Requirement` challenge of a deferred requirement; none for payment.
pub open spec fn requirement_challenge(r: DeferRequirementView) -> Option<ChallengeView> {
    match r {
        DeferRequirementView::Interaction(url, code) => Some(ChallengeView::Interaction(url, code)),
        DeferRequirementView::Clarification(_, _) => Some(ChallengeView::Clarification),
        DeferRequirementView::Claims(_) => Some(ChallengeView::Claims),
        DeferRequirementView::Approval => Some(ChallengeView::Approval),
        DeferRequirementView::Payment(_) => None,
    }
}

/// The pending JSON body of a deferred requirement in `status`; none for payment.
pub open spec fn requirement_body(r: DeferRequirementView, status: PendingStatus) -> Option<
    PendingBodyView,
> {
    match r {
        DeferRequirementView::Clarification(question, timeout) => Some(
            PendingBodyView::Clarification {
                status,
                clarification: question,
                timeout,
                options: None,
            },
        ),
        DeferRequirementView::Claims(required_claims) => Some(
            PendingBodyView::Claims { status, required_claims },
        ),
        DeferRequirementView::Interaction(_, _) | DeferRequirementView::Approval => Some(
            PendingBodyView::Status(status),
        ),
        DeferRequirementView::Payment(_) => None,
    }
}

impl DeferRequirement {
    /// A copy of the requirement.
    pub fn duplicate(&self) -> (r: DeferRequirement)
        ensures
            r@ == self@,
    {
        match self {
            DeferRequirement::Interaction { url, code } => DeferRequirement::Interaction {
                url: url.clone(),
                code: code.clone(),
            },
            DeferRequirement::Clarification { question, timeout } =>
                DeferRequirement::Clarification { question: question.clone(), timeout: *timeout },
            DeferRequirement::Claims { required_claims } => DeferRequirement::Claims {
                required_claims: clone_strings(required_claims),
            },
            DeferRequirement::Approval => DeferRequirement::Approval,
            DeferRequirement::Payment { location } => DeferRequirement::Payment {
                location: location.clone(),
            },
        }
    }

    /// Header-only [`AAuthChallenge`] for this deferred requirement; a payment
    /// requirement has none, as it is answered with `402`.
    pub fn header_challenge(&self) -> (r: Result<AAuthChallenge, DeferError>)
        ensures
            match requirement_challenge(self@) {
                Some(c) => r matches Ok(h) && h@ == c,
                None => r == Err::<AAuthChallenge, DeferError>(DeferError::PaymentHasNoChallenge),
            },
    {
        match self {
            DeferRequirement::Interaction { url, code } => Ok(
                AAuthChallenge::Interaction { url: url.clone(), code: code.clone() },
            ),
            DeferRequirement::Clarification { .. } => Ok(AAuthChallenge::Clarification),
            DeferRequirement::Claims { .. } => Ok(AAuthChallenge::Claims),
            DeferRequirement::Approval => Ok(AAuthChallenge::Approval),
            DeferRequirement::Payment { .. } => Err(DeferError::PaymentHasNoChallenge),
        }
    }
}

impl PendingBody {
    /// The pending body of a requirement while it waits in `status`; a payment
    /// requirement has none, as it is answered with `402`.
    pub fn for_waiting(requirement: &DeferRequirement, status: PendingStatus) -> (r: Result<
        PendingBody,
        DeferError,
    >)
        ensures
            match requirement_body(requirement@, status) {
                Some(b) => r matches Ok(body) && body@ == b,
                None => r == Err::<PendingBody, DeferError>(DeferError::PaymentHasNoPendingBody),
            },
    {
        match requirement {
            DeferRequirement::Clarification { question, timeout } => Ok(
                PendingBody::Clarification(
                    ClarificationChallenge {
                        status,
                        clarification: question.clone(),
                        timeout: *timeout,
                        options: None,
                    },
                ),
            ),
            DeferRequirement::Claims { required_claims } => Ok(
                PendingBody::Claims(
                    ClaimsChallenge { status, required_claims: clone_strings(required_claims) },
                ),
            ),
            DeferRequirement::Interaction { .. } | DeferRequirement::Approval => Ok(
                PendingBody::Status(PendingStatusBody { status }),
            ),
            DeferRequirement::Payment { .. } => Err(DeferError::PaymentHasNoPendingBody),
        }
    }

    /// The pending body of a newly created deferred request (status `pending`).
    pub fn for_created(requirement: &DeferRequirement) -> (r: Result<PendingBody, DeferError>)
        ensures
            match requirement_body(requirement@, PendingStatus::Pending) {
                Some(b) => r matches Ok(body) && body@ == b,
                None => r == Err::<PendingBody, DeferError>(DeferError::PaymentHasNoPendingBody),
            },
    {
        Self::for_waiting(requirement, PendingStatus::Pending)
    }
}

/// Initial `202` from token exchange, resource consent, or pending POST resume.
#[derive(Debug, Clone, PartialEq, Eq)]
pub struct DeferCreated {
    pub location: String,
    pub requirement: DeferRequirement,
}

/// `202` while polling a pending URL (no new `Location`).
#[derive(Debug, Clone, PartialEq, Eq)]
pub struct DeferWaiting {
    pub status: PendingStatus,
    pub requirement: DeferRequirement,
}

/// `402 Payment Required` defer: poll `Location` after payment settlement.
#[derive(Debug, Clone, PartialEq, Eq)]
pub struct PaymentRequiredDefer {
    pub location: String,
}

/// Terminal outcome stored for pending poll responses.
#[derive(Debug, Clone, PartialEq, Eq)]
pub enum PendingOutcome {
    /// Direct grant (`200`) with an auth token.
    AuthToken(TokenResponseBody),
    /// Resource-managed opaque access token for `AAuth-Access`.
    OpaqueAccess(String),
    /// Terminal polling or token endpoint error.
    Error(AAuthProtocolError),
}

impl PendingOutcome {
    /// A copy of the outcome.
    pub fn duplicate(&self) -> (r: PendingOutcome)
        ensures
            r == *self,
    {
        match self {
            PendingOutcome::AuthToken(b) => PendingOutcome::AuthToken(
                TokenResponseBody { auth_token: b.auth_token.clone(), expires_in: b.expires_in },
            ),
            PendingOutcome::OpaqueAccess(t) => PendingOutcome::OpaqueAccess(t.clone()),
            PendingOutcome::Error(e) => PendingOutcome::Error(e.duplicate()),
        }
    }
}

/// Snapshot of a pending request exposed via poll responses.
#[derive(Debug, Clone, PartialEq, Eq)]
pub enum PendingSnapshot {
    /// Still waiting on a deferred requirement.
    Waiting { status: PendingStatus, requirement: DeferRequirement },
    /// Terminal outcome once resolved.
    Complete(PendingOutcome),
}

/// Mathematical value of a [`PendingSnapshot`].
pub enum PendingSnapshotView {
    Waiting(PendingStatus, DeferRequirementView),
    Complete(PendingOutcome),
}

impl View for PendingSnapshot {
    type V = PendingSnapshotView;

    open spec fn view(&self) -> PendingSnapshotView {
        match self {
            PendingSnapshot::Waiting { status, requirement } => PendingSnapshotView::Waiting(
                *status,
                requirement@,
            ),
            PendingSnapshot::Complete(o) => PendingSnapshotView::Complete(*o),
        }
    }
}

impl PendingSnapshot {
    /// A request waiting, status `pending`, on `requirement`.
    pub fn waiting(requirement: DeferRequirement) -> (s: PendingSnapshot)
        ensures
            s@ == PendingSnapshotView::Waiting(PendingStatus::Pending, requirement@),
    {
        PendingSnapshot::Waiting { status: PendingStatus::Pending, requirement }
    }

    /// A request resolved with `outcome`.
    pub fn complete(outcome: PendingOutcome) -> (s: PendingSnapshot)
        ensures
            s@ == PendingSnapshotView::Complete(outcome),
    {
        PendingSnapshot::Complete(outcome)
    }

    /// A copy of the snapshot.
    pub fn duplicate(&self) -> (r: PendingSnapshot)
        ensures
            r@ == self@,
    {
        match self {
            PendingSnapshot::Waiting { status, requirement } => PendingSnapshot::Waiting {
                status: *status,
                requirement: requirement.duplicate(),
            },
            PendingSnapshot::Complete(o) => PendingSnapshot::Complete(o.duplicate()),
        }
    }
}

/// Federation state kept while a Person Server waits on an Access Server.
#[derive(Debug, Clone, PartialEq, Eq)]
pub struct FederationPendingState {
    pub access_server_url: String,
    pub as_pending_url: String,
}

/// A record that expires at `expires_at` has expired at `now`.
pub open spec fn expired_at(now: u64, expires_at: u64) -> bool {
    now > expires_at
}

/// Stored pending request with role-specific resume context.
#[derive(Debug, Clone, PartialEq, Eq)]
pub struct PendingRecord<C> {
    pub id: String,
    pub created_at: u64,
    pub expires_at: u64,
    pub context: C,
    pub snapshot: PendingSnapshot,
}

impl<C> PendingRecord<C> {
    /// A record created at `now` (seconds since the Unix epoch) that expires
    /// `ttl_secs` later.
    pub fn new_at(id: String, context: C, snapshot: PendingSnapshot, ttl_secs: u64, now: u64) -> (r:
        PendingRecord<C>)
        requires
            now + ttl_secs <= u64::MAX,
        ensures
            r.id == id,
            r.created_at == now,
            r.expires_at == now + ttl_secs,
            r.context == context,
            r.snapshot == snapshot,
    {
        PendingRecord { id, created_at: now, expires_at: now + ttl_secs, context, snapshot }
    }

    /// A record created now (by the system clock) that expires `ttl_secs` later,
    /// or at the end of time when that lies beyond it; `None` when the clock
    /// reads a time before the Unix epoch.
    pub fn new(id: String, context: C, snapshot: PendingSnapshot, ttl_secs: u64) -> (r: Option<
        PendingRecord<C>,
    >)
        ensures
            exists|clock: Option<u64>| #[trigger] created_by_clock(clock, r, id, context, snapshot, ttl_secs),
    {
        let clock = now_unix_secs();
        match clock {
            None => {
                let r = None;
                assert(created_by_clock(clock, r, id, context, snapshot, ttl_secs));
                r
            },
            Some(now) => {
                let ghost (gid, gcontext, gsnapshot) = (id, context, snapshot);
                let ttl = if ttl_secs <= u64::MAX - now {
                    ttl_secs
                } else {
                    u64::MAX - now
                };
                let r = Some(Self::new_at(id, context, snapshot, ttl, now));
                assert(created_by_clock(clock, r, gid, gcontext, gsnapshot, ttl_secs));
                r
            },
        }
    }

    /// Whether the record has expired at `now`: strictly after `expires_at`.
    pub fn is_expired_at(&self, now: u64) -> (b: bool)
        ensures
            b == expired_at(now, self.expires_at),
    {
        now > self.expires_at
    }

    /// Whether the record has expired by the system clock. A clock that reads a
    /// time before the Unix epoch reads earlier than every expiry, so the record
    /// has not expired then.
    pub fn is_expired(&self) -> (b: bool)
        ensures
            exists|clock: Option<u64>| #[trigger] expired_by_clock(clock, self.expires_at) == b,
    {
        match now_unix_secs() {
            Some(now) => {
                let b = self.is_expired_at(now);
                assert(expired_by_clock(Some(now), self.expires_at) == b);
                b
            },
            None => {
                assert(expired_by_clock(None, self.expires_at) == false);
                false
            },
        }
    }
}

/// Whether a record expiring at `expires_at` has expired when the clock reads
/// `clock` (`None`: before the Unix epoch, earlier than every expiry).
pub open spec fn expired_by_clock(clock: Option<u64>, expires_at: u64) -> bool {
    match clock {
        Some(now) => expired_at(now, expires_at),
        None => false,
    }
}

/// What [`PendingRecord::new`] gives when the clock reads `clock`: nothing before
/// the Unix epoch, else a record created at that time that expires `ttl_secs`
/// later, or at the end of time when that lies beyond it.
pub open spec fn created_by_clock<C>(
    clock: Option<u64>,
    r: Option<PendingRecord<C>>,
    id: String,
    context: C,
    snapshot: PendingSnapshot,
    ttl_secs: u64,
) -> bool {
    match clock {
        None => r is None,
        Some(now) => r matches Some(rec) && {
            &&& rec.id == id
            &&& rec.created_at == now
            &&& rec.expires_at == if now + ttl_secs <= u64::MAX {
                now + ttl_secs
            } else {
                u64::MAX as int
            }
            &&& rec.context == context
            &&& rec.snapshot == snapshot
        },
    }
}

/// A pending record has not expired at the moment it is created, nor at any time
/// up to its expiry.
pub proof fn lemma_record_live_until_expiry(created_at: u64, ttl_secs: u64, now: u64)
    requires
        created_at + ttl_secs <= u64::MAX,
        created_at <= now <= created_at + ttl_secs,
    ensures
        !expired_at(now, (created_at + ttl_secs) as u64),
        expired_at(((created_at + ttl_secs) + 1) as u64, (created_at + ttl_secs) as u64) || created_at
            + ttl_secs == u64::MAX,
{
}

/// A record that a pending store can hold.
pub trait PendingStorable {
    fn pending_id(&self) -> &str;

    fn snapshot(&self) -> &PendingSnapshot;

    fn set_snapshot(&mut self, snapshot: PendingSnapshot);

    fn is_expired(&self) -> bool;
}

impl<C> PendingStorable for PendingRecord<C> {
    fn pending_id(&self) -> (s: &str)
        ensures
            s@ == self.id@,
    {
        self.id.as_str()
    }

    fn snapshot(&self) -> (s: &PendingSnapshot)
        ensures
            *s == self.snapshot,
    {
        &self.snapshot
    }

    fn set_snapshot(&mut self, snapshot: PendingSnapshot)
        ensures
            final(self).snapshot == snapshot,
            final(self).id == old(self).id,
            final(self).created_at == old(self).created_at,
            final(self).expires_at == old(self).expires_at,
            final(self).context == old(self).context,
    {
        self.snapshot = snapshot;
    }

    fn is_expired(&self) -> (b: bool)
        ensures
            exists|clock: Option<u64>| #[trigger] expired_by_clock(clock, self.expires_at) == b,
    {
        PendingRecord::is_expired(self)
    }
}

// ---------------------------------------------------------------------------------------------
// Flow outcomes
// ---------------------------------------------------------------------------------------------

/// Token exchange flow result for Person and Access servers.
#[derive(Debug, Clone, PartialEq)]
pub enum AuthTokenFlowOutcome {
    Granted(TokenResponseBody),
    Deferred(DeferCreated),
    Denied(AAuthProtocolError),
    Gone,
}

impl AuthTokenFlowOutcome {
    pub fn granted(body: TokenResponseBody) -> (o: AuthTokenFlowOutcome)
        ensures
            o == AuthTokenFlowOutcome::Granted(body),
    {
        AuthTokenFlowOutcome::Granted(body)
    }

    pub fn deferred(defer: DeferCreated) -> (o: AuthTokenFlowOutcome)
        ensures
            o == AuthTokenFlowOutcome::Deferred(defer),
    {
        AuthTokenFlowOutcome::Deferred(defer)
    }

    pub fn denied(err: AAuthProtocolError) -> (o: AuthTokenFlowOutcome)
        ensures
            o == AuthTokenFlowOutcome::Denied(err),
    {
        AuthTokenFlowOutcome::Denied(err)
    }
}

/// Pending poll result for Person, Access and Resource servers.
#[derive(Debug, Clone, PartialEq)]
pub enum AuthTokenPollOutcome {
    Pending(DeferWaiting),
    Complete(PendingOutcome),
    Gone,
}

/// Mathematical value of an [`AuthTokenPollOutcome`].
pub enum PollOutcomeView {
    Pending(PendingStatus, DeferRequirementView),
    Complete(PendingOutcome),
    Gone,
}

impl View for AuthTokenPollOutcome {
    type V = PollOutcomeView;

    open spec fn view(&self) -> PollOutcomeView {
        match self {
            AuthTokenPollOutcome::Pending(w) => PollOutcomeView::Pending(w.status, w.requirement@),
            AuthTokenPollOutcome::Complete(o) => PollOutcomeView::Complete(*o),
            AuthTokenPollOutcome::Gone => PollOutcomeView::Gone,
        }
    }
}

/// The poll outcome that reports a snapshot: still pending, or complete.
pub open spec fn snapshot_poll(s: PendingSnapshotView) -> PollOutcomeView {
    match s {
        PendingSnapshotView::Waiting(status, requirement) => PollOutcomeView::Pending(
            status,
            requirement,
        ),
        PendingSnapshotView::Complete(o) => PollOutcomeView::Complete(o),
    }
}

/// Map a pending snapshot to a poll outcome (for service poll methods).
pub fn poll_outcome_from_snapshot(snapshot: &PendingSnapshot) -> (r: AuthTokenPollOutcome)
    ensures
        r@ == snapshot_poll(snapshot@),
{
    match snapshot {
        PendingSnapshot::Complete(outcome) => AuthTokenPollOutcome::Complete(outcome.duplicate()),
        PendingSnapshot::Waiting { status, requirement } => AuthTokenPollOutcome::Pending(
            DeferWaiting { status: *status, requirement: requirement.duplicate() },
        ),
    }
}

/// Resource poll mapping (same wire shape as the auth token poll).
pub fn resource_poll_outcome_from_snapshot(snapshot: &PendingSnapshot) -> (r: AuthTokenPollOutcome)
    ensures
        r@ == snapshot_poll(snapshot@),
{
    poll_outcome_from_snapshot(snapshot)
}

/// Person Server token exchange / resume result, with federation outcomes.
#[derive(Debug, Clone, PartialEq)]
pub enum PersonTokenFlowOutcome {
    Flow(AuthTokenFlowOutcome),
    Unauthorized,
    BadGateway,
    Gone,
}

impl PersonTokenFlowOutcome {
    pub fn granted(body: TokenResponseBody) -> (o: PersonTokenFlowOutcome)
        ensures
            o == PersonTokenFlowOutcome::Flow(AuthTokenFlowOutcome::Granted(body)),
    {
        PersonTokenFlowOutcome::Flow(AuthTokenFlowOutcome::Granted(body))
    }

    pub fn deferred(defer: DeferCreated) -> (o: PersonTokenFlowOutcome)
        ensures
            o == PersonTokenFlowOutcome::Flow(AuthTokenFlowOutcome::Deferred(defer)),
    {
        PersonTokenFlowOutcome::Flow(AuthTokenFlowOutcome::Deferred(defer))
    }

    pub fn denied(err: AAuthProtocolError) -> (o: PersonTokenFlowOutcome)
        ensures
            o == PersonTokenFlowOutcome::Flow(AuthTokenFlowOutcome::Denied(err)),
    {
        PersonTokenFlowOutcome::Flow(AuthTokenFlowOutcome::Denied(err))
    }
}

/// Resource-managed consent evaluation result.
#[derive(Debug, Clone, PartialEq)]
pub enum ResourceConsentFlowOutcome {
    GrantOpaque(String),
    Deferred(DeferCreated),
    Denied(AAuthProtocolError),
}

} // verus!
