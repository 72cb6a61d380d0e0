//! Lifecycle operations, failure policies and the per-write context handed
//! to admission webhooks.
use vstd::prelude::*;

verus! {

/// Lifecycle operation that triggered the chain.
#[derive(Debug, Clone, Copy, PartialEq, Eq, Structural)]
pub enum AdmissionOp {
    /// A page write.
    WritePage,
    /// A consolidation write.
    Consolidate,
    /// A single page is being deleted.
    Delete,
    /// A whole project is being purged.
    PurgeProject,
}

/// The value of the `X-Memory-Op` header for `op`.
pub open spec fn header_value(op: AdmissionOp) -> Seq<char> {
    match op {
        AdmissionOp::WritePage => "write_page"@,
        AdmissionOp::Consolidate => "consolidate"@,
        AdmissionOp::Delete => "delete"@,
        AdmissionOp::PurgeProject => "purge_project"@,
    }
}

impl AdmissionOp {
    /// String value for the `X-Memory-Op` request header sent to webhooks.
    pub fn as_header_value(&self) -> (r: &'static str)
        ensures
            r@ == header_value(*self),
    {
        match self {
            AdmissionOp::WritePage => "write_page",
            AdmissionOp::Consolidate => "consolidate",
            AdmissionOp::Delete => "delete",
            AdmissionOp::PurgeProject => "purge_project",
        }
    }
}


impl Default for AdmissionOp {
    /// Page writes are the default operation.
    fn default() -> (r: Self)
        ensures
            r == AdmissionOp::WritePage,
    {
        AdmissionOp::WritePage
    }
}

/// What the engine does when a webhook returns 4xx/5xx or fails to respond.
#[derive(Debug, Clone, Copy, PartialEq, Eq, Structural)]
pub enum FailurePolicy {
    /// Log a warning and continue with the unmutated page.
    Ignore,
    /// Abort the write with an error.
    Reject,
}

impl Default for FailurePolicy {
    /// Webhook failures never block a write unless a config asks for it.
    fn default() -> (r: Self)
        ensures
            r == FailurePolicy::Ignore,
    {
        FailurePolicy::Ignore
    }
}

/// Per-request timeout used when a webhook config names none.
pub const DEFAULT_TIMEOUT_MS: u64 = 2000;

/// Per-request timeout, in milliseconds, of a webhook whose config omits it.
pub fn default_timeout_ms() -> (r: u64)
    ensures
        r == DEFAULT_TIMEOUT_MS,
        r == 2000,
{
    DEFAULT_TIMEOUT_MS
}

/// One webhook entry in the chain.
#[derive(Debug, Clone)]
pub struct WebhookConfig {
    /// Stable identifier (matched by loop-prevention skip lists).
    pub name: String,
    /// HTTP endpoint to POST the payload to.
    pub url: String,
    /// Per-request timeout in milliseconds.
    pub timeout_ms: u64,
    /// What to do on webhook failure.
    pub failure_policy: FailurePolicy,
    /// Operations this webhook subscribes to; empty means it never fires.
    pub events: Vec<AdmissionOp>,
}

/// Identity of the actor that triggered a write; every field is optional.
#[derive(Debug, Clone)]
pub struct ActorContext {
    /// Kind of agent that made the write (a command-line tool, a hook, ...).
    pub agent: Option<String>,
    /// Preferred user name.
    pub user: Option<String>,
    /// Stable subject id.
    pub sub: Option<String>,
    /// Client id of the agent install.
    pub client: Option<String>,
    /// Session id from the agent.
    pub session_id: Option<String>,
}

impl ActorContext {
    /// `true` if at least one identity field is set.
    pub fn has_any(&self) -> (r: bool)
        ensures
            r == (self.agent is Some || self.user is Some || self.sub is Some
                || self.client is Some || self.session_id is Some),
    {
        self.agent.is_some() || self.user.is_some() || self.sub.is_some()
            || self.client.is_some() || self.session_id.is_some()
    }
}

impl Default for ActorContext {
    /// The anonymous actor: no identity field set.
    fn default() -> (r: Self)
        ensures
            r.agent is None,
            r.user is None,
            r.sub is None,
            r.client is None,
            r.session_id is None,
    {
        ActorContext { agent: None, user: None, sub: None, client: None, session_id: None }
    }
}

/// Per-write context passed to each webhook.
#[derive(Debug, Clone)]
pub struct AdmissionContext {
    /// Workspace name the write belongs to (empty when unresolved).
    pub workspace: String,
    /// Project name the write belongs to (empty when unresolved).
    pub project: String,
    /// Identity of the actor that triggered the write.
    pub actor: ActorContext,
    /// Which lifecycle op fired the chain.
    pub op: AdmissionOp,
    /// Names of webhooks the caller asks to skip (loop prevention).
    pub skip_webhooks: Vec<String>,
}

impl Default for AdmissionContext {
    /// An anonymous page write in no named workspace or project, skipping
    /// no webhook.
    fn default() -> (r: Self)
        ensures
            r.workspace@.len() == 0,
            r.project@.len() == 0,
            r.actor.agent is None,
            r.actor.user is None,
            r.actor.sub is None,
            r.actor.client is None,
            r.actor.session_id is None,
            r.op == AdmissionOp::WritePage,
            r.skip_webhooks@.len() == 0,
    {
        AdmissionContext {
            workspace: String::new(),
            project: String::new(),
            actor: ActorContext::default(),
            op: AdmissionOp::default(),
            skip_webhooks: Vec::new(),
        }
    }
}

} // verus!
