//! The admission chain: its configuration, and the decisions taken around
//! each webhook call of a run (page write) or a notification (delete,
//! purge). The HTTP exchanges themselves are made by the caller, which
//! performs each action returned here and reports what came back.
use std::sync::Arc;
use vstd::prelude::*;

use crate::admission::{AdmissionContext, AdmissionOp, FailurePolicy, WebhookConfig};
use crate::outside::build_http_client;

verus! {

/// Cap on the number of webhooks per chain.
pub const MAX_ADMISSION_WEBHOOKS: usize = 16;

/// Maximum bytes of a webhook response body that are decoded; a longer
/// body is ignored.
pub const MAX_RESPONSE_BYTES: usize = 1048576;

/// A page as it goes through the chain: JSON frontmatter and a body.
#[derive(Debug)]
pub struct Markdown {
    /// The page frontmatter.
    pub frontmatter: serde_json::Value,
    /// The page body.
    pub body: String,
}

/// Why a chain could not be built, or why a run or notification ended
/// with an error.
#[derive(Debug)]
pub enum AdmissionError {
    /// More webhooks were configured than [`MAX_ADMISSION_WEBHOOKS`].
    TooManyWebhooks { got: usize },
    /// The HTTP client could not be built.
    HttpClient(reqwest::Error),
    /// A `Reject` webhook answered with a non-success status.
    WebhookStatus { webhook: String, status: u16, body: String },
    /// A request to a `Reject` webhook failed before any answer.
    WebhookRequest { webhook: String, error: String },
}

/// Where and how a webhook request is sent.
#[derive(Debug)]
pub struct WebhookRequest {
    /// The endpoint to POST to.
    pub url: String,
    /// The value of the `X-Memory-Op` header.
    pub op_header: &'static str,
    /// Timeout of the request, in milliseconds.
    pub timeout_ms: u64,
}

/// The `page` object of a webhook's answer: each field present replaces the
/// page's own.
#[derive(Debug)]
pub struct ResponsePage {
    /// Replacement frontmatter, if any.
    pub frontmatter: Option<serde_json::Value>,
    /// Replacement body, if any.
    pub body: Option<String>,
}

/// What decoding a webhook's answer gave.
#[derive(Debug)]
pub enum DecodedReply {
    /// The answer was not a valid response document.
    NotJson,
    /// The answer was a response document, with or without a page.
    Parsed { page: Option<ResponsePage> },
}

/// The next step the caller takes for a run or a notification.
#[derive(Debug)]
pub enum ChainAction {
    /// Send the request to the webhook at `index`.
    Post { index: usize },
    /// Read the body of the success answer just received.
    ReadBody { index: usize },
    /// Read the text of the error answer just received.
    ReadErrorText { index: usize, status: u16 },
    /// Decode the body just read.
    Decode { index: usize },
    /// The run is over, with this result.
    Finish { result: Result<(), AdmissionError> },
}

/// `name` is on the context's skip list.
pub open spec fn skip_listed(ctx: AdmissionContext, name: Seq<char>) -> bool {
    exists|k: int| 0 <= k < ctx.skip_webhooks@.len() && (#[trigger] ctx.skip_webhooks@[k])@ == name
}

/// The webhook is called for this context: it is not skip-listed and it
/// subscribes to the context's operation.
pub open spec fn fires(hook: WebhookConfig, ctx: AdmissionContext) -> bool {
    !skip_listed(ctx, hook.name@) && hook.events@.contains(ctx.op)
}

/// Index of the first webhook at or after `from` that is called.
pub open spec fn next_firing(hooks: Seq<WebhookConfig>, ctx: AdmissionContext, from: int) -> Option<
    int,
>
    decreases hooks.len() - from,
{
    if from < 0 || from >= hooks.len() {
        None
    } else if fires(hooks[from], ctx) {
        Some(from)
    } else {
        next_firing(hooks, ctx, from + 1)
    }
}

/// The action that goes on with the first webhook at or after `from`
/// that is called, or ends the chain successfully when there is none.
pub open spec fn move_on(hooks: Seq<WebhookConfig>, ctx: AdmissionContext, from: int) -> ChainAction {
    match next_firing(hooks, ctx, from) {
        Some(i) => ChainAction::Post { index: i as usize },
        None => ChainAction::Finish { result: Ok(()) },
    }
}

/// `r` goes on with the first webhook at or after `from` that is called,
/// or ends the chain successfully when there is none.
pub open spec fn moves_on(hooks: Seq<WebhookConfig>, ctx: AdmissionContext, from: int, r: ChainAction) -> bool {
    r == move_on(hooks, ctx, from)
}

/// The end of a chain without error.
pub open spec fn finished_ok() -> ChainAction {
    ChainAction::Finish { result: Ok(()) }
}

/// The end of a chain on a request to `hook` that failed with `error`.
pub open spec fn request_failed(hook: WebhookConfig, error: String) -> ChainAction {
    ChainAction::Finish {
        result: Err(AdmissionError::WebhookRequest { webhook: hook.name, error: error }),
    }
}

/// The end of a chain on an error answer of `hook`.
pub open spec fn status_failed(hook: WebhookConfig, status: u16, text: String) -> ChainAction {
    ChainAction::Finish {
        result: Err(AdmissionError::WebhookStatus { webhook: hook.name, status: status, body: text }),
    }
}

/// The page once a decoded answer is applied: each field of the answer's
/// page replaces the page's own; an answer without a page, or one that did
/// not decode, leaves it as it was.
pub open spec fn apply_reply(md: Markdown, decoded: DecodedReply) -> Markdown {
    match decoded {
        DecodedReply::Parsed { page: Some(page) } => Markdown {
            frontmatter: match page.frontmatter {
                Some(f) => f,
                None => md.frontmatter,
            },
            body: match page.body {
                Some(b) => b,
                None => md.body,
            },
        },
        _ => md,
    }
}

/// A body that was read and fits the size cap.
pub open spec fn decodable(read: Option<usize>) -> bool {
    match read {
        Some(len) => len <= MAX_RESPONSE_BYTES,
        None => false,
    }
}

/// Next step once the request to webhook `index` failed before any answer:
/// a `Reject` webhook ends the chain with the failure, an `Ignore` one is
/// passed.
pub open spec fn send_failed_action(
    hooks: Seq<WebhookConfig>,
    ctx: AdmissionContext,
    index: int,
    error: String,
) -> ChainAction {
    if hooks[index].failure_policy is Reject {
        request_failed(hooks[index], error)
    } else {
        move_on(hooks, ctx, index + 1)
    }
}

/// Next step once webhook `index` answered a run with `status`: 204 moves
/// on, another success has its body read, an error has its text read.
pub open spec fn run_reply_action(
    hooks: Seq<WebhookConfig>,
    ctx: AdmissionContext,
    index: int,
    status: u16,
) -> ChainAction {
    if is_success(status) {
        if status == 204 {
            move_on(hooks, ctx, index + 1)
        } else {
            ChainAction::ReadBody { index: index as usize }
        }
    } else {
        ChainAction::ReadErrorText { index: index as usize, status }
    }
}

/// Next step once webhook `index` answered a notification with `status`:
/// a success moves on, an error has its text read.
pub open spec fn notify_reply_action(
    hooks: Seq<WebhookConfig>,
    ctx: AdmissionContext,
    index: int,
    status: u16,
) -> ChainAction {
    if is_success(status) {
        move_on(hooks, ctx, index + 1)
    } else {
        ChainAction::ReadErrorText { index: index as usize, status }
    }
}

/// Next step once the text of webhook `index`'s error answer is read: a
/// `Reject` webhook ends the chain with it, an `Ignore` one is passed.
pub open spec fn error_text_action(
    hooks: Seq<WebhookConfig>,
    ctx: AdmissionContext,
    index: int,
    status: u16,
    text: String,
) -> ChainAction {
    if hooks[index].failure_policy is Reject {
        status_failed(hooks[index], status, text)
    } else {
        move_on(hooks, ctx, index + 1)
    }
}

/// Next step once the body of webhook `index`'s success answer was read
/// (or not): a body within the cap is decoded, otherwise the chain moves on.
pub open spec fn body_action(
    hooks: Seq<WebhookConfig>,
    ctx: AdmissionContext,
    index: int,
    read: Option<usize>,
) -> ChainAction {
    if decodable(read) {
        ChainAction::Decode { index: index as usize }
    } else {
        move_on(hooks, ctx, index + 1)
    }
}

/// `r` is what `AdmissionChain::new` owes for `webhooks`: the cap error
/// above the cap, otherwise a chain of exactly these webhooks or a failure
/// to build the HTTP client.
pub open spec fn built_from(r: Result<AdmissionChain, AdmissionError>, webhooks: Seq<WebhookConfig>) -> bool {
    if webhooks.len() > MAX_ADMISSION_WEBHOOKS {
        r == Err::<AdmissionChain, AdmissionError>(
            AdmissionError::TooManyWebhooks { got: webhooks.len() as usize },
        )
    } else {
        match r {
            Ok(chain) => chain.hooks() == webhooks,
            Err(e) => e is HttpClient,
        }
    }
}

/// A chain that goes on with the next webhook, or ends, never ends in an
/// error: only the failure of a `Reject` webhook does.
pub proof fn lemma_moving_on_never_fails(
    hooks: Seq<WebhookConfig>,
    ctx: AdmissionContext,
    from: int,
    r: ChainAction,
)
    requires
        moves_on(hooks, ctx, from, r),
    ensures
        r matches ChainAction::Finish { result } ==> result is Ok,
{
}

/// An HTTP status in the 2xx range.
pub open spec fn is_success(status: u16) -> bool {
    200 <= status < 300
}

/// Webhooks are called in configuration order, and only those that are not
/// skip-listed and that subscribe to the operation: `next_firing` gives the
/// first such webhook at or after `from`, and `None` when none is left.
pub proof fn lemma_next_firing(hooks: Seq<WebhookConfig>, ctx: AdmissionContext, from: int)
    requires
        0 <= from,
    ensures
        next_firing(hooks, ctx, from) matches Some(i) ==> from <= i < hooks.len() && fires(
            hooks[i],
            ctx,
        ) && forall|j: int| from <= j < i ==> !fires(#[trigger] hooks[j], ctx),
        next_firing(hooks, ctx, from) is None ==> forall|j: int|
            from <= j < hooks.len() ==> !fires(#[trigger] hooks[j], ctx),
    decreases hooks.len() - from,
{
    if from < hooks.len() && !fires(hooks[from], ctx) {
        lemma_next_firing(hooks, ctx, from + 1);
    }
}

fn is_skip_listed(ctx: &AdmissionContext, name: &String) -> (r: bool)
    ensures
        r == skip_listed(*ctx, name@),
{
    let n = ctx.skip_webhooks.len();
    let mut k: usize = 0;
    while k < n
        invariant
            n == ctx.skip_webhooks@.len(),
            k <= n,
            forall|t: int| 0 <= t < k ==> (#[trigger] ctx.skip_webhooks@[t])@ != name@,
        decreases n - k,
    {
        if ctx.skip_webhooks[k] == *name {
            return true;
        }
        k = k + 1;
    }
    false
}

fn subscribes(events: &Vec<AdmissionOp>, op: AdmissionOp) -> (r: bool)
    ensures
        r == events@.contains(op),
{
    let n = events.len();
    let mut k: usize = 0;
    while k < n
        invariant
            n == events@.len(),
            k <= n,
            forall|t: int| 0 <= t < k ==> events@[t] != op,
        decreases n - k,
    {
        if events[k] == op {
            assert(events@[k as int] == op);
            return true;
        }
        k = k + 1;
    }
    false
}

fn status_is_success(status: u16) -> (r: bool)
    ensures
        r == is_success(status),
{
    200 <= status && status < 300
}

/// The chain of admission webhooks, in configuration order, with the HTTP
/// client used to call them.
#[derive(Debug)]
pub struct AdmissionChain {
    webhooks: Arc<Vec<WebhookConfig>>,
    client: reqwest::Client,
}

impl AdmissionChain {
    #[verifier::type_invariant]
    spec fn within_cap(self) -> bool {
        self.webhooks@.len() <= MAX_ADMISSION_WEBHOOKS
    }

    /// The HTTP client the chain holds.
    pub closed spec fn http_client(&self) -> reqwest::Client {
        self.client
    }

    /// The configured webhooks, in order.
    pub closed spec fn hooks(&self) -> Seq<WebhookConfig> {
        self.webhooks@
    }

    /// Build a chain from operator-provided webhook configs, with a shared
    /// HTTP client. Fails when more than [`MAX_ADMISSION_WEBHOOKS`] are
    /// given, or when the HTTP client cannot be built.
    pub fn new(webhooks: Vec<WebhookConfig>) -> (r: Result<Self, AdmissionError>)
        ensures
            built_from(r, webhooks@),
    {
        if webhooks.len() > MAX_ADMISSION_WEBHOOKS {
            return Err(AdmissionError::TooManyWebhooks { got: webhooks.len() });
        }
        match build_http_client() {
            Ok(client) => Ok(AdmissionChain { webhooks: Arc::new(webhooks), client }),
            Err(e) => Err(AdmissionError::HttpClient(e)),
        }
    }

    /// `true` if no webhooks are configured.
    pub fn is_empty(&self) -> (r: bool)
        ensures
            r == (self.hooks().len() == 0),
    {
        self.webhooks.len() == 0
    }

    /// The configured webhooks, in order.
    pub fn webhooks(&self) -> (r: &Vec<WebhookConfig>)
        ensures
            r@ == self.hooks(),
    {
        &self.webhooks
    }

    /// What the request to webhook `index` is sent with: the webhook's URL
    /// and timeout, and the operation for the `X-Memory-Op` header.
    pub fn request_for(&self, ctx: &AdmissionContext, index: usize) -> (r: WebhookRequest)
        requires
            index < self.hooks().len(),
        ensures
            r.url@ == self.hooks()[index as int].url@,
            r.op_header@ == crate::admission::header_value(ctx.op),
            r.timeout_ms == self.hooks()[index as int].timeout_ms,
    {
        let hook = &self.webhooks[index];
        WebhookRequest {
            url: hook.url.clone(),
            op_header: ctx.op.as_header_value(),
            timeout_ms: hook.timeout_ms,
        }
    }

    /// The HTTP client the chain's requests are sent with.
    pub fn client(&self) -> (r: &reqwest::Client)
        ensures
            *r == self.http_client(),
    {
        &self.client
    }

    /// Go on with the first webhook after `index` that is called.
    fn advance_past(&self, ctx: &AdmissionContext, index: usize) -> (r: ChainAction)
        requires
            index < self.hooks().len(),
        ensures
            moves_on(self.hooks(), *ctx, index + 1, r),
    {
        proof {
            use_type_invariant(self);
        }
        self.advance(ctx, index + 1)
    }

    /// Go on with the first webhook at or after `from` that is called.
    fn advance(&self, ctx: &AdmissionContext, from: usize) -> (r: ChainAction)
        requires
            from <= self.hooks().len(),
        ensures
            moves_on(self.hooks(), *ctx, from as int, r),
    {
        let hooks: &Vec<WebhookConfig> = &self.webhooks;
        let n = hooks.len();
        let mut i = from;
        while i < n
            invariant
                n == hooks@.len(),
                hooks@ == self.hooks(),
                from <= i <= n,
                next_firing(hooks@, *ctx, from as int) == next_firing(hooks@, *ctx, i as int),
            decreases n - i,
        {
            let hook = &hooks[i];
            if !is_skip_listed(ctx, &hook.name) && subscribes(&hook.events, ctx.op) {
                return ChainAction::Post { index: i };
            }
            i = i + 1;
        }
        ChainAction::Finish { result: Ok(()) }
    }

    /// First step of a run or a notification: the first webhook that is
    /// called, or the end of the chain when none is.
    pub fn first_action(&self, ctx: &AdmissionContext) -> (r: ChainAction)
        ensures
            moves_on(self.hooks(), *ctx, 0, r),
            self.hooks().len() == 0 ==> r == finished_ok(),
    {
        self.advance(ctx, 0)
    }

    /// The request to webhook `index` failed before any answer: a `Reject`
    /// webhook ends the chain with the failure, an `Ignore` one is passed.
    pub fn on_send_failed(&self, ctx: &AdmissionContext, index: usize, error: String) -> (r: ChainAction)
        requires
            index < self.hooks().len(),
        ensures
            r == send_failed_action(self.hooks(), *ctx, index as int, error),
    {
        let hook = &self.webhooks[index];
        match hook.failure_policy {
            FailurePolicy::Reject => ChainAction::Finish {
                result: Err(AdmissionError::WebhookRequest { webhook: hook.name.clone(), error }),
            },
            FailurePolicy::Ignore => self.advance_past(ctx, index),
        }
    }

    /// Webhook `index` answered a run with `status`: 204 leaves the page as
    /// it is, another success has its body read, an error has its text read.
    pub fn on_run_reply(&self, ctx: &AdmissionContext, index: usize, status: u16) -> (r: ChainAction)
        requires
            index < self.hooks().len(),
        ensures
            r == run_reply_action(self.hooks(), *ctx, index as int, status),
            status < 200 || status > 299 ==> r == (ChainAction::ReadErrorText { index, status }),
            200 <= status <= 299 && status != 204 ==> r == (ChainAction::ReadBody { index }),
    {
        if status_is_success(status) {
            if status == 204 {
                self.advance_past(ctx, index)
            } else {
                ChainAction::ReadBody { index }
            }
        } else {
            ChainAction::ReadErrorText { index, status }
        }
    }

    /// Webhook `index` answered a notification with `status`: a success
    /// moves on, an error has its text read.
    pub fn on_notify_reply(&self, ctx: &AdmissionContext, index: usize, status: u16) -> (r: ChainAction)
        requires
            index < self.hooks().len(),
        ensures
            r == notify_reply_action(self.hooks(), *ctx, index as int, status),
            status < 200 || status > 299 ==> r == (ChainAction::ReadErrorText { index, status }),
    {
        if status_is_success(status) {
            self.advance_past(ctx, index)
        } else {
            ChainAction::ReadErrorText { index, status }
        }
    }

    /// The text of webhook `index`'s error answer: a `Reject` webhook ends
    /// the chain with it, an `Ignore` one is passed.
    pub fn on_error_text(&self, ctx: &AdmissionContext, index: usize, status: u16, text: String) -> (r: ChainAction)
        requires
            index < self.hooks().len(),
        ensures
            r == error_text_action(self.hooks(), *ctx, index as int, status, text),
    {
        let hook = &self.webhooks[index];
        match hook.failure_policy {
            FailurePolicy::Reject => ChainAction::Finish {
                result: Err(
                    AdmissionError::WebhookStatus { webhook: hook.name.clone(), status, body: text },
                ),
            },
            FailurePolicy::Ignore => self.advance_past(ctx, index),
        }
    }

    /// The body of webhook `index`'s success answer was read (`Some` with
    /// its length) or could not be (`None`): a body within
    /// [`MAX_RESPONSE_BYTES`] is decoded, anything else leaves the page as
    /// it is.
    pub fn on_body(&self, ctx: &AdmissionContext, index: usize, read: Option<usize>) -> (r: ChainAction)
        requires
            index < self.hooks().len(),
        ensures
            r == body_action(self.hooks(), *ctx, index as int, read),
    {
        match read {
            Some(len) => {
                if len <= MAX_RESPONSE_BYTES {
                    ChainAction::Decode { index }
                } else {
                    self.advance_past(ctx, index)
                }
            },
            None => self.advance_past(ctx, index),
        }
    }

    /// The decoded answer of webhook `index`: each field of its page
    /// replaces the page's own, and the chain moves on.
    pub fn on_decoded(
        &self,
        ctx: &AdmissionContext,
        index: usize,
        decoded: DecodedReply,
        markdown: &mut Markdown,
    ) -> (r: ChainAction)
        requires
            index < self.hooks().len(),
        ensures
            moves_on(self.hooks(), *ctx, index + 1, r),
            *final(markdown) == apply_reply(*old(markdown), decoded),
            decoded is Parsed && decoded->page is Some && decoded->page->0.frontmatter is Some
                ==> final(markdown).frontmatter == decoded->page->0.frontmatter->0,
            decoded is Parsed && decoded->page is Some && decoded->page->0.body is Some
                ==> final(markdown).body == decoded->page->0.body->0,
            decoded is Parsed && decoded->page is Some && decoded->page->0.frontmatter is None
                ==> final(markdown).frontmatter == old(markdown).frontmatter,
            decoded is Parsed && decoded->page is Some && decoded->page->0.body is None
                ==> final(markdown).body == old(markdown).body,
            !(decoded is Parsed && decoded->page is Some) ==> *final(markdown) == *old(markdown),
    {
        match decoded {
            DecodedReply::Parsed { page: Some(page) } => {
                if let Some(new_fm) = page.frontmatter {
                    markdown.frontmatter = new_fm;
                }
                if let Some(new_body) = page.body {
                    markdown.body = new_body;
                }
            },
            _ => {},
        }
        self.advance_past(ctx, index)
    }
}

impl Clone for AdmissionChain {
    /// A chain with the same webhooks, sharing the configuration and the
    /// HTTP client's connection pool.
    fn clone(&self) -> (r: Self)
        ensures
            r.hooks() == self.hooks(),
    {
        proof {
            use_type_invariant(self);
        }
        AdmissionChain { webhooks: Arc::clone(&self.webhooks), client: self.client.clone() }
    }
}

/// What one webhook's exchange gives the caller: the request failed, or
/// the webhook answered with `status`. For an answer, `text` is what
/// reading it as an error gives, `read` what reading it as a success body
/// gives (its length, or `None` when the read fails), and `decoded` what
/// decoding that body gives.
pub enum Exchange {
    /// The request failed before any answer.
    SendFailed { error: String },
    /// The webhook answered.
    Answered { status: u16, text: String, read: Option<usize>, decoded: DecodedReply },
}

/// What handling one webhook's exchange does to a run: it goes on with a
/// page, or ends the run with an error.
pub enum HookEffect {
    /// The run goes on with this page.
    Continue(Markdown),
    /// The run ends with this error.
    Stop(AdmissionError),
}

/// The effect of `hook`'s exchange `ex` on a run (or, with `notify`, on a
/// notification) that sent it the page `md`. A failure ends the run only
/// for a `Reject` webhook; a run takes the decoded page of a success other
/// than 204 whose body was read within the cap; anything else leaves the
/// page as it was.
pub open spec fn hook_effect(hook: WebhookConfig, ex: Exchange, md: Markdown, notify: bool) -> HookEffect {
    match ex {
        Exchange::SendFailed { error } => if hook.failure_policy is Reject {
            HookEffect::Stop(AdmissionError::WebhookRequest { webhook: hook.name, error })
        } else {
            HookEffect::Continue(md)
        },
        Exchange::Answered { status, text, read, decoded } => if !is_success(status) {
            if hook.failure_policy is Reject {
                HookEffect::Stop(
                    AdmissionError::WebhookStatus { webhook: hook.name, status, body: text },
                )
            } else {
                HookEffect::Continue(md)
            }
        } else if !notify && status != 204 && decodable(read) {
            HookEffect::Continue(apply_reply(md, decoded))
        } else {
            HookEffect::Continue(md)
        },
    }
}

/// What a run (or a notification) over `hooks` gives from index `from` on,
/// starting with page `md`, when each webhook answers a page as `answers`
/// says: the result, the final page, and the webhooks called in order,
/// each with the page the run held when it called it (the page a run
/// sends; a notification sends none and never changes it).
pub open spec fn run_from(
    hooks: Seq<WebhookConfig>,
    ctx: AdmissionContext,
    answers: spec_fn(WebhookConfig, Markdown) -> Exchange,
    notify: bool,
    from: int,
    md: Markdown,
) -> (Result<(), AdmissionError>, Markdown, Seq<(WebhookConfig, Markdown)>)
    decreases hooks.len() - from,
{
    if from < 0 || from >= hooks.len() {
        (Ok(()), md, Seq::empty())
    } else if !fires(hooks[from], ctx) {
        run_from(hooks, ctx, answers, notify, from + 1, md)
    } else {
        match hook_effect(hooks[from], answers(hooks[from], md), md, notify) {
            HookEffect::Stop(e) => (Err(e), md, seq![(hooks[from], md)]),
            HookEffect::Continue(next) => {
                let rest = run_from(hooks, ctx, answers, notify, from + 1, next);
                (rest.0, rest.1, seq![(hooks[from], md)] + rest.2)
            },
        }
    }
}

/// A whole run (or notification) of the chain over `hooks`.
pub open spec fn run_model(
    hooks: Seq<WebhookConfig>,
    ctx: AdmissionContext,
    answers: spec_fn(WebhookConfig, Markdown) -> Exchange,
    notify: bool,
    md: Markdown,
) -> (Result<(), AdmissionError>, Markdown, Seq<(WebhookConfig, Markdown)>) {
    run_from(hooks, ctx, answers, notify, 0, md)
}

/// The action, and the page, that the step functions reach once webhook
/// `index` has been posted to and its exchange `ex` handled: the reply
/// step (`on_run_reply`, or `on_notify_reply` for a notification), then as
/// it asks `on_body` and `on_decoded`, or `on_error_text`, or
/// `on_send_failed` when the request failed.
pub open spec fn steps_after_post(
    hooks: Seq<WebhookConfig>,
    ctx: AdmissionContext,
    index: int,
    ex: Exchange,
    md: Markdown,
    notify: bool,
) -> (ChainAction, Markdown) {
    match ex {
        Exchange::SendFailed { error } => (send_failed_action(hooks, ctx, index, error), md),
        Exchange::Answered { status, text, read, decoded } => {
            let first = if notify {
                notify_reply_action(hooks, ctx, index, status)
            } else {
                run_reply_action(hooks, ctx, index, status)
            };
            match first {
                ChainAction::ReadBody { .. } => match body_action(hooks, ctx, index, read) {
                    ChainAction::Decode { .. } => (
                        move_on(hooks, ctx, index + 1),
                        apply_reply(md, decoded),
                    ),
                    other => (other, md),
                },
                ChainAction::ReadErrorText { .. } => (
                    error_text_action(hooks, ctx, index, status, text),
                    md,
                ),
                other => (other, md),
            }
        },
    }
}

/// The step functions carry out the model one webhook at a time: once
/// webhook `index` is posted to and its exchange handled, a `Stop` effect
/// is the end of the chain with that error, and a `Continue` effect is the
/// page the run goes on with, and the chain moves on past `index`.
pub proof fn lemma_steps_follow_model(
    hooks: Seq<WebhookConfig>,
    ctx: AdmissionContext,
    index: int,
    ex: Exchange,
    md: Markdown,
    notify: bool,
)
    requires
        0 <= index < hooks.len(),
    ensures
        steps_after_post(hooks, ctx, index, ex, md, notify) == (match hook_effect(
            hooks[index],
            ex,
            md,
            notify,
        ) {
            HookEffect::Stop(e) => (ChainAction::Finish { result: Err(e) }, md),
            HookEffect::Continue(next) => (move_on(hooks, ctx, index + 1), next),
        }),
{
}

/// A run goes through the webhooks as the step functions do: from `from`
/// it skips to the first webhook that is called (the one `move_on` posts
/// to), applies that webhook's effect, and goes on past it; with none left
/// it ends successfully with the page unchanged.
pub proof fn lemma_run_from_next_firing(
    hooks: Seq<WebhookConfig>,
    ctx: AdmissionContext,
    answers: spec_fn(WebhookConfig, Markdown) -> Exchange,
    notify: bool,
    from: int,
    md: Markdown,
)
    requires
        0 <= from,
    ensures
        run_from(hooks, ctx, answers, notify, from, md) == (match next_firing(hooks, ctx, from) {
            None => (Ok(()), md, Seq::empty()),
            Some(i) => match hook_effect(hooks[i], answers(hooks[i], md), md, notify) {
                HookEffect::Stop(e) => (Err(e), md, seq![(hooks[i], md)]),
                HookEffect::Continue(next) => {
                    let rest = run_from(hooks, ctx, answers, notify, i + 1, next);
                    (rest.0, rest.1, seq![(hooks[i], md)] + rest.2)
                },
            },
        }),
    decreases hooks.len() - from,
{
    if from < hooks.len() && !fires(hooks[from], ctx) {
        lemma_run_from_next_firing(hooks, ctx, answers, notify, from + 1, md);
    }
}

/// Running `first + second` from an index past `first` is running
/// `second` from the matching index.
proof fn lemma_run_from_shift(
    first: Seq<WebhookConfig>,
    second: Seq<WebhookConfig>,
    ctx: AdmissionContext,
    answers: spec_fn(WebhookConfig, Markdown) -> Exchange,
    notify: bool,
    from: int,
    md: Markdown,
)
    requires
        first.len() <= from,
    ensures
        run_from(first + second, ctx, answers, notify, from, md) == run_from(
            second,
            ctx,
            answers,
            notify,
            from - first.len(),
            md,
        ),
    decreases (first + second).len() - from,
{
    let all = first + second;
    if from < all.len() {
        assert(all[from] == second[from - first.len()]);
        if fires(all[from], ctx) {
            match hook_effect(all[from], answers(all[from], md), md, notify) {
                HookEffect::Stop(e) => {},
                HookEffect::Continue(next) => {
                    lemma_run_from_shift(first, second, ctx, answers, notify, from + 1, next);
                },
            }
        } else {
            lemma_run_from_shift(first, second, ctx, answers, notify, from + 1, md);
        }
    }
}

/// `first` run from `from`, followed, only if that ended without error, by
/// a run of `second` on the page it left.
pub open spec fn run_then(
    first: Seq<WebhookConfig>,
    second: Seq<WebhookConfig>,
    ctx: AdmissionContext,
    answers: spec_fn(WebhookConfig, Markdown) -> Exchange,
    notify: bool,
    from: int,
    md: Markdown,
) -> (Result<(), AdmissionError>, Markdown, Seq<(WebhookConfig, Markdown)>) {
    let a = run_from(first, ctx, answers, notify, from, md);
    if a.0 is Ok {
        let b = run_from(second, ctx, answers, notify, 0, a.1);
        (b.0, b.1, a.2 + b.2)
    } else {
        a
    }
}

proof fn lemma_run_from_concat(
    first: Seq<WebhookConfig>,
    second: Seq<WebhookConfig>,
    ctx: AdmissionContext,
    answers: spec_fn(WebhookConfig, Markdown) -> Exchange,
    notify: bool,
    from: int,
    md: Markdown,
)
    requires
        0 <= from <= first.len(),
    ensures
        run_from(first + second, ctx, answers, notify, from, md) == run_then(
            first,
            second,
            ctx,
            answers,
            notify,
            from,
            md,
        ),
    decreases first.len() - from,
{
    let all = first + second;
    if from == first.len() {
        lemma_run_from_shift(first, second, ctx, answers, notify, from, md);
        let b = run_from(second, ctx, answers, notify, 0, md);
        assert(Seq::<(WebhookConfig, Markdown)>::empty() + b.2 =~= b.2);
    } else {
        assert(all[from] == first[from]);
        if fires(all[from], ctx) {
            match hook_effect(all[from], answers(all[from], md), md, notify) {
                HookEffect::Stop(e) => {},
                HookEffect::Continue(next) => {
                    lemma_run_from_concat(first, second, ctx, answers, notify, from + 1, next);
                    let a = run_from(first, ctx, answers, notify, from + 1, next);
                    if a.0 is Ok {
                        let b = run_from(second, ctx, answers, notify, 0, a.1);
                        assert(seq![(all[from], md)] + (a.2 + b.2) =~= (seq![(all[from], md)]
                            + a.2) + b.2);
                    }
                },
            }
        } else {
            lemma_run_from_concat(first, second, ctx, answers, notify, from + 1, md);
        }
    }
}

/// A chain over `first ++ second` behaves as the chain over `first`
/// followed, only if that one ended without error, by the chain over
/// `second` on the page the first left: same result, same final page, and
/// the same webhooks called in the same order with the same pages, when
/// every webhook answers as `answers` says in all three runs.
pub proof fn lemma_chain_concat(
    whole: AdmissionChain,
    first: AdmissionChain,
    second: AdmissionChain,
    ctx: AdmissionContext,
    answers: spec_fn(WebhookConfig, Markdown) -> Exchange,
    notify: bool,
    md: Markdown,
)
    requires
        whole.hooks() == first.hooks() + second.hooks(),
    ensures
        run_model(whole.hooks(), ctx, answers, notify, md) == run_then(
            first.hooks(),
            second.hooks(),
            ctx,
            answers,
            notify,
            0,
            md,
        ),
{
    lemma_run_from_concat(first.hooks(), second.hooks(), ctx, answers, notify, 0, md);
}

/// An answer with status 204, whatever else the exchange holds.
pub open spec fn all_no_content(answers: spec_fn(WebhookConfig, Markdown) -> Exchange) -> bool {
    forall|h: WebhookConfig, m: Markdown| #[trigger] answers(h, m) matches Exchange::Answered { status, .. } && status == 204
}

proof fn lemma_no_content_run_from(
    hooks: Seq<WebhookConfig>,
    ctx: AdmissionContext,
    answers: spec_fn(WebhookConfig, Markdown) -> Exchange,
    from: int,
    md: Markdown,
)
    requires
        0 <= from,
        all_no_content(answers),
    ensures
        run_from(hooks, ctx, answers, false, from, md) == run_from(hooks, ctx, answers, true, from, md),
        run_from(hooks, ctx, answers, false, from, md).0 is Ok,
        run_from(hooks, ctx, answers, false, from, md).1 == md,
    decreases hooks.len() - from,
{
    if from < hooks.len() {
        let ex = answers(hooks[from], md);
        assert(ex matches Exchange::Answered { status, .. } && status == 204);
        lemma_no_content_run_from(hooks, ctx, answers, from + 1, md);
    }
}

/// When every webhook answers 204, a run and a notification of the same
/// chain in the same context call the same webhooks in the same order,
/// both end without error, and the run leaves the page unchanged.
pub proof fn lemma_no_content_run_is_notification(
    chain: AdmissionChain,
    ctx: AdmissionContext,
    answers: spec_fn(WebhookConfig, Markdown) -> Exchange,
    md: Markdown,
)
    requires
        all_no_content(answers),
    ensures
        run_model(chain.hooks(), ctx, answers, false, md) == run_model(chain.hooks(), ctx, answers, true, md),
        run_model(chain.hooks(), ctx, answers, false, md).0 is Ok,
        run_model(chain.hooks(), ctx, answers, false, md).1 == md,
{
    lemma_no_content_run_from(chain.hooks(), ctx, answers, 0, md);
}

/// A webhook is posted to only when it is wanted: not named anywhere on the
/// context's skip list (first entry included) and subscribed to the
/// context's operation. Every webhook passed over before it, or after
/// `from` when the chain ends, is named on the skip list or does not
/// subscribe to the operation.
pub proof fn lemma_posted_hook_is_wanted(hooks: Seq<WebhookConfig>, ctx: AdmissionContext, from: int)
    requires
        0 <= from,
        hooks.len() <= usize::MAX,
    ensures
        move_on(hooks, ctx, from) is Post ==> {
            let i = move_on(hooks, ctx, from)->Post_index as int;
            &&& from <= i < hooks.len()
            &&& forall|k: int|
                0 <= k < ctx.skip_webhooks@.len() ==> (#[trigger] ctx.skip_webhooks@[k])@
                    != hooks[i].name@
            &&& exists|e: int| 0 <= e < hooks[i].events@.len() && hooks[i].events@[e] == ctx.op
            &&& forall|j: int|
                from <= j < i ==> (exists|k: int|
                    0 <= k < ctx.skip_webhooks@.len() && (#[trigger] ctx.skip_webhooks@[k])@
                        == (#[trigger] hooks[j]).name@) || (forall|e: int|
                    0 <= e < hooks[j].events@.len() ==> hooks[j].events@[e] != ctx.op)
        },
        move_on(hooks, ctx, from) is Finish ==> {
            &&& move_on(hooks, ctx, from)->result is Ok
            &&& forall|j: int|
                from <= j < hooks.len() ==> (exists|k: int|
                    0 <= k < ctx.skip_webhooks@.len() && (#[trigger] ctx.skip_webhooks@[k])@
                        == (#[trigger] hooks[j]).name@) || (forall|e: int|
                    0 <= e < hooks[j].events@.len() ==> hooks[j].events@[e] != ctx.op)
        },
{
    lemma_next_firing(hooks, ctx, from);
    match next_firing(hooks, ctx, from) {
        Some(i) => {
            assert(fires(hooks[i], ctx));
            let e = choose|e: int| 0 <= e < hooks[i].events@.len() && hooks[i].events@[e] == ctx.op;
            assert forall|j: int| from <= j < i implies (exists|k: int|
                0 <= k < ctx.skip_webhooks@.len() && (#[trigger] ctx.skip_webhooks@[k])@
                    == (#[trigger] hooks[j]).name@) || (forall|e: int|
                0 <= e < hooks[j].events@.len() ==> hooks[j].events@[e] != ctx.op) by {
                assert(!fires(hooks[j], ctx));
                if !skip_listed(ctx, hooks[j].name@) {
                    assert forall|e: int| 0 <= e < hooks[j].events@.len() implies hooks[j].events@[e]
                        != ctx.op by {
                        if hooks[j].events@[e] == ctx.op {
                            assert(hooks[j].events@.contains(ctx.op));
                        }
                    }
                }
            }
        },
        None => {
            assert forall|j: int| from <= j < hooks.len() implies (exists|k: int|
                0 <= k < ctx.skip_webhooks@.len() && (#[trigger] ctx.skip_webhooks@[k])@
                    == (#[trigger] hooks[j]).name@) || (forall|e: int|
                0 <= e < hooks[j].events@.len() ==> hooks[j].events@[e] != ctx.op) by {
                assert(!fires(hooks[j], ctx));
                if !skip_listed(ctx, hooks[j].name@) {
                    assert forall|e: int| 0 <= e < hooks[j].events@.len() implies hooks[j].events@[e]
                        != ctx.op by {
                        if hooks[j].events@[e] == ctx.op {
                            assert(hooks[j].events@.contains(ctx.op));
                        }
                    }
                }
            }
        },
    }
}

/// A webhook that is named nowhere on the skip list and subscribes to the
/// operation is not passed over: going on from its own index posts to it.
pub proof fn lemma_wanted_hook_is_posted(hooks: Seq<WebhookConfig>, ctx: AdmissionContext, i: int)
    requires
        0 <= i < hooks.len(),
        forall|k: int|
            0 <= k < ctx.skip_webhooks@.len() ==> (#[trigger] ctx.skip_webhooks@[k])@
                != hooks[i].name@,
        exists|e: int| 0 <= e < hooks[i].events@.len() && hooks[i].events@[e] == ctx.op,
    ensures
        move_on(hooks, ctx, i) == (ChainAction::Post { index: i as usize }),
{
    let e = choose|e: int| 0 <= e < hooks[i].events@.len() && hooks[i].events@[e] == ctx.op;
    assert(hooks[i].events@.contains(ctx.op));
}

/// On a page write, a status outside 200..=299 never has a success body
/// read: its error text is read; a 2xx other than 204 has its body read.
/// A notification likewise reads the error text of any status outside
/// 200..=299, and moves on only on a 2xx.
pub proof fn lemma_reply_routes_by_status(hooks: Seq<WebhookConfig>, ctx: AdmissionContext, index: int, status: u16)
    requires
        0 <= index < hooks.len(),
    ensures
        status < 200 || status > 299 ==> run_reply_action(hooks, ctx, index, status)
            == (ChainAction::ReadErrorText { index: index as usize, status }),
        status < 200 || status > 299 ==> notify_reply_action(hooks, ctx, index, status)
            == (ChainAction::ReadErrorText { index: index as usize, status }),
        200 <= status <= 299 && status != 204 ==> run_reply_action(hooks, ctx, index, status)
            == (ChainAction::ReadBody { index: index as usize }),
        200 <= status <= 299 ==> notify_reply_action(hooks, ctx, index, status) == move_on(
            hooks,
            ctx,
            index + 1,
        ),
        status == 204 ==> run_reply_action(hooks, ctx, index, status) == move_on(hooks, ctx, index + 1),
{
}

/// A `Reject` webhook that answers a run or a notification with a status
/// outside 200..=299 ends it with that webhook's name, the status and the
/// answer's text; an `Ignore` webhook's such answer moves on and leaves the
/// page as it was.
pub proof fn lemma_error_answer_outcome(
    hooks: Seq<WebhookConfig>,
    ctx: AdmissionContext,
    index: int,
    status: u16,
    text: String,
    read: Option<usize>,
    decoded: DecodedReply,
    md: Markdown,
    notify: bool,
)
    requires
        0 <= index < hooks.len(),
        status < 200 || status > 299,
    ensures
        hooks[index].failure_policy == FailurePolicy::Reject ==> steps_after_post(
            hooks,
            ctx,
            index,
            Exchange::Answered { status, text, read, decoded },
            md,
            notify,
        ) == (
            ChainAction::Finish {
                result: Err(
                    AdmissionError::WebhookStatus { webhook: hooks[index].name, status, body: text },
                ),
            },
            md,
        ),
        hooks[index].failure_policy == FailurePolicy::Ignore ==> steps_after_post(
            hooks,
            ctx,
            index,
            Exchange::Answered { status, text, read, decoded },
            md,
            notify,
        ) == (move_on(hooks, ctx, index + 1), md),
{
}

/// A page write whose webhook answers a 2xx other than 204 with a body
/// within the cap that decodes to a page takes each field the page
/// carries, whatever the other field holds, keeps each field it leaves
/// out, and moves on past the webhook.
pub proof fn lemma_success_answer_replaces_fields(
    hooks: Seq<WebhookConfig>,
    ctx: AdmissionContext,
    index: int,
    status: u16,
    text: String,
    len: usize,
    page: ResponsePage,
    md: Markdown,
)
    requires
        0 <= index < hooks.len(),
        200 <= status <= 299,
        status != 204,
        len <= MAX_RESPONSE_BYTES,
    ensures
        ({
            let r = steps_after_post(
                hooks,
                ctx,
                index,
                Exchange::Answered {
                    status,
                    text,
                    read: Some(len),
                    decoded: DecodedReply::Parsed { page: Some(page) },
                },
                md,
                false,
            );
            &&& r.0 == move_on(hooks, ctx, index + 1)
            &&& forall|f: serde_json::Value| page.frontmatter == Some(f) ==> r.1.frontmatter == f
            &&& forall|b: String| page.body == Some(b) ==> r.1.body == b
            &&& page.frontmatter is None ==> r.1.frontmatter == md.frontmatter
            &&& page.body is None ==> r.1.body == md.body
        }),
{
}

/// Applying a decoded answer: each field its page carries replaces the
/// page's own, whatever the other field holds; a field it leaves out, an
/// answer without a page, or one that did not decode, leaves the page's own.
pub proof fn lemma_apply_reply_fields(md: Markdown, decoded: DecodedReply)
    ensures
        forall|p: ResponsePage, f: serde_json::Value|
            decoded == (DecodedReply::Parsed { page: Some(p) }) && p.frontmatter == Some(f)
                ==> #[trigger] apply_reply(md, decoded).frontmatter == f,
        forall|p: ResponsePage, b: String|
            decoded == (DecodedReply::Parsed { page: Some(p) }) && p.body == Some(b)
                ==> #[trigger] apply_reply(md, decoded).body == b,
        forall|p: ResponsePage|
            decoded == (DecodedReply::Parsed { page: Some(p) }) && p.frontmatter is None
                ==> #[trigger] apply_reply(md, decoded).frontmatter == md.frontmatter,
        forall|p: ResponsePage|
            decoded == (DecodedReply::Parsed { page: Some(p) }) && p.body is None
                ==> #[trigger] apply_reply(md, decoded).body == md.body,
        !(decoded matches DecodedReply::Parsed { page: Some(_) }) ==> apply_reply(md, decoded) == md,
{
}

} // verus!
