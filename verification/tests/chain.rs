use ai_memory::admission::{AdmissionContext, AdmissionOp, FailurePolicy, WebhookConfig};
use ai_memory::chain::{
    AdmissionChain, AdmissionError, ChainAction, DecodedReply, Exchange, Markdown, ResponsePage,
    MAX_ADMISSION_WEBHOOKS, MAX_RESPONSE_BYTES,
};

fn hook(name: &str, policy: FailurePolicy, events: Vec<AdmissionOp>) -> WebhookConfig {
    WebhookConfig {
        name: name.to_string(),
        url: format!("http://{name}/hook"),
        timeout_ms: 2_000,
        failure_policy: policy,
        events,
    }
}

fn page(body: &str) -> Markdown {
    Markdown { frontmatter: serde_json::Value::Null, body: body.to_string() }
}

/// Drives a chain the way the caller does, with `answer` standing for the
/// webhooks; returns the result and the names of the webhooks called.
fn drive(
    chain: &AdmissionChain,
    ctx: &AdmissionContext,
    md: &mut Markdown,
    notify: bool,
    answer: &dyn Fn(&WebhookConfig, &Markdown) -> Exchange,
) -> (Result<(), AdmissionError>, Vec<String>) {
    let mut called = Vec::new();
    let mut pending: Option<Exchange> = None;
    let mut action = chain.first_action(ctx);
    loop {
        action = match action {
            ChainAction::Post { index } => {
                let hook = &chain.webhooks()[index];
                called.push(hook.name.clone());
                match answer(hook, md) {
                    Exchange::SendFailed { error } => chain.on_send_failed(ctx, index, error),
                    ex => {
                        let status = match &ex {
                            Exchange::Answered { status, .. } => *status,
                            Exchange::SendFailed { .. } => unreachable!(),
                        };
                        pending = Some(ex);
                        if notify {
                            chain.on_notify_reply(ctx, index, status)
                        } else {
                            chain.on_run_reply(ctx, index, status)
                        }
                    }
                }
            }
            ChainAction::ReadBody { index } => match &pending {
                Some(Exchange::Answered { read, .. }) => chain.on_body(ctx, index, *read),
                _ => panic!("no answer to read"),
            },
            ChainAction::ReadErrorText { index, status } => match pending.take() {
                Some(Exchange::Answered { text, .. }) => chain.on_error_text(ctx, index, status, text),
                _ => panic!("no answer to read"),
            },
            ChainAction::Decode { index } => match pending.take() {
                Some(Exchange::Answered { decoded, .. }) => chain.on_decoded(ctx, index, decoded, md),
                _ => panic!("no answer to decode"),
            },
            ChainAction::Finish { result } => return (result, called),
        };
    }
}

fn body_reply(body: &str) -> Exchange {
    Exchange::Answered {
        status: 200,
        text: String::new(),
        read: Some(10),
        decoded: DecodedReply::Parsed {
            page: Some(ResponsePage { frontmatter: None, body: Some(body.to_string()) }),
        },
    }
}

fn no_content() -> Exchange {
    Exchange::Answered { status: 204, text: String::new(), read: None, decoded: DecodedReply::NotJson }
}

#[test]
fn empty_chain_is_noop() {
    let chain = AdmissionChain::new(vec![]).expect("builds");
    assert!(chain.is_empty());
    let mut md = page("hello");
    let ctx = AdmissionContext::default();
    let (result, called) = drive(&chain, &ctx, &mut md, false, &|_, _| panic!("no webhook to call"));
    assert!(result.is_ok());
    assert!(called.is_empty());
    assert_eq!(md.body, "hello");
    assert!(md.frontmatter.is_null());
}

#[test]
fn each_hook_sees_previous_output_and_concat_matches_sequence() {
    let a = hook("a", FailurePolicy::Ignore, vec![AdmissionOp::WritePage]);
    let b = hook("b", FailurePolicy::Ignore, vec![AdmissionOp::WritePage]);
    let c = hook("c", FailurePolicy::Reject, vec![AdmissionOp::WritePage]);
    let answer = |h: &WebhookConfig, md: &Markdown| -> Exchange {
        match h.name.as_str() {
            "c" => Exchange::Answered {
                status: 500,
                text: format!("saw {}", md.body),
                read: None,
                decoded: DecodedReply::NotJson,
            },
            name => body_reply(&format!("{}+{name}", md.body)),
        }
    };
    let ctx = AdmissionContext::default();

    let whole = AdmissionChain::new(vec![a.clone(), b.clone(), c.clone()]).expect("builds");
    let mut md_whole = page("p");
    let (r_whole, called_whole) = drive(&whole, &ctx, &mut md_whole, false, &answer);

    let first = AdmissionChain::new(vec![a, b]).expect("builds");
    let second = AdmissionChain::new(vec![c]).expect("builds");
    let mut md_split = page("p");
    let (r1, mut called_split) = drive(&first, &ctx, &mut md_split, false, &answer);
    assert!(r1.is_ok());
    assert_eq!(md_split.body, "p+a+b");
    let (r2, called2) = drive(&second, &ctx, &mut md_split, false, &answer);
    called_split.extend(called2);

    assert_eq!(called_whole, called_split);
    assert_eq!(called_whole, vec!["a", "b", "c"]);
    assert_eq!(md_whole.body, md_split.body);
    match (r_whole, r2) {
        (
            Err(AdmissionError::WebhookStatus { webhook: w1, status: s1, body: b1 }),
            Err(AdmissionError::WebhookStatus { webhook: w2, status: s2, body: b2 }),
        ) => {
            assert_eq!((w1.as_str(), s1, b1.as_str()), ("c", 500, "saw p+a+b"));
            assert_eq!((w2, s2, b2), (w1, s1, b1));
        }
        other => panic!("unexpected {other:?}"),
    }
}

#[test]
fn no_content_run_calls_same_hooks_as_notification() {
    let chain = AdmissionChain::new(vec![
        hook("a", FailurePolicy::Reject, vec![AdmissionOp::Delete, AdmissionOp::WritePage]),
        hook("b", FailurePolicy::Ignore, vec![AdmissionOp::WritePage]),
        hook("c", FailurePolicy::Ignore, vec![AdmissionOp::Delete]),
    ])
    .expect("builds");
    let mut ctx = AdmissionContext::default();
    ctx.op = AdmissionOp::Delete;
    let mut md = page("body");
    let (run_result, run_called) = drive(&chain, &ctx, &mut md, false, &|_, _| no_content());
    let mut md2 = page("body");
    let (notify_result, notify_called) = drive(&chain, &ctx, &mut md2, true, &|_, _| no_content());
    assert!(run_result.is_ok() && notify_result.is_ok());
    assert_eq!(run_called, vec!["a", "c"]);
    assert_eq!(run_called, notify_called);
    assert_eq!(md.body, "body");
}

#[test]
fn chain_capped_at_max_webhooks() {
    let hooks: Vec<WebhookConfig> = (0..=MAX_ADMISSION_WEBHOOKS)
        .map(|i| hook(&format!("h{i}"), FailurePolicy::Ignore, vec![AdmissionOp::WritePage]))
        .collect();
    match AdmissionChain::new(hooks) {
        Err(AdmissionError::TooManyWebhooks { got }) => assert_eq!(got, 17),
        other => panic!("expected cap error, got {other:?}"),
    }
}

#[test]
fn chain_at_cap_builds() {
    let hooks: Vec<WebhookConfig> = (0..MAX_ADMISSION_WEBHOOKS)
        .map(|i| hook(&format!("h{i}"), FailurePolicy::Ignore, vec![AdmissionOp::WritePage]))
        .collect();
    let chain = AdmissionChain::new(hooks).expect("builds");
    assert!(!chain.is_empty());
    assert_eq!(chain.webhooks().len(), 16);
    let copy = chain.clone();
    assert_eq!(copy.webhooks().len(), 16);
    assert_eq!(copy.webhooks()[3].name, "h3");
}

#[test]
fn skip_list_and_subscription_pick_next_hook() {
    let chain = AdmissionChain::new(vec![
        hook("skipped", FailurePolicy::Reject, vec![AdmissionOp::WritePage]),
        hook("deletes-only", FailurePolicy::Reject, vec![AdmissionOp::Delete]),
        hook("disabled", FailurePolicy::Reject, vec![]),
        hook("enricher", FailurePolicy::Ignore, vec![AdmissionOp::Consolidate, AdmissionOp::WritePage]),
    ])
    .expect("builds");
    let mut ctx = AdmissionContext::default();
    ctx.skip_webhooks = vec!["other".to_string(), "skipped".to_string()];
    assert!(matches!(chain.first_action(&ctx), ChainAction::Post { index: 3 }));

    ctx.op = AdmissionOp::Delete;
    assert!(matches!(chain.first_action(&ctx), ChainAction::Post { index: 1 }));

    ctx.op = AdmissionOp::PurgeProject;
    assert!(matches!(chain.first_action(&ctx), ChainAction::Finish { result: Ok(()) }));
}

#[test]
fn request_uses_hook_url_timeout_and_op_header() {
    let mut h = hook("git-mirror", FailurePolicy::Ignore, vec![AdmissionOp::Delete]);
    h.timeout_ms = 750;
    let chain = AdmissionChain::new(vec![h]).expect("builds");
    let mut ctx = AdmissionContext::default();
    ctx.op = AdmissionOp::Delete;
    let req = chain.request_for(&ctx, 0);
    assert_eq!(req.url, "http://git-mirror/hook");
    assert_eq!(req.op_header, "delete");
    assert_eq!(req.timeout_ms, 750);
}

#[test]
fn reject_hook_request_failure_ends_run() {
    let chain = AdmissionChain::new(vec![
        hook("validator", FailurePolicy::Reject, vec![AdmissionOp::WritePage]),
        hook("after", FailurePolicy::Ignore, vec![AdmissionOp::WritePage]),
    ])
    .expect("builds");
    let ctx = AdmissionContext::default();
    match chain.on_send_failed(&ctx, 0, "connection refused".to_string()) {
        ChainAction::Finish { result: Err(AdmissionError::WebhookRequest { webhook, error }) } => {
            assert_eq!(webhook, "validator");
            assert_eq!(error, "connection refused");
        },
        other => panic!("unexpected {other:?}"),
    }
}

#[test]
fn ignore_hook_failures_move_on() {
    let chain = AdmissionChain::new(vec![
        hook("flaky", FailurePolicy::Ignore, vec![AdmissionOp::WritePage]),
        hook("after", FailurePolicy::Reject, vec![AdmissionOp::WritePage]),
    ])
    .expect("builds");
    let ctx = AdmissionContext::default();
    assert!(matches!(
        chain.on_send_failed(&ctx, 0, "timeout".to_string()),
        ChainAction::Post { index: 1 }
    ));
    assert!(matches!(chain.on_run_reply(&ctx, 0, 503), ChainAction::ReadErrorText { index: 0, status: 503 }));
    assert!(matches!(
        chain.on_error_text(&ctx, 0, 503, "down".to_string()),
        ChainAction::Post { index: 1 }
    ));
}

#[test]
fn reject_hook_error_status_ends_run() {
    let chain = AdmissionChain::new(vec![hook("no-secrets", FailurePolicy::Reject, vec![AdmissionOp::WritePage])])
        .expect("builds");
    let ctx = AdmissionContext::default();
    match chain.on_error_text(&ctx, 0, 422, "secret found".to_string()) {
        ChainAction::Finish { result: Err(AdmissionError::WebhookStatus { webhook, status, body }) } => {
            assert_eq!(webhook, "no-secrets");
            assert_eq!(status, 422);
            assert_eq!(body, "secret found");
        },
        other => panic!("unexpected {other:?}"),
    }
}

#[test]
fn run_reply_statuses() {
    let chain = AdmissionChain::new(vec![
        hook("a", FailurePolicy::Ignore, vec![AdmissionOp::WritePage]),
        hook("b", FailurePolicy::Ignore, vec![AdmissionOp::WritePage]),
    ])
    .expect("builds");
    let ctx = AdmissionContext::default();
    assert!(matches!(chain.on_run_reply(&ctx, 0, 204), ChainAction::Post { index: 1 }));
    assert!(matches!(chain.on_run_reply(&ctx, 1, 204), ChainAction::Finish { result: Ok(()) }));
    assert!(matches!(chain.on_run_reply(&ctx, 0, 200), ChainAction::ReadBody { index: 0 }));
    assert!(matches!(chain.on_run_reply(&ctx, 0, 299), ChainAction::ReadBody { index: 0 }));
    assert!(matches!(chain.on_run_reply(&ctx, 0, 300), ChainAction::ReadErrorText { index: 0, status: 300 }));
    assert!(matches!(chain.on_run_reply(&ctx, 0, 199), ChainAction::ReadErrorText { index: 0, status: 199 }));
}

#[test]
fn notify_reply_statuses() {
    let chain = AdmissionChain::new(vec![hook("m", FailurePolicy::Reject, vec![AdmissionOp::Delete])])
        .expect("builds");
    let mut ctx = AdmissionContext::default();
    ctx.op = AdmissionOp::Delete;
    assert!(matches!(chain.on_notify_reply(&ctx, 0, 200), ChainAction::Finish { result: Ok(()) }));
    assert!(matches!(chain.on_notify_reply(&ctx, 0, 204), ChainAction::Finish { result: Ok(()) }));
    assert!(matches!(chain.on_notify_reply(&ctx, 0, 404), ChainAction::ReadErrorText { index: 0, status: 404 }));
}

#[test]
fn response_body_cap() {
    let chain = AdmissionChain::new(vec![hook("a", FailurePolicy::Reject, vec![AdmissionOp::WritePage])])
        .expect("builds");
    let ctx = AdmissionContext::default();
    assert!(matches!(chain.on_body(&ctx, 0, Some(MAX_RESPONSE_BYTES)), ChainAction::Decode { index: 0 }));
    assert!(matches!(chain.on_body(&ctx, 0, Some(0)), ChainAction::Decode { index: 0 }));
    assert!(matches!(
        chain.on_body(&ctx, 0, Some(MAX_RESPONSE_BYTES + 1)),
        ChainAction::Finish { result: Ok(()) }
    ));
    assert!(matches!(chain.on_body(&ctx, 0, None), ChainAction::Finish { result: Ok(()) }));
    assert_eq!(MAX_RESPONSE_BYTES, 1024 * 1024);
}

#[test]
fn decoded_reply_mutates_page() {
    let chain = AdmissionChain::new(vec![
        hook("a", FailurePolicy::Ignore, vec![AdmissionOp::WritePage]),
        hook("b", FailurePolicy::Ignore, vec![AdmissionOp::WritePage]),
    ])
    .expect("builds");
    let ctx = AdmissionContext::default();
    let mut md = page("hello");

    let only_body = DecodedReply::Parsed {
        page: Some(ResponsePage { frontmatter: None, body: Some("enriched".to_string()) }),
    };
    assert!(matches!(chain.on_decoded(&ctx, 0, only_body, &mut md), ChainAction::Post { index: 1 }));
    assert_eq!(md.body, "enriched");
    assert!(md.frontmatter.is_null());

    let only_fm = DecodedReply::Parsed {
        page: Some(ResponsePage { frontmatter: Some(serde_json::Value::Bool(true)), body: None }),
    };
    assert!(matches!(chain.on_decoded(&ctx, 1, only_fm, &mut md), ChainAction::Finish { result: Ok(()) }));
    assert_eq!(md.body, "enriched");
    assert_eq!(md.frontmatter, serde_json::Value::Bool(true));

    chain.on_decoded(&ctx, 0, DecodedReply::NotJson, &mut md);
    chain.on_decoded(&ctx, 0, DecodedReply::Parsed { page: None }, &mut md);
    assert_eq!(md.body, "enriched");
    assert_eq!(md.frontmatter, serde_json::Value::Bool(true));
}
