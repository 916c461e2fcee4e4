use inference_gateway::budget::{
    decide_budget, strict_decision, truncate_oldest, ApproxTokenCounter, BudgetError, BudgetPolicy,
    BudgetRequest, ChatMessage, ModelBudget, Prompt, TokenCounter,
};

fn tiny_model() -> ModelBudget {
    ModelBudget {
        model: "tiny".to_string(),
        context_limit: 40,
        default_max_tokens: 8,
        max_output_tokens: 16,
    }
}

fn user(content: &str) -> ChatMessage {
    ChatMessage { role: "user".to_string(), content: content.to_string() }
}

#[test]
fn admits_small_prompt() {
    let request = BudgetRequest {
        prompt: Prompt::Text("hello world".to_string()),
        requested_max_tokens: Some(8),
        policy: BudgetPolicy::StrictReject,
        model: tiny_model(),
    };

    let decision = decide_budget(request, &ApproxTokenCounter).unwrap();

    assert!(decision.admitted);
    assert_eq!(decision.admitted_max_tokens, 8);
}

#[test]
fn rejects_prompt_over_context() {
    let request = BudgetRequest {
        prompt: Prompt::Text("x ".repeat(80)),
        requested_max_tokens: Some(8),
        policy: BudgetPolicy::StrictReject,
        model: tiny_model(),
    };

    let decision = decide_budget(request, &ApproxTokenCounter).unwrap();

    assert!(!decision.admitted);
    assert_eq!(decision.admitted_max_tokens, 0);
}

#[test]
fn truncates_oldest_chat_messages() {
    let request = BudgetRequest {
        prompt: Prompt::Chat(vec![
            ChatMessage { role: "user".to_string(), content: "old ".repeat(40) },
            ChatMessage { role: "user".to_string(), content: "new".to_string() },
        ]),
        requested_max_tokens: Some(8),
        policy: BudgetPolicy::TruncateOldest,
        model: tiny_model(),
    };

    let decision = decide_budget(request, &ApproxTokenCounter).unwrap();

    assert!(decision.admitted);
    assert_eq!(decision.truncated_messages, 1);
}

#[test]
fn local_vllm_limits() {
    let budget = ModelBudget::local_vllm("local".to_string());
    assert_eq!(budget.model, "local");
    assert_eq!(budget.context_limit, 4096);
    assert_eq!(budget.default_max_tokens, 256);
    assert_eq!(budget.max_output_tokens, 1024);
}

#[test]
fn estimates_are_exact() {
    let counter = ApproxTokenCounter;
    assert_eq!(counter.count_text(""), 1);
    assert_eq!(counter.count_text("abcd"), 1);
    assert_eq!(counter.count_text("abcde"), 2);
    assert_eq!(counter.count_text("a b c"), 3);
    assert_eq!(counter.count_prompt(&Prompt::Chat(vec![])), 2);
    assert_eq!(counter.count_prompt(&Prompt::Chat(vec![user("a b c")])), 1 + 3 + 4 + 2);
}

#[test]
fn reasons_are_exact() {
    let rejected = decide_budget(
        BudgetRequest {
            prompt: Prompt::Text("x ".repeat(80)),
            requested_max_tokens: None,
            policy: BudgetPolicy::StrictReject,
            model: tiny_model(),
        },
        &ApproxTokenCounter,
    )
    .unwrap();
    assert_eq!(
        rejected.reason,
        "prompt_tokens (80) + max_tokens (8) exceeds context_limit (40)"
    );
    assert_eq!(rejected.available_generation_tokens, 0);
    let reserved = decide_budget(
        BudgetRequest {
            prompt: Prompt::Text("x ".repeat(25)),
            requested_max_tokens: Some(99),
            policy: BudgetPolicy::ReserveOutputFirst,
            model: tiny_model(),
        },
        &ApproxTokenCounter,
    )
    .unwrap();
    assert_eq!(
        reserved.reason,
        "prompt_tokens (25) exceeds prompt budget after reserving output (24)"
    );
    assert_eq!(reserved.requested_max_tokens, 16);
}

#[test]
fn truncation_keeps_the_newest_messages() {
    let decision = decide_budget(
        BudgetRequest {
            prompt: Prompt::Chat(vec![user(&"old ".repeat(40)), user("newer"), user("newest")]),
            requested_max_tokens: Some(8),
            policy: BudgetPolicy::TruncateOldest,
            model: tiny_model(),
        },
        &ApproxTokenCounter,
    )
    .unwrap();
    assert_eq!(decision.prompt, Prompt::Chat(vec![user("newer"), user("newest")]));
    assert_eq!(decision.reason, "admitted after truncating 1 oldest messages");
    assert!(decision.prompt_tokens + decision.admitted_max_tokens <= 40);
}

#[test]
fn nothing_fits_a_context_that_the_output_fills() {
    let mut model = tiny_model();
    model.context_limit = 9;
    let decision = decide_budget(
        BudgetRequest {
            prompt: Prompt::Chat(vec![user("hello")]),
            requested_max_tokens: Some(8),
            policy: BudgetPolicy::TruncateOldest,
            model,
        },
        &ApproxTokenCounter,
    )
    .unwrap();
    assert!(!decision.admitted);
    assert_eq!(
        decision.reason,
        "request still exceeds context limit after truncating all messages"
    );
    assert_eq!(decision.truncated_messages, 1);
}

#[test]
fn dropping_a_message_lowers_the_estimate() {
    let counter = ApproxTokenCounter;
    let all = counter.count_prompt(&Prompt::Chat(vec![user("one"), user("two words")]));
    let fewer = counter.count_prompt(&Prompt::Chat(vec![user("two words")]));
    assert_eq!(all, 16);
    assert_eq!(fewer, 10);
}

#[test]
fn models_without_limits_are_refused() {
    let mut model = tiny_model();
    model.context_limit = 0;
    let request = |model: ModelBudget| BudgetRequest {
        prompt: Prompt::Text("hi".to_string()),
        requested_max_tokens: None,
        policy: BudgetPolicy::StrictReject,
        model,
    };
    let error = decide_budget(request(model), &ApproxTokenCounter).unwrap_err();
    assert_eq!(error, BudgetError::InvalidContextLimit);
    assert_eq!(error.message(), "model context limit must be greater than zero");
    let mut model = tiny_model();
    model.max_output_tokens = 0;
    let error = decide_budget(request(model), &ApproxTokenCounter).unwrap_err();
    assert_eq!(error, BudgetError::InvalidMaxOutputTokens);
    assert_eq!(error.message(), "model max output tokens must be greater than zero");
}

#[test]
fn policies_agree_on_what_fits() {
    for policy in [
        BudgetPolicy::StrictReject,
        BudgetPolicy::TruncateOldest,
        BudgetPolicy::ReserveOutputFirst,
    ] {
        let decision = decide_budget(
            BudgetRequest {
                prompt: Prompt::Text("x ".repeat(32)),
                requested_max_tokens: None,
                policy,
                model: tiny_model(),
            },
            &ApproxTokenCounter,
        )
        .unwrap();
        assert!(decision.admitted);
        assert_eq!(decision.admitted_max_tokens, 8);
        assert_eq!(decision.available_generation_tokens, 8);
    }
}

#[test]
fn text_is_never_cut() {
    for policy in [
        BudgetPolicy::StrictReject,
        BudgetPolicy::TruncateOldest,
        BudgetPolicy::ReserveOutputFirst,
    ] {
        for text in ["hello world".to_string(), "word ".repeat(200)] {
            let request = BudgetRequest {
                prompt: Prompt::Text(text.clone()),
                requested_max_tokens: Some(8),
                policy,
                model: tiny_model(),
            };
            for requested in [0, 8, usize::MAX] {
                assert_eq!(
                    truncate_oldest(request.clone(), requested, &ApproxTokenCounter),
                    strict_decision(request.clone(), requested, &ApproxTokenCounter)
                );
            }
            let decision = decide_budget(request, &ApproxTokenCounter).unwrap();
            assert_eq!(decision.admitted, text.len() < 100);
            assert_eq!(decision.truncated_messages, 0);
            assert_eq!(decision.prompt, Prompt::Text(text));
        }
    }
}
