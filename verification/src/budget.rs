//! Token budgets: how much of a model's context a prompt takes, how much
//! output a request may ask for, and whether the two fit together.
use vstd::prelude::*;

use crate::text::{append_decimal, count_words};
#[allow(unused_imports)]
use crate::text::{decimal, words};

verus! {

/// One message of a chat.
#[derive(Debug, PartialEq, Eq)]
pub struct ChatMessage {
    pub role: String,
    pub content: String,
}

impl Clone for ChatMessage {
    fn clone(&self) -> (r: Self)
        ensures
            r == *self,
    {
        ChatMessage { role: self.role.clone(), content: self.content.clone() }
    }
}

/// A chat message as two pieces of text.
pub struct MessageView {
    pub role: Seq<char>,
    pub content: Seq<char>,
}

impl View for ChatMessage {
    type V = MessageView;

    open spec fn view(&self) -> MessageView {
        MessageView { role: self.role@, content: self.content@ }
    }
}

/// The views of a sequence of messages.
pub open spec fn message_views(messages: Seq<ChatMessage>) -> Seq<MessageView> {
    messages.map_values(|m: ChatMessage| m@)
}

/// What a model is asked to continue.
#[derive(Debug, Clone, PartialEq, Eq)]
pub enum Prompt {
    Text(String),
    Chat(Vec<ChatMessage>),
}

/// A prompt as text.
pub enum PromptView {
    Text(Seq<char>),
    Chat(Seq<MessageView>),
}

impl View for Prompt {
    type V = PromptView;

    open spec fn view(&self) -> PromptView {
        match self {
            Prompt::Text(text) => PromptView::Text(text@),
            Prompt::Chat(messages) => PromptView::Chat(message_views(messages@)),
        }
    }
}

/// The limits of one model.
#[derive(Debug, Clone, PartialEq, Eq)]
pub struct ModelBudget {
    pub model: String,
    pub context_limit: usize,
    pub default_max_tokens: usize,
    pub max_output_tokens: usize,
}

impl ModelBudget {
    /// The limits of a model that a local vLLM process serves.
    pub fn local_vllm(model: String) -> (budget: Self)
        ensures
            budget.model == model,
            budget.context_limit == 4096,
            budget.default_max_tokens == 256,
            budget.max_output_tokens == 1024,
    {
        ModelBudget { model, context_limit: 4096, default_max_tokens: 256, max_output_tokens: 1024 }
    }
}

/// What to do with a prompt that leaves too little room for the output.
#[derive(Debug, Clone, Copy, PartialEq, Eq, Structural)]
pub enum BudgetPolicy {
    StrictReject,
    TruncateOldest,
    ReserveOutputFirst,
}

/// A request for a budget decision.
#[derive(Debug, Clone, PartialEq, Eq)]
pub struct BudgetRequest {
    pub prompt: Prompt,
    pub requested_max_tokens: Option<usize>,
    pub policy: BudgetPolicy,
    pub model: ModelBudget,
}

impl BudgetRequest {
    /// The output that is asked for: the requested number of tokens or the
    /// model's default, and no more than the model may put out.
    pub open spec fn output_asked(self) -> nat {
        clamped_output(
            self.requested_max_tokens,
            self.model.default_max_tokens,
            self.model.max_output_tokens,
        )
    }
}

/// The requested output or the default, and no more than a maximum.
pub open spec fn clamped_output(requested: Option<usize>, default: usize, max: usize) -> nat {
    let wanted = match requested {
        Some(n) => n,
        None => default,
    };
    if wanted <= max {
        wanted as nat
    } else {
        max as nat
    }
}

/// What is said of a prompt and an output that do not fit a context.
pub open spec fn excess_words(tokens: nat, asked: nat, limit: nat) -> Seq<char> {
    "prompt_tokens ("@ + decimal(tokens) + ") + max_tokens ("@ + decimal(asked)
        + ") exceeds context_limit ("@ + decimal(limit) + ")"@
}

/// The outcome of a budget request.
#[derive(Debug, Clone, PartialEq, Eq)]
pub struct BudgetDecision {
    pub admitted: bool,
    pub reason: String,
    pub model: String,
    pub prompt_tokens: usize,
    pub requested_max_tokens: usize,
    pub admitted_max_tokens: usize,
    pub available_generation_tokens: usize,
    pub truncated_messages: usize,
    pub prompt: Prompt,
}

/// A budget decision over numbers and text.
pub struct DecisionView {
    pub admitted: bool,
    pub reason: Seq<char>,
    pub model: Seq<char>,
    pub prompt_tokens: nat,
    pub requested_max_tokens: nat,
    pub admitted_max_tokens: nat,
    pub available_generation_tokens: nat,
    pub truncated_messages: nat,
    pub prompt: PromptView,
}

impl View for BudgetDecision {
    type V = DecisionView;

    open spec fn view(&self) -> DecisionView {
        DecisionView {
            admitted: self.admitted,
            reason: self.reason@,
            model: self.model@,
            prompt_tokens: self.prompt_tokens as nat,
            requested_max_tokens: self.requested_max_tokens as nat,
            admitted_max_tokens: self.admitted_max_tokens as nat,
            available_generation_tokens: self.available_generation_tokens as nat,
            truncated_messages: self.truncated_messages as nat,
            prompt: self.prompt@,
        }
    }
}

/// Why no decision can be made for a model.
#[derive(Debug, Clone, Copy, PartialEq, Eq, Structural)]
pub enum BudgetError {
    InvalidContextLimit,
    InvalidMaxOutputTokens,
}

impl BudgetError {
    /// The error in words.
    pub open spec fn words(self) -> Seq<char> {
        match self {
            BudgetError::InvalidContextLimit => "model context limit must be greater than zero"@,
            BudgetError::InvalidMaxOutputTokens =>
                "model max output tokens must be greater than zero"@,
        }
    }

    /// The error in words.
    pub fn message(&self) -> (text: String)
        ensures
            text@ == self.words(),
    {
        match self {
            BudgetError::InvalidContextLimit =>
                "model context limit must be greater than zero".to_string(),
            BudgetError::InvalidMaxOutputTokens =>
                "model max output tokens must be greater than zero".to_string(),
        }
    }
}

/// A way to count the tokens of a prompt.
pub trait TokenCounter: Send + Sync {
    /// The number of tokens that the counter sees in a prompt.
    spec fn prompt_tokens(&self, prompt: PromptView) -> usize;

    /// The number of tokens that the counter sees in a text.
    spec fn text_tokens(&self, text: Seq<char>) -> usize;

    fn count_prompt(&self, prompt: &Prompt) -> (n: usize)
        ensures
            n == self.prompt_tokens(prompt@),
    ;

    fn count_text(&self, text: &str) -> (n: usize)
        ensures
            n == self.text_tokens(text@),
    ;
}

/// Counts a token per word or per four characters, whichever is more.
#[derive(Debug, Default)]
pub struct ApproxTokenCounter;

/// The larger of the number of words and a quarter of the number of
/// characters, rounded up; at least one.
pub open spec fn text_estimate(text: Seq<char>) -> nat {
    let by_words = words(text).len();
    let by_chars = (text.len() + 3) / 4;
    let larger = if by_words >= by_chars {
        by_words
    } else {
        by_chars
    };
    if larger == 0 {
        1
    } else {
        larger
    }
}

/// The estimates of the roles and contents, and four tokens for each message.
pub open spec fn messages_estimate(messages: Seq<MessageView>) -> nat
    decreases messages.len(),
{
    if messages.len() == 0 {
        0
    } else {
        messages_estimate(messages.drop_last()) + text_estimate(messages.last().role)
            + text_estimate(messages.last().content) + 4
    }
}

/// The estimate of a prompt; a chat takes two tokens more than its messages.
pub open spec fn prompt_estimate(prompt: PromptView) -> nat {
    match prompt {
        PromptView::Text(text) => text_estimate(text),
        PromptView::Chat(messages) => messages_estimate(messages) + 2,
    }
}

/// A number of tokens as a machine word, which the largest stands in for.
pub open spec fn token_word(n: nat) -> usize {
    if n <= usize::MAX {
        n as usize
    } else {
        usize::MAX
    }
}

impl TokenCounter for ApproxTokenCounter {
    open spec fn prompt_tokens(&self, prompt: PromptView) -> usize {
        token_word(prompt_estimate(prompt))
    }

    open spec fn text_tokens(&self, text: Seq<char>) -> usize {
        token_word(text_estimate(text))
    }

    fn count_prompt(&self, prompt: &Prompt) -> (n: usize) {
        match prompt {
            Prompt::Text(text) => self.count_text(text.as_str()),
            Prompt::Chat(messages) => {
                let mut sum: usize = 0;
                let mut i: usize = 0;
                let ghost views = message_views(messages@);
                while i < messages.len()
                    invariant
                        i <= messages@.len(),
                        views == message_views(messages@),
                        sum == token_word(messages_estimate(views.take(i as int))),
                    decreases messages@.len() - i,
                {
                    let role = self.count_text(messages[i].role.as_str());
                    let content = self.count_text(messages[i].content.as_str());
                    assert(views.take(i + 1).drop_last() =~= views.take(i as int));
                    assert(views.take(i + 1).last() == messages@[i as int]@);
                    sum = sum.saturating_add(role).saturating_add(content).saturating_add(4);
                    i += 1;
                }
                assert(views.take(i as int) =~= views);
                sum.saturating_add(2)
            },
        }
    }

    fn count_text(&self, text: &str) -> (n: usize) {
        let by_words = count_words(text);
        let chars = text.unicode_len();
        let by_chars: usize = if chars % 4 == 0 {
            chars / 4
        } else {
            chars / 4 + 1
        };
        let larger: usize = if by_words >= by_chars {
            by_words
        } else {
            by_chars
        };
        if larger == 0 {
            1
        } else {
            larger
        }
    }
}

/// What is left of a context after the prompt.
pub open spec fn context_left(limit: nat, tokens: nat) -> nat {
    if tokens <= limit {
        (limit - tokens) as nat
    } else {
        0
    }
}

/// The decision on a prompt of `tokens` tokens and an output of `requested`,
/// given whether it is admitted.
pub open spec fn decision_on(
    request: BudgetRequest,
    requested: nat,
    prompt: PromptView,
    tokens: nat,
    admitted: bool,
    reason: Seq<char>,
    truncated: nat,
) -> DecisionView {
    DecisionView {
        admitted,
        reason,
        model: request.model.model@,
        prompt_tokens: tokens,
        requested_max_tokens: requested,
        admitted_max_tokens: if admitted {
            requested
        } else {
            0
        },
        available_generation_tokens: context_left(request.model.context_limit as nat, tokens),
        truncated_messages: truncated,
        prompt,
    }
}

/// Whether a prompt of `tokens` tokens and an output of `requested` fit the
/// model's context together.
pub open spec fn fits(request: BudgetRequest, requested: nat, tokens: nat) -> bool {
    tokens + requested <= request.model.context_limit
}

/// Admits exactly what fits.
pub open spec fn strict<C: TokenCounter>(
    request: BudgetRequest,
    requested: nat,
    counter: &C,
) -> DecisionView {
    let tokens = counter.prompt_tokens(request.prompt@) as nat;
    let admitted = fits(request, requested, tokens);
    let reason = if admitted {
        "admitted"@
    } else {
        excess_words(tokens, requested, request.model.context_limit as nat)
    };
    decision_on(request, requested, request.prompt@, tokens, admitted, reason, 0)
}

/// Sets the output aside and admits a prompt that fits what is left.
pub open spec fn output_first<C: TokenCounter>(
    request: BudgetRequest,
    requested: nat,
    counter: &C,
) -> DecisionView {
    let tokens = counter.prompt_tokens(request.prompt@) as nat;
    let room = context_left(request.model.context_limit as nat, requested);
    let reason = if tokens <= room {
        "admitted with requested output reserved"@
    } else {
        "prompt_tokens ("@ + decimal(tokens)
            + ") exceeds prompt budget after reserving output ("@ + decimal(room) + ")"@
    };
    decision_on(request, requested, request.prompt@, tokens, tokens <= room, reason, 0)
}

/// How many of the oldest messages have to go before the rest fits; all of
/// them where nothing fits.
pub open spec fn oldest_dropped<C: TokenCounter>(
    request: BudgetRequest,
    requested: nat,
    messages: Seq<MessageView>,
    counter: &C,
) -> nat
    decreases messages.len(),
{
    if messages.len() == 0 || fits(
        request,
        requested,
        counter.prompt_tokens(PromptView::Chat(messages)) as nat,
    ) {
        0
    } else {
        1 + oldest_dropped(request, requested, messages.skip(1), counter)
    }
}

/// Drops the oldest messages of a chat until it fits; text is never cut.
pub open spec fn truncating<C: TokenCounter>(
    request: BudgetRequest,
    requested: nat,
    counter: &C,
) -> DecisionView {
    match request.prompt@ {
        PromptView::Text(_) => strict(request, requested, counter),
        PromptView::Chat(messages) => {
            let dropped = oldest_dropped(request, requested, messages, counter);
            let kept = PromptView::Chat(messages.skip(dropped as int));
            let tokens = counter.prompt_tokens(kept) as nat;
            let admitted = fits(request, requested, tokens);
            let reason = if admitted && dropped > 0 {
                "admitted after truncating "@ + decimal(dropped) + " oldest messages"@
            } else if admitted {
                "admitted"@
            } else {
                "request still exceeds context limit after truncating all messages"@
            };
            decision_on(request, requested, kept, tokens, admitted, reason, dropped)
        },
    }
}

/// The decision that the request's policy calls for.
pub open spec fn policy_decision<C: TokenCounter>(
    request: BudgetRequest,
    counter: &C,
) -> DecisionView {
    match request.policy {
        BudgetPolicy::StrictReject => strict(request, request.output_asked(), counter),
        BudgetPolicy::ReserveOutputFirst => output_first(request, request.output_asked(), counter),
        BudgetPolicy::TruncateOldest => truncating(request, request.output_asked(), counter),
    }
}

/// Decides whether a request is admitted, and with how much output.
pub fn decide_budget<C: TokenCounter>(request: BudgetRequest, counter: &C) -> (r: Result<
    BudgetDecision,
    BudgetError,
>)
    ensures
        match r {
            Ok(decision) => request.model.context_limit > 0 && request.model.max_output_tokens > 0
                && decision@ == policy_decision(request, counter),
            Err(BudgetError::InvalidContextLimit) => request.model.context_limit == 0,
            Err(BudgetError::InvalidMaxOutputTokens) => request.model.context_limit > 0
                && request.model.max_output_tokens == 0,
        },
{
    if request.model.context_limit == 0 {
        return Err(BudgetError::InvalidContextLimit);
    }
    if request.model.max_output_tokens == 0 {
        return Err(BudgetError::InvalidMaxOutputTokens);
    }
    let wanted: usize = match request.requested_max_tokens {
        Some(n) => n,
        None => request.model.default_max_tokens,
    };
    let requested: usize = if wanted <= request.model.max_output_tokens {
        wanted
    } else {
        request.model.max_output_tokens
    };
    match request.policy {
        BudgetPolicy::StrictReject => Ok(strict_decision(request, requested, counter)),
        BudgetPolicy::ReserveOutputFirst => Ok(reserve_output_first(request, requested, counter)),
        BudgetPolicy::TruncateOldest => Ok(truncate_oldest(request, requested, counter)),
    }
}

/// Whether a prompt and an output fit a context together.
fn both_fit(tokens: usize, requested: usize, limit: usize) -> (r: bool)
    ensures
        r == (tokens + requested <= limit),
{
    requested <= limit && tokens <= limit - requested
}

/// Admits a request whose prompt and output fit the context.
pub fn strict_decision<C: TokenCounter>(request: BudgetRequest, requested: usize, counter: &C) -> (r:
    BudgetDecision)
    ensures
        r@ == strict(request, requested as nat, counter),
{
    let limit = request.model.context_limit;
    let prompt_tokens = counter.count_prompt(&request.prompt);
    let admitted = both_fit(prompt_tokens, requested, limit);
    let reason = if admitted {
        "admitted".to_string()
    } else {
        let mut text = "prompt_tokens (".to_string();
        append_decimal(&mut text, prompt_tokens);
        text.append(") + max_tokens (");
        append_decimal(&mut text, requested);
        text.append(") exceeds context_limit (");
        append_decimal(&mut text, limit);
        text.append(")");
        text
    };
    BudgetDecision {
        admitted,
        reason,
        model: request.model.model,
        prompt_tokens,
        requested_max_tokens: requested,
        admitted_max_tokens: if admitted {
            requested
        } else {
            0
        },
        available_generation_tokens: limit.saturating_sub(prompt_tokens),
        truncated_messages: 0,
        prompt: request.prompt,
    }
}

/// Admits a request whose prompt fits what the output leaves of the context.
pub fn reserve_output_first<C: TokenCounter>(
    request: BudgetRequest,
    requested: usize,
    counter: &C,
) -> (r: BudgetDecision)
    ensures
        r@ == output_first(request, requested as nat, counter),
{
    let limit = request.model.context_limit;
    let prompt_tokens = counter.count_prompt(&request.prompt);
    let prompt_budget = limit.saturating_sub(requested);
    let admitted = prompt_tokens <= prompt_budget;
    let reason = if admitted {
        "admitted with requested output reserved".to_string()
    } else {
        let mut text = "prompt_tokens (".to_string();
        append_decimal(&mut text, prompt_tokens);
        text.append(") exceeds prompt budget after reserving output (");
        append_decimal(&mut text, prompt_budget);
        text.append(")");
        text
    };
    BudgetDecision {
        admitted,
        reason,
        model: request.model.model,
        prompt_tokens,
        requested_max_tokens: requested,
        admitted_max_tokens: if admitted {
            requested
        } else {
            0
        },
        available_generation_tokens: limit.saturating_sub(prompt_tokens),
        truncated_messages: 0,
        prompt: request.prompt,
    }
}

/// Drops the oldest messages of a chat until the rest and the output fit.
pub fn truncate_oldest<C: TokenCounter>(request: BudgetRequest, requested: usize, counter: &C) -> (r:
    BudgetDecision)
    ensures
        r@ == truncating(request, requested as nat, counter),
{
    let ghost asked = request;
    let limit = request.model.context_limit;
    let mut messages = match request.prompt {
        Prompt::Chat(messages) => messages,
        Prompt::Text(_) => return strict_decision(request, requested, counter),
    };
    let ghost all = message_views(messages@);
    let ghost dropped = oldest_dropped(asked, requested as nat, all, counter);
    let total: usize = messages.len();
    let mut truncated: usize = 0;
    assert(all.skip(0) =~= all);
    let mut prompt = Prompt::Chat(messages);
    let mut prompt_tokens = counter.count_prompt(&prompt);
    loop
        invariant
            limit == asked.model.context_limit,
            truncated <= all.len(),
            all.len() == total,
            prompt@ == PromptView::Chat(all.skip(truncated as int)),
            prompt_tokens == counter.prompt_tokens(prompt@),
            dropped == oldest_dropped(asked, requested as nat, all, counter),
            dropped == truncated + oldest_dropped(
                asked,
                requested as nat,
                all.skip(truncated as int),
                counter,
            ),
        ensures
            truncated == dropped,
        decreases all.len() - truncated,
    {
        if both_fit(prompt_tokens, requested, limit) {
            break;
        }
        messages = match prompt {
            Prompt::Chat(messages) => messages,
            Prompt::Text(_) => Vec::new(),
        };
        let ghost rest = all.skip(truncated as int);
        assert(message_views(messages@) == rest);
        assert(messages@.len() == rest.len());
        if messages.is_empty() {
            prompt = Prompt::Chat(messages);
            break;
        }
        messages.remove(0);
        assert(message_views(messages@) =~= rest.skip(1));
        assert(rest.skip(1) =~= all.skip(truncated + 1));
        truncated += 1;
        prompt = Prompt::Chat(messages);
        prompt_tokens = counter.count_prompt(&prompt);
    }
    let admitted = both_fit(prompt_tokens, requested, limit);
    let reason = if admitted && truncated > 0 {
        let mut text = "admitted after truncating ".to_string();
        append_decimal(&mut text, truncated);
        text.append(" oldest messages");
        text
    } else if admitted {
        "admitted".to_string()
    } else {
        "request still exceeds context limit after truncating all messages".to_string()
    };
    BudgetDecision {
        admitted,
        reason,
        model: request.model.model,
        prompt_tokens,
        requested_max_tokens: requested,
        admitted_max_tokens: if admitted {
            requested
        } else {
            0
        },
        available_generation_tokens: limit.saturating_sub(prompt_tokens),
        truncated_messages: truncated,
        prompt,
    }
}

/// An admitted request fits: the prompt's tokens and the admitted output stay
/// within the model's context. Setting the output aside first could only fail
/// this for a prompt that counts as nothing beside an output larger than the
/// whole context.
pub proof fn law_admitted_requests_fit<C: TokenCounter>(request: BudgetRequest, counter: &C)
    requires
        request.policy is ReserveOutputFirst ==> counter.prompt_tokens(request.prompt@) > 0
            || request.output_asked() <= request.model.context_limit,
    ensures
        ({
            let d = policy_decision(request, counter);
            d.admitted ==> d.prompt_tokens + d.admitted_max_tokens <= request.model.context_limit
        }),
{
}

/// With the approximate counter every admitted request fits, whatever the
/// policy.
pub proof fn law_estimated_requests_fit(request: BudgetRequest, counter: &ApproxTokenCounter)
    ensures
        ({
            let d = policy_decision(request, counter);
            d.admitted ==> d.prompt_tokens + d.admitted_max_tokens <= request.model.context_limit
        }),
{
}

/// No decision grants more output than the model may put out or the request
/// asked for; a rejected request is granted none.
pub proof fn law_output_is_clamped<C: TokenCounter>(request: BudgetRequest, counter: &C)
    ensures
        ({
            let d = policy_decision(request, counter);
            &&& d.requested_max_tokens <= request.model.max_output_tokens
            &&& request.requested_max_tokens is Some ==> d.requested_max_tokens
                <= request.requested_max_tokens->0
            &&& d.admitted ==> d.admitted_max_tokens == d.requested_max_tokens
            &&& !d.admitted ==> d.admitted_max_tokens == 0
        }),
{
}

/// What an admitted request is granted is available.
pub proof fn law_granted_output_is_available<C: TokenCounter>(request: BudgetRequest, counter: &C)
    requires
        request.policy is ReserveOutputFirst ==> counter.prompt_tokens(request.prompt@) > 0
            || request.output_asked() <= request.model.context_limit,
    ensures
        ({
            let d = policy_decision(request, counter);
            d.admitted_max_tokens <= d.available_generation_tokens
        }),
{
}

/// `oldest_dropped` drops no more messages than there are, drops all of them
/// only where nothing fits, and drops none that it could have kept.
proof fn lemma_oldest_dropped<C: TokenCounter>(
    request: BudgetRequest,
    requested: nat,
    messages: Seq<MessageView>,
    counter: &C,
)
    ensures
        ({
            let dropped = oldest_dropped(request, requested, messages, counter);
            &&& dropped <= messages.len()
            &&& dropped < messages.len() ==> fits(
                request,
                requested,
                counter.prompt_tokens(PromptView::Chat(messages.skip(dropped as int))) as nat,
            )
            &&& forall|k: int|
                0 <= k < dropped ==> !fits(
                    request,
                    requested,
                    counter.prompt_tokens(PromptView::Chat(#[trigger] messages.skip(k))) as nat,
                )
        }),
    decreases messages.len(),
{
    assert(messages.skip(0) =~= messages);
    if messages.len() > 0 && !fits(
        request,
        requested,
        counter.prompt_tokens(PromptView::Chat(messages)) as nat,
    ) {
        let rest = messages.skip(1);
        lemma_oldest_dropped(request, requested, rest, counter);
        let dropped = oldest_dropped(request, requested, rest, counter);
        assert(rest.skip(dropped as int) =~= messages.skip(dropped as int + 1));
        assert forall|k: int| 1 <= k < dropped + 1 implies !fits(
            request,
            requested,
            counter.prompt_tokens(PromptView::Chat(#[trigger] messages.skip(k))) as nat,
        ) by {
            assert(rest.skip(k - 1) =~= messages.skip(k));
        }
    }
}

/// Truncation keeps the newest messages: what is left of a chat is its end,
/// only the oldest messages are gone, as many as reported, and keeping one
/// more would not have fitted. A chat is rejected only once it is empty.
pub proof fn law_truncation_keeps_the_newest<C: TokenCounter>(
    request: BudgetRequest,
    messages: Seq<MessageView>,
    counter: &C,
)
    requires
        request.policy is TruncateOldest,
        request.prompt@ == PromptView::Chat(messages),
    ensures
        ({
            let d = policy_decision(request, counter);
            &&& d.truncated_messages <= messages.len()
            &&& d.prompt == PromptView::Chat(messages.skip(d.truncated_messages as int))
            &&& forall|k: int|
                0 <= k < d.truncated_messages ==> !fits(
                    request,
                    request.output_asked(),
                    counter.prompt_tokens(PromptView::Chat(#[trigger] messages.skip(k))) as nat,
                )
            &&& !d.admitted ==> d.truncated_messages == messages.len()
        }),
{
    lemma_oldest_dropped(request, request.output_asked(), messages, counter);
}

/// A text is never cut, whatever the policy: truncation decides on it as strict
/// rejection does.
pub proof fn law_text_is_never_cut<C: TokenCounter>(
    request: BudgetRequest,
    requested: nat,
    text: Seq<char>,
    counter: &C,
)
    requires
        request.prompt@ == PromptView::Text(text),
    ensures
        truncating(request, requested, counter) == strict(request, requested, counter),
        truncating(request, requested, counter).truncated_messages == 0,
        policy_decision(request, counter).prompt == PromptView::Text(text),
        policy_decision(request, counter).truncated_messages == 0,
{
}

/// The policies differ only where a request does not fit: one that the strict
/// policy admits is admitted by each of them, whole.
pub proof fn law_policies_agree_on_what_fits<C: TokenCounter>(
    request: BudgetRequest,
    policy: BudgetPolicy,
    counter: &C,
)
    requires
        strict(request, request.output_asked(), counter).admitted,
    ensures
        ({
            let d = policy_decision((BudgetRequest { policy, ..request }), counter);
            &&& d.admitted
            &&& d.truncated_messages == 0
            &&& d.prompt == request.prompt@
            &&& d.admitted_max_tokens == request.output_asked()
        }),
{
    let other = BudgetRequest { policy, ..request };
    if let PromptView::Chat(messages) = request.prompt@ {
        assert(messages.skip(0) =~= messages);
        assert(fits(
            other,
            other.output_asked(),
            counter.prompt_tokens(PromptView::Chat(messages)) as nat,
        ));
    }
}

/// A longer chat never counts as fewer tokens: dropping messages from the
/// front only lowers the estimate.
pub proof fn law_dropping_messages_lowers_the_estimate(messages: Seq<MessageView>, k: int)
    requires
        0 <= k <= messages.len(),
    ensures
        messages_estimate(messages.skip(k)) + messages_estimate(messages.take(k))
            == messages_estimate(messages),
        prompt_estimate(PromptView::Chat(messages.skip(k))) <= prompt_estimate(
            PromptView::Chat(messages),
        ),
    decreases messages.len() - k,
{
    if k == messages.len() {
        assert(messages.take(k) =~= messages);
        assert(messages.skip(k) =~= Seq::empty());
    } else {
        let shorter = messages.drop_last();
        law_dropping_messages_lowers_the_estimate(shorter, k);
        assert(messages.skip(k).drop_last() =~= shorter.skip(k));
        assert(messages.take(k) =~= shorter.take(k));
        assert(messages.skip(k).last() == messages.last());
    }
}

/// The output that is asked for is the smaller of the wish and what the model
/// may put out, where the wish is the number that was requested, whatever the
/// default, and the default where none was. An admitted request is granted all
/// of it and a rejected one nothing, whatever the policy.
pub proof fn law_wishes_are_granted_up_to_the_maximum<C: TokenCounter>(
    request: BudgetRequest,
    counter: &C,
)
    ensures
        ({
            let d = policy_decision(request, counter);
            let max = request.model.max_output_tokens;
            &&& request.requested_max_tokens matches Some(n) ==> {
                &&& n <= max ==> d.requested_max_tokens == n
                &&& n > max ==> d.requested_max_tokens == max
                &&& n <= max && d.admitted ==> d.admitted_max_tokens == n
                &&& n > max && d.admitted ==> d.admitted_max_tokens == max
            }
            &&& request.requested_max_tokens is None ==> {
                let n = request.model.default_max_tokens;
                &&& n <= max ==> d.requested_max_tokens == n
                &&& n > max ==> d.requested_max_tokens == max
                &&& n <= max && d.admitted ==> d.admitted_max_tokens == n
                &&& n > max && d.admitted ==> d.admitted_max_tokens == max
            }
            &&& !d.admitted ==> d.admitted_max_tokens == 0
            &&& d.model == request.model.model@
        }),
{
}

/// A request for a number of tokens is decided on alike whatever the default is,
/// and one for the default alike whether or not it says so.
pub proof fn law_defaults_only_stand_in<C: TokenCounter>(
    request: BudgetRequest,
    n: usize,
    default: usize,
    counter: &C,
)
    ensures
        ({
            let asked = BudgetRequest { requested_max_tokens: Some(n), ..request };
            let other = BudgetRequest {
                model: ModelBudget { default_max_tokens: default, ..request.model },
                ..asked
            };
            let unasked = BudgetRequest {
                requested_max_tokens: None,
                model: ModelBudget { default_max_tokens: n, ..request.model },
                ..request
            };
            &&& policy_decision(asked, counter).requested_max_tokens == policy_decision(
                other,
                counter,
            ).requested_max_tokens
            &&& policy_decision(asked, counter).requested_max_tokens == policy_decision(
                unasked,
                counter,
            ).requested_max_tokens
        }),
{
}

/// Each way to decide keeps the output that it is given, grants all of it or
/// nothing, and reports the prompt's tokens as they are counted, the prompt that
/// was counted, and what of the context these tokens leave.
pub proof fn law_decisions_report_what_was_counted<C: TokenCounter>(
    request: BudgetRequest,
    requested: nat,
    counter: &C,
)
    ensures
        ({
            let limit = request.model.context_limit as nat;
            let a = strict(request, requested, counter);
            let b = output_first(request, requested, counter);
            let c = truncating(request, requested, counter);
            &&& a.requested_max_tokens == requested
            &&& b.requested_max_tokens == requested
            &&& c.requested_max_tokens == requested
            &&& a.admitted_max_tokens == if a.admitted { requested } else { 0 }
            &&& b.admitted_max_tokens == if b.admitted { requested } else { 0 }
            &&& c.admitted_max_tokens == if c.admitted { requested } else { 0 }
            &&& a.prompt == request.prompt@ && b.prompt == request.prompt@
            &&& a.prompt_tokens == counter.prompt_tokens(a.prompt)
            &&& b.prompt_tokens == counter.prompt_tokens(b.prompt)
            &&& c.prompt_tokens == counter.prompt_tokens(c.prompt)
            &&& a.truncated_messages == 0 && b.truncated_messages == 0
            &&& a.prompt_tokens <= limit ==> a.prompt_tokens + a.available_generation_tokens
                == limit
            &&& b.prompt_tokens <= limit ==> b.prompt_tokens + b.available_generation_tokens
                == limit
            &&& c.prompt_tokens <= limit ==> c.prompt_tokens + c.available_generation_tokens
                == limit
            &&& a.prompt_tokens > limit ==> a.available_generation_tokens == 0
            &&& b.prompt_tokens > limit ==> b.available_generation_tokens == 0
            &&& c.prompt_tokens > limit ==> c.available_generation_tokens == 0
            &&& a.model == request.model.model@ && b.model == request.model.model@ && c.model
                == request.model.model@
        }),
{
}

/// The strict policy admits a request exactly if the tokens of its prompt and
/// the output fit the context together. Setting the output aside first admits
/// the same, and a prompt that counts as nothing beside any output. Each says
/// why in the numbers that it compared.
pub proof fn law_requests_are_admitted_if_they_fit<C: TokenCounter>(
    request: BudgetRequest,
    requested: nat,
    counter: &C,
)
    ensures
        ({
            let limit = request.model.context_limit;
            let tokens = counter.prompt_tokens(request.prompt@) as nat;
            let a = strict(request, requested, counter);
            let b = output_first(request, requested, counter);
            &&& a.admitted <==> tokens + requested <= limit
            &&& b.admitted <==> tokens + requested <= limit || tokens == 0
            &&& a.admitted ==> a.reason == "admitted"@
            &&& !a.admitted ==> a.reason == "prompt_tokens ("@ + decimal(tokens)
                + ") + max_tokens ("@ + decimal(requested) + ") exceeds context_limit ("@
                + decimal(limit as nat) + ")"@
            &&& b.admitted ==> b.reason == "admitted with requested output reserved"@
            &&& !b.admitted ==> exists|room: nat|
                {
                    &&& room + requested == limit || room == 0 && requested > limit
                    &&& b.reason == "prompt_tokens ("@ + decimal(tokens)
                        + ") exceeds prompt budget after reserving output ("@ + #[trigger] decimal(
                        room,
                    ) + ")"@
                }
        }),
{
    let b = output_first(request, requested, counter);
    let limit = request.model.context_limit;
    if !b.admitted {
        let room = if requested <= limit { (limit - requested) as nat } else { 0 };
        assert(b.reason == "prompt_tokens ("@ + decimal(
            counter.prompt_tokens(request.prompt@) as nat,
        ) + ") exceeds prompt budget after reserving output ("@ + decimal(room) + ")"@);
    }
}

/// Truncation admits a chat exactly if some of its newest messages, all of them
/// or none fit the context with the output, and keeps the most that do.
pub proof fn law_truncation_keeps_the_most_that_fits<C: TokenCounter>(
    request: BudgetRequest,
    requested: nat,
    messages: Seq<MessageView>,
    counter: &C,
)
    requires
        request.prompt@ == PromptView::Chat(messages),
    ensures
        ({
            let limit = request.model.context_limit;
            let d = truncating(request, requested, counter);
            let dropped = d.truncated_messages as int;
            &&& 0 <= dropped <= messages.len()
            &&& d.prompt == PromptView::Chat(messages.skip(dropped))
            &&& d.admitted <==> counter.prompt_tokens(PromptView::Chat(messages.skip(dropped)))
                + requested <= limit
            &&& d.admitted <==> exists|k: int|
                0 <= k <= messages.len() && counter.prompt_tokens(
                    PromptView::Chat(#[trigger] messages.skip(k)),
                ) + requested <= limit
            &&& forall|k: int|
                0 <= k < dropped ==> counter.prompt_tokens(
                    PromptView::Chat(#[trigger] messages.skip(k)),
                ) + requested > limit
            &&& !d.admitted ==> dropped == messages.len()
            &&& d.admitted && dropped == 0 ==> d.reason == "admitted"@
            &&& d.admitted && dropped > 0 ==> d.reason == "admitted after truncating "@
                + decimal(dropped as nat) + " oldest messages"@
            &&& !d.admitted ==> d.reason
                == "request still exceeds context limit after truncating all messages"@
        }),
{
    lemma_oldest_dropped(request, requested, messages, counter);
    let dropped = oldest_dropped(request, requested, messages, counter) as int;
    let d = truncating(request, requested, counter);
    assert(d.truncated_messages == dropped);
    if exists|k: int|
        0 <= k <= messages.len() && counter.prompt_tokens(
            PromptView::Chat(#[trigger] messages.skip(k)),
        ) + requested <= request.model.context_limit {
        let k = choose|k: int|
            0 <= k <= messages.len() && counter.prompt_tokens(
                PromptView::Chat(#[trigger] messages.skip(k)),
            ) + requested <= request.model.context_limit;
        assert(k >= dropped);
        if dropped == messages.len() {
            assert(k == dropped);
        }
    }
}

/// Each policy decides in its own way, and no other, on the output that is asked
/// for: strictly, with the output set aside first, or by dropping the oldest
/// messages.
pub proof fn law_policies_decide_in_their_way<C: TokenCounter>(request: BudgetRequest, counter: &C)
    ensures
        ({
            let d = policy_decision(request, counter);
            let limit = request.model.context_limit;
            let tokens = counter.prompt_tokens(request.prompt@);
            &&& request.policy is StrictReject ==> (d.admitted <==> tokens
                + d.requested_max_tokens <= limit) && d.prompt == request.prompt@
            &&& request.policy is ReserveOutputFirst ==> (d.admitted <==> tokens
                + d.requested_max_tokens <= limit || tokens == 0) && d.prompt == request.prompt@
            &&& request.policy is TruncateOldest ==> match request.prompt@ {
                PromptView::Text(_) => (d.admitted <==> tokens + d.requested_max_tokens <= limit)
                    && d.prompt == request.prompt@,
                PromptView::Chat(messages) => d.admitted <==> exists|k: int|
                    0 <= k <= messages.len() && counter.prompt_tokens(
                        PromptView::Chat(#[trigger] messages.skip(k)),
                    ) + d.requested_max_tokens <= limit,
            }
        }),
{
    if request.policy is TruncateOldest && request.prompt@ is Chat {
        law_truncation_keeps_the_most_that_fits(
            request,
            request.output_asked(),
            request.prompt@->Chat_0,
            counter,
        );
    }
}

/// The approximate count of a text is at least one, at least its words and at
/// least a quarter of its characters, and no more than one of these asks for.
pub proof fn law_texts_count_by_words_or_characters(counter: &ApproxTokenCounter, text: Seq<char>)
    requires
        text.len() <= usize::MAX,
        words(text).len() <= usize::MAX,
    ensures
        ({
            let n = counter.text_tokens(text);
            &&& n >= 1
            &&& n >= words(text).len()
            &&& 4 * n >= text.len()
            &&& n == 1 || n == words(text).len() || 4 * (n - 1) < text.len()
            &&& counter.prompt_tokens(PromptView::Text(text)) == n
        }),
{
}

/// A chat counts as two tokens where it is empty, and each message adds its
/// role, its content and four tokens, up to what a machine word holds.
pub proof fn law_messages_add_up(
    counter: &ApproxTokenCounter,
    messages: Seq<MessageView>,
    message: MessageView,
)
    ensures
        counter.prompt_tokens(PromptView::Chat(Seq::empty())) == 2,
        ({
            let sum = counter.prompt_tokens(PromptView::Chat(messages)) + counter.text_tokens(
                message.role,
            ) + counter.text_tokens(message.content) + 4;
            counter.prompt_tokens(PromptView::Chat(messages.push(message))) == if sum
                <= usize::MAX {
                sum
            } else {
                usize::MAX as int
            }
        }),
{
    assert(messages.push(message).drop_last() =~= messages);
    assert(messages.push(message).last() == message);
}

/// What is said of a prompt and of a decision is what they are: messages one for
/// one and in order, and each number and text as it stands.
pub proof fn law_decisions_say_what_they_are(
    text: String,
    messages: Vec<ChatMessage>,
    i: int,
    decision: BudgetDecision,
)
    ensures
        Prompt::Text(text)@ == PromptView::Text(text@),
        Prompt::Chat(messages)@ matches PromptView::Chat(views) && views.len() == messages@.len()
            && (0 <= i < views.len() ==> views[i].role == messages@[i].role@ && views[i].content
            == messages@[i].content@),
        decision@.admitted == decision.admitted,
        decision@.reason == decision.reason@,
        decision@.model == decision.model@,
        decision@.prompt_tokens == decision.prompt_tokens,
        decision@.requested_max_tokens == decision.requested_max_tokens,
        decision@.admitted_max_tokens == decision.admitted_max_tokens,
        decision@.available_generation_tokens == decision.available_generation_tokens,
        decision@.truncated_messages == decision.truncated_messages,
        decision@.prompt == decision.prompt@,
{
}

/// A model whose limits allow nothing is told which of them does not.
pub proof fn law_errors_name_the_limit()
    ensures
        BudgetError::InvalidContextLimit.words() == "model context limit must be greater than zero"@,
        BudgetError::InvalidMaxOutputTokens.words()
            == "model max output tokens must be greater than zero"@,
{
}

} // verus!
