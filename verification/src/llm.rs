//! The model-provider boundary: request/response shapes and the
//! deterministic stand-in providers used for reproducible runs.

use vstd::prelude::*;

verus! {

/// A single synchronous completion request: a system instruction and a user
/// prompt.
pub struct LlmRequest {
    pub system: String,
    pub prompt: String,
}

impl LlmRequest {
    /// A request with the given prompt and an empty system instruction.
    pub fn new(prompt: String) -> (r: LlmRequest)
        ensures
            r.prompt == prompt,
            r.system@ == Seq::<char>::empty(),
    {
        LlmRequest { system: String::new(), prompt }
    }

    /// The same request with its system instruction replaced.
    pub fn with_system(self, system: String) -> (r: LlmRequest)
        ensures
            r.prompt == self.prompt,
            r.system == system,
    {
        LlmRequest { system, prompt: self.prompt }
    }
}

/// Token accounting reported by a provider.
#[derive(Debug, Clone, Copy, PartialEq, Eq, Structural)]
pub struct TokenUsage {
    pub prompt_tokens: u32,
    pub completion_tokens: u32,
    pub total_tokens: u32,
}

/// Why the provider stopped generating.
#[derive(Debug, Clone, Copy, PartialEq, Eq, Structural)]
pub enum FinishReason {
    /// Generation ended normally.
    Stop,
    /// Any other termination (length, filtering, ...).
    Other,
}

/// A completion response: generated text plus metadata.
#[derive(Debug)]
pub struct LlmResponse {
    pub content: String,
    pub model: String,
    pub usage: TokenUsage,
    pub finish_reason: FinishReason,
}

/// A provider failure, carried as a plain message.
#[derive(Debug)]
pub struct LlmError {
    pub message: String,
}

/// A deterministic stand-in provider with a canned insight response.
pub struct MockInsightProvider {
    response: String,
}

impl View for MockInsightProvider {
    type V = Seq<char>;

    closed spec fn view(&self) -> Seq<char> {
        self.response@
    }
}

impl Clone for MockInsightProvider {
    fn clone(&self) -> (other: Self)
        ensures
            other == *self,
    {
        MockInsightProvider { response: self.response.clone() }
    }
}

impl MockInsightProvider {
    /// A mock provider that always answers with `response`.
    pub fn new(response: &str) -> (p: MockInsightProvider)
        ensures
            p@ == response@,
    {
        MockInsightProvider { response: response.to_owned() }
    }

    /// A mock provider with a canned set of strategic insights.
    pub fn default_insights() -> (p: MockInsightProvider)
        ensures
            p@ == spec_default_insights(),
    {
        MockInsightProvider::new(
            "1. Focus on the LinkedIn B2B campaign as your primary channel - it scores highest and aligns with market signals showing LinkedIn effectiveness for B2B.\n\n2. Invest in self-service demo capabilities as a secondary priority - while it requires development investment, it directly addresses the buyer preference for self-service identified in market signals.\n\n3. Consider a phased approach: launch LinkedIn campaign immediately for quick wins, then build self-service demo experience for long-term competitive advantage.",
        )
    }

    /// The provider's name.
    pub fn name(&self) -> (r: &str)
        ensures
            r@ == "mock-insight"@,
    {
        "mock-insight"
    }

    /// The model identifier the provider reports.
    pub fn model(&self) -> (r: &str)
        ensures
            r@ == "mock-insight-v1"@,
    {
        "mock-insight-v1"
    }

    /// Answers every request with the canned response.
    pub fn complete(&self, request: &LlmRequest) -> (r: Result<LlmResponse, LlmError>)
        ensures
            r matches Ok(resp) && resp.content@ == self@ && resp.model@ == "mock-insight-v1"@
                && resp.usage == (TokenUsage {
                prompt_tokens: 100,
                completion_tokens: 50,
                total_tokens: 150,
            }) && resp.finish_reason == FinishReason::Stop,
    {
        Ok(
            LlmResponse {
                content: self.response.clone(),
                model: "mock-insight-v1".to_owned(),
                usage: TokenUsage { prompt_tokens: 100, completion_tokens: 50, total_tokens: 150 },
                finish_reason: FinishReason::Stop,
            },
        )
    }
}

/// The canned insight response of [`MockInsightProvider::default_insights`].
pub open spec fn spec_default_insights() -> Seq<char> {
    "1. Focus on the LinkedIn B2B campaign as your primary channel - it scores highest and aligns with market signals showing LinkedIn effectiveness for B2B.\n\n2. Invest in self-service demo capabilities as a secondary priority - while it requires development investment, it directly addresses the buyer preference for self-service identified in market signals.\n\n3. Consider a phased approach: launch LinkedIn campaign immediately for quick wins, then build self-service demo experience for long-term competitive advantage."@
}

/// A deterministic stand-in provider with a canned risk-assessment response.
pub struct MockRiskProvider {
    response: String,
}

impl View for MockRiskProvider {
    type V = Seq<char>;

    closed spec fn view(&self) -> Seq<char> {
        self.response@
    }
}

impl Clone for MockRiskProvider {
    fn clone(&self) -> (other: Self)
        ensures
            other == *self,
    {
        MockRiskProvider { response: self.response.clone() }
    }
}

impl MockRiskProvider {
    /// A mock provider that always answers with `response`.
    pub fn new(response: &str) -> (p: MockRiskProvider)
        ensures
            p@ == response@,
    {
        MockRiskProvider { response: response.to_owned() }
    }

    /// A mock provider with a canned set of risk assessments.
    pub fn default_risks() -> (p: MockRiskProvider)
        ensures
            p@ == spec_default_risks(),
    {
        MockRiskProvider::new(
            "1. **Resource Constraint Risk** - The self-service demo requires significant development investment while the team may be focused on the LinkedIn campaign. Mitigation: Phase the initiatives and allocate dedicated resources for each.\n\n2. **Market Timing Risk** - The unclear competitive landscape means competitors could launch similar initiatives first. Mitigation: Conduct rapid competitor analysis within 2 weeks before committing to campaign messaging.\n\n3. **Channel Saturation Risk** - LinkedIn B2B campaigns face increasing competition and rising costs. Mitigation: Test multiple audience segments with small budgets before scaling spend.",
        )
    }

    /// The provider's name.
    pub fn name(&self) -> (r: &str)
        ensures
            r@ == "mock-risk"@,
    {
        "mock-risk"
    }

    /// The model identifier the provider reports.
    pub fn model(&self) -> (r: &str)
        ensures
            r@ == "mock-risk-v1"@,
    {
        "mock-risk-v1"
    }

    /// Answers every request with the canned response.
    pub fn complete(&self, request: &LlmRequest) -> (r: Result<LlmResponse, LlmError>)
        ensures
            r matches Ok(resp) && resp.content@ == self@ && resp.model@ == "mock-risk-v1"@
                && resp.usage == (TokenUsage {
                prompt_tokens: 120,
                completion_tokens: 80,
                total_tokens: 200,
            }) && resp.finish_reason == FinishReason::Stop,
    {
        Ok(
            LlmResponse {
                content: self.response.clone(),
                model: "mock-risk-v1".to_owned(),
                usage: TokenUsage { prompt_tokens: 120, completion_tokens: 80, total_tokens: 200 },
                finish_reason: FinishReason::Stop,
            },
        )
    }
}

/// The canned risk response of [`MockRiskProvider::default_risks`].
pub open spec fn spec_default_risks() -> Seq<char> {
    "1. **Resource Constraint Risk** - The self-service demo requires significant development investment while the team may be focused on the LinkedIn campaign. Mitigation: Phase the initiatives and allocate dedicated resources for each.\n\n2. **Market Timing Risk** - The unclear competitive landscape means competitors could launch similar initiatives first. Mitigation: Conduct rapid competitor analysis within 2 weeks before committing to campaign messaging.\n\n3. **Channel Saturation Risk** - LinkedIn B2B campaigns face increasing competition and rising costs. Mitigation: Test multiple audience segments with small budgets before scaling spend."@
}

/// A deterministic stand-in provider that fails every request, for exercising
/// the degraded path.
pub struct FailingProvider {
    message: String,
}

impl View for FailingProvider {
    type V = Seq<char>;

    closed spec fn view(&self) -> Seq<char> {
        self.message@
    }
}

impl Clone for FailingProvider {
    fn clone(&self) -> (other: Self)
        ensures
            other == *self,
    {
        FailingProvider { message: self.message.clone() }
    }
}

impl FailingProvider {
    /// A provider that refuses every request with `message`.
    pub fn new(message: &str) -> (p: FailingProvider)
        ensures
            p@ == message@,
    {
        FailingProvider { message: message.to_owned() }
    }

    /// Fails every request.
    pub fn complete(&self, request: &LlmRequest) -> (r: Result<LlmResponse, LlmError>)
        ensures
            r matches Err(e) && e.message@ == self@,
    {
        Err(LlmError { message: self.message.clone() })
    }
}

/// The closed set of providers an agent can be wired to: the deterministic
/// stand-ins. A live network-backed provider would sit behind the same
/// boundary, outside this library.
pub enum LlmProvider {
    MockInsight(MockInsightProvider),
    MockRisk(MockRiskProvider),
    Failing(FailingProvider),
}

/// Mathematical model of a provider: which stand-in it is and its canned
/// text.
pub enum ProviderModel {
    MockInsight(Seq<char>),
    MockRisk(Seq<char>),
    Failing(Seq<char>),
}

impl ProviderModel {
    /// What `complete` returns: the generated text, or the failure message.
    pub open spec fn outcome(self) -> Result<Seq<char>, Seq<char>> {
        match self {
            ProviderModel::MockInsight(s) => Ok(s),
            ProviderModel::MockRisk(s) => Ok(s),
            ProviderModel::Failing(m) => Err(m),
        }
    }
}

impl View for LlmProvider {
    type V = ProviderModel;

    open spec fn view(&self) -> ProviderModel {
        match self {
            LlmProvider::MockInsight(p) => ProviderModel::MockInsight(p@),
            LlmProvider::MockRisk(p) => ProviderModel::MockRisk(p@),
            LlmProvider::Failing(p) => ProviderModel::Failing(p@),
        }
    }
}

impl Clone for LlmProvider {
    fn clone(&self) -> (other: Self)
        ensures
            other == *self,
    {
        match self {
            LlmProvider::MockInsight(p) => LlmProvider::MockInsight(p.clone()),
            LlmProvider::MockRisk(p) => LlmProvider::MockRisk(p.clone()),
            LlmProvider::Failing(p) => LlmProvider::Failing(p.clone()),
        }
    }
}

impl LlmProvider {
    /// What `complete` returns: the generated text, or the failure message.
    pub open spec fn spec_outcome(&self) -> Result<Seq<char>, Seq<char>> {
        self@.outcome()
    }

    /// One blocking completion round trip: the stand-in's canned text with
    /// its fixed model identifier, token usage and finish reason, or its
    /// fixed failure.
    pub fn complete(&self, request: &LlmRequest) -> (r: Result<LlmResponse, LlmError>)
        ensures
            match self.spec_outcome() {
                Ok(content) => r matches Ok(resp) && resp.content@ == content,
                Err(message) => r matches Err(e) && e.message@ == message,
            },
            match self {
                LlmProvider::MockInsight(p) => r matches Ok(resp) && resp.model@
                    == "mock-insight-v1"@ && resp.usage == (TokenUsage {
                    prompt_tokens: 100,
                    completion_tokens: 50,
                    total_tokens: 150,
                }) && resp.finish_reason == FinishReason::Stop,
                LlmProvider::MockRisk(p) => r matches Ok(resp) && resp.model@ == "mock-risk-v1"@
                    && resp.usage == (TokenUsage {
                    prompt_tokens: 120,
                    completion_tokens: 80,
                    total_tokens: 200,
                }) && resp.finish_reason == FinishReason::Stop,
                LlmProvider::Failing(p) => r is Err,
            },
    {
        match self {
            LlmProvider::MockInsight(p) => p.complete(request),
            LlmProvider::MockRisk(p) => p.complete(request),
            LlmProvider::Failing(p) => p.complete(request),
        }
    }
}

} // verus!
