//! Shared infrastructure policies and the adapter that holds them: retry,
//! rate limiting, caching, logging, tracing and error handling settings,
//! refreshed as whole values, behind an initialization that is done once.

use vstd::prelude::*;
use vstd::string::StringExecFns;
use crate::metrics::Decimal;
use crate::text::append_decimal;
use crate::text::decimal;

verus! {

/// Settings common to every adapter.
#[derive(Clone, Copy, Debug, PartialEq, Eq, Structural)]
pub struct AdapterConfig {
    /// Whether the adapter is in use at all.
    pub enabled: bool,
}

/// Which integrations the adapter offers.
#[derive(Clone, Copy, Debug, PartialEq, Eq, Structural)]
pub struct InfraConfig {
    pub adapter: AdapterConfig,
    pub enable_config: bool,
    pub enable_logging: bool,
    pub enable_tracing: bool,
    pub enable_caching: bool,
    pub enable_retry: bool,
    pub enable_rate_limiting: bool,
}

/// The value of a switch that was not set: on.
pub fn default_true() -> (r: bool)
    ensures
        r,
{
    true
}

/// The configuration with every switch on.
pub open spec fn default_config() -> InfraConfig {
    InfraConfig {
        adapter: AdapterConfig { enabled: true },
        enable_config: true,
        enable_logging: true,
        enable_tracing: true,
        enable_caching: true,
        enable_retry: true,
        enable_rate_limiting: true,
    }
}

impl Default for InfraConfig {
    fn default() -> (r: InfraConfig)
        ensures
            r == default_config(),
    {
        InfraConfig {
            adapter: AdapterConfig { enabled: true },
            enable_config: default_true(),
            enable_logging: default_true(),
            enable_tracing: default_true(),
            enable_caching: default_true(),
            enable_retry: default_true(),
            enable_rate_limiting: default_true(),
        }
    }
}

/// When and how long to wait before a request is tried again.
#[derive(Clone, Debug)]
pub struct RetryPolicy {
    /// Maximum number of retry attempts.
    pub max_retries: u32,
    /// Wait before the first retry, in milliseconds.
    pub initial_backoff_ms: u64,
    /// Longest wait, in milliseconds.
    pub max_backoff_ms: u64,
    /// Factor by which the wait grows from one attempt to the next.
    pub multiplier: Decimal,
    /// Whether a random share is added to the wait.
    pub jitter: bool,
    /// Status codes after which a request is tried again.
    pub retryable_status_codes: Vec<u16>,
}

/// What a `RetryPolicy` stands for.
pub struct RetryPolicyView {
    pub max_retries: u32,
    pub initial_backoff_ms: u64,
    pub max_backoff_ms: u64,
    pub multiplier: Decimal,
    pub jitter: bool,
    pub retryable_status_codes: Seq<u16>,
}

impl View for RetryPolicy {
    type V = RetryPolicyView;

    open spec fn view(&self) -> RetryPolicyView {
        RetryPolicyView {
            max_retries: self.max_retries,
            initial_backoff_ms: self.initial_backoff_ms,
            max_backoff_ms: self.max_backoff_ms,
            multiplier: self.multiplier,
            jitter: self.jitter,
            retryable_status_codes: self.retryable_status_codes@,
        }
    }
}

/// Three retries, from 100 ms doubling up to 30 s, with jitter, after
/// timeouts, rate limiting and server errors.
pub open spec fn default_retry_policy() -> RetryPolicyView {
    RetryPolicyView {
        max_retries: 3,
        initial_backoff_ms: 100,
        max_backoff_ms: 30_000,
        multiplier: Decimal { millionths: 2_000_000 },
        jitter: true,
        retryable_status_codes: seq![408u16, 429u16, 500u16, 502u16, 503u16, 504u16],
    }
}

/// The wait before attempt `attempt` without jitter: the initial wait,
/// multiplied once for every attempt after the first and rounded down each
/// time, and never more than `cap`.
pub open spec fn base_backoff(initial: nat, multiplier: nat, cap: nat, attempt: nat) -> nat
    decreases attempt,
{
    if attempt <= 1 {
        if initial <= cap {
            initial
        } else {
            cap
        }
    } else {
        let grown = base_backoff(initial, multiplier, cap, (attempt - 1) as nat) * multiplier
            / 1_000_000;
        if grown <= cap {
            grown
        } else {
            cap
        }
    }
}

/// The share of `backoff` that a random number `draw` out of 2^32 adds:
/// three tenths of the wait times `draw / 2^32`, rounded down.
pub open spec fn jitter_of(backoff: nat, draw: nat) -> nat {
    backoff * 3 * draw / 42_949_672_960
}

/// The most that jitter adds: less than three tenths of the wait.
pub proof fn lemma_jitter_bound(backoff: nat, draw: nat)
    requires
        draw < 4_294_967_296,
    ensures
        10 * jitter_of(backoff, draw) <= 3 * backoff,
{
    assert(backoff * 3 * draw <= backoff * 3 * 4_294_967_296) by (nonlinear_arith)
        requires
            draw < 4_294_967_296,
    ;
    assert(backoff * 3 * 4_294_967_296 == (backoff * 3) * 4_294_967_296) by (nonlinear_arith);
}

/// Draws a number from `rand::random`, which takes it from the generator of
/// the thread. Nothing is claimed of the number. The generator seeds itself
/// from the operating system and stops the program where that fails.
#[verifier::external_body]
pub(crate) fn random_draw() -> (draw: u32) {
    rand::random::<u32>()
}

impl RetryPolicy {
    /// Whether a request that ended in `status_code` is tried again.
    pub fn should_retry(&self, status_code: u16) -> (r: bool)
        ensures
            r == self@.retryable_status_codes.contains(status_code),
    {
        let mut i: usize = 0;
        while i < self.retryable_status_codes.len()
            invariant
                i <= self.retryable_status_codes@.len(),
                forall|k: int| 0 <= k < i ==> self.retryable_status_codes@[k] != status_code,
            decreases self.retryable_status_codes@.len() - i,
        {
            if self.retryable_status_codes[i] == status_code {
                return true;
            }
            i = i + 1;
        }
        false
    }

    /// The wait before attempt `attempt` without jitter, in milliseconds.
    pub fn base_backoff_ms(&self, attempt: u32) -> (ms: u64)
        ensures
            ms == base_backoff(
                self.initial_backoff_ms as nat,
                self.multiplier.millionths as nat,
                self.max_backoff_ms as nat,
                attempt as nat,
            ),
            ms <= self.max_backoff_ms,
    {
        let cap: u64 = self.max_backoff_ms;
        let mut ms: u64 = if self.initial_backoff_ms <= cap {
            self.initial_backoff_ms
        } else {
            cap
        };
        let mut step: u32 = 1;
        while step < attempt
            invariant
                1 <= step,
                step <= attempt || step == 1,
                cap == self.max_backoff_ms,
                ms <= cap,
                ms == base_backoff(
                    self.initial_backoff_ms as nat,
                    self.multiplier.millionths as nat,
                    cap as nat,
                    step as nat,
                ),
            decreases attempt - step,
        {
            assert(ms * self.multiplier.millionths <= u64::MAX * u64::MAX) by (nonlinear_arith)
                requires
                    ms <= u64::MAX,
                    self.multiplier.millionths <= u64::MAX,
            ;
            let grown: u128 = ms as u128 * self.multiplier.millionths as u128 / 1_000_000;
            ms = if grown <= cap as u128 {
                grown as u64
            } else {
                cap
            };
            step = step + 1;
        }
        proof {
            let initial = self.initial_backoff_ms as nat;
            let factor = self.multiplier.millionths as nat;
            assert(base_backoff(initial, factor, cap as nat, 0) == base_backoff(
                initial,
                factor,
                cap as nat,
                1,
            ));
        }
        ms
    }

    /// The wait before attempt `attempt` where the random number `draw` was
    /// drawn: the base wait, and with jitter its share of up to three tenths on top.
    pub fn backoff_with_draw(&self, attempt: u32, draw: u32) -> (ms: u64)
        ensures
            ms == if self.jitter {
                let base = base_backoff(
                    self.initial_backoff_ms as nat,
                    self.multiplier.millionths as nat,
                    self.max_backoff_ms as nat,
                    attempt as nat,
                );
                let with_jitter = base + jitter_of(base, draw as nat);
                if with_jitter <= u64::MAX {
                    with_jitter as u64
                } else {
                    u64::MAX
                }
            } else {
                base_backoff(
                    self.initial_backoff_ms as nat,
                    self.multiplier.millionths as nat,
                    self.max_backoff_ms as nat,
                    attempt as nat,
                ) as u64
            },
    {
        let base: u64 = self.base_backoff_ms(attempt);
        if !self.jitter {
            return base;
        }
        assert(base * 3 * draw <= u64::MAX * 3 * u32::MAX) by (nonlinear_arith)
            requires
                base <= u64::MAX,
                draw <= u32::MAX,
        ;
        let jitter: u128 = base as u128 * 3 * draw as u128 / 42_949_672_960;
        let sum: u128 = base as u128 + jitter;
        if sum <= u64::MAX as u128 {
            sum as u64
        } else {
            u64::MAX
        }
    }

    /// The wait before attempt `attempt`, in milliseconds. Without jitter it
    /// is the base wait; with jitter it is the base wait and up to three
    /// tenths of it on top, as chance has it.
    pub fn backoff_for_attempt(&self, attempt: u32) -> (ms: u64)
        ensures
            ms >= base_backoff(
                self.initial_backoff_ms as nat,
                self.multiplier.millionths as nat,
                self.max_backoff_ms as nat,
                attempt as nat,
            ),
            10 * (ms - base_backoff(
                self.initial_backoff_ms as nat,
                self.multiplier.millionths as nat,
                self.max_backoff_ms as nat,
                attempt as nat,
            )) <= 3 * base_backoff(
                self.initial_backoff_ms as nat,
                self.multiplier.millionths as nat,
                self.max_backoff_ms as nat,
                attempt as nat,
            ),
            !self.jitter ==> ms == base_backoff(
                self.initial_backoff_ms as nat,
                self.multiplier.millionths as nat,
                self.max_backoff_ms as nat,
                attempt as nat,
            ),
    {
        let draw: u32 = if self.jitter {
            random_draw()
        } else {
            0
        };
        proof {
            lemma_jitter_bound(
                base_backoff(
                    self.initial_backoff_ms as nat,
                    self.multiplier.millionths as nat,
                    self.max_backoff_ms as nat,
                    attempt as nat,
                ),
                draw as nat,
            );
        }
        self.backoff_with_draw(attempt, draw)
    }

    /// A copy of the policy.
    pub fn duplicate(&self) -> (r: RetryPolicy)
        ensures
            r@ == self@,
    {
        RetryPolicy {
            max_retries: self.max_retries,
            initial_backoff_ms: self.initial_backoff_ms,
            max_backoff_ms: self.max_backoff_ms,
            multiplier: self.multiplier,
            jitter: self.jitter,
            retryable_status_codes: self.retryable_status_codes.clone(),
        }
    }
}

impl Default for RetryPolicy {
    fn default() -> (r: RetryPolicy)
        ensures
            r@ == default_retry_policy(),
    {
        let mut codes: Vec<u16> = Vec::new();
        codes.push(408);
        codes.push(429);
        codes.push(500);
        codes.push(502);
        codes.push(503);
        codes.push(504);
        assert(codes@ =~= seq![408u16, 429u16, 500u16, 502u16, 503u16, 504u16]);
        RetryPolicy {
            max_retries: 3,
            initial_backoff_ms: 100,
            max_backoff_ms: 30_000,
            multiplier: Decimal { millionths: 2_000_000 },
            jitter: true,
            retryable_status_codes: codes,
        }
    }
}

/// How many requests are let through.
#[derive(Clone, Copy, Debug, PartialEq, Eq, Structural)]
pub struct RateLimitPolicy {
    pub requests_per_second: u32,
    pub burst_size: u32,
    pub per_user: bool,
    pub per_ip: bool,
    pub global: bool,
}

/// 100 requests a second with bursts of 200, per user, per address and overall.
pub open spec fn default_rate_limit_policy() -> RateLimitPolicy {
    RateLimitPolicy {
        requests_per_second: 100,
        burst_size: 200,
        per_user: true,
        per_ip: true,
        global: true,
    }
}

impl Default for RateLimitPolicy {
    fn default() -> (r: RateLimitPolicy)
        ensures
            r == default_rate_limit_policy(),
    {
        RateLimitPolicy {
            requests_per_second: 100,
            burst_size: 200,
            per_user: true,
            per_ip: true,
            global: true,
        }
    }
}

/// Where cached values are kept.
#[derive(Clone, Copy, Debug, PartialEq, Eq, Structural)]
pub enum CacheBackend {
    /// In memory.
    Memory,
    Redis,
    Memcached,
}

impl Default for CacheBackend {
    fn default() -> (r: CacheBackend)
        ensures
            r == CacheBackend::Memory,
    {
        CacheBackend::Memory
    }
}

/// How much is cached, and for how long.
#[derive(Clone, Copy, Debug, PartialEq, Eq, Structural)]
pub struct CachePolicy {
    pub max_entries: usize,
    pub max_size_bytes: usize,
    pub default_ttl_secs: u64,
    pub negative_cache: bool,
    pub negative_ttl_secs: u64,
    pub backend: CacheBackend,
}

/// Ten thousand entries and 256 MiB in memory, kept for an hour; misses for a minute.
pub open spec fn default_cache_policy() -> CachePolicy {
    CachePolicy {
        max_entries: 10_000,
        max_size_bytes: 268_435_456,
        default_ttl_secs: 3600,
        negative_cache: true,
        negative_ttl_secs: 60,
        backend: CacheBackend::Memory,
    }
}

impl Default for CachePolicy {
    fn default() -> (r: CachePolicy)
        ensures
            r == default_cache_policy(),
    {
        CachePolicy {
            max_entries: 10_000,
            max_size_bytes: 256 * 1024 * 1024,
            default_ttl_secs: 3600,
            negative_cache: true,
            negative_ttl_secs: 60,
            backend: CacheBackend::Memory,
        }
    }
}

/// How log lines are written.
#[derive(Clone, Debug)]
pub struct LoggingConfig {
    pub level: String,
    pub format: String,
    pub timestamps: bool,
    pub spans: bool,
    pub targets: bool,
    pub file_location: bool,
}

/// What a `LoggingConfig` stands for.
pub struct LoggingView {
    pub level: Seq<char>,
    pub format: Seq<char>,
    pub timestamps: bool,
    pub spans: bool,
    pub targets: bool,
    pub file_location: bool,
}

impl View for LoggingConfig {
    type V = LoggingView;

    open spec fn view(&self) -> LoggingView {
        LoggingView {
            level: self.level@,
            format: self.format@,
            timestamps: self.timestamps,
            spans: self.spans,
            targets: self.targets,
            file_location: self.file_location,
        }
    }
}

/// Level `info` in format `json`, with timestamps, spans and targets.
pub open spec fn default_logging() -> LoggingView {
    LoggingView {
        level: "info"@,
        format: "json"@,
        timestamps: true,
        spans: true,
        targets: true,
        file_location: false,
    }
}

impl Default for LoggingConfig {
    fn default() -> (r: LoggingConfig)
        ensures
            r@ == default_logging(),
    {
        LoggingConfig {
            level: "info".to_owned(),
            format: "json".to_owned(),
            timestamps: true,
            spans: true,
            targets: true,
            file_location: false,
        }
    }
}

impl LoggingConfig {
    /// A copy of the settings.
    pub fn duplicate(&self) -> (r: LoggingConfig)
        ensures
            r@ == self@,
    {
        LoggingConfig {
            level: self.level.clone(),
            format: self.format.clone(),
            timestamps: self.timestamps,
            spans: self.spans,
            targets: self.targets,
            file_location: self.file_location,
        }
    }
}

/// How trace context travels between services.
#[derive(Clone, Copy, Debug, PartialEq, Eq, Structural)]
pub enum TracePropagation {
    W3c,
    Jaeger,
    B3,
    XRay,
}

impl Default for TracePropagation {
    fn default() -> (r: TracePropagation)
        ensures
            r == TracePropagation::W3c,
    {
        TracePropagation::W3c
    }
}

/// Whether and how traces are collected.
#[derive(Clone, Debug)]
pub struct TracingConfig {
    pub enabled: bool,
    pub otlp_endpoint: Option<String>,
    pub service_name: String,
    /// Share of requests that are traced, between 0 and 1.
    pub sample_rate: Decimal,
    pub propagation: TracePropagation,
}

/// What a `TracingConfig` stands for.
pub struct TracingView {
    pub enabled: bool,
    pub otlp_endpoint: Option<Seq<char>>,
    pub service_name: Seq<char>,
    pub sample_rate: Decimal,
    pub propagation: TracePropagation,
}

/// What an optional text stands for.
pub open spec fn text_of(text: Option<String>) -> Option<Seq<char>> {
    match text {
        Some(s) => Some(s@),
        None => None,
    }
}

impl View for TracingConfig {
    type V = TracingView;

    open spec fn view(&self) -> TracingView {
        TracingView {
            enabled: self.enabled,
            otlp_endpoint: text_of(self.otlp_endpoint),
            service_name: self.service_name@,
            sample_rate: self.sample_rate,
            propagation: self.propagation,
        }
    }
}

/// Every request traced, without an endpoint, in the W3C format.
pub open spec fn default_tracing() -> TracingView {
    TracingView {
        enabled: true,
        otlp_endpoint: None,
        service_name: "llm-data-vault"@,
        sample_rate: Decimal { millionths: 1_000_000 },
        propagation: TracePropagation::W3c,
    }
}

fn copy_text(text: &Option<String>) -> (r: Option<String>)
    ensures
        text_of(r) == text_of(*text),
{
    match text {
        Some(s) => Some(s.clone()),
        None => None,
    }
}

impl Default for TracingConfig {
    fn default() -> (r: TracingConfig)
        ensures
            r@ == default_tracing(),
    {
        TracingConfig {
            enabled: true,
            otlp_endpoint: None,
            service_name: "llm-data-vault".to_owned(),
            sample_rate: Decimal { millionths: 1_000_000 },
            propagation: TracePropagation::W3c,
        }
    }
}

impl TracingConfig {
    /// A copy of the settings.
    pub fn duplicate(&self) -> (r: TracingConfig)
        ensures
            r@ == self@,
    {
        TracingConfig {
            enabled: self.enabled,
            otlp_endpoint: copy_text(&self.otlp_endpoint),
            service_name: self.service_name.clone(),
            sample_rate: self.sample_rate,
            propagation: self.propagation,
        }
    }
}

/// What is reported of an error, and where.
#[derive(Clone, Debug)]
pub struct ErrorConfig {
    pub include_stack_trace: bool,
    pub include_context: bool,
    pub reporting_endpoint: Option<String>,
    /// Share of errors that are reported, between 0 and 1.
    pub sample_rate: Decimal,
}

/// What an `ErrorConfig` stands for.
pub struct ErrorView {
    pub include_stack_trace: bool,
    pub include_context: bool,
    pub reporting_endpoint: Option<Seq<char>>,
    pub sample_rate: Decimal,
}

impl View for ErrorConfig {
    type V = ErrorView;

    open spec fn view(&self) -> ErrorView {
        ErrorView {
            include_stack_trace: self.include_stack_trace,
            include_context: self.include_context,
            reporting_endpoint: text_of(self.reporting_endpoint),
            sample_rate: self.sample_rate,
        }
    }
}

/// Every error reported with its context, without stack trace or endpoint.
pub open spec fn default_errors() -> ErrorView {
    ErrorView {
        include_stack_trace: false,
        include_context: true,
        reporting_endpoint: None,
        sample_rate: Decimal { millionths: 1_000_000 },
    }
}

impl Default for ErrorConfig {
    fn default() -> (r: ErrorConfig)
        ensures
            r@ == default_errors(),
    {
        ErrorConfig {
            include_stack_trace: false,
            include_context: true,
            reporting_endpoint: None,
            sample_rate: Decimal { millionths: 1_000_000 },
        }
    }
}

impl ErrorConfig {
    /// A copy of the settings.
    pub fn duplicate(&self) -> (r: ErrorConfig)
        ensures
            r@ == self@,
    {
        ErrorConfig {
            include_stack_trace: self.include_stack_trace,
            include_context: self.include_context,
            reporting_endpoint: copy_text(&self.reporting_endpoint),
            sample_rate: self.sample_rate,
        }
    }
}

/// Which integrations are available.
#[derive(Clone, Copy, Debug, PartialEq, Eq, Structural)]
pub struct InfraCapabilities {
    pub config_available: bool,
    pub logging_available: bool,
    pub tracing_available: bool,
    pub caching_available: bool,
    pub retry_available: bool,
    pub rate_limiting_available: bool,
}

/// No integration available.
pub open spec fn no_capabilities() -> InfraCapabilities {
    InfraCapabilities {
        config_available: false,
        logging_available: false,
        tracing_available: false,
        caching_available: false,
        retry_available: false,
        rate_limiting_available: false,
    }
}

/// The integrations that a configuration switches on.
pub open spec fn capabilities_of(config: InfraConfig) -> InfraCapabilities {
    InfraCapabilities {
        config_available: config.enable_config,
        logging_available: config.enable_logging,
        tracing_available: config.enable_tracing,
        caching_available: config.enable_caching,
        retry_available: config.enable_retry,
        rate_limiting_available: config.enable_rate_limiting,
    }
}

/// Number of integrations that are available.
pub open spec fn available_count(c: InfraCapabilities) -> nat {
    (if c.config_available { 1nat } else { 0nat }) + (if c.logging_available { 1nat } else { 0nat })
        + (if c.tracing_available { 1nat } else { 0nat }) + (if c.caching_available { 1nat } else { 0nat })
        + (if c.retry_available { 1nat } else { 0nat }) + (if c.rate_limiting_available { 1nat } else { 0nat })
}

impl Default for InfraCapabilities {
    fn default() -> (r: InfraCapabilities)
        ensures
            r == no_capabilities(),
    {
        InfraCapabilities {
            config_available: false,
            logging_available: false,
            tracing_available: false,
            caching_available: false,
            retry_available: false,
            rate_limiting_available: false,
        }
    }
}

/// Whether an adapter can do its work, and a sentence on why.
#[derive(Clone, Debug)]
pub struct AdapterHealth {
    pub healthy: bool,
    pub message: String,
}

impl AdapterHealth {
    /// A healthy report.
    pub fn healthy(message: String) -> (r: AdapterHealth)
        ensures
            r.healthy,
            r.message == message,
    {
        AdapterHealth { healthy: true, message }
    }

    /// An unhealthy report.
    pub fn unhealthy(message: &str) -> (r: AdapterHealth)
        ensures
            !r.healthy,
            r.message@ == message@,
    {
        AdapterHealth { healthy: false, message: message.to_owned() }
    }
}

/// The state of the adapter: its configuration, the policies it holds, what
/// is available, and whether it is initialized.
pub struct InfraState {
    pub config: InfraConfig,
    pub retry: RetryPolicyView,
    pub rate_limit: RateLimitPolicy,
    pub cache: CachePolicy,
    pub logging: LoggingView,
    pub tracing: TracingView,
    pub errors: ErrorView,
    pub capabilities: InfraCapabilities,
    pub initialized: bool,
}

/// The state of an adapter that was just made with `config`: default
/// policies, nothing available, not initialized.
pub open spec fn fresh_state(config: InfraConfig) -> InfraState {
    InfraState {
        config,
        retry: default_retry_policy(),
        rate_limit: default_rate_limit_policy(),
        cache: default_cache_policy(),
        logging: default_logging(),
        tracing: default_tracing(),
        errors: default_errors(),
        capabilities: no_capabilities(),
        initialized: false,
    }
}

/// The state after the three policies were refreshed: each one whose
/// integration is switched on is replaced as a whole.
pub open spec fn refreshed(s: InfraState) -> InfraState {
    InfraState {
        retry: if s.config.enable_retry {
            default_retry_policy()
        } else {
            s.retry
        },
        rate_limit: if s.config.enable_rate_limiting {
            default_rate_limit_policy()
        } else {
            s.rate_limit
        },
        cache: if s.config.enable_caching {
            default_cache_policy()
        } else {
            s.cache
        },
        ..s
    }
}

/// The state after initialization: nothing changes where the adapter was
/// initialized before; else the capabilities follow the configuration, the
/// policies are refreshed and the adapter is initialized.
pub open spec fn initialized_state(s: InfraState) -> InfraState {
    if s.initialized {
        s
    } else {
        InfraState {
            capabilities: capabilities_of(s.config),
            initialized: true,
            ..refreshed(s)
        }
    }
}

/// What a health check says in a state.
pub open spec fn health_text(s: InfraState) -> (bool, Seq<char>) {
    if !s.config.adapter.enabled {
        (false, "Adapter is disabled"@)
    } else if !s.initialized {
        (false, "Adapter not initialized"@)
    } else {
        (
            true,
            "LLM-Infra adapter healthy: "@ + decimal(available_count(s.capabilities))
                + "/6 capabilities available"@,
        )
    }
}

/// Initializing twice leaves the adapter as initializing once does.
pub proof fn lemma_initialize_idempotent(s: InfraState)
    ensures
        initialized_state(initialized_state(s)) == initialized_state(s),
        initialized_state(s).initialized,
        initialized_state(initialized_state(s)).capabilities == initialized_state(s).capabilities,
{
}

/// Refreshing replaces whole policies and touches nothing else, and doing
/// it again changes nothing.
pub proof fn lemma_refresh(s: InfraState)
    ensures
        refreshed(refreshed(s)) == refreshed(s),
        refreshed(s).config == s.config,
        refreshed(s).capabilities == s.capabilities,
        refreshed(s).initialized == s.initialized,
{
}

/// The adapter that holds the infrastructure policies.
pub struct InfraAdapter {
    config: InfraConfig,
    retry_policy: RetryPolicy,
    rate_limit_policy: RateLimitPolicy,
    cache_policy: CachePolicy,
    logging_config: LoggingConfig,
    tracing_config: TracingConfig,
    error_config: ErrorConfig,
    capabilities: InfraCapabilities,
    initialized: bool,
}

impl View for InfraAdapter {
    type V = InfraState;

    closed spec fn view(&self) -> InfraState {
        InfraState {
            config: self.config,
            retry: self.retry_policy@,
            rate_limit: self.rate_limit_policy,
            cache: self.cache_policy,
            logging: self.logging_config@,
            tracing: self.tracing_config@,
            errors: self.error_config@,
            capabilities: self.capabilities,
            initialized: self.initialized,
        }
    }
}

impl InfraAdapter {
    /// An adapter with the given configuration and default policies.
    pub fn new(config: InfraConfig) -> (r: InfraAdapter)
        ensures
            r@ == fresh_state(config),
    {
        InfraAdapter {
            config,
            retry_policy: RetryPolicy::default(),
            rate_limit_policy: RateLimitPolicy::default(),
            cache_policy: CachePolicy::default(),
            logging_config: LoggingConfig::default(),
            tracing_config: TracingConfig::default(),
            error_config: ErrorConfig::default(),
            capabilities: InfraCapabilities::default(),
            initialized: false,
        }
    }

    /// An adapter with the default configuration.
    pub fn with_defaults() -> (r: InfraAdapter)
        ensures
            r@ == fresh_state(default_config()),
    {
        InfraAdapter::new(InfraConfig::default())
    }

    /// Name of the adapter.
    pub fn name(&self) -> (name: &'static str)
        ensures
            name@ == "llm-infra"@,
    {
        "llm-infra"
    }

    /// Version of the adapter.
    pub fn version(&self) -> (version: &'static str)
        ensures
            version@ == "0.2.0"@,
    {
        "0.2.0"
    }

    /// A snapshot of the retry policy.
    pub fn retry_policy(&self) -> (r: RetryPolicy)
        ensures
            r@ == self@.retry,
    {
        self.retry_policy.duplicate()
    }

    /// A snapshot of the rate limit policy.
    pub fn rate_limit_policy(&self) -> (r: RateLimitPolicy)
        ensures
            r == self@.rate_limit,
    {
        self.rate_limit_policy
    }

    /// A snapshot of the cache policy.
    pub fn cache_policy(&self) -> (r: CachePolicy)
        ensures
            r == self@.cache,
    {
        self.cache_policy
    }

    /// A snapshot of the logging settings.
    pub fn logging_config(&self) -> (r: LoggingConfig)
        ensures
            r@ == self@.logging,
    {
        self.logging_config.duplicate()
    }

    /// A snapshot of the tracing settings.
    pub fn tracing_config(&self) -> (r: TracingConfig)
        ensures
            r@ == self@.tracing,
    {
        self.tracing_config.duplicate()
    }

    /// A snapshot of the error handling settings.
    pub fn error_config(&self) -> (r: ErrorConfig)
        ensures
            r@ == self@.errors,
    {
        self.error_config.duplicate()
    }

    /// What is available.
    pub fn capabilities(&self) -> (r: InfraCapabilities)
        ensures
            r == self@.capabilities,
    {
        self.capabilities
    }

    /// Whether the adapter is initialized.
    pub fn is_initialized(&self) -> (r: bool)
        ensures
            r == self@.initialized,
    {
        self.initialized
    }

    /// Replaces the retry policy as a whole, where retrying is switched on.
    pub fn refresh_retry_policy(&mut self)
        ensures
            final(self)@ == (InfraState {
                retry: if old(self)@.config.enable_retry {
                    default_retry_policy()
                } else {
                    old(self)@.retry
                },
                ..old(self)@
            }),
    {
        if !self.config.enable_retry {
            return ;
        }
        self.retry_policy = RetryPolicy::default();
    }

    /// Replaces the rate limit policy as a whole, where rate limiting is switched on.
    pub fn refresh_rate_limit_policy(&mut self)
        ensures
            final(self)@ == (InfraState {
                rate_limit: if old(self)@.config.enable_rate_limiting {
                    default_rate_limit_policy()
                } else {
                    old(self)@.rate_limit
                },
                ..old(self)@
            }),
    {
        if !self.config.enable_rate_limiting {
            return ;
        }
        self.rate_limit_policy = RateLimitPolicy::default();
    }

    /// Replaces the cache policy as a whole, where caching is switched on.
    pub fn refresh_cache_policy(&mut self)
        ensures
            final(self)@ == (InfraState {
                cache: if old(self)@.config.enable_caching {
                    default_cache_policy()
                } else {
                    old(self)@.cache
                },
                ..old(self)@
            }),
    {
        if !self.config.enable_caching {
            return ;
        }
        self.cache_policy = CachePolicy::default();
    }

    /// Refreshes all three policies.
    pub fn refresh_all(&mut self)
        ensures
            final(self)@ == refreshed(old(self)@),
    {
        self.refresh_retry_policy();
        self.refresh_rate_limit_policy();
        self.refresh_cache_policy();
    }

    /// Makes available what the configuration switches on.
    pub fn update_capabilities(&mut self)
        ensures
            final(self)@ == (InfraState {
                capabilities: capabilities_of(old(self)@.config),
                ..old(self)@
            }),
    {
        self.capabilities = InfraCapabilities {
            config_available: self.config.enable_config,
            logging_available: self.config.enable_logging,
            tracing_available: self.config.enable_tracing,
            caching_available: self.config.enable_caching,
            retry_available: self.config.enable_retry,
            rate_limiting_available: self.config.enable_rate_limiting,
        };
    }

    /// Initializes the adapter. A second call changes nothing; it returns
    /// `false` to say that the adapter was initialized before.
    pub fn initialize(&mut self) -> (first: bool)
        ensures
            final(self)@ == initialized_state(old(self)@),
            first == !old(self)@.initialized,
    {
        if self.initialized {
            return false;
        }
        self.update_capabilities();
        self.refresh_all();
        self.initialized = true;
        true
    }

    /// Takes the adapter out of service until it is initialized again.
    pub fn shutdown(&mut self)
        ensures
            final(self)@ == (InfraState { initialized: false, ..old(self)@ }),
    {
        self.initialized = false;
    }

    /// Whether the adapter can do its work: not where it is disabled or not
    /// initialized; else it is healthy and says how many of its six
    /// integrations are available.
    pub fn health_check(&self) -> (r: AdapterHealth)
        ensures
            r.healthy == health_text(self@).0,
            r.message@ == health_text(self@).1,
    {
        if !self.config.adapter.enabled {
            return AdapterHealth::unhealthy("Adapter is disabled");
        }
        if !self.initialized {
            return AdapterHealth::unhealthy("Adapter not initialized");
        }
        let c = self.capabilities;
        let mut count: u64 = 0;
        if c.config_available {
            count = count + 1;
        }
        if c.logging_available {
            count = count + 1;
        }
        if c.tracing_available {
            count = count + 1;
        }
        if c.caching_available {
            count = count + 1;
        }
        if c.retry_available {
            count = count + 1;
        }
        if c.rate_limiting_available {
            count = count + 1;
        }
        let mut message = String::new();
        message.append("LLM-Infra adapter healthy: ");
        append_decimal(&mut message, count);
        message.append("/6 capabilities available");
        assert(message@ =~= health_text(self@).1);
        AdapterHealth::healthy(message)
    }
}

} // verus!
