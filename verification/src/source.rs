//! One upstream block subscription: the connection state machine with
//! exponential backoff, and the per-endpoint configuration the multiplexed
//! subscription is built from. The surrounding task performs the network
//! work and feeds events back; every decision is taken here.
use vstd::prelude::*;

verus! {

/// A reconnect wait never exceeds this many milliseconds.
pub const MAX_BACKOFF_MS: u64 = 60000;

/// How long each connection phase may take, per the subscription plan.
pub const DEFAULT_TIMEOUT_MS: u64 = 5000;

/// Where one upstream subscription stands. The attempt count drives the
/// backoff and resets once a connection streams.
#[derive(Clone, Copy, Debug, PartialEq, Eq, Structural)]
pub enum SourceState {
    Disconnected,
    Connecting { attempt: u32 },
    Subscribed { attempt: u32 },
    Streaming,
    Faulted { attempt: u32 },
    Backoff { attempt: u32 },
}

/// What the surrounding task observed.
#[derive(Clone, Copy, Debug, PartialEq, Eq, Structural)]
pub enum SourceEvent {
    /// The task starts, or is ready to schedule the reconnect wait.
    Start,
    /// The transport connected.
    Connected,
    /// A subscription message arrived.
    MessageReceived,
    /// Transport fault, authentication failure or closed stream.
    UpstreamError,
    /// A connection phase exceeded its timeout.
    TimedOut,
    /// The backoff wait elapsed.
    BackoffElapsed,
}

/// What the surrounding task does next.
#[derive(Clone, Copy, Debug, PartialEq, Eq, Structural)]
pub enum SourceAction {
    /// Nothing; keep waiting for events.
    Stay,
    /// Open the transport and subscribe.
    Connect,
    /// Sleep this many milliseconds, then report `BackoffElapsed`.
    Wait(u64),
}

/// The base reconnect delay: doubling per attempt, capped.
pub open spec fn spec_base_backoff_ms(attempt: u32) -> u64 {
    if attempt == 0 {
        500
    } else if attempt == 1 {
        1000
    } else if attempt == 2 {
        2000
    } else if attempt == 3 {
        4000
    } else if attempt == 4 {
        8000
    } else if attempt == 5 {
        16000
    } else if attempt == 6 {
        32000
    } else {
        MAX_BACKOFF_MS
    }
}

/// The reconnect delay with the caller's jitter folded in, still capped.
pub open spec fn spec_backoff_ms(attempt: u32, jitter_ms: u64) -> u64 {
    if spec_base_backoff_ms(attempt) + jitter_ms > MAX_BACKOFF_MS {
        MAX_BACKOFF_MS
    } else {
        (spec_base_backoff_ms(attempt) + jitter_ms) as u64
    }
}

/// The reconnect delay for one attempt: exponential with jitter, capped
/// at `MAX_BACKOFF_MS`.
pub fn backoff_delay_ms(attempt: u32, jitter_ms: u64) -> (r: u64)
    ensures
        r == spec_backoff_ms(attempt, jitter_ms),
        r <= MAX_BACKOFF_MS,
{
    let base: u64 = if attempt == 0 {
        500
    } else if attempt == 1 {
        1000
    } else if attempt == 2 {
        2000
    } else if attempt == 3 {
        4000
    } else if attempt == 4 {
        8000
    } else if attempt == 5 {
        16000
    } else if attempt == 6 {
        32000
    } else {
        MAX_BACKOFF_MS
    };
    if jitter_ms > MAX_BACKOFF_MS - base {
        MAX_BACKOFF_MS
    } else {
        base + jitter_ms
    }
}

/// The step relation of the connection state machine. No event surfaces an
/// error to the stream's consumer: every fault leads back through backoff
/// to another connection attempt. A connection that streamed resets the
/// attempt count.
pub open spec fn spec_source_step(s: SourceState, ev: SourceEvent, jitter_ms: u64) -> (
    SourceState,
    SourceAction,
) {
    match (s, ev) {
        (SourceState::Disconnected, SourceEvent::Start) => (
            SourceState::Connecting { attempt: 0 },
            SourceAction::Connect,
        ),
        (SourceState::Connecting { attempt }, SourceEvent::Connected) => (
            SourceState::Subscribed { attempt },
            SourceAction::Stay,
        ),
        (SourceState::Connecting { attempt }, SourceEvent::UpstreamError) => (
            SourceState::Faulted { attempt },
            SourceAction::Stay,
        ),
        (SourceState::Connecting { attempt }, SourceEvent::TimedOut) => (
            SourceState::Faulted { attempt },
            SourceAction::Stay,
        ),
        (SourceState::Subscribed { attempt: _ }, SourceEvent::MessageReceived) => (
            SourceState::Streaming,
            SourceAction::Stay,
        ),
        (SourceState::Subscribed { attempt }, SourceEvent::UpstreamError) => (
            SourceState::Faulted { attempt },
            SourceAction::Stay,
        ),
        (SourceState::Subscribed { attempt }, SourceEvent::TimedOut) => (
            SourceState::Faulted { attempt },
            SourceAction::Stay,
        ),
        (SourceState::Streaming, SourceEvent::MessageReceived) => (
            SourceState::Streaming,
            SourceAction::Stay,
        ),
        (SourceState::Streaming, SourceEvent::UpstreamError) => (
            SourceState::Faulted { attempt: 0 },
            SourceAction::Stay,
        ),
        (SourceState::Streaming, SourceEvent::TimedOut) => (
            SourceState::Faulted { attempt: 0 },
            SourceAction::Stay,
        ),
        (SourceState::Faulted { attempt }, SourceEvent::Start) => (
            SourceState::Backoff { attempt },
            SourceAction::Wait(spec_backoff_ms(attempt, jitter_ms)),
        ),
        (SourceState::Backoff { attempt }, SourceEvent::BackoffElapsed) => (
            SourceState::Connecting {
                attempt: if attempt < u32::MAX {
                    (attempt + 1) as u32
                } else {
                    attempt
                },
            },
            SourceAction::Connect,
        ),
        _ => (s, SourceAction::Stay),
    }
}

/// Executable step of the connection state machine; exactly the step
/// relation.
pub fn source_step(s: SourceState, ev: SourceEvent, jitter_ms: u64) -> (r: (
    SourceState,
    SourceAction,
))
    ensures
        r == spec_source_step(s, ev, jitter_ms),
{
    match (s, ev) {
        (SourceState::Disconnected, SourceEvent::Start) => (
            SourceState::Connecting { attempt: 0 },
            SourceAction::Connect,
        ),
        (SourceState::Connecting { attempt }, SourceEvent::Connected) => (
            SourceState::Subscribed { attempt },
            SourceAction::Stay,
        ),
        (SourceState::Connecting { attempt }, SourceEvent::UpstreamError) => (
            SourceState::Faulted { attempt },
            SourceAction::Stay,
        ),
        (SourceState::Connecting { attempt }, SourceEvent::TimedOut) => (
            SourceState::Faulted { attempt },
            SourceAction::Stay,
        ),
        (SourceState::Subscribed { attempt: _ }, SourceEvent::MessageReceived) => (
            SourceState::Streaming,
            SourceAction::Stay,
        ),
        (SourceState::Subscribed { attempt }, SourceEvent::UpstreamError) => (
            SourceState::Faulted { attempt },
            SourceAction::Stay,
        ),
        (SourceState::Subscribed { attempt }, SourceEvent::TimedOut) => (
            SourceState::Faulted { attempt },
            SourceAction::Stay,
        ),
        (SourceState::Streaming, SourceEvent::MessageReceived) => (
            SourceState::Streaming,
            SourceAction::Stay,
        ),
        (SourceState::Streaming, SourceEvent::UpstreamError) => (
            SourceState::Faulted { attempt: 0 },
            SourceAction::Stay,
        ),
        (SourceState::Streaming, SourceEvent::TimedOut) => (
            SourceState::Faulted { attempt: 0 },
            SourceAction::Stay,
        ),
        (SourceState::Faulted { attempt }, SourceEvent::Start) => (
            SourceState::Backoff { attempt },
            SourceAction::Wait(backoff_delay_ms(attempt, jitter_ms)),
        ),
        (SourceState::Backoff { attempt }, SourceEvent::BackoffElapsed) => (
            SourceState::Connecting {
                attempt: if attempt < u32::MAX {
                    attempt + 1
                } else {
                    attempt
                },
            },
            SourceAction::Connect,
        ),
        _ => (s, SourceAction::Stay),
    }
}

/// How long each phase of one connection may take.
#[derive(Clone, Copy, Debug, PartialEq, Eq, Structural)]
pub struct GrpcConnectionTimeouts {
    pub connect_timeout_ms: u64,
    pub request_timeout_ms: u64,
    pub subscribe_timeout_ms: u64,
}

/// One upstream endpoint of the multiplexed subscription.
pub struct GrpcSourceConfig {
    pub label: String,
    pub grpc_addr: String,
    pub grpc_x_token: Option<String>,
    pub timeouts: GrpcConnectionTimeouts,
}

/// The sources of the multiplexed subscription: the primary endpoint
/// always, the secondary only when configured, each with the default
/// per-phase timeouts.
pub fn build_subscription_plan(
    grpc_addr: String,
    grpc_x_token: Option<String>,
    grpc_addr2: Option<String>,
    grpc_x_token2: Option<String>,
) -> (r: Vec<GrpcSourceConfig>)
    ensures
        grpc_addr2 is Some ==> r@.len() == 2,
        grpc_addr2 is None ==> r@.len() == 1,
        r@[0].label@ == "green"@,
        r@[0].grpc_addr@ == grpc_addr@,
        r@[0].grpc_x_token == grpc_x_token,
        r@[0].timeouts == (GrpcConnectionTimeouts {
            connect_timeout_ms: DEFAULT_TIMEOUT_MS,
            request_timeout_ms: DEFAULT_TIMEOUT_MS,
            subscribe_timeout_ms: DEFAULT_TIMEOUT_MS,
        }),
        grpc_addr2 is Some ==> {
            &&& r@[1].label@ == "blue"@
            &&& r@[1].grpc_addr@ == grpc_addr2.unwrap()@
            &&& r@[1].grpc_x_token == grpc_x_token2
            &&& r@[1].timeouts == r@[0].timeouts
        },
{
    let timeouts = GrpcConnectionTimeouts {
        connect_timeout_ms: DEFAULT_TIMEOUT_MS,
        request_timeout_ms: DEFAULT_TIMEOUT_MS,
        subscribe_timeout_ms: DEFAULT_TIMEOUT_MS,
    };
    let mut r: Vec<GrpcSourceConfig> = Vec::new();
    r.push(
        GrpcSourceConfig {
            label: String::from_str("green"),
            grpc_addr,
            grpc_x_token,
            timeouts,
        },
    );
    match grpc_addr2 {
        Some(addr2) => {
            r.push(
                GrpcSourceConfig {
                    label: String::from_str("blue"),
                    grpc_addr: addr2,
                    grpc_x_token: grpc_x_token2,
                    timeouts,
                },
            );
        },
        None => {},
    }
    r
}

} // verus!
