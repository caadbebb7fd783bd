use lite_rpc::source::GrpcSourceConfig;
use lite_rpc::source::SourceAction;
use lite_rpc::source::SourceEvent;
use lite_rpc::source::SourceState;
use lite_rpc::source::backoff_delay_ms;
use lite_rpc::source::build_subscription_plan;
use lite_rpc::source::source_step;

#[test]
fn backoff_doubles_and_caps() {
    assert_eq!(backoff_delay_ms(0, 0), 500);
    assert_eq!(backoff_delay_ms(1, 0), 1000);
    assert_eq!(backoff_delay_ms(5, 0), 16000);
    assert_eq!(backoff_delay_ms(6, 0), 32000);
    assert_eq!(backoff_delay_ms(7, 0), 60000);
    assert_eq!(backoff_delay_ms(30, 0), 60000);
    // jitter folds in but never pushes past the cap
    assert_eq!(backoff_delay_ms(0, 250), 750);
    assert_eq!(backoff_delay_ms(6, 40000), 60000);
}

#[test]
fn connection_lifecycle_happy_path() {
    let (s, a) = source_step(SourceState::Disconnected, SourceEvent::Start, 0);
    assert_eq!(s, SourceState::Connecting { attempt: 0 });
    assert_eq!(a, SourceAction::Connect);
    let (s, _) = source_step(s, SourceEvent::Connected, 0);
    assert_eq!(s, SourceState::Subscribed { attempt: 0 });
    let (s, _) = source_step(s, SourceEvent::MessageReceived, 0);
    assert_eq!(s, SourceState::Streaming);
    let (s, _) = source_step(s, SourceEvent::MessageReceived, 0);
    assert_eq!(s, SourceState::Streaming);
}

#[test]
fn faults_lead_through_backoff_to_reconnect() {
    // a timeout while connecting faults the source, the wait uses the
    // attempt's backoff, and the retry carries the next attempt count
    let (s, _) = source_step(SourceState::Connecting { attempt: 2 }, SourceEvent::TimedOut, 0);
    assert_eq!(s, SourceState::Faulted { attempt: 2 });
    let (s, a) = source_step(s, SourceEvent::Start, 100);
    assert_eq!(s, SourceState::Backoff { attempt: 2 });
    assert_eq!(a, SourceAction::Wait(2100));
    let (s, a) = source_step(s, SourceEvent::BackoffElapsed, 0);
    assert_eq!(s, SourceState::Connecting { attempt: 3 });
    assert_eq!(a, SourceAction::Connect);
}

#[test]
fn streaming_fault_resets_attempts() {
    let (s, _) = source_step(SourceState::Streaming, SourceEvent::UpstreamError, 0);
    assert_eq!(s, SourceState::Faulted { attempt: 0 });
}

#[test]
fn subscription_plan_one_or_two_sources() {
    let plan = build_subscription_plan("http://primary".to_string(), None, None, None);
    assert_eq!(plan.len(), 1);
    assert_eq!(plan[0].label, "green");
    assert_eq!(plan[0].grpc_addr, "http://primary");
    assert!(plan[0].grpc_x_token.is_none());
    assert_eq!(plan[0].timeouts.connect_timeout_ms, 5000);

    let plan: Vec<GrpcSourceConfig> = build_subscription_plan(
        "http://primary".to_string(),
        Some("sample-token".to_string()),
        Some("http://secondary".to_string()),
        None,
    );
    assert_eq!(plan.len(), 2);
    assert_eq!(plan[1].label, "blue");
    assert_eq!(plan[1].grpc_addr, "http://secondary");
}
