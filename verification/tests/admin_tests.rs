use blutgang::admin::liveready::readiness_reply;
use blutgang::admin::liveready::ReadinessState;
use blutgang::admin::metrics::MetricsUpdate;

#[test]
fn readiness_replies() {
    let (code, body) = readiness_reply(&ReadinessState::Ready);
    assert_eq!(code, 200);
    assert_eq!(body, "ready");
    let (code, body) = readiness_reply(&ReadinessState::Setup);
    assert_eq!(code, 503);
    assert_eq!(body, "starting up");
}

#[test]
fn metrics_update_labels() {
    assert_eq!(MetricsUpdate::Http.label(), "http");
    assert_eq!(MetricsUpdate::Websocket.label(), "WebSocket");
    assert_eq!(MetricsUpdate::Database.label(), "Database");
    assert_eq!(MetricsUpdate::Http, MetricsUpdate::Http);
    assert_ne!(MetricsUpdate::Http, MetricsUpdate::Database);
}
