use smithy_runtime::http::{Field, Request, Response};
use smithy_runtime::instrument::{InstrumentLayer, Sensitivity, REDACTED};
use smithy_runtime::plugin::{
    IdentityPlugin, Layer, Operation, OperationShape, Pluggable, Plugin, PluginPipeline,
    PluginStack, RetryPlugin, TimeoutPlugin, TraceExt, TracePlugin,
};
use smithy_runtime::retry::RetryConfig;

fn shape() -> OperationShape {
    OperationShape {
        name: "GetSecret".to_string(),
        request_sensitivity: Sensitivity::new(vec!["password".to_string()]),
        response_sensitivity: Sensitivity::new(vec!["token".to_string()]),
    }
}

fn timeout(ms: u64) -> TimeoutPlugin {
    TimeoutPlugin { ms }
}

fn timeouts(op: &Operation) -> Vec<u64> {
    op.layers
        .iter()
        .filter_map(|l| match l {
            Layer::Timeout { ms } => Some(*ms),
            _ => None,
        })
        .collect()
}

#[test]
fn trace_plugin_adds_instrument_layer() {
    let op = TracePlugin.map(Operation::new(shape()));
    assert_eq!(op.layers.len(), 1);
    match &op.layers[0] {
        Layer::Instrument(l) => {
            assert_eq!(l.operation_name, "GetSecret");
            assert_eq!(l.request_fmt.sensitive, vec!["password".to_string()]);
            assert_eq!(l.response_fmt.sensitive, vec!["token".to_string()]);
        }
        _ => panic!("expected an instrumentation layer"),
    }
    assert_eq!(op.shape.name, "GetSecret");
}

#[test]
fn layers_keep_insertion_order() {
    let op = Operation::new(shape())
        .layer(Layer::Timeout { ms: 1 })
        .layer(Layer::Retry(RetryConfig::standard()))
        .layer(Layer::Timeout { ms: 2 });
    assert_eq!(op.layers.len(), 3);
    assert_eq!(timeouts(&op), vec![1, 2]);
    assert!(matches!(op.layers[1], Layer::Retry(_)));
}

#[test]
fn stacked_plugins_match_sequential_application() {
    let stacked = PluginStack { inner: timeout(1), outer: timeout(2) };
    let together = stacked.map(Operation::new(shape()));
    let one_by_one = timeout(2).map(timeout(1).map(Operation::new(shape())));
    assert_eq!(timeouts(&together), vec![1, 2]);
    assert_eq!(timeouts(&together), timeouts(&one_by_one));
}

#[test]
fn stack_grouping_does_not_matter() {
    let left = PluginStack {
        inner: PluginStack { inner: timeout(1), outer: timeout(2) },
        outer: timeout(3),
    };
    let right = PluginStack {
        inner: timeout(1),
        outer: PluginStack { inner: timeout(2), outer: timeout(3) },
    };
    assert_eq!(timeouts(&left.map(Operation::new(shape()))), vec![1, 2, 3]);
    assert_eq!(timeouts(&right.map(Operation::new(shape()))), vec![1, 2, 3]);
}

#[test]
fn pipeline_applies_in_push_order_then_trace() {
    let pipeline = PluginPipeline::new().push(timeout(5)).apply(timeout(6)).trace();
    let op = pipeline.map(Operation::new(shape()));
    assert_eq!(op.layers.len(), 3);
    assert_eq!(timeouts(&op), vec![5, 6]);
    assert!(matches!(op.layers[2], Layer::Instrument(_)));
}

#[test]
fn retry_plugin_adds_retry_layer() {
    let config = RetryConfig::standard().with_max_attempts(5);
    let op = RetryPlugin { config }.map(Operation::new(shape()));
    assert!(matches!(op.layers[0], Layer::Retry(c) if c.max_attempts == 5));
}

#[test]
fn identity_plugin_adds_nothing() {
    let op = IdentityPlugin.map(Operation::new(shape()));
    assert!(op.layers.is_empty());
}

fn secret_request() -> Request {
    let mut r = Request::new("/secret".to_string(), vec![]);
    r.fields.push(Field::new("user".to_string(), "alice".to_string()));
    r.fields.push(Field::new("password".to_string(), "hunter2".to_string()));
    r
}

#[test]
fn sensitive_request_field_is_redacted() {
    let layer = InstrumentLayer::new("GetSecret".to_string())
        .request_fmt(Sensitivity::new(vec!["password".to_string()]));
    let request = secret_request();
    let entry = layer.on_request(&request);
    assert_eq!(entry.operation, "GetSecret");
    assert_eq!(entry.fields.len(), 2);
    assert_eq!(entry.fields[0].name, "user");
    assert_eq!(entry.fields[0].value, "alice");
    assert_eq!(entry.fields[1].name, "password");
    assert_eq!(entry.fields[1].value, REDACTED);
    assert!(entry.fields.iter().all(|f| f.value != "hunter2"));
    // the request itself is forwarded untouched
    assert_eq!(request.fields[1].value, "hunter2");
}

#[test]
fn sensitive_response_field_is_redacted() {
    let layer = InstrumentLayer::new("Login".to_string())
        .response_fmt(Sensitivity::new(vec!["token".to_string()]));
    let mut response = Response::new(200, vec![]);
    response.fields.push(Field::new("token".to_string(), "abc123".to_string()));
    response.fields.push(Field::new("expires".to_string(), "3600".to_string()));
    let entry = layer.on_response(&response);
    assert_eq!(entry.fields[0].value, "{redacted}");
    assert_eq!(entry.fields[1].value, "3600");
    assert_eq!(entry.operation, "Login");
}

#[test]
fn no_policy_logs_values() {
    let layer = InstrumentLayer::new("Op".to_string());
    let entry = layer.on_request(&secret_request());
    assert_eq!(entry.fields[1].value, "hunter2");
}

#[test]
fn sensitivity_lookup_and_copy() {
    let s = Sensitivity::new(vec!["a".to_string(), "b".to_string()]);
    assert!(s.is_sensitive(&"b".to_string()));
    assert!(!s.is_sensitive(&"c".to_string()));
    assert_eq!(s.duplicate().sensitive, vec!["a".to_string(), "b".to_string()]);
    assert!(Sensitivity::none().sensitive.is_empty());
}

#[test]
fn request_for_attempt_copies() {
    let r = secret_request();
    let copy = r.for_attempt(3);
    assert_eq!(copy.attempt, 3);
    assert_eq!(copy.uri, "/secret");
    assert_eq!(copy.fields.len(), 2);
    assert_eq!(copy.fields[1].value, "hunter2");
}
