use hodu::clean::{backend_cache_dirs, plan_clean, CleanArgs, CleanPlan, CleanTarget};
use hodu::dtype::{core_dtype_to_plugin, plugin_dtype_to_core, DType, PluginDType};
use hodu::error::PluginError;
use hodu::notify::{log_debug, log_error, log_info, log_warn, notify_log, notify_progress};
use hodu::rpc::{
    collect_batch, Outcome, Params, Request, RequestId, RpcError, Session, Step, INVALID_REQUEST,
    METHOD_NOT_FOUND, PROTOCOL_VERSION, REQUEST_CANCELLED,
};
use hodu::tensor_data::{validate_output_name, TensorData, TensorDataExt};

fn request(id: Option<i64>, method: &str, params: Params) -> Request {
    Request { id: id.map(RequestId::Number), method: method.to_string(), params }
}

#[test]
fn handshake_then_unknown_method() {
    let mut s = Session::new("demo", "1.0.0");
    s.register_method("backend.run", None);
    match s.begin(&request(Some(1), "initialize", Params::Present)) {
        Step::Reply(r) => {
            assert_eq!(r.id, RequestId::Number(1));
            match r.outcome {
                Outcome::Initialized(res) => {
                    assert_eq!(res.protocol_version, PROTOCOL_VERSION);
                    assert_eq!(res.capabilities, vec!["backend.run".to_string()]);
                    assert!(res.metadata.is_none());
                },
                _ => panic!("initialize failed"),
            }
        },
        _ => panic!("initialize got no reply"),
    }
    match s.begin(&request(Some(2), "format.nothing", Params::Present)) {
        Step::Reply(r) => match r.outcome {
            Outcome::Error(e) => assert_eq!(e.code, METHOD_NOT_FOUND),
            _ => panic!("expected an error"),
        },
        _ => panic!("expected a reply"),
    }
    match s.begin(&request(Some(3), "initialize", Params::Present)) {
        Step::Reply(r) => match r.outcome {
            Outcome::Error(e) => assert_eq!(e.code, INVALID_REQUEST),
            _ => panic!("re-initialization succeeded"),
        },
        _ => panic!("expected a reply"),
    }
}

#[test]
fn requests_before_initialize_are_refused() {
    let mut s = Session::new("demo", "1.0.0");
    s.register_method("backend.run", None);
    match s.begin(&request(Some(5), "backend.run", Params::Present)) {
        Step::Reply(r) => match r.outcome {
            Outcome::Error(e) => {
                assert_eq!(e.code, INVALID_REQUEST);
                assert_eq!(e.message, "Server not initialized");
            },
            _ => panic!("expected an error"),
        },
        _ => panic!("expected a reply"),
    }
    match s.begin(&request(Some(6), "$/ping", Params::Missing)) {
        Step::Reply(r) => match r.outcome {
            Outcome::Value(v) => assert_eq!(v, "{\"status\":\"ok\"}"),
            _ => panic!("expected a value"),
        },
        _ => panic!("expected a reply"),
    }
    assert!(matches!(s.begin(&request(None, "shutdown", Params::Missing)), Step::Shutdown));
}

#[test]
fn cancellation_of_a_running_handler() {
    let mut s = Session::new("demo", "1.0.0");
    s.register_method("backend.run", Some(5000));
    s.begin(&request(Some(1), "initialize", Params::Present));
    match s.begin(&request(Some(42), "backend.run", Params::Present)) {
        Step::Run { handler, timeout_ms } => {
            assert_eq!(handler, 0);
            assert_eq!(timeout_ms, Some(5000));
        },
        _ => panic!("expected the handler to run"),
    }
    assert!(s.is_active(&RequestId::Number(42)));
    assert!(matches!(s.begin(&request(None, "$/cancel", Params::Present)), Step::Cancel));
    let r = s.finish(&Some(RequestId::Number(42)), Err(RpcError::cancelled())).unwrap();
    assert_eq!(r.id, RequestId::Number(42));
    match r.outcome {
        Outcome::Error(e) => assert_eq!(e.code, REQUEST_CANCELLED),
        _ => panic!("expected a cancellation"),
    }
    assert!(!s.is_active(&RequestId::Number(42)));
    let t = RpcError::timed_out("2s");
    assert_eq!(t.code, REQUEST_CANCELLED);
    assert_eq!(t.message, "Request timed out after 2s");
}

#[test]
fn batch_responses_keep_request_order() {
    let mut s = Session::new("demo", "1.0.0");
    s.register_method("format.load_model", None);
    let reqs = vec![
        request(Some(1), "initialize", Params::Present),
        request(Some(2), "$/ping", Params::Missing),
        request(None, "$/ping", Params::Missing),
        request(Some(3), "format.load_model", Params::Present),
        request(Some(4), "missing.method", Params::Present),
    ];
    let mut replies = Vec::new();
    for r in &reqs {
        let reply = match s.begin(r) {
            Step::Reply(resp) => Some(resp),
            Step::Run { .. } => s.finish(&r.id, Ok("{}".to_string())),
            _ => None,
        };
        replies.push(reply);
    }
    let out = collect_batch(replies);
    let ids: Vec<RequestId> = out.iter().map(|r| r.id.clone()).collect();
    assert_eq!(ids, vec![RequestId::Number(1), RequestId::Number(2), RequestId::Number(3), RequestId::Number(4)]);
}

#[test]
fn capabilities_are_registered_once() {
    let mut s = Session::new("demo", "1.0.0");
    s.register_capability("format.load_tensor");
    s.register_capability("format.load_tensor");
    s.register_capability("custom.method");
    s.register_capability("backend.build");
    assert_eq!(s.capabilities, vec!["format.load_tensor".to_string(), "backend.build".to_string()]);
}

#[test]
fn initialize_parameter_errors() {
    let mut s = Session::new("demo", "1.0.0");
    let e = s.handle_initialize(&Params::Missing).unwrap_err();
    assert_eq!(e.code, hodu::rpc::INVALID_PARAMS);
    assert_eq!(e.message, "Missing params");
    let e2 = s.handle_initialize(&Params::Invalid("bad".to_string())).unwrap_err();
    assert_eq!(e2.message, "bad");
    assert!(!s.initialized);
    s.metadata.author = Some("someone".to_string());
    let ok = s.handle_initialize(&Params::Present).unwrap();
    assert_eq!(ok.metadata.unwrap().author, Some("someone".to_string()));
}

#[test]
fn notifications_clamp_and_normalize() {
    assert_eq!(notify_progress(Some(150), "x").percent, Some(100));
    assert_eq!(notify_progress(Some(40), "x").percent, Some(40));
    assert_eq!(notify_progress(None, "x").percent, None);
    assert_eq!(notify_log("verbose", "m").level, Some("info".to_string()));
    assert_eq!(notify_log("trace", "m").level, Some("trace".to_string()));
    assert_eq!(log_error("m").level, Some("error".to_string()));
    assert_eq!(log_warn("m").level, Some("warn".to_string()));
    assert_eq!(log_info("m").level, Some("info".to_string()));
    assert_eq!(log_debug("m").level, Some("debug".to_string()));
    assert_eq!(log_debug("m").method, "$/log");
}

#[test]
fn dtype_conversions() {
    assert_eq!(core_dtype_to_plugin(DType::BF16), PluginDType::BF16);
    assert_eq!(plugin_dtype_to_core(PluginDType::I16), Ok(DType::I16));
    let td = TensorData::from_core_dtype(vec![1], vec![1], DType::U8);
    assert_eq!(td.dtype, PluginDType::U8);
    assert_eq!(td.core_dtype(), Ok(DType::U8));
    assert_eq!(DType::F8E4M3.as_str(), "f8e4m3");
}

#[test]
fn plugin_errors() {
    let e = PluginError::io("disk full");
    assert_eq!(e.message(), "io error: disk full");
    assert_eq!(PluginError::io_with_source("gone".to_string()), PluginError::Io { message: "gone".to_string() });
    assert_eq!(PluginError::Load("x".to_string()).message(), "load error: x");
}

#[test]
fn clean_decisions() {
    let args = CleanArgs { dry_run: true, backend: Some("cuda".to_string()), all: false };
    assert_eq!(plan_clean(&args, false, true, true, true), CleanPlan::NothingToClean);
    assert_eq!(plan_clean(&args, true, true, false, true), CleanPlan::Remove { target: CleanTarget::BackendPlugin, dry_run: true });
    assert_eq!(plan_clean(&args, true, true, false, false), CleanPlan::NoBackendCache);
    let all = CleanArgs { dry_run: false, backend: None, all: true };
    assert_eq!(plan_clean(&all, true, false, false, false), CleanPlan::Remove { target: CleanTarget::Everything, dry_run: false });
    let default = CleanArgs { dry_run: false, backend: None, all: false };
    assert_eq!(plan_clean(&default, true, false, false, false), CleanPlan::NothingToClean);
    let (own, prefixed) = backend_cache_dirs("cuda");
    assert_eq!(own, "cuda");
    assert_eq!(prefixed, "hodu-backend-cuda-plugin");
}

#[test]
fn output_names_are_checked() {
    assert!(validate_output_name("logits").is_ok());
    assert!(validate_output_name("a.b").is_ok());
    assert!(matches!(validate_output_name(""), Err(PluginError::InvalidInput(_))));
    assert!(matches!(validate_output_name("../x"), Err(PluginError::InvalidInput(_))));
    assert!(matches!(validate_output_name("a/b"), Err(PluginError::InvalidInput(_))));
    assert!(matches!(validate_output_name("a\\b"), Err(PluginError::InvalidInput(_))));
    assert!(matches!(validate_output_name("a\0"), Err(PluginError::InvalidInput(_))));
    assert!(matches!(validate_output_name("x.."), Err(PluginError::InvalidInput(_))));
}
