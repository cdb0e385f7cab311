use denocore::core_error::io_error_class;
use denocore::core_error::url_error_message;
use denocore::core_error::with_cause;
use denocore::core_error::CoreError;
use denocore::core_error::IoErrorInfo;
use denocore::core_error::IoErrorKind;
use denocore::core_error::UrlErrorKind;
use denocore::core_error::UrlParseError;
use denocore::error::JsNativeError;
use denocore::loaders::ModuleLoaderError;

#[test]
fn io_error_classes() {
    assert_eq!(io_error_class(&IoErrorKind::NotFound), "NotFound");
    assert_eq!(io_error_class(&IoErrorKind::InvalidInput), "TypeError");
    assert_eq!(io_error_class(&IoErrorKind::Other), "Error");
    assert_eq!(io_error_class(&IoErrorKind::Unlisted("IsADirectory".to_string())), "IsADirectory");
    assert_eq!(io_error_class(&IoErrorKind::Unlisted("is a directory".to_string())), "Error");
}

#[test]
fn core_error_classes_and_messages() {
    let io = CoreError::Io(IoErrorInfo { kind: IoErrorKind::BrokenPipe, message: "pipe".to_string(), source: None });
    assert_eq!(io.get_class(), "BrokenPipe");
    assert_eq!(io.get_message(), "pipe");
    let wrapped = CoreError::CouldNotExecute {
        error: Box::new(CoreError::JsNative(JsNativeError::range_error("too big"))),
        specifier: "file:///a.js".to_string(),
    };
    assert_eq!(wrapped.get_class(), "RangeError");
    assert_eq!(wrapped.get_message(), "too big");
    assert_eq!(CoreError::Parse("x.js").get_message(), "Failed to parse x.js");
    assert_eq!(CoreError::Execute("y.js").get_message(), "Failed to execute y.js");
    assert_eq!(
        CoreError::MissingFromModuleMap("m".to_string()).get_message(),
        "m not present in the module map"
    );
    let nonevaluated = CoreError::NonEvaluatedModules(vec!["a".to_string(), "b".to_string()]);
    assert_eq!(
        nonevaluated.get_message(),
        "Following modules were not evaluated; make sure they are imported from other code:\n  - a\n  - b\n"
    );
    let canceled = CoreError::FutureCanceled(futures::channel::oneshot::Canceled);
    assert_eq!(canceled.get_class(), "Interrupted");
    assert_eq!(canceled.get_message(), "oneshot canceled");
    let url = CoreError::Url(UrlParseError::Kind(UrlErrorKind::EmptyHost));
    assert_eq!(url.get_class(), "URIError");
    assert_eq!(url.get_message(), "empty host");
    let loader = CoreError::ModuleLoader(Box::new(ModuleLoaderError::NotFound));
    assert_eq!(loader.get_message(), "Module not found");
    let other = CoreError::Other(anyhow::Error::msg("plain"));
    assert_eq!(other.get_class(), "Error");
    assert_eq!(other.get_message(), "plain");
    assert_eq!(CoreError::ExecutionTerminated.get_class(), "Error");
}

#[test]
fn core_error_display_and_cause() {
    let wrapped = CoreError::CouldNotExecute {
        error: Box::new(CoreError::JsNative(JsNativeError::range_error("too big\nreally"))),
        specifier: "file:///a.js".to_string(),
    };
    assert_eq!(wrapped.to_display_string(), "Could not execute file:///a.js");
    assert_eq!(wrapped.source_display(), Some("RangeError: too big\nreally".to_string()));
    assert_eq!(
        wrapped.print_with_cause(),
        "Could not execute file:///a.js\n\nCaused by:\n    RangeError: too big\n    really"
    );
    let plain = CoreError::MissingFromModuleMap("m".to_string());
    assert_eq!(plain.source_display(), None);
    assert_eq!(plain.print_with_cause(), "m not present in the module map");
    let io = CoreError::Io(IoErrorInfo {
        kind: IoErrorKind::Other,
        message: "outer".to_string(),
        source: Some("inner".to_string()),
    });
    assert_eq!(io.print_with_cause(), "outer\n\nCaused by:\n    inner");
    let other = CoreError::Other(anyhow::Error::msg("low").context("high"));
    assert_eq!(other.to_display_string(), "high");
    assert_eq!(other.print_with_cause(), "high\n\nCaused by:\n    low");
    let js = denocore::js_error::JsError {
        name: None,
        message: None,
        stack: None,
        cause: None,
        exception_message: "Uncaught boom".to_string(),
        frames: Vec::new(),
        source_line: None,
        source_line_frame_index: None,
        aggregated: None,
    };
    let tla = CoreError::TLA(js);
    assert_eq!(tla.to_display_string(), "Top-level await is not allowed in extensions");
    assert_eq!(
        tla.print_with_cause(),
        "Top-level await is not allowed in extensions\n\nCaused by:\n    Uncaught boom"
    );
}

#[test]
fn with_cause_indents_every_line() {
    assert_eq!(with_cause("top".to_string(), None), "top");
    assert_eq!(
        with_cause("top".to_string(), Some("a\nb\n".to_string())),
        "top\n\nCaused by:\n    a\n    b\n    "
    );
}

#[test]
fn url_error_messages_by_kind() {
    assert_eq!(url_error_message(&UrlParseError::Kind(UrlErrorKind::RelativeUrlWithoutBase)), "relative URL without a base");
    assert_eq!(
        url_error_message(&UrlParseError::Kind(UrlErrorKind::SetHostOnCannotBeABaseUrl)),
        url::ParseError::SetHostOnCannotBeABaseUrl.to_string()
    );
    assert_eq!(url_error_message(&UrlParseError::Kind(UrlErrorKind::Overflow)), url::ParseError::Overflow.to_string());
    assert_eq!(url_error_message(&UrlParseError::Unlisted("odd".to_string())), "odd");
    let e = CoreError::Url(UrlParseError::Kind(UrlErrorKind::InvalidPort));
    assert_eq!(e.to_display_string(), "invalid port number");
}
