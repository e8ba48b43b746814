use vdal::error::ErrorKind;
use vdal::meta::ObjectMode;
use vdal::range::BytesRange;
use vdal::webhdfs::{
    create_response_action, delete_response, file_status_metadata, list_response_action,
    mkdir_outcome, range_needs_total, read_response_ok, resolve_tail_range, root_check_action,
    root_type_result, stat_response_ok, write_response_ok, CreateAction, ListAction,
    RootCheckAction, WebhdfsBuilder,
};

fn backend_with(root: &str, endpoint: &str, delegation: &str) -> vdal::WebhdfsBackend {
    let mut b = WebhdfsBuilder::new();
    b.root(root);
    b.endpoint(endpoint);
    b.delegation(delegation);
    b.build()
}

#[test]
fn default_endpoint_is_used_when_unset() {
    let mut b = WebhdfsBuilder::new();
    let backend = b.build();
    let url = backend.status_request("/f").unwrap();
    assert_eq!(url, "http://127.0.0.1:9870/webhdfs/v1/f?op=GETFILESTATUS");
}

#[test]
fn endpoint_trailing_separators_are_trimmed() {
    let backend = backend_with("", "http://h:9870/", "");
    let url = backend.status_request("/f").unwrap();
    assert_eq!(url, "http://h:9870/webhdfs/v1/f?op=GETFILESTATUS");
}

#[test]
fn the_delegation_token_rides_along() {
    let backend = backend_with("", "http://h:9870", "sample-token");
    let url = backend.status_request("/f").unwrap();
    assert_eq!(
        url,
        "http://h:9870/webhdfs/v1/f?op=GETFILESTATUS&delegation_token=sample-token"
    );
}

#[test]
fn the_root_prefixes_every_path() {
    let backend = backend_with("/work/dir", "http://h:9870", "");
    let url = backend.status_request("x").unwrap();
    assert_eq!(url, "http://h:9870/webhdfs/v1/work/dir/x?op=GETFILESTATUS");
}

#[test]
fn paths_are_percent_encoded() {
    let backend = backend_with("", "http://h:9870", "");
    let url = backend.status_request("/a b:c").unwrap();
    assert_eq!(url, "http://h:9870/webhdfs/v1/a%20b%3Ac?op=GETFILESTATUS");
}

#[test]
fn non_encodable_paths_are_rejected_before_io() {
    let backend = backend_with("", "http://h:9870", "");
    let err = backend.status_request("/π").unwrap_err();
    assert_eq!(err.kind(), ErrorKind::RequestBuildFailed);
}

#[test]
fn create_request_distinguishes_directories() {
    let backend = backend_with("", "http://h:9870", "");
    let (url, is_mkdir) = backend.create_request("/d", ObjectMode::Dir).unwrap();
    assert!(is_mkdir);
    assert_eq!(url, "http://h:9870/webhdfs/v1/d/?op=MKDIRS&overwrite=true&noredirect=true");
    let (url, is_mkdir) = backend.create_request("/f/", ObjectMode::File).unwrap();
    assert!(!is_mkdir);
    assert_eq!(url, "http://h:9870/webhdfs/v1/f?op=CREATE&overwrite=true&noredirect=true");
}

#[test]
fn open_request_spells_the_window() {
    let backend = backend_with("", "http://h:9870", "");
    let url = backend.open_request("/f", Some(90), Some(10)).unwrap();
    assert_eq!(url, "http://h:9870/webhdfs/v1/f?op=OPEN&noredirect=true&offset=90&length=10");
    let url = backend.open_request("/f", Some(7), None).unwrap();
    assert_eq!(url, "http://h:9870/webhdfs/v1/f?op=OPEN&noredirect=true&offset=7");
    let url = backend.open_request("/f", None, None).unwrap();
    assert_eq!(url, "http://h:9870/webhdfs/v1/f?op=OPEN&noredirect=true");
}

#[test]
fn open_request_refuses_an_unresolved_tail() {
    let backend = backend_with("", "http://h:9870", "");
    let err = backend.open_request("/f", None, Some(10)).unwrap_err();
    assert_eq!(err.kind(), ErrorKind::RequestBuildFailed);
}

#[test]
fn list_request_takes_the_parent_form() {
    let backend = backend_with("", "http://h:9870", "");
    let url = backend.list_request("/d/").unwrap();
    assert_eq!(url, "http://h:9870/webhdfs/v1/d?op=LISTSTATUS");
}

#[test]
fn delete_request_is_never_recursive() {
    let backend = backend_with("", "http://h:9870", "");
    let url = backend.delete_request("/f").unwrap();
    assert_eq!(url, "http://h:9870/webhdfs/v1/f?op=DELETE&recursive=false");
}

#[test]
fn tail_ranges_resolve_against_the_total_length() {
    let resolved = resolve_tail_range(BytesRange::new(None, Some(10)), 100).unwrap();
    assert_eq!(resolved.offset(), Some(90));
    assert_eq!(resolved.size(), Some(10));
    let untouched = resolve_tail_range(BytesRange::new(Some(3), Some(4)), 100).unwrap();
    assert_eq!(untouched.offset(), Some(3));
    assert_eq!(untouched.size(), Some(4));
    let err = resolve_tail_range(BytesRange::new(None, Some(200)), 100).unwrap_err();
    assert_eq!(err.kind(), ErrorKind::Unexpected);
    assert!(range_needs_total(BytesRange::new(None, Some(1))));
    assert!(!range_needs_total(BytesRange::full()));
}

#[test]
fn create_responses_decide_the_next_step() {
    assert_eq!(create_response_action(201, false), CreateAction::Done);
    assert_eq!(create_response_action(200, false), CreateAction::Done);
    assert_eq!(create_response_action(200, true), CreateAction::ReadMkdirBody);
    assert_eq!(create_response_action(500, false), CreateAction::Fail);
    assert_eq!(create_response_action(403, true), CreateAction::Fail);
}

#[test]
fn mkdir_body_decides_the_outcome() {
    assert!(mkdir_outcome(true).is_ok());
    let err = mkdir_outcome(false).unwrap_err();
    assert_eq!(err.kind(), ErrorKind::Unexpected);
    assert!(!err.is_temporary());
}

#[test]
fn read_and_write_statuses() {
    assert!(read_response_ok(200));
    assert!(read_response_ok(206));
    assert!(!read_response_ok(404));
    assert!(write_response_ok(200));
    assert!(write_response_ok(201));
    assert!(!write_response_ok(500));
    assert!(stat_response_ok(200));
    assert!(!stat_response_ok(404));
}

#[test]
fn delete_statuses_map_to_typed_errors() {
    assert!(delete_response(200).is_ok());
    let nf = delete_response(404).unwrap_err();
    assert_eq!(nf.kind(), ErrorKind::ObjectNotFound);
    assert!(!nf.is_temporary());
    let busy = delete_response(503).unwrap_err();
    assert_eq!(busy.kind(), ErrorKind::Unexpected);
    assert!(busy.is_temporary(), "server-side faults may be retried");
    let forbidden = delete_response(403).unwrap_err();
    assert!(!forbidden.is_temporary(), "a permanent error must never be retried");
}

#[test]
fn listing_statuses_decide_the_next_step() {
    assert_eq!(list_response_action(200), ListAction::Parse);
    assert_eq!(list_response_action(404), ListAction::Empty);
    assert_eq!(list_response_action(500), ListAction::Fail);
}

#[test]
fn root_checks_decide_the_next_step() {
    assert_eq!(root_check_action(200), RootCheckAction::Inspect);
    assert_eq!(root_check_action(404), RootCheckAction::CreateRoot);
    assert_eq!(root_check_action(500), RootCheckAction::Fail);
    assert!(root_type_result(false).is_ok());
    let occupied = root_type_result(true).unwrap_err();
    assert_eq!(occupied.kind(), ErrorKind::BackendConfigInvalid);
}

#[test]
fn status_records_become_metadata() {
    let m = file_status_metadata(true, 0, 1234);
    assert_eq!(m.mode(), ObjectMode::Dir);
    assert_eq!(m.content_length(), Some(0));
    assert_eq!(m.last_modified(), Some(1234));
    let m = file_status_metadata(false, 42, 0);
    assert_eq!(m.mode(), ObjectMode::File);
    assert_eq!(m.content_length(), Some(42));
}

#[test]
fn builder_from_map_applies_known_keys() {
    let pairs = vec![
        ("root".to_string(), "/work".to_string()),
        ("endpoint".to_string(), "http://h:9870/".to_string()),
        ("ignored".to_string(), "x".to_string()),
        ("delegation".to_string(), "tok".to_string()),
    ];
    let mut b = WebhdfsBuilder::from_map(pairs);
    let backend = b.build();
    let url = backend.status_request("f").unwrap();
    assert_eq!(url, "http://h:9870/webhdfs/v1/work/f?op=GETFILESTATUS&delegation_token=tok");
}

#[test]
fn backend_metadata_names_the_endpoint() {
    let backend = backend_with("/work", "http://h:9870", "");
    let meta = backend.metadata();
    assert_eq!(meta.scheme(), vdal::Scheme::Webhdfs);
    assert_eq!(meta.root(), "/work/");
    assert_eq!(meta.name(), "http://h:9870");
    assert!(meta.capabilities().has_read());
    assert!(meta.capabilities().has_list());
    assert!(!meta.capabilities().blocking_flag());
}
