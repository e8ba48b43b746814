use vdal::error::{Error, ErrorKind};
use vdal::ops::{check_operation, Capability, CapabilitySet, Operation};
use vdal::path::{
    build_abs_path, check_child_of, get_basename, get_parent, join_path, normalize_root,
    to_dir_path, to_effective_path, to_parent_form,
};
use vdal::range::{apply_range, BytesRange};
use vdal::reader::{Cursor, OutputRead};
use vdal::Scheme;

#[test]
fn split_nested_path() {
    assert_eq!(get_parent("/dir1/dir2/file.txt"), "/dir1/dir2");
    assert_eq!(get_basename("/dir1/dir2/file.txt"), "file.txt");
}

#[test]
fn split_root_level_path() {
    assert_eq!(get_parent("/file.txt"), "/");
    assert_eq!(get_basename("/file.txt"), "file.txt");
}

#[test]
fn split_directory_path() {
    assert_eq!(get_parent("/a/b/"), "/a");
    assert_eq!(get_basename("/a/b/"), "b/");
    assert_eq!(get_parent("/a/"), "/");
}

#[test]
fn join_rebuilds_paths() {
    assert_eq!(join_path("/dir1/dir2", "file.txt"), "/dir1/dir2/file.txt");
    assert_eq!(join_path("/", "file.txt"), "/file.txt");
    assert_eq!(join_path("/a", "b/"), "/a/b/");
}

#[test]
fn normalize_root_forms() {
    assert_eq!(normalize_root(""), "/");
    assert_eq!(normalize_root("/"), "/");
    assert_eq!(normalize_root("a/b"), "/a/b/");
    assert_eq!(normalize_root("/a/b/"), "/a/b/");
}

#[test]
fn abs_path_strips_leading_separators() {
    assert_eq!(build_abs_path("/", "x"), "/x");
    assert_eq!(build_abs_path("/", "//x"), "/x");
    assert_eq!(build_abs_path("/data/", "a/b"), "/data/a/b");
    assert_eq!(build_abs_path("/", ""), "/");
}

#[test]
fn path_form_helpers() {
    assert_eq!(to_dir_path("/a"), "/a/");
    assert_eq!(to_dir_path("/a/"), "/a/");
    assert_eq!(to_effective_path("/a/"), "/a");
    assert_eq!(to_effective_path("/"), "/");
    assert_eq!(to_parent_form("/a//"), "/a");
    assert_eq!(to_parent_form("/"), "/");
}

#[test]
fn child_relation() {
    assert!(check_child_of("/a/", "/a/b"));
    assert!(check_child_of("/a/", "/a/b/"));
    assert!(!check_child_of("/a/", "/a/b/c"));
    assert!(!check_child_of("/a", "/a/b"));
    assert!(!check_child_of("/", "//x"));
}

#[test]
fn tail_range_resolves_from_the_end() {
    let r = BytesRange::new(None, Some(10));
    assert_eq!(r.resolve(100), Some((90, 10)));
}

#[test]
fn range_resolution_cases() {
    assert_eq!(BytesRange::full().resolve(7), Some((0, 7)));
    assert_eq!(BytesRange::new(Some(3), None).resolve(7), Some((3, 4)));
    assert_eq!(BytesRange::new(Some(3), Some(100)).resolve(7), Some((3, 4)));
    assert_eq!(BytesRange::new(Some(3), Some(2)).resolve(7), Some((3, 2)));
    assert_eq!(BytesRange::new(Some(8), None).resolve(7), None);
    assert_eq!(BytesRange::new(None, Some(8)).resolve(7), None);
}

#[test]
fn range_application() {
    let bytes: Vec<u8> = vec![0, 1, 2, 3, 4, 5, 6, 7, 8, 9];
    assert_eq!(apply_range(&bytes, BytesRange::new(Some(2), Some(3))), Some(vec![2, 3, 4]));
    assert_eq!(apply_range(&bytes, BytesRange::new(None, Some(2))), Some(vec![8, 9]));
    assert_eq!(apply_range(&bytes, BytesRange::full()), Some(bytes.clone()));
    assert_eq!(apply_range(&bytes, BytesRange::new(Some(11), None)), None);
}

#[test]
fn error_carries_kind_context_and_flag() {
    let e = Error::new(ErrorKind::Unexpected, "fault")
        .with_context("service", "memory")
        .with_context("path", "/x")
        .set_temporary();
    assert_eq!(e.kind(), ErrorKind::Unexpected);
    assert!(e.is_temporary());
    assert_eq!(e.message(), "fault");
    assert_eq!(e.context_len(), 2);
    assert_eq!(e.context_at(0), ("service".to_string(), "memory".to_string()));
    assert_eq!(e.context_at(1), ("path".to_string(), "/x".to_string()));
    let p = e.set_permanent();
    assert!(!p.is_temporary());
}

#[test]
fn wrapped_source_is_kept() {
    let inner = Error::new(ErrorKind::Unexpected, "disk fault");
    let outer = Error::new(ErrorKind::Unexpected, "store access failed").set_source(inner);
    assert_eq!(outer.kind(), ErrorKind::Unexpected);
    assert_eq!(outer.message(), "store access failed");
}

#[test]
fn capability_gate_rejects_missing_capability() {
    let none = CapabilitySet::none();
    let r = check_operation(none, Operation::Read);
    assert_eq!(r.unwrap_err().kind(), ErrorKind::Unsupported);
    let w = check_operation(none, Operation::Write);
    assert_eq!(w.unwrap_err().kind(), ErrorKind::Unsupported);
}

#[test]
fn capability_gate_admits_declared_operations() {
    let caps = CapabilitySet::none().with_read().with_write();
    assert!(check_operation(caps, Operation::Read).is_ok());
    assert!(check_operation(caps, Operation::Write).is_ok());
    assert!(check_operation(caps, Operation::Delete).is_ok());
    assert!(check_operation(caps, Operation::Metadata).is_ok());
    assert_eq!(check_operation(caps, Operation::List).unwrap_err().kind(), ErrorKind::Unsupported);
    assert_eq!(
        check_operation(caps, Operation::Presign).unwrap_err().kind(),
        ErrorKind::Unsupported
    );
    assert_eq!(
        check_operation(caps, Operation::CreateMultipart).unwrap_err().kind(),
        ErrorKind::Unsupported
    );
}

#[test]
fn blocking_variants_need_the_blocking_capability() {
    let caps = CapabilitySet::none().with_read();
    assert_eq!(
        check_operation(caps, Operation::BlockingRead).unwrap_err().kind(),
        ErrorKind::Unsupported
    );
    let caps = caps.with_blocking();
    assert!(check_operation(caps, Operation::BlockingRead).is_ok());
    assert!(caps.has(Capability::Blocking));
}

#[test]
fn scheme_labels() {
    assert_eq!(Scheme::Memory.name(), "memory");
    assert_eq!(Scheme::Sled.name(), "sled");
    assert_eq!(Scheme::Webhdfs.name(), "webhdfs");
}

#[test]
fn cursor_reads_in_chunks() {
    let mut c = Cursor::new(vec![1, 2, 3, 4, 5]);
    assert_eq!(c.remaining_len(), 5);
    assert_eq!(c.read_bytes(2), vec![1, 2]);
    assert_eq!(c.read_bytes(0), vec![]);
    assert_eq!(c.read_bytes(10), vec![3, 4, 5]);
    assert_eq!(c.read_bytes(1), vec![]);
}

#[test]
fn cursor_hands_out_the_rest() {
    let mut c = Cursor::new(vec![7, 8, 9]);
    let _ = c.read_bytes(1);
    assert_eq!(c.into_rest(), vec![8, 9]);
}

#[test]
fn operation_labels() {
    assert_eq!(Operation::Read.name(), "read");
    assert_eq!(Operation::CreateMultipart.name(), "create_multipart");
    assert_eq!(Operation::BlockingList.name(), "blocking_list");
}
