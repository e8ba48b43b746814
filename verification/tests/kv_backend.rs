use vdal::accessor::{Builder, OpCreate, OpDelete, OpList, OpRead, OpStat, OpWrite};
use vdal::error::Error;
use vdal::error::ErrorKind;
use vdal::meta::{ObjectEntry, ObjectMetadata, ObjectMode};
use vdal::ops::{CapabilitySet, Operation};
use vdal::pager::{DirPager, Page};
use vdal::range::BytesRange;
use vdal::reader::OutputRead;
use vdal::sled_store::SledBuilder;
use vdal::{ErrorContextAccessor, KvBackend, MemAdapter, MetricsLayer, Operator};

fn expect_err<T>(r: Result<T, Error>) -> Error {
    match r {
        Err(e) => e,
        Ok(_) => panic!("expected an error"),
    }
}

fn mem_caps() -> CapabilitySet {
    CapabilitySet::none().with_read().with_write().with_list().with_blocking()
}

fn mem_operator() -> Operator<ErrorContextAccessor<KvBackend<MemAdapter>>> {
    Operator::new(KvBackend::new(MemAdapter::new(mem_caps()))).finish()
}

#[test]
fn write_then_read_roundtrip() {
    let mut op = mem_operator();
    let data = b"hello storage".to_vec();
    let rp = op.write("/x", OpWrite::new(data.len() as u64), data.clone()).unwrap();
    assert_eq!(rp.written, data.len() as u64);
    let (rp, reader) = op.read("/x", OpRead::full()).unwrap();
    assert_eq!(rp.meta.content_length(), Some(data.len() as u64));
    assert_eq!(reader.into_rest(), data);
}

#[test]
fn read_missing_object_is_not_found() {
    let mut op = mem_operator();
    let err = expect_err(op.read("/absent", OpRead::full()));
    assert_eq!(err.kind(), ErrorKind::ObjectNotFound);
}

#[test]
fn read_applies_byte_range_in_memory() {
    let mut op = mem_operator();
    let data: Vec<u8> = (0..100).collect();
    op.write("/blob", OpWrite::new(100), data.clone()).unwrap();
    let (rp, reader) = op.read("/blob", OpRead::new(BytesRange::new(None, Some(10)))).unwrap();
    assert_eq!(rp.meta.content_length(), Some(10));
    assert_eq!(reader.into_rest(), data[90..].to_vec());
    let (_, reader) = op.read("/blob", OpRead::new(BytesRange::new(Some(5), Some(3)))).unwrap();
    assert_eq!(reader.into_rest(), vec![5, 6, 7]);
}

#[test]
fn out_of_range_read_fails() {
    let mut op = mem_operator();
    op.write("/small", OpWrite::new(3), vec![1, 2, 3]).unwrap();
    let err = expect_err(op.read("/small", OpRead::new(BytesRange::new(Some(4), None))));
    assert_eq!(err.kind(), ErrorKind::Unexpected);
}

#[test]
fn stat_reports_mode_and_length() {
    let mut op = mem_operator();
    op.write("/f", OpWrite::new(4), vec![9, 9, 9, 9]).unwrap();
    op.create_object("/d", OpCreate::new(ObjectMode::Dir)).unwrap();
    let f = op.stat("/f", OpStat::new()).unwrap();
    assert_eq!(f.meta.mode(), ObjectMode::File);
    assert_eq!(f.meta.content_length(), Some(4));
    let d = op.stat("/d/", OpStat::new()).unwrap();
    assert_eq!(d.meta.mode(), ObjectMode::Dir);
    let err = expect_err(op.stat("/nothing", OpStat::new()));
    assert_eq!(err.kind(), ErrorKind::ObjectNotFound);
}

#[test]
fn create_adjusts_path_by_mode() {
    let mut op = mem_operator();
    op.create_object("/marker/", OpCreate::new(ObjectMode::File)).unwrap();
    assert_eq!(op.stat("/marker", OpStat::new()).unwrap().meta.mode(), ObjectMode::File);
    op.create_object("/dir", OpCreate::new(ObjectMode::Dir)).unwrap();
    assert_eq!(op.stat("/dir/", OpStat::new()).unwrap().meta.mode(), ObjectMode::Dir);
}

#[test]
fn delete_is_idempotent() {
    let mut op = mem_operator();
    op.write("/gone", OpWrite::new(1), vec![1]).unwrap();
    op.delete("/gone", OpDelete::new()).unwrap();
    assert_eq!(expect_err(op.read("/gone", OpRead::full())).kind(), ErrorKind::ObjectNotFound);
    op.delete("/gone", OpDelete::new()).unwrap();
    op.delete("/never-existed", OpDelete::new()).unwrap();
}

#[test]
fn list_names_the_namespace_entries() {
    let mut op = mem_operator();
    op.write("/dir1/dir2/file.txt", OpWrite::new(5), vec![1, 2, 3, 4, 5]).unwrap();
    op.write("/dir1/other.txt", OpWrite::new(1), vec![1]).unwrap();
    let (_, mut pager) = op.list("/dir1/dir2", OpList::new()).unwrap();
    let page = pager.next_page().unwrap().expect("one page");
    assert_eq!(page.len(), 1);
    assert_eq!(page[0].path(), "/dir1/dir2/file.txt");
    assert_eq!(page[0].metadata().content_length(), Some(5));
    assert_eq!(page[0].mode(), ObjectMode::File);
    assert!(pager.next_page().unwrap().is_none());
}

#[test]
fn list_sees_directory_markers() {
    let mut op = mem_operator();
    op.create_object("/a", OpCreate::new(ObjectMode::Dir)).unwrap();
    op.write("/f.txt", OpWrite::new(1), vec![7]).unwrap();
    let (_, mut pager) = op.list("/", OpList::new()).unwrap();
    let mut seen = Vec::new();
    while let Some(page) = pager.next_page().unwrap() {
        assert!(!page.is_empty());
        for e in &page {
            seen.push((e.path().to_string(), e.mode()));
        }
    }
    assert!(seen.contains(&("/a/".to_string(), ObjectMode::Dir)));
    assert!(seen.contains(&("/f.txt".to_string(), ObjectMode::File)));
}

#[test]
fn pager_is_exhausted_exactly_once_and_stays_so() {
    let entries: Vec<ObjectEntry> = (0..5)
        .map(|i| {
            ObjectEntry::new(
                &format!("/e{}", i),
                ObjectMetadata::new(ObjectMode::File).with_content_length(1),
            )
        })
        .collect();
    let mut pager = DirPager::new(entries, 2);
    let mut pages = Vec::new();
    while let Some(page) = pager.next_page().unwrap() {
        assert!(!page.is_empty(), "an empty non-final page is defective");
        pages.push(page.len());
    }
    assert_eq!(pages, vec![2, 2, 1]);
    assert!(pager.next_page().unwrap().is_none());
    assert!(pager.next_page().unwrap().is_none());
    assert!(pager.next_page().unwrap().is_none());
}

#[test]
fn unsupported_operation_fails_before_any_io() {
    let read_only = CapabilitySet::none().with_read();
    let mut op = Operator::new(KvBackend::new(MemAdapter::new(read_only))).finish();
    let err = expect_err(op.write("/x", OpWrite::new(1), vec![1]));
    assert_eq!(err.kind(), ErrorKind::Unsupported);
    assert!(!err.is_temporary());
    let err = expect_err(op.read("/x", OpRead::full()));
    assert_eq!(err.kind(), ErrorKind::ObjectNotFound);
    let err = expect_err(op.list("/", OpList::new()));
    assert_eq!(err.kind(), ErrorKind::Unsupported);
}

#[test]
fn operator_metadata_reports_capabilities() {
    let op = mem_operator();
    let meta = op.metadata();
    assert_eq!(meta.scheme(), vdal::Scheme::Memory);
    assert_eq!(meta.root(), "/");
    assert_eq!(meta.name(), "");
    assert!(meta.can_read());
    assert!(meta.can_write());
    assert!(meta.can_list());
    assert!(meta.can_blocking());
    assert!(!meta.can_presign());
    assert!(!meta.can_multipart());
}

#[test]
fn operator_check_reaches_the_backend() {
    let mut op = mem_operator();
    assert!(op.check().is_ok());
}

#[test]
fn metrics_count_requests_exactly_once() {
    let mut op = Operator::new(KvBackend::new(MemAdapter::new(mem_caps())))
        .layer(MetricsLayer)
        .finish();
    op.write("/x", OpWrite::new(2), vec![1, 2]).unwrap();
    op.write("/y", OpWrite::new(1), vec![3]).unwrap();
    let (_, reader) = op.read("/x", OpRead::full()).unwrap();
    op.close_reader(reader);
    let acc = op.inner();
    assert_eq!(acc.requests_count(Operation::Write), 2);
    assert_eq!(acc.requests_count(Operation::Read), 1);
    assert_eq!(acc.requests_count(Operation::Delete), 0);
    assert_eq!(acc.bytes_count(Operation::Write), 3);
    // wall time is accounted only against the operations that ran
    assert_eq!(acc.durations_count(Operation::Delete), 0);
    assert_eq!(acc.durations_count(Operation::List), 0);
}

#[test]
fn metrics_count_bytes_actually_consumed() {
    let mut op = Operator::new(KvBackend::new(MemAdapter::new(mem_caps())))
        .layer(MetricsLayer)
        .finish();
    let data: Vec<u8> = (0..50).collect();
    op.write("/blob", OpWrite::new(50), data).unwrap();
    let (_, mut reader) = op.read("/blob", OpRead::full()).unwrap();
    let chunk = reader.read_bytes(7);
    assert_eq!(chunk.len(), 7);
    // the stream is abandoned after a partial read; closing still flushes
    // exactly the bytes that were transferred
    op.close_reader(reader);
    assert_eq!(op.inner().bytes_count(Operation::Read), 7);
}

#[test]
fn metrics_count_errors_on_the_cold_path() {
    let mut op = Operator::new(KvBackend::new(MemAdapter::new(mem_caps())))
        .layer(MetricsLayer)
        .finish();
    assert!(op.read("/missing", OpRead::full()).is_err());
    assert!(op.read("/missing", OpRead::full()).is_err());
    let acc = op.inner();
    assert_eq!(acc.errors_count(Operation::Read, ErrorKind::ObjectNotFound), 2);
    assert_eq!(acc.errors_count(Operation::Read, ErrorKind::Unexpected), 0);
    assert_eq!(acc.errors_count(Operation::Write, ErrorKind::ObjectNotFound), 0);
    assert_eq!(acc.requests_count(Operation::Read), 2);
}

fn tree_operator() -> Operator<ErrorContextAccessor<KvBackend<MemAdapter>>> {
    let mut op = mem_operator();
    op.create_object("/a", OpCreate::new(ObjectMode::Dir)).unwrap();
    op.create_object("/a/b", OpCreate::new(ObjectMode::Dir)).unwrap();
    op.write("/a/b/c", OpWrite::new(1), vec![1]).unwrap();
    op
}

fn position(paths: &[String], wanted: &str) -> usize {
    paths.iter().position(|p| p == wanted).unwrap_or_else(|| panic!("missing {}", wanted))
}

#[test]
fn top_down_walk_yields_parents_first() {
    let op = tree_operator();
    let mut batch = op.batch();
    let mut lister = batch.walk_top_down("/").unwrap();
    let mut paths = Vec::new();
    while let Some(e) = lister.next_entry() {
        paths.push(e.path().to_string());
    }
    let a = position(&paths, "/a/");
    let b = position(&paths, "/a/b/");
    let c = position(&paths, "/a/b/c");
    assert!(a < b, "/a must come before /a/b");
    assert!(b < c, "/a/b must come before /a/b/c");
}

#[test]
fn bottom_up_walk_yields_children_first() {
    let op = tree_operator();
    let mut batch = op.batch();
    let mut lister = batch.walk_bottom_up("/").unwrap();
    let mut paths = Vec::new();
    while let Some(e) = lister.next_entry() {
        paths.push(e.path().to_string());
    }
    let a = position(&paths, "/a/");
    let b = position(&paths, "/a/b/");
    let c = position(&paths, "/a/b/c");
    assert!(c < b, "/a/b/c must come before /a/b");
    assert!(b < a, "/a/b must come before /a");
}

#[test]
fn default_walk_is_top_down() {
    let op = tree_operator();
    let mut batch = op.batch();
    let mut lister = batch.walk("/a").unwrap();
    let mut paths = Vec::new();
    while let Some(e) = lister.next_entry() {
        paths.push(e.path().to_string());
    }
    assert!(position(&paths, "/a/") < position(&paths, "/a/b/"));
}

#[test]
fn remove_all_on_a_leaf_is_one_delete_and_no_listing() {
    let mut op = Operator::new(KvBackend::new(MemAdapter::new(mem_caps())))
        .layer(MetricsLayer)
        .finish();
    op.write("/x", OpWrite::new(1), vec![1]).unwrap();
    let mut batch = op.batch();
    batch.remove_all("/x").unwrap();
    let mut op = batch.into_operator();
    let acc = op.inner();
    assert_eq!(acc.requests_count(Operation::Stat), 1);
    assert_eq!(acc.requests_count(Operation::Delete), 1, "exactly one delete");
    assert_eq!(acc.requests_count(Operation::List), 0, "no listing for a leaf");
    assert_eq!(expect_err(op.read("/x", OpRead::full())).kind(), ErrorKind::ObjectNotFound);
}

#[test]
fn remove_all_empties_a_directory_tree() {
    let op = tree_operator();
    let mut batch = op.batch();
    batch.remove_all("/a/").unwrap();
    let mut op = batch.into_operator();
    assert_eq!(expect_err(op.stat("/a/b/c", OpStat::new())).kind(), ErrorKind::ObjectNotFound);
    assert_eq!(expect_err(op.stat("/a/b/", OpStat::new())).kind(), ErrorKind::ObjectNotFound);
    assert_eq!(expect_err(op.stat("/a/", OpStat::new())).kind(), ErrorKind::ObjectNotFound);
}

#[test]
fn sled_backend_stores_and_lists() {
    let mut builder = SledBuilder::new();
    builder.datadir("/tmp/vdal-store-roundtrip");
    let mut op = Operator::create(builder).unwrap().finish();
    let meta = op.metadata();
    assert_eq!(meta.scheme(), vdal::Scheme::Sled);
    assert!(meta.can_read() && meta.can_write() && meta.can_list() && meta.can_blocking());
    let data = b"durable bytes".to_vec();
    op.write("/dir/file.bin", OpWrite::new(data.len() as u64), data.clone()).unwrap();
    let (_, reader) = op.read("/dir/file.bin", OpRead::full()).unwrap();
    assert_eq!(reader.into_rest(), data);
    let (_, reader) = op
        .read("/dir/file.bin", OpRead::new(BytesRange::new(None, Some(5))))
        .unwrap();
    assert_eq!(reader.into_rest(), data[data.len() - 5..].to_vec());
    let (_, mut pager) = op.list("/dir", OpList::new()).unwrap();
    let page = pager.next_page().unwrap().expect("one page");
    assert_eq!(page.len(), 1);
    assert_eq!(page[0].path(), "/dir/file.bin");
    assert_eq!(page[0].metadata().content_length(), Some(data.len() as u64));
    op.delete("/dir/file.bin", OpDelete::new()).unwrap();
    assert_eq!(
        expect_err(op.read("/dir/file.bin", OpRead::full())).kind(),
        ErrorKind::ObjectNotFound
    );
}

#[test]
fn sled_builder_from_map_and_missing_datadir() {
    let mut unset = SledBuilder::new();
    let err = expect_err(unset.build());
    assert_eq!(err.kind(), ErrorKind::BackendConfigInvalid);

    let pairs = vec![
        ("datadir".to_string(), "/tmp/vdal-store-ignored".to_string()),
        ("unknown".to_string(), "whatever".to_string()),
        ("datadir".to_string(), "/tmp/vdal-store-from-map".to_string()),
    ];
    let mut op = Operator::from_map::<SledBuilder>(pairs).unwrap().finish();
    assert_eq!(op.metadata().name(), "/tmp/vdal-store-from-map");
    op.write("/k", OpWrite::new(2), vec![4, 2]).unwrap();
    let (_, reader) = op.read("/k", OpRead::full()).unwrap();
    assert_eq!(reader.into_rest(), vec![4, 2]);
}

#[test]
fn from_iter_builds_like_from_map() {
    let pairs = vec![("datadir".to_string(), "/tmp/vdal-store-from-iter".to_string())];
    let op = Operator::from_iter::<SledBuilder>(pairs).unwrap().finish();
    assert_eq!(op.metadata().name(), "/tmp/vdal-store-from-iter");
}

#[test]
fn errors_leave_the_chain_enriched() {
    let mut op = mem_operator();
    let err = expect_err(op.read("/missing", OpRead::full()));
    assert_eq!(err.kind(), ErrorKind::ObjectNotFound);
    let n = err.context_len();
    assert!(n >= 3);
    assert_eq!(err.context_at(n - 3), ("service".to_string(), "memory".to_string()));
    assert_eq!(err.context_at(n - 2), ("operation".to_string(), "read".to_string()));
    assert_eq!(err.context_at(n - 1), ("path".to_string(), "/missing".to_string()));
}

#[test]
fn remove_all_empties_a_sled_tree() {
    let mut builder = SledBuilder::new();
    builder.datadir("/tmp/vdal-store-remove-all");
    let mut op = Operator::create(builder).unwrap().finish();
    op.create_object("/t", OpCreate::new(ObjectMode::Dir)).unwrap();
    op.create_object("/t/sub", OpCreate::new(ObjectMode::Dir)).unwrap();
    op.write("/t/sub/leaf", OpWrite::new(3), vec![1, 2, 3]).unwrap();
    let mut batch = op.batch();
    batch.remove_all("/t/").unwrap();
    let mut op = batch.into_operator();
    assert_eq!(expect_err(op.stat("/t/sub/leaf", OpStat::new())).kind(), ErrorKind::ObjectNotFound);
    assert_eq!(expect_err(op.stat("/t/sub/", OpStat::new())).kind(), ErrorKind::ObjectNotFound);
    assert_eq!(expect_err(op.stat("/t/", OpStat::new())).kind(), ErrorKind::ObjectNotFound);
}
