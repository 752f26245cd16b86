use indexeddb::manager::{ManagerAction, SyncAction};
use indexeddb::IndexedDBThreadMsg;
use indexeddb::{
    AsyncOperation, IDBVersionChangeEvent, IndexedDBKeyType, IndexedDBManager, IndexedDBThreadReturnType,
    IndexedDBTxnMode, KeyPath, StoreDescription, SyncOperation,
};

const URL: &str = "https://a.example/app";

fn manager() -> IndexedDBManager<u32> {
    IndexedDBManager::new()
}

fn get(ch: u32, key: &[u8]) -> AsyncOperation<u32> {
    AsyncOperation::GetItem(ch, URL.to_string(), "s".to_string(), key.to_vec())
}

fn sender(op: &AsyncOperation<u32>) -> u32 {
    match op {
        AsyncOperation::GetItem(r, ..) | AsyncOperation::PutItem(r, ..) | AsyncOperation::RemoveItem(r, ..) => *r,
    }
}

#[test]
fn version_is_monotonic_over_opens() {
    let mut m = manager();
    assert_eq!(m.version(), 0);
    m.open_db(Some(3));
    assert_eq!(m.version(), 3);
    m.open_db(Some(1));
    assert_eq!(m.version(), 3);
    assert!(matches!(m.handle_sync_operation(SyncOperation::Version), SyncAction::Reply(IndexedDBThreadReturnType::Version(3))));
}

#[test]
fn open_without_version_takes_one() {
    let mut m = manager();
    assert!(matches!(
        m.handle_sync_operation(SyncOperation::Open(URL.to_string(), "db".to_string(), None)),
        SyncAction::Reply(IndexedDBThreadReturnType::Open(Some(1)))
    ));
    assert_eq!(m.version(), 1);
    assert!(matches!(
        m.handle_sync_operation(SyncOperation::Open(URL.to_string(), "db".to_string(), Some(4))),
        SyncAction::Reply(IndexedDBThreadReturnType::Open(Some(1)))
    ));
}

#[test]
fn serials_increase() {
    let mut m = manager();
    assert_eq!(m.register_new_txn(), 1);
    assert_eq!(m.register_new_txn(), 2);
    assert!(matches!(m.handle_sync_operation(SyncOperation::RegisterNewTxn), SyncAction::Serial(3)));
    assert_eq!(m.serial_number_counter(), 3);
}

#[test]
fn upgrade_sets_version() {
    let mut m = manager();
    m.open_db(Some(2));
    assert_eq!(m.upgrade_version(7, 5), IndexedDBThreadReturnType::UpgradeVersion(Ok(5)));
    assert_eq!(m.version(), 5);
    assert_eq!(m.upgrade_transaction(), Some(7));
    assert!(matches!(
        m.handle_sync_operation(SyncOperation::UpgradeVersion(8, 9)),
        SyncAction::Reply(IndexedDBThreadReturnType::UpgradeVersion(Ok(9)))
    ));
    assert_eq!(m.version(), 9);
    assert_eq!(m.upgrade_transaction(), Some(8));
}

#[test]
fn commit_and_exit_reply() {
    let mut m = manager();
    assert!(matches!(m.handle_sync_operation(SyncOperation::Commit(1)), SyncAction::Reply(IndexedDBThreadReturnType::Commit(Ok(())))));
    assert!(matches!(m.handle_sync_operation(SyncOperation::Exit), SyncAction::Reply(IndexedDBThreadReturnType::Exit)));
}

#[test]
fn store_requests_name_the_origin() {
    let mut m = manager();
    match m.handle_sync_operation(SyncOperation::CreateObjectStore(URL.to_string(), "s".to_string(), true)) {
        SyncAction::CreateStore(d, auto, reply) => {
            assert_eq!(d.to_string(), "https://a.example::s");
            assert!(auto);
            assert_eq!(reply, IndexedDBThreadReturnType::CreateObjectStore(None));
        },
        _ => panic!("expected a store to create"),
    }
    match m.handle_sync_operation(SyncOperation::HasKeyGenerator("http://b.example:8080/x".to_string(), "t".to_string())) {
        SyncAction::QueryKeyGenerator(d) => assert_eq!(d.to_string(), "http://b.example:8080::t"),
        _ => panic!("expected a key generator query"),
    }
    assert!(matches!(
        m.handle_sync_operation(SyncOperation::HasKeyGenerator("no url".to_string(), "t".to_string())),
        SyncAction::Flag(false)
    ));
    assert!(matches!(
        m.handle_sync_operation(SyncOperation::CreateObjectStore("no url".to_string(), "t".to_string(), false)),
        SyncAction::Reply(IndexedDBThreadReturnType::CreateObjectStore(None))
    ));
}

#[test]
fn async_dispatches_at_once() {
    let mut m = manager();
    let batch = m.handle_async(1, IndexedDBTxnMode::Readonly, get(10, b"a")).unwrap();
    assert_eq!(batch.mode, IndexedDBTxnMode::Readonly);
    assert_eq!(batch.requests.iter().map(sender).collect::<Vec<_>>(), vec![10]);
    // The buffer is gone: a start finds nothing to run.
    match m.handle_sync_operation(SyncOperation::StartTransaction(1, IndexedDBTxnMode::Readonly)) {
        SyncAction::Start(t, reply) => {
            assert!(t.is_none());
            assert_eq!(reply, IndexedDBThreadReturnType::StartTransaction(Ok(())));
        },
        _ => panic!("expected a start"),
    }
    // While the batch is out, later requests on the serial wait.
    assert!(m.handle_async(1, IndexedDBTxnMode::Readwrite, get(11, b"b")).is_none());
    assert!(m.handle_async(1, IndexedDBTxnMode::Readonly, get(12, b"c")).is_none());
    // Another serial is not held up.
    assert!(m.handle_async(2, IndexedDBTxnMode::Readonly, get(20, b"d")).is_some());
    // Once the batch is done, the waiting requests leave together, in order.
    let batch = m.batch_done(1).unwrap();
    assert_eq!(batch.mode, IndexedDBTxnMode::Readwrite);
    assert_eq!(batch.requests.iter().map(sender).collect::<Vec<_>>(), vec![11, 12]);
    // Nothing is left once that one is done too.
    assert!(m.batch_done(1).is_none());
    assert!(m.handle_async(1, IndexedDBTxnMode::Readonly, get(13, b"e")).is_some());
}

#[test]
fn queued_requests_start_in_order() {
    let mut m = manager();
    m.queue(4, IndexedDBTxnMode::Readwrite, get(1, b"a"));
    m.queue(4, IndexedDBTxnMode::Readonly, AsyncOperation::RemoveItem(2, URL.to_string(), "s".to_string(), b"a".to_vec()));
    m.queue(5, IndexedDBTxnMode::Readonly, get(9, b"z"));
    let batch = m.handle_async(4, IndexedDBTxnMode::Readonly, AsyncOperation::PutItem(
        3, URL.to_string(), "s".to_string(), IndexedDBKeyType::Number(vec![1]), vec![2], true)).unwrap();
    assert_eq!(batch.mode, IndexedDBTxnMode::Readwrite);
    assert_eq!(batch.requests.iter().map(sender).collect::<Vec<_>>(), vec![1, 2, 3]);
    match m.handle_sync_operation(SyncOperation::StartTransaction(5, IndexedDBTxnMode::Readonly)) {
        SyncAction::Start(Some(t), _) => assert_eq!(t.requests.iter().map(sender).collect::<Vec<_>>(), vec![9]),
        _ => panic!("expected the buffered batch"),
    }
    assert!(m.start_transaction(5).is_none());
}

#[test]
fn descriptor_string_form() {
    let d = StoreDescription::new("https://a.example".to_string(), "s".to_string());
    assert_eq!(d.to_string(), "https://a.example::s");
    let d = StoreDescription::from_url("https://a.example:443/some/page", "store".to_string()).unwrap();
    assert_eq!(d.origin, "https://a.example");
    assert_eq!(d.to_string(), "https://a.example::store");
    assert!(StoreDescription::from_url("::", "s".to_string()).is_none());
}

#[test]
fn key_bytes_ignore_the_tag() {
    assert_eq!(IndexedDBKeyType::Number(vec![1, 2]).into_bytes(), vec![1, 2]);
    assert_eq!(IndexedDBKeyType::String(vec![1, 2]).into_bytes(), vec![1, 2]);
    assert!(IndexedDBTxnMode::Readwrite.is_writing());
    assert!(IndexedDBTxnMode::Versionchange.is_writing());
    assert!(!IndexedDBTxnMode::Readonly.is_writing());
}

#[test]
fn version_change_event_fields() {
    let e = IDBVersionChangeEvent::new_inherited(2, Some(3));
    assert_eq!(e.old_version(), 2);
    assert_eq!(e.new_version(), Some(3));
    let e = IDBVersionChangeEvent::new_uninitialized();
    assert_eq!(e.old_version(), 0);
    assert_eq!(e.new_version(), None);
    let p = KeyPath::StringSequence(vec!["a.b".to_string()]);
    assert_eq!(p.clone(), p);
}

#[test]
fn messages_route_to_their_handlers() {
    let mut m = manager();
    match m.handle_message(IndexedDBThreadMsg::Sync(SyncOperation::RegisterNewTxn)) {
        ManagerAction::Sync(SyncAction::Serial(1)) => {},
        _ => panic!("expected serial 1"),
    }
    match m.handle_message(IndexedDBThreadMsg::Async(1, IndexedDBTxnMode::Readwrite, get(7, b"k"))) {
        ManagerAction::Dispatch(Some(t)) => {
            assert_eq!(t.mode, IndexedDBTxnMode::Readwrite);
            assert_eq!(t.requests.iter().map(sender).collect::<Vec<_>>(), vec![7]);
        },
        _ => panic!("expected a batch"),
    }
    assert!(matches!(
        m.handle_message(IndexedDBThreadMsg::Async(1, IndexedDBTxnMode::Readwrite, get(8, b"k"))),
        ManagerAction::Dispatch(None)
    ));
    match m.handle_message(IndexedDBThreadMsg::Done(1)) {
        ManagerAction::Dispatch(Some(t)) => assert_eq!(t.requests.iter().map(sender).collect::<Vec<_>>(), vec![8]),
        _ => panic!("expected the follow-on batch"),
    }
}

#[test]
fn empty_transaction_is_dispatched() {
    let mut m = manager();
    match m.handle_sync_operation(SyncOperation::StartTransaction(3, IndexedDBTxnMode::Readwrite)) {
        SyncAction::Start(Some(t), reply) => {
            assert_eq!(t.mode, IndexedDBTxnMode::Readwrite);
            assert!(t.requests.is_empty());
            assert_eq!(reply, IndexedDBThreadReturnType::StartTransaction(Ok(())));
        },
        _ => panic!("expected an empty batch"),
    }
    // While the empty batch is out, requests wait for it.
    assert!(m.handle_async(3, IndexedDBTxnMode::Readwrite, get(1, b"k")).is_none());
    let next = m.batch_done(3).unwrap();
    assert_eq!(next.requests.iter().map(sender).collect::<Vec<_>>(), vec![1]);
    assert!(m.start_explicitly(3, IndexedDBTxnMode::Readonly).is_none());
    assert!(m.batch_done(3).is_none());
}
