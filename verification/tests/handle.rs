use mssqlts::config::{AuthConfig, NormalizedConfig, PoolConfig};
use mssqlts::error::MssqlError;
use mssqlts::handle::{
    checkout_client, clear_all, diagnostic_snapshot, find_pool, get_conn, get_pool, remove_all_conns,
    remove_all_pools, remove_conn, remove_pool, return_client, set_active_transaction,
    set_conn_error, set_pool_error, share_pool, store_conn, store_pool, take_last_error,
    ConnHandle, HandleRegistry, PoolHandle,
};
use mssqlts::table::HandleTable;

fn config(server: &str, pool_max: Option<u32>) -> NormalizedConfig {
    NormalizedConfig {
        server: server.to_string(),
        port: 1433,
        database: "db".to_string(),
        auth: AuthConfig::Sql { username: "sa".to_string(), password: "pw".to_string() },
        encrypt: true,
        trust_server_certificate: false,
        connect_timeout_ms: 1000,
        request_timeout_ms: 1000,
        app_name: "app".to_string(),
        instance_name: None,
        packet_size: 4096,
        pool: Some(PoolConfig { min: None, max: pool_max, idle_timeout_ms: None }),
    }
}

type Registry = HandleRegistry<&'static str, &'static str>;

#[test]
fn handles_start_at_one_and_increase() {
    let mut reg = Registry::new();
    assert_eq!(store_pool(&mut reg, "p1", &config("a", None)), 1);
    assert_eq!(store_pool(&mut reg, "p2", &config("b", None)), 2);
    assert_eq!(store_conn(&mut reg, "c1", None), 1);
    assert_eq!(store_conn(&mut reg, "c2", Some(1)), 2);
    assert!(remove_conn(&mut reg, 1).is_some());
    assert_eq!(store_conn(&mut reg, "c3", None), 3);
}

#[test]
fn pools_are_shared_by_identity() {
    let mut reg = Registry::new();
    let first = store_pool(&mut reg, "p1", &config("HOST", Some(5)));
    let second = store_pool(&mut reg, "p2", &config("host", Some(50)));
    assert_eq!(first, second);
    let h = get_pool(&reg, first).unwrap();
    assert_eq!(h.pool, "p1");
    assert_eq!(h.ref_count, 2);
    assert_eq!(h.dedup_key, config("host", None).dedup_key());
    let other = store_pool(&mut reg, "p3", &config("elsewhere", Some(5)));
    assert_ne!(other, first);
    assert_eq!(diagnostic_snapshot(&reg).pools.len(), 2);
    assert_eq!(find_pool(&reg, &config("Host", None).dedup_key()), Some(first));
    assert_eq!(find_pool(&reg, "nothing"), None);
}

#[test]
fn sharing_needs_a_pool_that_is_there() {
    let mut reg = Registry::new();
    assert_eq!(share_pool(&mut reg, &config("h", None)), 0);
    assert!(diagnostic_snapshot(&reg).pools.is_empty());
    let id = store_pool(&mut reg, "p", &config("h", None));
    assert_eq!(share_pool(&mut reg, &config("H", Some(3))), id);
    assert_eq!(share_pool(&mut reg, &config("other", None)), 0);
    assert_eq!(get_pool(&reg, id).unwrap().ref_count, 2);
    assert!(remove_pool(&mut reg, id).is_none());
    assert!(remove_pool(&mut reg, id).is_some());
    assert_eq!(share_pool(&mut reg, &config("h", None)), 0);
}

#[test]
fn pool_leaves_with_its_last_holder() {
    let mut reg = Registry::new();
    let id = store_pool(&mut reg, "p1", &config("h", None));
    assert_eq!(store_pool(&mut reg, "p2", &config("h", None)), id);
    assert!(remove_pool(&mut reg, id).is_none());
    assert_eq!(get_pool(&reg, id).unwrap().ref_count, 1);
    let last = remove_pool(&mut reg, id).unwrap();
    assert_eq!(last.pool, "p1");
    assert_eq!(last.ref_count, 0);
    assert!(get_pool(&reg, id).is_err());
    assert!(remove_pool(&mut reg, id).is_none());
    let again = store_pool(&mut reg, "p3", &config("h", None));
    assert_eq!(again, id + 1);
    assert_eq!(get_pool(&reg, again).unwrap().pool, "p3");
}

#[test]
fn last_release_frees_handle_and_key() {
    let mut reg = Registry::new();
    let e = store_pool(&mut reg, "first", &config("h", None));
    assert_eq!(store_pool(&mut reg, "second", &config("h", None)), e);
    assert!(remove_pool(&mut reg, e).is_none());
    let last = remove_pool(&mut reg, e).unwrap();
    assert_eq!(last.pool, "first");
    assert_eq!(last.dedup_key, config("h", None).dedup_key());
    assert!(get_pool(&reg, e).is_err());
    assert_eq!(find_pool(&reg, &config("h", None).dedup_key()), None);
    let fresh = store_pool(&mut reg, "third", &config("h", None));
    assert_ne!(fresh, e);
    assert_ne!(fresh, 0);
    let h = get_pool(&reg, fresh).unwrap();
    assert_eq!((h.pool, h.ref_count), ("third", 1));
}

#[test]
fn missing_handles_are_named_in_the_error() {
    let reg = Registry::new();
    match get_pool(&reg, 42) {
        Err(MssqlError::Pool(msg)) => assert_eq!(msg, "Pool 42 not found"),
        other => panic!("unexpected: {:?}", other.map(|h| h.ref_count)),
    }
    match get_conn(&reg, 0) {
        Err(MssqlError::Connection(msg)) => assert_eq!(msg, "Connection 0 not found"),
        other => panic!("unexpected: {:?}", other.map(|h| h.pool_id)),
    }
}

#[test]
fn client_is_checked_out_for_one_operation_at_a_time() {
    let mut reg = Registry::new();
    let id = store_conn(&mut reg, "client", Some(9));
    assert_eq!(checkout_client(&mut reg, id).unwrap(), "client");
    assert!(get_conn(&reg, id).unwrap().client.is_none());
    match checkout_client(&mut reg, id) {
        Err(MssqlError::Connection(msg)) => assert_eq!(msg, "Connection is in use"),
        other => panic!("unexpected: {:?}", other),
    }
    assert_eq!(return_client(&mut reg, id, "client"), None);
    assert_eq!(get_conn(&reg, id).unwrap().client, Some("client"));
    assert_eq!(checkout_client(&mut reg, id).unwrap(), "client");
    match checkout_client(&mut reg, id + 1) {
        Err(MssqlError::Connection(msg)) => assert_eq!(msg, "Connection 2 not found"),
        other => panic!("unexpected: {:?}", other),
    }
    assert!(remove_conn(&mut reg, id).is_some());
    assert_eq!(return_client(&mut reg, id, "client"), Some("client"));
}

#[test]
fn last_error_is_fetched_once() {
    let mut reg = Registry::new();
    let conn = store_conn(&mut reg, "c", None);
    assert_eq!(take_last_error(&mut reg, conn), None);
    assert!(set_conn_error(&mut reg, conn, "first".to_string()));
    assert!(set_conn_error(&mut reg, conn, "second".to_string()));
    assert_eq!(take_last_error(&mut reg, conn), Some("second".to_string()));
    assert_eq!(take_last_error(&mut reg, conn), None);
    assert!(!set_conn_error(&mut reg, 77, "lost".to_string()));
    assert!(!set_pool_error(&mut reg, 77, "lost".to_string()));
    assert_eq!(take_last_error(&mut reg, 77), None);
}

#[test]
fn connection_error_is_fetched_before_pool_error() {
    let mut reg = Registry::new();
    let pool = store_pool(&mut reg, "p", &config("h", None));
    let conn = store_conn(&mut reg, "c", Some(pool));
    assert_eq!(pool, conn);
    assert!(set_pool_error(&mut reg, pool, "from pool".to_string()));
    assert!(set_conn_error(&mut reg, conn, "from connection".to_string()));
    assert_eq!(take_last_error(&mut reg, 1), Some("from connection".to_string()));
    assert_eq!(take_last_error(&mut reg, 1), Some("from pool".to_string()));
    assert_eq!(take_last_error(&mut reg, 1), None);
    assert_eq!(get_pool(&reg, pool).unwrap().ref_count, 1);
}

#[test]
fn one_transaction_is_tracked_per_connection() {
    let mut reg = Registry::new();
    let conn = store_conn(&mut reg, "c", None);
    assert!(get_conn(&reg, conn).unwrap().active_transaction.is_none());
    assert!(set_active_transaction(&mut reg, conn, Some("tx1".to_string())));
    assert!(set_active_transaction(&mut reg, conn, Some("tx2".to_string())));
    assert_eq!(get_conn(&reg, conn).unwrap().active_transaction.as_deref(), Some("tx2"));
    assert!(set_active_transaction(&mut reg, conn, None));
    assert!(get_conn(&reg, conn).unwrap().active_transaction.is_none());
    assert!(!set_active_transaction(&mut reg, 5, None));
}

#[test]
fn snapshot_lists_everything_by_handle() {
    let mut reg = Registry::new();
    let p1 = store_pool(&mut reg, "p1", &config("a", None));
    let p2 = store_pool(&mut reg, "p2", &config("b", None));
    store_pool(&mut reg, "p2", &config("b", None));
    let c1 = store_conn(&mut reg, "c1", Some(p2));
    let c2 = store_conn(&mut reg, "c2", None);
    set_active_transaction(&mut reg, c2, Some("tx".to_string()));
    let snap = diagnostic_snapshot(&reg);
    assert_eq!(snap.pools.len(), 2);
    assert_eq!((snap.pools[0].id, snap.pools[0].ref_count), (p1, 1));
    assert_eq!((snap.pools[1].id, snap.pools[1].ref_count), (p2, 2));
    assert_eq!(snap.connections.len(), 2);
    assert_eq!(snap.connections[0].id, c1);
    assert_eq!(snap.connections[0].pool_id, Some(p2));
    assert!(snap.connections[0].is_pooled);
    assert!(!snap.connections[0].has_active_transaction);
    assert_eq!(snap.connections[1].id, c2);
    assert_eq!(snap.connections[1].pool_id, None);
    assert!(!snap.connections[1].is_pooled);
    assert!(snap.connections[1].has_active_transaction);
}

#[test]
fn clearing_bypasses_holders_and_keeps_handles_fresh() {
    let mut reg = Registry::new();
    let p = store_pool(&mut reg, "p", &config("a", None));
    store_pool(&mut reg, "p", &config("a", None));
    let c = store_conn(&mut reg, "c", Some(p));
    remove_all_conns(&mut reg);
    assert!(get_conn(&reg, c).is_err());
    assert!(get_pool(&reg, p).is_ok());
    remove_all_pools(&mut reg);
    assert!(get_pool(&reg, p).is_err());
    assert_eq!(store_pool(&mut reg, "q", &config("a", None)), p + 1);
    assert_eq!(store_conn(&mut reg, "d", None), c + 1);
    clear_all(&mut reg);
    let snap = diagnostic_snapshot(&reg);
    assert!(snap.pools.is_empty() && snap.connections.is_empty());
}

#[test]
fn handle_entries_record_errors() {
    let mut p = PoolHandle { pool: 1u8, last_error: None, ref_count: 1, dedup_key: String::new() };
    p.set_error("e".to_string());
    assert_eq!(p.last_error.as_deref(), Some("e"));
    let mut c = ConnHandle {
        client: Some(1u8),
        pool_id: None,
        last_error: Some("old".to_string()),
        active_transaction: None,
    };
    c.set_error("new".to_string());
    assert_eq!(c.last_error.as_deref(), Some("new"));
    assert_eq!(c.client, Some(1));
}

#[test]
fn table_issues_each_handle_once() {
    let mut t: HandleTable<String> = HandleTable::new();
    assert_eq!(t.len(), 0);
    let a = t.insert("a".to_string());
    let b = t.insert("b".to_string());
    let c = t.insert("c".to_string());
    assert_eq!((a, b, c), (1, 2, 3));
    assert_eq!(t.get(b).map(|s| s.as_str()), Some("b"));
    assert!(t.get(0).is_none());
    assert!(t.contains(a) && !t.contains(4));
    assert_eq!(t.remove(b).as_deref(), Some("b"));
    assert_eq!(t.remove(b), None);
    assert_eq!(t.ids(), vec![1, 3]);
    assert_eq!(t.restore(b, "b2".to_string()), None);
    assert_eq!(t.restore(b, "again".to_string()), Some("again".to_string()));
    assert_eq!(t.restore(0, "zero".to_string()), Some("zero".to_string()));
    assert_eq!(t.restore(9, "late".to_string()), Some("late".to_string()));
    assert_eq!(t.ids(), vec![1, 2, 3]);
    assert_eq!(t.get(b).map(|s| s.as_str()), Some("b2"));
    assert_eq!(t.insert("d".to_string()), 4);
    t.clear();
    assert_eq!(t.len(), 0);
    assert_eq!(t.insert("e".to_string()), 5);
}
