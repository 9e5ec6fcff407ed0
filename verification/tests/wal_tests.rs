use tiny_mp_cache::error::CacheError;
use tiny_mp_cache::persistent::PersistentCore;
use tiny_mp_cache::protocol::frame;
use tiny_mp_cache::store::CacheCore;
use tiny_mp_cache::wal::{apply, read_log, replay, WalRecord};

fn torn() -> CacheError {
    CacheError::Internal("read WAL rec: failed to fill whole buffer".to_string())
}

fn put(key: &str, value: &[u8]) -> WalRecord {
    WalRecord::Put(key.to_string(), value.to_vec())
}

#[test]
fn read_log_of_empty_file() {
    assert_eq!(read_log(&[]), Ok(Vec::new()));
}

#[test]
fn read_log_returns_payloads_in_order() {
    let mut log = frame(&[1, 2, 3]);
    log.extend(frame(&[]));
    log.extend(frame(&[9]));
    assert_eq!(read_log(&log), Ok(vec![vec![1, 2, 3], vec![], vec![9]]));
}

#[test]
fn read_log_of_one_frame() {
    assert_eq!(read_log(&[2, 0, 0, 0, 7, 8]), Ok(vec![vec![7, 8]]));
}

#[test]
fn read_log_stops_at_a_partial_length_prefix() {
    let mut log = frame(&[1, 2, 3]);
    log.extend([5, 0]);
    assert_eq!(read_log(&log), Ok(vec![vec![1, 2, 3]]));
    assert_eq!(read_log(&[1]), Ok(Vec::new()));
    assert_eq!(read_log(&[1, 0, 0]), Ok(Vec::new()));
}

#[test]
fn read_log_rejects_a_truncated_record() {
    let mut log = frame(&[1, 2, 3]);
    log.extend([5, 0, 0, 0, 1, 2]);
    assert_eq!(read_log(&log), Err(torn()));
    assert_eq!(read_log(&[1, 0, 0, 0]), Err(torn()));
    assert_eq!(read_log(&[255, 255, 255, 255, 0]), Err(torn()));
}

#[test]
fn read_log_reads_back_appended_frames() {
    let payloads: Vec<Vec<u8>> = (0..50u32)
        .map(|i| (0..i).map(|b| (b * 7 % 256) as u8).collect())
        .collect();
    let mut log: Vec<u8> = Vec::new();
    for payload in &payloads {
        log.extend(frame(payload));
    }
    assert_eq!(read_log(&log), Ok(payloads));
}

#[test]
fn apply_put_del_pop() {
    let mut store = CacheCore::new();
    apply(&mut store, put("a", &[1]));
    apply(&mut store, put("b", &[2]));
    assert_eq!(store.get("a"), Some(vec![1]));
    apply(&mut store, WalRecord::Del("a".to_string()));
    assert_eq!(store.get("a"), None);
    apply(&mut store, WalRecord::Pop("b".to_string()));
    assert_eq!(store.get("b"), None);
    apply(&mut store, WalRecord::Pop("missing".to_string()));
    assert_eq!(store.len(), 0);
}

#[test]
fn replay_applies_records_oldest_first() {
    let mut store = CacheCore::new();
    replay(
        &mut store,
        vec![
            put("k", &[1]),
            put("k", &[2]),
            put("gone", &[3]),
            WalRecord::Del("gone".to_string()),
            put("popped", &[4]),
            WalRecord::Pop("popped".to_string()),
            put("late", &[5]),
        ],
    );
    assert_eq!(store.get("k"), Some(vec![2]));
    assert_eq!(store.get("gone"), None);
    assert_eq!(store.get("popped"), None);
    assert_eq!(store.get("late"), Some(vec![5]));
    assert_eq!(store.len(), 2);
}

#[test]
fn replay_of_nothing_keeps_the_store() {
    let mut store = CacheCore::new();
    store.set("a".to_string(), vec![1]);
    replay(&mut store, Vec::new());
    assert_eq!(store.get("a"), Some(vec![1]));
    assert_eq!(store.len(), 1);
}

#[test]
fn replay_order_matters() {
    let mut first = CacheCore::new();
    replay(&mut first, vec![put("k", &[1]), WalRecord::Del("k".to_string())]);
    assert_eq!(first.get("k"), None);
    let mut second = CacheCore::new();
    replay(&mut second, vec![WalRecord::Del("k".to_string()), put("k", &[1])]);
    assert_eq!(second.get("k"), Some(vec![1]));
}

#[test]
fn duplicate_copies_a_record() {
    let record = put("k", &[1, 2, 3]);
    assert_eq!(record.duplicate(), record);
    let record = WalRecord::Del("d".to_string());
    assert_eq!(record.duplicate(), WalRecord::Del("d".to_string()));
    let record = WalRecord::Pop("p".to_string());
    assert_eq!(record.duplicate(), WalRecord::Pop("p".to_string()));
}

#[test]
fn persistent_store_starts_from_its_log() {
    let store = PersistentCore::new(vec![
        put("a", &[1]),
        put("b", &[2]),
        WalRecord::Pop("a".to_string()),
    ]);
    assert_eq!(store.get("a"), None);
    assert_eq!(store.get("b"), Some(vec![2]));
    assert_eq!(store.len(), 1);
}

#[test]
fn persistent_store_without_log_is_empty() {
    let store = PersistentCore::new(Vec::new());
    assert_eq!(store.len(), 0);
    assert!(store.keys_prefix("").is_empty());
}

#[test]
fn persistent_scenario() {
    let mut store = PersistentCore::new(Vec::new());
    assert_eq!(store.set("x".to_string(), vec![1, 2, 3], Ok(())), Ok(()));
    assert_eq!(store.len(), 1);
    assert_eq!(store.get("x"), Some(vec![1, 2, 3]));
    assert_eq!(store.pop("x", Ok(())), Ok(Some(vec![1, 2, 3])));
    assert_eq!(store.len(), 0);
    assert_eq!(store.get("x"), None);
    assert_eq!(store.delete("x", Ok(())), Ok(0));
}

#[test]
fn failed_append_leaves_set_unapplied() {
    let mut store = PersistentCore::new(vec![put("a", &[1])]);
    let failure = CacheError::Internal("write WAL: disk full".to_string());
    assert_eq!(
        store.set("b".to_string(), vec![2], Err(failure)),
        Err(CacheError::Internal("write WAL: disk full".to_string()))
    );
    assert_eq!(store.get("b"), None);
    assert_eq!(store.get("a"), Some(vec![1]));
    assert_eq!(store.len(), 1);
}

#[test]
fn failed_append_leaves_overwrite_unapplied() {
    let mut store = PersistentCore::new(vec![put("a", &[1])]);
    let failure = CacheError::Serialization("cannot encode".to_string());
    assert_eq!(
        store.set("a".to_string(), vec![9], Err(failure)),
        Err(CacheError::Serialization("cannot encode".to_string()))
    );
    assert_eq!(store.get("a"), Some(vec![1]));
}

#[test]
fn failed_append_leaves_pop_unapplied() {
    let mut store = PersistentCore::new(vec![put("a", &[1])]);
    let failure = CacheError::Internal("WAL mutex poisoned".to_string());
    assert_eq!(
        store.pop("a", Err(failure)),
        Err(CacheError::Internal("WAL mutex poisoned".to_string()))
    );
    assert_eq!(store.get("a"), Some(vec![1]));
    assert_eq!(store.len(), 1);
}

#[test]
fn failed_append_leaves_delete_unapplied() {
    let mut store = PersistentCore::new(vec![put("a", &[1])]);
    let failure = CacheError::Internal("write WAL: broken".to_string());
    assert_eq!(
        store.delete("a", Err(failure)),
        Err(CacheError::Internal("write WAL: broken".to_string()))
    );
    assert_eq!(store.get("a"), Some(vec![1]));
    assert_eq!(store.len(), 1);
}

#[test]
fn persistent_delete_and_pop_report_what_they_found() {
    let mut store = PersistentCore::new(vec![put("a", &[1]), put("b", &[2])]);
    assert_eq!(store.delete("a", Ok(())), Ok(1));
    assert_eq!(store.delete("a", Ok(())), Ok(0));
    assert_eq!(store.pop("b", Ok(())), Ok(Some(vec![2])));
    assert_eq!(store.pop("b", Ok(())), Ok(None));
    assert_eq!(store.len(), 0);
}

#[test]
fn persistent_prefix_scan() {
    let mut store = PersistentCore::new(Vec::new());
    assert_eq!(store.set("a:1".to_string(), vec![1], Ok(())), Ok(()));
    assert_eq!(store.set("a:2".to_string(), vec![2], Ok(())), Ok(()));
    assert_eq!(store.set("b:1".to_string(), vec![3], Ok(())), Ok(()));
    let mut keys = store.keys_prefix("a:");
    keys.sort();
    assert_eq!(keys, vec!["a:1".to_string(), "a:2".to_string()]);
    assert_eq!(store.keys_prefix("").len(), 3);
}

#[test]
fn recovery_rebuilds_the_state_of_the_appended_operations() {
    let mut log: Vec<WalRecord> = Vec::new();
    let mut live = PersistentCore::new(Vec::new());

    log.push(put("a", &[1]));
    assert_eq!(live.set("a".to_string(), vec![1], Ok(())), Ok(()));
    log.push(put("b", &[2, 2]));
    assert_eq!(live.set("b".to_string(), vec![2, 2], Ok(())), Ok(()));
    log.push(WalRecord::Pop("a".to_string()));
    assert_eq!(live.pop("a", Ok(())), Ok(Some(vec![1])));
    log.push(put("c", &[3]));
    assert_eq!(live.set("c".to_string(), vec![3], Ok(())), Ok(()));
    log.push(WalRecord::Del("missing".to_string()));
    assert_eq!(live.delete("missing", Ok(())), Ok(0));
    // an operation whose append failed is in neither
    assert!(live
        .set(
            "lost".to_string(),
            vec![9],
            Err(CacheError::Internal("write WAL: torn".to_string()))
        )
        .is_err());

    let rebuilt = PersistentCore::new(log);
    assert_eq!(rebuilt.len(), live.len());
    assert_eq!(rebuilt.len(), 2);
    for key in ["a", "b", "c", "missing", "lost"] {
        assert_eq!(rebuilt.get(key), live.get(key));
    }
    assert_eq!(rebuilt.get("b"), Some(vec![2, 2]));
    assert_eq!(rebuilt.get("c"), Some(vec![3]));
}
