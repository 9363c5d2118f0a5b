use record_store::record::Record;
use record_store::store::{Direction, Store};
use std::sync::{Arc, Mutex};

#[test]
fn concurrent_ingests_lose_no_record() {
    let m: usize = 8;
    let rt = tokio::runtime::Runtime::new().expect("runtime");
    rt.block_on(async {
        let store = Arc::new(Mutex::new(Store::new()));
        let mut handles = Vec::new();
        for k in 0..m {
            let shared = store.clone();
            handles.push(tokio::spawn(async move {
                let mut guard = shared.lock().expect("lock");
                guard.ingest(Record::new(
                    format!("id{}", k),
                    "brand".to_owned(),
                    "name".to_owned(),
                    k as i64,
                ));
            }));
        }
        for h in handles {
            h.await.expect("ingest task");
        }

        let mut guard = store.lock().expect("lock");
        assert_eq!(guard.len(), m);
        assert_eq!(guard.cursor(), m);

        // Every id is retrievable by walking the whole order.
        let mut seen = Vec::new();
        guard.navigate(Direction::First);
        seen.push(guard.show().expect("record at position 1").id);
        for _ in 1..m {
            guard.navigate(Direction::Next);
            seen.push(guard.show().expect("a record at every position").id);
        }
        seen.sort();
        let mut expected: Vec<String> = (0..m).map(|k| format!("id{}", k)).collect();
        expected.sort();
        assert_eq!(seen, expected);
    });
}
