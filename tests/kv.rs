use kv_store::{
    insert_outcome, retrieve_reply, row_outcome, store_reply, AdmissionController, Code, DBError,
    Handled, MemService, MemStore, StoreError, TokenBucket, Verdict,
};

#[test]
fn scenario_put_put_get_get() {
    let mut s = MemStore::new();
    assert!(s.put("a", "1").is_ok());
    assert!(matches!(s.put("a", "2"), Err(StoreError::KeyAlreadyExists(_))));
    assert_eq!(s.get("a").ok(), Some("1".to_string()));
    assert!(matches!(s.get("b"), Err(StoreError::KeyNotFound(_))));
}

#[test]
fn scenario_through_service() {
    let mut svc = MemService::new(AdmissionController::bounded(10));
    assert!(matches!(svc.store(0, "a", "1"), Handled::Done(Ok(()))));
    match svc.store(0, "a", "2") {
        Handled::Done(Err(e)) => assert_eq!(e.code, Code::AlreadyExists),
        _ => panic!("expected a conflict"),
    }
    match svc.retrieve(0, "a") {
        Handled::Done(Ok(v)) => assert_eq!(v, "1"),
        _ => panic!("expected the value"),
    }
    match svc.retrieve(0, "b") {
        Handled::Done(Err(e)) => {
            assert_eq!(e.code, Code::NotFound);
            assert_eq!(e.message, "Key not found");
        }
        _ => panic!("expected not found"),
    }
}

#[test]
fn second_put_keeps_first_value() {
    let mut s = MemStore::new();
    s.put("k", "v1").unwrap();
    for v in ["v2", "", "v1", "other"] {
        match s.put("k", v) {
            Err(e) => {
                assert!(matches!(e, StoreError::KeyAlreadyExists(_)));
                assert_eq!(e.message(), "key already exists");
            }
            Ok(()) => panic!("second put succeeded"),
        }
    }
    assert_eq!(s.get("k").ok(), Some("v1".to_string()));
}

#[test]
fn round_trip_returns_value_exactly() {
    let mut s = MemStore::new();
    let pairs = [("x", "hello"), ("", "empty key"), ("y", ""), ("ключ", "значение")];
    for (k, v) in pairs {
        s.put(k, v).unwrap();
    }
    for (k, v) in pairs {
        assert_eq!(s.get(k).ok(), Some(v.to_string()));
    }
}

#[test]
fn never_written_key_is_not_found() {
    let mut s = MemStore::new();
    assert!(matches!(s.get("a"), Err(StoreError::KeyNotFound(_))));
    s.put("a", "1").unwrap();
    s.put("ab", "2").unwrap();
    match s.get("b") {
        Err(e) => assert_eq!(e.message(), "Key not found"),
        Ok(_) => panic!("found a key never written"),
    }
}

#[test]
fn many_puts_of_one_key_have_one_winner() {
    for m in [1usize, 2, 7, 50] {
        let mut s = MemStore::new();
        let mut wins = 0;
        let mut conflicts = 0;
        for i in 0..m {
            match s.put("k", &i.to_string()) {
                Ok(()) => wins += 1,
                Err(StoreError::KeyAlreadyExists(_)) => conflicts += 1,
                Err(_) => panic!("unexpected error"),
            }
        }
        assert_eq!(wins, 1);
        assert_eq!(conflicts, m - 1);
        assert_eq!(s.get("k").ok(), Some("0".to_string()));
    }
}

#[test]
fn concurrency_bound_admits_max_then_waits() {
    let n = 3;
    let mut c = AdmissionController::bounded(n);
    for _ in 0..n {
        assert_eq!(c.try_admit(0), Verdict::Granted);
    }
    assert_eq!(c.try_admit(0), Verdict::Suspend);
    c.release();
    assert_eq!(c.try_admit(0), Verdict::Granted);
    assert_eq!(c.try_admit(0), Verdict::Suspend);
}

#[test]
fn concurrency_release_without_admission_is_harmless() {
    let mut c = AdmissionController::bounded(1);
    c.release();
    assert_eq!(c.try_admit(5), Verdict::Granted);
    assert_eq!(c.try_admit(5), Verdict::Suspend);
}

#[test]
fn zero_max_never_admits() {
    let mut c = AdmissionController::bounded(0);
    assert_eq!(c.try_admit(0), Verdict::Suspend);
}

#[test]
fn token_bucket_without_refill_admits_capacity() {
    let cap = 4;
    let mut c = AdmissionController::token_bucket(cap, cap, 0, 100, 0);
    for t in 0..cap {
        assert_eq!(c.try_admit(t * 1000), Verdict::Granted);
    }
    assert_eq!(c.try_admit(1_000_000), Verdict::Suspend);
    c.release();
    assert_eq!(c.try_admit(u64::MAX), Verdict::Suspend);
}

#[test]
fn token_bucket_waits_for_next_refill() {
    let mut b = TokenBucket::new(10, 0, 2, 100, 1000);
    assert_eq!(b.try_admit(1000), Verdict::WaitUntil(1100));
    assert_eq!(b.try_admit(1099), Verdict::WaitUntil(1100));
    assert_eq!(b.try_admit(1150), Verdict::Granted);
    assert_eq!(b.tokens(), 1);
    assert_eq!(b.try_admit(1150), Verdict::Granted);
    assert_eq!(b.try_admit(1150), Verdict::WaitUntil(1200));
}

#[test]
fn token_bucket_refill_is_capped() {
    let mut b = TokenBucket::new(5, 0, 2, 10, 0);
    assert_eq!(b.try_admit(1_000_000), Verdict::Granted);
    assert_eq!(b.tokens(), 4);
    assert_eq!(b.capacity(), 5);
}

#[test]
fn token_bucket_initial_is_capped() {
    let b = TokenBucket::new(3, 9, 1, 1, 0);
    assert_eq!(b.tokens(), 3);
}

#[test]
fn token_bucket_keeps_partial_interval() {
    let mut b = TokenBucket::new(10, 0, 1, 100, 0);
    // 250 units: two whole intervals, 50 carried over
    assert_eq!(b.try_admit(250), Verdict::Granted);
    assert_eq!(b.try_admit(250), Verdict::Granted);
    assert_eq!(b.try_admit(250), Verdict::WaitUntil(300));
    assert_eq!(b.try_admit(300), Verdict::Granted);
}

#[test]
fn token_bucket_near_end_of_time_suspends() {
    let mut b = TokenBucket::new(1, 0, 1, 10, u64::MAX - 5);
    assert_eq!(b.try_admit(u64::MAX), Verdict::Suspend);
}

#[test]
fn service_defers_when_not_admitted() {
    let mut svc = MemService::new(AdmissionController::token_bucket(1, 1, 1, 100, 0));
    assert!(matches!(svc.store(0, "a", "1"), Handled::Done(Ok(()))));
    assert!(matches!(svc.retrieve(10, "a"), Handled::Deferred(Verdict::WaitUntil(100))));
    assert!(matches!(svc.store(20, "b", "2"), Handled::Deferred(Verdict::WaitUntil(100))));
    match svc.retrieve(100, "b") {
        Handled::Done(Err(e)) => assert_eq!(e.code, Code::NotFound),
        _ => panic!("expected not found"),
    }
}

#[test]
fn insert_failure_is_a_conflict() {
    assert!(insert_outcome(Ok(())).is_ok());
    match insert_outcome(Err("UNIQUE constraint failed".to_string())) {
        Err(StoreError::KeyAlreadyExists(m)) => assert_eq!(m, "UNIQUE constraint failed"),
        _ => panic!("expected a conflict"),
    }
}

#[test]
fn row_outcomes() {
    assert_eq!(
        row_outcome(Ok(vec!["v".to_string(), "w".to_string()])).ok(),
        Some("v".to_string())
    );
    match row_outcome(Ok(vec![])) {
        Err(StoreError::KeyNotFound(m)) => assert_eq!(m, "Key not found"),
        _ => panic!("expected not found"),
    }
    match row_outcome(Err("no rows returned".to_string())) {
        Err(StoreError::KeyNotFound(m)) => assert_eq!(m, "no rows returned"),
        _ => panic!("expected not found"),
    }
}

#[test]
fn replies_carry_store_messages() {
    assert!(store_reply(Ok(())).is_ok());
    let e = store_reply(Err(StoreError::BackingStoreUnavailable("down".to_string()))).unwrap_err();
    assert_eq!(e.code, Code::AlreadyExists);
    assert_eq!(e.message, "down");
    assert_eq!(retrieve_reply(Ok("v".to_string())).ok(), Some("v".to_string()));
    let e = retrieve_reply(Err(StoreError::KeyNotFound("gone".to_string()))).unwrap_err();
    assert_eq!(e.code, Code::NotFound);
    assert_eq!(e.message, "gone");
}

#[test]
fn db_error_messages() {
    let e = DBError::CreateDatabaseFailed("disk full".to_string());
    assert_eq!(e.message(), "CreateDatabaseFailed(\"disk full\")");
    let e = DBError::CreateTableFailed("no such table".to_string());
    assert_eq!(e.message(), "CreateTableFailed(\"no such table\")");
    assert_eq!(e.message(), format!("{:?}", e));
}

#[test]
fn db_error_message_escapes_cause() {
    let e = DBError::CreateTableFailed("say \"hi\"\n".to_string());
    assert_eq!(e.message(), "CreateTableFailed(\"say \\\"hi\\\"\\n\")");
    assert_eq!(e.message(), format!("{:?}", e));
}

#[test]
fn db_error_render_uses_given_quoting() {
    let e = DBError::CreateDatabaseFailed("ignored".to_string());
    assert_eq!(e.render("<q>"), "CreateDatabaseFailed(<q>)");
}

#[test]
fn zero_capacity_bucket_suspends() {
    let mut b = TokenBucket::new(0, 0, 5, 10, 0);
    assert_eq!(b.try_admit(0), Verdict::Suspend);
    assert_eq!(b.try_admit(1000), Verdict::Suspend);
}
