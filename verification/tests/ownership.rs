use variant_bridge::bridge::Bridge;
use variant_bridge::cell::{LockState, OwnershipMode, Projection, Target};
use variant_bridge::error::BridgeError;
use variant_bridge::record::Record;
use variant_bridge::value::{Allele, Value};

fn record(id: &str) -> Record {
    let mut r = Record::new(id, Some("1"), 9, 1, "A", vec!["T".to_string()], vec![]).unwrap();
    r.push_sample(vec![Allele::Unphased(0), Allele::Unphased(1)]);
    r
}

fn child(b: &mut Bridge, parent: usize, name: &str) -> usize {
    match b.get_property(parent, name).unwrap() {
        Value::Handle(h) => h,
        other => panic!("not a handle: {:?}", other),
    }
}

#[test]
fn shared_root_is_released_by_its_last_handle() {
    let mut b = Bridge::standard();
    let h = b.wrap(record("a"), OwnershipMode::OwnedShared).unwrap();
    assert_eq!(h, 0);
    assert_eq!(b.root(h), Some(Target::Shared(0)));
    assert_eq!(b.owners(0), Some(1));
    assert!(b.finalize(h));
    assert_eq!(b.owners(0), Some(0));
    assert!(!b.is_live(h));
    assert_eq!(b.get_property(h, "start"), Err(BridgeError::StaleHandle));
}

#[test]
fn finalize_is_idempotent() {
    let mut b = Bridge::standard();
    let h = b.wrap(record("a"), OwnershipMode::OwnedShared).unwrap();
    let other = b.wrap(record("b"), OwnershipMode::OwnedShared).unwrap();
    assert!(b.finalize(h));
    assert!(!b.finalize(h));
    assert!(!b.finalize(h));
    assert!(!b.finalize(77));
    assert_eq!(b.owners(0), Some(0));
    assert_eq!(b.owners(1), Some(1));
    assert!(b.is_live(other));
    assert_eq!(b.live_handles(), 1);
    assert_eq!(b.handle_count(), 2);
}

#[test]
fn child_keeps_its_parent_and_the_record_alive() {
    let mut b = Bridge::standard();
    let rec = b.wrap(record("a"), OwnershipMode::OwnedShared).unwrap();
    let info = child(&mut b, rec, "INFO");
    assert_eq!(b.handle(rec).unwrap().children, 1);
    assert_eq!(
        b.handle(info).unwrap().target,
        Target::Child { parent: rec, projection: Projection::Info }
    );
    assert!(b.finalize(rec));
    assert_eq!(b.owners(0), Some(1));
    assert_eq!(
        b.call_method(info, "set", &vec![Value::Str("DP".to_string()), Value::Int(3)]),
        Ok(Value::Null)
    );
    assert_eq!(
        b.call_method(info, "get", &vec![Value::Str("DP".to_string())]),
        Ok(Value::Int(3))
    );
    assert!(b.finalize(info));
    assert_eq!(b.owners(0), Some(0));
    assert_eq!(b.handle(rec).unwrap().children, 0);
    assert!(!b.finalize(info));
    assert_eq!(b.owners(0), Some(0));
}

#[test]
fn release_runs_up_a_chain_of_parents() {
    let mut b = Bridge::standard();
    let rec = b.wrap(record("a"), OwnershipMode::OwnedShared).unwrap();
    let matrix = child(&mut b, rec, "genotypes");
    let row = match b.get_index(matrix, 1).unwrap() {
        Value::Handle(h) => h,
        other => panic!("not a handle: {:?}", other),
    };
    let second = match b.get_index(matrix, 1).unwrap() {
        Value::Handle(h) => h,
        other => panic!("not a handle: {:?}", other),
    };
    assert_ne!(row, second);
    assert_eq!(b.handle(matrix).unwrap().children, 2);
    assert!(b.finalize(rec));
    assert!(b.finalize(matrix));
    assert_eq!(b.owners(0), Some(1));
    assert!(b.finalize(row));
    assert_eq!(b.owners(0), Some(1));
    assert_eq!(b.get_index(second, 2), Ok(Value::Allele(Allele::Unphased(1))));
    assert!(b.finalize(second));
    assert_eq!(b.owners(0), Some(0));
    assert_eq!(b.handle(matrix).unwrap().children, 0);
    assert_eq!(b.handle(rec).unwrap().children, 0);
    assert_eq!(b.live_handles(), 0);
    assert_eq!(b.root(second), None);
}

#[test]
fn host_stake_outlives_the_script() {
    let mut b = Bridge::standard();
    let h = b.wrap(record("a"), OwnershipMode::OwnedShared).unwrap();
    assert_eq!(b.host_retain(h), Some(0));
    assert_eq!(b.owners(0), Some(2));
    assert!(b.finalize(h));
    assert_eq!(b.owners(0), Some(1));
    assert_eq!(b.host_retain(h), None);
    assert!(b.host_lock(0));
    assert_eq!(b.host_snapshot(0).unwrap().id(), "a");
    assert!(b.host_unlock(0));
    assert!(b.host_release(0));
    assert_eq!(b.owners(0), Some(0));
    assert!(!b.host_release(0));
    assert!(!b.host_lock(0));
    assert_eq!(b.owners(0), Some(0));
    assert!(!b.host_release(5));
}

#[test]
fn wrap_never_makes_a_child() {
    let mut b = Bridge::standard();
    assert_eq!(b.wrap(record("a"), OwnershipMode::ChildReference), None);
    assert_eq!(b.handle_count(), 0);
    let h = b.wrap(record("a"), OwnershipMode::BorrowedScoped).unwrap();
    assert_eq!(b.handle(h).unwrap().mode(), OwnershipMode::BorrowedScoped);
    assert_eq!(b.root(h), Some(Target::Scoped(0)));
    assert_eq!(b.owners(0), None);
    let g = b.wrap(record("b"), OwnershipMode::OwnedShared).unwrap();
    assert_eq!(b.handle(g).unwrap().mode(), OwnershipMode::OwnedShared);
    assert_eq!(b.lock_state(0), Some(LockState::Free));
    assert_eq!(b.handle(9), None);
}

#[test]
fn many_handles_each_release_once() {
    let mut b = Bridge::standard();
    let mut roots = Vec::new();
    for i in 0..20 {
        let h = b.wrap(record("r"), OwnershipMode::OwnedShared).unwrap();
        let info = child(&mut b, h, "INFO");
        let matrix = child(&mut b, h, "genotypes");
        roots.push((i, h, info, matrix));
    }
    for (i, h, info, matrix) in roots.iter() {
        assert_eq!(b.owners(*i), Some(1));
        assert!(b.finalize(*matrix));
        assert!(b.finalize(*h));
        assert_eq!(b.owners(*i), Some(1));
        assert!(b.finalize(*info));
        assert_eq!(b.owners(*i), Some(0));
        assert!(!b.finalize(*h));
        assert!(!b.finalize(*info));
        assert!(!b.finalize(*matrix));
        assert_eq!(b.owners(*i), Some(0));
    }
    assert_eq!(b.live_handles(), 0);
}

#[test]
fn full_table_takes_no_more_handles() {
    let mut b = Bridge::with_limit(2);
    assert_eq!(b.limit(), 2);
    assert!(b.register_type(variant_bridge::descriptor::TypeTag::Record, variant_bridge::tables::record_table()));
    let h = b.wrap(record("a"), OwnershipMode::OwnedShared).unwrap();
    let info = child(&mut b, h, "INFO");
    assert_eq!(b.handle_count(), 2);
    assert_eq!(b.get_property(h, "INFO"), Err(BridgeError::Exhausted));
    assert_eq!(b.get_property(h, "genotypes"), Err(BridgeError::Exhausted));
    assert_eq!(b.get_property(h, "copy"), Err(BridgeError::Exhausted));
    assert_eq!(b.owners(1), None);
    assert_eq!(b.get_property(h, "start"), Ok(Value::Int(10)));
    assert_eq!(b.wrap(record("b"), OwnershipMode::OwnedShared), None);
    assert_eq!(b.wrap(record("b"), OwnershipMode::BorrowedScoped), None);
    assert_eq!(b.handle(h).unwrap().children, 1);
    assert!(b.finalize(info));
    assert_eq!(b.get_property(h, "INFO"), Err(BridgeError::Exhausted));
    assert_eq!(Bridge::new().limit(), usize::MAX);
    assert_eq!(Bridge::with_limit(0).wrap(record("c"), OwnershipMode::OwnedShared), None);
}

#[test]
fn bridge_is_disposed_after_its_handles() {
    let mut b = Bridge::standard();
    let h = b.wrap(record("a"), OwnershipMode::OwnedShared).unwrap();
    let info = child(&mut b, h, "INFO");
    assert!(b.finalize(h));
    let mut b = b.dispose().expect("a wrapper is left");
    assert_eq!(b.live_handles(), 1);
    assert!(b.finalize(info));
    assert!(b.dispose().is_none());
    assert!(Bridge::new().dispose().is_none());
}

fn holds_stake(b: &Bridge, h: usize) -> bool {
    let cell = b.handle(h).unwrap();
    cell.live || cell.children > 0
}

fn counts_agree(b: &Bridge, roots: usize, host: &Vec<usize>) {
    let n = b.handle_count();
    for r in 0..roots {
        let staked = (0..n)
            .filter(|&h| holds_stake(b, h) && b.handle(h).unwrap().target == Target::Shared(r))
            .count();
        assert_eq!(b.owners(r), Some(host[r] + staked));
    }
    for p in 0..n {
        let staked = (0..n)
            .filter(|&h| {
                holds_stake(b, h)
                    && matches!(b.handle(h).unwrap().target, Target::Child { parent, .. } if parent == p)
            })
            .count();
        assert_eq!(b.handle(p).unwrap().children, staked);
    }
}

#[test]
fn counts_follow_every_sequence_of_operations() {
    let mut b = Bridge::standard();
    let mut host: Vec<usize> = Vec::new();
    let mut released: Vec<bool> = Vec::new();
    let mut state: u64 = 0x2545_f491_4f6c_dd1d;
    let mut next = |bound: usize| -> usize {
        state = state.wrapping_mul(6364136223846793005).wrapping_add(1442695040888963407);
        ((state >> 33) as usize) % bound.max(1)
    };
    for _ in 0..400 {
        let n = b.handle_count();
        match next(6) {
            0 => {
                b.wrap(record("r"), OwnershipMode::OwnedShared).unwrap();
                host.push(0);
                released.push(false);
            }
            1 if n > 0 => {
                let h = next(n);
                let _ = b.get_property(h, if next(2) == 0 { "INFO" } else { "genotypes" });
            }
            2 if n > 0 => {
                let h = next(n);
                let _ = b.get_index(h, 1);
            }
            3 if n > 0 => {
                b.finalize(next(n));
            }
            4 if n > 0 => {
                if let Some(r) = b.host_retain(next(n)) {
                    host[r] += 1;
                }
            }
            5 if !host.is_empty() => {
                let r = next(host.len());
                if b.host_release(r) {
                    host[r] -= 1;
                }
            }
            _ => {}
        }
        counts_agree(&b, host.len(), &host);
        for r in 0..host.len() {
            if released[r] {
                assert_eq!(b.owners(r), Some(0));
            }
            if b.owners(r) == Some(0) {
                released[r] = true;
            }
        }
    }
    for h in 0..b.handle_count() {
        b.finalize(h);
    }
    for r in 0..host.len() {
        while b.host_release(r) {}
        assert_eq!(b.owners(r), Some(0));
    }
    assert_eq!(b.live_handles(), 0);
}
