use keg_tracker::keg::Keg;
use keg_tracker::tracker::{KegError, KegTracker};

fn find(t: &KegTracker, id: u32) -> &Keg {
    t.list_kegs().iter().find(|k| k.id() == id).expect("keg listed")
}

#[test]
fn lager_scenario() {
    let mut t = KegTracker::new();
    let id = t.add_keg("Lager".to_string(), 15000, "Cooler A".to_string(), 100);
    assert_eq!(id, 1);
    assert_eq!(find(&t, 1).current_volume(), 15000);
    assert_eq!(t.update_keg(1, 10000, 200), Ok(()));
    assert_eq!(find(&t, 1).current_volume(), 10000);
    assert_eq!(t.update_keg(1, 20000, 300), Err(KegError::ExceedsCapacity));
    assert_eq!(find(&t, 1).current_volume(), 10000);
    assert_eq!(t.update_keg(2, 5000, 400), Err(KegError::NotFound));
    let all = t.list_kegs();
    assert_eq!(all.len(), 1);
    let k = &all[0];
    assert_eq!(k.id(), 1);
    assert_eq!(k.beer_type(), "Lager");
    assert_eq!(k.size(), 15000);
    assert_eq!(k.current_volume(), 10000);
    assert_eq!(k.location(), "Cooler A");
    assert_eq!(k.last_updated(), 200);
}

#[test]
fn ids_increase_and_kegs_start_full() {
    let mut t = KegTracker::new();
    let a = t.add_keg("Stout".to_string(), 5000, "Bar".to_string(), 1);
    let b = t.add_keg("Pils".to_string(), 7500, "Back".to_string(), 2);
    let c = t.add_keg("IPA".to_string(), 2500, "Bar".to_string(), 3);
    assert_eq!((a, b, c), (1, 2, 3));
    assert!(a < b && b < c);
    assert_eq!(t.next_id(), 4);
    for k in t.list_kegs() {
        assert_eq!(k.current_volume(), k.size());
    }
}

#[test]
fn zero_and_negative_capacity_accepted() {
    let mut t = KegTracker::new();
    let z = t.add_keg(String::new(), 0, String::new(), 5);
    let n = t.add_keg("x".to_string(), -2000, "y".to_string(), 6);
    assert_eq!(find(&t, z).size(), 0);
    assert_eq!(find(&t, z).current_volume(), 0);
    assert_eq!(find(&t, n).size(), -2000);
    assert_eq!(find(&t, n).current_volume(), -2000);
    assert_eq!(find(&t, z).beer_type(), "");
    assert_eq!(find(&t, z).last_updated(), 5);
}

#[test]
fn negative_fill_accepted_and_capacity_is_inclusive() {
    let mut t = KegTracker::new();
    let id = t.add_keg("Ale".to_string(), 10000, "Cellar".to_string(), 1);
    assert_eq!(t.update_keg(id, -500, 2), Ok(()));
    assert_eq!(find(&t, id).current_volume(), -500);
    assert_eq!(t.update_keg(id, 10000, 3), Ok(()));
    assert_eq!(find(&t, id).current_volume(), 10000);
    assert_eq!(t.update_keg(id, 10001, 4), Err(KegError::ExceedsCapacity));
    assert_eq!(find(&t, id).current_volume(), 10000);
    assert_eq!(find(&t, id).last_updated(), 3);
}

#[test]
fn missing_id_changes_nothing() {
    let mut t = KegTracker::new();
    assert_eq!(t.update_keg(1, 0, 1), Err(KegError::NotFound));
    assert_eq!(t.update_keg(0, 0, 1), Err(KegError::NotFound));
    assert!(t.list_kegs().is_empty());
    t.add_keg("Ale".to_string(), 100, "A".to_string(), 1);
    assert_eq!(t.update_keg(7, 50, 2), Err(KegError::NotFound));
    let k = find(&t, 1);
    assert_eq!((k.current_volume(), k.last_updated()), (100, 1));
    assert_eq!(t.next_id(), 2);
}

#[test]
fn listing_after_creations() {
    let mut t = KegTracker::new();
    assert_eq!(t.list_kegs().len(), 0);
    let names = ["A", "B", "C", "D", "E"];
    for (i, n) in names.iter().enumerate() {
        t.add_keg(n.to_string(), (i as i64 + 1) * 1000, format!("L{}", i), i as u64);
    }
    let all = t.list_kegs();
    assert_eq!(all.len(), 5);
    for (i, n) in names.iter().enumerate() {
        let k = find(&t, i as u32 + 1);
        assert_eq!(k.beer_type(), *n);
        assert_eq!(k.size(), (i as i64 + 1) * 1000);
        assert_eq!(k.current_volume(), k.size());
        assert_eq!(k.location(), format!("L{}", i));
        assert_eq!(k.last_updated(), i as u64);
    }
}

#[test]
fn same_update_twice() {
    let mut t = KegTracker::new();
    let id = t.add_keg("Porter".to_string(), 8000, "B".to_string(), 1);
    assert_eq!(t.update_keg(id, 3000, 2), Ok(()));
    let first = (find(&t, id).current_volume(), find(&t, id).size());
    assert_eq!(t.update_keg(id, 3000, 9), Ok(()));
    let second = (find(&t, id).current_volume(), find(&t, id).size());
    assert_eq!(first, second);
    assert_eq!(find(&t, id).last_updated(), 9);
    assert_eq!(t.update_keg(id, 9000, 10), Err(KegError::ExceedsCapacity));
    assert_eq!(t.update_keg(id, 9000, 11), Err(KegError::ExceedsCapacity));
    assert_eq!(find(&t, id).current_volume(), 3000);
}

#[test]
fn error_messages() {
    assert_eq!(KegError::NotFound.message(), "Keg not found");
    assert_eq!(KegError::ExceedsCapacity.message(), "Volume cannot exceed keg size");
}
