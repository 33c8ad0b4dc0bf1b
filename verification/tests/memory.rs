use timed_cache::memory::{CacheFull, Memory};
use timed_cache::utils::unix_epoch_now;
use tokio::sync::mpsc::error::TryRecvError;

fn bounded(limit: usize) -> Memory<&'static str, i32> {
    Memory::new(limit, 0, None)
}

fn pause(millis: u64) {
    let runtime = tokio::runtime::Builder::new_current_thread().enable_time().build().unwrap();
    runtime.block_on(async {
        tokio::time::sleep(std::time::Duration::from_millis(millis)).await;
    });
}

#[test]
fn a_new_store_is_empty_and_keeps_its_settings() {
    let store: Memory<u8, u8> = Memory::new(3, 45, None);
    assert_eq!(store.len(), 0);
    assert_eq!(store.limit(), 3);
    assert_eq!(store.interval(), 45);
    assert_eq!(store.get_dead(1), None);
}

#[test]
fn add_then_get_returns_the_value() {
    let mut store = bounded(0);
    assert_eq!(store.add("k", 5, 60), Ok(()));
    assert_eq!(store.get("k"), Some(5));
}

#[test]
fn add_at_then_get_at_returns_the_value_through_the_last_second() {
    let mut store = bounded(0);
    assert_eq!(store.add_at("k", 5, 60, 1_000), Ok(()));
    assert_eq!(store.get_at("k", 1_000), Some(5));
    assert_eq!(store.get_at("k", 1_060), Some(5));
}

#[test]
fn get_at_hides_an_expired_value_without_a_sweep() {
    let mut store = bounded(0);
    store.add_at("k", 5, 60, 1_000).unwrap();
    assert_eq!(store.get_at("k", 1_061), None);
    assert_eq!(store.get_at("k", u64::MAX), None);
    assert_eq!(store.len(), 1);
}

#[test]
fn get_hides_a_value_once_its_lifetime_has_passed() {
    let mut store = bounded(0);
    store.add("k", 5, 1).unwrap();
    assert_eq!(store.get("k"), Some(5));
    pause(2_100);
    assert_eq!(store.get("k"), None);
    assert_eq!(store.get_dead("k"), Some(5));
    assert_eq!(store.len(), 1);
}

#[test]
fn get_of_a_missing_key_is_none() {
    let store = bounded(0);
    assert_eq!(store.get("nothing"), None);
    assert_eq!(store.get_at("nothing", 0), None);
}

#[test]
fn get_dead_ignores_expiry() {
    let mut store = bounded(0);
    store.add_at("k", 5, 60, 1_000).unwrap();
    assert_eq!(store.get_at("k", 2_000), None);
    assert_eq!(store.get_dead("k"), Some(5));
}

#[test]
fn get_dead_is_none_after_removal() {
    let mut store = bounded(0);
    store.add_at("k", 5, 60, 1_000).unwrap();
    store.remove("k");
    assert_eq!(store.get_dead("k"), None);
}

#[test]
fn get_dead_is_none_after_a_sweep_took_the_cell() {
    let mut store = bounded(0);
    store.add_at("k", 5, 60, 1_000).unwrap();
    store.clear_at(1_060);
    assert_eq!(store.get_dead("k"), Some(5));
    store.clear_at(1_061);
    assert_eq!(store.get_dead("k"), None);
}

#[test]
fn an_overwrite_drops_the_old_value() {
    let mut store = bounded(0);
    store.add_at("k", 5, 60, 1_000).unwrap();
    store.add_at("k", 6, 10, 1_000).unwrap();
    assert_eq!(store.len(), 1);
    assert_eq!(store.get_dead("k"), Some(6));
    assert_eq!(store.get_at("k", 1_010), Some(6));
    assert_eq!(store.get_at("k", 1_011), None);
}

#[test]
fn an_overwrite_revives_a_dead_key() {
    let mut store = bounded(0);
    store.add_at("k", 5, 1, 1_000).unwrap();
    assert_eq!(store.get_at("k", 1_500), None);
    store.add_at("k", 6, 60, 1_500).unwrap();
    assert_eq!(store.get_at("k", 1_500), Some(6));
}

#[test]
fn remove_returns_the_cell_and_then_nothing() {
    let mut store = bounded(0);
    store.add_at("k", 5, 60, 1_000).unwrap();
    let first = store.remove("k");
    assert_eq!(first.map(|cell| (cell.unwrap(), cell.expires_at())), Some((5, 1_060)));
    assert!(store.remove("k").is_none());
    assert_eq!(store.len(), 0);
}

#[test]
fn remove_takes_a_dead_cell_too() {
    let mut store = bounded(0);
    store.add_at("k", 5, 1, 1_000).unwrap();
    let cell = store.remove("k").unwrap();
    assert!(!cell.is_alive_at(5_000));
    assert_eq!(cell.unwrap(), 5);
}

#[test]
fn remove_of_a_missing_key_changes_nothing() {
    let mut store = bounded(0);
    store.add_at("k", 5, 60, 1_000).unwrap();
    assert!(store.remove("other").is_none());
    assert_eq!(store.len(), 1);
    assert_eq!(store.get_at("k", 1_000), Some(5));
}

#[test]
fn clear_at_removes_exactly_the_dead_cells() {
    let mut store = bounded(0);
    store.add_at("short", 1, 10, 1_000).unwrap();
    store.add_at("edge", 2, 20, 1_000).unwrap();
    store.add_at("long", 3, 30, 1_000).unwrap();
    store.clear_at(1_020);
    assert_eq!(store.len(), 2);
    assert_eq!(store.get_dead("short"), None);
    assert_eq!(store.get_at("edge", 1_020), Some(2));
    assert_eq!(store.get_at("long", 1_020), Some(3));
    store.clear_at(1_021);
    assert_eq!(store.len(), 1);
    assert_eq!(store.get_dead("edge"), None);
    assert_eq!(store.get_dead("long"), Some(3));
}

#[test]
fn clear_at_without_dead_cells_changes_nothing() {
    let mut store = bounded(0);
    store.add_at("a", 1, 10, 1_000).unwrap();
    store.add_at("b", 2, 20, 1_000).unwrap();
    store.clear_at(1_010);
    assert_eq!(store.len(), 2);
    assert_eq!(store.get_at("a", 1_010), Some(1));
    assert_eq!(store.get_at("b", 1_010), Some(2));
}

#[test]
fn clear_at_on_an_empty_store_is_harmless() {
    let mut store = bounded(2);
    store.clear_at(1_000);
    assert_eq!(store.len(), 0);
}

#[test]
fn clear_follows_the_clock() {
    let mut store = bounded(0);
    store.add_at("ancient", 1, 5, 0).unwrap();
    store.add("fresh", 2, 3_600).unwrap();
    store.clear();
    assert_eq!(store.len(), 1);
    assert_eq!(store.get_dead("ancient"), None);
    assert_eq!(store.get("fresh"), Some(2));
}

#[test]
fn a_full_store_refuses_the_next_insertion() {
    let mut store: Memory<u32, u32> = Memory::new(4, 0, None);
    for key in 0..4 {
        assert_eq!(store.add_at(key, key * 10, 3_600, 1_000), Ok(()));
    }
    assert_eq!(store.add_at(4, 40, 3_600, 1_000), Err(CacheFull));
    assert_eq!(store.len(), 4);
    assert_eq!(store.get_dead(4), None);
    for key in 0..4 {
        assert_eq!(store.get_at(key, 1_000), Some(key * 10));
    }
}

#[test]
fn a_full_store_refuses_even_an_overwrite() {
    let mut store = bounded(2);
    store.add_at("a", 1, 60, 1_000).unwrap();
    store.add_at("b", 2, 60, 1_000).unwrap();
    assert_eq!(store.add_at("a", 9, 60, 1_000), Err(CacheFull));
    assert_eq!(store.get_at("a", 1_000), Some(1));
}

#[test]
fn a_store_below_its_limit_accepts_an_overwrite() {
    let mut store = bounded(2);
    store.add_at("a", 1, 60, 1_000).unwrap();
    assert_eq!(store.add_at("a", 9, 60, 1_000), Ok(()));
    assert_eq!(store.len(), 1);
    assert_eq!(store.get_at("a", 1_000), Some(9));
}

#[test]
fn a_sweep_after_an_expiry_makes_room() {
    let mut store: Memory<u32, u32> = Memory::new(3, 0, None);
    store.add_at(0, 0, 5, 1_000).unwrap();
    store.add_at(1, 10, 3_600, 1_000).unwrap();
    store.add_at(2, 20, 3_600, 1_000).unwrap();
    assert_eq!(store.add_at(3, 30, 3_600, 1_005), Err(CacheFull));
    store.clear_at(1_006);
    assert_eq!(store.len(), 2);
    assert_eq!(store.add_at(3, 30, 3_600, 1_006), Ok(()));
    assert_eq!(store.len(), 3);
}

#[test]
fn a_full_store_sweeps_before_it_refuses() {
    let mut store = bounded(2);
    store.add_at("a", 1, 5, 1_000).unwrap();
    store.add_at("b", 2, 5, 1_000).unwrap();
    assert_eq!(store.add_at("c", 3, 60, 1_006), Ok(()));
    assert_eq!(store.len(), 1);
    assert_eq!(store.get_dead("a"), None);
    assert_eq!(store.get_dead("b"), None);
    assert_eq!(store.get_at("c", 1_006), Some(3));
}

#[test]
fn a_store_with_room_does_not_sweep_on_insertion() {
    let mut store = bounded(3);
    store.add_at("a", 1, 5, 1_000).unwrap();
    assert_eq!(store.add_at("b", 2, 60, 1_006), Ok(()));
    assert_eq!(store.len(), 2);
    assert_eq!(store.get_dead("a"), Some(1));
}

#[test]
fn an_unbounded_store_accepts_everything() {
    let mut store: Memory<u32, u32> = Memory::new(0, 0, None);
    for key in 0..500 {
        assert_eq!(store.add_at(key, key, 1, 1_000), Ok(()));
    }
    assert_eq!(store.len(), 500);
    assert_eq!(store.add_at(500, 500, 1, 9_000), Ok(()));
    assert_eq!(store.len(), 501);
}

#[test]
fn add_follows_the_clock() {
    let mut store = bounded(1);
    let before = unix_epoch_now();
    store.add("k", 5, 100).unwrap();
    let after = unix_epoch_now();
    let cell = store.remove("k").unwrap();
    assert!(before + 100 <= cell.expires_at() && cell.expires_at() <= after + 100);
}

#[test]
fn add_sweeps_by_the_clock_when_full() {
    let mut store = bounded(1);
    store.add_at("ancient", 1, 5, 0).unwrap();
    assert_eq!(store.add("fresh", 2, 3_600), Ok(()));
    assert_eq!(store.len(), 1);
    assert_eq!(store.add("more", 3, 3_600), Err(CacheFull));
    assert_eq!(store.get("fresh"), Some(2));
}

#[test]
fn budget_for_two_scenario() {
    let mut store: Memory<&'static str, i32> = Memory::new(2, 0, None);
    assert_eq!(store.add_at("a", 1, 1, 1_000), Ok(()));
    assert_eq!(store.add_at("b", 2, 60, 1_000), Ok(()));
    assert_eq!(store.add_at("c", 3, 60, 1_000), Err(CacheFull));
    store.clear_at(1_002);
    assert_eq!(store.add_at("c", 3, 60, 1_002), Ok(()));
    assert_eq!(store.get_at("a", 1_002), None);
    assert_eq!(store.get_at("b", 1_002), Some(2));
    assert_eq!(store.get_at("c", 1_002), Some(3));
}

#[test]
fn budget_for_two_scenario_by_the_clock() {
    let mut store: Memory<String, i32> = Memory::new(2, 0, None);
    assert_eq!(store.add(String::from("a"), 1, 1), Ok(()));
    assert_eq!(store.add(String::from("b"), 2, 60), Ok(()));
    assert_eq!(store.add(String::from("c"), 3, 60), Err(CacheFull));
    pause(2_100);
    store.clear();
    assert_eq!(store.add(String::from("c"), 3, 60), Ok(()));
    assert_eq!(store.get(String::from("a")), None);
    assert_eq!(store.get(String::from("b")), Some(2));
    assert_eq!(store.get(String::from("c")), Some(3));
}

#[test]
fn evict_at_spares_a_live_cell() {
    let mut store = bounded(0);
    store.add_at("k", 5, 60, 1_000).unwrap();
    assert!(store.evict_at(&"k", 1_060).is_none());
    assert_eq!(store.len(), 1);
}

#[test]
fn evict_at_removes_a_dead_cell() {
    let mut store = bounded(0);
    store.add_at("k", 5, 60, 1_000).unwrap();
    let cell = store.evict_at(&"k", 1_061).unwrap();
    assert_eq!(cell.unwrap(), 5);
    assert_eq!(cell.expires_at(), 1_060);
    assert_eq!(store.len(), 0);
}

#[test]
fn evict_at_of_a_missing_key_changes_nothing() {
    let mut store = bounded(0);
    store.add_at("k", 5, 60, 1_000).unwrap();
    assert!(store.evict_at(&"other", 5_000).is_none());
    assert_eq!(store.len(), 1);
}

#[test]
fn dead_keys_at_lists_each_dead_key_once() {
    let mut store: Memory<u32, u32> = Memory::new(0, 0, None);
    for key in 0..20 {
        store.add_at(key, key, u64::from(key), 1_000).unwrap();
    }
    let mut dead = store.dead_keys_at(1_009);
    dead.sort();
    assert_eq!(dead, vec![0, 1, 2, 3, 4, 5, 6, 7, 8]);
    assert_eq!(store.len(), 20);
    assert!(store.dead_keys_at(1_000).is_empty());
}

#[test]
fn purge_at_spares_a_key_that_was_revived() {
    let mut store = bounded(0);
    store.add_at("a", 1, 5, 1_000).unwrap();
    store.add_at("b", 2, 5, 1_000).unwrap();
    store.add_at("c", 3, 60, 1_000).unwrap();
    let mut dead = store.dead_keys_at(1_010);
    dead.sort();
    assert_eq!(dead, vec!["a", "b"]);
    store.add_at("a", 10, 60, 1_010).unwrap();
    store.purge_at(&dead, 1_010);
    assert_eq!(store.len(), 2);
    assert_eq!(store.get_at("a", 1_010), Some(10));
    assert_eq!(store.get_dead("b"), None);
    assert_eq!(store.get_at("c", 1_010), Some(3));
}

#[test]
fn purge_at_ignores_keys_that_are_alive_or_missing() {
    let mut store = bounded(0);
    store.add_at("a", 1, 60, 1_000).unwrap();
    store.purge_at(&vec!["a", "ghost", "a"], 1_010);
    assert_eq!(store.len(), 1);
    store.purge_at(&vec!["a", "ghost", "a"], 1_061);
    assert_eq!(store.len(), 0);
}

#[test]
fn a_stale_read_nominates_the_key() {
    let (sender, mut receiver) = tokio::sync::mpsc::channel::<&'static str>(4);
    let mut store: Memory<&'static str, i32> = Memory::new(0, 30, Some(sender));
    store.add_at("k", 5, 60, 1_000).unwrap();
    assert_eq!(store.get_at("k", 1_061), None);
    assert_eq!(receiver.try_recv(), Ok("k"));
    assert_eq!(receiver.try_recv(), Err(TryRecvError::Empty));
    assert_eq!(store.len(), 1);
}

#[test]
fn a_live_or_missing_read_nominates_nothing() {
    let (sender, mut receiver) = tokio::sync::mpsc::channel::<&'static str>(4);
    let mut store: Memory<&'static str, i32> = Memory::new(0, 30, Some(sender));
    store.add_at("k", 5, 60, 1_000).unwrap();
    assert_eq!(store.get_at("k", 1_060), Some(5));
    assert_eq!(store.get_at("other", 1_060), None);
    assert_eq!(store.get_dead("k"), Some(5));
    assert_eq!(receiver.try_recv(), Err(TryRecvError::Empty));
}

#[test]
fn a_full_queue_drops_the_nomination() {
    let (sender, mut receiver) = tokio::sync::mpsc::channel::<&'static str>(1);
    let mut store: Memory<&'static str, i32> = Memory::new(0, 30, Some(sender));
    store.add_at("a", 1, 1, 1_000).unwrap();
    store.add_at("b", 2, 1, 1_000).unwrap();
    assert_eq!(store.get_at("a", 2_000), None);
    assert_eq!(store.get_at("b", 2_000), None);
    assert_eq!(receiver.try_recv(), Ok("a"));
    assert_eq!(receiver.try_recv(), Err(TryRecvError::Empty));
}

#[test]
fn a_closed_queue_does_not_disturb_the_reader() {
    let (sender, receiver) = tokio::sync::mpsc::channel::<&'static str>(1);
    drop(receiver);
    let mut store: Memory<&'static str, i32> = Memory::new(0, 30, Some(sender));
    store.add_at("a", 1, 1, 1_000).unwrap();
    assert_eq!(store.get_at("a", 2_000), None);
    assert_eq!(store.get_dead("a"), Some(1));
}

#[test]
fn size_of_cell_is_the_size_of_one_cell() {
    let small: Memory<u8, u8> = Memory::new(0, 0, None);
    assert_eq!(small.size_of_cell(), std::mem::size_of::<timed_cache::data::Data<u8>>());
    assert_eq!(small.size_of_cell(), 16);
    let wide: Memory<u8, [u64; 4]> = Memory::new(0, 0, None);
    assert_eq!(wide.size_of_cell(), 40);
}

#[test]
fn concurrent_insertions_fill_the_store_to_its_limit() {
    let tasks: u32 = 24;
    let limit: usize = 7;
    let store: Memory<u32, u32> = Memory::new(limit, 0, None);
    let shared = std::sync::Arc::new(tokio::sync::RwLock::new(store));
    let runtime =
        tokio::runtime::Builder::new_multi_thread().worker_threads(4).enable_all().build().unwrap();
    let outcomes = runtime.block_on(async {
        let mut handles = Vec::new();
        for key in 0..tasks {
            let shared = shared.clone();
            handles.push(tokio::spawn(async move {
                let outcome = shared.write().await.add(key, key + 100, 3_600);
                (key, outcome)
            }));
        }
        let mut outcomes = Vec::new();
        for handle in handles {
            outcomes.push(handle.await.unwrap());
        }
        outcomes
    });
    let store = runtime.block_on(shared.read());
    let accepted: Vec<u32> =
        outcomes.iter().filter(|(_, outcome)| outcome.is_ok()).map(|(key, _)| *key).collect();
    let refused = outcomes.iter().filter(|(_, outcome)| *outcome == Err(CacheFull)).count();
    assert_eq!(accepted.len(), limit);
    assert_eq!(refused, 24 - limit);
    assert_eq!(store.len(), limit);
    for (key, outcome) in outcomes {
        if outcome.is_ok() {
            assert_eq!(store.get(key), Some(key + 100));
        } else {
            assert_eq!(store.get_dead(key), None);
        }
    }
}

#[test]
fn distinct_insertions_are_accepted_up_to_the_limit() {
    let mut store: Memory<u32, u32> = Memory::new(4, 0, None);
    let mut accepted = Vec::new();
    let mut refused = Vec::new();
    for key in 0..10u32 {
        match store.add_at(key, key + 100, 3_600, 1_000 + u64::from(key)) {
            Ok(()) => accepted.push(key),
            Err(CacheFull) => refused.push(key),
        }
    }
    assert_eq!(accepted, vec![0, 1, 2, 3]);
    assert_eq!(refused, vec![4, 5, 6, 7, 8, 9]);
    assert_eq!(store.len(), 4);
    for key in 0..4u32 {
        let cell = store.remove(key).unwrap();
        assert_eq!(cell.unwrap(), key + 100);
        assert_eq!(cell.expires_at(), 4_600 + u64::from(key));
    }
}

#[test]
fn the_store_never_exceeds_its_limit() {
    let mut store: Memory<u32, u32> = Memory::new(3, 0, None);
    let mut now = 1_000;
    for round in 0..200u32 {
        let _ = store.add_at(round % 7, round, u64::from(round % 5), now);
        assert!(store.len() <= 3);
        if round % 3 == 0 {
            store.remove(round % 4);
        }
        if round % 11 == 0 {
            store.clear_at(now);
        }
        if round % 13 == 0 {
            store.evict_at(&(round % 7), now);
        }
        assert!(store.len() <= 3);
        now += u64::from(round % 3);
    }
}

#[test]
fn a_purge_of_all_dead_keys_is_a_sweep() {
    let mut purged: Memory<u32, u32> = Memory::new(0, 0, None);
    let mut swept: Memory<u32, u32> = Memory::new(0, 0, None);
    for key in 0..30u32 {
        purged.add_at(key, key, u64::from(key % 6), 1_000).unwrap();
        swept.add_at(key, key, u64::from(key % 6), 1_000).unwrap();
    }
    let listed: Vec<u32> = (0..40).collect();
    purged.purge_at(&listed, 1_003);
    swept.clear_at(1_003);
    assert_eq!(purged.len(), swept.len());
    assert_eq!(purged.len(), 15);
    for key in 0..30u32 {
        assert_eq!(purged.get_dead(key), swept.get_dead(key));
        assert_eq!(purged.get_dead(key).is_some(), key % 6 >= 3);
    }
}
