use axactor::handle::{SharedHandle, SpawnHandle};
use axactor::keys::{KeyMap, RegistryKey};
use axactor::registry::{hashed_name, Registry, NUM_SHARDS};
use axactor::rt::System;
use axactor::text::{push_decimal, push_hexadecimal};
use axactor::{MailboxMeter, SpawnConfig, SpawnError};
use std::collections::hash_map::DefaultHasher;
use std::hash::{Hash, Hasher};

fn std_hash(key: &String) -> u64 {
    let mut hasher = DefaultHasher::new();
    key.hash(&mut hasher);
    hasher.finish()
}

#[test]
fn keys_are_told_apart() {
    let (a, b) = ("a".to_string(), "b".to_string());
    assert!(a.is_same(&a.duplicate()));
    assert!(!a.is_same(&b));
    assert_eq!(a.key_hash(), a.duplicate().key_hash());
    assert_ne!(a.key_hash(), b.key_hash());
}

#[test]
fn keys_have_the_hash_of_the_standard_library() {
    for key in ["", "user:1", "user:2", "äöü", "a rather long key with many words in it"] {
        let key = key.to_string();
        assert_eq!(key.key_hash(), std_hash(&key));
    }
}

#[test]
fn names_are_made_of_base_shard_and_hash() {
    for key in ["", "user:1", "user:2"] {
        let key = key.to_string();
        for shard in [0usize, 7, 15, 1234] {
            assert_eq!(
                hashed_name("counter", shard, &key),
                format!("{}:{}:{:016x}", "counter", shard, std_hash(&key))
            );
        }
    }
}

#[test]
fn numbers_are_written_as_the_standard_library_does() {
    for n in [0usize, 9, 10, 42, 1000, usize::MAX] {
        let mut text = "n=".to_string();
        push_decimal(&mut text, n);
        assert_eq!(text, format!("n={}", n));
    }
    for n in [0u64, 15, 16, 0xdead_beef, u64::MAX] {
        let mut text = "x=".to_string();
        push_hexadecimal(&mut text, n, 16);
        assert_eq!(text, format!("x={:016x}", n));
    }
    let mut text = String::new();
    push_hexadecimal(&mut text, 0x1234, 2);
    assert_eq!(text, "34");
}

#[test]
fn a_map_finds_what_was_put_in() {
    let mut map: KeyMap<String, u32> = KeyMap::new();
    let (a, b) = ("a".to_string(), "b".to_string());
    map.insert_new(a.clone(), 1);
    map.insert_new(b.clone(), 2);
    assert!(map.contains_key(&a));
    assert_eq!(map.get(&b), Some(&2));
    assert_eq!(map.values().len(), 2);
    assert_eq!(map.remove(&a), Some(1));
    assert_eq!(map.remove(&a), None);
    assert_eq!(map.get(&a), None);
    assert_eq!(map.drain(), vec![2]);
    assert!(!map.contains_key(&b));
}

#[test]
fn each_key_stands_in_the_shard_of_its_hash() {
    let mut registry: Registry<String, usize> = Registry::new();
    let keys: Vec<String> = (0..100).map(|i| format!("user:{}", i)).collect();
    for (i, key) in keys.iter().enumerate() {
        let mut cfg = SpawnConfig::new("counter", 256);
        assert!(registry.has_room());
        let _guard = registry.get_or_spawn(key, &mut cfg, i);
        let shard = (std_hash(key) % 16) as usize;
        assert_eq!(cfg.name, format!("counter:{}:{:016x}", shard, std_hash(key)));
        assert_eq!(cfg.capacity, 256);
        assert!(registry.shard(shard).iter().any(|slot| slot.cell == i));
    }
    let total: usize = (0..NUM_SHARDS).map(|i| registry.shard(i).len()).sum();
    assert_eq!(total, 100);
    assert_eq!(registry.get(&keys[42]).unwrap().cell, 42);
    assert!(registry.get(&"user:100".to_string()).is_none());
}

#[test]
fn names_that_are_made_of_other_parts_differ() {
    let (a, b) = ("a".to_string(), "b".to_string());
    let names = vec![
        hashed_name("x", 1, &a),
        hashed_name("x:1", 1, &a),
        hashed_name("x", 11, &a),
        hashed_name("x:1", 11, &a),
        hashed_name("x", 1, &b),
        hashed_name("", 1, &a),
    ];
    for (i, name) in names.iter().enumerate() {
        assert!(!names[..i].contains(name));
    }
}

#[test]
fn each_cell_has_a_number_of_its_own() {
    let mut registry: Registry<String, u32> = Registry::new();
    let key = "a".to_string();
    let mut ids = Vec::new();
    for i in 0..3 {
        let mut cfg = SpawnConfig::new("x", 1);
        let guard = registry.get_or_spawn(&key, &mut cfg, i);
        ids.push(registry.get(&key).unwrap().id);
        registry.evict(&guard);
    }
    assert_eq!(ids, vec![0, 1, 2]);
}

#[test]
fn all_who_ask_get_the_cell_of_the_first() {
    let mut registry: Registry<String, u32> = Registry::new();
    let mut system: System<u32> = System::new();
    let key = "a".to_string();
    for i in 0..5 {
        let mut cfg = SpawnConfig::new("x", 1);
        let _guard = registry.get_or_spawn(&key, &mut cfg, i);
        assert_eq!(registry.get(&key).unwrap().cell, 0);
        assert_eq!(system.spawn_with(&cfg, i).is_ok(), i == 0);
    }
}

#[test]
fn one_key_does_not_touch_another() {
    let mut registry: Registry<String, u32> = Registry::new();
    let (a, b) = ("a".to_string(), "b".to_string());
    let mut cfg = SpawnConfig::new("x", 1);
    let guard_a = registry.get_or_spawn(&a, &mut cfg, 1);
    let _guard_b = registry.get_or_spawn(&b, &mut cfg, 2);
    registry.evict(&guard_a);
    assert!(registry.get(&a).is_none());
    assert_eq!(registry.get(&b).unwrap().cell, 2);
    registry.evict(&guard_a);
    assert_eq!(registry.get(&b).unwrap().cell, 2);
}

#[test]
fn shutdown_hands_out_all_handles() {
    let mut system: System<u32> = System::new();
    for i in 0..5u32 {
        assert!(system.spawn(&SpawnConfig::new(&format!("actor{}", i), 1), i).is_ok());
    }
    assert!(system.check_name(&"actor9".to_string()).is_ok());
    let taken = system.check_name(&"actor3".to_string());
    assert!(matches!(taken, Err(SpawnError::NameTaken(name)) if name == "actor3"));
    let mut handles = system.shutdown_graceful();
    handles.sort();
    assert_eq!(handles, vec![0, 1, 2, 3, 4]);
    assert!(system.is_shutting_down());
    assert!(system.shutdown_graceful().is_empty());
    system.on_task_end(&"actor3".to_string(), &mut MailboxMeter::new());
    assert!(system.spawn_with(&SpawnConfig::new("late", 1), 9).is_err());
    assert!(system.shutdown_graceful().is_empty());
    let refused = system.check_name(&"actor3".to_string());
    assert!(matches!(refused, Err(SpawnError::ShuttingDown)));
}

#[test]
fn only_the_first_to_join_gets_the_handle() {
    let mut spawned: SpawnHandle<String, SharedHandle<u8>> = SpawnHandle::new("ref".to_string(), 7);
    assert_eq!(spawned.actor(), "ref");
    assert_eq!(spawned.join(), Some(7));
    assert_eq!(spawned.join(), None);
    let shared: SpawnHandle<u8, u16> = SpawnHandle::new_shared(1, 2);
    assert_eq!(*shared.shared(), 2);
    let mut slot: SharedHandle<u8> = SharedHandle::empty();
    assert_eq!(slot.take(), None);
    slot.put(5);
    assert_eq!(slot.take(), Some(5));
    assert_eq!(slot.take(), None);
}
