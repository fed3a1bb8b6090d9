use hetero_storage::cycle::Blocking8;
use hetero_storage::cycle::NonBlocking8;
use hetero_storage::id_access::IdAccess;
use hetero_storage::id_access::IdAccessMut;
use hetero_storage::cycle::NoCycle;
use hetero_storage::Cycle;
use hetero_storage::Id;
use hetero_storage::Storage;

type Color = (String, u8, u8, u8);

#[test]
fn place_remove_contains() {
    let mut storage = Storage::new();
    let red = storage.place::<Color>((String::from("red"), 255, 0, 0));
    let green = storage.place::<Color>((String::from("green"), 0, 255, 0));

    let mut ids = vec![];
    for _ in 0..10_000 {
        ids.push(storage.place::<Color>((String::from("blue"), 255, 0, 0)));
    }

    for id in ids.iter() {
        storage.remove::<Color>(id);
    }

    assert!(storage.contains(&red));
    assert!(storage.contains(&green));

    storage.remove::<Color>(&red);
    assert!(!storage.contains(&red));
    assert!(storage.contains(&green));

    storage.remove::<Color>(&green);
    assert!(!storage.contains(&red));
    assert!(!storage.contains(&green));
}

#[test]
fn place_erase_contains() {
    let mut storage = Storage::new();
    let red = storage.place_id::<Color>((String::from("red"), 255, 0, 0));
    let green = storage.place_id::<Color>((String::from("green"), 0, 255, 0));

    let mut ids = vec![];
    for _ in 0..10_000 {
        ids.push(storage.place_id::<Color>((String::from("blue"), 255, 0, 0)));
    }

    for id in ids.iter() {
        storage.erase(id);
    }

    assert!(storage.contains_id(&red));
    assert!(storage.contains_id(&green));

    storage.erase(&red);
    assert!(!storage.contains_id(&red));
    assert!(storage.contains_id(&green));

    storage.erase(&green);
    assert!(!storage.contains_id(&red));
    assert!(!storage.contains_id(&green));
}

#[test]
fn heterogeneous_round_trip() {
    let mut storage = Storage::new();
    let id0 = storage.place(0u32);
    let id1 = storage.place(1u8);
    let id2 = storage.place(String::from("2"));

    assert_eq!(storage.get::<u32>(&id0), Some(&0u32));
    assert_eq!(storage.get::<u8>(&id1), Some(&1u8));
    assert_eq!(storage.get::<String>(&id2), Some(&String::from("2")));

    *storage.get_mut::<String>(&id2).unwrap() = String::from("str");
    assert_eq!(storage.get::<String>(&id2), Some(&String::from("str")));

    assert_eq!(storage.remove::<u32>(&id0), Some(0u32));
    assert_eq!(storage.remove::<u32>(&id0), None);
    assert_eq!(storage.get::<u32>(&id0), None);
    assert!(!storage.contains(&id0));
}

#[test]
fn wrong_type_narrowing() {
    let mut storage = Storage::new();
    let id = storage.place_id::<u64>(7);
    assert_eq!(storage.get::<i64>(&id), None);
    assert_eq!(storage.get::<u64>(&id), Some(&7u64));
    assert!(id.to_tid::<i64>().is_none());
    assert!(id.to_tid::<u64>().is_some());
}

#[test]
fn block_growth_and_shrink() {
    let mut storage = Storage::with_block_capacity(4);
    let mut ids = vec![];
    for k in 0..10 {
        ids.push(storage.place::<u32>(k as u32));
    }
    assert_eq!(storage.block_count_of::<u32>(), 3);

    storage.shrink_to_fit();
    assert_eq!(storage.block_count_of::<u32>(), 3);

    for k in (1..10).rev() {
        assert!(storage.remove::<u32>(&ids[k]).is_some());
    }
    storage.shrink_to_fit();
    assert_eq!(storage.block_count_of::<u32>(), 1);

    assert_eq!(storage.get::<u32>(&ids[0]), Some(&0u32));
    assert_eq!(storage.get::<u32>(&ids[5]), None);
    assert!(!storage.contains(&ids[5]));
}

#[test]
fn blocking_exhaustion_bans_slot() {
    let mut storage = Storage::<Blocking8>::with_policy_and_capacity(4);
    let mut last_witness: Option<u128> = None;
    for k in 0..255u32 {
        let tid = storage.place::<u32>(k);
        assert_eq!(tid.index(), 0);
        let witness = tid.tag().current();
        assert_eq!(witness, k as u128);
        if let Some(prev) = last_witness {
            assert!(prev < witness);
        }
        last_witness = Some(witness);
        if k < 254 {
            assert_eq!(storage.get::<u32>(&tid), Some(&k));
        } else {
            // The written generation saturated: the cell counts as exhausted,
            // lookups refuse it, but the removal below still empties it.
            assert_eq!(storage.get::<u32>(&tid), None);
        }
        assert_eq!(storage.remove::<u32>(&tid), Some(k));
    }

    let moved = storage.place::<u32>(500);
    assert_eq!(moved.index(), 1);
    assert_eq!(storage.get::<u32>(&moved), Some(&500u32));

    storage.reset();
    let back = storage.place::<u32>(7);
    assert_eq!(back.index(), 0);
    assert_eq!(back.tag().current(), 0);
    assert_eq!(storage.get::<u32>(&back), Some(&7u32));
}

#[test]
fn reset_versus_clear_generations() {
    let mut storage = Storage::new();
    let first = storage.place::<u32>(5);
    assert_eq!(first.index(), 0);
    assert_eq!(first.tag().current(), 0);

    storage.clear();
    let second = storage.place::<u32>(6);
    assert_eq!(second.index(), 0);
    assert_eq!(second.tag().current(), 1);
    assert_eq!(storage.get::<u32>(&second), Some(&6u32));
    assert_eq!(storage.get::<u32>(&first), None);

    storage.reset();
    let third = storage.place::<u32>(7);
    assert_eq!(third.index(), 0);
    assert_eq!(third.tag().current(), 0);
    assert_eq!(storage.get::<u32>(&third), Some(&7u32));
}

#[test]
fn aba_protection_blocking() {
    let mut storage = Storage::new();
    let id1 = storage.place::<u32>(10);
    assert_eq!(storage.remove::<u32>(&id1), Some(10));
    let id2 = storage.place::<u32>(20);
    assert_eq!(id1.index(), id2.index());

    assert!(!storage.contains_id(&id1.to_id()));
    assert!(!storage.contains(&id1));
    assert_eq!(storage.get::<u32>(&id1), None);
    assert_eq!(storage.get::<u32>(&id2), Some(&20u32));
    assert!(storage.contains_id(&id2.to_id()));
}

#[test]
fn no_cycle_reuse_is_not_detected() {
    let mut storage = Storage::<NoCycle>::with_policy();
    let id1 = storage.place::<u32>(1);
    assert_eq!(storage.remove::<u32>(&id1), Some(1));
    let id2 = storage.place::<u32>(2);
    assert_eq!(id1.index(), id2.index());
    // Without generations a stale identifier aliases the new occupant.
    assert_eq!(storage.get::<u32>(&id1), Some(&2u32));
    assert!(storage.contains(&id1));
}

#[test]
fn foreign_storage_id_is_absent() {
    let mut storage = Storage::new();
    let id = storage.place::<u32>(3);
    let other = Storage::new();
    assert_eq!(other.get::<u32>(&id), None);
    assert!(!other.contains(&id));
    assert!(!other.contains_id(&id.to_id()));
}

#[test]
fn erased_and_typed_ids_agree() {
    let mut storage = Storage::new();
    let tid = storage.place::<String>(String::from("abc"));
    let id: Id = tid.to_id();
    assert_eq!(id.index(), tid.index());
    assert!(storage.contains_id(&id));
    assert_eq!(storage.get::<String>(&id), Some(&String::from("abc")));

    let narrowed = id.to_tid::<String>().unwrap();
    assert_eq!(storage.remove::<String>(&narrowed), Some(String::from("abc")));
    assert!(!storage.contains_id(&id));
}

#[test]
fn get_mut_keeps_the_cell_occupied() {
    let mut storage = Storage::with_block_capacity(2);
    let a = storage.place::<i32>(-5);
    let b = storage.place::<i32>(9);
    if let Some(slot) = storage.get_mut::<i32>(&a) {
        *slot = 100;
    }
    assert_eq!(storage.get::<i32>(&a), Some(&100));
    assert_eq!(storage.get::<i32>(&b), Some(&9));
    assert!(storage.contains(&a));
    assert_eq!(storage.get_mut::<i64>(&a.to_id()), None);
    assert_eq!(storage.get::<i32>(&a), Some(&100));
}

#[test]
fn default_storage_is_empty() {
    let storage: Storage = Default::default();
    assert_eq!(storage.block_count_of::<u32>(), 0);
}

#[test]
fn id_access_reads_erased_ids() {
    let mut storage = Storage::new();
    let id = storage.place_id::<u16>(42);
    let access = IdAccess::new(&storage);
    assert!(access.contains(&id));
    assert_eq!(access.get::<u16>(&id), Some(&42u16));
    assert_eq!(access.get::<u32>(&id), None);
}

#[test]
fn bucket_ref_probes_buckets() {
    let mut storage = Storage::with_block_capacity(4);
    assert!(!storage.bucket_ref::<u32>().bucket_is_exists());
    storage.place::<u32>(1);
    let probe = storage.bucket_ref::<u32>();
    assert!(probe.bucket_is_exists());
    assert_eq!(probe.capacity(), 4);
    assert!(!storage.bucket_ref::<i8>().bucket_is_exists());
}

#[test]
fn id_access_mut_places_and_removes() {
    let mut storage = Storage::new();
    let mut access = IdAccessMut::new(&mut storage);
    let id = access.place::<u16>(8);
    assert!(access.contains(&id));
    assert_eq!(access.get::<u16>(&id), Some(&8u16));
    if let Some(slot) = access.get_mut::<u16>(&id) {
        *slot = 9;
    }
    assert_eq!(access.remove::<u16>(&id), Some(9));
    assert!(!access.contains(&id));
    assert!(!storage.contains(&id.to_tid::<u16>().unwrap()));
}

#[test]
fn clear_twice_is_clear_once() {
    let mut storage = Storage::with_block_capacity(4);
    let a = storage.place::<u32>(1);
    let b = storage.place::<u32>(2);
    storage.clear();
    assert!(!storage.contains(&a) && !storage.contains(&b));
    let blocks = storage.block_count_of::<u32>();
    storage.clear();
    assert!(!storage.contains(&a) && !storage.contains(&b));
    assert_eq!(storage.block_count_of::<u32>(), blocks);
    let again = storage.place::<u32>(3);
    assert_eq!(again.index(), 0);
    assert_eq!(storage.get::<u32>(&again), Some(&3u32));
}

#[test]
fn widening_through_from() {
    let mut storage = Storage::new();
    let tid = storage.place::<u32>(11);
    let id: Id = tid.into();
    assert_eq!(id.index(), tid.index());
    assert!(storage.contains_id(&id));
}

#[test]
fn wrapping_reuse_may_alias() {
    let mut storage = Storage::<NonBlocking8>::with_policy();
    let first = storage.place::<u32>(0);
    assert_eq!(storage.remove::<u32>(&first), Some(0));
    for k in 1..256u32 {
        let tid = storage.place::<u32>(k);
        assert_eq!(tid.index(), 0);
        assert_eq!(storage.remove::<u32>(&tid), Some(k));
    }
    // After a full wrap the stale witness matches the new occupant.
    let aliased = storage.place::<u32>(999);
    assert_eq!(aliased.index(), first.index());
    assert_eq!(aliased.tag().current(), first.tag().current());
    assert_eq!(storage.get::<u32>(&first), Some(&999u32));
}
