use orga::store::bufstore::{flush_map, merge_writes};
use orga::store::order::{compare, starts_with, KeyOrder};
use orga::store::store::end_of_prefix;
use orga::store::{BufStore, BufStoreMap, MapStore, OrderedMap, Read, Store, Write};

#[test]
fn sub() {
    let mut backing = MapStore::new();
    backing.put(vec![0, 0], vec![0]).unwrap();
    backing.put(vec![1, 0], vec![1]).unwrap();
    backing.put(vec![1, 1], vec![2]).unwrap();
    backing.put(vec![2, 0], vec![3]).unwrap();

    // substore
    let mut store = Store::new(&mut backing).sub(&[1]);
    assert_eq!(store.get(&[0]).unwrap().unwrap(), vec![1]);
    assert_eq!(store.get_next(&[0]).unwrap().unwrap(), (vec![1], vec![2]));
    assert!(store.get_next(&[1]).unwrap().is_none());
    store.put(vec![2], vec![2, 0]).unwrap();
    store.delete(&[1]).unwrap();
    assert!(backing.get(&[1, 1]).unwrap().is_none());
    assert_eq!(backing.get(&[1, 2]).unwrap().unwrap(), vec![2, 0]);

    backing.put(vec![1, 3, 0], vec![4]).unwrap();
    backing.put(vec![1, 3, 1], vec![5]).unwrap();

    // recursive substore
    let mut store = Store::new(&mut backing).sub(&[1]).sub(&[3]);
    assert_eq!(store.get(&[0]).unwrap().unwrap(), vec![4]);
    assert_eq!(store.get_next(&[0]).unwrap().unwrap(), (vec![1], vec![5]));
    assert!(store.get_next(&[1]).unwrap().is_none());
    store.put(vec![2], vec![5, 0]).unwrap();
    store.delete(&[1]).unwrap();
    assert!(backing.get(&[1, 3, 1]).unwrap().is_none());
    assert_eq!(backing.get(&[1, 3, 2]).unwrap().unwrap(), vec![5, 0]);
}


fn filled(entries: &[(&[u8], &[u8])]) -> MapStore {
    let mut store = MapStore::new();
    for (k, v) in entries {
        store.put(k.to_vec(), v.to_vec()).unwrap();
    }
    store
}

fn contents<R: Read>(store: &R) -> Vec<(Vec<u8>, Vec<u8>)> {
    let mut out = vec![];
    let mut key = vec![];
    if let Some(v) = store.get(&key).unwrap() {
        out.push((key.clone(), v));
    }
    while let Some((k, v)) = store.get_next(&key).unwrap() {
        out.push((k.clone(), v));
        key = k;
    }
    out
}

fn contents_backward<R: Read>(store: &R) -> Vec<(Vec<u8>, Vec<u8>)> {
    let mut out = vec![];
    let mut bound: Option<Vec<u8>> = None;
    while let Some((k, v)) = store.get_prev(bound.as_deref()).unwrap() {
        out.push((k.clone(), v));
        bound = Some(k);
    }
    out.reverse();
    out
}

#[test]
fn keys_are_ordered_byte_by_byte() {
    assert_eq!(compare(&[], &[]), KeyOrder::Same);
    assert_eq!(compare(&[], &[0]), KeyOrder::Before);
    assert_eq!(compare(&[1], &[0, 9]), KeyOrder::After);
    assert_eq!(compare(&[1, 2], &[1, 2, 0]), KeyOrder::Before);
    assert_eq!(compare(&[1, 2, 3], &[1, 2, 3]), KeyOrder::Same);
    assert_eq!(compare(&[255], &[1, 255]), KeyOrder::After);
    assert!(starts_with(&[1, 2, 3], &[1, 2]));
    assert!(starts_with(&[1, 2], &[]));
    assert!(!starts_with(&[1], &[1, 2]));
    assert!(!starts_with(&[1, 3], &[1, 2]));
    assert_eq!(orga::store::store::concat(&[1, 2], &[3]), vec![1, 2, 3]);
    assert_eq!(orga::store::store::concat(&[], &[]), Vec::<u8>::new());
}

#[test]
fn ordered_map_keeps_its_keys_in_order() {
    let mut map: OrderedMap<u32> = OrderedMap::new();
    assert!(map.is_empty());
    for (i, key) in [[5u8, 0], [1, 9], [3, 3], [1, 0], [9, 9]].iter().enumerate() {
        map.insert(key.to_vec(), i as u32);
    }
    map.insert(vec![3, 3], 77);
    assert_eq!(map.len(), 5);
    let keys: Vec<Vec<u8>> = (0..map.len()).map(|i| map.entry(i).0.clone()).collect();
    assert_eq!(keys, vec![vec![1, 0], vec![1, 9], vec![3, 3], vec![5, 0], vec![9, 9]]);
    assert_eq!(map.get(&[3, 3]), Some(&77));
    assert_eq!(map.get(&[3]), None);
    assert!(map.contains_key(&[9, 9]));
    assert_eq!(map.next_after(&[1, 9]).map(|(k, v)| (k.clone(), *v)), Some((vec![3, 3], 77)));
    assert_eq!(map.next_after(&[9, 9]), None);
    assert_eq!(map.prev_before(Some(&[1, 9])).map(|(k, _)| k.clone()), Some(vec![1, 0]));
    assert_eq!(map.prev_before(Some(&[1, 0])), None);
    assert_eq!(map.prev_before(None).map(|(k, _)| k.clone()), Some(vec![9, 9]));
    assert_eq!(map.first_after(&[3, 3]), 3);
    assert_eq!(map.first_not_before(&[3, 3]), 2);
    map.remove(&[3, 3]);
    map.remove(&[4]);
    assert_eq!(map.len(), 4);
    assert_eq!(map.get(&[3, 3]), None);
}

#[test]
fn map_store_reads_in_both_directions() {
    let store = filled(&[(&[2], &[20]), (&[1], &[10]), (&[3, 0], &[30])]);
    assert_eq!(store.len(), 3);
    assert_eq!(store.get(&[2]).unwrap(), Some(vec![20]));
    assert_eq!(store.get_next(&[2]).unwrap(), Some((vec![3, 0], vec![30])));
    assert_eq!(store.get_next(&[3, 0]).unwrap(), None);
    assert_eq!(store.get_prev(Some(&[2])).unwrap(), Some((vec![1], vec![10])));
    assert_eq!(store.get_prev(Some(&[1])).unwrap(), None);
    assert_eq!(store.get_prev(None).unwrap(), Some((vec![3, 0], vec![30])));
    assert_eq!(contents(&store), contents_backward(&store));
}

#[test]
fn a_buffer_shows_its_writes_over_its_parent() {
    let mut backing = filled(&[(&[1], &[1]), (&[2], &[2]), (&[3], &[3]), (&[5], &[5])]);
    let mut buf = BufStore::wrap(&mut backing);
    buf.delete(&[2]).unwrap();
    buf.delete(&[3]).unwrap();
    buf.put(vec![4], vec![40]).unwrap();
    buf.put(vec![1], vec![10]).unwrap();
    buf.delete(&[7]).unwrap();

    assert_eq!(buf.get(&[1]).unwrap(), Some(vec![10]));
    assert_eq!(buf.get(&[2]).unwrap(), None);
    assert_eq!(buf.get(&[5]).unwrap(), Some(vec![5]));
    // A read in key order passes over the deleted keys.
    assert_eq!(buf.get_next(&[1]).unwrap(), Some((vec![4], vec![40])));
    assert_eq!(buf.get_next(&[]).unwrap(), Some((vec![1], vec![10])));
    assert_eq!(buf.get_next(&[4]).unwrap(), Some((vec![5], vec![5])));
    assert_eq!(buf.get_next(&[5]).unwrap(), None);
    assert_eq!(buf.get_prev(Some(&[4])).unwrap(), Some((vec![1], vec![10])));
    assert_eq!(buf.get_prev(None).unwrap(), Some((vec![5], vec![5])));
    assert_eq!(buf.get_prev(Some(&[1])).unwrap(), None);
    let seen = vec![(vec![1], vec![10]), (vec![4], vec![40]), (vec![5], vec![5])];
    assert_eq!(contents(&buf), seen);
    assert_eq!(contents_backward(&buf), seen);

    // The parent has seen nothing yet.
    let map = buf.into_map();
    assert_eq!(map.len(), 5);
    assert_eq!(backing.get(&[2]).unwrap(), Some(vec![2]));

    let mut buf = BufStore::wrap_with_map(&mut backing, map);
    buf.flush().unwrap();
    assert_eq!(buf.into_map().len(), 0);
    assert_eq!(contents(&backing), seen);
}

#[test]
fn two_buffers_show_the_innermost_write() {
    let backing = filled(&[(&[1], &[1]), (&[2], &[2]), (&[3], &[3])]);
    let mut outer = BufStore::wrap(&backing);
    outer.delete(&[1]).unwrap();
    outer.put(vec![2], vec![20]).unwrap();
    outer.put(vec![4], vec![40]).unwrap();
    let mut inner = BufStore::wrap(&outer);
    inner.put(vec![1], vec![100]).unwrap();
    inner.delete(&[2]).unwrap();
    inner.delete(&[4]).unwrap();
    inner.put(vec![0], vec![0]).unwrap();

    assert_eq!(inner.get_next(&[]).unwrap(), Some((vec![0], vec![0])));
    assert_eq!(inner.get_next(&[0]).unwrap(), Some((vec![1], vec![100])));
    // Keys 2 and 4 are hidden by the inner buffer; 3 comes from the store.
    assert_eq!(inner.get_next(&[1]).unwrap(), Some((vec![3], vec![3])));
    assert_eq!(inner.get_next(&[3]).unwrap(), None);
    assert_eq!(
        contents_backward(&inner),
        vec![(vec![0], vec![0]), (vec![1], vec![100]), (vec![3], vec![3])]
    );
    // The outer buffer still shows its own view.
    assert_eq!(
        contents(&outer),
        vec![(vec![2], vec![20]), (vec![3], vec![3]), (vec![4], vec![40])]
    );

    // Merging the inner writes over the outer ones and flushing gives what was seen.
    let (inner_map, _) = inner.into_parts();
    let (mut outer_map, _) = outer.into_parts();
    merge_writes(&mut outer_map, &inner_map);
    let mut backing = backing;
    flush_map(&outer_map, &mut backing).unwrap();
    assert_eq!(
        contents(&backing),
        vec![(vec![0], vec![0]), (vec![1], vec![100]), (vec![3], vec![3])]
    );
}

#[test]
fn flush_gives_what_direct_writes_give() {
    // A fixed but irregular run of puts and deletions over few keys.
    let mut ops: Vec<(u8, Option<u8>)> = vec![];
    let mut x: u32 = 12345;
    for _ in 0..200 {
        x = x.wrapping_mul(1103515245).wrapping_add(12345);
        let key = ((x >> 16) % 7) as u8;
        let value = ((x >> 8) % 251) as u8;
        ops.push((key, if (x >> 24) % 3 == 0 { None } else { Some(value) }));
    }
    let start: &[(&[u8], &[u8])] = &[(&[0], &[9]), (&[3], &[9]), (&[6], &[9]), (&[8], &[9])];
    let mut direct = filled(start);
    let mut buffered = BufStore::wrap(filled(start));
    for (key, value) in &ops {
        match value {
            Some(v) => {
                direct.put(vec![*key], vec![*v]).unwrap();
                buffered.put(vec![*key], vec![*v]).unwrap();
            }
            None => {
                direct.delete(&[*key]).unwrap();
                buffered.delete(&[*key]).unwrap();
            }
        }
        assert_eq!(contents(&buffered), contents(&direct));
    }
    buffered.flush().unwrap();
    let (map, flushed) = buffered.into_parts();
    assert!(map.is_empty());
    assert_eq!(contents(&flushed), contents(&direct));
}

#[test]
fn a_prefix_ends_where_its_last_byte_is_raised() {
    assert_eq!(end_of_prefix(&[]), None);
    assert_eq!(end_of_prefix(&[1]), Some(vec![2]));
    assert_eq!(end_of_prefix(&[1, 255]), Some(vec![2]));
    assert_eq!(end_of_prefix(&[1, 255, 3]), Some(vec![1, 255, 4]));
    assert_eq!(end_of_prefix(&[255, 255]), None);
    assert_eq!(end_of_prefix(&[0, 254]), Some(vec![0, 255]));
}

#[test]
fn a_prefix_view_reads_backward_within_its_prefix() {
    let backing = filled(&[
        (&[0, 9], &[0]),
        (&[1], &[1]),
        (&[1, 0], &[2]),
        (&[1, 255], &[3]),
        (&[1, 255, 255], &[4]),
        (&[2], &[5]),
    ]);
    let store = Store::new(&backing).sub(&[1]);
    assert_eq!(store.get(&[]).unwrap(), Some(vec![1]));
    assert_eq!(store.get_prev(None).unwrap(), Some((vec![255, 255], vec![4])));
    assert_eq!(store.get_prev(Some(&[255, 255])).unwrap(), Some((vec![255], vec![3])));
    assert_eq!(store.get_prev(Some(&[0])).unwrap(), Some((vec![], vec![1])));
    assert_eq!(store.get_prev(Some(&[])).unwrap(), None);
    assert_eq!(
        contents_backward(&store),
        vec![(vec![], vec![1]), (vec![0], vec![2]), (vec![255], vec![3]), (vec![255, 255], vec![4])]
    );
    assert_eq!(contents(&store), contents_backward(&store));

    let all = Store::new(&backing);
    assert_eq!(all.get_prev(None).unwrap(), Some((vec![2], vec![5])));
    let high = Store::new(filled(&[(&[255, 1], &[1]), (&[254], &[0])])).sub(&[255]);
    assert_eq!(high.get_prev(None).unwrap(), Some((vec![1], vec![1])));
    assert_eq!(high.get_next(&[1]).unwrap(), None);
    let none = Store::new(&backing).sub(&[7]);
    assert_eq!(none.get_prev(None).unwrap(), None);
    assert_eq!(none.get_next(&[]).unwrap(), None);
}

#[test]
fn a_buffered_map_can_be_parked_and_used_again() {
    let mut backing = filled(&[(&[1], &[1])]);
    let mut parked: BufStoreMap = Default::default();
    for round in 0..3u8 {
        let mut buf = BufStore::wrap_with_map(&backing, parked);
        buf.put(vec![round], vec![round]).unwrap();
        assert_eq!(buf.get(&[1]).unwrap(), Some(vec![1]));
        parked = buf.into_map();
    }
    assert_eq!(parked.len(), 3);
    assert_eq!(backing.get(&[0]).unwrap(), None);
    flush_map(&parked, &mut backing).unwrap();
    assert_eq!(contents(&backing), vec![(vec![0], vec![0]), (vec![1], vec![1]), (vec![2], vec![2])]);
}

#[test]
fn a_copy_of_a_view_has_the_prefix_of_the_view() {
    let backing = filled(&[(&[1, 1], &[1]), (&[2, 1], &[2])]);
    let store = Store::new(&backing).sub(&[1]);
    let copy = store.clone();
    assert_eq!(copy.get(&[1]).unwrap(), Some(vec![1]));
    assert_eq!(copy.sub(&[1]).get(&[]).unwrap(), Some(vec![1]));
    assert_eq!(store.get(&[1]).unwrap(), Some(vec![1]));
}
