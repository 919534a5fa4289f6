use penumbra::synapse::image_store::{LiveImageStore, IMAGE_TTL, MAX_IMAGES};

#[test]
fn put_then_get_returns_bytes() {
    let mut store = LiveImageStore::new();
    store.put("run-a", vec![1, 2, 3], 0);
    assert_eq!(store.get_refresh("run-a", 1), Some(vec![1, 2, 3]));
}

#[test]
fn miss_returns_none() {
    let mut store = LiveImageStore::new();
    assert_eq!(store.get_refresh("nope", 0), None);
}

#[test]
fn get_refresh_can_be_read_repeatedly() {
    let mut store = LiveImageStore::new();
    store.put("run-a", vec![9], 0);
    assert_eq!(store.get_refresh("run-a", 1), Some(vec![9]));
    // A second follow-up against the same image still hits.
    assert_eq!(store.get_refresh("run-a", 2), Some(vec![9]));
}

#[test]
fn capacity_evicts_least_recently_accessed() {
    let mut store = LiveImageStore::new();
    // Fill beyond capacity; oldest insert (run-0) is dropped.
    for i in 0..(MAX_IMAGES + 1) {
        store.put(&format!("run-{i}"), vec![i as u8], i as u128);
    }
    let now = MAX_IMAGES as u128 + 1;
    assert_eq!(store.get_refresh("run-0", now), None);
    // The newest entry survives.
    assert_eq!(store.get_refresh(&format!("run-{MAX_IMAGES}"), now), Some(vec![MAX_IMAGES as u8]));
}

#[test]
fn expired_entries_are_pruned() {
    let mut store = LiveImageStore::new();
    store.put("run-a", vec![1], 0);
    // The last access lies well past the time to live.
    let now = IMAGE_TTL + 1_000_000_000;
    assert_eq!(store.get_refresh("run-a", now), None);
}

#[test]
fn an_image_lives_until_its_time_is_up() {
    let mut store = LiveImageStore::new();
    store.put("run-a", vec![1], 0);
    assert_eq!(store.get_refresh("run-a", IMAGE_TTL - 1), Some(vec![1]));
    // That read starts the time anew.
    assert_eq!(store.get_refresh("run-a", 2 * IMAGE_TTL - 2), Some(vec![1]));
    assert_eq!(store.get_refresh("run-a", 3 * IMAGE_TTL - 2), None);
}

#[test]
fn storing_again_replaces_the_image() {
    let mut store = LiveImageStore::new();
    store.put("run-a", vec![1], 0);
    store.put("run-b", vec![5], 1);
    store.put("run-a", vec![2], 2);
    assert_eq!(store.len(), 2);
    assert_eq!(store.get_refresh("run-a", 3), Some(vec![2]));
    assert_eq!(store.get_refresh("run-b", 3), Some(vec![5]));
}

#[test]
fn a_read_image_outlives_an_unread_one() {
    let mut store = LiveImageStore::new();
    for i in 0..MAX_IMAGES {
        store.put(&format!("run-{i}"), vec![i as u8], i as u128);
    }
    assert_eq!(store.get_refresh("run-0", 100), Some(vec![0]));
    store.put("run-new", vec![77], 101);
    assert_eq!(store.len(), MAX_IMAGES);
    assert_eq!(store.get_refresh("run-1", 102), None);
    assert_eq!(store.get_refresh("run-0", 102), Some(vec![0]));
    assert_eq!(store.get_refresh("run-new", 102), Some(vec![77]));
}

#[test]
fn the_newest_images_are_kept() {
    let mut store = LiveImageStore::new();
    for i in 0..MAX_IMAGES {
        store.put(&format!("run-{i}"), vec![i as u8], i as u128);
    }
    let now = MAX_IMAGES as u128;
    assert_eq!(store.get_refresh("run-0", now), Some(vec![0]));
    store.put("new", vec![99], now + 1);
    assert_eq!(store.len(), MAX_IMAGES);
    assert_eq!(store.get_refresh("run-1", now + 2), None);
    assert_eq!(store.get_refresh("run-0", now + 2), Some(vec![0]));
    assert_eq!(store.get_refresh("run-2", now + 2), Some(vec![2]));
}

#[test]
fn pruning_keeps_what_has_not_expired() {
    let mut store = LiveImageStore::new();
    store.put("old", vec![1], 0);
    store.put("new", vec![2], 10);
    store.prune(IMAGE_TTL);
    assert_eq!(store.len(), 1);
    assert_eq!(store.get_refresh("new", IMAGE_TTL), Some(vec![2]));
}
