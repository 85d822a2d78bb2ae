use overmax::jacket::MatchCache;

#[test]
fn recent_matches_move_to_front_and_stay_distinct() {
    let mut cache = MatchCache::new();
    cache.update_cache(3);
    cache.update_cache(5);
    cache.update_cache(3);
    assert_eq!(cache.recent_indices, vec![3, 5]);
}

#[test]
fn recent_matches_keep_eight_newest() {
    let mut cache = MatchCache::new();
    for idx in 0..10 {
        cache.update_cache(idx);
    }
    assert_eq!(cache.recent_indices, vec![9, 8, 7, 6, 5, 4, 3, 2]);
    cache.update_cache(4);
    assert_eq!(cache.recent_indices, vec![4, 9, 8, 7, 6, 5, 3, 2]);
}
