use atiff::{MemoryFetch, MetadataFetch, ReadaheadMetadataCache, SequentialBlockCache};

fn alphabet() -> Vec<u8> {
    b"abcdefghijklmnopqrstuvwxyz".to_vec()
}

#[test]
fn cache_test_readahead_cache() {
    let fetch = MemoryFetch::new(alphabet());
    let mut cache = ReadaheadMetadataCache::new(fetch)
        .with_initial_size(2)
        .with_multiplier(300);

    // Make initial request
    let result = cache.fetch(0, 2).unwrap();
    assert_eq!(result.as_slice(), b"ab");
    assert_eq!(cache.inner().num_fetches(), 1);

    // Making a request within the cached range should not trigger a new fetch
    let result = cache.fetch(1, 2).unwrap();
    assert_eq!(result.as_slice(), b"b");
    assert_eq!(cache.inner().num_fetches(), 1);

    // Making a request that exceeds the cached range should trigger a new fetch
    let result = cache.fetch(2, 5).unwrap();
    assert_eq!(result.as_slice(), b"cde");
    assert_eq!(cache.inner().num_fetches(), 2);

    // Multiplier should be accurate: initial was 2, next was 6 (2*3), so total cached is now 8
    let result = cache.fetch(5, 8).unwrap();
    assert_eq!(result.as_slice(), b"fgh");
    assert_eq!(cache.inner().num_fetches(), 2);

    // Should work even for fetch range larger than underlying buffer
    let result = cache.fetch(8, 20).unwrap();
    assert_eq!(result.as_slice(), b"ijklmnopqrst");
    assert_eq!(cache.inner().num_fetches(), 3);
}

#[test]
fn test_sequential_block_cache_empty_buffers() {
    let mut cache = SequentialBlockCache::new();
    cache.append_buffer(b"012".to_vec());
    cache.append_buffer(b"".to_vec());
    cache.append_buffer(b"34".to_vec());
    cache.append_buffer(b"".to_vec());
    cache.append_buffer(b"5".to_vec());
    cache.append_buffer(b"".to_vec());
    cache.append_buffer(b"67".to_vec());

    // Range, does it exist, expected slice
    let test_cases: Vec<(u64, u64, bool, &[u8])> = vec![
        (0, 3, true, b"012"),
        (4, 7, true, b"456"),
        (0, 8, true, b"01234567"),
        (6, 6, true, b""),
        (6, 9, false, b""),
        (9, 9, false, b""),
        (8, 10, false, b""),
    ];

    for (start, end, exists, expected) in test_cases {
        assert_eq!(cache.contains(start, end), exists);
        if exists {
            assert_eq!(cache.slice(start, end).as_slice(), expected);
        }
    }
}

#[test]
fn readahead_returns_exact_source_bytes() {
    // Every in-bounds range comes back as exactly the source bytes.
    let data = alphabet();
    let ranges: Vec<(u64, u64)> = vec![(0, 26), (25, 26), (3, 9), (0, 0), (13, 13), (7, 20)];
    for (start, end) in ranges {
        let fetch = MemoryFetch::new(data.clone());
        let mut cache = ReadaheadMetadataCache::new(fetch).with_initial_size(4);
        let got = cache.fetch(start, end).unwrap();
        assert_eq!(got.as_slice(), &data[start as usize..end as usize]);
    }
}

#[test]
fn readahead_fetch_count_is_logarithmic() {
    // 1024 one-byte forward reads over 1 KiB cost at most log2(1024/16)+1
    // underlying fetches: the cache doubles on every miss.
    let data = vec![7u8; 1024];
    let fetch = MemoryFetch::new(data);
    let mut cache = ReadaheadMetadataCache::new(fetch)
        .with_initial_size(16)
        .with_multiplier(200);
    for i in 0..1024u64 {
        let b = cache.fetch(i, i + 1).unwrap();
        assert_eq!(b, vec![7u8]);
    }
    assert!(cache.inner().num_fetches() <= 7);
}

#[test]
fn readahead_clips_at_end_of_source() {
    let fetch = MemoryFetch::new(alphabet());
    let mut cache = ReadaheadMetadataCache::new(fetch).with_initial_size(2);
    let got = cache.fetch(24, 40).unwrap();
    assert_eq!(got.as_slice(), b"yz");
}

#[test]
fn test_prefetch_overflow() {
    let data = b"abcdefghijklmno".to_vec();
    let fetch = MemoryFetch::new(data);
    let mut prefetch = atiff::PrefetchBuffer::new(fetch, 5).unwrap();

    // Served from the buffer
    assert_eq!(prefetch.fetch(0, 3).unwrap().as_slice(), b"abc");
    assert_eq!(prefetch.fetch(0, 5).unwrap().as_slice(), b"abcde");

    // Straddles the buffered region
    assert_eq!(prefetch.fetch(0, 10).unwrap().as_slice(), b"abcdefghij");
    assert_eq!(prefetch.fetch(0, 10).unwrap().as_slice(), b"abcdefghij");

    // Entirely past the buffered region
    assert_eq!(prefetch.fetch(9, 15).unwrap().as_slice(), b"jklmno");
}
