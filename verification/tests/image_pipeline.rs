use std::collections::HashMap;

use war_thunder_camo_installer::dispatcher::{complete_round, enqueue, tick};
use war_thunder_camo_installer::image_utils::{
    begin_load, cache_file_name, clear_cache, decode, encode_image, encode_pixel_buffer,
    load_image, pixel_buffer_from_raw, settle, CacheDirEntry, DecodeError, FetchError,
    ImageError, PixelBuffer, ResolveAction, ResolveEvent, ResolveState,
};
use war_thunder_camo_installer::jpeg_frames::is_lossless_jpeg;
use war_thunder_camo_installer::loading_gate::LoadingGate;
use war_thunder_camo_installer::pending_queue::PendingQueue;
use war_thunder_camo_installer::result_table::ResultTable;

fn key(s: &str) -> String {
    s.to_string()
}

fn png_of(width: u32, height: u32, rgba: Vec<u8>) -> Vec<u8> {
    let picture = image::RgbaImage::from_raw(width, height, rgba).unwrap();
    let mut file = std::io::Cursor::new(Vec::new());
    picture.write_to(&mut file, image::ImageOutputFormat::Png).unwrap();
    file.into_inner()
}

fn jpeg_of(width: u32, height: u32) -> Vec<u8> {
    let picture = image::RgbImage::from_pixel(width, height, image::Rgb([200, 100, 50]));
    let mut file = std::io::Cursor::new(Vec::new());
    picture.write_to(&mut file, image::ImageOutputFormat::Jpeg(90)).unwrap();
    file.into_inner()
}

/// A byte cache and a network that live in memory, with a count of the
/// network's calls.
struct World {
    cache: HashMap<String, Vec<u8>>,
    network: HashMap<String, Vec<u8>>,
    network_calls: usize,
    lookups: usize,
}

impl World {
    fn new() -> World {
        World { cache: HashMap::new(), network: HashMap::new(), network_calls: 0, lookups: 0 }
    }

    /// Resolves one key as a worker does, step by step.
    fn resolve(&mut self, url: &str) -> Result<PixelBuffer, FetchError> {
        let (mut state, mut action) = begin_load(url);
        let mut name = String::new();
        loop {
            let event = match action {
                ResolveAction::Lookup(file) => {
                    self.lookups += 1;
                    name = file;
                    match self.cache.get(&name) {
                        Some(bytes) => ResolveEvent::CacheHit(bytes.clone()),
                        None => ResolveEvent::CacheMiss,
                    }
                }
                ResolveAction::Fetch => {
                    self.network_calls += 1;
                    match self.network.get(url) {
                        Some(bytes) => ResolveEvent::Fetched(bytes.clone()),
                        None => ResolveEvent::FetchFailed,
                    }
                }
                ResolveAction::Finish { store, outcome } => {
                    assert_eq!(state, ResolveState::Settled);
                    if let Some(bytes) = store {
                        self.cache.insert(name.clone(), bytes);
                    }
                    return outcome;
                }
                ResolveAction::Ignore => panic!("an expected event was ignored"),
            };
            let step = load_image(state, event);
            state = step.0;
            action = step.1;
        }
    }

    /// Runs one whole round over the batch and records its outcomes.
    fn run_round(
        &mut self,
        batch: Vec<String>,
        flag: &mut LoadingGate,
        results: &mut ResultTable<PixelBuffer>,
    ) -> usize {
        let mut outcomes = Vec::new();
        for url in batch {
            let outcome = self.resolve(&url);
            outcomes.push((url, outcome));
        }
        complete_round(flag, results, outcomes)
    }
}

#[test]
fn cache_file_name_is_last_segment() {
    assert_eq!(cache_file_name("https://example.org/skins/skin1.png"), "skin1.png");
    assert_eq!(cache_file_name("skin2.png"), "skin2.png");
    assert_eq!(cache_file_name("https://example.org/skins/"), "");
    assert_eq!(cache_file_name(""), "");
    assert_eq!(cache_file_name("/"), "");
    assert_eq!(cache_file_name("a/b/c"), "c");
    assert_eq!(cache_file_name("a/b/\u{e9}t\u{e9}.png"), "\u{e9}t\u{e9}.png");
}

#[test]
fn begin_load_asks_the_cache_for_the_file_name() {
    let (state, action) = begin_load("https://example.org/a/b.png");
    assert_eq!(state, ResolveState::AwaitingCache);
    match action {
        ResolveAction::Lookup(name) => assert_eq!(name, "b.png"),
        other => panic!("unexpected action {:?}", other),
    }
}

#[test]
fn decode_reads_png_dimensions_and_samples() {
    let rgba = vec![
        255, 0, 0, 255, 0, 255, 0, 128, 0, 0, 255, 0, 1, 2, 3, 4, 5, 6, 7, 8, 9, 10, 11, 12,
    ];
    let buffer = decode(&png_of(3, 2, rgba.clone())).unwrap();
    assert_eq!(buffer.width(), 3);
    assert_eq!(buffer.height(), 2);
    assert_eq!(buffer.as_raw(), &rgba);
}

#[test]
fn decode_reads_jpeg_as_opaque_rgba() {
    let buffer = decode(&jpeg_of(5, 4)).unwrap();
    assert_eq!(buffer.width(), 5);
    assert_eq!(buffer.height(), 4);
    assert_eq!(buffer.as_raw().len(), 4 * 5 * 4);
    for pixel in buffer.as_raw().chunks(4) {
        assert_eq!(pixel[3], 255);
    }
}

#[test]
fn decode_rejects_what_is_no_image() {
    assert_eq!(decode(&vec![1, 2, 3]).unwrap_err(), DecodeError::Unrecognized);
    assert_eq!(decode(&Vec::new()).unwrap_err(), DecodeError::Unrecognized);
    let mut cut = png_of(2, 2, vec![9; 16]);
    cut.truncate(20);
    assert_eq!(decode(&cut).unwrap_err(), DecodeError::Unrecognized);
}

#[test]
fn pixel_buffer_needs_four_samples_a_pixel() {
    assert!(PixelBuffer::from_raw(2, 3, vec![0; 24]).is_some());
    assert!(PixelBuffer::from_raw(2, 3, vec![0; 23]).is_none());
    assert!(PixelBuffer::from_raw(2, 3, vec![0; 25]).is_none());
    assert!(PixelBuffer::from_raw(0, 7, Vec::new()).is_some());
    assert!(PixelBuffer::from_raw(u32::MAX, u32::MAX, Vec::new()).is_none());
    assert!(PixelBuffer::from_raw(u32::MAX, u32::MAX, vec![0; 4]).is_none());
    let buffer = PixelBuffer::from_raw(1, 2, vec![1, 2, 3, 4, 5, 6, 7, 8]).unwrap();
    assert_eq!((buffer.width(), buffer.height()), (1, 2));
    assert_eq!(buffer.as_raw(), &vec![1, 2, 3, 4, 5, 6, 7, 8]);
}

#[test]
fn pixel_buffer_from_raw_names_each_failure() {
    assert_eq!(pixel_buffer_from_raw(None).unwrap_err(), DecodeError::Unrecognized);
    assert_eq!(
        pixel_buffer_from_raw(Some((2, 2, vec![0; 15]))).unwrap_err(),
        DecodeError::Inconsistent
    );
    let buffer = pixel_buffer_from_raw(Some((2, 2, vec![7; 16]))).unwrap();
    assert_eq!((buffer.width(), buffer.height()), (2, 2));
    assert_eq!(buffer.as_raw(), &vec![7; 16]);
}

#[test]
fn encode_image_gives_a_png_of_the_same_pixels() {
    let rgba = vec![10, 20, 30, 40, 50, 60, 70, 80];
    let source = jpeg_of(3, 3);
    let png = encode_image(&source).unwrap();
    assert_ne!(png, source);
    assert_eq!(&png[..8], &[0x89, b'P', b'N', b'G', 0x0d, 0x0a, 0x1a, 0x0a]);
    let again = decode(&png).unwrap();
    let first = decode(&source).unwrap();
    assert_eq!((again.width(), again.height()), (3, 3));
    assert_eq!(again.as_raw(), first.as_raw());

    let buffer = PixelBuffer::from_raw(2, 1, rgba.clone()).unwrap();
    let file = encode_pixel_buffer(&buffer).unwrap();
    assert_ne!(file, rgba);
    let back = decode(&file).unwrap();
    assert_eq!((back.width(), back.height()), (2, 1));
    assert_eq!(back.as_raw(), &rgba);
}

#[test]
fn encode_image_reports_undecodable_bytes() {
    assert_eq!(
        encode_image(&vec![0, 1, 2]).unwrap_err(),
        ImageError::Decoding(DecodeError::Unrecognized)
    );
}

#[test]
fn encode_pixel_buffer_refuses_an_empty_picture() {
    let empty = PixelBuffer::from_raw(0, 0, Vec::new()).unwrap();
    assert_eq!(encode_pixel_buffer(&empty).unwrap_err(), ImageError::Encoding);
}

#[test]
fn load_image_uses_cached_bytes_without_the_network() {
    let png = png_of(2, 1, vec![1, 2, 3, 4, 5, 6, 7, 8]);
    let (state, action) = load_image(ResolveState::AwaitingCache, ResolveEvent::CacheHit(png));
    assert_eq!(state, ResolveState::Settled);
    match action {
        ResolveAction::Finish { store, outcome } => {
            assert!(store.is_none());
            let buffer = outcome.unwrap();
            assert_eq!((buffer.width(), buffer.height()), (2, 1));
        }
        other => panic!("unexpected action {:?}", other),
    }
}

#[test]
fn load_image_fetches_on_a_miss_and_stores_what_came() {
    let (state, action) = load_image(ResolveState::AwaitingCache, ResolveEvent::CacheMiss);
    assert_eq!(state, ResolveState::AwaitingNetwork);
    assert!(matches!(action, ResolveAction::Fetch));

    let png = png_of(1, 1, vec![9, 8, 7, 6]);
    let (state, action) = load_image(state, ResolveEvent::Fetched(png.clone()));
    assert_eq!(state, ResolveState::Settled);
    match action {
        ResolveAction::Finish { store, outcome } => {
            assert_eq!(store, Some(png));
            assert_eq!(outcome.unwrap().as_raw(), &vec![9, 8, 7, 6]);
        }
        other => panic!("unexpected action {:?}", other),
    }
}

#[test]
fn load_image_stores_fetched_bytes_even_if_they_do_not_decode() {
    let (state, action) =
        load_image(ResolveState::AwaitingNetwork, ResolveEvent::Fetched(vec![1, 2, 3]));
    assert_eq!(state, ResolveState::Settled);
    match action {
        ResolveAction::Finish { store, outcome } => {
            assert_eq!(store, Some(vec![1, 2, 3]));
            assert_eq!(
                outcome.unwrap_err(),
                FetchError::Undecodable(DecodeError::Unrecognized)
            );
        }
        other => panic!("unexpected action {:?}", other),
    }
}

#[test]
fn load_image_gives_up_when_the_network_fails() {
    let (state, action) = load_image(ResolveState::AwaitingNetwork, ResolveEvent::FetchFailed);
    assert_eq!(state, ResolveState::Settled);
    match action {
        ResolveAction::Finish { store, outcome } => {
            assert!(store.is_none());
            assert_eq!(outcome.unwrap_err(), FetchError::Unavailable);
        }
        other => panic!("unexpected action {:?}", other),
    }
}

#[test]
fn load_image_ignores_events_out_of_turn() {
    let cases = vec![
        (ResolveState::AwaitingCache, ResolveEvent::Fetched(vec![1])),
        (ResolveState::AwaitingCache, ResolveEvent::FetchFailed),
        (ResolveState::AwaitingNetwork, ResolveEvent::CacheHit(vec![1])),
        (ResolveState::AwaitingNetwork, ResolveEvent::CacheMiss),
        (ResolveState::Settled, ResolveEvent::CacheHit(vec![1])),
        (ResolveState::Settled, ResolveEvent::CacheMiss),
        (ResolveState::Settled, ResolveEvent::Fetched(vec![1])),
        (ResolveState::Settled, ResolveEvent::FetchFailed),
    ];
    for (state, event) in cases {
        let (next, action) = load_image(state, event);
        assert_eq!(next, state);
        assert!(matches!(action, ResolveAction::Ignore));
    }
}

#[test]
fn loading_flag_is_acquired_once() {
    let mut flag = LoadingGate::new();
    assert!(!flag.is_loading());
    assert!(flag.try_acquire());
    assert!(flag.is_loading());
    assert!(!flag.try_acquire());
    assert!(flag.is_loading());
    flag.release();
    assert!(!flag.is_loading());
    assert!(flag.try_acquire());
}

#[test]
fn pending_queue_keeps_order_and_drops_repeats() {
    let mut queue = PendingQueue::new();
    assert!(queue.is_empty());
    assert!(queue.push(key("b")));
    assert!(queue.push(key("a")));
    assert!(!queue.push(key("b")));
    assert_eq!(queue.len(), 2);
    assert!(queue.contains(&key("a")));
    assert!(!queue.contains(&key("c")));
    assert_eq!(queue.drain(), vec![key("b"), key("a")]);
    assert!(queue.is_empty());
    assert_eq!(queue.drain(), Vec::<String>::new());
    queue.push(key("x"));
    queue.clear();
    assert_eq!(queue.len(), 0);
}

#[test]
fn result_table_maps_keys_to_handles() {
    let mut table: ResultTable<u32> = ResultTable::new();
    assert!(table.is_empty());
    assert_eq!(table.insert(key("a"), 1), None);
    assert_eq!(table.insert(key("b"), 2), None);
    assert_eq!(table.insert(key("c"), 3), None);
    assert_eq!(table.insert(key("a"), 10), Some(1));
    assert_eq!(table.len(), 3);
    assert_eq!(table.get(&key("a")), Some(&10));
    assert_eq!(table.get(&key("b")), Some(&2));
    assert_eq!(table.get(&key("c")), Some(&3));
    assert_eq!(table.get(&key("d")), None);
    assert!(table.contains_key(&key("b")));
    assert!(!table.contains_key(&key("")));
    table.clear();
    assert!(table.is_empty());
    assert_eq!(table.len(), 0);
    assert_eq!(table.get(&key("a")), None);
}

#[test]
fn enqueue_skips_resolved_and_queued_keys() {
    let mut queue = PendingQueue::new();
    let mut results: ResultTable<u32> = ResultTable::new();
    results.insert(key("b"), 7);
    enqueue(&mut queue, &results, &vec![key("a"), key("b"), key("a"), key("c")]);
    assert_eq!(queue.len(), 2);
    let mut flag = LoadingGate::new();
    assert_eq!(tick(&mut flag, &mut queue), Some(vec![key("a"), key("c")]));
    assert!(flag.is_loading());
    assert!(queue.is_empty());
}

#[test]
fn same_key_enqueued_many_times_is_fetched_once() {
    let mut queue = PendingQueue::new();
    let results: ResultTable<PixelBuffer> = ResultTable::new();
    for _ in 0..7 {
        enqueue(&mut queue, &results, &vec![key("https://example.org/skin1.png")]);
    }
    enqueue(
        &mut queue,
        &results,
        &vec![key("https://example.org/skin1.png"), key("https://example.org/skin1.png")],
    );
    let mut flag = LoadingGate::new();
    let batch = tick(&mut flag, &mut queue).unwrap();
    assert_eq!(batch, vec![key("https://example.org/skin1.png")]);

    let mut world = World::new();
    let mut table = ResultTable::new();
    world.run_round(batch, &mut flag, &mut table);
    assert_eq!(world.network_calls, 1);
    assert_eq!(world.lookups, 1);
}

#[test]
fn cached_key_is_not_fetched_again() {
    let url = "https://example.org/skins/k.png";
    let mut world = World::new();
    world.network.insert(key(url), png_of(2, 2, vec![5; 16]));
    let mut queue = PendingQueue::new();
    let mut results: ResultTable<PixelBuffer> = ResultTable::new();
    let mut flag = LoadingGate::new();

    enqueue(&mut queue, &results, &vec![key(url)]);
    let batch = tick(&mut flag, &mut queue).unwrap();
    assert_eq!(world.run_round(batch, &mut flag, &mut results), 1);
    assert_eq!(world.network_calls, 1);
    assert!(world.cache.contains_key("k.png"));

    results.clear();
    enqueue(&mut queue, &results, &vec![key(url)]);
    let batch = tick(&mut flag, &mut queue).unwrap();
    assert_eq!(batch, vec![key(url)]);
    assert_eq!(world.run_round(batch, &mut flag, &mut results), 1);
    assert_eq!(world.network_calls, 1);
    assert_eq!(world.lookups, 2);
    assert_eq!(results.get(&key(url)).unwrap().width(), 2);
}

#[test]
fn tick_does_nothing_while_a_round_is_in_flight() {
    let mut queue = PendingQueue::new();
    let results: ResultTable<u8> = ResultTable::new();
    let mut flag = LoadingGate::new();
    enqueue(&mut queue, &results, &vec![key("a"), key("b")]);
    assert!(flag.try_acquire());
    for _ in 0..3 {
        assert_eq!(tick(&mut flag, &mut queue), None);
        assert_eq!(queue.len(), 2);
        assert!(flag.is_loading());
    }
    flag.release();
    assert_eq!(tick(&mut flag, &mut queue), Some(vec![key("a"), key("b")]));
}

#[test]
fn tick_does_nothing_on_an_empty_queue() {
    let mut queue = PendingQueue::new();
    let mut flag = LoadingGate::new();
    assert_eq!(tick(&mut flag, &mut queue), None);
    assert!(!flag.is_loading());
    assert!(queue.is_empty());
}

#[test]
fn round_with_failures_records_the_successes() {
    let mut flag = LoadingGate::new();
    let mut results: ResultTable<PixelBuffer> = ResultTable::new();
    assert!(flag.try_acquire());
    let outcomes = vec![
        (key("1"), Ok(PixelBuffer::from_raw(1, 1, vec![0, 0, 0, 0]).unwrap())),
        (key("2"), Err(FetchError::Undecodable(DecodeError::Unrecognized))),
        (key("3"), Ok(PixelBuffer::from_raw(2, 1, vec![0; 8]).unwrap())),
        (key("4"), Err(FetchError::Undecodable(DecodeError::Unrecognized))),
        (key("5"), Ok(PixelBuffer::from_raw(1, 2, vec![0; 8]).unwrap())),
    ];
    assert_eq!(complete_round(&mut flag, &mut results, outcomes), 3);
    assert_eq!(results.len(), 3);
    assert!(!flag.is_loading());
    assert!(results.contains_key(&key("1")));
    assert!(!results.contains_key(&key("2")));
    assert_eq!(results.get(&key("3")).unwrap().width(), 2);
    assert!(!results.contains_key(&key("4")));
    assert_eq!(results.get(&key("5")).unwrap().height(), 2);
}

#[test]
fn batch_of_five_with_two_undecodable_keys() {
    let mut world = World::new();
    let mut urls = Vec::new();
    for i in 0..5u32 {
        let url = format!("https://example.org/{}.png", i);
        let bytes = if i == 1 || i == 3 { vec![0, 1, 2, 3] } else { png_of(i + 1, 1, vec![7; 4 * (i as usize + 1)]) };
        world.network.insert(url.clone(), bytes);
        urls.push(url);
    }
    let mut queue = PendingQueue::new();
    let mut results: ResultTable<PixelBuffer> = ResultTable::new();
    let mut flag = LoadingGate::new();
    enqueue(&mut queue, &results, &urls);
    let batch = tick(&mut flag, &mut queue).unwrap();
    assert_eq!(batch.len(), 5);
    assert_eq!(world.run_round(batch, &mut flag, &mut results), 3);
    assert_eq!(results.len(), 3);
    assert!(!flag.is_loading());
    assert!(results.contains_key(&urls[0]));
    assert!(!results.contains_key(&urls[1]));
    assert!(results.contains_key(&urls[2]));
    assert!(!results.contains_key(&urls[3]));
    assert!(results.contains_key(&urls[4]));
    assert!(queue.is_empty());
}

#[test]
fn round_of_failures_only_still_clears_the_flag() {
    let mut flag = LoadingGate::new();
    let mut results: ResultTable<u8> = ResultTable::new();
    results.insert(key("kept"), 1);
    flag.try_acquire();
    let outcomes: Vec<(String, Result<u8, FetchError>)> =
        vec![(key("a"), Err(FetchError::Unavailable)), (key("kept"), Err(FetchError::Unavailable))];
    assert_eq!(complete_round(&mut flag, &mut results, outcomes), 0);
    assert!(!flag.is_loading());
    assert_eq!(results.len(), 1);
    assert_eq!(results.get(&key("kept")), Some(&1));
}

#[test]
fn later_success_replaces_an_earlier_one_for_the_same_key() {
    let mut flag = LoadingGate::new();
    let mut results: ResultTable<u8> = ResultTable::new();
    let outcomes: Vec<(String, Result<u8, FetchError>)> =
        vec![(key("a"), Ok(1)), (key("a"), Ok(2)), (key("b"), Ok(3))];
    assert_eq!(complete_round(&mut flag, &mut results, outcomes), 3);
    assert_eq!(results.len(), 2);
    assert_eq!(results.get(&key("a")), Some(&2));
}

#[test]
fn clearing_the_cache_removes_regular_files_only() {
    let entries = vec![
        CacheDirEntry { name: key("skin1.png"), is_file: true },
        CacheDirEntry { name: key("sub"), is_file: false },
        CacheDirEntry { name: key("skin2.png"), is_file: true },
    ];
    assert_eq!(clear_cache(&entries), vec![key("skin1.png"), key("skin2.png")]);
    assert_eq!(clear_cache(&Vec::new()), Vec::<String>::new());
}

#[test]
fn cleared_cache_misses_while_results_stay() {
    let url = "https://example.org/skins/p.png";
    let mut world = World::new();
    world.network.insert(key(url), png_of(1, 3, vec![1; 12]));
    let mut queue = PendingQueue::new();
    let mut results: ResultTable<PixelBuffer> = ResultTable::new();
    let mut flag = LoadingGate::new();
    enqueue(&mut queue, &results, &vec![key(url)]);
    let batch = tick(&mut flag, &mut queue).unwrap();
    world.run_round(batch, &mut flag, &mut results);
    assert!(world.cache.contains_key("p.png"));

    let entries: Vec<CacheDirEntry> = world
        .cache
        .keys()
        .map(|name| CacheDirEntry { name: name.clone(), is_file: true })
        .collect();
    for name in clear_cache(&entries) {
        world.cache.remove(&name);
    }
    assert!(world.cache.is_empty());
    assert_eq!(results.len(), 1);
    assert_eq!(results.get(&key(url)).unwrap().height(), 3);

    let (state, action) = begin_load(url);
    let event = match action {
        ResolveAction::Lookup(name) => match world.cache.get(&name) {
            Some(bytes) => ResolveEvent::CacheHit(bytes.clone()),
            None => ResolveEvent::CacheMiss,
        },
        other => panic!("unexpected action {:?}", other),
    };
    let (_, action) = load_image(state, event);
    assert!(matches!(action, ResolveAction::Fetch));
}

#[test]
fn key_enqueued_during_a_round_waits_for_the_next() {
    let mut queue = PendingQueue::new();
    let mut results: ResultTable<u8> = ResultTable::new();
    let mut flag = LoadingGate::new();
    enqueue(&mut queue, &results, &vec![key("A"), key("B")]);
    let first = tick(&mut flag, &mut queue).unwrap();
    assert_eq!(first, vec![key("A"), key("B")]);

    enqueue(&mut queue, &results, &vec![key("C")]);
    assert_eq!(tick(&mut flag, &mut queue), None);
    assert_eq!(queue.len(), 1);
    assert!(!first.contains(&key("C")));

    let outcomes = first.into_iter().map(|k| (k, Ok(1u8))).collect();
    complete_round(&mut flag, &mut results, outcomes);
    assert!(!flag.is_loading());
    assert!(!results.contains_key(&key("C")));

    let second = tick(&mut flag, &mut queue).unwrap();
    assert_eq!(second, vec![key("C")]);
    assert!(flag.is_loading());
}

#[test]
fn end_to_end_with_one_cached_and_one_remote_image() {
    let mut world = World::new();
    world.cache.insert(key("skin1.png"), png_of(4, 3, vec![1; 48]));
    world.network.insert(key("skin2.png"), png_of(2, 5, vec![2; 40]));
    let mut queue = PendingQueue::new();
    let mut results: ResultTable<PixelBuffer> = ResultTable::new();
    let mut flag = LoadingGate::new();

    enqueue(&mut queue, &results, &vec![key("skin1.png"), key("skin2.png")]);
    let batch = tick(&mut flag, &mut queue).unwrap();
    assert_eq!(world.run_round(batch, &mut flag, &mut results), 2);

    let first = results.get(&key("skin1.png")).unwrap();
    assert_eq!((first.width(), first.height()), (4, 3));
    let second = results.get(&key("skin2.png")).unwrap();
    assert_eq!((second.width(), second.height()), (2, 5));
    assert_eq!(world.network_calls, 1);
    assert!(world.cache.contains_key("skin2.png"));
    assert!(!flag.is_loading());
    assert!(queue.is_empty());
    assert_eq!(tick(&mut flag, &mut queue), None);
}

#[test]
fn decode_reads_jpeg_samples_close_to_the_colour() {
    let buffer = decode(&jpeg_of(8, 8)).unwrap();
    for pixel in buffer.as_raw().chunks(4) {
        for (sample, expected) in pixel.iter().zip([200i32, 100, 50, 255]) {
            assert!((*sample as i32 - expected).abs() <= 3, "{:?}", pixel);
        }
    }
}

#[test]
fn lossless_frames_are_found_behind_what_may_stand_before_them() {
    let lossless: Vec<Vec<u8>> = vec![
        vec![0xFF, 0xD8, 0xFF, 0xC3],
        vec![0xFF, 0xD8, 0xFF, 0xC3, 0x00, 0x0B, 0x08],
        vec![0xFF, 0xD8, 0xFF, 0xFF, 0xFF, 0xC3],
        vec![0xFF, 0xD8, 0xFF, 0x00, 0xFF, 0xC3],
        vec![0xFF, 0xD8, 0xFF, 0xE0, 0x00, 0x02, 0xFF, 0xC3],
        vec![0xFF, 0xD8, 0xFF, 0xE0, 0x00, 0x02, 0x12, 0x34, 0xFF, 0xC3],
        vec![0xFF, 0xD8, 0xFF, 0xE1, 0x00, 0x04, 0xFF, 0xC0, 0xFF, 0xC3],
        vec![0xFF, 0xD8, 0xFF, 0xFE, 0x00, 0x03, 0x41, 0xFF, 0xDB, 0x00, 0x02, 0xFF, 0xC3],
        vec![0xFF, 0xD8, 0xFF, 0xC4, 0x00, 0x02, 0xFF, 0xDD, 0x00, 0x02, 0xFF, 0xC3, 0xFF, 0xC0],
    ];
    for bytes in &lossless {
        assert!(is_lossless_jpeg(bytes), "{:02X?}", bytes);
    }
    let others: Vec<Vec<u8>> = vec![
        vec![],
        vec![0xFF, 0xD8],
        vec![0xFF, 0xD8, 0xFF],
        vec![0xFF, 0xD8, 0x00, 0xFF, 0xC3],
        vec![0x00, 0xD8, 0xFF, 0xC3],
        vec![0xFF, 0xD8, 0xFF, 0xC0],
        vec![0xFF, 0xD8, 0xFF, 0xC2, 0xFF, 0xC3],
        vec![0xFF, 0xD8, 0xFF, 0xC7],
        vec![0xFF, 0xD8, 0xFF, 0xCB],
        vec![0xFF, 0xD8, 0xFF, 0xCF],
        vec![0xFF, 0xD8, 0xFF, 0xE0, 0x00, 0x04, 0xFF, 0xC3, 0xFF, 0xC0],
        vec![0xFF, 0xD8, 0xFF, 0xE0, 0x00, 0x04, 0xFF, 0xC3],
        vec![0xFF, 0xD8, 0xFF, 0xE0, 0x00, 0x01, 0xFF, 0xC3],
        vec![0xFF, 0xD8, 0xFF, 0xE0, 0x00, 0x09, 0xFF, 0xC3],
        vec![0xFF, 0xD8, 0xFF, 0xE0, 0x00],
        vec![0xFF, 0xD8, 0xFF, 0xDA, 0x00, 0x02, 0xFF, 0xC3],
        vec![0xFF, 0xD8, 0xFF, 0x01, 0xFF, 0xC3],
        vec![0xFF, 0xD8, 0xFF, 0xD9, 0xFF, 0xC3],
        vec![0xFF, 0xD8, 0xFF, 0xC8, 0xFF, 0xC3],
        vec![0xFF, 0xD8, 0xFF, 0xCC, 0xFF, 0xC3],
        vec![0xFF, 0xD8, 0xFF, 0xF0, 0x00, 0x02, 0xFF, 0xC3],
        vec![0x89, b'P', b'N', b'G', 0xFF, 0xC3],
    ];
    for bytes in &others {
        assert!(!is_lossless_jpeg(bytes), "{:02X?}", bytes);
    }
    assert!(!is_lossless_jpeg(&jpeg_of(4, 4)));
    assert!(!is_lossless_jpeg(&png_of(1, 1, vec![0xFF, 0xC3, 0xFF, 0xC3])));
}

#[test]
fn lossless_jpeg_is_turned_away_before_decoding() {
    let bytes = vec![
        0xFF, 0xD8, 0xFF, 0xC3, 0x00, 0x0B, 0x04, 0x00, 0x01, 0x00, 0x01, 0x01, 0x01, 0x11, 0x00,
    ];
    assert_eq!(decode(&bytes).unwrap_err(), DecodeError::LosslessJpeg);
    assert_eq!(
        encode_image(&bytes).unwrap_err(),
        ImageError::Decoding(DecodeError::LosslessJpeg)
    );
    let (state, action) =
        load_image(ResolveState::AwaitingCache, ResolveEvent::CacheHit(bytes.clone()));
    assert_eq!(state, ResolveState::Settled);
    match action {
        ResolveAction::Finish { store, outcome } => {
            assert!(store.is_none());
            assert_eq!(
                outcome.unwrap_err(),
                FetchError::Undecodable(DecodeError::LosslessJpeg)
            );
        }
        other => panic!("unexpected action {:?}", other),
    }
    let (_, action) =
        load_image(ResolveState::AwaitingNetwork, ResolveEvent::Fetched(bytes.clone()));
    match action {
        ResolveAction::Finish { store, outcome } => {
            assert_eq!(store, Some(bytes));
            assert_eq!(
                outcome.unwrap_err(),
                FetchError::Undecodable(DecodeError::LosslessJpeg)
            );
        }
        other => panic!("unexpected action {:?}", other),
    }
}

#[test]
fn jpeg_with_frame_codes_in_application_data_is_decoded() {
    let plain = jpeg_of(6, 5);
    let mut spliced = vec![0xFF, 0xD8, 0xFF, 0xE1, 0x00, 0x06, 0xFF, 0xC3, 0xFF, 0xC3];
    spliced.extend_from_slice(&plain[2..]);
    assert!(!is_lossless_jpeg(&spliced));
    let buffer = decode(&spliced).unwrap();
    assert_eq!((buffer.width(), buffer.height()), (6, 5));
    assert_eq!(buffer.as_raw(), decode(&plain).unwrap().as_raw());
}

#[test]
fn settle_hands_on_the_result_and_what_is_to_be_stored() {
    let buffer = PixelBuffer::from_raw(1, 1, vec![1, 2, 3, 4]).unwrap();
    match settle(Ok(buffer), Some(vec![9, 9])) {
        ResolveAction::Finish { store, outcome } => {
            assert_eq!(store, Some(vec![9, 9]));
            assert_eq!(outcome.unwrap().as_raw(), &vec![1, 2, 3, 4]);
        }
        other => panic!("unexpected action {:?}", other),
    }
    for error in [DecodeError::Unrecognized, DecodeError::LosslessJpeg, DecodeError::Inconsistent] {
        match settle(Err(error), None) {
            ResolveAction::Finish { store, outcome } => {
                assert!(store.is_none());
                assert_eq!(outcome.unwrap_err(), FetchError::Undecodable(error));
            }
            other => panic!("unexpected action {:?}", other),
        }
    }
}
