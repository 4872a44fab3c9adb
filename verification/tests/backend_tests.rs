use iban_calculator::backend::any::{any_backend_kind, backend_kind, BackendKind, BACKEND_KINDS};
use iban_calculator::backend::rayon::{RayonBackend, SpawnError};
use iban_calculator::backend::sequential::{
    count_range, enumerate_range, find_range, list_range, SequentialBackend,
};
use iban_calculator::backend::signal::{decode_signal, encode_signal, SearchSignal};
use iban_calculator::backend::threads::{
    conclude, count_chunks, enumerate_chunks, merge_lists, search_chunk,
    search_chunks, settle, split_ranges, sum_counts, try_candidate, ChunkOutcome, Range,
    ThreadBackend, Verdict,
};
use iban_calculator::backend::{Backend, Checksum, Predicate, Preimage};
use iban_calculator::program_mode::{run, try_run, write_pair, Output, ProgramMode};
use iban_calculator::settings::Settings;
use ChunkOutcome::{Exhausted, Found, Stopped};

struct EveryThird;

impl Predicate for EveryThird {
    fn holds(&self, x: u32) -> bool {
        x % 3 == 0
    }

    fn test(&self, x: u32) -> bool {
        self.holds(x)
    }
}

struct Only(u32);

impl Predicate for Only {
    fn holds(&self, x: u32) -> bool {
        x == self.0
    }

    fn test(&self, x: u32) -> bool {
        self.holds(x)
    }
}

struct Nothing;

impl Predicate for Nothing {
    fn holds(&self, _: u32) -> bool {
        false
    }

    fn test(&self, x: u32) -> bool {
        self.holds(x)
    }
}

fn settings(bottom: u32, top: u32, modulo: u32, threads: u32) -> Settings {
    Settings { custom_lock: false, bottom, top, modulo, threads }
}

fn digest_of(x: u32) -> [u8; 20] {
    sha1::Sha1::from(format!("{}", x)).digest().bytes()
}

fn bounds(parts: &[Range]) -> Vec<(u32, u32)> {
    parts.iter().map(|part| (part.low, part.high)).collect()
}

fn every_third_listing() -> Vec<(u32, u32)> {
    (0u32..34).map(|i| (i + 1, 3 * i)).collect()
}

#[test]
fn split_ranges_gives_the_remainder_to_the_last_chunk() {
    assert_eq!(bounds(&split_ranges(0, 10, 3)), vec![(0, 3), (3, 6), (6, 10)]);
    assert_eq!(bounds(&split_ranges(1, 20, 4)), vec![(1, 5), (5, 9), (9, 13), (13, 20)]);
    assert_eq!(bounds(&split_ranges(5, 17, 1)), vec![(5, 17)]);
    assert_eq!(bounds(&split_ranges(0, 100, 8)).len(), 8);
    assert_eq!(bounds(&split_ranges(0, 100, 8))[7], (84, 100));
}

#[test]
fn split_ranges_with_more_chunks_than_numbers_gives_empty_chunks() {
    assert_eq!(bounds(&split_ranges(7, 9, 4)), vec![(7, 7), (7, 7), (7, 7), (7, 9)]);
    assert_eq!(bounds(&split_ranges(3, 3, 3)), vec![(3, 3), (3, 3), (3, 3)]);
}

#[test]
fn split_ranges_reaches_the_end_of_the_type() {
    assert_eq!(
        bounds(&split_ranges(0, u32::MAX, 2)),
        vec![(0, 2147483647), (2147483647, u32::MAX)]
    );
    assert_eq!(bounds(&split_ranges(u32::MAX - 1, u32::MAX, 2))[1], (u32::MAX - 1, u32::MAX));
}

#[test]
fn split_ranges_neither_drops_nor_repeats() {
    for (low, high) in [(0u32, 100u32), (1, 20), (17, 18), (5, 5), (1000, 1234)] {
        for chunks in [1u32, 2, 3, 7, 8, 64, 300] {
            let parts = split_ranges(low, high, chunks);
            assert_eq!(parts.len(), chunks as usize);
            assert_eq!(parts[0].low, low);
            assert_eq!(parts[parts.len() - 1].high, high);
            let mut size: u32 = 0;
            for i in 0..parts.len() {
                assert!(parts[i].low <= parts[i].high);
                if i + 1 < parts.len() {
                    assert_eq!(parts[i].high, parts[i + 1].low);
                }
                size += parts[i].high - parts[i].low;
            }
            assert_eq!(size, high - low);
        }
    }
}

#[test]
fn count_over_one_to_twenty_modulo_three() {
    // Weighted digit sums that 3 divides: 3, 6, 9, 11 (1 + 2), 14 (4 + 2), 17 (7 + 2).
    let s = settings(1, 20, 3, 4);
    assert_eq!(SequentialBackend.run_count(&s), 6);
    assert_eq!(ThreadBackend.run_count(&s), 6);
    assert_eq!(RayonBackend::new(4).unwrap().run_count(&s), 6);
    assert_eq!(count_range(&Checksum { modulo: 3 }, 1, 20), 6);
}

#[test]
fn listing_over_one_to_twenty_modulo_three() {
    let expected = vec![(1, 3), (2, 6), (3, 9), (4, 11), (5, 14), (6, 17)];
    let s = settings(1, 20, 3, 4);
    assert_eq!(SequentialBackend.run_list(&s), expected);
    assert_eq!(ThreadBackend.run_list(&s), expected);
    assert_eq!(RayonBackend::new(4).unwrap().run_list(&s), expected);
}

#[test]
fn count_is_the_same_for_every_strategy() {
    let pool = RayonBackend::new(3).unwrap();
    for modulo in [1u32, 2, 7, 11, 97] {
        for (bottom, top) in [(0u32, 0u32), (0, 1), (0, 1000), (990, 2010), (123456, 124000)] {
            let reference = (bottom..top)
                .filter(|x| iban_calculator::util::m_proef(*x, modulo))
                .count() as u32;
            for threads in [1u32, 2, 8, 5000] {
                let s = settings(bottom, top, modulo, threads);
                assert_eq!(SequentialBackend.run_count(&s), reference);
                assert_eq!(ThreadBackend.run_count(&s), reference);
                assert_eq!(pool.run_count(&s), reference);
            }
        }
    }
}

#[test]
fn enumerate_every_third_number_whatever_the_number_of_workers() {
    let expected = every_third_listing();
    assert_eq!(enumerate_range(&EveryThird, 0, 100), expected);
    assert_eq!(enumerate_chunks(&EveryThird, 0, 100, 1), expected);
    assert_eq!(enumerate_chunks(&EveryThird, 0, 100, 2), expected);
    assert_eq!(enumerate_chunks(&EveryThird, 0, 100, 8), expected);
    assert_eq!(enumerate_chunks(&EveryThird, 0, 100, 1000), expected);
    for workers in [1usize, 2, 8] {
        assert_eq!(RayonBackend::new(workers).unwrap().enumerate(&EveryThird, 0, 100), expected);
    }
}

#[test]
fn enumerate_numbers_from_one_in_ascending_order() {
    for chunks in [1u32, 2, 8] {
        let listing = enumerate_chunks(&Checksum { modulo: 7 }, 500, 900, chunks);
        assert!(!listing.is_empty());
        for (i, (ordinal, value)) in listing.iter().enumerate() {
            assert_eq!(*ordinal as usize, i + 1);
            assert!(iban_calculator::util::m_proef(*value, 7));
            if i > 0 {
                assert!(listing[i - 1].1 < *value);
            }
        }
        assert_eq!(listing.len() as u32, count_range(&Checksum { modulo: 7 }, 500, 900));
    }
}

#[test]
fn an_empty_range_has_nothing_in_it() {
    assert_eq!(count_range(&EveryThird, 9, 9), 0);
    assert_eq!(count_range(&EveryThird, 9, 3), 0);
    assert_eq!(list_range(&EveryThird, 9, 3), Vec::<u32>::new());
    assert_eq!(enumerate_range(&EveryThird, 9, 9), Vec::<(u32, u32)>::new());
    assert_eq!(find_range(&EveryThird, 9, 9), None);
    assert_eq!(count_chunks(&EveryThird, 9, 9, 4), 0);
    assert_eq!(search_chunks(&EveryThird, 9, 9, 4), None);
    assert_eq!(RayonBackend::new(2).unwrap().count(&EveryThird, 9, 9), 0);
}

#[test]
fn list_range_reaches_the_last_number_before_the_end() {
    assert_eq!(list_range(&EveryThird, u32::MAX - 4, u32::MAX), vec![u32::MAX - 3]);
    assert_eq!(count_range(&EveryThird, u32::MAX - 4, u32::MAX), 1);
}

#[test]
fn search_finds_the_one_number_that_qualifies() {
    // 274856182: 2 + 16 + 3 + 24 + 25 + 48 + 28 + 56 + 18 = 220 = 20 * 11.
    let target = 274856182u32;
    assert!(iban_calculator::util::m_proef(target, 11));
    let hash = digest_of(target);
    let pool = RayonBackend::new(4).unwrap();
    for threads in [1u32, 2, 8] {
        let s = settings(274856170, 274856190, 11, threads);
        assert_eq!(SequentialBackend.run_search(&s, Box::new(hash)), Some(target));
        assert_eq!(ThreadBackend.run_search(&s, Box::new(hash)), Some(target));
        assert_eq!(pool.run_search(&s, Box::new(hash)), Some(target));
    }
}

#[test]
fn search_finds_nothing_where_nothing_qualifies() {
    let pool = RayonBackend::new(4).unwrap();
    // The digest of a number outside the range.
    let outside = digest_of(274856182);
    // The digest of a number inside the range that fails the checksum.
    let failing = digest_of(274856183);
    assert!(!iban_calculator::util::m_proef(274856183, 11));
    for threads in [1u32, 2, 8] {
        let s = settings(274856183, 274856300, 11, threads);
        for hash in [outside, failing, [0u8; 20]] {
            assert_eq!(SequentialBackend.run_search(&s, Box::new(hash)), None);
            assert_eq!(ThreadBackend.run_search(&s, Box::new(hash)), None);
            assert_eq!(pool.run_search(&s, Box::new(hash)), None);
        }
    }
}

#[test]
fn search_with_any_predicate_and_any_number_of_chunks() {
    let pool = RayonBackend::new(8).unwrap();
    for chunks in [1u32, 2, 8, 77] {
        assert_eq!(search_chunks(&Only(4321), 0, 10000, chunks), Some(4321));
        assert_eq!(search_chunks(&Only(0), 0, 10000, chunks), Some(0));
        assert_eq!(search_chunks(&Only(9999), 0, 10000, chunks), Some(9999));
        assert_eq!(search_chunks(&Only(10000), 0, 10000, chunks), None);
        assert_eq!(search_chunks(&Nothing, 0, 10000, chunks), None);
    }
    assert_eq!(find_range(&Only(4321), 0, 10000), Some(4321));
    assert_eq!(find_range(&EveryThird, 1, 10000), Some(3));
    assert_eq!(pool.search(&Only(4321), 0, 10000), Some(4321));
    assert_eq!(pool.search(&Nothing, 0, 10000), None);
    let some = pool.search(&EveryThird, 1, 10000).unwrap();
    assert!(some % 3 == 0 && 1 <= some && some < 10000);
}

#[test]
fn preimage_asks_for_checksum_and_digest() {
    let hash = digest_of(274856182);
    assert!(Preimage { modulo: 11, hash }.test(274856182));
    assert!(!Preimage { modulo: 7, hash }.test(274856182));
    assert!(!Preimage { modulo: 11, hash }.test(274856193));
    assert!(!Preimage { modulo: 0, hash }.test(274856182));
    assert!(Checksum { modulo: 11 }.test(274856182));
    assert!(!Checksum { modulo: 0 }.test(274856182));
}

#[test]
fn search_chunk_stops_at_the_first_number_that_passes() {
    let signal = SearchSignal::new();
    assert_eq!(search_chunk(&Nothing, 0, 50, &signal), ChunkOutcome::Exhausted);
    assert_eq!(search_chunk(&EveryThird, 10, 50, &signal), ChunkOutcome::Found(12));
    // The signal is set now: the next worker gives up at once.
    assert_eq!(search_chunk(&EveryThird, 50, 90, &signal), ChunkOutcome::Stopped);
    // With nothing to try there is nothing to stop.
    assert_eq!(search_chunk(&EveryThird, 90, 90, &signal), ChunkOutcome::Exhausted);
}

#[test]
fn conclude_takes_the_first_find() {
    assert_eq!(conclude(&vec![]), Verdict::Absent);
    assert_eq!(conclude(&vec![Exhausted, Exhausted]), Verdict::Absent);
    assert_eq!(conclude(&vec![Exhausted, Found(5), Found(9)]), Verdict::Found(5));
    assert_eq!(conclude(&vec![Stopped, Found(9), Stopped]), Verdict::Found(9));
    assert_eq!(conclude(&vec![Exhausted, Stopped]), Verdict::Open);
    assert_eq!(conclude(&vec![Stopped, Exhausted]), Verdict::Open);
}

#[test]
fn settle_searches_again_where_the_verdict_is_open() {
    let blank = SearchSignal::new();
    assert_eq!(settle(&EveryThird, 10, 50, Verdict::Found(33), &blank), Some(33));
    assert_eq!(settle(&EveryThird, 10, 50, Verdict::Absent, &blank), None);
    assert_eq!(settle(&EveryThird, 10, 50, Verdict::Open, &blank), Some(12));
    assert_eq!(settle(&Nothing, 10, 50, Verdict::Open, &blank), None);
    // A number on the signal is taken only if it stands the test.
    let set = SearchSignal::new();
    assert_eq!(search_chunk(&EveryThird, 40, 50, &set), ChunkOutcome::Found(42));
    assert_eq!(settle(&EveryThird, 10, 50, Verdict::Open, &set), Some(42));
    assert_eq!(settle(&Only(20), 10, 50, Verdict::Open, &set), Some(20));
    assert_eq!(settle(&EveryThird, 10, 40, Verdict::Open, &set), Some(12));
}

#[test]
fn signal_codes_keep_zero_for_nothing() {
    assert_eq!(encode_signal(0), 1);
    assert_eq!(encode_signal(u32::MAX), 0x1_0000_0000);
    assert_eq!(decode_signal(0), None);
    assert_eq!(decode_signal(1), Some(0));
    assert_eq!(decode_signal(0x1_0000_0000), Some(u32::MAX));
    assert_eq!(decode_signal(0x1_0000_0001), None);
    for x in [0u32, 1, 77, u32::MAX - 1, u32::MAX] {
        assert_eq!(decode_signal(encode_signal(x)), Some(x));
    }
}

#[test]
fn merges_keep_the_order_of_the_chunks() {
    assert_eq!(sum_counts(&vec![]), Some(0));
    assert_eq!(sum_counts(&vec![3, 0, 4]), Some(7));
    assert_eq!(sum_counts(&vec![u32::MAX - 1, 1]), Some(u32::MAX));
    assert_eq!(sum_counts(&vec![u32::MAX, 1]), None);
    assert_eq!(sum_counts(&vec![1, u32::MAX, 0]), None);
    assert_eq!(merge_lists(&vec![]), Some(Vec::<(u32, u32)>::new()));
    assert_eq!(
        merge_lists(&vec![vec![3, 6], vec![], vec![11], vec![14, 17]]),
        Some(vec![(1, 3), (2, 6), (3, 11), (4, 14), (5, 17)])
    );
}

#[test]
fn settings_are_valid_with_a_range_a_modulus_and_a_worker() {
    assert!(settings(1, 20, 3, 1).is_valid());
    assert!(settings(5, 5, 3, 1).is_valid());
    assert!(!settings(6, 5, 3, 1).is_valid());
    assert!(!settings(1, 20, 0, 1).is_valid());
    assert!(!settings(1, 20, 3, 0).is_valid());
}

#[test]
fn run_gives_what_the_mode_asks_for() {
    let s = settings(1, 20, 3, 2);
    match run(&ThreadBackend, &s, ProgramMode::Count) {
        Output::Count(6) => {},
        other => panic!("{:?}", other),
    }
    match ProgramMode::List.run(&s) {
        Output::List(listing) => {
            assert_eq!(listing, vec![(1, 3), (2, 6), (3, 9), (4, 11), (5, 14), (6, 17)])
        },
        other => panic!("{:?}", other),
    }
    match ProgramMode::Search(Box::new(digest_of(14))).run(&s) {
        Output::Search(Some(14)) => {},
        other => panic!("{:?}", other),
    }
    match run(&SequentialBackend, &s, ProgramMode::Search(Box::new(digest_of(15)))) {
        Output::Search(None) => {},
        other => panic!("{:?}", other),
    }
    match ProgramMode::Count.run(&s) {
        Output::Count(6) => {},
        other => panic!("{:?}", other),
    }
}

#[test]
fn every_strategy_has_a_number() {
    assert_eq!(BACKEND_KINDS, 5);
    assert_eq!(backend_kind(0), BackendKind::SpinLock);
    assert_eq!(backend_kind(1), BackendKind::Rayon);
    assert_eq!(backend_kind(2), BackendKind::AdvancedSpinLock);
    assert_eq!(backend_kind(3), BackendKind::Thread);
    assert_eq!(backend_kind(4), BackendKind::Sequential);
}

#[test]
fn the_lot_falls_on_every_strategy() {
    let mut seen = [false; 5];
    for _ in 0..2000 {
        let kind = any_backend_kind();
        let index = (0..5).find(|i| backend_kind(*i) == kind).unwrap();
        seen[index as usize] = true;
    }
    assert_eq!(seen, [true; 5]);
}

#[test]
fn render_writes_what_is_printed() {
    assert_eq!(Output::Count(0).render(), b"0\n".to_vec());
    assert_eq!(Output::Count(6).render(), b"6\n".to_vec());
    assert_eq!(Output::Count(u32::MAX).render(), b"4294967295\n".to_vec());
    assert_eq!(Output::Search(Some(274856182)).render(), b"274856182\n".to_vec());
    assert_eq!(Output::Search(None).render(), b"-1\n".to_vec());
    assert_eq!(Output::List(vec![]).render(), Vec::<u8>::new());
    assert_eq!(
        Output::List(vec![(1, 3), (2, 6), (3, 9), (4, 11)]).render(),
        b"1 3\n2 6\n3 9\n4 11\n".to_vec()
    );
    let mut text: Vec<u8> = b"> ".to_vec();
    write_pair(&mut text, (10, 200));
    assert_eq!(text, b"> 10 200\n".to_vec());
}

#[test]
fn settings_compare_field_by_field() {
    assert_eq!(settings(1, 20, 3, 4), settings(1, 20, 3, 4));
    assert_ne!(settings(1, 20, 3, 4), settings(1, 20, 3, 5));
    let mut with_lock = settings(1, 20, 3, 4);
    with_lock.custom_lock = true;
    assert_ne!(with_lock, settings(1, 20, 3, 4));
}

#[test]
fn a_pool_that_cannot_start_its_threads_is_reported() {
    let failed = rayon::ThreadPoolBuilder::new()
        .num_threads(2)
        .spawn_handler(|_| Err(std::io::Error::new(std::io::ErrorKind::Other, "no threads")))
        .build();
    assert!(failed.is_err());
    assert_eq!(RayonBackend::from_build(failed).err(), Some(SpawnError));
    let built = rayon::ThreadPoolBuilder::new().num_threads(2).build();
    let backend = RayonBackend::from_build(built).ok().unwrap();
    assert_eq!(backend.count(&EveryThird, 0, 100), 34);
}

#[test]
fn a_pool_may_choose_the_number_of_its_threads() {
    let backend = RayonBackend::new(0).ok().unwrap();
    assert!(backend.pool().current_num_threads() >= 1);
    assert_eq!(RayonBackend::new(3).ok().unwrap().pool().current_num_threads(), 3);
    assert_eq!(backend.count(&EveryThird, 0, 100), 34);
    assert_eq!(backend.count(&EveryThird, 100, 0), 0);
    assert_eq!(backend.enumerate(&EveryThird, 100, 0), Vec::<(u32, u32)>::new());
    assert_eq!(backend.search(&EveryThird, 100, 0), None);
}

#[test]
fn nothing_is_dispatched_on_settings_that_are_not_valid() {
    assert!(try_run(&ThreadBackend, &settings(1, 20, 3, 0), ProgramMode::Count).is_none());
    assert!(try_run(&ThreadBackend, &settings(20, 1, 3, 2), ProgramMode::List).is_none());
    assert!(try_run(&SequentialBackend, &settings(1, 20, 0, 2), ProgramMode::Count).is_none());
    match try_run(&ThreadBackend, &settings(1, 20, 3, 2), ProgramMode::Count) {
        Some(Output::Count(6)) => {},
        other => panic!("{:?}", other),
    }
}

#[test]
fn a_candidate_is_tested_unless_the_signal_was_seen_set() {
    assert_eq!(try_candidate(&EveryThird, 9, false), Some(Found(9)));
    assert_eq!(try_candidate(&EveryThird, 10, false), None);
    assert_eq!(try_candidate(&EveryThird, 9, true), Some(Stopped));
    assert_eq!(try_candidate(&EveryThird, 10, true), Some(Stopped));
}

#[test]
fn a_chunk_without_numbers_is_exhausted_whatever_the_signal_holds() {
    let signal = SearchSignal::new();
    assert_eq!(search_chunk(&EveryThird, 5, 5, &signal), Exhausted);
    assert_eq!(search_chunk(&EveryThird, 0, 1, &signal), Found(0));
    assert_eq!(search_chunk(&EveryThird, 5, 5, &signal), Exhausted);
    assert_eq!(search_chunk(&EveryThird, 9, 2, &signal), Exhausted);
    assert_eq!(search_chunk(&EveryThird, 5, 6, &signal), Stopped);
}
