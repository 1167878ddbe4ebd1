use sfy::axl::AXL_POSTCARD_SZ;
use sfy::storage::{
    collection_fname, first_free_collection, id_to_parts, AcquireStep, SdState, Storage,
    StorageErr, COLLECTION_SIZE, STORAGE_VERSION, STORAGE_VERSION_STR,
};
use sfy::storage_v1;

#[test]
fn version_str() {
    let n: u32 = STORAGE_VERSION_STR.parse().unwrap();
    assert_eq!(n, STORAGE_VERSION);
}

#[test]
fn test_id_to_parts() {
    let (c, file, o) = id_to_parts(0);
    assert_eq!(c, "0.2");
    assert_eq!(file, 0);
    assert_eq!(o, 0);

    let (c, file, o) = id_to_parts(1231255);
    assert_eq!(c, "12312.2");
    assert_eq!(file, 55);
    assert_eq!(o, 55 * AXL_POSTCARD_SZ);
}

#[test]
fn mod_test_id_to_parts() {
    let (c, file, o) = storage_v1::id_to_parts(0);
    assert_eq!(c, "0.1");
    assert_eq!(file, 0);
    assert_eq!(o, 0);

    let (c, file, o) = storage_v1::id_to_parts(1234567);
    assert_eq!(c, "123.1");
    assert_eq!(file, 4567);
    assert_eq!(o, 4567 * AXL_POSTCARD_SZ);
}

fn fat32_limits(collection_size: u32) {
    {
        let pcks_per_day = 52 * 60 * 60 * 24 / 1024;
        let collection_file_size = collection_size * AXL_POSTCARD_SZ as u32;

        // max file size.
        assert!((collection_file_size as u64) < { 4 * 1024 * 1024 * 1024 });

        println!("collection file size: {} b", collection_file_size);
        println!("pcks per day: {}", pcks_per_day);

        let collections_per_day = pcks_per_day as f32 / collection_size as f32;
        let collections_per_year = (pcks_per_day * 365) as f32 / collection_size as f32;
        println!("Collections per day: {}", collections_per_day);
        println!("Collections per year: {}", collections_per_year);
        println!(
            "Years of collections possible (FAT32 file limit): {}",
            65536.0 / collections_per_year
        );

        // max files in directory (should last at least a year)
        assert!(collections_per_year < 65536 as f32);
    }
}

#[test]
fn test_fat32_limits() {
    fat32_limits(COLLECTION_SIZE);
}

#[test]
fn mod_test_fat32_limits() {
    fat32_limits(storage_v1::COLLECTION_SIZE);
}

#[test]
fn collection_names() {
    assert_eq!(collection_fname(0), "0.2");
    assert_eq!(collection_fname(9), "9.2");
    assert_eq!(collection_fname(10), "10.2");
    assert_eq!(collection_fname(65535), "65535.2");
    assert_eq!(collection_fname(u32::MAX), "4294967295.2");
    assert_eq!(storage_v1::collection_fname(123), "123.1");
}

#[test]
fn id_parts_reassemble() {
    for id in [0u32, 1, 99, 100, 101, 12345, u32::MAX] {
        let (_, file, off) = id_to_parts(id);
        assert_eq!(file, id % 100);
        assert_eq!(off, (id % 100) as usize * AXL_POSTCARD_SZ);
    }
    let (c, file, _) = id_to_parts(u32::MAX);
    assert_eq!(c, "42949672.2");
    assert_eq!(file, 95);
}

#[test]
fn first_free_collection_skips_used() {
    let names: Vec<String> = vec!["0.2".into(), "1.2".into(), "3.2".into(), "2.1".into()];
    assert_eq!(first_free_collection(&names, 0), Ok(2));
    assert_eq!(first_free_collection(&names, 3), Ok(4));
    assert_eq!(first_free_collection(&Vec::new(), 7), Ok(7));
    assert_eq!(first_free_collection(&names, 65536), Err(StorageErr::DiskFull));
    let last: Vec<String> = vec!["65535.2".into()];
    assert_eq!(first_free_collection(&last, 65535), Err(StorageErr::DiskFull));
}

#[test]
fn acquire_retries_after_delay() {
    let mut s = Storage::open();
    assert_eq!(s.next_id(), None);
    assert_eq!(s.acquire(10), AcquireStep::Initialize);
    assert_eq!(s.state(), SdState::Retry { last_try: 10 });
    // initialization failed: wait before re-trying
    assert_eq!(s.acquire(20), AcquireStep::Wait);
    assert_eq!(s.acquire(610), AcquireStep::Wait);
    assert_eq!(s.acquire(611), AcquireStep::Initialize);
    assert_eq!(s.state(), SdState::Retry { last_try: 611 });
    s.initialized(3);
    assert_eq!(s.next_id(), Some(300));
    assert_eq!(s.acquire(612), AcquireStep::Reuse);
    s.failed();
    assert_eq!(s.state(), SdState::Uninitialized);
    s.initialized(0);
    s.deinit();
    assert_eq!(s.next_id(), None);
}

#[test]
fn advance_id_rolls_over_to_free_collection() {
    let mut s = Storage::open();
    assert_eq!(s.advance_id(None), Err(StorageErr::Uninitialized));
    s.initialized(2);
    assert_eq!(s.pending_rollover(), None);
    assert_eq!(s.advance_id(None), Ok(200));
    assert_eq!(s.next_id(), Some(201));

    let mut s = Storage::open();
    s.initialized(0);
    for id in 0..99 {
        assert_eq!(s.advance_id(None), Ok(id));
    }
    assert_eq!(s.next_id(), Some(99));
    // next id would start collection 1, which is in use; 5 is the next free.
    assert_eq!(s.pending_rollover(), Some(1));
    assert_eq!(s.advance_id(Some(Ok(5))), Ok(99));
    assert_eq!(s.next_id(), Some(500));

    // the next collection is free: just continue.
    let mut s = Storage::open();
    s.initialized(0);
    for _ in 0..99 {
        s.advance_id(None).unwrap();
    }
    assert_eq!(s.advance_id(Some(Ok(1))), Ok(99));
    assert_eq!(s.next_id(), Some(100));

    // the lookup failed: the error is returned and the ID stays.
    let mut s = Storage::open();
    s.initialized(0);
    for _ in 0..99 {
        s.advance_id(None).unwrap();
    }
    assert_eq!(s.advance_id(Some(Err(StorageErr::DiskFull))), Err(StorageErr::DiskFull));
    assert_eq!(s.next_id(), Some(99));
    // an error of a lookup that was not needed is ignored.
    let mut s = Storage::open();
    s.initialized(0);
    assert_eq!(s.advance_id(Some(Err(StorageErr::DiskFull))), Ok(0));
}

#[test]
fn storage_v1_ids() {
    let mut ids = storage_v1::StorageIds::new();
    assert_eq!(ids.current_id(), None);
    ids.opened(3);
    assert_eq!(ids.current_id(), Some(30000));
    assert_eq!(ids.take_id(), 30000);
    assert_eq!(ids.current_id(), Some(30001));
    ids.set_id(7);
    assert_eq!(ids.take_id(), 7);
}
