use datafall::chunk::{
    chunk_file_name, chunk_path_components, chunk_range, chunk_range_is_defined, chunk_size,
    SPLIT_CHUNK_COUNT,
};
use datafall::fragment::{check_fragment_status, range_header_value};

#[test]
fn chunk_ranges_of_a_split_file() {
    let file_size = 1000u64;
    let size = chunk_size(file_size, SPLIT_CHUNK_COUNT);
    assert_eq!(size, 62);
    assert_eq!(chunk_range(0, 16, size, file_size), (0, 61));
    assert_eq!(chunk_range(1, 16, size, file_size), (62, 123));
    assert_eq!(chunk_range(14, 16, size, file_size), (868, 929));
    assert_eq!(chunk_range(15, 16, size, file_size), (930, 1000));
}

#[test]
fn split_chunks_tile_the_file() {
    for file_size in [16u64, 17, 31, 1000, 1048577, u64::MAX / 2] {
        let size = chunk_size(file_size, 16);
        let mut next = 0u64;
        for i in 0..16 {
            assert!(chunk_range_is_defined(i, 16, size, file_size));
            let (start, end) = chunk_range(i, 16, size, file_size);
            assert_eq!(start, next);
            assert!(start <= end);
            next = end + 1;
        }
        assert_eq!(next, file_size + 1);
    }
}

#[test]
fn chunk_range_undefined_cases() {
    // a file smaller than the number of chunks gives empty chunks
    assert!(!chunk_range_is_defined(0, 16, chunk_size(10, 16), 10));
    // a chunk past the last
    assert!(!chunk_range_is_defined(16, 16, 5, 100));
    // products that overflow
    assert!(!chunk_range_is_defined(2, 16, u64::MAX / 2, u64::MAX));
    // the last of another number of chunks than sixteen
    assert!(!chunk_range_is_defined(7, 8, chunk_size(1600, 8), 1600));
    assert!(chunk_range_is_defined(6, 8, chunk_size(1600, 8), 1600));
}

#[test]
fn chunk_names_and_paths() {
    assert_eq!(chunk_file_name(0), "part0.fragment");
    assert_eq!(chunk_file_name(15), "part15.fragment");
    assert_eq!(
        chunk_path_components("aGFzaA==", 3),
        vec!["datafall".to_string(), "aGFzaA==".to_string(), "part3.fragment".to_string()]
    );
    assert_ne!(chunk_file_name(1), chunk_file_name(11));
}

#[test]
fn range_header_values() {
    assert_eq!(range_header_value(0, 61), "bytes=0-61");
    assert_eq!(range_header_value(930, 1000), "bytes=930-1000");
}

#[test]
fn fragment_status_checks() {
    assert_eq!(check_fragment_status(true, 206), Ok(()));
    assert_eq!(
        check_fragment_status(true, 200),
        Err("The status code wasn't 206 Partial Content!".to_string())
    );
    assert_eq!(check_fragment_status(false, 200), Ok(()));
    assert_eq!(check_fragment_status(false, 404), Ok(()));
}
