use usbsas_core::artifact::{
    candidates, content_encoding, download_base, find_bundle, is_compressed, new_upload,
    uncompressed_size, upload_path, ArtifactError, Encoding, Stored,
};

#[test]
fn a_fresh_job_id_is_a_simple_random_identifier() {
    let u = new_upload("/work");
    assert_eq!(u.id.len(), 32);
    assert!(u.id.chars().all(|c| c.is_ascii_digit() || ('a'..='f').contains(&c)));
    assert_eq!(u.id.chars().nth(12), Some('4'));
    assert!(matches!(u.id.chars().nth(16), Some('8') | Some('9') | Some('a') | Some('b')));
    assert_eq!(u.path, format!("/work/{}.tar", u.id));
}

#[test]
fn job_ids_differ_from_call_to_call() {
    let a = new_upload("/work");
    let b = new_upload("/work");
    let c = new_upload("/work");
    assert_ne!(a.id, b.id);
    assert_ne!(a.id, c.id);
    assert_ne!(b.id, c.id);
}

#[test]
fn bundles_are_stored_by_job_id() {
    assert_eq!(upload_path("/work", "abc"), "/work/abc.tar");
    assert_eq!(download_base("/work", "7", "b1"), "/work/7/b1");
}

#[test]
fn the_names_are_tried_in_order() {
    assert_eq!(candidates("/w/7/b"), vec!["/w/7/b.tar", "/w/7/b.tar.gz", "/w/7/b.gz"]);
}

#[test]
fn the_first_name_found_wins() {
    assert_eq!(
        find_bundle("/w/b", &vec![Some(10), Some(20), Some(30)]),
        Ok(Stored { path: "/w/b.tar".to_string(), size: 10 })
    );
    assert_eq!(
        find_bundle("/w/b", &vec![None, Some(20), Some(30)]),
        Ok(Stored { path: "/w/b.tar.gz".to_string(), size: 20 })
    );
    assert_eq!(
        find_bundle("/w/b", &vec![None, None, Some(0)]),
        Ok(Stored { path: "/w/b.gz".to_string(), size: 0 })
    );
}

#[test]
fn a_bundle_under_no_name_is_not_found() {
    assert_eq!(find_bundle("/w/b", &vec![None, None, None]), Err(ArtifactError::NotFound));
    assert_eq!(ArtifactError::NotFound.message(), "Bundle not found");
    assert_eq!(find_bundle("/w/b", &vec![]), Err(ArtifactError::NotFound));
    assert_eq!(find_bundle("/w/b", &vec![None]), Err(ArtifactError::NotFound));
    assert_eq!(
        find_bundle("/w/b", &vec![None, None, None, Some(5)]),
        Err(ArtifactError::NotFound)
    );
}

#[test]
fn a_path_that_ends_in_gz_is_compressed() {
    assert!(is_compressed("/w/b.tar.gz"));
    assert!(is_compressed("/w/b.gz"));
    assert!(is_compressed("/w/bgz"));
    assert!(!is_compressed("/w/b.tar"));
    assert!(!is_compressed("/w/b.gz.tar"));
    assert_eq!(content_encoding("/w/b.tar.gz"), Encoding::Gzip);
    assert_eq!(content_encoding("/w/b.tar"), Encoding::Identity);
}

#[test]
fn scenario_size_of_a_compressed_ten_mebibyte_bundle() {
    let uncompressed: u32 = 10 * 1024 * 1024;
    let on_disk: u64 = 10_321;
    let trailer = uncompressed.to_le_bytes();
    assert_eq!(trailer, [0x00, 0x00, 0xa0, 0x00]);
    let size = uncompressed_size("/w/7/b.tar.gz", on_disk, Some(trailer));
    assert_eq!(size, 10_485_760);
    assert_ne!(size, on_disk);
}

#[test]
fn the_size_of_a_plain_bundle_is_the_size_of_the_file() {
    assert_eq!(uncompressed_size("/w/7/b.tar", 10_485_760, None), 10_485_760);
    assert_eq!(uncompressed_size("/w/7/b.tar", 5, Some([1, 2, 3, 4])), 5);
    assert_eq!(uncompressed_size("/w/7/b.tar", u64::MAX, None), u64::MAX);
}

#[test]
fn the_trailer_is_read_least_significant_byte_first() {
    assert_eq!(uncompressed_size("b.gz", 0, Some([1, 0, 0, 0])), 1);
    assert_eq!(uncompressed_size("b.gz", 0, Some([0, 1, 0, 0])), 256);
    assert_eq!(uncompressed_size("b.gz", 0, Some([0, 0, 1, 0])), 65_536);
    assert_eq!(uncompressed_size("b.gz", 0, Some([0, 0, 0, 1])), 16_777_216);
    assert_eq!(uncompressed_size("b.gz", 0, Some([0x78, 0x56, 0x34, 0x12])), 0x1234_5678);
    assert_eq!(uncompressed_size("b.gz", 9, Some([255, 255, 255, 255])), 4_294_967_295);
}
