use auction_stage::storage::{
    build_manifest, final_image_path, get_latest_folder_number, parse_folder_number,
    parse_image_index, scan_allocate, sort_staged_files, upload_key, upload_plan, FolderCounter,
};

fn listing(names: &[&str]) -> Vec<String> {
    names.iter().map(|s| s.to_string()).collect()
}

#[test]
fn parses_group_names_as_folder_numbers() {
    assert_eq!(parse_folder_number("images/5/"), Some(5));
    assert_eq!(parse_folder_number("images/112"), Some(112));
    assert_eq!(parse_folder_number("images/0/"), Some(0));
    assert_eq!(parse_folder_number("images/not-a-number/"), None);
    assert_eq!(parse_folder_number("images//"), None);
    assert_eq!(parse_folder_number(""), None);
}

#[test]
fn latest_folder_is_the_maximum() {
    let prefixes = listing(&["images/1/", "images/2/", "images/5/"]);
    assert_eq!(get_latest_folder_number(&prefixes), 5);
}

#[test]
fn latest_folder_defaults_to_zero() {
    assert_eq!(get_latest_folder_number(&listing(&[])), 0);
    assert_eq!(get_latest_folder_number(&listing(&["images/junk/"])), 0);
}

#[test]
fn next_allocation_after_one_two_five_is_six() {
    let prefixes = listing(&["images/1/", "images/2/", "images/5/"]);
    assert_eq!(scan_allocate(&prefixes), 6);
}

#[test]
fn concurrent_scans_of_one_listing_collide() {
    // Two jobs scan remote storage while the existing maximum is 3 and
    // neither sees the other's write: scan-based allocation hands both
    // the same folder, never distinct ones. This is the uncoordinated
    // design's race, shown here without a fix.
    let snapshot = listing(&["images/1/", "images/2/", "images/3/"]);
    let first_job = scan_allocate(&snapshot);
    let second_job = scan_allocate(&snapshot);
    assert_eq!(first_job, 4);
    assert_eq!(second_job, 4);
}

#[test]
fn a_coordinated_counter_hands_out_distinct_folders() {
    let snapshot = listing(&["images/1/", "images/2/", "images/3/"]);
    let mut counter = FolderCounter::from_listing(&snapshot);
    let first_job = counter.allocate();
    let second_job = counter.allocate();
    assert_eq!(first_job, 4);
    assert_eq!(second_job, 5);
}

#[test]
fn upload_keys_count_from_zero() {
    assert_eq!(upload_key(6, 0), "images/6/image0.jpg");
    assert_eq!(upload_key(6, 1), "images/6/image1.jpg");
}

#[test]
fn upload_plan_pairs_files_with_keys_in_order() {
    let files = listing(&["./files/r1/image1.jpg", "./files/r1/image2.jpg"]);
    let pairs = upload_plan(7, &files);
    assert_eq!(pairs.len(), 2);
    assert_eq!(pairs[0].0, "./files/r1/image1.jpg");
    assert_eq!(pairs[0].1, "images/7/image0.jpg");
    assert_eq!(pairs[1].0, "./files/r1/image2.jpg");
    assert_eq!(pairs[1].1, "images/7/image1.jpg");
}

#[test]
fn final_path_reports_the_last_uploaded_object() {
    let p = final_image_path("team-3-project-3", 6, 2);
    assert_eq!(p, "s3://team-3-project-3/images/6/image1.jpg");
}

#[test]
fn staged_names_encode_their_image_position() {
    assert_eq!(parse_image_index("image1.jpg"), Some(1));
    assert_eq!(parse_image_index("image12.jpg"), Some(12));
    assert_eq!(parse_image_index("image.jpg"), None);
    assert_eq!(parse_image_index("image1.png"), None);
    assert_eq!(parse_image_index("thumb1.jpg"), None);
    assert_eq!(parse_image_index("img"), None);
}

#[test]
fn staged_files_sort_by_position_not_lexicographically() {
    let names = listing(&["image10.jpg", "image2.jpg", "image1.jpg"]);
    let ordered = sort_staged_files(&names);
    assert_eq!(
        ordered,
        listing(&["image1.jpg", "image2.jpg", "image10.jpg"])
    );
}

#[test]
fn manifest_carries_folder_count_and_final_path() {
    let m = build_manifest("bucket", 4, 3);
    assert_eq!(m.folder_number, 4);
    assert_eq!(m.file_count, 3);
    assert_eq!(m.final_image_path, "s3://bucket/images/4/image2.jpg");
}
