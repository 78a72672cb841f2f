use arod::media::{
    apply_selection, bucket_of, classify_uri, image_header, is_count_col, is_count_only, java_hash_code,
    mime_for_ext, parse_query_filter, ImageHeader, QueryArgs, QueryFilter, UriKind, MEDIA_TYPE_IMAGE,
    MEDIA_TYPE_VIDEO,
};

#[test]
fn java_hash_matches_known_values() {
    assert_eq!(java_hash_code("hello"), 99162322);
    assert_eq!(java_hash_code("/storage/emulated/0/pictures"), -1617409521);
}

#[test]
fn bucket_id_is_java_hash_of_lowercase_parent() {
    let (id, name) = bucket_of("/storage/emulated/0/Pictures/foo.png");
    assert_eq!(name, "Pictures");
    assert_eq!(id, java_hash_code("/storage/emulated/0/pictures"));
}

#[test]
fn classify_gallery_uris() {
    assert!(matches!(
        classify_uri("content://media/external/images/media"),
        UriKind::Images { id: None }
    ));
    assert!(matches!(
        classify_uri("content://media/external/images/media/42"),
        UriKind::Images { id: Some(42) }
    ));
    assert!(matches!(
        classify_uri("content://media/external/video/media"),
        UriKind::Videos { id: None }
    ));
    assert!(matches!(
        classify_uri("content://media/external/file"),
        UriKind::Files { id: None }
    ));
    assert!(matches!(
        classify_uri("content://media/external/file?limit=0,32"),
        UriKind::Files { id: None }
    ));
    assert!(matches!(
        classify_uri("content://media/internal/audio/media"),
        UriKind::Audio { id: None, external: false }
    ));
    assert!(matches!(classify_uri("content://media/external/images/thumbnails"), UriKind::Thumbnails));
}

#[test]
fn selection_parses_bucket_and_between() {
    let mut f = QueryFilter::default();
    apply_selection(&mut f, "bucket_id = ?", &["-1617409521".to_string()]);
    assert_eq!(f.bucket_id, Some(-1617409521));

    let mut f = QueryFilter::default();
    apply_selection(&mut f, "_id BETWEEN ? AND ?", &["10".to_string(), "20".to_string()]);
    assert_eq!(f.id_min, Some(10));
    assert_eq!(f.id_max, Some(20));

    let mut f = QueryFilter::default();
    apply_selection(
        &mut f,
        "bucket_id=? AND media_type = 1 AND _id BETWEEN ? AND ?",
        &["99".to_string(), "1".to_string(), "8".to_string()],
    );
    assert_eq!(f.bucket_id, Some(99));
    assert_eq!(f.media_type, Some(1));
    assert_eq!(f.id_min, Some(1));
    assert_eq!(f.id_max, Some(8));
}

#[test]
fn uri_limit_is_offset_count() {
    let f = parse_query_filter("content://media/external/images/media?limit=3,5&bucketId=9", &QueryArgs::none(), None);
    assert_eq!(f.offset, 3);
    assert_eq!(f.limit, Some(5));
    assert_eq!(f.bucket_id, Some(9));
}

#[test]
fn png_header_dimensions() {
    // Minimal IHDR prefix: the parser only reads the first 24 bytes.
    let mut bytes = vec![0x89, b'P', b'N', b'G', 0x0D, 0x0A, 0x1A, 0x0A];
    bytes.extend_from_slice(&[0, 0, 0, 13]); // length
    bytes.extend_from_slice(b"IHDR");
    bytes.extend_from_slice(&1920u32.to_be_bytes());
    bytes.extend_from_slice(&1080u32.to_be_bytes());
    bytes.extend_from_slice(&[8, 2, 0, 0, 0]);
    assert!(matches!(image_header(&bytes), ImageHeader::Size(1920, 1080)));
}

#[test]
fn count_projection_detected() {
    assert!(is_count_col("COUNT(_id)"));
    assert!(is_count_col("count(*)"));
    assert!(is_count_only(&["COUNT(_id)".to_string()]));
    assert!(!is_count_only(&["_id".to_string(), "COUNT(_id)".to_string()]));
}

#[test]
fn mime_for_common_exts() {
    assert_eq!(mime_for_ext("png"), Some(("image/png", MEDIA_TYPE_IMAGE)));
    assert_eq!(mime_for_ext("JPG"), None); // caller lowercases
    assert_eq!(mime_for_ext("jpg"), Some(("image/jpeg", MEDIA_TYPE_IMAGE)));
    assert_eq!(mime_for_ext("mp4"), Some(("video/mp4", MEDIA_TYPE_VIDEO)));
    assert_eq!(mime_for_ext("ogg"), None);
}

#[test]
fn gif_header_and_jpeg_marker() {
    let gif = [b'G', b'I', b'F', b'8', b'9', b'a', 0x40, 0x01, 0xF0, 0x00];
    assert!(matches!(image_header(&gif), ImageHeader::Size(320, 240)));
    assert!(matches!(image_header(&[0xFF, 0xD8, 0xFF]), ImageHeader::Jpeg));
    assert!(matches!(image_header(&[1, 2, 3]), ImageHeader::Unknown));
}
