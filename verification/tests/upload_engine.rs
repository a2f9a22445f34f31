use immich_sync::files::{LocalFile, Timestamp};
use immich_sync::upload::{
    classify_response, device_asset_id_of, media_type_of, FormField, UploadOutcome,
    UploadRequest, DEVICE_ID, STATUS_CONFLICT, STATUS_CREATED, STATUS_OK,
};

fn shot(name: &str, size: u64, created: (i64, u32), modified: (i64, u32)) -> LocalFile {
    LocalFile {
        path: format!("/shots/{}", name),
        filename: name.to_string(),
        size,
        created: Timestamp::new(created.0, created.1).unwrap(),
        modified: Timestamp::new(modified.0, modified.1).unwrap(),
    }
}

fn field(name: &str, value: &str) -> FormField {
    FormField { name: name.to_string(), value: value.to_string() }
}

fn id(text: &str) -> Option<String> {
    Some(text.to_string())
}

#[test]
fn status_codes_are_the_http_ones() {
    assert_eq!(STATUS_CREATED, 201);
    assert_eq!(STATUS_OK, 200);
    assert_eq!(STATUS_CONFLICT, 409);
}

#[test]
fn created_answer_gives_created_outcome() {
    assert_eq!(classify_response(201, id("asset-1")), UploadOutcome::Created("asset-1".into()));
}

#[test]
fn ok_answer_gives_deduplicated_outcome() {
    assert_eq!(
        classify_response(200, id("asset-2")),
        UploadOutcome::Deduplicated("asset-2".into())
    );
}

#[test]
fn conflict_with_id_gives_rejected_duplicate_with_id() {
    assert_eq!(
        classify_response(409, id("asset-3")),
        UploadOutcome::RejectedDuplicate(Some("asset-3".into()))
    );
}

#[test]
fn conflict_without_id_gives_rejected_duplicate_unknown() {
    assert_eq!(classify_response(409, None), UploadOutcome::RejectedDuplicate(None));
}

#[test]
fn any_other_status_gives_failed() {
    assert_eq!(classify_response(500, None), UploadOutcome::Failed);
    assert_eq!(classify_response(500, id("x")), UploadOutcome::Failed);
    assert_eq!(classify_response(404, id("x")), UploadOutcome::Failed);
    assert_eq!(classify_response(401, None), UploadOutcome::Failed);
    assert_eq!(classify_response(202, id("x")), UploadOutcome::Failed);
    assert_eq!(classify_response(0, id("x")), UploadOutcome::Failed);
    assert_eq!(classify_response(u16::MAX, id("x")), UploadOutcome::Failed);
}

#[test]
fn success_without_readable_id_gives_failed() {
    assert_eq!(classify_response(201, None), UploadOutcome::Failed);
    assert_eq!(classify_response(200, None), UploadOutcome::Failed);
}

#[test]
fn every_outcome_but_failed_is_recorded() {
    assert!(UploadOutcome::Created("a".into()).is_recorded());
    assert!(UploadOutcome::Deduplicated("a".into()).is_recorded());
    assert!(UploadOutcome::RejectedDuplicate(Some("a".into())).is_recorded());
    assert!(UploadOutcome::RejectedDuplicate(None).is_recorded());
    assert!(!UploadOutcome::Failed.is_recorded());
}

#[test]
fn link_target_is_the_asset_that_the_outcome_names() {
    assert_eq!(UploadOutcome::Created("a".into()).link_target(), id("a"));
    assert_eq!(UploadOutcome::Deduplicated("b".into()).link_target(), id("b"));
    assert_eq!(UploadOutcome::RejectedDuplicate(Some("c".into())).link_target(), id("c"));
    assert_eq!(UploadOutcome::RejectedDuplicate(None).link_target(), None);
    assert_eq!(UploadOutcome::Failed.link_target(), None);
}

#[test]
fn device_asset_id_joins_name_size_and_second() {
    let file = shot("a.png", 1234, (1, 0), (1700000000, 999));
    assert_eq!(device_asset_id_of(&file), "a.png-1234-1700000000");
}

#[test]
fn device_asset_id_of_empty_file_modified_before_epoch() {
    let file = shot("old.png", 0, (0, 0), (-5, 0));
    assert_eq!(device_asset_id_of(&file), "old.png-0--5");
}

#[test]
fn device_asset_id_keeps_hyphens_of_the_name() {
    let file = shot("my-shot-1.jpg", 10, (0, 0), (20, 0));
    assert_eq!(device_asset_id_of(&file), "my-shot-1.jpg-10-20");
}

#[test]
fn media_type_follows_the_extension() {
    assert_eq!(media_type_of("a.png"), "image/png");
    assert_eq!(media_type_of("b.jpg"), "image/jpeg");
    assert_eq!(media_type_of("c.jpeg"), "image/jpeg");
    assert_eq!(media_type_of("d.webp"), "image/webp");
}

#[test]
fn media_type_ignores_letter_case() {
    assert_eq!(media_type_of("E.PNG"), "image/png");
}

#[test]
fn media_type_of_unknown_or_missing_extension_is_octet_stream() {
    assert_eq!(media_type_of("README"), "application/octet-stream");
    assert_eq!(media_type_of(".png"), "application/octet-stream");
    assert_eq!(media_type_of("f.unknownext"), "application/octet-stream");
    assert_eq!(media_type_of("trailing."), "application/octet-stream");
}

#[test]
fn media_type_goes_by_the_last_extension() {
    assert_eq!(media_type_of("g.png.txt"), "text/plain");
}

#[test]
fn upload_request_for_file_is_complete() {
    let file = shot("a.png", 1234, (1431648000, 0), (1700000000, 500_000_000));
    let request = UploadRequest::for_file(&file, "http://nas:2283", "secret");
    assert_eq!(
        request,
        UploadRequest {
            url: "http://nas:2283/api/assets".into(),
            api_key: "secret".into(),
            part_name: "assetData".into(),
            path: "/shots/a.png".into(),
            file_name: "a.png".into(),
            media_type: "image/png".into(),
            fields: vec![
                field("deviceAssetId", "a.png-1234-1700000000"),
                field("deviceId", "rust-uploader-v1"),
                field("fileCreatedAt", "2015-05-15T00:00:00+00:00"),
                field("fileModifiedAt", "2023-11-14T22:13:20.500+00:00"),
                field("isFavorite", "false"),
            ],
        }
    );
}

#[test]
fn upload_request_is_assembled_from_given_parts() {
    let file = shot("b.jpg", 7, (0, 0), (9, 0));
    let request = UploadRequest::assemble(
        &file,
        "https://photos.example",
        "k",
        "image/jpeg".into(),
        "created-text".into(),
        "modified-text".into(),
    );
    assert_eq!(request.url, "https://photos.example/api/assets");
    assert_eq!(request.api_key, "k");
    assert_eq!(request.part_name, "assetData");
    assert_eq!(request.path, "/shots/b.jpg");
    assert_eq!(request.file_name, "b.jpg");
    assert_eq!(request.media_type, "image/jpeg");
    assert_eq!(
        request.fields,
        vec![
            field("deviceAssetId", "b.jpg-7-9"),
            field("deviceId", DEVICE_ID),
            field("fileCreatedAt", "created-text"),
            field("fileModifiedAt", "modified-text"),
            field("isFavorite", "false"),
        ]
    );
}

#[test]
fn upload_request_with_empty_base_url() {
    let file = shot("c.webp", 1, (0, 0), (0, 0));
    let request = UploadRequest::for_file(&file, "", "");
    assert_eq!(request.url, "/api/assets");
    assert_eq!(request.api_key, "");
    assert_eq!(request.media_type, "image/webp");
}

#[test]
fn favourite_flag_is_always_off() {
    let file = shot("d.jpeg", 1, (0, 0), (0, 0));
    let request = UploadRequest::for_file(&file, "http://x", "k");
    assert_eq!(request.fields[4], field("isFavorite", "false"));
    assert_eq!(request.fields.len(), 5);
}
