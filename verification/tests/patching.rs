use biubo_waf::patching::{CreatePatchRequest, PatchStatus, PatchStorage, UpdatePatchStatusRequest};

fn create_test_patch_request() -> CreatePatchRequest {
    CreatePatchRequest {
        title: "Test Patch".to_string(),
        description: "A test patch".to_string(),
        severity: "high".to_string(),
        rule_id: Some("rule-001".to_string()),
        patch_content: "PATCH_CONTENT".to_string(),
        metadata: None,
    }
}

#[test]
fn test_create_patch() {
    let mut storage = PatchStorage::new();
    let patch = storage.create_patch(create_test_patch_request());
    assert!(patch.id.starts_with("patch_"));
    assert_eq!(patch.id.len(), "patch_".len() + 8);
    assert_eq!(patch.title, "Test Patch");
    assert_eq!(patch.status, PatchStatus::Pending);
    assert_eq!(storage.count(), 1);
}

#[test]
fn test_get_patch() {
    let mut storage = PatchStorage::new();
    let created = storage.create_patch(create_test_patch_request());
    let retrieved = storage.get_patch(&created.id);
    assert!(retrieved.is_some());
    assert_eq!(retrieved.unwrap().id, created.id);
}

#[test]
fn test_get_patch_not_found() {
    let storage = PatchStorage::new();
    assert!(storage.get_patch("nonexistent").is_none());
}

#[test]
fn test_list_patches_no_filter() {
    let mut storage = PatchStorage::new();
    storage.create_patch(create_test_patch_request());
    assert_eq!(storage.list_patches(None).len(), 1);
}

#[test]
fn test_list_patches_with_filter() {
    let mut storage = PatchStorage::new();
    storage.create_patch(create_test_patch_request());
    assert_eq!(storage.list_patches(Some(&PatchStatus::Pending)).len(), 1);
    assert_eq!(storage.list_patches(Some(&PatchStatus::Applied)).len(), 0);
}

#[test]
fn test_update_status() {
    let mut storage = PatchStorage::new();
    let created = storage.create_patch(create_test_patch_request());
    let updated = storage.update_status(&created.id, PatchStatus::Reviewed);
    assert!(updated.is_some());
    let updated = updated.unwrap();
    assert_eq!(updated.status, PatchStatus::Reviewed);
    assert!(updated.updated_at.is_some());
}

#[test]
fn test_update_status_not_found() {
    let mut storage = PatchStorage::new();
    assert!(storage.update_status("nonexistent", PatchStatus::Reviewed).is_none());
}

#[test]
fn test_delete_patch() {
    let mut storage = PatchStorage::new();
    let created = storage.create_patch(create_test_patch_request());
    assert!(storage.delete_patch(&created.id));
    assert_eq!(storage.count(), 0);
    assert!(storage.get_patch(&created.id).is_none());
}

#[test]
fn test_delete_patch_not_found() {
    let mut storage = PatchStorage::new();
    assert!(!storage.delete_patch("nonexistent"));
}

#[test]
fn test_patch_status_display() {
    assert_eq!(PatchStatus::Pending.to_string(), "pending");
    assert_eq!(PatchStatus::Reviewed.to_string(), "reviewed");
    assert_eq!(PatchStatus::Applied.to_string(), "applied");
    assert_eq!(PatchStatus::Ignored.to_string(), "ignored");
}

fn request(title: &str, severity: &str) -> CreatePatchRequest {
    CreatePatchRequest {
        title: title.to_string(),
        description: title.to_string(),
        severity: severity.to_string(),
        rule_id: None,
        patch_content: title.to_string(),
        metadata: None,
    }
}

#[test]
fn test_multiple_patches_sorted_by_date() {
    let mut storage = PatchStorage::new();
    storage.create_patch(request("Patch A", "low"));
    storage.create_patch(request("Patch B", "medium"));
    let patches = storage.list_patches(None);
    assert_eq!(patches.len(), 2);
    assert_eq!(patches[0].title, "Patch B");
}

#[test]
fn test_patch_with_metadata() {
    let mut storage = PatchStorage::new();
    let mut req = request("Metadata Patch", "critical");
    req.metadata = Some(vec![("source".to_string(), "\"auto_detection\"".to_string())]);
    let patch = storage.create_patch(req);
    let meta = patch.metadata.unwrap();
    let source = meta.iter().find(|(k, _)| k == "source").map(|(_, v)| v.clone()).unwrap();
    assert_eq!(source, "\"auto_detection\"");
}

#[test]
fn patching_listing_is_newest_first_with_fixed_times() {
    let mut storage = PatchStorage::new();
    storage.create_patch_with(request("old", "low"), "aaaaaaaa-0000", 100);
    storage.create_patch_with(request("newest", "low"), "bbbbbbbb-0000", 300);
    storage.create_patch_with(request("middle", "low"), "cccccccc-0000", 200);
    let titles: Vec<String> = storage.list_patches(None).into_iter().map(|p| p.title).collect();
    assert_eq!(titles, vec!["newest", "middle", "old"]);
    let p = storage.get_patch("patch_bbbbbbbb").unwrap();
    assert_eq!(p.created_at, 300);
}

#[test]
fn patching_same_id_replaces() {
    let mut storage = PatchStorage::new();
    storage.create_patch_with(request("first", "low"), "abcdefgh-1", 1);
    storage.create_patch_with(request("second", "low"), "abcdefgh-2", 2);
    assert_eq!(storage.count(), 1);
    assert_eq!(storage.get_patch("patch_abcdefgh").unwrap().title, "second");
}

#[test]
fn patching_update_at_sets_time_and_keeps_rest() {
    let mut storage = PatchStorage::new();
    storage.create_patch_with(request("t", "high"), "12345678", 10);
    let req = UpdatePatchStatusRequest { status: PatchStatus::Applied };
    let p = storage.update_status_at("patch_12345678", req.status, 77).unwrap();
    assert_eq!(p.updated_at, Some(77));
    assert_eq!(p.severity, "high");
    assert_eq!(storage.list_patches(Some(&PatchStatus::Applied)).len(), 1);
    assert_eq!(storage.list_patches(Some(&PatchStatus::Pending)).len(), 0);
}
