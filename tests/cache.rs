use std::collections::HashMap;

use bldr::cache::{fetched_key, file_mode, key_file_name, list_revisions, plan_write, revision_of_file, select_latest, WritePlan};
use bldr::error::KeyError;
use bldr::generate::{
    generate_origin_signing_key_pair, generate_ring_key, generate_service_encryption_key_pair, generate_user_key_pair,
};
use bldr::key::{Key, KeyKind, Role};
use bldr::naming::NamedRevision;

fn ring(revision: &str, byte: u8) -> Key {
    generate_ring_key("ring", revision, vec![byte; 32]).unwrap()
}

/// Applies a plan to a directory held in memory, as the on-disk cache does.
fn store(dir: &mut HashMap<String, String>, k: &Key) -> Result<(), KeyError> {
    let name = key_file_name(k.kind(), k.role(), k.named_revision());
    match plan_write(dir.get(&name).map(|s| s.as_str()), k)? {
        WritePlan::Unchanged => Ok(()),
        WritePlan::Create { file_name, contents, .. } => {
            dir.insert(file_name, contents);
            Ok(())
        }
    }
}

#[test]
fn file_names_carry_kind_and_role() {
    let n = NamedRevision::new("acme.web", "20230101000000").unwrap();
    assert_eq!(key_file_name(KeyKind::ServiceEncryption, Role::Public, &n), "acme.web-20230101000000.svc.pub");
    assert_eq!(key_file_name(KeyKind::OriginSigning, Role::Secret, &n), "acme.web-20230101000000.sig.key");
    assert_eq!(
        revision_of_file("acme.web-20230101000000.svc.pub", KeyKind::ServiceEncryption, Role::Public, "acme.web"),
        Some("20230101000000".to_string())
    );
    assert_eq!(revision_of_file("acme.web-20230101000000.svc.pub", KeyKind::ServiceEncryption, Role::Secret, "acme.web"), None);
    assert_eq!(revision_of_file("acme-20230101000000.svc.pub", KeyKind::ServiceEncryption, Role::Public, "acme.web"), None);
}

#[test]
fn secret_files_are_private_and_public_files_readable() {
    assert_eq!(file_mode(Role::Secret), 0o600);
    assert_eq!(file_mode(Role::Public), 0o644);
    assert_eq!(file_mode(Role::Secret) & 0o077, 0);
    assert_eq!(file_mode(Role::Public) & 0o004, 0o004);
}

#[test]
fn new_key_is_created_with_its_envelope() {
    let k = ring("20230101000000", 1);
    match plan_write(None, &k) {
        Ok(WritePlan::Create { file_name, contents, mode }) => {
            assert_eq!(file_name, "ring-20230101000000.sym.key");
            assert_eq!(contents, k.encode());
            assert_eq!(mode, 0o600);
        }
        other => panic!("unexpected plan {:?}", other),
    }
}

#[test]
fn writing_the_same_key_twice_changes_nothing() {
    let mut dir = HashMap::new();
    let k = ring("20230101000000", 1);
    assert_eq!(store(&mut dir, &k), Ok(()));
    let before = dir.clone();
    assert_eq!(store(&mut dir, &ring("20230101000000", 1)), Ok(()));
    assert_eq!(dir, before);
    assert_eq!(dir.len(), 1);
    assert_eq!(plan_write(Some(&k.encode()), &k), Ok(WritePlan::Unchanged));
}

#[test]
fn different_material_under_the_same_revision_is_refused() {
    let mut dir = HashMap::new();
    assert_eq!(store(&mut dir, &ring("20230101000000", 1)), Ok(()));
    let before = dir.clone();
    assert_eq!(store(&mut dir, &ring("20230101000000", 2)), Err(KeyError::WouldOverwriteDifferentKey));
    assert_eq!(dir, before);
}

#[test]
fn unreadable_stored_file_is_reported() {
    let k = ring("20230101000000", 1);
    assert_eq!(plan_write(Some("garbage"), &k), Err(KeyError::UnknownFormat));
}

#[test]
fn latest_revision_is_selected() {
    let files: Vec<String> = vec![
        "acme-20230101000000.svc.key".to_string(),
        "acme-20230601120000.svc.key".to_string(),
        "acme-20220101000000.svc.key".to_string(),
        "acme-20990101000000.svc.pub".to_string(),
        "other-20990101000000.svc.key".to_string(),
        "acme-2099.svc.key".to_string(),
        "README".to_string(),
    ];
    let latest = select_latest(KeyKind::ServiceEncryption, Role::Secret, "acme", &files).unwrap();
    assert_eq!(latest.name(), "acme");
    assert_eq!(latest.revision(), "20230601120000");
    assert_eq!(select_latest(KeyKind::UserEncryption, Role::Secret, "acme", &files), None);
}

#[test]
fn revisions_are_listed_in_order() {
    let files: Vec<String> = vec![
        "acme-20230101000000.svc.key".to_string(),
        "acme-20230601120000.svc.key".to_string(),
        "junk".to_string(),
        "acme-20220101000000.svc.key".to_string(),
    ];
    let up: Vec<String> = list_revisions(KeyKind::ServiceEncryption, Role::Secret, "acme", &files, false)
        .iter()
        .map(|n| n.revision().to_string())
        .collect();
    assert_eq!(up, vec!["20220101000000", "20230101000000", "20230601120000"]);
    let down: Vec<String> = list_revisions(KeyKind::ServiceEncryption, Role::Secret, "acme", &files, true)
        .iter()
        .map(|n| n.revision().to_string())
        .collect();
    assert_eq!(down, vec!["20230601120000", "20230101000000", "20220101000000"]);
}

#[test]
fn missing_file_is_not_found() {
    assert_eq!(fetched_key(None, KeyKind::RingEncryption, Role::Secret), Err(KeyError::KeyNotFound));
}

#[test]
fn service_key_pair_generated_stored_and_fetched() {
    let public = vec![3u8; 32];
    let secret = vec![4u8; 32];
    let (p, s) =
        generate_service_encryption_key_pair("acme", "web.default", "20240102030405", public.clone(), secret.clone())
            .unwrap();
    assert_eq!(p.named_revision().name(), "acme.web.default");
    assert_eq!(s.named_revision().name(), "acme.web.default");
    assert_eq!(p.named_revision().revision(), s.named_revision().revision());
    assert_eq!(p.role(), Role::Public);
    assert_eq!(s.role(), Role::Secret);

    let mut dir = HashMap::new();
    assert_eq!(store(&mut dir, &p), Ok(()));
    assert_eq!(store(&mut dir, &s), Ok(()));
    let names: Vec<String> = dir.keys().cloned().collect();
    let latest = select_latest(KeyKind::ServiceEncryption, Role::Secret, "acme.web.default", &names).unwrap();
    let file = key_file_name(KeyKind::ServiceEncryption, Role::Secret, &latest);
    let fetched = fetched_key(dir.get(&file).map(|t| t.as_str()), KeyKind::ServiceEncryption, Role::Secret).unwrap();
    assert_eq!(fetched.material(), &secret);
    assert_eq!(fetched, s);
}

#[test]
fn generators_check_names_revisions_and_lengths() {
    assert!(generate_origin_signing_key_pair("core", "20240102030405", vec![0; 32], vec![0; 64]).is_ok());
    assert_eq!(
        generate_origin_signing_key_pair("core", "20240102030405", vec![0; 32], vec![0; 32]),
        Err(KeyError::InvalidKeyMaterial)
    );
    assert_eq!(generate_user_key_pair("a/b", "20240102030405", vec![0; 32], vec![0; 32]), Err(KeyError::MalformedIdentifier));
    assert_eq!(generate_user_key_pair("bob", "2024", vec![0; 32], vec![0; 32]), Err(KeyError::MalformedIdentifier));
    assert_eq!(generate_ring_key("ring", "20240102030405", vec![0; 31]), Err(KeyError::InvalidKeyMaterial));
    let (p, s) = generate_user_key_pair("bob", "20240102030405", vec![1; 32], vec![2; 32]).unwrap();
    assert_eq!(p.kind(), KeyKind::UserEncryption);
    assert_eq!(s.material(), &vec![2u8; 32]);
}
