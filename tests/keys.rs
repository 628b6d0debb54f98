use bldr::error::KeyError;
use bldr::revision::revision_from_unix_seconds;
use bldr::key::{decode, expected_material_len, format_tag_text, parse_format_tag, Key, KeyKind, Role};
use bldr::naming::{parse_named_revision, revision_value, NamedRevision};

fn nr(name: &str, revision: &str) -> NamedRevision {
    NamedRevision::new(name, revision).unwrap()
}

fn key(kind: KeyKind, role: Role, name: &str, revision: &str, byte: u8) -> Key {
    let len = expected_material_len(kind, role).unwrap();
    Key::new(kind, role, nr(name, revision), vec![byte; len]).unwrap()
}

#[test]
fn identifier_splits_at_the_last_delimiter() {
    let parsed = parse_named_revision("org.service-group-20230101000000").unwrap();
    assert_eq!(parsed.name(), "org.service-group");
    assert_eq!(parsed.revision(), "20230101000000");
    assert_eq!(parsed.to_identifier(), "org.service-group-20230101000000");
}

#[test]
fn malformed_identifiers_are_refused() {
    for bad in ["acme", "acme-2023", "acme-2023010100000x", "-20230101000000", "a/b-20230101000000", "acme_20230101000000"] {
        assert_eq!(parse_named_revision(bad), Err(KeyError::MalformedIdentifier), "{}", bad);
    }
    assert_eq!(NamedRevision::new("acme", "2023"), Err(KeyError::MalformedIdentifier));
    assert_eq!(NamedRevision::new("", "20230101000000"), Err(KeyError::MalformedIdentifier));
}

#[test]
fn revision_value_is_its_decimal_number() {
    assert_eq!(revision_value("20230601120000"), 20230601120000);
    assert_eq!(revision_value("00000000000000"), 0);
}

#[test]
fn envelope_has_the_documented_layout() {
    let k = Key::new(KeyKind::ServiceEncryption, Role::Public, nr("acme.web", "20230101000000"), (0u8..32).collect())
        .unwrap();
    assert_eq!(
        k.encode(),
        "SVC-PUB-1\nacme.web-20230101000000\n\nAAECAwQFBgcICQoLDA0ODxAREhMUFRYXGBkaGxwdHh8=\n"
    );
}

#[test]
fn every_kind_and_role_round_trips() {
    let combos = [
        (KeyKind::OriginSigning, Role::Public),
        (KeyKind::OriginSigning, Role::Secret),
        (KeyKind::ServiceEncryption, Role::Public),
        (KeyKind::ServiceEncryption, Role::Secret),
        (KeyKind::RingEncryption, Role::Secret),
        (KeyKind::UserEncryption, Role::Public),
        (KeyKind::UserEncryption, Role::Secret),
    ];
    for (kind, role) in combos {
        let k = key(kind, role, "some-name", "20240102030405", 7);
        let text = k.encode();
        assert_eq!(decode(&text, kind, role), Ok(k));
        assert_eq!(parse_format_tag(&format_tag_text(kind, role)), Some((kind, role)));
    }
}

#[test]
fn material_lengths_per_kind() {
    assert_eq!(expected_material_len(KeyKind::OriginSigning, Role::Secret), Some(64));
    assert_eq!(expected_material_len(KeyKind::OriginSigning, Role::Public), Some(32));
    assert_eq!(expected_material_len(KeyKind::RingEncryption, Role::Public), None);
    assert_eq!(
        Key::new(KeyKind::RingEncryption, Role::Public, nr("ring", "20240102030405"), vec![0; 32]),
        Err(KeyError::InvalidKeyMaterial)
    );
    assert_eq!(
        Key::new(KeyKind::OriginSigning, Role::Secret, nr("core", "20240102030405"), vec![0; 32]),
        Err(KeyError::InvalidKeyMaterial)
    );
}

#[test]
fn ring_key_read_as_service_key_is_a_mismatch() {
    let ring = key(KeyKind::RingEncryption, Role::Secret, "ring", "20240102030405", 9);
    let text = ring.encode();
    assert_eq!(decode(&text, KeyKind::ServiceEncryption, Role::Secret), Err(KeyError::KeyKindMismatch));
    assert_eq!(decode(&text, KeyKind::RingEncryption, Role::Public), Err(KeyError::KeyKindMismatch));
}

#[test]
fn decode_reports_each_failure() {
    let good = "SYM-SEC-1\nring-20240102030405\n\nBwcHBwcHBwcHBwcHBwcHBwcHBwcHBwcHBwcHBwcHBwc=\n";
    assert!(decode(good, KeyKind::RingEncryption, Role::Secret).is_ok());
    let no_final_newline = "SYM-SEC-1\nring-20240102030405\n\nBwcHBwcHBwcHBwcHBwcHBwcHBwcHBwcHBwcHBwcHBwc=";
    assert!(decode(no_final_newline, KeyKind::RingEncryption, Role::Secret).is_ok());
    let cases = [
        ("", KeyError::UnknownFormat),
        ("SYM-PUB-1\nring-20240102030405\n\nBwcH\n", KeyError::UnknownFormat),
        ("SYM-SEC-2\nring-20240102030405\n\nBwcH\n", KeyError::UnknownFormat),
        ("SYM-SEC-1", KeyError::MalformedIdentifier),
        ("SYM-SEC-1\nring\n\nBwcH\n", KeyError::MalformedIdentifier),
        ("SYM-SEC-1\nring-20240102030405\nBwcH\n", KeyError::InvalidKeyMaterial),
        ("SYM-SEC-1\nring-20240102030405\n\n!!!!\n", KeyError::InvalidKeyMaterial),
        ("SYM-SEC-1\nring-20240102030405\n\nBwcH\n", KeyError::InvalidKeyMaterial),
        (
            "SYM-SEC-1\nring-20240102030405\n\nBwcHBwcHBwcHBwcHBwcHBwcHBwcHBwcHBwcHBwcHBwc=\nextra\n",
            KeyError::InvalidKeyMaterial,
        ),
    ];
    for (text, err) in cases {
        assert_eq!(decode(text, KeyKind::RingEncryption, Role::Secret), Err(err), "{:?}", text);
    }
}

#[test]
fn decoded_key_carries_name_revision_and_material() {
    let text = "SYM-SEC-1\nmy-ring-20240102030405\n\nBwcHBwcHBwcHBwcHBwcHBwcHBwcHBwcHBwcHBwcHBwc=\n";
    let k = decode(text, KeyKind::RingEncryption, Role::Secret).unwrap();
    assert_eq!(k.named_revision().name(), "my-ring");
    assert_eq!(k.named_revision().revision(), "20240102030405");
    assert_eq!(k.material(), &vec![7u8; 32]);
    assert_eq!(k.kind(), KeyKind::RingEncryption);
    assert_eq!(k.role(), Role::Secret);
}

#[test]
fn revisions_from_unix_time() {
    assert_eq!(revision_from_unix_seconds(0), Some("19700101000000".to_string()));
    assert_eq!(revision_from_unix_seconds(1_700_000_000), Some("20231114221320".to_string()));
    assert_eq!(revision_from_unix_seconds(951_782_400), Some("20000229000000".to_string()));
    assert_eq!(revision_from_unix_seconds(253_402_300_799), Some("99991231235959".to_string()));
    assert_eq!(revision_from_unix_seconds(253_402_300_800), None);
}
