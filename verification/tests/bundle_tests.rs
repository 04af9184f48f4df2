use ed25519_dalek::pkcs8::EncodePublicKey;
use ed25519_dalek::Signer;

use lokan_hub::bundle::{
    public_key_der_from_pem, verify_bundle, BundleError, Manifest, ManifestComponent,
};
use lokan_hub::checksum::ChecksumIssue;
use lokan_hub::updater::Slot;

fn signing_key() -> ed25519_dalek::SigningKey {
    ed25519_dalek::SigningKey::from_bytes(&[7u8; 32])
}

fn pubkey_der() -> Vec<u8> {
    signing_key()
        .verifying_key()
        .to_public_key_der()
        .expect("der")
        .as_bytes()
        .to_vec()
}

fn manifest_for(files: &[(&str, &[u8])]) -> Manifest {
    Manifest {
        version: "1.0.0".to_string(),
        build_sha: "deadbeef".to_string(),
        created_at: "2024-01-01T00:00:00Z".to_string(),
        target_slot: Slot::B,
        components: files
            .iter()
            .map(|(path, content)| ManifestComponent {
                name: path.to_string(),
                path: path.to_string(),
                sha256: hex_of(content),
            })
            .collect(),
    }
}

fn hex_of(content: &[u8]) -> String {
    let digest = lokan_hub::crypto::sha256(content);
    let hex = lokan_hub::strutil::hex_encode_lower(&digest);
    String::from_utf8(hex).expect("hex is ascii")
}

fn checksum_file_for(files: &[(&str, &[u8])]) -> Vec<u8> {
    let mut out = String::new();
    for (path, content) in files {
        out.push_str(&hex_of(content));
        out.push(' ');
        out.push_str(path);
        out.push('\n');
    }
    out.into_bytes()
}

fn signature_pem_for(checksum_file: &[u8]) -> Vec<u8> {
    let sig = signing_key().sign(checksum_file);
    let block = pem::Pem::new("ED25519 SIGNATURE", sig.to_bytes().to_vec());
    pem::encode(&block).into_bytes()
}

fn valid_parts() -> (Manifest, Vec<Option<Vec<u8>>>, Vec<u8>, Vec<u8>, Vec<u8>) {
    let files: [(&str, &[u8]); 2] = [("bin/app", b"app bytes"), ("cfg/settings", b"cfg bytes")];
    let manifest = manifest_for(&files);
    let contents: Vec<Option<Vec<u8>>> =
        files.iter().map(|(_, c)| Some(c.to_vec())).collect();
    let checksum_file = checksum_file_for(&files);
    let signature = signature_pem_for(&checksum_file);
    (manifest, contents, checksum_file, signature, pubkey_der())
}

#[test]
fn valid_bundle_verifies() {
    let (manifest, contents, checksum_file, signature, der) = valid_parts();
    let meta = verify_bundle(manifest, &contents, &checksum_file, &signature, &der)
        .expect("bundle verifies");
    assert_eq!(meta.target_slot(), Slot::B);
    assert_eq!(meta.manifest().version, "1.0.0");
}

#[test]
fn bundle_determinism() {
    let (manifest, contents, checksum_file, signature, der) = valid_parts();
    let (manifest2, _, _, _, _) = valid_parts();
    let a = verify_bundle(manifest, &contents, &checksum_file, &signature, &der).expect("first");
    let b = verify_bundle(manifest2, &contents, &checksum_file, &signature, &der).expect("second");
    assert_eq!(a.target_slot(), b.target_slot());
    assert_eq!(a.manifest(), b.manifest());
}

#[test]
fn tampered_component_fails_checksum() {
    let (manifest, mut contents, checksum_file, signature, der) = valid_parts();
    // Flip one byte of the first component file.
    contents[0].as_mut().unwrap()[0] ^= 0x01;
    let err = verify_bundle(manifest, &contents, &checksum_file, &signature, &der).unwrap_err();
    match err {
        BundleError::ChecksumMismatch { path, expected, actual } => {
            assert_eq!(path, "bin/app");
            assert_ne!(expected, actual);
        }
        other => panic!("expected a checksum mismatch, got {other:?}"),
    }
}

#[test]
fn tampered_signature_fails() {
    let (manifest, contents, checksum_file, _, der) = valid_parts();
    let mut bad = checksum_file.clone();
    bad.push(b'\n');
    // Sign different bytes than the checksum file that is verified.
    let signature = signature_pem_for(&bad);
    let err = verify_bundle(manifest, &contents, &checksum_file, &signature, &der).unwrap_err();
    assert!(matches!(err, BundleError::SignatureMismatch));
}

#[test]
fn signature_label_and_length_checked() {
    let (manifest, contents, checksum_file, _, der) = valid_parts();
    let wrong_label = pem::encode(&pem::Pem::new("CERTIFICATE", vec![0u8; 64])).into_bytes();
    let (m2, _, _, _, _) = valid_parts();
    let err =
        verify_bundle(manifest, &contents, &checksum_file, &wrong_label, &der).unwrap_err();
    assert!(matches!(err, BundleError::UnexpectedSignatureLabel));

    let short = pem::encode(&pem::Pem::new("ED25519 SIGNATURE", vec![0u8; 10])).into_bytes();
    let err = verify_bundle(m2, &contents, &checksum_file, &short, &der).unwrap_err();
    assert!(matches!(err, BundleError::InvalidSignatureLength));
}

#[test]
fn missing_and_unexpected_checksum_entries() {
    let files: [(&str, &[u8]); 1] = [("bin/app", b"app bytes")];
    let manifest = manifest_for(&files);
    let contents: Vec<Option<Vec<u8>>> = vec![Some(b"app bytes".to_vec())];
    let (_, _, _, signature, der) = valid_parts();

    let empty_checksums: Vec<u8> = Vec::new();
    let err =
        verify_bundle(manifest_for(&files), &contents, &empty_checksums, &signature, &der)
            .unwrap_err();
    assert!(matches!(err, BundleError::MissingChecksumEntry(p) if p == "bin/app"));

    let mut extra = checksum_file_for(&files);
    extra.extend_from_slice(hex_of(b"other").as_bytes());
    extra.extend_from_slice(b" bin/other\n");
    let err = verify_bundle(manifest, &contents, &extra, &signature, &der).unwrap_err();
    assert!(matches!(err, BundleError::UnexpectedChecksumEntry(p) if p == b"bin/other"));
}

#[test]
fn checksum_format_errors() {
    let files: [(&str, &[u8]); 1] = [("bin/app", b"app bytes")];
    let contents: Vec<Option<Vec<u8>>> = vec![Some(b"app bytes".to_vec())];
    let (_, _, _, signature, der) = valid_parts();

    let err = verify_bundle(
        manifest_for(&files),
        &contents,
        &b"justonefield\n".to_vec(),
        &signature,
        &der,
    )
    .unwrap_err();
    assert!(matches!(
        err,
        BundleError::InvalidChecksumFormat { line: 1, details: ChecksumIssue::FieldCount }
    ));

    let err = verify_bundle(
        manifest_for(&files),
        &contents,
        &b"zz bin/app\n".to_vec(),
        &signature,
        &der,
    )
    .unwrap_err();
    assert!(matches!(
        err,
        BundleError::InvalidChecksumFormat { line: 1, details: ChecksumIssue::BadDigest }
    ));

    let mut dup = checksum_file_for(&files);
    dup.extend_from_slice(&checksum_file_for(&files));
    let err =
        verify_bundle(manifest_for(&files), &contents, &dup, &signature, &der).unwrap_err();
    assert!(matches!(
        err,
        BundleError::InvalidChecksumFormat { line: 2, details: ChecksumIssue::DuplicateEntry }
    ));

    let err = verify_bundle(
        manifest_for(&files),
        &contents,
        &vec![0xffu8, 0xfe, 0x0a],
        &signature,
        &der,
    )
    .unwrap_err();
    assert!(matches!(err, BundleError::InvalidChecksumEncoding));
}

#[test]
fn component_path_and_file_checks() {
    let files: [(&str, &[u8]); 1] = [("../escape", b"x")];
    let contents: Vec<Option<Vec<u8>>> = vec![Some(b"x".to_vec())];
    let (_, _, _, signature, der) = valid_parts();
    let err = verify_bundle(
        manifest_for(&files),
        &contents,
        &checksum_file_for(&files),
        &signature,
        &der,
    )
    .unwrap_err();
    assert!(matches!(err, BundleError::InvalidComponentPath(p) if p == "../escape"));

    let files: [(&str, &[u8]); 1] = [("bin/app", b"x")];
    let missing: Vec<Option<Vec<u8>>> = vec![None];
    let err = verify_bundle(
        manifest_for(&files),
        &missing,
        &checksum_file_for(&files),
        &signature,
        &der,
    )
    .unwrap_err();
    assert!(matches!(err, BundleError::MissingComponentFile(p) if p == "bin/app"));

    let empty = Manifest {
        version: "1".to_string(),
        build_sha: "s".to_string(),
        created_at: "2024-01-01T00:00:00Z".to_string(),
        target_slot: Slot::A,
        components: Vec::new(),
    };
    let err =
        verify_bundle(empty, &Vec::new(), &Vec::new(), &signature, &der).unwrap_err();
    assert!(matches!(err, BundleError::EmptyComponents));
}

#[test]
fn public_key_pem_parsing() {
    let der = pubkey_der();
    let block = pem::Pem::new("PUBLIC KEY", der.clone());
    let pem_bytes = pem::encode(&block).into_bytes();
    let parsed = public_key_der_from_pem(&pem_bytes).expect("key parses");
    assert_eq!(parsed, der);

    let wrong = pem::encode(&pem::Pem::new("PRIVATE KEY", der.clone())).into_bytes();
    assert!(matches!(
        public_key_der_from_pem(&wrong).unwrap_err(),
        BundleError::UnexpectedPublicKeyLabel
    ));

    assert!(matches!(
        public_key_der_from_pem(b"not pem at all").unwrap_err(),
        BundleError::InvalidPublicKey
    ));

    let bad_der = pem::encode(&pem::Pem::new("PUBLIC KEY", vec![1u8, 2, 3])).into_bytes();
    assert!(matches!(
        public_key_der_from_pem(&bad_der).unwrap_err(),
        BundleError::InvalidPublicKey
    ));
}
