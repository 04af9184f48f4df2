//! Signed-bundle verification: manifest components are checked against the
//! `sha256sum` file and the actual file contents, every checksum entry must
//! be consumed, and an Ed25519 signature over the raw checksum file is
//! verified under the configured public key.

use vstd::prelude::*;
use vstd::utf8::{encode_utf8, valid_utf8};

use crate::checksum::{ChecksumEntry, ChecksumIssue, entries_view, find_byte, parse_sha256sum,
    spec_parse_sha256sum};
use crate::crypto::{b64_of, ed25519_key_ok, ed25519_pubkey_ok, ed25519_sig_ok, ed25519_verify,
    pem_of, pem_parse, sha256, sha256_of, string_from_utf8};
use crate::strutil::{bytes_eq, hex_encode_lower, hex_lower_of, lower_bytes, lower_bytes_of};
use crate::updater::Slot;

verus! {

/// One deliverable of a bundle: a name, a relative path inside the bundle
/// directory, and the expected SHA-256 of the file, in hex.
#[derive(Debug, Clone, PartialEq, Eq)]
pub struct ManifestComponent {
    pub name: String,
    pub path: String,
    pub sha256: String,
}

/// Model of a [`ManifestComponent`].
pub struct ComponentV {
    pub name: Seq<char>,
    pub path: Seq<char>,
    pub sha256: Seq<char>,
}

impl View for ManifestComponent {
    type V = ComponentV;

    open spec fn view(&self) -> ComponentV {
        ComponentV { name: self.name@, path: self.path@, sha256: self.sha256@ }
    }
}

/// The bundle manifest: the components the bundle must deliver.
#[derive(Debug, Clone, PartialEq, Eq)]
pub struct Manifest {
    pub version: String,
    pub build_sha: String,
    /// RFC 3339 UTC creation time, kept as text.
    pub created_at: String,
    pub target_slot: Slot,
    pub components: Vec<ManifestComponent>,
}

/// Model of a [`Manifest`].
pub struct ManifestV {
    pub version: Seq<char>,
    pub build_sha: Seq<char>,
    pub created_at: Seq<char>,
    pub target_slot: Slot,
    pub components: Seq<ComponentV>,
}

/// The views of a sequence of components.
pub open spec fn comps_view(cs: Seq<ManifestComponent>) -> Seq<ComponentV> {
    cs.map_values(|c: ManifestComponent| c@)
}

/// The contents of the component files, as byte strings.
pub open spec fn files_view(files: Seq<Option<Vec<u8>>>) -> Seq<Option<Seq<u8>>> {
    files.map_values(|f: Option<Vec<u8>>| f.deep_view())
}

impl View for Manifest {
    type V = ManifestV;

    open spec fn view(&self) -> ManifestV {
        ManifestV {
            version: self.version@,
            build_sha: self.build_sha@,
            created_at: self.created_at@,
            target_slot: self.target_slot,
            components: comps_view(self.components@),
        }
    }
}

/// What a verified bundle exposes to the stage step.
#[derive(Debug, Clone)]
pub struct StageBundleMetadata {
    manifest: Manifest,
}

impl View for StageBundleMetadata {
    type V = ManifestV;

    closed spec fn view(&self) -> ManifestV {
        self.manifest@
    }
}

impl StageBundleMetadata {
    /// Wrap a verified manifest.
    pub fn new(manifest: Manifest) -> (r: StageBundleMetadata)
        ensures
            r@ == manifest@,
    {
        StageBundleMetadata { manifest }
    }

    /// The slot this bundle is built for.
    pub fn target_slot(&self) -> (r: Slot)
        ensures
            r == self@.target_slot,
    {
        self.manifest.target_slot
    }

    /// The verified manifest.
    pub fn manifest(&self) -> (r: &Manifest)
        ensures
            r@ == self@,
    {
        &self.manifest
    }
}

/// Why a bundle was rejected.
#[derive(Debug, Clone, PartialEq, Eq)]
pub enum BundleError {
    /// The bundle path does not exist (reported by the I/O layer).
    NotFound(String),
    /// The bundle path is not a directory (reported by the I/O layer).
    NotDirectory(String),
    /// An I/O failure outside this library's control.
    Io(String),
    /// The manifest text does not describe a manifest (the I/O layer says so).
    Manifest(String),
    /// The manifest declares no components.
    EmptyComponents,
    /// A component path is absolute or escapes the bundle directory.
    InvalidComponentPath(String),
    /// A component file is missing or not a regular file.
    MissingComponentFile(String),
    /// The checksum file has no entry for a component.
    MissingChecksumEntry(String),
    /// A digest disagrees: the expected and actual lower-case hex digests.
    ChecksumMismatch { path: String, expected: Vec<u8>, actual: Vec<u8> },
    /// The checksum file holds an entry for no component: its raw path bytes.
    UnexpectedChecksumEntry(Vec<u8>),
    /// A checksum line is malformed (1-based line number).
    InvalidChecksumFormat { line: usize, details: ChecksumIssue },
    /// The checksum file is not UTF-8.
    InvalidChecksumEncoding,
    /// The signature file is not PEM.
    InvalidSignature,
    /// The signature PEM label is not `ED25519 SIGNATURE`.
    UnexpectedSignatureLabel,
    /// The signature body is not exactly 64 bytes.
    InvalidSignatureLength,
    /// The Ed25519 signature does not verify over the checksum file.
    SignatureMismatch,
    /// The public key could not be parsed.
    InvalidPublicKey,
    /// The public key PEM label is not `PUBLIC KEY`.
    UnexpectedPublicKeyLabel,
}

/// Model of the errors [`spec_verify_bundle`] can yield.
pub enum BundleErrV {
    EmptyComponents,
    InvalidComponentPath(Seq<char>),
    MissingComponentFile(Seq<char>),
    MissingChecksumEntry(Seq<char>),
    ChecksumMismatch { path: Seq<char>, expected: Seq<u8>, actual: Seq<u8> },
    UnexpectedChecksumEntry(Seq<u8>),
    InvalidChecksumFormat { line: nat, details: ChecksumIssue },
    InvalidChecksumEncoding,
    InvalidSignature,
    UnexpectedSignatureLabel,
    InvalidSignatureLength,
    SignatureMismatch,
}

/// Whether an executable error is the one the model names.
pub open spec fn err_matches(e: BundleErrV, r: BundleError) -> bool {
    match e {
        BundleErrV::EmptyComponents => r is EmptyComponents,
        BundleErrV::InvalidComponentPath(p) => r matches BundleError::InvalidComponentPath(got)
            && got@ == p,
        BundleErrV::MissingComponentFile(p) => r matches BundleError::MissingComponentFile(got)
            && got@ == p,
        BundleErrV::MissingChecksumEntry(p) => r matches BundleError::MissingChecksumEntry(got)
            && got@ == p,
        BundleErrV::ChecksumMismatch { path, expected, actual } => r matches
            BundleError::ChecksumMismatch { path: gp, expected: ge, actual: ga } && gp@ == path
            && ge@ == expected && ga@ == actual,
        BundleErrV::UnexpectedChecksumEntry(p) => r matches BundleError::UnexpectedChecksumEntry(
            got,
        ) && got@ == p,
        BundleErrV::InvalidChecksumFormat { line, details } => r matches
            BundleError::InvalidChecksumFormat { line: gl, details: gd } && gl == line && gd
            == details,
        BundleErrV::InvalidChecksumEncoding => r is InvalidChecksumEncoding,
        BundleErrV::InvalidSignature => r is InvalidSignature,
        BundleErrV::UnexpectedSignatureLabel => r is UnexpectedSignatureLabel,
        BundleErrV::InvalidSignatureLength => r is InvalidSignatureLength,
        BundleErrV::SignatureMismatch => r is SignatureMismatch,
    }
}

/// A relative path is acceptable when it is not absolute and no `/`-separated
/// segment is `..`.
pub open spec fn rel_path_ok(p: Seq<u8>) -> bool
    decreases p.len(),
{
    if p.len() > 0 && p[0] == 47 {
        false
    } else {
        no_dotdot_segment(p)
    }
}

/// No `/`-separated segment of the byte string equals `..`.
pub open spec fn no_dotdot_segment(p: Seq<u8>) -> bool
    decreases p.len(),
    via no_dotdot_dec
{
    let k = find_byte(p, 47);
    if k >= p.len() {
        p != seq![46u8, 46u8]
    } else {
        p.take(k as int) != seq![46u8, 46u8] && no_dotdot_segment(p.skip(k as int + 1))
    }
}

#[via_fn]
proof fn no_dotdot_dec(p: Seq<u8>) {
    crate::checksum::lemma_find_byte_le(p, 47);
}

/// Executable test for [`no_dotdot_segment`] from an offset.
fn no_dotdot_from(p: &[u8], from: usize) -> (r: bool)
    requires
        from <= p@.len(),
    ensures
        r == no_dotdot_segment(p@.skip(from as int)),
    decreases p@.len() - from,
{
    let k = crate::checksum::find_byte_from(p, 47, from);
    let seg = &p[from..k];
    assert(seg@ =~= p@.skip(from as int).take(k - from));
    let is_dotdot = seg.len() == 2 && seg[0] == 46 && seg[1] == 46;
    proof {
        if is_dotdot {
            assert(seg@ =~= seq![46u8, 46u8]);
        } else {
            assert(seg@ != seq![46u8, 46u8]);
        }
    }
    if k == p.len() {
        proof {
            if !is_dotdot {
                assert(p@.skip(from as int).take(k - from) =~= p@.skip(from as int));
            } else {
                assert(p@.skip(from as int) =~= seq![46u8, 46u8]);
            }
        }
        return !is_dotdot;
    }
    if is_dotdot {
        return false;
    }
    let r = no_dotdot_from(p, k + 1);
    assert(p@.skip(from as int).skip(k - from + 1) =~= p@.skip(k as int + 1));
    r
}

/// Check a relative component path: not absolute, no `..` segment.
pub fn validate_relative_path(p: &[u8]) -> (r: bool)
    ensures
        r == rel_path_ok(p@),
{
    if p.len() > 0 && p[0] == 47 {
        return false;
    }
    assert(p@.skip(0) =~= p@);
    no_dotdot_from(p, 0)
}

/// First entry whose path equals `p`, searching from `k`.
pub open spec fn find_path_from(entries: Seq<(Seq<u8>, Seq<u8>)>, p: Seq<u8>, k: int) -> Option<
    int,
>
    decreases entries.len() - k,
{
    if k < 0 || k >= entries.len() {
        None
    } else if entries[k].0 == p {
        Some(k)
    } else {
        find_path_from(entries, p, k + 1)
    }
}

/// Find the checksum entry for a path.
fn find_entry(entries: &Vec<ChecksumEntry>, p: &[u8]) -> (r: Option<usize>)
    ensures
        match r {
            Some(j) => find_path_from(entries_view(entries@), p@, 0) == Some(j as int) && j
                < entries@.len(),
            None => find_path_from(entries_view(entries@), p@, 0) is None,
        },
{
    let mut i: usize = 0;
    while i < entries.len()
        invariant
            i <= entries@.len(),
            find_path_from(entries_view(entries@), p@, 0) == find_path_from(
                entries_view(entries@),
                p@,
                i as int,
            ),
        decreases entries@.len() - i,
    {
        if bytes_eq(entries[i].path.as_slice(), p) {
            assert(entries_view(entries@)[i as int].0 == p@);
            return Some(i);
        }
        assert(entries_view(entries@)[i as int].0 != p@);
        i = i + 1;
    }
    None
}

/// Outcome of checking components `i..` of the manifest against the files
/// and the remaining checksum entries: the entries left over, or the first
/// error.
pub open spec fn spec_check_components(
    comps: Seq<ComponentV>,
    files: Seq<Option<Seq<u8>>>,
    entries: Seq<(Seq<u8>, Seq<u8>)>,
    i: int,
) -> Result<Seq<(Seq<u8>, Seq<u8>)>, BundleErrV>
    decreases comps.len() - i,
{
    if i < 0 || i >= comps.len() {
        Ok(entries)
    } else {
        let c = comps[i];
        let pbytes = encode_utf8(c.path);
        if !rel_path_ok(pbytes) {
            Err(BundleErrV::InvalidComponentPath(c.path))
        } else if files[i] is None {
            Err(BundleErrV::MissingComponentFile(c.path))
        } else {
            match find_path_from(entries, pbytes, 0) {
                None => Err(BundleErrV::MissingChecksumEntry(c.path)),
                Some(j) => {
                    let expected = lower_bytes_of(encode_utf8(c.sha256));
                    if entries[j].1 != expected {
                        Err(
                            BundleErrV::ChecksumMismatch {
                                path: c.path,
                                expected,
                                actual: entries[j].1,
                            },
                        )
                    } else {
                        let actual = hex_lower_of(sha256_of(files[i].unwrap()));
                        if actual != expected {
                            Err(BundleErrV::ChecksumMismatch { path: c.path, expected, actual })
                        } else {
                            spec_check_components(comps, files, entries.remove(j), i + 1)
                        }
                    }
                },
            }
        }
    }
}

/// The full verification verdict over the bundle's parts: the manifest, the
/// component file contents (in manifest order, `None` for a missing file),
/// the raw checksum file, the signature PEM, and the DER public key.
pub open spec fn spec_verify_bundle(
    m: ManifestV,
    files: Seq<Option<Seq<u8>>>,
    checksum_file: Seq<u8>,
    signature_pem: Seq<u8>,
    pubkey_der: Seq<u8>,
) -> Result<Slot, BundleErrV> {
    if m.components.len() == 0 {
        Err(BundleErrV::EmptyComponents)
    } else if !valid_utf8(checksum_file) {
        Err(BundleErrV::InvalidChecksumEncoding)
    } else {
        match spec_parse_sha256sum(checksum_file, 1, Seq::empty()) {
            Err((line, details)) => Err(BundleErrV::InvalidChecksumFormat { line, details }),
            Ok(entries) => match spec_check_components(m.components, files, entries, 0) {
                Err(e) => Err(e),
                Ok(rem) => if rem.len() > 0 {
                    Err(BundleErrV::UnexpectedChecksumEntry(rem[0].0))
                } else {
                    match pem_of(signature_pem) {
                        None => Err(BundleErrV::InvalidSignature),
                        Some((tag, body)) => if tag != "ED25519 SIGNATURE"@ {
                            Err(BundleErrV::UnexpectedSignatureLabel)
                        } else if body.len() != 64 {
                            Err(BundleErrV::InvalidSignatureLength)
                        } else if !ed25519_sig_ok(pubkey_der, checksum_file, body) {
                            Err(BundleErrV::SignatureMismatch)
                        } else {
                            Ok(m.target_slot)
                        },
                    }
                },
            },
        }
    }
}

/// Verify a bundle's parts against the manifest and the configured public
/// key. `files` holds each manifest component's file content, in manifest
/// order, `None` when the file is missing or not a regular file. On success
/// the returned metadata exposes the manifest and its declared target slot.
///
/// Checksums are checked before the signature; the signature covers the raw
/// bytes of the checksum file, not the individual components.
pub fn verify_bundle_with_valid_key(
    manifest: Manifest,
    files: &Vec<Option<Vec<u8>>>,
    checksum_file: &Vec<u8>,
    signature_pem: &Vec<u8>,
    pubkey_der: &Vec<u8>,
) -> (r: Result<StageBundleMetadata, BundleError>)
    requires
        files@.len() == manifest.components@.len(),
        ed25519_key_ok(pubkey_der@),
        checksum_file@.len() < usize::MAX,
    ensures
        match spec_verify_bundle(
            manifest@,
            files_view(files@),
            checksum_file@,
            signature_pem@,
            pubkey_der@,
        ) {
            Ok(slot) => r matches Ok(meta) && meta@ == manifest@ && slot == manifest@.target_slot,
            Err(e) => r matches Err(got) && err_matches(e, got),
        },
{
    let ghost filesv = files_view(files@);
    if manifest.components.len() == 0 {
        return Err(BundleError::EmptyComponents);
    }
    let encoded = string_from_utf8(clone_bytes(checksum_file));
    if encoded.is_err() {
        return Err(BundleError::InvalidChecksumEncoding);
    }
    let mut entries = match parse_sha256sum(checksum_file.as_slice()) {
        Ok(es) => es,
        Err((line, details)) => {
            return Err(BundleError::InvalidChecksumFormat { line, details });
        },
    };
    let ghost entries0 = entries_view(entries@);

    let mut i: usize = 0;
    while i < manifest.components.len()
        invariant
            i <= manifest.components@.len(),
            files@.len() == manifest.components@.len(),
            filesv == files_view(files@),
            manifest@.components.len() > 0,
            vstd::utf8::valid_utf8(checksum_file@),
            spec_parse_sha256sum(checksum_file@, 1, Seq::empty()) == Ok::<
                Seq<(Seq<u8>, Seq<u8>)>,
                (nat, ChecksumIssue),
            >(entries0),
            spec_check_components(manifest@.components, filesv, entries0, 0)
                == spec_check_components(
                manifest@.components,
                filesv,
                entries_view(entries@),
                i as int,
            ),
        decreases manifest.components@.len() - i,
    {
        let ghost cv = manifest@.components[i as int];
        let c = &manifest.components[i];
        assert(c@ == cv);
        let pbytes = c.path.as_str().as_bytes();
        assert(pbytes@ == encode_utf8(cv.path));
        if !validate_relative_path(pbytes) {
            return Err(BundleError::InvalidComponentPath(c.path.clone()));
        }
        let content = match &files[i] {
            Some(content) => content,
            None => {
                assert(filesv[i as int] is None);
                return Err(BundleError::MissingComponentFile(c.path.clone()));
            },
        };
        assert(filesv[i as int] == Some(content@));
        let j = match find_entry(&entries, pbytes) {
            Some(j) => j,
            None => {
                return Err(BundleError::MissingChecksumEntry(c.path.clone()));
            },
        };
        let expected = lower_bytes(c.sha256.as_str().as_bytes());
        assert(expected@ == lower_bytes_of(encode_utf8(cv.sha256)));
        if !bytes_eq(entries[j].digest.as_slice(), expected.as_slice()) {
            let actual = clone_bytes(&entries[j].digest);
            assert(actual@ == entries_view(entries@)[j as int].1);
            return Err(BundleError::ChecksumMismatch { path: c.path.clone(), expected, actual });
        }
        let digest = sha256(content.as_slice());
        let actual = hex_encode_lower(digest.as_slice());
        assert(actual@ == hex_lower_of(sha256_of(filesv[i as int].unwrap())));
        if !bytes_eq(actual.as_slice(), expected.as_slice()) {
            return Err(BundleError::ChecksumMismatch { path: c.path.clone(), expected, actual });
        }
        let ghost before = entries_view(entries@);
        let _ = entries.remove(j);
        assert(entries_view(entries@) =~= before.remove(j as int));
        i = i + 1;
    }

    if entries.len() > 0 {
        let ghost rem = entries_view(entries@);
        let first = clone_bytes(&entries[0].path);
        assert(first@ == rem[0].0);
        return Err(BundleError::UnexpectedChecksumEntry(first));
    }
    assert(entries_view(entries@) =~= Seq::<(Seq<u8>, Seq<u8>)>::empty());

    let (tag, body) = match pem_parse(signature_pem.as_slice()) {
        Ok(p) => p,
        Err(()) => {
            return Err(BundleError::InvalidSignature);
        },
    };
    if !str_eq_label(tag.as_str(), "ED25519 SIGNATURE") {
        return Err(BundleError::UnexpectedSignatureLabel);
    }
    if body.len() != 64 {
        return Err(BundleError::InvalidSignatureLength);
    }
    if !ed25519_verify(pubkey_der.as_slice(), checksum_file.as_slice(), body.as_slice()) {
        return Err(BundleError::SignatureMismatch);
    }
    Ok(StageBundleMetadata::new(manifest))
}

/// Copy a byte vector.
fn clone_bytes(v: &Vec<u8>) -> (r: Vec<u8>)
    ensures
        r@ == v@,
{
    let mut out: Vec<u8> = Vec::new();
    let mut i: usize = 0;
    while i < v.len()
        invariant
            i <= v@.len(),
            out@ == v@.take(i as int),
        decreases v@.len() - i,
    {
        out.push(v[i]);
        assert(out@ =~= v@.take(i as int + 1));
        i = i + 1;
    }
    assert(v@.take(v@.len() as int) =~= v@);
    out
}

/// String equality against a label.
fn str_eq_label(a: &str, b: &str) -> (r: bool)
    ensures
        r == (a@ == b@),
{
    let ab = a.as_bytes();
    let bb = b.as_bytes();
    let r = bytes_eq(ab, bb);
    proof {
        vstd::utf8::encode_utf8_decode_utf8(a@);
        vstd::utf8::encode_utf8_decode_utf8(b@);
    }
    r
}

/// Parse the configured Ed25519 public key from PEM: the label must be
/// `PUBLIC KEY` and the body a DER `SubjectPublicKeyInfo` that parses as an
/// Ed25519 key. Returns the DER bytes.
pub fn public_key_der_from_pem(pem_bytes: &[u8]) -> (r: Result<Vec<u8>, BundleError>)
    ensures
        match pem_of(pem_bytes@) {
            None => r matches Err(e) && e is InvalidPublicKey,
            Some((tag, body)) => if tag != "PUBLIC KEY"@ {
                r matches Err(e) && e is UnexpectedPublicKeyLabel
            } else if !ed25519_key_ok(body) {
                r matches Err(e) && e is InvalidPublicKey
            } else {
                r matches Ok(der) && der@ == body && ed25519_key_ok(der@)
            },
        },
{
    let (tag, body) = match pem_parse(pem_bytes) {
        Ok(p) => p,
        Err(()) => {
            return Err(BundleError::InvalidPublicKey);
        },
    };
    if !str_eq_label(tag.as_str(), "PUBLIC KEY") {
        return Err(BundleError::UnexpectedPublicKeyLabel);
    }
    if !ed25519_pubkey_ok(body.as_slice()) {
        return Err(BundleError::InvalidPublicKey);
    }
    Ok(body)
}

/// Verify a bundle's parts under a DER-encoded public key. A key that does
/// not parse as an Ed25519 `SubjectPublicKeyInfo` is rejected as
/// `InvalidPublicKey`; otherwise the bundle is checked as
/// [`verify_bundle_with_valid_key`] states.
pub fn verify_bundle(
    manifest: Manifest,
    files: &Vec<Option<Vec<u8>>>,
    checksum_file: &Vec<u8>,
    signature_pem: &Vec<u8>,
    pubkey_der: &Vec<u8>,
) -> (r: Result<StageBundleMetadata, BundleError>)
    requires
        files@.len() == manifest.components@.len(),
        checksum_file@.len() < usize::MAX,
    ensures
        !ed25519_key_ok(pubkey_der@) ==> (r matches Err(e) && e is InvalidPublicKey),
        ed25519_key_ok(pubkey_der@) ==> match spec_verify_bundle(
            manifest@,
            files_view(files@),
            checksum_file@,
            signature_pem@,
            pubkey_der@,
        ) {
            Ok(slot) => r matches Ok(meta) && meta@ == manifest@ && slot == manifest@.target_slot,
            Err(e) => r matches Err(got) && err_matches(e, got),
        },
{
    if !ed25519_pubkey_ok(pubkey_der.as_slice()) {
        return Err(BundleError::InvalidPublicKey);
    }
    verify_bundle_with_valid_key(manifest, files, checksum_file, signature_pem, pubkey_der)
}

/// Bundle determinism: the verification verdict is a function of the
/// bundle's parts and the key alone, so verifying the same bundle twice
/// yields the same metadata or the same error.
pub proof fn lemma_bundle_determinism(
    m1: ManifestV,
    files1: Seq<Option<Seq<u8>>>,
    checksum1: Seq<u8>,
    sig1: Seq<u8>,
    key1: Seq<u8>,
    m2: ManifestV,
    files2: Seq<Option<Seq<u8>>>,
    checksum2: Seq<u8>,
    sig2: Seq<u8>,
    key2: Seq<u8>,
)
    requires
        m1 == m2,
        files1 == files2,
        checksum1 == checksum2,
        sig1 == sig2,
        key1 == key2,
    ensures
        spec_verify_bundle(m1, files1, checksum1, sig1, key1) == spec_verify_bundle(
            m2,
            files2,
            checksum2,
            sig2,
            key2,
        ),
{
}

} // verus!
