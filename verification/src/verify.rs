//! The artifact verification protocol: a downloaded artifact passes when
//! its SHA-256 digest begins some line of the tool's checksum manifest.

use vstd::prelude::*;

use sha2::Digest;

use crate::error::ProtoError;
use crate::paths::joined_file_spec;
use crate::resource::Tool;
use crate::resource::checksum_file_name_spec;
use crate::text::is_prefix_of;
use crate::text::split_lines;
use crate::text::split_lines_spec;
use crate::text::str_starts_with;

verus! {

/// Number of characters in a SHA-256 digest rendered as lowercase hex.
pub const SHA256_HEX_LEN: usize = 64;

/// The SHA-256 digest of a byte sequence, rendered as lowercase hex.
pub uninterp spec fn sha256_hex_of(bytes: Seq<u8>) -> Seq<char>;

/// Relies on sha2's `Sha256::digest`: the digest depends on the input
/// bytes alone, and its 32 bytes render as 64 lowercase hex characters.
#[verifier::external_body]
fn sha256_hex(bytes: &Vec<u8>) -> (r: String)
    ensures
        r@ == sha256_hex_of(bytes@),
        r@.len() == SHA256_HEX_LEN,
{
    let digest = sha2::Sha256::digest(bytes.as_slice());
    let mut out = String::new();
    for byte in digest.iter() {
        out.push_str(&format!("{:02x}", byte));
    }
    out
}

/// Some line of the manifest begins with the digest. Lines begin with the
/// hex digest token, then whitespace and a file name, so a prefix match on
/// the token is the matching rule; blank and trailing lines never match a
/// non-empty digest.
pub open spec fn manifest_contains_digest(digest: Seq<char>, manifest: Seq<char>) -> bool {
    exists|i: int|
        0 <= i < split_lines_spec(manifest).len() && is_prefix_of(
            digest,
            #[trigger] split_lines_spec(manifest)[i],
        )
}

/// Scans the manifest's lines for one that begins with the digest.
pub fn checksum_matches_manifest(digest: &str, manifest: &str) -> (r: bool)
    ensures
        r == manifest_contains_digest(digest@, manifest@),
{
    let lines = split_lines(manifest);
    let ghost lv = lines.deep_view();
    let mut i: usize = 0;
    while i < lines.len()
        invariant
            i <= lines.len(),
            lv == lines.deep_view(),
            lv == split_lines_spec(manifest@),
            lv.len() == lines.len(),
            forall|j: int| 0 <= j < i ==> !is_prefix_of(digest@, #[trigger] lv[j]),
        decreases lines.len() - i,
    {
        if str_starts_with(lines[i].as_str(), digest) {
            proof {
                assert(is_prefix_of(digest@, lv[i as int]));
            }
            return true;
        }
        i = i + 1;
    }
    false
}

/// Verifies a downloaded artifact against its checksum manifest: computes
/// the artifact's SHA-256 digest and succeeds exactly when some manifest
/// line begins with it; otherwise fails with the checksum error carrying
/// both paths.
pub fn verify_checksum(
    checksum_text: &str,
    download_bytes: &Vec<u8>,
    checksum_path: &String,
    download_path: &String,
) -> (r: Result<bool, ProtoError>)
    ensures
        match r {
            Ok(b) => b && manifest_contains_digest(
                sha256_hex_of(download_bytes@),
                checksum_text@,
            ),
            Err(e) => !manifest_contains_digest(sha256_hex_of(download_bytes@), checksum_text@)
                && (e@ matches crate::error::ErrorModel::InvalidChecksum(d, c) && d
                == download_path@ && c == checksum_path@),
        },
{
    let digest = sha256_hex(download_bytes);
    if checksum_matches_manifest(digest.as_str(), checksum_text) {
        Ok(true)
    } else {
        Err(
            ProtoError::InvalidChecksum {
                download_path: download_path.clone(),
                checksum_path: checksum_path.clone(),
            },
        )
    }
}

impl Tool {
    /// The verification capability: checks the downloaded artifact against
    /// the manifest fetched to this tool's checksum path.
    pub fn verify_checksum(
        &self,
        checksum_text: &str,
        download_bytes: &Vec<u8>,
        download_path: &String,
    ) -> (r: Result<bool, ProtoError>)
        ensures
            match r {
                Ok(b) => b && manifest_contains_digest(
                    sha256_hex_of(download_bytes@),
                    checksum_text@,
                ),
                Err(e) => !manifest_contains_digest(
                    sha256_hex_of(download_bytes@),
                    checksum_text@,
                ) && (e@ matches crate::error::ErrorModel::InvalidChecksum(d, c) && d
                    == download_path@ && c == joined_file_spec(
                    self@.temp_dir,
                    checksum_file_name_spec(self@.version),
                )),
            },
    {
        let checksum_path = self.get_checksum_path();
        verify_checksum(checksum_text, download_bytes, &checksum_path, download_path)
    }
}

} // verus!
