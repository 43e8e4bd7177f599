//! Digests that name the stored contents of files.

use crate::checkpoint::error::FileCheckpointError;
use crate::text::{chars_of, concat3};
use sha2::Digest;
use vstd::prelude::*;

verus! {

/// The SHA-256 digest of some bytes, in lower-case hexadecimal.
pub uninterp spec fn sha256_hex(contents: Seq<u8>) -> Seq<char>;

/// Whether a character is a lower-case hexadecimal digit.
pub open spec fn lower_hex_digit(c: char) -> bool {
    '0' <= c <= '9' || 'a' <= c <= 'f'
}

/// Whether a character is an ASCII hexadecimal digit.
pub open spec fn hex_digit(c: char) -> bool {
    lower_hex_digit(c) || 'A' <= c <= 'F'
}

/// Whether a text can be the name of a blob: 64 hexadecimal digits.
pub open spec fn digest_name(name: Seq<char>) -> bool {
    name.len() == 64 && forall|i: int| 0 <= i < name.len() ==> hex_digit(#[trigger] name[i])
}

/// Calls `sha2::Sha256::digest` and writes the 32 bytes of the digest as 64 lower-case
/// hexadecimal digits. The digest depends on the bytes alone.
#[verifier::external_body]
pub(crate) fn sha256(contents: &[u8]) -> (r: String)
    ensures
        r@ == sha256_hex(contents@),
        r@.len() == 64,
        forall|i: int| 0 <= i < r@.len() ==> lower_hex_digit(#[trigger] r@[i]),
{
    format!("{:x}", sha2::Sha256::digest(contents))
}

/// Refuses a text that cannot be the name of a blob.
pub fn validate_sha256(value: &str) -> (r: Result<(), FileCheckpointError>)
    ensures
        digest_name(value@) ==> r is Ok,
        !digest_name(value@) ==> (r matches Err(FileCheckpointError::InvalidData(message))
            && message@ == "checkpoint blob name is not a SHA-256 digest"@),
{
    let chars = chars_of(value);
    let mut valid = chars.len() == 64;
    let mut i: usize = 0;
    while valid && i < chars.len()
        invariant
            chars@ == value@,
            i <= chars@.len(),
            valid ==> chars@.len() == 64 && forall|k: int|
                0 <= k < i ==> hex_digit(#[trigger] chars@[k]),
            !valid ==> !digest_name(value@),
        decreases chars@.len() - i,
    {
        let c = chars[i];
        if !(('0' <= c && c <= '9') || ('a' <= c && c <= 'f') || ('A' <= c && c <= 'F')) {
            assert(!hex_digit(value@[i as int]));
            valid = false;
        }
        i += 1;
    }
    if valid {
        Ok(())
    } else {
        Err(
            FileCheckpointError::InvalidData(
                "checkpoint blob name is not a SHA-256 digest".to_owned(),
            ),
        )
    }
}

/// Whether stored contents are those that a blob name and a size stand for.
pub open spec fn intact(sha256: Seq<char>, size: u64, contents: Seq<u8>) -> bool {
    contents.len() == size && sha256_hex(contents) == sha256
}

/// Refuses stored contents that are not those that the blob name and the size stand for.
pub fn verify_blob(sha256_name: &str, size: u64, contents: &Vec<u8>) -> (r: Result<
    (),
    FileCheckpointError,
>)
    ensures
        r is Ok <==> digest_name(sha256_name@) && intact(sha256_name@, size, contents@),
        !digest_name(sha256_name@) ==> (r matches Err(FileCheckpointError::InvalidData(message))
            && message@ == "checkpoint blob name is not a SHA-256 digest"@),
        digest_name(sha256_name@) && !intact(sha256_name@, size, contents@) ==> (r matches Err(
            FileCheckpointError::InvalidData(message),
        ) && message@ == "checkpoint blob "@ + sha256_name@ + " failed integrity validation"@),
{
    match validate_sha256(sha256_name) {
        Ok(()) => {},
        Err(error) => {
            return Err(error);
        },
    }
    let digest = sha256(contents.as_slice());
    if contents.len() as u64 != size || digest != sha256_name.to_owned() {
        return Err(
            FileCheckpointError::InvalidData(
                concat3("checkpoint blob ", sha256_name, " failed integrity validation"),
            ),
        );
    }
    Ok(())
}

/// A blob is taken for what its name says only where its bytes have that digest and that number.
/// A name that is too short, too long or holds anything but hexadecimal digits is none.
pub proof fn only_matching_bytes_are_intact(
    name: Seq<char>,
    size: u64,
    contents: Seq<u8>,
    other: Seq<u8>,
)
    requires
        intact(name, size, contents),
    ensures
        contents.len() == size,
        intact(name, size, other) ==> other.len() == contents.len() && sha256_hex(other)
            == sha256_hex(contents),
        other.len() != contents.len() || sha256_hex(other) != sha256_hex(contents) ==> !intact(
            name,
            size,
            other,
        ),
        contents.len() <= u64::MAX ==> intact(
            sha256_hex(contents),
            contents.len() as u64,
            contents,
        ),
{
}

/// The names of blobs are exactly the texts of 64 characters out of the sixteen digits, the letters
/// in either case.
pub proof fn names_are_hexadecimal(name: Seq<char>, i: int)
    requires
        0 <= i < name.len(),
    ensures
        name.len() != 64 ==> !digest_name(name),
        digest_name(name) ==> ({
            let n = name[i] as int;
            48 <= n <= 57 || 65 <= n <= 70 || 97 <= n <= 102
        }),
        ({
            let n = name[i] as int;
            !(48 <= n <= 57 || 65 <= n <= 70 || 97 <= n <= 102)
        }) ==> !digest_name(name),
        name.len() == 64 && (forall|k: int|
            0 <= k < 64 ==> 48 <= (#[trigger] name[k]) as int <= 57 || 65 <= name[k] as int <= 70
                || 97 <= name[k] as int <= 102) ==> digest_name(name),
{
}

} // verus!
