//! The integrity gate for downloaded packages: the SHA-256 digest of the
//! bytes, written in lower-case hex, must equal the declared checksum,
//! ignoring case.
use vstd::prelude::*;
use vstd::string::*;
use sha2::Digest;
use crate::error::StoreError;
use crate::text::{eq_ignore_ascii_case, eq_ignore_ascii_case_spec};

verus! {

/// The SHA-256 digest of some bytes.
pub uninterp spec fn sha256_of(data: Seq<u8>) -> Seq<u8>;

/// Relies on sha2::Sha256::digest for the SHA-256 digest of the bytes, which
/// is 32 bytes long.
#[verifier::external_body]
fn sha256(data: &[u8]) -> (r: Vec<u8>)
    ensures
        r@ == sha256_of(data@),
        r@.len() == 32,
{
    sha2::Sha256::digest(data).to_vec()
}

pub open spec fn hex_alphabet() -> Seq<char> {
    "0123456789abcdef"@
}

/// Two lower-case hex digits per byte, high nibble first.
pub open spec fn hex_lower(b: Seq<u8>) -> Seq<char>
    decreases b.len(),
{
    if b.len() == 0 {
        Seq::empty()
    } else {
        let x = b.last();
        hex_lower(b.drop_last()) + hex_alphabet().subrange((x / 16) as int, (x / 16) as int + 1)
            + hex_alphabet().subrange((x % 16) as int, (x % 16) as int + 1)
    }
}

fn hex_digit(n: u8) -> (r: &'static str)
    requires
        n < 16,
    ensures
        r@ == hex_alphabet().subrange(n as int, n as int + 1),
{
    let digits = "0123456789abcdef";
    proof {
        reveal_strlit("0123456789abcdef");
    }
    digits.substring_char(n as usize, n as usize + 1)
}

/// Lower-case hex text of some bytes.
pub fn to_hex(b: &[u8]) -> (r: String)
    ensures
        r@ == hex_lower(b@),
{
    let mut out = String::new();
    let mut i: usize = 0;
    while i < b.len()
        invariant
            i <= b@.len(),
            out@ == hex_lower(b@.subrange(0, i as int)),
        decreases b@.len() - i,
    {
        let x = b[i];
        proof {
            let sub = b@.subrange(0, i + 1);
            assert(sub.drop_last() =~= b@.subrange(0, i as int));
            assert(sub.last() == x);
        }
        out.append(hex_digit(x / 16));
        out.append(hex_digit(x % 16));
        i += 1;
    }
    assert(b@.subrange(0, b@.len() as int) =~= b@);
    out
}

/// The checksum of a package: its SHA-256 digest in lower-case hex.
pub open spec fn checksum_of(data: Seq<u8>) -> Seq<char> {
    hex_lower(sha256_of(data))
}

/// Computes the checksum of a package.
pub fn package_checksum(data: &[u8]) -> (r: String)
    ensures
        r@ == checksum_of(data@),
{
    let digest = sha256(data);
    to_hex(digest.as_slice())
}

/// Compares a computed checksum with the expected one, ignoring case: the
/// bytes pass when they agree and are withheld with a `Security` error
/// when they do not.
pub fn check_package(data: Vec<u8>, computed: &str, expected: &str) -> (r: Result<Vec<u8>, StoreError>)
    ensures
        r is Ok <==> eq_ignore_ascii_case_spec(computed@, expected@),
        r matches Ok(d) ==> d@ == data@,
        r is Err ==> r matches Err(StoreError::Security(_)),
{
    if eq_ignore_ascii_case(computed, expected) {
        Ok(data)
    } else {
        Err(StoreError::Security(String::from_str("package checksum mismatch")))
    }
}

/// Verifies downloaded package bytes against the checksum the catalog
/// declared.
pub fn verify_package(data: Vec<u8>, expected: &str) -> (r: Result<Vec<u8>, StoreError>)
    ensures
        r is Ok <==> eq_ignore_ascii_case_spec(checksum_of(data@), expected@),
        r matches Ok(d) ==> d@ == data@,
        r is Err ==> r matches Err(StoreError::Security(_)),
{
    let computed = package_checksum(data.as_slice());
    check_package(data, computed.as_str(), expected)
}

} // verus!
