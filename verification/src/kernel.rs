//! Facts about the running system that the daemon checks before it serves.
use vstd::prelude::*;
use vstd::string::StringSliceAdditionalSpecFns;

use crate::text::{chars_of, parse_u32, parse_u32_spec, split_chars, split_on, string_from_chars};

verus! {

/// The oldest kernel release that the daemon runs on, major part.
pub const REQUIRED_KERNEL_MAJOR: u32 = 6;

/// The oldest kernel release that the daemon runs on, minor part.
pub const REQUIRED_KERNEL_MINOR: u32 = 13;

/// The first `.`-separated field of a release.
pub open spec fn first_field(release: Seq<char>) -> Seq<char> {
    split_on(release, '.')[0]
}

/// Whether the release `major.minor` is older than the required one.
pub open spec fn release_too_old(major: u32, minor: u32) -> bool {
    major < REQUIRED_KERNEL_MAJOR || (major == REQUIRED_KERNEL_MAJOR && minor
        < REQUIRED_KERNEL_MINOR)
}

/// Why the running kernel is refused.
#[derive(Debug)]
pub enum KernelError {
    /// The version field `text` is not a number.
    BadNumber { text: String },
    /// The kernel is older than required.
    TooOld { major: u32, minor: u32 },
}

/// Checks the kernel release `release` (as `uname` gives it, such as
/// `6.13.0-arch1`) against the required one. Both the major and the minor
/// version are read from the release's first `.`-separated field, so a
/// release is accepted exactly when that field is a number `n` with
/// `(n, n)` not older than the required `(major, minor)`.
pub fn require_kernel_version(release: &str) -> (r: Result<(), KernelError>)
    ensures
        ({
            let f0 = first_field(release@);
            match parse_u32_spec(f0) {
                None => r matches Err(KernelError::BadNumber { text }) && text@ == f0,
                Some(n) => if release_too_old(n, n) {
                    r matches Err(KernelError::TooOld { major: x, minor: y }) && x == n && y == n
                } else {
                    r is Ok
                },
            }
        }),
{
    let text = chars_of(release);
    let fields = split_chars(&text, '.');
    proof {
        assert(fields@.map_values(|w: Vec<char>| w@)[0] == fields@[0]@);
        assert(fields@.map_values(|w: Vec<char>| w@).len() == fields@.len());
    }
    let major = match parse_u32(&fields[0]) {
        Some(n) => n,
        None => {
            return Err(KernelError::BadNumber { text: string_from_chars(&fields[0]) });
        },
    };
    let minor = match parse_u32(&fields[0]) {
        Some(n) => n,
        None => {
            return Err(KernelError::BadNumber { text: string_from_chars(&fields[0]) });
        },
    };
    if major < REQUIRED_KERNEL_MAJOR || (major == REQUIRED_KERNEL_MAJOR && minor
        < REQUIRED_KERNEL_MINOR) {
        return Err(KernelError::TooOld { major, minor });
    }
    Ok(())
}

/// The bytes of `b` before its first NUL byte.
pub open spec fn before_nul(b: Seq<u8>) -> Seq<u8>
    decreases b.len(),
{
    if b.len() == 0 || b[0] == 0 {
        seq![]
    } else {
        seq![b[0]] + before_nul(b.drop_first())
    }
}

/// The bytes of `s` that a C string can hold: its UTF-8 bytes up to the first NUL.
pub fn strtocstr(s: &str) -> (r: Vec<u8>)
    ensures
        r@ == before_nul(s.spec_bytes()),
{
    let bytes = s.as_bytes();
    let mut out: Vec<u8> = Vec::new();
    let mut i: usize = 0;
    assert(bytes@.skip(0) =~= bytes@);
    while i < bytes.len() && bytes[i] != 0
        invariant
            i <= bytes.len(),
            bytes@ == s.spec_bytes(),
            before_nul(bytes@) == out@ + before_nul(bytes@.skip(i as int)),
        decreases bytes.len() - i,
    {
        let ghost rest = bytes@.skip(i as int);
        assert(rest.drop_first() =~= bytes@.skip(i + 1));
        assert(rest[0] == bytes@[i as int]);
        out.push(bytes[i]);
        i = i + 1;
    }
    assert(out@ + before_nul(bytes@.skip(i as int)) =~= out@);
    out
}

/// Whether the real, effective and saved ids are all root.
pub fn is_superuser(real_id: u32, effective_id: u32, saved_id: u32) -> (b: bool)
    ensures
        b == (real_id == 0 && effective_id == 0 && saved_id == 0),
{
    real_id == 0 && effective_id == 0 && saved_id == 0
}

} // verus!
