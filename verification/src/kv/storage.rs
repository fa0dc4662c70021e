use vstd::prelude::*;
use vstd::string::StringExecFns;

verus! {

/// The character of one decimal digit.
pub open spec fn digit_char(d: u64) -> char {
    if d == 0 {
        '0'
    } else if d == 1 {
        '1'
    } else if d == 2 {
        '2'
    } else if d == 3 {
        '3'
    } else if d == 4 {
        '4'
    } else if d == 5 {
        '5'
    } else if d == 6 {
        '6'
    } else if d == 7 {
        '7'
    } else if d == 8 {
        '8'
    } else {
        '9'
    }
}

/// The decimal digits of `n`, most significant first, no sign, no padding.
pub open spec fn decimal_digits(n: u64) -> Seq<char>
    decreases n,
{
    if n < 10 {
        seq![digit_char(n)]
    } else {
        decimal_digits(n / 10).push(digit_char(n % 10))
    }
}

/// Relies on std's `Display` for `u64`: it renders the number in plain
/// decimal, exactly `decimal_digits`.
#[verifier::external_body]
fn decimal_string(n: u64) -> (r: String)
    ensures
        r@ == decimal_digits(n),
{
    format!("{}", n)
}

/// Versioned key–value storage with optimistic concurrency. Implementations
/// synchronize internally (hence the shared receiver) and keep their data
/// wherever they like — memory, a flat file, an embedded database; the
/// version rule they must all follow is `decide_put` in the neighbouring
/// module, and `VersionedStore` is its in-memory form.
pub trait Storage: Send + Sync {
    /// The value and current version of `key`; `KeyNotFound` when absent.
    fn get(&self, key: &str) -> Result<(String, u64), StorageError>;

    /// Writes `value` under `key` when `expected_version` matches the
    /// stored version (`0` means: create, the key must not exist yet), and
    /// returns the new version.
    fn put(&self, key: &str, value: String, expected_version: u64) -> Result<u64, StorageError>;
}

/// Why a storage operation was refused.
#[derive(Debug, Clone)]
pub enum StorageError {
    /// Get on a missing key, or put with a nonzero version on a missing
    /// key.
    KeyNotFound(String),
    /// Put with version zero (create) on a key that already exists.
    KeyAlreadyExists(String),
    /// Put whose expected version is not the stored one.
    VersionMismatch { expected: u64, actual: u64 },
    /// An internal failure of the backend (I/O, corruption).
    Internal(String),
}

impl StorageError {
    /// The human-readable description of the error (the type itself cannot
    /// carry `Display`).
    pub fn message(&self) -> (r: String)
        ensures
            match self {
                StorageError::KeyNotFound(key) => r@ == "Key '"@ + key@ + "' not found"@,
                StorageError::KeyAlreadyExists(key) => r@ == "Key '"@ + key@
                    + "' already exists"@,
                StorageError::VersionMismatch { expected, actual } => r@
                    == "Version mismatch: expected "@ + decimal_digits(*expected) + ", actual "@
                    + decimal_digits(*actual),
                StorageError::Internal(msg) => r@ == "Internal storage error: "@ + msg@,
            },
    {
        match self {
            StorageError::KeyNotFound(key) => {
                let mut out = String::from_str("Key '");
                out.append(key.as_str());
                out.append("' not found");
                proof {
                    assert(out@ =~= "Key '"@ + key@ + "' not found"@);
                }
                out
            },
            StorageError::KeyAlreadyExists(key) => {
                let mut out = String::from_str("Key '");
                out.append(key.as_str());
                out.append("' already exists");
                proof {
                    assert(out@ =~= "Key '"@ + key@ + "' already exists"@);
                }
                out
            },
            StorageError::VersionMismatch { expected, actual } => {
                let mut out = String::from_str("Version mismatch: expected ");
                let expected_digits = decimal_string(*expected);
                out.append(expected_digits.as_str());
                out.append(", actual ");
                let actual_digits = decimal_string(*actual);
                out.append(actual_digits.as_str());
                proof {
                    assert(out@ =~= "Version mismatch: expected "@ + decimal_digits(*expected)
                        + ", actual "@ + decimal_digits(*actual));
                }
                out
            },
            StorageError::Internal(msg) => {
                let mut out = String::from_str("Internal storage error: ");
                out.append(msg.as_str());
                proof {
                    assert(out@ =~= "Internal storage error: "@ + msg@);
                }
                out
            },
        }
    }
}

} // verus!
