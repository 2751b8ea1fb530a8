//! Idempotency keys, as clients supply them in the `Idempotency-Key`
//! header.

use vstd::prelude::*;

verus! {

/// A validated idempotency key: any identifier a client provides in the
/// `Idempotency-Key` header, non-empty and shorter than 255 characters.
/// Construction is the only validation point; a key is immutable
/// afterwards and compared by its exact characters.
#[derive(Debug, Clone, PartialEq, Eq, Hash)]
pub struct IKey(pub String);

/// Why a header value is not a valid key.
#[derive(Debug, Clone, Copy, PartialEq, Eq)]
pub enum KeyError {
    /// The header was absent.
    MissingKey,
    /// The header value was the empty string.
    EmptyKey,
    /// The header value has 255 characters or more.
    TooLong,
}

impl View for IKey {
    type V = Seq<char>;

    open spec fn view(&self) -> Seq<char> {
        self.0@
    }
}

/// The bounds a key value must meet: at least one and at most 254
/// characters.
pub open spec fn ikey_valid(s: Seq<char>) -> bool {
    1 <= s.len() < 255
}

impl IKey {
    /// The header a key is read from.
    pub fn header_name() -> (r: &'static str)
        ensures
            r@ == "Idempotency-Key"@,
    {
        "Idempotency-Key"
    }

    /// Validates a key value.
    pub fn try_from(key: String) -> (r: Result<IKey, KeyError>)
        ensures
            match r {
                Ok(k) => ikey_valid(key@) && k@ == key@,
                Err(e) => !ikey_valid(key@) && match e {
                    KeyError::EmptyKey => key@.len() == 0,
                    KeyError::TooLong => key@.len() >= 255,
                    KeyError::MissingKey => false,
                },
            },
    {
        let n = key.as_str().unicode_len();
        if n == 0 {
            return Err(KeyError::EmptyKey);
        }
        if n >= 255 {
            return Err(KeyError::TooLong);
        }
        Ok(IKey(key))
    }

    /// Validates the value of the `Idempotency-Key` header, when the
    /// header was present at all.
    pub fn from_headers(header: Option<String>) -> (r: Result<IKey, KeyError>)
        ensures
            match r {
                Ok(k) => header is Some && k@ == header->Some_0@ && ikey_valid(k@),
                Err(e) => match header {
                    None => e == KeyError::MissingKey,
                    Some(h) => !ikey_valid(h@) && e != KeyError::MissingKey,
                },
            },
    {
        match header {
            None => Err(KeyError::MissingKey),
            Some(h) => IKey::try_from(h),
        }
    }

    pub fn as_str(&self) -> (r: &str)
        ensures
            r@ == self@,
    {
        self.0.as_str()
    }

    /// A copy whose value is the same as `self`'s.
    pub fn duplicate(&self) -> (r: IKey)
        ensures
            r@ == self@,
    {
        IKey(self.0.clone())
    }
}

} // verus!
