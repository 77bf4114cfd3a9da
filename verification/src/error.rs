use vstd::prelude::*;
use vstd::string::StringExecFns;

verus! {

/// The ways a Basic authorization value can be rejected. Every failure of the
/// library falls under exactly one of these kinds; the text carried by a kind
/// is diagnostic context for the caller.
#[derive(Debug)]
pub enum AuthBasicError {
    /// The HTTP Authorization header value is invalid: no space splits it into
    /// scheme and payload, the payload holds a further space, or the decoded
    /// credential text holds no colon.
    InvalidAuthorizationHeader,
    /// The header is well-formed but its scheme is other than `Basic`; carries
    /// the scheme token as it stood in the header.
    InvalidScheme(String),
    /// The value expected to be base64 text is not encoded correctly; carries
    /// the decoder's diagnostic text.
    InvalidBase64Value(String),
    /// The decoded bytes are not valid UTF-8; carries the validator's
    /// diagnostic text.
    InvalidUtf8Value(String),
}

impl AuthBasicError {
    /// Agreement of two errors: the same kind, carrying the same text.
    pub open spec fn agrees_with(&self, other: &AuthBasicError) -> bool {
        match (self, other) {
            (
                AuthBasicError::InvalidAuthorizationHeader,
                AuthBasicError::InvalidAuthorizationHeader,
            ) => true,
            (AuthBasicError::InvalidScheme(a), AuthBasicError::InvalidScheme(b)) => a@ == b@,
            (AuthBasicError::InvalidBase64Value(a), AuthBasicError::InvalidBase64Value(b)) => a@
                == b@,
            (AuthBasicError::InvalidUtf8Value(a), AuthBasicError::InvalidUtf8Value(b)) => a@ == b@,
            _ => false,
        }
    }

    /// The diagnostic text of the error, kind by kind, with the carried
    /// context folded in.
    pub open spec fn spec_message(&self) -> Seq<char> {
        match self {
            AuthBasicError::InvalidAuthorizationHeader => {
                "Invalid value provided for the HTTP Authorization header"@
            },
            AuthBasicError::InvalidScheme(scheme) => {
                "The scheme provided ("@ + scheme@ + ") is not Basic"@
            },
            AuthBasicError::InvalidBase64Value(message) => {
                "The value have an invalid base64 encoding\n"@ + message@
            },
            AuthBasicError::InvalidUtf8Value(message) => "Invalid UTF-8 Provided\n"@ + message@,
        }
    }

    /// A line of diagnostic text describing the error.
    pub fn message(&self) -> (r: String)
        ensures
            r@ == self.spec_message(),
    {
        match self {
            AuthBasicError::InvalidAuthorizationHeader => {
                "Invalid value provided for the HTTP Authorization header".to_owned()
            },
            AuthBasicError::InvalidScheme(scheme) => {
                let mut m = "The scheme provided (".to_owned();
                m.append(scheme.as_str());
                m.append(") is not Basic");
                m
            },
            AuthBasicError::InvalidBase64Value(message) => {
                let mut m = "The value have an invalid base64 encoding\n".to_owned();
                m.append(message.as_str());
                m
            },
            AuthBasicError::InvalidUtf8Value(message) => {
                let mut m = "Invalid UTF-8 Provided\n".to_owned();
                m.append(message.as_str());
                m
            },
        }
    }
}

} // verus!
