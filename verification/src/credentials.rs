//! The credentials codec: a `user-id`/`password` pair and its conversions to
//! and from base64 credential text and the `Basic` authorization header value.

use vstd::prelude::*;
use vstd::string::StrSliceExecFns;
use vstd::string::StringExecFns;
use vstd::utf8::{decode_utf8, encode_utf8, encode_utf8_decode_utf8, encode_utf8_valid_utf8,
    valid_utf8};

use crate::codec::{b64_decoding, b64_encoding, b64_error_text, base64_decode, base64_encode,
    is_base64_char, utf8_error_text, utf8_to_string};
use crate::error::AuthBasicError;
use crate::text::{after_first, ascii_eq_ignore_case, before_first, contains_char,
    eq_ignore_ascii_case, find_first, is_basic_scheme, lemma_first_at, lemma_first_at_unique,
    lemma_scheme_case_insensitive, lemma_split_of_join, occurs, scheme_is_basic};

verus! {

/// A `user_id` and `password` pair from a Basic authorization header value.
/// Both fields are arbitrary text; a password may itself contain colons.
#[derive(Debug, PartialEq)]
pub struct Credentials {
    pub user_id: String,
    pub password: String,
}

/// The credential text of a pair: user id and password joined by a colon.
pub open spec fn joined(user: Seq<char>, pass: Seq<char>) -> Seq<char> {
    user + seq![':'] + pass
}

/// The text `Basic ` that begins every Basic authorization header value.
pub open spec fn basic_prefix() -> Seq<char> {
    seq!['B', 'a', 's', 'i', 'c', ' ']
}

/// Whether `decode` accepts a base64 text: the base64 decoder accepts it, the
/// decoded bytes are valid UTF-8, and the decoded text holds a colon.
pub open spec fn decode_accepts(value: Seq<char>) -> bool {
    &&& b64_decoding(value) is Some
    &&& valid_utf8(b64_decoding(value)->0)
    &&& occurs(decode_utf8(b64_decoding(value)->0), ':')
}

/// The credential text that an accepted base64 value decodes to.
pub open spec fn decoded_text(value: Seq<char>) -> Seq<char> {
    decode_utf8(b64_decoding(value)->0)
}

/// The user id of an accepted base64 value: what stands before the first colon.
pub open spec fn decoded_user(value: Seq<char>) -> Seq<char> {
    before_first(decoded_text(value), ':')
}

/// The password of an accepted base64 value: everything after the first colon,
/// further colons included.
pub open spec fn decoded_pass(value: Seq<char>) -> Seq<char> {
    after_first(decoded_text(value), ':')
}

/// Exactly what `decode` returns for a base64 text `value`: `Ok` with the split
/// credential text when `value` is accepted, and otherwise the one error of the
/// taxonomy that names the first stage to reject it.
pub open spec fn decode_result_is(
    value: Seq<char>,
    r: Result<Credentials, AuthBasicError>,
) -> bool {
    &&& (r is Ok <==> decode_accepts(value))
    &&& (r matches Ok(c) ==> c.user_id@ == decoded_user(value) && c.password@ == decoded_pass(
        value,
    ))
    &&& (r matches Err(e) ==> (if b64_decoding(value) is None {
        e matches AuthBasicError::InvalidBase64Value(m) && m@ == b64_error_text(value)
    } else if !valid_utf8(b64_decoding(value)->0) {
        e matches AuthBasicError::InvalidUtf8Value(m) && m@ == utf8_error_text(
            b64_decoding(value)->0,
        )
    } else {
        e is InvalidAuthorizationHeader
    }))
}

/// The scheme token of a header value: what stands before the first space.
pub open spec fn header_scheme(header: Seq<char>) -> Seq<char> {
    before_first(header, ' ')
}

/// The payload of a header value: what stands after the first space.
pub open spec fn header_payload(header: Seq<char>) -> Seq<char> {
    after_first(header, ' ')
}

/// Exactly what `from_header` returns for a header value, its checks in order:
/// no space at all is `InvalidAuthorizationHeader`; a scheme other than `Basic`
/// (in any ASCII case) is `InvalidScheme` carrying the token as it stood; a
/// further space inside the payload is `InvalidAuthorizationHeader`; and
/// otherwise the payload is decoded as a base64 credential text.
pub open spec fn from_header_result_is(
    header: Seq<char>,
    r: Result<Credentials, AuthBasicError>,
) -> bool {
    if !occurs(header, ' ') {
        r matches Err(e) && e is InvalidAuthorizationHeader
    } else if !is_basic_scheme(header_scheme(header)) {
        r matches Err(AuthBasicError::InvalidScheme(t)) && t@ == header_scheme(header)
    } else if occurs(header_payload(header), ' ') {
        r matches Err(e) && e is InvalidAuthorizationHeader
    } else {
        decode_result_is(header_payload(header), r)
    }
}

/// The contract of `decode` pins one result per input: any two results that
/// meet it for the same text agree — same acceptance, same credential fields,
/// and the same error, carried text included.
pub proof fn lemma_decode_deterministic(
    value: Seq<char>,
    r1: Result<Credentials, AuthBasicError>,
    r2: Result<Credentials, AuthBasicError>,
)
    requires
        decode_result_is(value, r1),
        decode_result_is(value, r2),
    ensures
        r1 is Ok <==> r2 is Ok,
        r1 is Ok && r2 is Ok ==> r1->Ok_0.user_id@ == r2->Ok_0.user_id@ && r1->Ok_0.password@
            == r2->Ok_0.password@,
        r1 is Err && r2 is Err ==> r1->Err_0.agrees_with(&r2->Err_0),
{
}

/// Scheme comparison in `from_header` is case-insensitive: two header values
/// with the same payload, whose scheme tokens are ASCII case variants of each
/// other, are accepted or rejected alike, with the same credentials when they
/// are accepted; and when the scheme is Basic, even the errors agree in kind
/// and carried text.
pub proof fn lemma_from_header_case_insensitive(
    h1: Seq<char>,
    h2: Seq<char>,
    r1: Result<Credentials, AuthBasicError>,
    r2: Result<Credentials, AuthBasicError>,
)
    requires
        occurs(h1, ' '),
        occurs(h2, ' '),
        eq_ignore_ascii_case(header_scheme(h1), header_scheme(h2)),
        header_payload(h1) == header_payload(h2),
        from_header_result_is(h1, r1),
        from_header_result_is(h2, r2),
    ensures
        r1 is Ok <==> r2 is Ok,
        r1 is Ok && r2 is Ok ==> r1->Ok_0.user_id@ == r2->Ok_0.user_id@ && r1->Ok_0.password@
            == r2->Ok_0.password@,
        is_basic_scheme(header_scheme(h1)) && r1 is Err && r2 is Err ==> r1->Err_0.agrees_with(
            &r2->Err_0,
        ),
{
    lemma_scheme_case_insensitive(header_scheme(h1), header_scheme(h2));
}

impl Credentials {
    /// A pair made directly from the two fields; no validation, always succeeds.
    pub fn new(user_id: &str, password: &str) -> (c: Self)
        ensures
            c.user_id@ == user_id@,
            c.password@ == password@,
    {
        Credentials { user_id: user_id.to_owned(), password: password.to_owned() }
    }

    /// Decodes a base64 text that must encode a credential pair as
    /// `user-id:password`, split at the first colon.
    ///
    /// The second clause is the round-trip law: on the encoding of any pair
    /// whose user id holds no colon, `decode` returns exactly that pair.
    pub fn decode(auth_header_value: String) -> (r: Result<Self, AuthBasicError>)
        ensures
            decode_result_is(auth_header_value@, r),
            forall|u: Seq<char>, p: Seq<char>|
                !occurs(u, ':') && auth_header_value@ == #[trigger] b64_encoding(
                    encode_utf8(joined(u, p)),
                ) ==> r is Ok && r->Ok_0.user_id@ == u && r->Ok_0.password@ == p,
    {
        let ghost value = auth_header_value@;
        let bytes = match base64_decode(auth_header_value.as_str()) {
            Ok(b) => b,
            Err(msg) => {
                return Err(AuthBasicError::InvalidBase64Value(msg));
            },
        };
        let text = match utf8_to_string(bytes) {
            Ok(t) => t,
            Err(msg) => {
                proof {
                    assert forall|u: Seq<char>, p: Seq<char>|
                        !occurs(u, ':') && value == #[trigger] b64_encoding(
                            encode_utf8(joined(u, p)),
                        ) implies false by {
                        encode_utf8_valid_utf8(joined(u, p));
                    }
                }
                return Err(AuthBasicError::InvalidUtf8Value(msg));
            },
        };
        let n = text.as_str().unicode_len();
        let colon_idx = match find_first(text.as_str(), ':') {
            Some(i) => i,
            None => {
                proof {
                    assert forall|u: Seq<char>, p: Seq<char>|
                        !occurs(u, ':') && value == #[trigger] b64_encoding(
                            encode_utf8(joined(u, p)),
                        ) implies false by {
                        encode_utf8_decode_utf8(joined(u, p));
                        assert(text@ == joined(u, p));
                        assert(text@[u.len() as int] == ':');
                    }
                }
                return Err(AuthBasicError::InvalidAuthorizationHeader);
            },
        };
        proof {
            lemma_first_at(text@, ':');
        }
        let user = text.as_str().substring_char(0, colon_idx);
        let pass = text.as_str().substring_char(colon_idx + 1, n);
        let c = Credentials::new(user, pass);
        proof {
            assert(c.user_id@ =~= decoded_user(value));
            assert(c.password@ =~= decoded_pass(value));
            assert forall|u: Seq<char>, p: Seq<char>|
                !occurs(u, ':') && value == #[trigger] b64_encoding(encode_utf8(joined(u, p)))
                implies c.user_id@ == u && c.password@ == p by {
                encode_utf8_decode_utf8(joined(u, p));
                assert(text@ == joined(u, p));
                lemma_split_of_join(u, p, ':');
            }
        }
        Ok(c)
    }

    /// The base64 encoding of the pair's credential text `user-id:password`.
    /// Nothing is escaped or rejected: a colon inside the user id is kept as it
    /// is, though `decode` would then split the text at that first colon.
    pub fn encode(&self) -> (r: String)
        ensures
            r@ == b64_encoding(encode_utf8(joined(self.user_id@, self.password@))),
            forall|i: int| 0 <= i < r@.len() ==> is_base64_char(#[trigger] r@[i]),
    {
        let mut joined_text = self.user_id.clone();
        joined_text.append(":");
        joined_text.append(self.password.as_str());
        proof {
            reveal_strlit(":");
            assert(joined_text@ =~= joined(self.user_id@, self.password@));
        }
        base64_encode(joined_text.as_str().as_bytes())
    }

    /// Parses a full `Authorization` header value of the `Basic` scheme: the
    /// part before the first space is the scheme token, compared to `basic`
    /// without regard to ASCII case, and the part after it is the base64
    /// credential payload, rejected if it holds a further space.
    ///
    /// The second clause is the header-level round-trip law: on `Basic `
    /// followed by the space-free encoding of any pair whose user id holds no
    /// colon — `as_http_header` returns exactly such a value — `from_header`
    /// returns that pair.
    pub fn from_header(auth_header: String) -> (r: Result<Self, AuthBasicError>)
        ensures
            from_header_result_is(auth_header@, r),
            forall|u: Seq<char>, p: Seq<char>|
                !occurs(u, ':') && !occurs(#[trigger] b64_encoding(encode_utf8(joined(u, p))), ' ')
                    && auth_header@ == basic_prefix() + b64_encoding(encode_utf8(joined(u, p)))
                    ==> r is Ok && r->Ok_0.user_id@ == u && r->Ok_0.password@ == p,
    {
        let ghost h = auth_header@;
        let s = auth_header.as_str();
        let n = s.unicode_len();
        let space_idx = match find_first(s, ' ') {
            Some(i) => i,
            None => {
                proof {
                    assert forall|u: Seq<char>, p: Seq<char>|
                        !occurs(u, ':') && !occurs(
                            #[trigger] b64_encoding(encode_utf8(joined(u, p))),
                            ' ',
                        ) && h == basic_prefix() + b64_encoding(encode_utf8(joined(u, p)))
                        implies false by {
                        assert(h[5] == ' ');
                    }
                }
                return Err(AuthBasicError::InvalidAuthorizationHeader);
            },
        };
        proof {
            lemma_first_at(s@, ' ');
        }
        let scheme = s.substring_char(0, space_idx);
        let payload = s.substring_char(space_idx + 1, n);
        proof {
            assert(scheme@ =~= header_scheme(h));
            assert(payload@ =~= header_payload(h));
            assert forall|u: Seq<char>, p: Seq<char>|
                !occurs(u, ':') && !occurs(#[trigger] b64_encoding(encode_utf8(joined(u, p))), ' ')
                    && h == basic_prefix() + b64_encoding(encode_utf8(joined(u, p)))
                implies scheme@ == basic_prefix().take(5) && payload@ == b64_encoding(
                encode_utf8(joined(u, p)),
            ) by {
                let enc = b64_encoding(encode_utf8(joined(u, p)));
                assert(h[5] == ' ');
                assert forall|j: int| 0 <= j < 5 implies h[j] != ' ' by {
                    assert(h[j] == basic_prefix()[j]);
                }
                lemma_first_at_unique(h, ' ', 5);
                assert(scheme@ =~= basic_prefix().take(5));
                assert forall|j: int| 0 <= j < enc.len() implies payload@[j] == enc[j] by {
                    assert(payload@[j] == h[j + 6]);
                }
                assert(payload@ =~= enc);
            }
        }
        if !scheme_is_basic(scheme) {
            proof {
                assert forall|u: Seq<char>, p: Seq<char>|
                    !occurs(u, ':') && !occurs(
                        #[trigger] b64_encoding(encode_utf8(joined(u, p))),
                        ' ',
                    ) && h == basic_prefix() + b64_encoding(encode_utf8(joined(u, p)))
                    implies false by {
                    let b = basic_prefix().take(5);
                    assert(scheme@ == b);
                    assert(ascii_eq_ignore_case(b[0], 'b'));
                    assert(ascii_eq_ignore_case(b[1], 'a'));
                    assert(ascii_eq_ignore_case(b[2], 's'));
                    assert(ascii_eq_ignore_case(b[3], 'i'));
                    assert(ascii_eq_ignore_case(b[4], 'c'));
                    assert(is_basic_scheme(b));
                }
            }
            return Err(AuthBasicError::InvalidScheme(scheme.to_owned()));
        }
        if contains_char(payload, ' ') {
            proof {
                assert forall|u: Seq<char>, p: Seq<char>|
                    !occurs(u, ':') && !occurs(
                        #[trigger] b64_encoding(encode_utf8(joined(u, p))),
                        ' ',
                    ) && h == basic_prefix() + b64_encoding(encode_utf8(joined(u, p)))
                    implies false by {
                    assert(payload@ == b64_encoding(encode_utf8(joined(u, p))));
                }
            }
            return Err(AuthBasicError::InvalidAuthorizationHeader);
        }
        Self::decode(payload.to_owned())
    }

    /// The full `Authorization` header value for the pair: `Basic ` followed
    /// by the base64 encoding of its credential text, whose characters all
    /// come from the base64 alphabet — in particular, the payload holds no
    /// space, so `from_header` accepts the value back.
    pub fn as_http_header(&self) -> (r: String)
        ensures
            r@ == basic_prefix() + b64_encoding(
                encode_utf8(joined(self.user_id@, self.password@)),
            ),
            forall|i: int| 6 <= i < r@.len() ==> is_base64_char(#[trigger] r@[i]),
    {
        let encoded = self.encode();
        let mut header = "Basic ".to_owned();
        header.append(encoded.as_str());
        proof {
            reveal_strlit("Basic ");
            assert(header@ =~= basic_prefix() + b64_encoding(
                encode_utf8(joined(self.user_id@, self.password@)),
            ));
            assert forall|i: int| 6 <= i < header@.len() implies is_base64_char(
                #[trigger] header@[i],
            ) by {
                assert(header@[i] == encoded@[i - 6]);
            }
        }
        header
    }

    /// One entry point for both accepted forms: text with a space is read as a
    /// full header value, text without one as a bare base64 payload.
    pub fn parse_any(s: &str) -> (r: Result<Self, AuthBasicError>)
        ensures
            occurs(s@, ' ') ==> from_header_result_is(s@, r),
            !occurs(s@, ' ') ==> decode_result_is(s@, r),
    {
        if contains_char(s, ' ') {
            Self::from_header(s.to_owned())
        } else {
            Self::decode(s.to_owned())
        }
    }
}

impl core::str::FromStr for Credentials {
    type Err = AuthBasicError;

    /// Reads either a bare base64 credential text or a full header value,
    /// as `parse_any` does.
    fn from_str(s: &str) -> Result<Self, Self::Err> {
        Credentials::parse_any(s)
    }
}

} // verus!
