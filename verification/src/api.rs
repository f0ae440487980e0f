//! The client side of the remote service: the classified error taxonomy
//! every network call resolves into, and the request data an authenticated
//! client derives — sanitised base location, endpoint locations, and the
//! authorization header value.

use crate::types::{LoginToken, StoredLogin};
use vstd::prelude::*;

verus! {

/// The stripped form of a base URL: one trailing slash removed.
pub open spec fn spec_sanitise_base_url(s: Seq<char>) -> Seq<char> {
    if s.len() > 0 && s.last() == '/' {
        s.drop_last()
    } else {
        s
    }
}

/// Sanitise given URL:
/// - Remove URLs ending with /
pub fn sanitise_base_url(base: String) -> (r: String)
    ensures
        r@ == spec_sanitise_base_url(base@),
{
    let n: usize = base.as_str().unicode_len();
    if n > 0 && base.as_str().get_char(n - 1) == '/' {
        let sub = base.as_str().substring_char(0, n - 1);
        proof {
            assert(sub@ =~= base@.drop_last());
        }
        sub.to_owned()
    } else {
        base
    }
}

/// Whether a string parses as an absolute URL.
pub uninterp spec fn url_parse_ok(s: Seq<char>) -> bool;

/// Relies on url::Url::parse: whether a string parses as a URL depends on
/// the string alone, and parsing does not panic.
#[verifier::external_body]
fn base_url_valid(base_url: &str) -> (r: bool)
    ensures
        r == url_parse_ok(base_url@),
{
    url::Url::parse(base_url).is_ok()
}

/// Sanitise a base URL and accept it only when the sanitised form parses
/// as a URL — what the base-URL input applies when an edit is saved.
pub fn sanitise_and_validate_base_url(base: String) -> (r: Option<String>)
    ensures
        match r {
            Some(v) => v@ == spec_sanitise_base_url(base@) && url_parse_ok(v@),
            None => !url_parse_ok(spec_sanitise_base_url(base@)),
        },
{
    let sanitised = sanitise_base_url(base);
    if base_url_valid(sanitised.as_str()) {
        Some(sanitised)
    } else {
        None
    }
}

/// The kind of failure the underlying HTTP layer reported: a JavaScript
/// error, a serde decoding error, or the layer's own error.
#[derive(Debug, Clone, Copy, PartialEq, Eq, Structural)]
pub enum RawErrorKind {
    JsError,
    SerdeError,
    GlooError,
}

/// Something wrong on the client's own side of a call.
#[derive(Debug, Clone, Copy, PartialEq, Eq, Structural)]
pub enum ApiInternalError {
    Connection,
    Deserialization,
    Generic,
}

/// Something wrong with the received response.
#[derive(Debug, Clone, Copy, PartialEq, Eq, Structural)]
pub struct ApiResponseError {
    pub status_code: u16,
}

/// When something goes wrong with a web request.
#[derive(Debug, Clone, Copy, PartialEq, Eq, Structural)]
pub enum ApiError {
    /// Something wrong with client
    Internal(ApiInternalError),
    /// Something wrong with the received response
    Response(ApiResponseError),
}

impl ApiError {
    /// Classify the outcome of sending a request: a JavaScript-level
    /// failure means the connection could not be made; any other failure
    /// of the layer is generic.
    pub fn from_response_result<T>(response: Result<T, RawErrorKind>) -> (r: Result<T, Self>)
        ensures
            match response {
                Ok(v) => r == Ok::<T, ApiError>(v),
                Err(k) => r == Err::<T, ApiError>(
                    if k == RawErrorKind::JsError {
                        ApiError::Internal(ApiInternalError::Connection)
                    } else {
                        ApiError::Internal(ApiInternalError::Generic)
                    },
                ),
            },
    {
        match response {
            Ok(v) => Ok(v),
            Err(err) => match err {
                RawErrorKind::JsError => Err(ApiError::Internal(ApiInternalError::Connection)),
                _ => Err(ApiError::Internal(ApiInternalError::Generic)),
            },
        }
    }

    /// Classify a received response: a non-success status carries the
    /// literal status code; with a success status, a serde failure of the
    /// body's decoding is a deserialization error, any other failure is
    /// generic, and a decoded body passes through.
    pub fn check_json_response_ok<T>(status: u16, decoded: Result<T, RawErrorKind>) -> (r: Result<
        T,
        Self,
    >)
        ensures
            !(200 <= status < 300) ==> r == Err::<T, ApiError>(
                ApiError::Response(ApiResponseError { status_code: status }),
            ),
            200 <= status < 300 ==> match decoded {
                Ok(v) => r == Ok::<T, ApiError>(v),
                Err(k) => r == Err::<T, ApiError>(
                    if k == RawErrorKind::SerdeError {
                        ApiError::Internal(ApiInternalError::Deserialization)
                    } else {
                        ApiError::Internal(ApiInternalError::Generic)
                    },
                ),
            },
    {
        if !(200 <= status && status < 300) {
            return Err(ApiError::Response(ApiResponseError { status_code: status }));
        }
        match decoded {
            Ok(v) => Ok(v),
            Err(err) => match err {
                RawErrorKind::SerdeError => Err(
                    ApiError::Internal(ApiInternalError::Deserialization),
                ),
                _ => Err(ApiError::Internal(ApiInternalError::Generic)),
            },
        }
    }
}

/// Does an HTTP status signal success, as a response's own success test
/// reports it?
pub fn status_is_ok(status: u16) -> (r: bool)
    ensures
        r == (200 <= status < 300),
{
    200 <= status && status < 300
}

/// An authenticated client: the sanitised service location and, when
/// logged in, the credential token.
#[derive(Debug, Clone, PartialEq)]
pub struct Api {
    pub base_url: String,
    pub login_token: Option<LoginToken>,
}

impl Api {
    /// The service location requests are sent to.
    pub open spec fn spec_base_url(self) -> Seq<char> {
        self.base_url@
    }

    /// The token requests are authenticated with, when there is one.
    pub open spec fn spec_login_token(self) -> Option<LoginToken> {
        self.login_token
    }

    pub fn new(base: String, token: Option<LoginToken>) -> (r: Self)
        ensures
            r.spec_base_url() == spec_sanitise_base_url(base@),
            r.spec_login_token() == token,
    {
        Api { base_url: sanitise_base_url(base), login_token: token }
    }

    /// The `Authorization` header value, `<token-type> <token-value>`,
    /// when a token is held.
    pub fn get_authorization_value(&self) -> (r: Option<String>)
        ensures
            match r {
                Some(s) => self.spec_login_token() matches Some(t) && s@ == t.token_type@ + " "@
                    + t.token@,
                None => self.spec_login_token() is None,
            },
    {
        match &self.login_token {
            Some(token) => {
                let mut s = String::new();
                s.append(token.token_type.as_str());
                s.append(" ");
                s.append(token.token.as_str());
                proof {
                    assert(Seq::<char>::empty() + token.token_type@ + " "@ + token.token@
                        =~= token.token_type@ + " "@ + token.token@);
                }
                Some(s)
            },
            None => None,
        }
    }

    /// The service-information endpoint.
    pub fn info_url(&self) -> (r: String)
        ensures
            r@ == self.spec_base_url() + "/api/info/"@,
    {
        self.url_with_suffix("/api/info/")
    }

    /// The login endpoint.
    pub fn login_url(&self) -> (r: String)
        ensures
            r@ == self.spec_base_url() + "/login/"@,
    {
        self.url_with_suffix("/login/")
    }

    /// The account-creation endpoint.
    pub fn users_url(&self) -> (r: String)
        ensures
            r@ == self.spec_base_url() + "/users/"@,
    {
        self.url_with_suffix("/users/")
    }

    /// The label-listing endpoint.
    pub fn labels_url(&self) -> (r: String)
        ensures
            r@ == self.spec_base_url() + "/labels/"@,
    {
        self.url_with_suffix("/labels/")
    }

    /// The recipe-collection endpoint, with a query string appended.
    pub fn recipes_url_with_query(&self, query: &str) -> (r: String)
        ensures
            r@ == self.spec_base_url() + "/recipes/?"@ + query@,
    {
        let mut s = self.url_with_suffix("/recipes/?");
        s.append(query);
        s
    }

    /// The recipe-creation endpoint.
    pub fn recipes_url(&self) -> (r: String)
        ensures
            r@ == self.spec_base_url() + "/recipes/"@,
    {
        self.url_with_suffix("/recipes/")
    }

    /// The endpoint of one recipe.
    pub fn recipe_url(&self, id: &str) -> (r: String)
        ensures
            r@ == self.spec_base_url() + "/recipes/"@ + id@ + "/"@,
    {
        let mut s = self.url_with_suffix("/recipes/");
        s.append(id);
        s.append("/");
        s
    }

    /// The image endpoint of one recipe.
    pub fn recipe_image_url(&self, id: &str) -> (r: String)
        ensures
            r@ == self.spec_base_url() + "/recipes/"@ + id@ + "/image/"@,
    {
        let mut s = self.url_with_suffix("/recipes/");
        s.append(id);
        s.append("/image/");
        s
    }

    /// The account-statistics endpoint.
    pub fn stats_url(&self) -> (r: String)
        ensures
            r@ == self.spec_base_url() + "/stats/me/"@,
    {
        self.url_with_suffix("/stats/me/")
    }

    /// The base URL with a path appended.
    fn url_with_suffix(&self, suffix: &str) -> (r: String)
        ensures
            r@ == self.spec_base_url() + suffix@,
    {
        let mut s = String::new();
        s.append(self.base_url.as_str());
        s.append(suffix);
        proof {
            assert(Seq::<char>::empty() + self.base_url@ + suffix@ =~= self.base_url@ + suffix@);
        }
        s
    }
}

impl From<StoredLogin> for Api {
    fn from(login: StoredLogin) -> (r: Self) {
        Api { base_url: login.api_url, login_token: Some(login.token) }
    }
}

impl vstd::std_specs::convert::FromSpecImpl<StoredLogin> for Api {
    open spec fn obeys_from_spec() -> bool {
        true
    }

    open spec fn from_spec(login: StoredLogin) -> Self {
        Api { base_url: login.api_url, login_token: Some(login.token) }
    }
}

} // verus!
