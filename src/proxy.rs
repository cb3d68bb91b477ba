//! What the local HTTP surface decides about a request before forwarding it.
use vstd::prelude::*;
use crate::routing::{choose_endpoint, endpoint_for};

verus! {

/// Configuration shared read-only by every request: the two upstream base
/// URLs and the optional API key.
pub struct AppState {
    pub openai_endpoint: String,
    pub ollama_endpoint: String,
    pub openai_api_key: Option<String>,
}

/// The view of an optional string.
pub open spec fn opt_view(o: Option<String>) -> Option<Seq<char>> {
    match o {
        Some(s) => Some(s@),
        None => None,
    }
}

/// The view of an optional string slice.
pub open spec fn opt_str_view(o: Option<&str>) -> Option<Seq<char>> {
    match o {
        Some(s) => Some(s@),
        None => None,
    }
}

/// Why a request was refused or could not be served.
#[derive(PartialEq, Eq, Structural, Clone, Copy, Debug)]
pub enum ProxyError {
    /// The body holds no string `model` field, or is not JSON.
    BadRequest,
    /// An API key is configured and the request does not present it.
    Unauthorized,
    /// The upstream service could not be reached.
    UpstreamUnreachable,
    /// The upstream response body could not be read.
    UpstreamBodyUnreadable,
}

impl ProxyError {
    /// The HTTP status code that answers this error.
    pub fn status_code(&self) -> (r: u16)
        ensures
            r == match *self {
                ProxyError::BadRequest => 400u16,
                ProxyError::Unauthorized => 401u16,
                ProxyError::UpstreamUnreachable => 502u16,
                ProxyError::UpstreamBodyUnreadable => 500u16,
            },
    {
        match self {
            ProxyError::BadRequest => 400,
            ProxyError::Unauthorized => 401,
            ProxyError::UpstreamUnreachable => 502,
            ProxyError::UpstreamBodyUnreadable => 500,
        }
    }

    /// Whether the fault lies with the client's request, never retried.
    pub fn is_client_error(&self) -> (r: bool)
        ensures
            r == (*self == ProxyError::BadRequest || *self == ProxyError::Unauthorized),
    {
        match self {
            ProxyError::BadRequest | ProxyError::Unauthorized => true,
            _ => false,
        }
    }
}

/// The scheme word that precedes a bearer token, with its space.
pub open spec fn bearer_prefix() -> Seq<char> {
    seq!['B', 'e', 'a', 'r', 'e', 'r', ' ']
}

/// Whether an `Authorization` header satisfies the configured key: with no
/// key every request passes; with one, the header must be exactly
/// `Bearer <key>`.
pub open spec fn is_authorized(key: Option<Seq<char>>, header: Option<Seq<char>>) -> bool {
    match key {
        None => true,
        Some(k) => match header {
            Some(h) => h == bearer_prefix() + k,
            None => false,
        },
    }
}

/// What a POST request resolves to: the upstream base URL to forward to, or
/// the refusal. The model is checked first, then the key.
pub open spec fn post_outcome(
    state: AppState,
    model: Option<Seq<char>>,
    header: Option<Seq<char>>,
) -> Result<Seq<char>, ProxyError> {
    match model {
        None => Err(ProxyError::BadRequest),
        Some(m) => if !is_authorized(opt_view(state.openai_api_key), header) {
            Err(ProxyError::Unauthorized)
        } else {
            Ok(endpoint_for(m, state.ollama_endpoint@, state.openai_endpoint@))
        },
    }
}

/// Whether `header` is exactly `Bearer ` followed by `key`.
pub fn is_bearer_for(header: &str, key: &str) -> (r: bool)
    ensures
        r == (header@ == bearer_prefix() + key@),
{
    let prefix = "Bearer ";
    proof {
        reveal_strlit("Bearer ");
        assert(prefix@ =~= bearer_prefix());
    }
    let expected_ghost = Ghost(bearer_prefix() + key@);
    let hl = header.unicode_len();
    let kl = key.unicode_len();
    if hl < 7 || hl - 7 != kl {
        return false;
    }
    let mut i: usize = 0;
    while i < hl
        invariant
            hl == header@.len(),
            kl == key@.len(),
            hl == kl + 7,
            prefix@ == bearer_prefix(),
            expected_ghost@ == bearer_prefix() + key@,
            i <= hl,
            forall|j: int| 0 <= j < i ==> header@[j] == expected_ghost@[j],
        decreases hl - i,
    {
        let want = if i < 7 {
            prefix.get_char(i)
        } else {
            key.get_char(i - 7)
        };
        if header.get_char(i) != want {
            return false;
        }
        i = i + 1;
    }
    assert(header@ =~= expected_ghost@);
    true
}

impl AppState {
    /// The configuration of a proxy.
    pub fn new(openai_endpoint: &str, ollama_endpoint: &str, openai_api_key: Option<&str>) -> (r:
        AppState)
        ensures
            r.openai_endpoint@ == openai_endpoint@,
            r.ollama_endpoint@ == ollama_endpoint@,
            opt_view(r.openai_api_key) == opt_str_view(openai_api_key),
    {
        let key = match openai_api_key {
            Some(k) => Some(k.to_owned()),
            None => None,
        };
        AppState {
            openai_endpoint: openai_endpoint.to_owned(),
            ollama_endpoint: ollama_endpoint.to_owned(),
            openai_api_key: key,
        }
    }

    /// Whether a request with this `Authorization` header passes the key
    /// check.
    pub fn authorize(&self, authorization: Option<&str>) -> (r: bool)
        ensures
            r == is_authorized(opt_view(self.openai_api_key), opt_str_view(authorization)),
    {
        match &self.openai_api_key {
            None => true,
            Some(k) => match authorization {
                Some(h) => is_bearer_for(h, k.as_str()),
                None => false,
            },
        }
    }

    /// Resolves a POST request, given the string `model` field of its body
    /// (`None` when absent) and its `Authorization` header: the upstream
    /// base URL to forward to, chosen by model name, or the refusal. Nothing
    /// is forwarded on a refusal.
    pub fn post_target(&self, model: Option<&str>, authorization: Option<&str>) -> (r: Result<
        String,
        ProxyError,
    >)
        ensures
            match r {
                Ok(s) => post_outcome(*self, opt_str_view(model), opt_str_view(authorization))
                    == Ok::<Seq<char>, ProxyError>(s@),
                Err(e) => post_outcome(*self, opt_str_view(model), opt_str_view(authorization))
                    == Err::<Seq<char>, ProxyError>(e),
            },
    {
        match model {
            None => Err(ProxyError::BadRequest),
            Some(m) => {
                let endpoint = choose_endpoint(
                    m,
                    self.ollama_endpoint.as_str(),
                    self.openai_endpoint.as_str(),
                );
                if !self.authorize(authorization) {
                    Err(ProxyError::Unauthorized)
                } else {
                    Ok(endpoint)
                }
            },
        }
    }

    /// The base URL a GET request is forwarded to: always the local service.
    pub fn get_target(&self) -> (r: String)
        ensures
            r@ == self.ollama_endpoint@,
    {
        self.ollama_endpoint.clone()
    }
}

/// Whether `suffix` is a suffix of `s`.
pub open spec fn has_suffix(s: Seq<char>, suffix: Seq<char>) -> bool {
    suffix.len() <= s.len() && s.subrange(s.len() - suffix.len(), s.len() as int) == suffix
}

/// A POST request whose body holds no `model` is refused as a bad request,
/// whatever the configuration and the header: it never reaches an upstream.
pub proof fn lemma_missing_model_rejected(state: AppState, header: Option<Seq<char>>)
    ensures
        post_outcome(state, None, header) == Err::<Seq<char>, ProxyError>(ProxyError::BadRequest),
{
}

/// With an API key configured, a POST request whose `Authorization` header
/// is missing or does not end with the key is refused as unauthorized, and
/// never reaches an upstream.
pub proof fn lemma_foreign_key_rejected(
    state: AppState,
    model: Seq<char>,
    header: Option<Seq<char>>,
)
    requires
        state.openai_api_key is Some,
        match header {
            Some(h) => !has_suffix(h, state.openai_api_key->0@),
            None => true,
        },
    ensures
        post_outcome(state, Some(model), header) == Err::<Seq<char>, ProxyError>(
            ProxyError::Unauthorized,
        ),
{
    let k = state.openai_api_key->0@;
    if let Some(h) = header {
        if h == bearer_prefix() + k {
            assert(h.subrange(h.len() - k.len(), h.len() as int) =~= k);
        }
    }
}

} // verus!