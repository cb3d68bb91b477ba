//! Choice of upstream service by model name.
use vstd::prelude::*;

verus! {

/// Whether `pre` is a prefix of `s`.
pub open spec fn has_prefix(s: Seq<char>, pre: Seq<char>) -> bool {
    pre.len() <= s.len() && s.subrange(0, pre.len() as int) == pre
}

/// A character that a regular expression reads as itself: an ASCII letter or
/// digit, `-` or `_`.
pub open spec fn is_plain_char(c: char) -> bool {
    ('a' <= c && c <= 'z') || ('A' <= c && c <= 'Z') || ('0' <= c && c <= '9') || c == '-'
        || c == '_'
}

/// A pattern of the shape `^lit.*` where `lit` holds plain characters only.
pub open spec fn is_anchored_prefix(p: Seq<char>) -> bool {
    &&& p.len() >= 3
    &&& p[0] == '^'
    &&& p[p.len() - 2] == '.'
    &&& p[p.len() - 1] == '*'
    &&& forall|i: int| 1 <= i < p.len() - 2 ==> is_plain_char(#[trigger] p[i])
}

/// The literal of an anchored prefix pattern `^lit.*`.
pub open spec fn anchored_literal(p: Seq<char>) -> Seq<char> {
    p.subrange(1, p.len() - 2)
}

/// The prefix that marks a model served by the remote service.
pub open spec fn remote_model_prefix() -> Seq<char> {
    seq!['g', 'p', 't', '-']
}

/// A model name that the remote service answers: it begins with `gpt-`
/// (case-sensitive).
pub open spec fn is_remote_model(model: Seq<char>) -> bool {
    has_prefix(model, remote_model_prefix())
}

/// The base URL that a request for `model` goes to.
pub open spec fn endpoint_for(model: Seq<char>, local: Seq<char>, remote: Seq<char>) -> Seq<char> {
    if is_remote_model(model) {
        remote
    } else {
        local
    }
}

/// Relies on regex::Regex::new and regex::Regex::is_match: a short pattern
/// `^lit.*` whose literal holds only plain characters compiles (far below
/// the default size limit of the compiled program), and it matches exactly
/// the texts that begin with `lit` (`^` anchors at the start of the text,
/// `.*` may match nothing). `None` when the pattern does not compile.
#[verifier::external_body]
fn regex_is_match(pattern: &str, text: &str) -> (r: Option<bool>)
    ensures
        is_anchored_prefix(pattern@) && pattern@.len() <= 64 ==> r == Some(
            has_prefix(text@, anchored_literal(pattern@)),
        ),
{
    match regex::Regex::new(pattern) {
        Ok(re) => Some(re.is_match(text)),
        Err(_) => None,
    }
}

/// Picks the upstream base URL for `model`: `openai_endpoint` when the model
/// name begins with `gpt-`, `ollama_endpoint` otherwise.
pub fn choose_endpoint(model: &str, ollama_endpoint: &str, openai_endpoint: &str) -> (r: String)
    ensures
        r@ == endpoint_for(model@, ollama_endpoint@, openai_endpoint@),
{
    let pattern = "^gpt-.*";
    proof {
        reveal_strlit("^gpt-.*");
        assert(anchored_literal(pattern@) =~= remote_model_prefix());
    }
    match regex_is_match(pattern, model) {
        Some(true) => openai_endpoint.to_owned(),
        _ => ollama_endpoint.to_owned(),
    }
}

} // verus!
