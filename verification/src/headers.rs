use vstd::prelude::*;
use crate::types::{char_pos, lemma_char_pos, char_find};

verus! {

pub const HEADER_USER: &'static str = "X-Presto-User";
pub const HEADER_SOURCE: &'static str = "X-Presto-Source";
pub const HEADER_CATALOG: &'static str = "X-Presto-Catalog";
pub const HEADER_SCHEMA: &'static str = "X-Presto-Schema";
pub const HEADER_PATH: &'static str = "X-Presto-Path";
pub const HEADER_TIME_ZONE: &'static str = "X-Presto-Time-Zone";
pub const HEADER_TRACE_TOKEN: &'static str = "X-Presto-Trace-Token";
pub const HEADER_SESSION: &'static str = "X-Presto-Session";
pub const HEADER_ROLE: &'static str = "X-Presto-Role";
pub const HEADER_PREPARED_STATEMENT: &'static str = "X-Presto-Prepared-Statement";
pub const HEADER_TRANSACTION: &'static str = "X-Presto-Transaction-Id";
pub const HEADER_CLIENT_INFO: &'static str = "X-Presto-Client-Info";
pub const HEADER_CLIENT_TAGS: &'static str = "X-Presto-Client-Tags";
pub const HEADER_CLIENT_CAPABILITIES: &'static str = "X-Presto-Client-Capabilities";
pub const HEADER_RESOURCE_ESTIMATE: &'static str = "X-Presto-Resource-Estimate";
pub const HEADER_EXTRA_CREDENTIAL: &'static str = "X-Presto-Extra-Credential";
pub const HEADER_SET_CATALOG: &'static str = "X-Presto-Set-Catalog";
pub const HEADER_SET_SCHEMA: &'static str = "X-Presto-Set-Schema";
pub const HEADER_SET_PATH: &'static str = "X-Presto-Set-Path";
pub const HEADER_SET_SESSION: &'static str = "X-Presto-Set-Session";
pub const HEADER_CLEAR_SESSION: &'static str = "X-Presto-Clear-Session";
pub const HEADER_SET_ROLE: &'static str = "X-Presto-Set-Role";
pub const HEADER_ADDED_PREPARE: &'static str = "X-Presto-Added-Prepare";
pub const HEADER_DEALLOCATED_PREPARE: &'static str = "X-Presto-Deallocated-Prepare";
pub const HEADER_STARTED_TRANSACTION_ID: &'static str = "X-Presto-Started-Transaction-Id";
pub const HEADER_CLEAR_TRANSACTION_ID: &'static str = "X-Presto-Clear-Transaction-Id";

/// The percent-encoding of a text: what `urlencoding` computes from the
/// characters alone.
pub uninterp spec fn url_encoded(s: Seq<char>) -> Seq<char>;

/// The percent-decoding of a text, when it decodes: what `urlencoding`
/// computes from the characters alone.
pub uninterp spec fn url_decoded(s: Seq<char>) -> Option<Seq<char>>;

/// Relies on urlencoding::encode: percent-encodes every byte except
/// alphanumerics and `-`, `_`, `.`, `~`; the result depends on the input
/// characters alone, and an empty input stays empty.
#[verifier::external_body]
fn url_encode(v: &str) -> (r: String)
    ensures
        r@ == url_encoded(v@),
        v@.len() == 0 ==> r@.len() == 0,
{
    urlencoding::encode(v).into_owned()
}

/// Relies on urlencoding::decode: percent-decodes `%xx` escapes, failing on
/// invalid UTF-8; the result depends on the input characters alone.
#[verifier::external_body]
fn url_decode(v: &str) -> (r: Option<String>)
    ensures
        r matches Some(t) ==> url_decoded(v@) == Some(t@),
        r is None ==> url_decoded(v@) is None,
{
    match urlencoding::decode(v) {
        Ok(t) => Some(t.into_owned()),
        Err(_) => None,
    }
}

/// Renders a session property as a `key=value` header, the value
/// percent-encoded.
pub fn encode_kv(k: &str, v: &str) -> (r: String)
    ensures
        r@ == k@ + "="@ + url_encoded(v@),
{
    let mut out = String::new();
    out.append(k);
    out.append("=");
    let enc = url_encode(v);
    out.append(enc.as_str());
    proof {
        assert(out@ =~= k@ + "="@ + url_encoded(v@));
    }
    out
}

/// Splits a `key=value` header and percent-decodes the value; `None` unless
/// the text has exactly one `=` and the value decodes.
pub fn decode_kv_from_header(input: &str) -> (r: Option<(String, String)>)
    ensures
        r matches Some(kv) ==> ({
            let p = char_pos(input@, '=', 0);
            &&& p < input@.len()
            &&& (forall|j: int| p < j < input@.len() ==> input@[j] != '=')
            &&& kv.0@ == input@.subrange(0, p)
            &&& url_decoded(input@.subrange(p + 1, input@.len() as int)) == Some(kv.1@)
        }),
        r is None ==> ({
            let p = char_pos(input@, '=', 0);
            p == input@.len() || (exists|j: int| p < j < input@.len() && input@[j] == '=')
                || url_decoded(input@.subrange(p + 1, input@.len() as int)) is None
        }),
{
    let n = input.unicode_len();
    let p = char_find(input, '=', 0);
    proof {
        lemma_char_pos(input@, '=', 0);
    }
    if p == n {
        return None;
    }
    let q = char_find(input, '=', p + 1);
    proof {
        lemma_char_pos(input@, '=', p as int + 1);
    }
    if q != n {
        proof {
            assert(input@[q as int] == '=');
        }
        return None;
    }
    let key = input.substring_char(0, p);
    let value_part = input.substring_char(p + 1, n);
    match url_decode(value_part) {
        Some(value) => Some((key.to_owned(), value)),
        None => None,
    }
}

} // verus!
