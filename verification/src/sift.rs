//! The address of the Sift Edge endpoint.

use vstd::prelude::*;

use crate::json::chars_of;

verus! {

/// Whether `s` begins with `prefix` (what `str::starts_with` gives for a
/// string pattern).
fn starts_with(s: &str, prefix: &str) -> (r: bool)
    ensures
        r == prefix@.is_prefix_of(s@),
{
    let cs = chars_of(s);
    let ps = chars_of(prefix);
    if ps.len() > cs.len() {
        return false;
    }
    let mut i: usize = 0;
    while i < ps.len()
        invariant
            ps@.len() <= cs@.len(),
            cs@ == s@,
            ps@ == prefix@,
            i <= ps@.len(),
            forall|j: int| 0 <= j < i ==> ps@[j] == cs@[j],
        decreases ps@.len() - i,
    {
        if ps[i] != cs[i] {
            assert(ps@[i as int] != cs@.subrange(0, ps@.len() as int)[i as int]);
            return false;
        }
        i += 1;
    }
    assert(ps@ =~= cs@.subrange(0, ps@.len() as int));
    true
}

/// The rest of `s` after `prefix` when `s` begins with `prefix`, `None`
/// otherwise (what `str::strip_prefix` gives for a string pattern).
fn strip_prefix<'a>(s: &'a str, prefix: &str) -> (r: Option<&'a str>)
    ensures
        r is Some <==> prefix@.is_prefix_of(s@),
        r matches Some(rest) ==> rest@ == s@.skip(prefix@.len() as int),
{
    if starts_with(s, prefix) {
        let from = prefix.unicode_len();
        let to = s.unicode_len();
        Some(s.substring_char(from, to))
    } else {
        None
    }
}

/// An endpoint address whose scheme is none of `grpc://`, `grpc+tls://`,
/// `http://` and `https://`.
#[derive(Debug, PartialEq)]
pub struct UnsupportedScheme {
    pub uri: String,
}

impl UnsupportedScheme {
    /// The message that reports this error.
    pub fn message(&self) -> (r: String)
        ensures
            r@ == "unsupported sift edge uri scheme (use grpc://, grpc+tls://, http://, or https://): "@
                + self.uri@,
    {
        let mut text =
            "unsupported sift edge uri scheme (use grpc://, grpc+tls://, http://, or https://): ".to_owned();
        text.append(self.uri.as_str());
        text
    }
}

/// The address that a gRPC client connects to for the endpoint `uri`:
/// `grpc://` becomes `http://`, `grpc+tls://` becomes `https://`, an
/// `http://` or `https://` address stays as it is, any other is refused.
pub open spec fn normalized_uri(uri: Seq<char>) -> Option<Seq<char>> {
    if "grpc://"@.is_prefix_of(uri) {
        Some("http://"@ + uri.skip("grpc://"@.len() as int))
    } else if "grpc+tls://"@.is_prefix_of(uri) {
        Some("https://"@ + uri.skip("grpc+tls://"@.len() as int))
    } else if "http://"@.is_prefix_of(uri) || "https://"@.is_prefix_of(uri) {
        Some(uri)
    } else {
        None
    }
}

/// The client address for the endpoint `uri` (see `normalized_uri`); an
/// address of another scheme is an `UnsupportedScheme` error that carries it.
pub fn normalize_uri(uri: &str) -> (r: Result<String, UnsupportedScheme>)
    ensures
        match r {
            Ok(s) => normalized_uri(uri@) == Some(s@),
            Err(e) => normalized_uri(uri@) is None && e.uri@ == uri@,
        },
{
    if let Some(rest) = strip_prefix(uri, "grpc://") {
        let mut out = "http://".to_owned();
        out.append(rest);
        Ok(out)
    } else if let Some(rest) = strip_prefix(uri, "grpc+tls://") {
        let mut out = "https://".to_owned();
        out.append(rest);
        Ok(out)
    } else if starts_with(uri, "http://") || starts_with(uri, "https://") {
        Ok(uri.to_owned())
    } else {
        Err(UnsupportedScheme { uri: uri.to_owned() })
    }
}

/// Law: an address `grpc://REST` becomes `http://REST`, for every `REST`.
pub proof fn law_grpc_is_http(rest: Seq<char>)
    ensures
        normalized_uri("grpc://"@ + rest) == Some("http://"@ + rest),
{
    let uri = "grpc://"@ + rest;
    assert(uri.subrange(0, "grpc://"@.len() as int) =~= "grpc://"@);
    assert(uri.skip("grpc://"@.len() as int) =~= rest);
}

/// Law: an address `grpc+tls://REST` becomes `https://REST`, for every `REST`.
pub proof fn law_grpc_tls_is_https(rest: Seq<char>)
    ensures
        normalized_uri("grpc+tls://"@ + rest) == Some("https://"@ + rest),
{
    reveal_strlit("grpc://");
    reveal_strlit("grpc+tls://");
    let uri = "grpc+tls://"@ + rest;
    assert(uri[4] == '+');
    assert(!"grpc://"@.is_prefix_of(uri)) by {
        assert("grpc://"@[4] != uri[4]);
    }
    assert(uri.subrange(0, "grpc+tls://"@.len() as int) =~= "grpc+tls://"@);
    assert(uri.skip("grpc+tls://"@.len() as int) =~= rest);
}

/// Law: an address `http://REST` or `https://REST` stays as it is, for every `REST`.
pub proof fn law_http_stays(rest: Seq<char>)
    ensures
        normalized_uri("http://"@ + rest) == Some("http://"@ + rest),
        normalized_uri("https://"@ + rest) == Some("https://"@ + rest),
{
    reveal_strlit("grpc://");
    reveal_strlit("grpc+tls://");
    reveal_strlit("http://");
    reveal_strlit("https://");
    let u1 = "http://"@ + rest;
    let u2 = "https://"@ + rest;
    assert(u1[0] == 'h' && u2[0] == 'h');
    assert(!"grpc://"@.is_prefix_of(u1) && !"grpc+tls://"@.is_prefix_of(u1)) by {
        assert("grpc://"@[0] != u1[0]);
        assert("grpc+tls://"@[0] != u1[0]);
    }
    assert(!"grpc://"@.is_prefix_of(u2) && !"grpc+tls://"@.is_prefix_of(u2)) by {
        assert("grpc://"@[0] != u2[0]);
        assert("grpc+tls://"@[0] != u2[0]);
    }
    assert(u1.subrange(0, "http://"@.len() as int) =~= "http://"@);
    assert(u2.subrange(0, "https://"@.len() as int) =~= "https://"@);
}

/// Law: an address that begins with none of the four schemes is refused.
pub proof fn law_other_schemes_refused(uri: Seq<char>)
    requires
        forall|rest: Seq<char>|
            uri != "grpc://"@ + rest && uri != "grpc+tls://"@ + rest && uri != "http://"@ + rest
                && uri != "https://"@ + rest,
    ensures
        normalized_uri(uri) is None,
{
    if "grpc://"@.is_prefix_of(uri) {
        assert(uri =~= "grpc://"@ + uri.skip("grpc://"@.len() as int));
    } else if "grpc+tls://"@.is_prefix_of(uri) {
        assert(uri =~= "grpc+tls://"@ + uri.skip("grpc+tls://"@.len() as int));
    } else if "http://"@.is_prefix_of(uri) {
        assert(uri =~= "http://"@ + uri.skip("http://"@.len() as int));
    } else if "https://"@.is_prefix_of(uri) {
        assert(uri =~= "https://"@ + uri.skip("https://"@.len() as int));
    }
}

/// Law: a client address is its own client address, so normalizing twice
/// is normalizing once.
pub proof fn law_normalize_idempotent(uri: Seq<char>)
    requires
        normalized_uri(uri) is Some,
    ensures
        normalized_uri(normalized_uri(uri)->0) == normalized_uri(uri),
{
    reveal_strlit("grpc://");
    reveal_strlit("grpc+tls://");
    reveal_strlit("http://");
    reveal_strlit("https://");
    let n = normalized_uri(uri)->0;
    if "grpc://"@.is_prefix_of(uri) {
        assert("http://"@.is_prefix_of(n));
        assert(!"grpc://"@.is_prefix_of(n)) by {
            assert(n[0] == 'h');
        }
        assert(!"grpc+tls://"@.is_prefix_of(n)) by {
            assert(n[0] == 'h');
        }
    } else if "grpc+tls://"@.is_prefix_of(uri) {
        assert("https://"@.is_prefix_of(n));
        assert(!"grpc://"@.is_prefix_of(n)) by {
            assert(n[0] == 'h');
        }
        assert(!"grpc+tls://"@.is_prefix_of(n)) by {
            assert(n[0] == 'h');
        }
    }
}

} // verus!
