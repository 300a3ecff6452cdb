use vstd::prelude::*;

use crate::status::SettingsRecord;
use crate::text::find_byte;
use crate::text::lemma_find_byte_props;
use crate::text::spec_find_byte;

verus! {

/// The byte that separates an authority from the path in a URI.
pub const SLASH: u8 = 47;

pub const COLON: u8 = 58;

/// The answer the setup-status endpoint serves: a human-readable state
/// and, once settings exist, the configured domain.
pub struct SetupStatusResp {
    pub status: String,
    pub domain: Option<String>,
}

/// Serves the pre-configuration status check: how far the installation
/// has come, and for which domain.
pub fn is_setup(rec: &Option<SettingsRecord>) -> (r: SetupStatusResp)
    ensures
        match rec {
            None => r.status@ == "Not Setup"@ && r.domain is None,
            Some(s) => {
                &&& (!s.https_started_once ==> r.status@ == "In Progress"@)
                &&& (s.https_started_once ==> r.status@ == "Setup"@)
                &&& (match r.domain {
                    Some(d) => d@ == s.application_domain@,
                    None => false,
                })
            },
        },
{
    match rec {
        None => SetupStatusResp { status: String::from_str("Not Setup"), domain: None },
        Some(s) => {
            if s.https_started_once {
                SetupStatusResp {
                    status: String::from_str("Setup"),
                    domain: Some(s.application_domain.clone()),
                }
            } else {
                SetupStatusResp {
                    status: String::from_str("In Progress"),
                    domain: Some(s.application_domain.clone()),
                }
            }
        },
    }
}

/// The position of the first scheme separator `://` in the text, or its
/// length when there is none.
pub open spec fn spec_find_scheme_sep(s: Seq<u8>, i: int) -> int
    decreases s.len() - i,
{
    if i < 0 || i + 3 > s.len() {
        s.len() as int
    } else if s[i] == COLON && s[i + 1] == SLASH && s[i + 2] == SLASH {
        i
    } else {
        spec_find_scheme_sep(s, i + 1)
    }
}

/// The path a URI's text carries: everything from the first slash after
/// the scheme separator and the authority; the whole text when no scheme
/// separator occurs; the bare slash when nothing is left.
pub open spec fn spec_uri_path(uri: Seq<u8>) -> Seq<u8> {
    let sep = spec_find_scheme_sep(uri, 0);
    let path = if sep == uri.len() {
        uri
    } else {
        uri.subrange(spec_find_byte(uri, SLASH, sep + 3), uri.len() as int)
    };
    if path.len() == 0 {
        seq![SLASH]
    } else {
        path
    }
}

/// The secure form of a request's URI: the HTTPS scheme, the configured
/// host as the authority, and the original path. Defined exactly when the
/// derived path begins with a slash; any other path cannot stand behind
/// an authority.
pub open spec fn spec_make_https(host: Seq<u8>, uri: Seq<u8>) -> Option<Seq<u8>> {
    let path = spec_uri_path(uri);
    if path[0] == SLASH {
        Some("https://"@.map_values(|c: char| c as u8) + host + path)
    } else {
        None
    }
}

/// Why a URI could not be rewritten.
#[derive(Clone, Copy, PartialEq, Eq, Structural, Debug)]
pub enum MakeHttpsError {
    /// The URI's path part does not begin with a slash, so it cannot
    /// follow an authority.
    PathWithoutSlash,
}

fn find_scheme_sep(s: &[u8]) -> (r: usize)
    ensures
        r == spec_find_scheme_sep(s@, 0),
{
    if s.len() < 3 {
        return s.len();
    }
    let mut i: usize = 0;
    while i <= s.len() - 3
        invariant
            s@.len() >= 3,
            i <= s@.len() - 2,
            spec_find_scheme_sep(s@, 0) == spec_find_scheme_sep(s@, i as int),
        decreases s@.len() - i,
    {
        if s[i] == COLON && s[i + 1] == SLASH && s[i + 2] == SLASH {
            return i;
        }
        i += 1;
    }
    proof {
        assert(spec_find_scheme_sep(s@, i as int) == s@.len());
    }
    s.len()
}

/// Rewrites a request's URI to its HTTPS form on the configured host,
/// keeping the path and query and supplying the bare slash when the
/// request carried no path. Fails exactly when the path does not begin
/// with a slash.
pub fn make_https(host: &[u8], uri: &[u8]) -> (r: Result<Vec<u8>, MakeHttpsError>)
    ensures
        match r {
            Ok(out) => spec_make_https(host@, uri@) == Some(out@),
            Err(MakeHttpsError::PathWithoutSlash) => spec_make_https(host@, uri@) is None,
        },
{
    let sep = find_scheme_sep(uri);
    let path_start: usize = if sep == uri.len() {
        0
    } else {
        proof {
            lemma_scheme_sep_props(uri@, 0);
            lemma_find_byte_props(uri@, SLASH, sep + 3);
        }
        find_byte(uri, SLASH, sep + 3)
    };
    proof {
        lemma_scheme_sep_props(uri@, 0);
        if sep != uri@.len() {
            lemma_find_byte_props(uri@, SLASH, sep + 3);
        }
    }
    let mut out: Vec<u8> = Vec::new();
    let prefix = "https://";
    let prefix_bytes = prefix.as_bytes();
    proof {
        reveal_strlit("https://");
        vstd::string::is_ascii_spec_bytes(prefix);
        assert(prefix_bytes@ =~= "https://"@.map_values(|c: char| c as u8));
    }
    let mut i: usize = 0;
    while i < prefix_bytes.len()
        invariant
            i <= prefix_bytes@.len(),
            out@ =~= prefix_bytes@.subrange(0, i as int),
        decreases prefix_bytes@.len() - i,
    {
        out.push(prefix_bytes[i]);
        proof {
            assert(out@ =~= prefix_bytes@.subrange(0, i + 1 as int));
        }
        i += 1;
    }
    proof {
        assert(out@ =~= prefix_bytes@);
    }
    let mut j: usize = 0;
    while j < host.len()
        invariant
            j <= host@.len(),
            out@ =~= prefix_bytes@ + host@.subrange(0, j as int),
            prefix_bytes@ == "https://"@.map_values(|c: char| c as u8),
        decreases host@.len() - j,
    {
        out.push(host[j]);
        proof {
            assert(out@ =~= prefix_bytes@ + host@.subrange(0, j + 1 as int));
        }
        j += 1;
    }
    proof {
        assert(out@ =~= prefix_bytes@ + host@);
    }
    if path_start == uri.len() {
        // no path at all: serve the root
        proof {
            assert(spec_uri_path(uri@) =~= seq![SLASH]);
        }
        out.push(SLASH);
        proof {
            assert(out@ =~= prefix_bytes@ + host@ + spec_uri_path(uri@));
        }
        return Ok(out);
    }
    if uri[path_start] != SLASH {
        // only possible without a scheme separator, where the whole text
        // is the path
        proof {
            assert(spec_uri_path(uri@) =~= uri@.subrange(path_start as int, uri@.len() as int));
        }
        return Err(MakeHttpsError::PathWithoutSlash);
    }
    let mut k: usize = path_start;
    while k < uri.len()
        invariant
            path_start <= k <= uri@.len(),
            out@ =~= prefix_bytes@ + host@ + uri@.subrange(path_start as int, k as int),
            prefix_bytes@ == "https://"@.map_values(|c: char| c as u8),
        decreases uri@.len() - k,
    {
        out.push(uri[k]);
        proof {
            assert(out@ =~= prefix_bytes@ + host@ + uri@.subrange(path_start as int, k + 1 as int));
        }
        k += 1;
    }
    proof {
        assert(spec_uri_path(uri@) =~= uri@.subrange(path_start as int, uri@.len() as int));
        assert(out@ =~= prefix_bytes@ + host@ + spec_uri_path(uri@));
    }
    Ok(out)
}

proof fn lemma_scheme_sep_props(s: Seq<u8>, i: int)
    requires
        0 <= i <= s.len(),
    ensures
        i <= spec_find_scheme_sep(s, i) <= s.len(),
        spec_find_scheme_sep(s, i) < s.len() ==> spec_find_scheme_sep(s, i) + 3 <= s.len(),
    decreases s.len() - i,
{
    if !(i + 3 > s.len()) && !(s[i] == COLON && s[i + 1] == SLASH && s[i + 2] == SLASH) {
        lemma_scheme_sep_props(s, i + 1);
    }
}

} // verus!
