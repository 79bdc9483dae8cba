//! Recognition of video-platform sources: which parsed URLs belong to the
//! supported video site. Parsing itself comes from the URL crate behind a
//! trusted wrapper; the recognition is verified.

use vstd::prelude::*;
use vstd::string::StringExecFns;
use crate::text::str_eq;

verus! {

/// The pieces of a parsed URL this library reads: its scheme, its host
/// (empty when the URL has none), and its normalized text.
#[derive(Debug, Clone)]
pub struct UrlParts {
    pub scheme: String,
    pub host: String,
    pub normalized: String,
}

/// Relies on url::Url::parse: a syntactically valid URL parses into its
/// scheme, host and normalized form; anything else is no URL.
#[verifier::external_body]
pub fn try_parse_url(input: &str) -> (r: Option<UrlParts>)
{
    match url::Url::parse(input) {
        Ok(u) => {
            let scheme = u.scheme().to_string();
            let host = u.host_str().unwrap_or("").to_string();
            let normalized = u.to_string();
            Some(UrlParts { scheme, host, normalized })
        },
        Err(_) => None,
    }
}

/// Parse a source as a URL, retrying with an https prefix for bare host
/// names, as address bars do.
pub fn parse_url(input: &str) -> (r: Option<UrlParts>) {
    match try_parse_url(input) {
        Some(parts) => Some(parts),
        None => {
            let mut prefixed = String::from_str("https://");
            prefixed.append(input);
            try_parse_url(prefixed.as_str())
        },
    }
}

/// The video-site host names the ingestor recognizes.
pub open spec fn spec_video_hosts() -> Seq<Seq<char>> {
    seq!["youtu.be"@, "youtube.com"@, "www.youtube.com"@, "m.youtube.com"@]
}

/// Does a URL belong to the video site: the dedicated schemes, or a known
/// host?
pub open spec fn spec_supports(url: UrlParts) -> bool {
    url.scheme@ == "yt"@ || url.scheme@ == "youtube"@ || spec_video_hosts().contains(url.host@)
}

/// The ingestor for video-platform sources.
#[derive(Debug)]
pub struct YouTubeIngestor {
    hosts: Vec<String>,
}

impl YouTubeIngestor {
    /// A recognizer over the stock host list.
    pub fn new() -> (r: YouTubeIngestor)
        ensures
            r.spec_hosts().map_values(|h: String| h@) =~= spec_video_hosts(),
    {
        let mut hosts: Vec<String> = Vec::new();
        hosts.push(String::from_str("youtu.be"));
        hosts.push(String::from_str("youtube.com"));
        hosts.push(String::from_str("www.youtube.com"));
        hosts.push(String::from_str("m.youtube.com"));
        proof {
            assert(hosts@.map_values(|h: String| h@) =~= spec_video_hosts());
        }
        YouTubeIngestor { hosts }
    }

    pub closed spec fn spec_hosts(&self) -> Seq<String> {
        self.hosts@
    }

    /// Does the URL belong to the video site?
    pub fn supports(&self, url: &UrlParts) -> (r: bool)
        requires
            self.spec_hosts().map_values(|h: String| h@) =~= spec_video_hosts(),
        ensures
            r == spec_supports(*url),
    {
        if str_eq(url.scheme.as_str(), "yt") || str_eq(url.scheme.as_str(), "youtube") {
            return true;
        }
        let n = self.hosts.len();
        let mut i: usize = 0;
        while i < n
            invariant
                0 <= i <= n,
                n == self.hosts@.len(),
                self.spec_hosts().map_values(|h: String| h@) == spec_video_hosts(),
                forall|j: int| 0 <= j < i ==> #[trigger] self.hosts@[j]@ != url.host@,
            decreases n - i,
        {
            if str_eq(self.hosts[i].as_str(), url.host.as_str()) {
                proof {
                    let hv = self.spec_hosts().map_values(|h: String| h@);
                    assert(hv[i as int] == url.host@);
                    assert(spec_video_hosts()[i as int] == url.host@);
                    assert(spec_video_hosts().contains(url.host@));
                }
                return true;
            }
            i += 1;
        }
        proof {
            let hv = self.spec_hosts().map_values(|h: String| h@);
            if spec_video_hosts().contains(url.host@) {
                let j = choose|j: int| 0 <= j < hv.len() && hv[j] == url.host@;
                assert(self.hosts@[j]@ == url.host@);
            }
        }
        false
    }
}

} // verus!
