//! URLs, as the `url` crate takes them apart.

use vstd::prelude::*;
use vstd::string::*;

use crate::text;

verus! {

/// The parts of an absolute URL that the library looks at.
pub struct UrlParts {
    pub scheme: String,
    pub host: Option<String>,
    pub port: Option<u16>,
    /// The port, or the one that is usual for the scheme.
    pub port_or_default: Option<u16>,
    pub path: String,
}

/// The view of [`UrlParts`].
pub struct UrlView {
    pub scheme: Seq<char>,
    pub host: Option<Seq<char>>,
    pub port: Option<u16>,
    pub port_or_default: Option<u16>,
    pub path: Seq<char>,
}

impl View for UrlParts {
    type V = UrlView;

    open spec fn view(&self) -> UrlView {
        UrlView {
            scheme: self.scheme@,
            host: text::opt_text(self.host),
            port: self.port,
            port_or_default: self.port_or_default,
            path: self.path@,
        }
    }
}

/// What `url::Url::parse` makes of a text: the parts of the URL, or the error's
/// message.
pub uninterp spec fn url_parse(t: Seq<char>) -> Result<UrlView, Seq<char>>;

/// Takes a URL apart with `url::Url::parse` and the accessors of `url::Url`. The
/// result depends on the text alone; the grammar is left to that crate.
#[verifier::external_body]
pub(crate) fn parse_url(t: &str) -> (r: Result<UrlParts, String>)
    ensures
        match r {
            Ok(u) => url_parse(t@) == Ok::<UrlView, Seq<char>>(u@),
            Err(e) => url_parse(t@) == Err::<UrlView, Seq<char>>(e@),
        },
{
    let u = url::Url::parse(t).map_err(|e| e.to_string())?;
    Ok(UrlParts {
        scheme: u.scheme().to_owned(),
        host: u.host_str().map(str::to_owned),
        port: u.port(),
        port_or_default: u.port_or_known_default(),
        path: u.path().to_owned(),
    })
}

/// What `url::Url::join` makes of a reference that stands in a document at `base`:
/// an absolute URL, or the message of the error. A `base` that is no URL gives the
/// message that `url::Url::parse` has for it.
pub uninterp spec fn url_join(base: Seq<char>, reference: Seq<char>) -> Result<Seq<char>, Seq<char>>;

/// Resolves a reference with `url::Url::join`. The result depends on the two texts
/// alone; how references are resolved is left to that crate.
#[verifier::external_body]
pub(crate) fn join_url(base: &str, reference: &str) -> (r: Result<String, String>)
    ensures
        match r {
            Ok(u) => url_join(base@, reference@) == Ok::<Seq<char>, Seq<char>>(u@),
            Err(e) => url_join(base@, reference@) == Err::<Seq<char>, Seq<char>>(e@),
        },
{
    let base = url::Url::parse(base).map_err(|e| e.to_string())?;
    let joined = base.join(reference).map_err(|e| e.to_string())?;
    Ok(joined.into())
}

} // verus!
