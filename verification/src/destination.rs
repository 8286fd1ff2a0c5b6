//! The settings of an HTTP transport: the SAP destination it talks to, the
//! client/language context cookie, and the credentials it authenticates with.
use vstd::prelude::*;

use crate::protocol::AdtRequest;
use crate::text::{chars_eq, chars_of, opt_view, pairs_view};
use crate::url_support::{
    encode_query_pairs, form_encoded, join_url, url_join_ok, url_join_parts, url_parses,
    JoinedUrlView,
};

verus! {

/// The parts of a parsed destination URL that the transport checks.
pub struct DestinationUrl {
    /// The scheme, such as `https`.
    pub scheme: String,
    /// The user name embedded in the URL, empty when there is none.
    pub username: String,
    /// The password embedded in the URL.
    pub password: Option<String>,
    /// The query, without the leading `?`.
    pub query: Option<String>,
    /// The fragment, without the leading `#`.
    pub fragment: Option<String>,
    /// The serialization of the URL with its path set to `/`.
    pub root: String,
}

/// The plain-value picture of a [`DestinationUrl`].
pub struct DestinationUrlView {
    pub scheme: Seq<char>,
    pub username: Seq<char>,
    pub password: Option<Seq<char>>,
    pub query: Option<Seq<char>>,
    pub fragment: Option<Seq<char>>,
    pub root: Seq<char>,
}

impl View for DestinationUrl {
    type V = DestinationUrlView;

    open spec fn view(&self) -> DestinationUrlView {
        DestinationUrlView {
            scheme: self.scheme@,
            username: self.username@,
            password: opt_view(self.password),
            query: opt_view(self.query),
            fragment: opt_view(self.fragment),
            root: self.root@,
        }
    }
}

/// The parts that `url::Url::parse` finds in a destination, with the root
/// that `Url::set_path("/")` then serializes.
pub uninterp spec fn url_destination(input: Seq<char>) -> DestinationUrlView;

/// `url::Url::parse` of a destination, read through `scheme`, `username`,
/// `password`, `query` and `fragment`, then `set_path("/")` and its
/// serialization: an error exactly where [`url_parses`] fails, the parts
/// named by [`url_destination`].
#[verifier::external_body]
fn parse_destination(input: &str) -> (r: Result<DestinationUrl, url::ParseError>)
    ensures
        r is Ok <==> url_parses(input@),
        r is Ok ==> r->Ok_0@ == url_destination(input@),
{
    let mut url = url::Url::parse(input)?;
    let scheme = url.scheme().to_owned();
    let username = url.username().to_owned();
    let password = url.password().map(str::to_owned);
    let query = url.query().map(str::to_owned);
    let fragment = url.fragment().map(str::to_owned);
    url.set_path("/");
    Ok(DestinationUrl { scheme, username, password, query, fragment, root: url.into() })
}

/// Why the settings of an HTTP transport are refused.
#[derive(Debug)]
pub enum ReqwestTransportBuildError {
    /// A required setting was not provided; it carries the setting's name.
    MissingField(&'static str),
    /// The destination is not a URL.
    InvalidDestination(url::ParseError),
    /// The destination uses neither HTTP nor HTTPS.
    UnsupportedScheme,
    /// The destination carries credentials, a query, or a fragment.
    InvalidDestinationComponents,
}

/// The value of the `sap-usercontext` cookie that selects the SAP client and
/// the logon language: both form-encoded.
pub open spec fn user_context(sap_client: Seq<char>, language: Seq<char>) -> Seq<char> {
    "sap-usercontext="@ + form_encoded(seq![("sap-client"@, sap_client), ("sap-language"@, language)])
}

/// What the checks of a destination make of it: its root, or the error.
pub open spec fn destination_outcome(destination: Seq<char>) -> Result<Seq<char>, DestinationProblem> {
    if !url_parses(destination) {
        Err(DestinationProblem::InvalidUrl)
    } else {
        let p = url_destination(destination);
        if !(p.scheme == "http"@ || p.scheme == "https"@) {
            Err(DestinationProblem::UnsupportedScheme)
        } else if p.username.len() > 0 || p.password is Some || p.query is Some
            || p.fragment is Some {
            Err(DestinationProblem::InvalidComponents)
        } else {
            Ok(p.root)
        }
    }
}

/// The destination errors, without the parser's own report.
pub enum DestinationProblem {
    InvalidUrl,
    UnsupportedScheme,
    InvalidComponents,
}

/// The validated settings of an HTTP transport.
pub struct TransportSettings {
    /// The destination's root URL, with the path `/`.
    pub destination: String,
    /// The `Cookie` value that selects the SAP client and language.
    pub user_context: String,
    /// The user name for basic authentication.
    pub username: String,
    /// The password for basic authentication.
    pub password: String,
}

/// The settings collected for an HTTP transport.
pub struct ReqwestTransportBuilder {
    destination: Option<String>,
    sap_client: Option<String>,
    language: Option<String>,
    username: Option<String>,
    password: Option<String>,
}

/// The plain-value picture of a [`ReqwestTransportBuilder`].
pub struct BuilderView {
    pub destination: Option<Seq<char>>,
    pub sap_client: Option<Seq<char>>,
    pub language: Option<Seq<char>>,
    pub username: Option<Seq<char>>,
    pub password: Option<Seq<char>>,
}

impl View for ReqwestTransportBuilder {
    type V = BuilderView;

    closed spec fn view(&self) -> BuilderView {
        BuilderView {
            destination: opt_view(self.destination),
            sap_client: opt_view(self.sap_client),
            language: opt_view(self.language),
            username: opt_view(self.username),
            password: opt_view(self.password),
        }
    }
}

impl Default for ReqwestTransportBuilder {
    /// A builder with no setting provided.
    fn default() -> (r: Self)
        ensures
            r@.destination is None,
            r@.sap_client is None,
            r@.language is None,
            r@.username is None,
            r@.password is None,
    {
        ReqwestTransportBuilder {
            destination: None,
            sap_client: None,
            language: None,
            username: None,
            password: None,
        }
    }
}

impl ReqwestTransportBuilder {
    /// A builder with no setting provided.
    pub fn new() -> (r: Self)
        ensures
            r@.destination is None,
            r@.sap_client is None,
            r@.language is None,
            r@.username is None,
            r@.password is None,
    {
        ReqwestTransportBuilder::default()
    }

    /// Sets the SAP destination, such as `https://host:44300`.
    pub fn destination(self, destination: String) -> (r: Self)
        ensures
            r@.destination == Some(destination@),
            r@.sap_client == self@.sap_client,
            r@.language == self@.language,
            r@.username == self@.username,
            r@.password == self@.password,
    {
        ReqwestTransportBuilder { destination: Some(destination), ..self }
    }

    /// Sets the SAP client, such as `001`.
    pub fn sap_client(self, sap_client: String) -> (r: Self)
        ensures
            r@.destination == self@.destination,
            r@.sap_client == Some(sap_client@),
            r@.language == self@.language,
            r@.username == self@.username,
            r@.password == self@.password,
    {
        ReqwestTransportBuilder { sap_client: Some(sap_client), ..self }
    }

    /// Sets the logon language, such as `EN`.
    pub fn language(self, language: String) -> (r: Self)
        ensures
            r@.destination == self@.destination,
            r@.sap_client == self@.sap_client,
            r@.language == Some(language@),
            r@.username == self@.username,
            r@.password == self@.password,
    {
        ReqwestTransportBuilder { language: Some(language), ..self }
    }

    /// Sets the basic-authentication credentials.
    pub fn basic_auth(self, username: String, password: String) -> (r: Self)
        ensures
            r@.destination == self@.destination,
            r@.sap_client == self@.sap_client,
            r@.language == self@.language,
            r@.username == Some(username@),
            r@.password == Some(password@),
    {
        ReqwestTransportBuilder { username: Some(username), password: Some(password), ..self }
    }

    /// Checks the destination: it must be given, parse as a URL, use HTTP or
    /// HTTPS, and carry no credentials, query or fragment. Returns its root,
    /// the URL with the path `/`.
    pub fn destination_root(&self) -> (r: Result<String, ReqwestTransportBuildError>)
        ensures
            match self@.destination {
                None => r matches Err(ReqwestTransportBuildError::MissingField(f)) && f@
                    == "destination"@,
                Some(d) => match destination_outcome(d) {
                    Ok(root) => r matches Ok(s) && s@ == root,
                    Err(DestinationProblem::InvalidUrl) => r matches Err(
                        ReqwestTransportBuildError::InvalidDestination(_),
                    ),
                    Err(DestinationProblem::UnsupportedScheme) => r matches Err(
                        ReqwestTransportBuildError::UnsupportedScheme,
                    ),
                    Err(DestinationProblem::InvalidComponents) => r matches Err(
                        ReqwestTransportBuildError::InvalidDestinationComponents,
                    ),
                },
            },
    {
        proof {
            reveal_strlit("destination");
        }
        let destination = match &self.destination {
            None => return Err(ReqwestTransportBuildError::MissingField("destination")),
            Some(d) => d,
        };
        let parts = match parse_destination(destination.as_str()) {
            Ok(parts) => parts,
            Err(e) => return Err(ReqwestTransportBuildError::InvalidDestination(e)),
        };
        let scheme = chars_of(parts.scheme.as_str());
        let http = chars_of("http");
        let https = chars_of("https");
        if !chars_eq(scheme.as_slice(), http.as_slice()) && !chars_eq(
            scheme.as_slice(),
            https.as_slice(),
        ) {
            return Err(ReqwestTransportBuildError::UnsupportedScheme);
        }
        if chars_of(parts.username.as_str()).len() > 0 || parts.password.is_some() || parts.query.is_some()
            || parts.fragment.is_some() {
            return Err(ReqwestTransportBuildError::InvalidDestinationComponents);
        }
        Ok(parts.root)
    }

    /// Completes the settings for a checked destination root: the SAP
    /// client, the language, the user name and the password must each be
    /// given, in that order.
    pub fn settings(self, destination: String) -> (r: Result<TransportSettings, ReqwestTransportBuildError>)
        ensures
            self@.sap_client is None ==> (r matches Err(ReqwestTransportBuildError::MissingField(f))
                && f@ == "sap_client"@),
            self@.sap_client is Some && self@.language is None ==> (r matches Err(
                ReqwestTransportBuildError::MissingField(f),
            ) && f@ == "language"@),
            self@.sap_client is Some && self@.language is Some && self@.username is None ==> (r matches Err(
                ReqwestTransportBuildError::MissingField(f),
            ) && f@ == "username"@),
            self@.sap_client is Some && self@.language is Some && self@.username is Some
                && self@.password is None ==> (r matches Err(
                ReqwestTransportBuildError::MissingField(f),
            ) && f@ == "password"@),
            r matches Ok(s) ==> {
                &&& self@.sap_client matches Some(c)
                &&& self@.language matches Some(l)
                &&& self@.username == Some(s.username@)
                &&& self@.password == Some(s.password@)
                &&& s.destination@ == destination@
                &&& s.user_context@ == user_context(c, l)
            },
            self@.sap_client is Some && self@.language is Some && self@.username is Some
                && self@.password is Some ==> r is Ok,
    {
        proof {
            reveal_strlit("sap_client");
            reveal_strlit("language");
            reveal_strlit("username");
            reveal_strlit("password");
        }
        let sap_client = match self.sap_client {
            None => return Err(ReqwestTransportBuildError::MissingField("sap_client")),
            Some(c) => c,
        };
        let language = match self.language {
            None => return Err(ReqwestTransportBuildError::MissingField("language")),
            Some(l) => l,
        };
        let pairs = vec![
            ("sap-client".to_owned(), sap_client),
            ("sap-language".to_owned(), language),
        ];
        assert(pairs_view(pairs@) =~= seq![
            ("sap-client"@, self@.sap_client->Some_0),
            ("sap-language"@, self@.language->Some_0),
        ]);
        let encoded = encode_query_pairs(pairs.as_slice());
        let mut user_context = String::new();
        user_context.append("sap-usercontext=");
        user_context.append(encoded.as_str());
        let username = match self.username {
            None => return Err(ReqwestTransportBuildError::MissingField("username")),
            Some(u) => u,
        };
        let password = match self.password {
            None => return Err(ReqwestTransportBuildError::MissingField("password")),
            Some(p) => p,
        };
        Ok(TransportSettings { destination, user_context, username, password })
    }
}

/// The text of the URL a request is sent to: the destination joined with
/// the request's target, and the request's query pairs form-encoded after
/// any query the join left (joined by `&`), before any fragment.
pub open spec fn request_url_text(j: JoinedUrlView, pairs: Seq<(Seq<char>, Seq<char>)>) -> Seq<char> {
    let query = if pairs.len() == 0 {
        match j.query {
            Some(q) => "?"@ + q,
            None => Seq::empty(),
        }
    } else {
        let kept = match j.query {
            Some(q) => if q.len() > 0 {
                q + "&"@
            } else {
                Seq::empty()
            },
            None => Seq::empty(),
        };
        "?"@ + kept + form_encoded(pairs)
    };
    let fragment = match j.fragment {
        Some(f) => "#"@ + f,
        None => Seq::empty(),
    };
    j.origin + j.path + query + fragment
}

/// The URL a request is sent to from a destination root (an HTTP or HTTPS
/// URL without credentials, as [`ReqwestTransportBuilder::destination_root`]
/// gives it): the target joined onto the destination, then the request's
/// query pairs appended; without query pairs no `?` is added.
pub fn request_url(destination: &str, request: &AdtRequest) -> (r: Result<String, url::ParseError>)
    ensures
        r is Ok <==> url_join_ok(destination@, request.target@),
        r matches Ok(u) ==> u@ == request_url_text(
            url_join_parts(destination@, request.target@),
            pairs_view(request.query@),
        ),
{
    let joined = match join_url(destination, request.target.as_str()) {
        Ok(j) => j,
        Err(e) => return Err(e),
    };
    let ghost jv = joined@;
    let mut url = String::new();
    url.append(joined.origin.as_str());
    url.append(joined.path.as_str());
    if request.query.len() == 0 {
        match &joined.query {
            Some(q) => {
                url.append("?");
                url.append(q.as_str());
            },
            None => {},
        }
    } else {
        url.append("?");
        match &joined.query {
            Some(q) => {
                if chars_of(q.as_str()).len() > 0 {
                    url.append(q.as_str());
                    url.append("&");
                }
            },
            None => {},
        }
        let encoded = encode_query_pairs(request.query.as_slice());
        url.append(encoded.as_str());
    }
    match &joined.fragment {
        Some(f) => {
            url.append("#");
            url.append(f.as_str());
        },
        None => {},
    }
    assert(url@ =~= request_url_text(jv, pairs_view(request.query@)));
    Ok(url)
}

} // verus!
