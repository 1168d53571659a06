//! Target resolution: from a user-supplied address of the form
//! `scheme://host[:port]` to a validated [`Target`].

use vstd::prelude::*;
use vstd::string::*;

verus! {

/// Port used when a plaintext address names none.
pub const DEFAULT_PLAIN_PORT: u16 = 6667;

/// Port used when a transport-secured address names none.
pub const DEFAULT_SECURE_PORT: u16 = 6697;

/// The pieces of a parsed address that resolution reads.
#[derive(Clone, Debug, PartialEq, Eq)]
pub struct UriParts {
    pub scheme: String,
    pub host: Option<String>,
    pub port: Option<u16>,
}

/// Mathematical value of [`UriParts`].
pub struct UriPartsView {
    pub scheme: Seq<char>,
    pub host: Option<Seq<char>>,
    pub port: Option<u16>,
}

impl View for UriParts {
    type V = UriPartsView;

    open spec fn view(&self) -> UriPartsView {
        UriPartsView {
            scheme: self.scheme@,
            host: match self.host {
                Some(h) => Some(h@),
                None => None,
            },
            port: self.port,
        }
    }
}

/// A server to scrape: where it listens and whether the transport is secured.
#[derive(Clone, Debug, PartialEq, Eq)]
pub struct Target {
    pub host: String,
    pub port: u16,
    pub secure: bool,
}

/// Mathematical value of [`Target`].
pub struct TargetView {
    pub host: Seq<char>,
    pub port: u16,
    pub secure: bool,
}

impl View for Target {
    type V = TargetView;

    open spec fn view(&self) -> TargetView {
        TargetView { host: self.host@, port: self.port, secure: self.secure }
    }
}

impl Target {
    /// A target names a host and a port that can be connected to.
    pub open spec fn wf(&self) -> bool {
        self.host@.len() > 0 && self.port >= 1
    }
}

/// Why an address was refused.
#[derive(Clone, Copy, Debug, PartialEq, Eq, Structural)]
pub enum ValidationError {
    /// No address was given.
    MissingParameter,
    /// The address is not a well-formed URI naming a host and a usable port.
    MalformedURI,
    /// The scheme is neither the plaintext nor the secured one.
    UnsupportedScheme,
}

/// What the URI parser makes of a string: `None` where it refuses the string,
/// else the scheme, the host if there is one, and the port if one is written.
pub uninterp spec fn parsed_uri(raw: Seq<char>) -> Option<(Seq<char>, Option<Seq<char>>, Option<u16>)>;

/// The parts as the triple that [`parsed_uri`] speaks of.
pub open spec fn parts_triple(parts: Option<UriParts>) -> Option<(Seq<char>, Option<Seq<char>>, Option<u16>)> {
    match parts {
        Some(p) => Some((p@.scheme, p@.host, p@.port)),
        None => None,
    }
}

/// Default port for a transport.
pub open spec fn default_port(secure: bool) -> u16 {
    if secure {
        DEFAULT_SECURE_PORT
    } else {
        DEFAULT_PLAIN_PORT
    }
}

/// Resolution of already parsed parts.
pub open spec fn target_of(parts: Option<(Seq<char>, Option<Seq<char>>, Option<u16>)>) -> Result<TargetView, ValidationError> {
    match parts {
        None => Err(ValidationError::MalformedURI),
        Some((scheme, host, port)) => {
            if scheme != "irc"@ && scheme != "ircs"@ {
                Err(ValidationError::UnsupportedScheme)
            } else if host.is_none() || host.unwrap().len() == 0 || port == Some(0u16) {
                Err(ValidationError::MalformedURI)
            } else {
                let secure = scheme == "ircs"@;
                Ok(
                    TargetView {
                        host: host.unwrap(),
                        port: match port {
                            Some(p) => p,
                            None => default_port(secure),
                        },
                        secure,
                    },
                )
            }
        },
    }
}

/// Resolution of a raw address.
pub open spec fn resolve_spec(raw: Seq<char>) -> Result<TargetView, ValidationError> {
    if raw.len() == 0 {
        Err(ValidationError::MissingParameter)
    } else {
        target_of(parsed_uri(raw))
    }
}

/// Whether an exec result carries the value that the model gives.
pub open spec fn resolves_to(out: Result<Target, ValidationError>, model: Result<TargetView, ValidationError>) -> bool {
    match (out, model) {
        (Ok(t), Ok(v)) => t@ == v && t.wf(),
        (Err(e), Err(f)) => e == f,
        _ => false,
    }
}

/// Calls `url::Url::parse`, then reads `scheme`, `host_str` and `port` of the
/// parsed value. Trusted: the result is what the parser makes of `raw`, a
/// function of the string alone, which [`parsed_uri`] names.
#[verifier::external_body]
fn parse_uri(raw: &str) -> (parts: Option<UriParts>)
    ensures
        parts_triple(parts) == parsed_uri(raw@),
{
    match url::Url::parse(raw) {
        Ok(u) => Some(UriParts {
            scheme: u.scheme().to_string(),
            host: u.host_str().map(|h| h.to_string()),
            port: u.port(),
        }),
        Err(_) => None,
    }
}

/// Validates parsed parts: the scheme decides the transport, the port falls
/// back to the transport's default, and a missing or empty host or a zero port
/// is refused.
pub fn target_from_parts(parts: Option<UriParts>) -> (out: Result<Target, ValidationError>)
    ensures
        resolves_to(out, target_of(parts_triple(parts))),
{
    match parts {
        None => Err(ValidationError::MalformedURI),
        Some(p) => {
            let plain = String::from_str("irc");
            let tls = String::from_str("ircs");
            let is_plain = p.scheme == plain;
            let secure = p.scheme == tls;
            if !is_plain && !secure {
                return Err(ValidationError::UnsupportedScheme);
            }
            let host = match p.host {
                Some(h) => h,
                None => {
                    return Err(ValidationError::MalformedURI);
                },
            };
            if host.as_str().is_empty() {
                return Err(ValidationError::MalformedURI);
            }
            let port: u16 = match p.port {
                Some(n) => {
                    if n == 0 {
                        return Err(ValidationError::MalformedURI);
                    }
                    n
                },
                None => if secure {
                    DEFAULT_SECURE_PORT
                } else {
                    DEFAULT_PLAIN_PORT
                },
            };
            Ok(Target { host, port, secure })
        },
    }
}

/// Resolves a raw address. An empty string counts as no address at all.
pub fn resolve(raw: &str) -> (out: Result<Target, ValidationError>)
    ensures
        resolves_to(out, resolve_spec(raw@)),
{
    if raw.is_empty() {
        return Err(ValidationError::MissingParameter);
    }
    target_from_parts(parse_uri(raw))
}

/// Resolves an address that may not have been supplied.
pub fn resolve_optional(raw: Option<&str>) -> (out: Result<Target, ValidationError>)
    ensures
        resolves_to(
            out,
            match raw {
                Some(s) => resolve_spec(s@),
                None => Err(ValidationError::MissingParameter),
            },
        ),
{
    match raw {
        Some(s) => resolve(s),
        None => Err(ValidationError::MissingParameter),
    }
}

/// The status code that goes with every refusal of an address.
pub const REFUSAL_STATUS: u16 = 400;

impl ValidationError {
    /// The short reason that goes with a refusal.
    pub open spec fn reason_spec(self) -> Seq<char> {
        match self {
            ValidationError::MissingParameter => "no target"@,
            ValidationError::MalformedURI => "target must be a valid irc uri"@,
            ValidationError::UnsupportedScheme => "target scheme must be irc or ircs"@,
        }
    }

    /// The short reason to show to whoever sent the address.
    pub fn reason(&self) -> (text: String)
        ensures
            text@ == self.reason_spec(),
    {
        match self {
            ValidationError::MissingParameter => String::from_str("no target"),
            ValidationError::MalformedURI => String::from_str("target must be a valid irc uri"),
            ValidationError::UnsupportedScheme => String::from_str("target scheme must be irc or ircs"),
        }
    }

    /// The status code to answer with: the same for every refusal.
    pub fn status(&self) -> (code: u16)
        ensures
            code == REFUSAL_STATUS,
    {
        REFUSAL_STATUS
    }
}

} // verus!
