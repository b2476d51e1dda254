use vstd::prelude::*;
use crate::errors::Error;
use crate::strings::str_eq;

verus! {

/// The content-rating filter a provider accepts.
#[derive(Clone, Copy, PartialEq, Eq, Structural, Debug)]
pub enum Rating {
    G,
    Pg,
    Pg13,
    R,
}

/// The value a rating contributes to a request's query string.
pub open spec fn rating_seq(rating: Rating) -> Seq<char> {
    match rating {
        Rating::G => "g"@,
        Rating::Pg => "pg"@,
        Rating::Pg13 => "pg-13"@,
        Rating::R => "r"@,
    }
}

/// Render a rating for a request's query string.
pub fn rating_value(rating: Rating) -> (r: String)
    ensures
        r@ == rating_seq(rating),
{
    match rating {
        Rating::G => "g".to_owned(),
        Rating::Pg => "pg".to_owned(),
        Rating::Pg13 => "pg-13".to_owned(),
        Rating::R => "r".to_owned(),
    }
}

/// What `parse_rating` accepts: exactly the four rating spellings.
pub open spec fn spec_parse_rating(s: Seq<char>) -> Option<Rating> {
    if s == "g"@ {
        Some(Rating::G)
    } else if s == "pg"@ {
        Some(Rating::Pg)
    } else if s == "pg-13"@ {
        Some(Rating::Pg13)
    } else if s == "r"@ {
        Some(Rating::R)
    } else {
        None
    }
}

/// Parse a rating as it appears on the command line or in a defaults file.
pub fn parse_rating(s: &str) -> (r: Option<Rating>)
    ensures
        r == spec_parse_rating(s@),
{
    if str_eq(s, "g") {
        Some(Rating::G)
    } else if str_eq(s, "pg") {
        Some(Rating::Pg)
    } else if str_eq(s, "pg-13") {
        Some(Rating::Pg13)
    } else if str_eq(s, "r") {
        Some(Rating::R)
    } else {
        None
    }
}

/// What `resolve_api_key` yields: the first credential present, in
/// precedence order — explicit flag, then defaults file, then environment —
/// and `Config` when every source is empty. There is deliberately no
/// built-in fallback credential.
pub open spec fn spec_resolve_api_key(
    flag: Option<String>,
    file: Option<String>,
    env_var: Option<String>,
) -> Result<String, Error> {
    match flag {
        Some(k) => Ok(k),
        None => match file {
            Some(k) => Ok(k),
            None => match env_var {
                Some(k) => Ok(k),
                None => Err(Error::Config),
            },
        },
    }
}

/// Resolve the credential from the configuration sources, highest
/// precedence first.
pub fn resolve_api_key(
    flag: Option<String>,
    file: Option<String>,
    env_var: Option<String>,
) -> (r: Result<String, Error>)
    ensures
        r == spec_resolve_api_key(flag, file, env_var),
{
    match flag {
        Some(k) => Ok(k),
        None => match file {
            Some(k) => Ok(k),
            None => match env_var {
                Some(k) => Ok(k),
                None => Err(Error::Config),
            },
        },
    }
}

} // verus!
