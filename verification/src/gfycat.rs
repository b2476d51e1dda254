use vstd::prelude::*;
use crate::MediaRecord;
use crate::errors::Error;
use crate::errors::ErrorEnvelope;
use crate::errors::provider_error;
use crate::errors::spec_provider_error;

verus! {

/// A single image: the identifier and the gif URL of one response item.
#[derive(Debug)]
pub struct GfycatImage {
    pub id: String,
    pub url: String,
}

/// The success envelope of a search or trending response: its list of
/// images.
#[derive(Debug)]
pub struct GifsResponse {
    pub gfycats: Vec<GfycatImage>,
}

/// Interpret one search or trending response, already decoded from JSON by
/// the caller: `body` is the decoded success envelope, if the body matched
/// the success schema, and `envelope` the decoded error body, if it
/// matched one of the known error shapes. An undecodable body is a
/// `Decode` failure; a decoded error body surfaces the provider's own
/// status, code and message.
pub fn interpret_gifs_response(
    status: u16,
    body: Option<GifsResponse>,
    envelope: Option<ErrorEnvelope>,
) -> (r: Result<Vec<GfycatImage>, Error>)
    ensures
        status == 200 && body is Some
            ==> (r matches Ok(gifs) && gifs == body.unwrap().gfycats),
        status == 200 && body is None
            ==> (r matches Err(e) && e is Decode),
        status != 200 && envelope is Some
            ==> r == Err::<Vec<GfycatImage>, Error>(
                spec_provider_error(status, envelope.unwrap()),
            ),
        status != 200 && envelope is None
            ==> (r matches Err(e) && e is Decode),
{
    if status == 200 {
        match body {
            Option::Some(b) => Ok(b.gfycats),
            Option::None => Err(Error::Decode {
                message: "success body did not match the expected schema".to_owned(),
            }),
        }
    } else {
        match envelope {
            Option::Some(env) => Err(provider_error(status, env)),
            Option::None => Err(Error::Decode {
                message: "error body did not match any known error shape".to_owned(),
            }),
        }
    }
}

/// Interpret the answer to a client-credentials token exchange:
/// `access_token` is the token field of the decoded success body, if the
/// body matched the schema and carried one, and `envelope` the decoded
/// error body, if it matched one of the known error shapes.
pub fn interpret_token_response(
    status: u16,
    access_token: Option<String>,
    envelope: Option<ErrorEnvelope>,
) -> (r: Result<String, Error>)
    ensures
        status == 200 && access_token is Some
            ==> r == Ok::<String, Error>(access_token.unwrap()),
        status == 200 && access_token is None
            ==> (r matches Err(e) && e is Decode),
        status != 200 && envelope is Some
            ==> r == Err::<String, Error>(spec_provider_error(status, envelope.unwrap())),
        status != 200 && envelope is None
            ==> (r matches Err(e) && e is Decode),
{
    if status == 200 {
        match access_token {
            Option::Some(token) => Ok(token),
            Option::None => Err(Error::Decode {
                message: "token body did not match the expected schema".to_owned(),
            }),
        }
    } else {
        match envelope {
            Option::Some(env) => Err(provider_error(status, env)),
            Option::None => Err(Error::Decode {
                message: "error body did not match any known error shape".to_owned(),
            }),
        }
    }
}

/// Hand the images to the provider-independent core.
pub fn records_of(gifs: Vec<GfycatImage>) -> (r: Vec<MediaRecord>)
    ensures
        r@.len() == gifs@.len(),
        forall|i: int| 0 <= i < gifs@.len()
            ==> (#[trigger] r@[i]).id == gifs@[i].id && r@[i].url == gifs@[i].url,
{
    let ghost orig = gifs@;
    let mut rest = gifs;
    let mut out: Vec<MediaRecord> = Vec::new();
    proof {
        assert(rest@ =~= orig.skip(0));
    }
    while rest.len() > 0
        invariant
            out@.len() <= orig.len(),
            rest@ == orig.skip(out@.len() as int),
            forall|m: int| 0 <= m < out@.len()
                ==> (#[trigger] out@[m]).id == orig[m].id && out@[m].url == orig[m].url,
        decreases rest@.len(),
    {
        let ghost k = out@.len() as int;
        proof {
            assert(orig.skip(k).len() == orig.len() - k);
            assert(orig.skip(k)[0] == orig[k]);
        }
        let gif = rest.remove(0);
        proof {
            assert(gif == orig[k]);
            assert(rest@ =~= orig.skip(k).skip(1));
            assert(orig.skip(k).skip(1) =~= orig.skip(k + 1));
        }
        let GfycatImage { id, url } = gif;
        out.push(MediaRecord { id, url });
    }
    out
}

/// The query parameters of a search request, in order: the free-text query
/// and the result-count limit.
pub open spec fn spec_search_params(query: Seq<char>) -> Seq<(Seq<char>, Seq<char>)> {
    seq![("search_text"@, query), ("count"@, "420"@)]
}

/// The query parameters of a trending request: the result-count limit.
pub open spec fn spec_trending_params() -> Seq<(Seq<char>, Seq<char>)> {
    seq![("count"@, "420"@)]
}

/// Build the search request's query parameters.
pub fn search_params(query: &str) -> (r: Vec<(String, String)>)
    ensures
        r@.map_values(|p: (String, String)| (p.0@, p.1@)) == spec_search_params(query@),
{
    let mut params: Vec<(String, String)> = Vec::new();
    params.push(("search_text".to_owned(), query.to_owned()));
    params.push(("count".to_owned(), "420".to_owned()));
    proof {
        assert(params@.map_values(|p: (String, String)| (p.0@, p.1@))
            =~= spec_search_params(query@));
    }
    params
}

/// Build the trending request's query parameters.
pub fn trending_params() -> (r: Vec<(String, String)>)
    ensures
        r@.map_values(|p: (String, String)| (p.0@, p.1@)) == spec_trending_params(),
{
    let mut params: Vec<(String, String)> = Vec::new();
    params.push(("count".to_owned(), "420".to_owned()));
    proof {
        assert(params@.map_values(|p: (String, String)| (p.0@, p.1@))
            =~= spec_trending_params());
    }
    params
}

} // verus!
