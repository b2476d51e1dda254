use vstd::prelude::*;
use crate::MediaRecord;
use crate::config::Rating;
use crate::config::rating_seq;
use crate::config::rating_value;
use crate::errors::Error;
use crate::errors::ErrorEnvelope;
use crate::errors::provider_error;
use crate::errors::spec_provider_error;

verus! {

/// A gif image: the projection of one response item that the rest of the
/// tool works with.
#[derive(Debug)]
pub struct GifImage {
    pub id: String,
    pub url: String,
}

/// One decoded item of a search or trending response body, before
/// projection: the record's identifier, and the URL of the designated
/// image variant when that variant and its URL field were present.
#[derive(Debug)]
pub struct RawGif {
    pub id: String,
    pub url: Option<String>,
}

/// One response item as the wire schema nests it: the set of image
/// variants is optional, so is the designated variant inside it, and so is
/// that variant's URL field.
#[derive(Debug)]
pub struct GifObject {
    pub id: String,
    pub images: Option<GifObjectImage>,
}

/// The image variants of one response item.
#[derive(Debug)]
pub struct GifObjectImage {
    pub downsized_large: Option<GifObjectImageSource>,
}

/// One image variant: its URL, when the field is present.
#[derive(Debug)]
pub struct GifObjectImageSource {
    pub url: Option<String>,
}

/// The URL of the designated image variant, when the variants, the
/// designated one among them, and its URL field are all present.
pub open spec fn spec_variant_url(images: Option<GifObjectImage>) -> Option<String> {
    match images {
        Option::None => Option::None,
        Option::Some(image) => match image.downsized_large {
            Option::None => Option::None,
            Option::Some(source) => source.url,
        },
    }
}

/// Flatten each nested response item to its identifier and designated
/// variant URL.
pub fn raw_of(items: Vec<GifObject>) -> (r: Vec<RawGif>)
    ensures
        r@.len() == items@.len(),
        forall|i: int| 0 <= i < items@.len()
            ==> (#[trigger] r@[i]).id == items@[i].id
                && r@[i].url == spec_variant_url(items@[i].images),
{
    let ghost orig = items@;
    let mut rest = items;
    let mut out: Vec<RawGif> = Vec::new();
    proof {
        assert(rest@ =~= orig.skip(0));
    }
    while rest.len() > 0
        invariant
            out@.len() <= orig.len(),
            rest@ == orig.skip(out@.len() as int),
            forall|m: int| 0 <= m < out@.len()
                ==> (#[trigger] out@[m]).id == orig[m].id
                    && out@[m].url == spec_variant_url(orig[m].images),
        decreases rest@.len(),
    {
        let ghost k = out@.len() as int;
        proof {
            assert(orig.skip(k).len() == orig.len() - k);
            assert(orig.skip(k)[0] == orig[k]);
        }
        let item = rest.remove(0);
        proof {
            assert(item == orig[k]);
            assert(rest@ =~= orig.skip(k).skip(1));
            assert(orig.skip(k).skip(1) =~= orig.skip(k + 1));
        }
        let GifObject { id, images } = item;
        let url = match images {
            Option::Some(image) => match image.downsized_large {
                Option::Some(source) => source.url,
                Option::None => Option::None,
            },
            Option::None => Option::None,
        };
        out.push(RawGif { id, url });
    }
    out
}

/// Does every raw item carry the designated image variant's URL?
pub open spec fn all_have_urls(raws: Seq<RawGif>) -> bool {
    forall|i: int| 0 <= i < raws.len() ==> (#[trigger] raws[i].url) is Some
}

/// What successful extraction yields: each raw item projected to its
/// identifier and variant URL.
pub open spec fn extracted(raws: Seq<RawGif>) -> Seq<GifImage> {
    raws.map_values(|raw: RawGif| GifImage { id: raw.id, url: raw.url.unwrap() })
}

/// Project raw response items into gif records.
///
/// Succeeds exactly when every item carries the designated image variant's
/// URL; one missing variant fails the whole response with `Extraction`, so
/// a partial or empty URL is never handed on.
pub fn extract_records(raws: Vec<RawGif>) -> (r: Result<Vec<GifImage>, Error>)
    ensures
        all_have_urls(raws@) ==> (r matches Ok(gifs) && gifs@ == extracted(raws@)),
        !all_have_urls(raws@) ==> (r matches Err(e) && e is Extraction),
{
    let ghost orig = raws@;
    let mut rest = raws;
    let mut out: Vec<GifImage> = Vec::new();
    proof {
        assert(orig.take(0) =~= Seq::<RawGif>::empty());
        assert(extracted(orig.take(0)) =~= Seq::<GifImage>::empty());
        assert(rest@ =~= orig.skip(0));
    }
    #[verifier::loop_isolation(false)]
    while rest.len() > 0
        invariant
            out@.len() <= orig.len(),
            rest@ == orig.skip(out@.len() as int),
            forall|m: int| 0 <= m < out@.len() ==> (#[trigger] orig[m].url) is Some,
            out@ == extracted(orig.take(out@.len() as int)),
        decreases rest@.len(),
    {
        let ghost k = out@.len() as int;
        proof {
            assert(orig.skip(k).len() == orig.len() - k);
            assert(orig.skip(k)[0] == orig[k]);
        }
        let raw = rest.remove(0);
        proof {
            assert(raw == orig[k]);
            assert(rest@ =~= orig.skip(k).skip(1));
            assert(orig.skip(k).skip(1) =~= orig.skip(k + 1));
        }
        let RawGif { id, url } = raw;
        match url {
            Option::Some(u) => {
                out.push(GifImage { id, url: u });
                proof {
                    assert(out@ =~= extracted(orig.take(k + 1))) by {
                        assert(orig.take(k + 1).len() == k + 1);
                        assert(forall|m: int| 0 <= m < k + 1
                            ==> #[trigger] orig.take(k + 1)[m] == orig[m]);
                        assert(forall|m: int| 0 <= m < k
                            ==> #[trigger] orig.take(k)[m] == orig[m]);
                    }
                }
            },
            Option::None => {
                proof {
                    assert(orig[k].url is None);
                    assert(!all_have_urls(orig));
                }
                return Err(Error::Extraction);
            },
        }
    }
    proof {
        assert(out@.len() == orig.len());
        assert(orig.take(orig.len() as int) =~= orig);
        assert(all_have_urls(orig));
    }
    Ok(out)
}

/// Interpret one search or trending response, already decoded from JSON by
/// the caller: `data` is the decoded item list of a success body, if the
/// body matched the success schema, and `envelope` the decoded error body,
/// if it matched one of the known error shapes. A success status with an
/// undecodable body — or an error status with one — is a `Decode` failure;
/// an error status with a decoded envelope surfaces the provider's own
/// status, code and message.
pub fn interpret_response(
    status: u16,
    data: Option<Vec<RawGif>>,
    envelope: Option<ErrorEnvelope>,
) -> (r: Result<Vec<GifImage>, Error>)
    ensures
        status == 200 && data is Some && all_have_urls(data.unwrap()@)
            ==> (r matches Ok(gifs) && gifs@ == extracted(data.unwrap()@)),
        status == 200 && data is Some && !all_have_urls(data.unwrap()@)
            ==> (r matches Err(e) && e is Extraction),
        status == 200 && data is None
            ==> (r matches Err(e) && e is Decode),
        status != 200 && envelope is Some
            ==> r == Err::<Vec<GifImage>, Error>(spec_provider_error(status, envelope.unwrap())),
        status != 200 && envelope is None
            ==> (r matches Err(e) && e is Decode),
{
    if status == 200 {
        match data {
            Option::Some(raws) => extract_records(raws),
            Option::None => Err(Error::Decode {
                message: "success body did not match the expected schema".to_owned(),
            }),
        }
    } else {
        match envelope {
            Option::Some(env) => Err(provider_error(status, env)),
            Option::None => Err(Error::Decode {
                message: "error body did not match any known error shape".to_owned(),
            }),
        }
    }
}

/// Hand the projected records to the provider-independent core.
pub fn records_of(gifs: Vec<GifImage>) -> (r: Vec<MediaRecord>)
    ensures
        r@.len() == gifs@.len(),
        forall|i: int| 0 <= i < gifs@.len()
            ==> (#[trigger] r@[i]).id == gifs@[i].id && r@[i].url == gifs@[i].url,
{
    let ghost orig = gifs@;
    let mut rest = gifs;
    let mut out: Vec<MediaRecord> = Vec::new();
    proof {
        assert(rest@ =~= orig.skip(0));
    }
    while rest.len() > 0
        invariant
            out@.len() <= orig.len(),
            rest@ == orig.skip(out@.len() as int),
            forall|m: int| 0 <= m < out@.len()
                ==> (#[trigger] out@[m]).id == orig[m].id && out@[m].url == orig[m].url,
        decreases rest@.len(),
    {
        let ghost k = out@.len() as int;
        proof {
            assert(orig.skip(k).len() == orig.len() - k);
            assert(orig.skip(k)[0] == orig[k]);
        }
        let gif = rest.remove(0);
        proof {
            assert(gif == orig[k]);
            assert(rest@ =~= orig.skip(k).skip(1));
            assert(orig.skip(k).skip(1) =~= orig.skip(k + 1));
        }
        let GifImage { id, url } = gif;
        out.push(MediaRecord { id, url });
    }
    out
}

/// The query parameters of a search request, in order: the key, the result
/// limit, the free-text query, and the content-rating filter when one is
/// given.
pub open spec fn spec_search_params(
    api_key: Seq<char>,
    query: Seq<char>,
    rating: Option<Rating>,
) -> Seq<(Seq<char>, Seq<char>)> {
    let base = seq![("api_key"@, api_key), ("limit"@, "50"@), ("q"@, query)];
    match rating {
        Option::None => base,
        Option::Some(rt) => base.push(("rating"@, rating_seq(rt))),
    }
}

/// The query parameters of a trending request, in order.
pub open spec fn spec_trending_params(
    api_key: Seq<char>,
    rating: Option<Rating>,
) -> Seq<(Seq<char>, Seq<char>)> {
    let base = seq![("api_key"@, api_key), ("limit"@, "50"@)];
    match rating {
        Option::None => base,
        Option::Some(rt) => base.push(("rating"@, rating_seq(rt))),
    }
}

/// Build the search request's query parameters.
pub fn search_params(api_key: &str, query: &str, rating: Option<Rating>) -> (r: Vec<
    (String, String),
>)
    ensures
        r@.map_values(|p: (String, String)| (p.0@, p.1@))
            == spec_search_params(api_key@, query@, rating),
{
    let mut params: Vec<(String, String)> = Vec::new();
    params.push(("api_key".to_owned(), api_key.to_owned()));
    params.push(("limit".to_owned(), "50".to_owned()));
    params.push(("q".to_owned(), query.to_owned()));
    match rating {
        Option::Some(rt) => {
            params.push(("rating".to_owned(), rating_value(rt)));
        },
        Option::None => {},
    }
    proof {
        assert(params@.map_values(|p: (String, String)| (p.0@, p.1@))
            =~= spec_search_params(api_key@, query@, rating));
    }
    params
}

/// Build the trending request's query parameters.
pub fn trending_params(api_key: &str, rating: Option<Rating>) -> (r: Vec<(String, String)>)
    ensures
        r@.map_values(|p: (String, String)| (p.0@, p.1@))
            == spec_trending_params(api_key@, rating),
{
    let mut params: Vec<(String, String)> = Vec::new();
    params.push(("api_key".to_owned(), api_key.to_owned()));
    params.push(("limit".to_owned(), "50".to_owned()));
    match rating {
        Option::Some(rt) => {
            params.push(("rating".to_owned(), rating_value(rt)));
        },
        Option::None => {},
    }
    proof {
        assert(params@.map_values(|p: (String, String)| (p.0@, p.1@))
            =~= spec_trending_params(api_key@, rating));
    }
    params
}

} // verus!
