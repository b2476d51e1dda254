use gifff::errors::Error;
use gifff::errors::ErrorEnvelope;
use gifff::errors::provider_error;
use gifff::gfycat;
use gifff::gfycat::GfycatImage;
use gifff::gfycat::GifsResponse;
use gifff::giphy;
use gifff::giphy::GifImage;
use gifff::giphy::GifObject;
use gifff::giphy::GifObjectImage;
use gifff::giphy::GifObjectImageSource;
use gifff::giphy::RawGif;

fn raw(id: &str, url: Option<&str>) -> RawGif {
    RawGif { id: id.to_string(), url: url.map(|u| u.to_string()) }
}

#[test]
fn extraction_projects_every_record() {
    let raws = vec![raw("a", Some("u1")), raw("b", Some("u2"))];
    let gifs = giphy::extract_records(raws).expect("every variant is present");
    assert_eq!(gifs.len(), 2);
    assert_eq!(gifs[0].id, "a");
    assert_eq!(gifs[0].url, "u1");
    assert_eq!(gifs[1].id, "b");
    assert_eq!(gifs[1].url, "u2");
}

#[test]
fn variant_projection_flattens_the_nesting() {
    let items = vec![
        GifObject {
            id: "full".to_string(),
            images: Some(GifObjectImage {
                downsized_large: Some(GifObjectImageSource { url: Some("u".to_string()) }),
            }),
        },
        GifObject { id: "no-variants".to_string(), images: None },
        GifObject {
            id: "no-designated".to_string(),
            images: Some(GifObjectImage { downsized_large: None }),
        },
        GifObject {
            id: "no-url".to_string(),
            images: Some(GifObjectImage {
                downsized_large: Some(GifObjectImageSource { url: None }),
            }),
        },
    ];
    let raws = gifff::giphy::raw_of(items);
    assert_eq!(raws.len(), 4);
    assert_eq!(raws[0].url.as_deref(), Some("u"));
    assert!(raws[1].url.is_none());
    assert!(raws[2].url.is_none());
    assert!(raws[3].url.is_none());
}

#[test]
fn missing_variant_fails_extraction() {
    let raws = vec![raw("a", Some("u1")), raw("b", None)];
    let outcome = giphy::extract_records(raws);
    assert!(matches!(outcome, Err(Error::Extraction)));
}

#[test]
fn success_response_with_missing_variant_never_yields_a_partial_url() {
    let raws = Some(vec![raw("a", None)]);
    let outcome = giphy::interpret_response(200, raws, None);
    assert!(matches!(outcome, Err(Error::Extraction)));
}

#[test]
fn forbidden_with_flat_message_surfaces_provider_error() {
    let body = "{\"message\":\"invalid key\"}";
    let decoded: serde_json::Value = serde_json::from_str(body).expect("test body parses");
    let message = decoded
        .get("message")
        .and_then(|m| m.as_str())
        .expect("test body carries a message")
        .to_string();
    let outcome = giphy::interpret_response(403, None, Some(ErrorEnvelope::Flat { message }));
    match outcome {
        Err(Error::Provider { status, code, message }) => {
            assert_eq!(status, 403);
            assert!(code.is_none());
            assert_eq!(message, "invalid key");
        }
        other => panic!("expected a provider error, got {:?}", other),
    }
}

#[test]
fn meta_envelope_takes_its_own_status() {
    let envelope = ErrorEnvelope::Meta { status: 429, msg: "slow down".to_string() };
    match provider_error(502, envelope) {
        Error::Provider { status, code, message } => {
            assert_eq!(status, 429);
            assert!(code.is_none());
            assert_eq!(message, "slow down");
        }
        other => panic!("expected a provider error, got {:?}", other),
    }
}

#[test]
fn coded_envelope_keeps_code_and_http_status() {
    let envelope = ErrorEnvelope::Coded {
        code: "Unauthorized".to_string(),
        description: "bad credentials".to_string(),
    };
    match provider_error(401, envelope) {
        Error::Provider { status, code, message } => {
            assert_eq!(status, 401);
            assert_eq!(code.as_deref(), Some("Unauthorized"));
            assert_eq!(message, "bad credentials");
        }
        other => panic!("expected a provider error, got {:?}", other),
    }
}

#[test]
fn undecodable_bodies_are_decode_errors() {
    let outcome = giphy::interpret_response(200, None, None);
    assert!(matches!(outcome, Err(Error::Decode { .. })));
    let outcome = giphy::interpret_response(500, None, None);
    assert!(matches!(outcome, Err(Error::Decode { .. })));
}

#[test]
fn gfycat_success_hands_back_the_images() {
    let body = GifsResponse {
        gfycats: vec![GfycatImage { id: "x".to_string(), url: "ux".to_string() }],
    };
    let gifs = gfycat::interpret_gifs_response(200, Some(body), None).expect("success body");
    assert_eq!(gifs.len(), 1);
    assert_eq!(gifs[0].id, "x");
    assert_eq!(gifs[0].url, "ux");
}

#[test]
fn gfycat_error_envelope_surfaces_provider_error() {
    let envelope = ErrorEnvelope::Coded {
        code: "NotFound".to_string(),
        description: "no such gfycat".to_string(),
    };
    let outcome = gfycat::interpret_gifs_response(404, None, Some(envelope));
    match outcome {
        Err(Error::Provider { status, code, message }) => {
            assert_eq!(status, 404);
            assert_eq!(code.as_deref(), Some("NotFound"));
            assert_eq!(message, "no such gfycat");
        }
        other => panic!("expected a provider error, got {:?}", other),
    }
}

#[test]
fn token_exchange_success_yields_the_token() {
    let outcome = gfycat::interpret_token_response(200, Some("tok".to_string()), None);
    assert_eq!(outcome.expect("token present"), "tok");
}

#[test]
fn token_exchange_without_token_is_a_decode_error() {
    let outcome = gfycat::interpret_token_response(200, None, None);
    assert!(matches!(outcome, Err(Error::Decode { .. })));
}

#[test]
fn records_keep_id_and_url() {
    let gifs = vec![GifImage { id: "a".to_string(), url: "u".to_string() }];
    let records = giphy::records_of(gifs);
    assert_eq!(records.len(), 1);
    assert_eq!(records[0].id, "a");
    assert_eq!(records[0].url, "u");

    let images = vec![GfycatImage { id: "b".to_string(), url: "v".to_string() }];
    let records = gfycat::records_of(images);
    assert_eq!(records.len(), 1);
    assert_eq!(records[0].id, "b");
    assert_eq!(records[0].url, "v");
}
