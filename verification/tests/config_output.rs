use gifff::config::Rating;
use gifff::config::parse_rating;
use gifff::config::rating_value;
use gifff::config::resolve_api_key;
use gifff::errors::Error;
use gifff::gfycat;
use gifff::giphy;
use gifff::output::format_output;
use gifff::output::format_outputs;
use gifff::strings::str_eq;

#[test]
fn ratings_parse_and_render() {
    assert_eq!(parse_rating("g"), Some(Rating::G));
    assert_eq!(parse_rating("pg"), Some(Rating::Pg));
    assert_eq!(parse_rating("pg-13"), Some(Rating::Pg13));
    assert_eq!(parse_rating("r"), Some(Rating::R));
    assert_eq!(parse_rating("x"), None);
    assert_eq!(parse_rating(""), None);
    assert_eq!(rating_value(Rating::Pg13), "pg-13");
    assert_eq!(parse_rating(&rating_value(Rating::R)), Some(Rating::R));
}

#[test]
fn api_key_precedence_is_flag_file_env() {
    let flag = Some("from-flag".to_string());
    let file = Some("from-file".to_string());
    let env_var = Some("from-env".to_string());
    assert_eq!(
        resolve_api_key(flag.clone(), file.clone(), env_var.clone()).unwrap(),
        "from-flag"
    );
    assert_eq!(resolve_api_key(None, file.clone(), env_var.clone()).unwrap(), "from-file");
    assert_eq!(resolve_api_key(None, None, env_var).unwrap(), "from-env");
    assert!(matches!(resolve_api_key(None, None, None), Err(Error::Config)));
}

#[test]
fn markdown_wraps_the_url() {
    assert_eq!(format_output("http://example.test/x.gif", false), "http://example.test/x.gif");
    assert_eq!(format_output("http://example.test/x.gif", true), "![R+](http://example.test/x.gif)");
}

#[test]
fn outputs_join_with_single_newlines_and_no_trailing_one() {
    let urls = vec!["u1".to_string(), "u2".to_string(), "u3".to_string()];
    assert_eq!(format_outputs(&urls, false), "u1\nu2\nu3");
    assert_eq!(format_outputs(&urls, true), "![R+](u1)\n![R+](u2)\n![R+](u3)");
    assert_eq!(format_outputs(&vec!["solo".to_string()], false), "solo");
    assert_eq!(format_outputs(&Vec::new(), false), "");
}

#[test]
fn string_equality_is_exact() {
    assert!(str_eq("", ""));
    assert!(str_eq("abc", "abc"));
    assert!(!str_eq("abc", "abd"));
    assert!(!str_eq("abc", "ab"));
    assert!(str_eq("naïve", "naïve"));
}

#[test]
fn giphy_request_parameters() {
    let params = giphy::search_params("KEY", "cats", None);
    assert_eq!(
        params,
        vec![
            ("api_key".to_string(), "KEY".to_string()),
            ("limit".to_string(), "50".to_string()),
            ("q".to_string(), "cats".to_string()),
        ]
    );
    let params = giphy::trending_params("KEY", Some(Rating::Pg13));
    assert_eq!(
        params,
        vec![
            ("api_key".to_string(), "KEY".to_string()),
            ("limit".to_string(), "50".to_string()),
            ("rating".to_string(), "pg-13".to_string()),
        ]
    );
}

#[test]
fn gfycat_request_parameters() {
    assert_eq!(
        gfycat::search_params("dogs"),
        vec![
            ("search_text".to_string(), "dogs".to_string()),
            ("count".to_string(), "420".to_string()),
        ]
    );
    assert_eq!(gfycat::trending_params(), vec![("count".to_string(), "420".to_string())]);
}
