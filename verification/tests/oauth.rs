use ariata::number::parse_i64;
use ariata::oauth::{callback_params_from_pairs, lookup, parse_callback_url, CallbackError, OAuthCallbackParams};
use ariata::text::{split_and_trim, str_eq, trim};

fn pairs(list: &[(&str, &str)]) -> Vec<(String, String)> {
    list.iter().map(|(k, v)| (k.to_string(), v.to_string())).collect()
}

#[test]
fn callback_with_code() {
    let params = parse_callback_url("http://localhost:8080/?code=4%2F0Ab-c&state=xyz+1\n", "google").unwrap();
    assert_eq!(
        params,
        OAuthCallbackParams {
            code: Some("4/0Ab-c".to_string()),
            access_token: None,
            refresh_token: None,
            expires_in: None,
            provider: "google".to_string(),
            state: Some("xyz 1".to_string()),
            workspace_id: None,
            workspace_name: None,
            bot_id: None,
        }
    );
}

#[test]
fn callback_with_tokens() {
    let url = "  https://localhost:8080/callback?access_token=tok&refresh_token=ref&expires_in=3600\
               &workspace_id=w1&workspace_name=My%20Space&bot_id=b7#fragment  ";
    let params = parse_callback_url(url, "notion").unwrap();
    assert_eq!(params.code, None);
    assert_eq!(params.access_token, Some("tok".to_string()));
    assert_eq!(params.refresh_token, Some("ref".to_string()));
    assert_eq!(params.expires_in, Some(3600));
    assert_eq!(params.provider, "notion");
    assert_eq!(params.workspace_id, Some("w1".to_string()));
    assert_eq!(params.workspace_name, Some("My Space".to_string()));
    assert_eq!(params.bot_id, Some("b7".to_string()));
}

#[test]
fn callback_without_credential() {
    assert_eq!(parse_callback_url("http://localhost:8080/?state=xyz", "google"), Err(CallbackError::MissingCredential));
    assert_eq!(parse_callback_url("http://localhost:8080/", "google"), Err(CallbackError::MissingCredential));
    assert_eq!(
        CallbackError::MissingCredential.message(),
        "OAuth callback URL must contain either 'code' or 'access_token' parameter"
    );
}

#[test]
fn callback_that_is_no_url() {
    assert_eq!(parse_callback_url("", "google"), Err(CallbackError::InvalidUrl));
    assert_eq!(parse_callback_url("not a url", "google"), Err(CallbackError::InvalidUrl));
    assert_eq!(parse_callback_url("/relative?code=1", "google"), Err(CallbackError::InvalidUrl));
    assert_eq!(parse_callback_url("code=1", "google"), Err(CallbackError::InvalidUrl));
}

#[test]
fn last_of_repeated_keys_wins() {
    let params = parse_callback_url("http://h/?code=first&code=second", "p").unwrap();
    assert_eq!(params.code, Some("second".to_string()));
    let list = pairs(&[("a", "1"), ("b", "2"), ("a", "3")]);
    assert_eq!(lookup(&list, "a"), Some("3".to_string()));
    assert_eq!(lookup(&list, "b"), Some("2".to_string()));
    assert_eq!(lookup(&list, "c"), None);
    assert_eq!(lookup(&pairs(&[]), "a"), None);
}

#[test]
fn expiry_that_is_no_number_is_dropped() {
    let read = |value: &str| {
        callback_params_from_pairs(&pairs(&[("code", "c"), ("expires_in", value)]), "p").unwrap().expires_in
    };
    assert_eq!(read("3600"), Some(3600));
    assert_eq!(read("-1"), Some(-1));
    assert_eq!(read("+15"), Some(15));
    assert_eq!(read("soon"), None);
    assert_eq!(read("36 00"), None);
    assert_eq!(read(""), None);
    assert_eq!(read("1e3"), None);
    let without = callback_params_from_pairs(&pairs(&[("access_token", "t")]), "p").unwrap();
    assert_eq!(without.expires_in, None);
    assert_eq!(without.access_token, Some("t".to_string()));
    assert_eq!(callback_params_from_pairs(&pairs(&[("expires_in", "5")]), "p"), Err(CallbackError::MissingCredential));
    // an empty code is a code
    assert_eq!(callback_params_from_pairs(&pairs(&[("code", "")]), "p").unwrap().code, Some(String::new()));
}

#[test]
fn whole_numbers() {
    let cases = [
        "0", "7", "42", "-42", "+42", "007", "-0", "+0", "", "-", "+", "--1", "+-1", "1-", " 1", "1 ", "1_000",
        "12a", "a12", "0x10", "1.5", "9223372036854775807", "9223372036854775808", "-9223372036854775808",
        "-9223372036854775809", "18446744073709551616", "99999999999999999999999999999999999999999",
        "-99999999999999999999999999999999999999999", "00000000000000000000000000000000000000000012",
        "٣", "１２", "1٣", "9223372036854775799", "-9223372036854775799", "922337203685477580a",
    ];
    for text in cases {
        assert_eq!(parse_i64(text), text.parse::<i64>().ok(), "{text:?}");
    }
    assert_eq!(parse_i64("-9223372036854775808"), Some(i64::MIN));
    assert_eq!(parse_i64("9223372036854775807"), Some(i64::MAX));
    assert_eq!(parse_i64("9223372036854775808"), None);
}

#[test]
fn trimming() {
    let cases = [
        "", " ", "\n", "a", " a", "a ", "  a b  ", "\t\r\n x \u{a0}\u{3000}", "\u{2003}é\u{2003}", "no-space",
        " \u{200b} ", "ab\ncd\n", "  \u{85}x",
    ];
    for text in cases {
        assert_eq!(trim(text), text.trim(), "{text:?}");
    }
    assert_eq!(trim("  yes \n"), "yes");
}

#[test]
fn splitting() {
    let cases = ["", ",", "a", "a,b", "a,,b", ",a", "a,", " a , b ", ",,", "é, ü ,ß", " , ", "a b,c d"];
    for text in cases {
        let expected: Vec<String> = text.split(',').map(|piece| piece.trim().to_string()).collect();
        assert_eq!(split_and_trim(text, ','), expected, "{text:?}");
    }
    assert_eq!(split_and_trim("a;b ; c", ';'), vec!["a", "b", "c"]);
    assert_eq!(split_and_trim("a,b", ';'), vec!["a,b"]);
}

#[test]
fn string_equality() {
    assert!(str_eq("", ""));
    assert!(str_eq("ios", "ios"));
    assert!(!str_eq("ios", "iOS"));
    assert!(!str_eq("ios", "ios "));
    assert!(!str_eq("mic", "microphone"));
    assert!(str_eq("héllo", "héllo"));
    assert!(!str_eq("héllo", "hèllo"));
}
