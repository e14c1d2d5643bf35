//! Reading the parameters of an OAuth callback from the URL that the
//! provider redirected to.

use vstd::prelude::*;
use crate::number::{parse_i64, parsed_i64};
use crate::text::{opt_chars, str_eq, trim, trimmed};

verus! {

/// `url::ParseError` (reached as `oauth2::url::ParseError`): why a text is
/// no absolute URL. Nothing is claimed of its contents.
#[verifier::external_type_specification]
#[verifier::external_body]
pub struct ExUrlParseError(oauth2::url::ParseError);

/// The pairs of key and value in the query of a URL, in the order in which
/// they stand there, each decoded; none where the text is no absolute URL.
/// This is what `url::Url::parse` and then `url::Url::query_pairs` make of
/// the text.
pub uninterp spec fn url_query_pairs(url: Seq<char>) -> Option<Seq<(Seq<char>, Seq<char>)>>;

/// The characters of each key and value.
pub open spec fn pair_views(pairs: Seq<(String, String)>) -> Seq<(Seq<char>, Seq<char>)> {
    pairs.map_values(|p: (String, String)| (p.0@, p.1@))
}

/// `url::Url::parse` (reached as `oauth2::url::Url`) and, on the URL that
/// it gives, `url::Url::query_pairs`: the pairs of the URL's query as owned
/// strings, in order, or the parse error. What the pairs are is a matter of
/// the URL standard and of form decoding; it depends on the text alone and
/// is known here by its name only.
#[verifier::external_body]
fn query_pairs_of(url: &str) -> (pairs: Result<Vec<(String, String)>, oauth2::url::ParseError>)
    ensures
        match pairs {
            Ok(found) => url_query_pairs(url@) == Some(pair_views(found@)),
            Err(_) => url_query_pairs(url@) is None,
        },
{
    let parsed = oauth2::url::Url::parse(url)?;
    Ok(parsed.query_pairs().map(|(key, value)| (key.into_owned(), value.into_owned())).collect())
}

/// What a provider sends back at the end of an authorization.
#[derive(Clone, Debug, PartialEq, Eq)]
pub struct OAuthCallbackParams {
    pub code: Option<String>,
    pub access_token: Option<String>,
    pub refresh_token: Option<String>,
    pub expires_in: Option<i64>,
    pub provider: String,
    pub state: Option<String>,
    pub workspace_id: Option<String>,
    pub workspace_name: Option<String>,
    pub bot_id: Option<String>,
}

/// The model of [`OAuthCallbackParams`].
pub struct OAuthCallbackParamsView {
    pub code: Option<Seq<char>>,
    pub access_token: Option<Seq<char>>,
    pub refresh_token: Option<Seq<char>>,
    pub expires_in: Option<i64>,
    pub provider: Seq<char>,
    pub state: Option<Seq<char>>,
    pub workspace_id: Option<Seq<char>>,
    pub workspace_name: Option<Seq<char>>,
    pub bot_id: Option<Seq<char>>,
}

impl View for OAuthCallbackParams {
    type V = OAuthCallbackParamsView;

    open spec fn view(&self) -> OAuthCallbackParamsView {
        OAuthCallbackParamsView {
            code: opt_chars(self.code),
            access_token: opt_chars(self.access_token),
            refresh_token: opt_chars(self.refresh_token),
            expires_in: self.expires_in,
            provider: self.provider@,
            state: opt_chars(self.state),
            workspace_id: opt_chars(self.workspace_id),
            workspace_name: opt_chars(self.workspace_name),
            bot_id: opt_chars(self.bot_id),
        }
    }
}

/// Why a callback URL was refused.
#[derive(Clone, Copy, Debug, PartialEq, Eq, Structural)]
pub enum CallbackError {
    /// The text is no absolute URL.
    InvalidUrl,
    /// The URL carries neither `code` nor `access_token`.
    MissingCredential,
}

/// The text of a [`CallbackError`].
pub open spec fn callback_error_text(e: CallbackError) -> Seq<char> {
    match e {
        CallbackError::InvalidUrl => "OAuth callback URL is not a valid URL"@,
        CallbackError::MissingCredential => {
            "OAuth callback URL must contain either 'code' or 'access_token' parameter"@
        },
    }
}

impl CallbackError {
    /// The text of the error.
    pub fn message(&self) -> (text: String)
        ensures
            text@ == callback_error_text(*self),
    {
        match self {
            CallbackError::InvalidUrl => "OAuth callback URL is not a valid URL".to_string(),
            CallbackError::MissingCredential => {
                "OAuth callback URL must contain either 'code' or 'access_token' parameter".to_string()
            },
        }
    }
}

/// The value of a key among the pairs of a query: that of the last pair
/// with the key.
pub open spec fn value_of(pairs: Seq<(Seq<char>, Seq<char>)>, key: Seq<char>) -> Option<Seq<char>>
    decreases pairs.len(),
{
    if pairs.len() == 0 {
        None
    } else if pairs.last().0 == key {
        Some(pairs.last().1)
    } else {
        value_of(pairs.drop_last(), key)
    }
}

/// The value of a key among the pairs of a query.
pub fn lookup(pairs: &Vec<(String, String)>, key: &str) -> (value: Option<String>)
    ensures
        opt_chars(value) == value_of(pair_views(pairs@), key@),
{
    let mut i: usize = pairs.len();
    assert(pair_views(pairs@).take(i as int) =~= pair_views(pairs@));
    while i > 0
        invariant
            i <= pairs@.len(),
            value_of(pair_views(pairs@), key@) == value_of(pair_views(pairs@).take(i as int), key@),
        decreases i,
    {
        let ghost upto = pair_views(pairs@).take(i as int);
        i -= 1;
        proof {
            assert(upto.last() == (pairs@[i as int].0@, pairs@[i as int].1@));
            assert(upto.drop_last() =~= pair_views(pairs@).take(i as int));
        }
        if str_eq(pairs[i].0.as_str(), key) {
            return Some(pairs[i].1.clone());
        }
    }
    None
}

/// The callback parameters that the pairs of a query carry, for the given
/// provider; refused where the pairs hold neither `code` nor
/// `access_token`. `expires_in` is there where its value reads as a whole
/// number.
pub open spec fn callback_params_of(pairs: Seq<(Seq<char>, Seq<char>)>, provider: Seq<char>) -> Result<
    OAuthCallbackParamsView,
    CallbackError,
> {
    if value_of(pairs, "code"@) is None && value_of(pairs, "access_token"@) is None {
        Err(CallbackError::MissingCredential)
    } else {
        Ok(
            OAuthCallbackParamsView {
                code: value_of(pairs, "code"@),
                access_token: value_of(pairs, "access_token"@),
                refresh_token: value_of(pairs, "refresh_token"@),
                expires_in: match value_of(pairs, "expires_in"@) {
                    Some(text) => parsed_i64(text),
                    None => None,
                },
                provider,
                state: value_of(pairs, "state"@),
                workspace_id: value_of(pairs, "workspace_id"@),
                workspace_name: value_of(pairs, "workspace_name"@),
                bot_id: value_of(pairs, "bot_id"@),
            },
        )
    }
}

/// The model of the outcome of reading callback parameters.
pub open spec fn callback_view(r: Result<OAuthCallbackParams, CallbackError>) -> Result<
    OAuthCallbackParamsView,
    CallbackError,
> {
    match r {
        Ok(params) => Ok(params@),
        Err(e) => Err(e),
    }
}

/// Reads the callback parameters from the pairs of a query.
pub fn callback_params_from_pairs(pairs: &Vec<(String, String)>, provider: &str) -> (params: Result<
    OAuthCallbackParams,
    CallbackError,
>)
    ensures
        callback_view(params) == callback_params_of(pair_views(pairs@), provider@),
{
    let code = lookup(pairs, "code");
    let access_token = lookup(pairs, "access_token");
    let refresh_token = lookup(pairs, "refresh_token");
    let expires_in = match lookup(pairs, "expires_in") {
        Some(text) => parse_i64(text.as_str()),
        None => None,
    };
    let state = lookup(pairs, "state");
    let workspace_id = lookup(pairs, "workspace_id");
    let workspace_name = lookup(pairs, "workspace_name");
    let bot_id = lookup(pairs, "bot_id");
    if code.is_none() && access_token.is_none() {
        return Err(CallbackError::MissingCredential);
    }
    Ok(
        OAuthCallbackParams {
            code,
            access_token,
            refresh_token,
            expires_in,
            provider: provider.to_string(),
            state,
            workspace_id,
            workspace_name,
            bot_id,
        },
    )
}

/// What reading a callback URL gives: the text is trimmed, taken apart as
/// a URL, and its query read.
pub open spec fn parsed_callback_url(url: Seq<char>, provider: Seq<char>) -> Result<
    OAuthCallbackParamsView,
    CallbackError,
> {
    match url_query_pairs(trimmed(url)) {
        Some(pairs) => callback_params_of(pairs, provider),
        None => Err(CallbackError::InvalidUrl),
    }
}

/// Reads the parameters of an OAuth callback from the URL that the
/// provider redirected to. White space around the URL, such as the end of
/// the line it was pasted on, does not count.
pub fn parse_callback_url(url: &str, provider: &str) -> (params: Result<OAuthCallbackParams, CallbackError>)
    ensures
        callback_view(params) == parsed_callback_url(url@, provider@),
{
    let url = trim(url);
    match query_pairs_of(url.as_str()) {
        Ok(pairs) => callback_params_from_pairs(&pairs, provider),
        Err(_) => Err(CallbackError::InvalidUrl),
    }
}

} // verus!
