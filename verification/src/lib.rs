//! OAuth1 request signing and chunked media upload for the Twitter API.
//!
//! The library decides and computes; it performs no network or file I/O.
//! Callers hand it responses and receive the next request to make.
use vstd::prelude::*;
use vstd::string::*;
use twapi_reqwest::reqwest::Error;
use crate::nonce::{clock_seconds, fresh_nonce, is_nonce};
use crate::signer::{
    add_query,
    encode_form,
    form_encoded,
    make_signing_key,
    sign,
    sign_with,
    signed_afresh,
    signed_with,
    signing_key,
    str_pairs,
    uri_with_query,
};
use crate::text::copy_text;

pub mod account_activity;
pub mod digest;
pub mod nonce;
pub mod oauth1;
pub mod oauth2;
pub mod params;
pub mod percent;
pub mod signer;
pub mod text;
pub mod upload;

verus! {

/// `reqwest::Error`, the failure of a request that got no response. The
/// library only carries such a value to the caller.
#[verifier::external_type_specification]
#[verifier::external_body]
pub struct ExConnectionError(twapi_reqwest::reqwest::Error);

/// `std::io::Error`, the failure of a local read. The library only carries
/// such a value to the caller.
#[verifier::external_type_specification]
#[verifier::external_body]
pub struct ExIoError(std::io::Error);

/// `url::ParseError`. The library only carries such a value to the caller.
#[verifier::external_type_specification]
#[verifier::external_body]
pub struct ExUrlParseError(url::ParseError);

/// The progress report of the service on media that it processes after an
/// upload.
#[derive(Debug)]
pub struct ProcessingInfo {
    /// `pending`, `in_progress`, `succeeded` or `failed`.
    pub state: Option<String>,
    /// How long the service asks to wait before the next status request.
    pub check_after_secs: Option<u64>,
}

impl Clone for ProcessingInfo {
    fn clone(&self) -> (copy: Self)
        ensures
            copy == *self,
    {
        ProcessingInfo { state: copy_text(&self.state), check_after_secs: self.check_after_secs }
    }
}

/// What the library reads of a response body that is JSON.
#[derive(Debug)]
pub struct ResponseJson {
    /// The member `media_id_string`, where the body is an object that
    /// has it as a string.
    pub media_id_string: Option<String>,
    /// The member `processing_info`, where the body is an object that
    /// has it.
    pub processing_info: Option<ProcessingInfo>,
}

impl Clone for ResponseJson {
    fn clone(&self) -> (copy: Self)
        ensures
            copy == *self,
    {
        let processing_info = match &self.processing_info {
            Some(info) => Some(info.clone()),
            None => None,
        };
        ResponseJson { media_id_string: copy_text(&self.media_id_string), processing_info }
    }
}

/// Whether an HTTP status is in 200..300.
pub open spec fn success_status(status_code: u16) -> bool {
    200 <= status_code < 300
}

/// Response from Twitter API
#[derive(Debug)]
pub struct TwapiResponse {
    pub status_code: u16,
    /// The body as it arrived.
    pub body: String,
    /// `None` where the body is not JSON.
    pub json: Option<ResponseJson>,
}

impl TwapiResponse {
    /// A response with the given status and body, and what was read of
    /// the body as JSON.
    pub fn new(status_code: u16, body: String, json: Option<ResponseJson>) -> (response:
        TwapiResponse)
        ensures
            response == (TwapiResponse { status_code, body, json }),
    {
        TwapiResponse { status_code, body, json }
    }

    /// Whether the status is in 200..300.
    pub fn is_success(&self) -> (success: bool)
        ensures
            success == success_status(self.status_code),
    {
        200 <= self.status_code && self.status_code < 300
    }

    /// A copy of what was read of the body as JSON.
    pub fn copy_json_value(&self) -> (json: Option<ResponseJson>)
        ensures
            json == self.json,
    {
        match &self.json {
            Some(json) => Some(json.clone()),
            None => None,
        }
    }

    /// The member `media_id_string` of the body.
    pub open spec fn media_id(self) -> Option<String> {
        match self.json {
            Some(json) => json.media_id_string,
            None => None,
        }
    }

    /// The member `processing_info` of the body.
    pub open spec fn processing_info(self) -> Option<ProcessingInfo> {
        match self.json {
            Some(json) => json.processing_info,
            None => None,
        }
    }
}

/// The step of a chunked upload at which a request was made.
#[derive(Debug, Clone, Copy, PartialEq, Eq, Structural)]
pub enum UploadStage {
    Init,
    Append,
    Finalize,
    Status,
}

/// Error in twapi library
#[derive(Debug)]
pub enum TwapiError {
    /// No response arrived.
    Connection(Error),
    /// A local file could not be read.
    IO(std::io::Error),
    /// A token exchange was answered with this status outside 200..300,
    /// and this body.
    Token((u16, String)),
    /// A URI could not be parsed.
    UrlParse(url::ParseError),
    /// A field that the response must hold is absent.
    NotExists,
    /// An upload request was answered with this status outside 200..300,
    /// and this body.
    UploadStage(UploadStage, u16, String),
    /// The media was still being processed when the caller's limit on
    /// status requests was reached.
    Timeout,
}

impl From<Error> for TwapiError {
    fn from(err: Error) -> (error: TwapiError)
        ensures
            error == TwapiError::Connection(err),
    {
        TwapiError::Connection(err)
    }
}

impl vstd::std_specs::convert::FromSpecImpl<Error> for TwapiError {
    open spec fn obeys_from_spec() -> bool {
        true
    }

    open spec fn from_spec(err: Error) -> TwapiError {
        TwapiError::Connection(err)
    }
}

impl From<std::io::Error> for TwapiError {
    fn from(err: std::io::Error) -> (error: TwapiError)
        ensures
            error == TwapiError::IO(err),
    {
        TwapiError::IO(err)
    }
}

impl vstd::std_specs::convert::FromSpecImpl<std::io::Error> for TwapiError {
    open spec fn obeys_from_spec() -> bool {
        true
    }

    open spec fn from_spec(err: std::io::Error) -> TwapiError {
        TwapiError::IO(err)
    }
}

impl From<url::ParseError> for TwapiError {
    fn from(err: url::ParseError) -> (error: TwapiError)
        ensures
            error == TwapiError::UrlParse(err),
    {
        TwapiError::UrlParse(err)
    }
}

impl vstd::std_specs::convert::FromSpecImpl<url::ParseError> for TwapiError {
    open spec fn obeys_from_spec() -> bool {
        true
    }

    open spec fn from_spec(err: url::ParseError) -> TwapiError {
        TwapiError::UrlParse(err)
    }
}

/// The URI of an Account Activity endpoint: `command_type` under the
/// environment `env_name`, if there is one, then `file_name`, if there is
/// one, and `.json`.
pub open spec fn account_activity_uri(
    command_type: Seq<char>,
    env_name: Option<Seq<char>>,
    file_name: Option<Seq<char>>,
) -> Seq<char> {
    let prefix = match env_name {
        Some(env_name) => "https://api.twitter.com/1.1/account_activity/all/"@ + env_name + "/"@
            + command_type,
        None => "https://api.twitter.com/1.1/account_activity/"@ + command_type,
    };
    match file_name {
        Some(file_name) => prefix + "/"@ + file_name + ".json"@,
        None => prefix + ".json"@,
    }
}

/// The text of an optional string.
pub open spec fn text_of(text: Option<&str>) -> Option<Seq<char>> {
    match text {
        Some(t) => Some(t@),
        None => None,
    }
}

/// Makes the URI of an Account Activity endpoint.
pub fn make_account_activity_uri(
    command_type: &str,
    env_name: Option<&str>,
    file_name: Option<&str>,
) -> (uri: String)
    ensures
        uri@ == account_activity_uri(command_type@, text_of(env_name), text_of(file_name)),
{
    let mut uri = match env_name {
        Some(env_name) => {
            let mut prefix = String::from_str("https://api.twitter.com/1.1/account_activity/all/");
            prefix.append(env_name);
            prefix.append("/");
            prefix
        },
        None => String::from_str("https://api.twitter.com/1.1/account_activity/"),
    };
    uri.append(command_type);
    match file_name {
        Some(file_name) => {
            uri.append("/");
            uri.append(file_name);
        },
        None => {},
    }
    uri.append(".json");
    assert(uri@ =~= account_activity_uri(command_type@, text_of(env_name), text_of(file_name)));
    uri
}

/// A request made ready to send.
#[derive(Debug)]
pub struct PreparedRequest {
    /// The URI with the query.
    pub uri: String,
    /// The value of the `Authorization` header.
    pub authorization: String,
    /// The parameters of the form as they stand in the body; empty where
    /// there are none.
    pub body: String,
}

impl PreparedRequest {
    /// Whether the request carries the query in its URI and the form in
    /// its body.
    pub open spec fn carries(
        self,
        uri: Seq<char>,
        query_options: Seq<(Seq<char>, Seq<char>)>,
        form_options: Seq<(Seq<char>, Seq<char>)>,
    ) -> bool {
        &&& self.uri@ == uri_with_query(uri, query_options)
        &&& self.body@ == form_encoded(form_options)
    }
}

/// The parameters of the query and of the form in one list, those of the
/// query first.
fn both<'a>(query_options: &Vec<(&'a str, &'a str)>, form_options: &Vec<(&'a str, &'a str)>) -> (all:
    Vec<(&'a str, &'a str)>)
    ensures
        str_pairs(all@) == str_pairs(query_options@) + str_pairs(form_options@),
{
    let mut all: Vec<(&'a str, &'a str)> = Vec::new();
    let mut i: usize = 0;
    while i < query_options.len()
        invariant
            i <= query_options.len(),
            str_pairs(all@) == str_pairs(query_options@).take(i as int),
        decreases query_options.len() - i,
    {
        let ghost before = str_pairs(all@);
        all.push(query_options[i]);
        assert(str_pairs(all@) =~= before.push(str_pairs(query_options@)[i as int]));
        assert(str_pairs(query_options@).take(i + 1) =~= before.push(
            str_pairs(query_options@)[i as int],
        ));
        i += 1;
    }
    assert(str_pairs(query_options@).take(query_options@.len() as int) =~= str_pairs(
        query_options@,
    ));
    let mut j: usize = 0;
    while j < form_options.len()
        invariant
            j <= form_options.len(),
            str_pairs(all@) == str_pairs(query_options@) + str_pairs(form_options@).take(j as int),
        decreases form_options.len() - j,
    {
        let ghost before = str_pairs(all@);
        all.push(form_options[j]);
        assert(str_pairs(all@) =~= before.push(str_pairs(form_options@)[j as int]));
        assert(str_pairs(query_options@) + str_pairs(form_options@).take(j + 1) =~= before.push(
            str_pairs(form_options@)[j as int],
        ));
        j += 1;
    }
    assert(str_pairs(form_options@).take(form_options@.len() as int) =~= str_pairs(
        form_options@,
    ));
    all
}

/// Application Only Authenticaiton by oauth2
pub struct ApplicationAuth {
    bearer_token: String,
}

impl ApplicationAuth {
    /// The bearer token.
    pub closed spec fn bearer_token(&self) -> Seq<char> {
        self.bearer_token@
    }

    /// The credentials of an application with the given bearer token.
    pub fn new(bearer_token: &str) -> (auth: ApplicationAuth)
        ensures
            auth.bearer_token() == bearer_token@,
    {
        ApplicationAuth { bearer_token: String::from_str(bearer_token) }
    }

    /// The value of the `Authorization` header of every request: the
    /// token after `Bearer` and a space.
    pub fn authorization(&self) -> (header: String)
        ensures
            header@ == "Bearer "@ + self.bearer_token(),
    {
        let mut header = String::from_str("Bearer ");
        header.append(self.bearer_token.as_str());
        header
    }

    /// Makes a request ready: the query goes into the URI, the form into
    /// the body, the token into the header.
    pub fn prepare(
        &self,
        uri: &str,
        query_options: &Vec<(&str, &str)>,
        form_options: &Vec<(&str, &str)>,
    ) -> (request: PreparedRequest)
        ensures
            request.carries(uri@, str_pairs(query_options@), str_pairs(form_options@)),
            request.authorization@ == "Bearer "@ + self.bearer_token(),
    {
        PreparedRequest {
            uri: add_query(uri, query_options),
            authorization: self.authorization(),
            body: encode_form(form_options),
        }
    }
}

/// User Authenticaiton by oauth1
pub struct UserAuth {
    consumer_key: String,
    consumer_secret: String,
    access_token: String,
    access_token_secret: String,
}

impl UserAuth {
    /// The key that identifies the application.
    pub closed spec fn consumer_key(&self) -> Seq<char> {
        self.consumer_key@
    }

    /// The secret of the application.
    pub closed spec fn consumer_secret(&self) -> Seq<char> {
        self.consumer_secret@
    }

    /// The token that identifies the user.
    pub closed spec fn access_token(&self) -> Seq<char> {
        self.access_token@
    }

    /// The secret of the user's token.
    pub closed spec fn access_token_secret(&self) -> Seq<char> {
        self.access_token_secret@
    }

    /// The key under which the requests of this user are signed.
    pub open spec fn signing_key(&self) -> Seq<char> {
        signing_key(self.consumer_secret(), self.access_token_secret())
    }

    /// The header parameter that names the user's token.
    pub open spec fn token_param(&self) -> Seq<(Seq<char>, Seq<char>)> {
        seq![("oauth_token"@, self.access_token())]
    }

    /// The credentials of a user: the key and the secret of the
    /// application, and the token and the token secret of the user.
    pub fn new(
        consumer_key: &str,
        consumer_secret: &str,
        access_token: &str,
        access_token_secret: &str,
    ) -> (auth: UserAuth)
        ensures
            auth.consumer_key() == consumer_key@,
            auth.consumer_secret() == consumer_secret@,
            auth.access_token() == access_token@,
            auth.access_token_secret() == access_token_secret@,
    {
        UserAuth {
            consumer_key: String::from_str(consumer_key),
            consumer_secret: String::from_str(consumer_secret),
            access_token: String::from_str(access_token),
            access_token_secret: String::from_str(access_token_secret),
        }
    }

    /// The value of the `Authorization` header of a request of this user,
    /// for a given nonce and a given time. `options` are the parameters
    /// of the query and the body. It is `None` where the secrets or the
    /// request are too long to be signed.
    pub fn authorization_with(
        &self,
        method: &str,
        uri: &str,
        options: &Vec<(&str, &str)>,
        nonce: &str,
        timestamp: i64,
    ) -> (header: Option<String>)
        ensures
            signed_with(
                header,
                self.signing_key(),
                self.consumer_key(),
                self.token_param(),
                method@,
                uri@,
                str_pairs(options@),
                nonce@,
                timestamp as int,
            ),
    {
        let key = make_signing_key(
            self.consumer_secret.as_str(),
            self.access_token_secret.as_str(),
        );
        let header_options: Vec<(&str, &str)> = vec![("oauth_token", self.access_token.as_str())];
        assert(str_pairs(header_options@) =~= self.token_param());
        sign_with(
            key.as_str(),
            self.consumer_key.as_str(),
            &header_options,
            method,
            uri,
            options,
            nonce,
            timestamp,
        )
    }

    /// The value of the `Authorization` header of a request of this user,
    /// with a nonce drawn now and the time read now.
    pub fn authorization(&self, method: &str, uri: &str, options: &Vec<(&str, &str)>) -> (header:
        Option<String>)
        ensures
            signed_afresh(
                header,
                self.signing_key(),
                self.consumer_key(),
                self.token_param(),
                method@,
                uri@,
                str_pairs(options@),
            ),
    {
        let key = make_signing_key(
            self.consumer_secret.as_str(),
            self.access_token_secret.as_str(),
        );
        let header_options: Vec<(&str, &str)> = vec![("oauth_token", self.access_token.as_str())];
        assert(str_pairs(header_options@) =~= self.token_param());
        sign(key.as_str(), self.consumer_key.as_str(), &header_options, method, uri, options)
    }

    /// What holds of a request of this user made ready for a given nonce
    /// and a given time: the query stands in the URI, the form in the
    /// body, and the parameters of both are signed. A body of another
    /// kind is not signed.
    pub open spec fn prepares(
        &self,
        request: Option<PreparedRequest>,
        method: Seq<char>,
        uri: Seq<char>,
        query_options: Seq<(Seq<char>, Seq<char>)>,
        form_options: Seq<(Seq<char>, Seq<char>)>,
        nonce: Seq<char>,
        timestamp: int,
    ) -> bool {
        &&& signed_with(
            match request {
                Some(ready) => Some(ready.authorization),
                None => None,
            },
            self.signing_key(),
            self.consumer_key(),
            self.token_param(),
            method,
            uri,
            query_options + form_options,
            nonce,
            timestamp,
        )
        &&& request matches Some(ready) ==> ready.carries(uri, query_options, form_options)
    }

    /// Makes a request of this user ready to send, for a given nonce and
    /// a given time. The result is `None` where the secrets or the
    /// request are too long to be signed.
    pub fn prepare_with(
        &self,
        method: &str,
        uri: &str,
        query_options: &Vec<(&str, &str)>,
        form_options: &Vec<(&str, &str)>,
        nonce: &str,
        timestamp: i64,
    ) -> (request: Option<PreparedRequest>)
        ensures
            self.prepares(
                request,
                method@,
                uri@,
                str_pairs(query_options@),
                str_pairs(form_options@),
                nonce@,
                timestamp as int,
            ),
    {
        let options = both(query_options, form_options);
        match self.authorization_with(method, uri, &options, nonce, timestamp) {
            Some(authorization) => Some(
                PreparedRequest {
                    uri: add_query(uri, query_options),
                    authorization,
                    body: encode_form(form_options),
                },
            ),
            None => None,
        }
    }

    /// Makes a request of this user ready to send, with a nonce drawn now
    /// and the time read now.
    pub fn prepare(
        &self,
        method: &str,
        uri: &str,
        query_options: &Vec<(&str, &str)>,
        form_options: &Vec<(&str, &str)>,
    ) -> (request: Option<PreparedRequest>)
        ensures
            exists|nonce: Seq<char>, timestamp: int|
                is_nonce(nonce) && #[trigger] self.prepares(
                    request,
                    method@,
                    uri@,
                    str_pairs(query_options@),
                    str_pairs(form_options@),
                    nonce,
                    timestamp,
                ),
    {
        let nonce = fresh_nonce();
        let timestamp = clock_seconds();
        self.prepare_with(method, uri, query_options, form_options, nonce.as_str(), timestamp)
    }
}

/// The two ways to authorize a request.
pub enum Credentials {
    /// As a user: every request is signed.
    OAuth1(UserAuth),
    /// As the application: every request carries the bearer token.
    OAuth2(ApplicationAuth),
}

impl Credentials {
    /// What holds of the `Authorization` header of a request under these
    /// credentials, for a given nonce and a given time: a user's request
    /// is signed, the application's carries the token whatever the
    /// request is.
    pub open spec fn authorizes(
        self,
        header: Option<String>,
        method: Seq<char>,
        uri: Seq<char>,
        options: Seq<(Seq<char>, Seq<char>)>,
        nonce: Seq<char>,
        timestamp: int,
    ) -> bool {
        match self {
            Credentials::OAuth1(user) => signed_with(
                header,
                user.signing_key(),
                user.consumer_key(),
                user.token_param(),
                method,
                uri,
                options,
                nonce,
                timestamp,
            ),
            Credentials::OAuth2(application) => header matches Some(value) && value@
                == "Bearer "@ + application.bearer_token(),
        }
    }

    /// The value of the `Authorization` header of a request, for a given
    /// nonce and a given time.
    pub fn authorization_with(
        &self,
        method: &str,
        uri: &str,
        options: &Vec<(&str, &str)>,
        nonce: &str,
        timestamp: i64,
    ) -> (header: Option<String>)
        ensures
            self.authorizes(header, method@, uri@, str_pairs(options@), nonce@, timestamp as int),
    {
        match self {
            Credentials::OAuth1(user) => user.authorization_with(
                method,
                uri,
                options,
                nonce,
                timestamp,
            ),
            Credentials::OAuth2(application) => Some(application.authorization()),
        }
    }

    /// What holds of the `Authorization` header of a request under these
    /// credentials, computed with a nonce drawn then and the time read
    /// then.
    pub open spec fn authorizes_afresh(
        self,
        header: Option<String>,
        method: Seq<char>,
        uri: Seq<char>,
        options: Seq<(Seq<char>, Seq<char>)>,
    ) -> bool {
        match self {
            Credentials::OAuth1(user) => signed_afresh(
                header,
                user.signing_key(),
                user.consumer_key(),
                user.token_param(),
                method,
                uri,
                options,
            ),
            Credentials::OAuth2(application) => header matches Some(value) && value@
                == "Bearer "@ + application.bearer_token(),
        }
    }

    /// The value of the `Authorization` header of a request, with a nonce
    /// drawn now and the time read now.
    pub fn authorization(&self, method: &str, uri: &str, options: &Vec<(&str, &str)>) -> (header:
        Option<String>)
        ensures
            self.authorizes_afresh(header, method@, uri@, str_pairs(options@)),
    {
        match self {
            Credentials::OAuth1(user) => user.authorization(method, uri, options),
            Credentials::OAuth2(application) => Some(application.authorization()),
        }
    }

    /// What holds of a request made ready under these credentials, with
    /// a nonce drawn then and the time read then.
    pub open spec fn prepares_afresh(
        self,
        request: Option<PreparedRequest>,
        method: Seq<char>,
        uri: Seq<char>,
        query_options: Seq<(Seq<char>, Seq<char>)>,
        form_options: Seq<(Seq<char>, Seq<char>)>,
    ) -> bool {
        match self {
            Credentials::OAuth1(user) => exists|nonce: Seq<char>, timestamp: int|
                is_nonce(nonce) && #[trigger] user.prepares(
                    request,
                    method,
                    uri,
                    query_options,
                    form_options,
                    nonce,
                    timestamp,
                ),
            Credentials::OAuth2(application) => {
                &&& request matches Some(ready)
                &&& ready.carries(uri, query_options, form_options)
                &&& ready.authorization@ == "Bearer "@ + application.bearer_token()
            },
        }
    }

    /// Makes a request ready to send, with a nonce drawn now and the time
    /// read now.
    pub fn prepare(
        &self,
        method: &str,
        uri: &str,
        query_options: &Vec<(&str, &str)>,
        form_options: &Vec<(&str, &str)>,
    ) -> (request: Option<PreparedRequest>)
        ensures
            self.prepares_afresh(
                request,
                method@,
                uri@,
                str_pairs(query_options@),
                str_pairs(form_options@),
            ),
    {
        match self {
            Credentials::OAuth1(user) => user.prepare(method, uri, query_options, form_options),
            Credentials::OAuth2(application) => Some(
                application.prepare(uri, query_options, form_options),
            ),
        }
    }
}

} // verus!
