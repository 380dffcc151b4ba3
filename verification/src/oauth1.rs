//! User Authentication OAuth1: the two token exchanges.
use vstd::prelude::*;
use vstd::string::*;
use crate::signer::{
    make_signing_key,
    sign,
    sign_with,
    signed_afresh,
    signed_with,
    signing_key,
    str_pairs,
};
use crate::text::{lemma_split, split, split_text, text_eq, texts};
use crate::{success_status, text_of, TwapiError};

verus! {

/// Where a request token is asked for.
pub const REQUEST_TOKEN_URI: &'static str = "https://api.twitter.com/oauth/request_token";

/// Where a request token is exchanged for an access token.
pub const ACCESS_TOKEN_URI: &'static str = "https://api.twitter.com/oauth/access_token";

/// The name of an item `name=value` of a form body: what stands before
/// the first `=`.
pub open spec fn item_name(item: Seq<char>) -> Seq<char> {
    split(item, '=')[0]
}

/// The value of an item `name=value` of a form body: what stands between
/// the first `=` and the second, or the end. It is empty where the item
/// has no `=`.
pub open spec fn item_value(item: Seq<char>) -> Seq<char> {
    let parts = split(item, '=');
    if parts.len() > 1 {
        parts[1]
    } else {
        Seq::empty()
    }
}

/// The value of the last of `items` with the name `name`.
pub open spec fn last_value(items: Seq<Seq<char>>, name: Seq<char>) -> Option<Seq<char>>
    decreases items.len(),
{
    if items.len() == 0 {
        None
    } else if item_name(items.last()) == name {
        Some(item_value(items.last()))
    } else {
        last_value(items.drop_last(), name)
    }
}

/// `last_value` is `Some` exactly where an item has the name, and holds
/// the value of the last item that has it.
pub proof fn lemma_last_value(items: Seq<Seq<char>>, name: Seq<char>)
    ensures
        match last_value(items, name) {
            Some(value) => exists|i: int|
                {
                    &&& 0 <= i < items.len()
                    &&& item_name(#[trigger] items[i]) == name
                    &&& value == item_value(items[i])
                    &&& forall|j: int| i < j < items.len() ==> item_name(#[trigger] items[j]) != name
                },
            None => forall|i: int| 0 <= i < items.len() ==> item_name(#[trigger] items[i]) != name,
        },
    decreases items.len(),
{
    if items.len() > 0 {
        let front = items.drop_last();
        if item_name(items.last()) == name {
            let i = items.len() - 1;
            assert(item_name(items[i]) == name);
        } else {
            lemma_last_value(front, name);
            match last_value(front, name) {
                Some(value) => {
                    let i = choose|i: int|
                        {
                            &&& 0 <= i < front.len()
                            &&& item_name(#[trigger] front[i]) == name
                            &&& value == item_value(front[i])
                            &&& forall|j: int|
                                i < j < front.len() ==> item_name(#[trigger] front[j]) != name
                        };
                    assert(items[i] == front[i]);
                    assert forall|j: int| i < j < items.len() implies item_name(
                        #[trigger] items[j],
                    ) != name by {
                        if j < front.len() {
                            assert(items[j] == front[j]);
                        }
                    }
                },
                None => {
                    assert forall|i: int| 0 <= i < items.len() implies item_name(
                        #[trigger] items[i],
                    ) != name by {
                        if i < front.len() {
                            assert(items[i] == front[i]);
                        }
                    }
                },
            }
        }
    }
}

/// The value of the field `name` in a form body `a=b&c=d`. Where the name
/// occurs more than once, the last occurrence counts. Nothing is
/// percent-decoded.
pub open spec fn form_value(body: Seq<char>, name: Seq<char>) -> Option<Seq<char>> {
    last_value(split(body, '&'), name)
}

/// Looks up the field `name` of a form body.
pub fn find_form_value(body: &str, name: &str) -> (value: Option<String>)
    ensures
        match form_value(body@, name@) {
            Some(text) => value matches Some(found) && found@ == text,
            None => value is None,
        },
{
    let items = split_text(body, '&');
    let mut value: Option<String> = None;
    let mut i: usize = 0;
    assert(texts(items@).take(0) =~= Seq::<Seq<char>>::empty());
    while i < items.len()
        invariant
            i <= items.len(),
            texts(items@) == split(body@, '&'),
            match last_value(texts(items@).take(i as int), name@) {
                Some(text) => value matches Some(found) && found@ == text,
                None => value is None,
            },
        decreases items.len() - i,
    {
        let parts = split_text(items[i].as_str(), '=');
        proof {
            lemma_split(items@[i as int]@, '=');
            let seen = texts(items@).take(i + 1);
            assert(seen.drop_last() =~= texts(items@).take(i as int));
            assert(seen.last() == items@[i as int]@);
            assert(texts(parts@)[0] == parts@[0]@);
        }
        if text_eq(parts[0].as_str(), name) {
            if parts.len() > 1 {
                assert(texts(parts@)[1] == parts@[1]@);
                value = Some(parts[1].clone());
            } else {
                value = Some(String::new());
            }
        }
        i += 1;
    }
    assert(texts(items@).take(items@.len() as int) =~= texts(items@));
    value
}

/// The page on which the user grants access, for the request token
/// `oauth_token`.
pub open spec fn authorize_uri(oauth_token: Seq<char>) -> Seq<char> {
    "http://api.twitter.com/oauth/authorize?oauth_token="@ + oauth_token
}

/// OAuth requet token
/// Return oauth_token, oauth_token_secret, uri
///
/// Takes the status and the body of the response to the request. A status
/// outside 200..300 is an error that carries the status and the body. A
/// body without `oauth_token` or `oauth_token_secret` is an error too.
pub fn request_token(status_code: u16, body: &str) -> (result: Result<
    (String, String, String),
    TwapiError,
>)
    ensures
        match result {
            Ok((oauth_token, oauth_token_secret, uri)) => {
                &&& success_status(status_code)
                &&& form_value(body@, "oauth_token"@) == Some(oauth_token@)
                &&& form_value(body@, "oauth_token_secret"@) == Some(oauth_token_secret@)
                &&& uri@ == authorize_uri(oauth_token@)
            },
            Err(TwapiError::Token((code, text))) => {
                &&& !success_status(status_code)
                &&& code == status_code
                &&& text@ == body@
            },
            Err(TwapiError::NotExists) => {
                &&& success_status(status_code)
                &&& (form_value(body@, "oauth_token"@) is None || form_value(
                    body@,
                    "oauth_token_secret"@,
                ) is None)
            },
            Err(_) => false,
        },
{
    if !(200 <= status_code && status_code < 300) {
        return Err(TwapiError::Token((status_code, String::from_str(body))));
    }
    let oauth_token = match find_form_value(body, "oauth_token") {
        Some(oauth_token) => oauth_token,
        None => {
            return Err(TwapiError::NotExists);
        },
    };
    let oauth_token_secret = match find_form_value(body, "oauth_token_secret") {
        Some(oauth_token_secret) => oauth_token_secret,
        None => {
            return Err(TwapiError::NotExists);
        },
    };
    let mut uri = String::from_str("http://api.twitter.com/oauth/authorize?oauth_token=");
    uri.append(oauth_token.as_str());
    Ok((oauth_token, oauth_token_secret, uri))
}

/// OAuth access token
/// Return oauth_token, oauth_token_secret, user_id, screen_name
///
/// Takes the status and the body of the response to the request. A status
/// outside 200..300 is an error that carries the status and the body. A
/// body that lacks one of the four fields is an error too.
pub fn access_token(status_code: u16, body: &str) -> (result: Result<
    (String, String, String, String),
    TwapiError,
>)
    ensures
        match result {
            Ok((oauth_token, oauth_token_secret, user_id, screen_name)) => {
                &&& success_status(status_code)
                &&& form_value(body@, "oauth_token"@) == Some(oauth_token@)
                &&& form_value(body@, "oauth_token_secret"@) == Some(oauth_token_secret@)
                &&& form_value(body@, "user_id"@) == Some(user_id@)
                &&& form_value(body@, "screen_name"@) == Some(screen_name@)
            },
            Err(TwapiError::Token((code, text))) => {
                &&& !success_status(status_code)
                &&& code == status_code
                &&& text@ == body@
            },
            Err(TwapiError::NotExists) => {
                &&& success_status(status_code)
                &&& (form_value(body@, "oauth_token"@) is None || form_value(
                    body@,
                    "oauth_token_secret"@,
                ) is None || form_value(body@, "user_id"@) is None || form_value(
                    body@,
                    "screen_name"@,
                ) is None)
            },
            Err(_) => false,
        },
{
    if !(200 <= status_code && status_code < 300) {
        return Err(TwapiError::Token((status_code, String::from_str(body))));
    }
    let oauth_token = match find_form_value(body, "oauth_token") {
        Some(oauth_token) => oauth_token,
        None => {
            return Err(TwapiError::NotExists);
        },
    };
    let oauth_token_secret = match find_form_value(body, "oauth_token_secret") {
        Some(oauth_token_secret) => oauth_token_secret,
        None => {
            return Err(TwapiError::NotExists);
        },
    };
    let user_id = match find_form_value(body, "user_id") {
        Some(user_id) => user_id,
        None => {
            return Err(TwapiError::NotExists);
        },
    };
    let screen_name = match find_form_value(body, "screen_name") {
        Some(screen_name) => screen_name,
        None => {
            return Err(TwapiError::NotExists);
        },
    };
    Ok((oauth_token, oauth_token_secret, user_id, screen_name))
}

/// The header parameters of a request for a request token: the callback
/// and, where it is given, the access type.
pub open spec fn request_token_params(
    oauth_callback: Seq<char>,
    x_auth_access_type: Option<Seq<char>>,
) -> Seq<(Seq<char>, Seq<char>)> {
    match x_auth_access_type {
        Some(access_type) => seq![
            ("oauth_callback"@, oauth_callback),
            ("x_auth_access_type"@, access_type),
        ],
        None => seq![("oauth_callback"@, oauth_callback)],
    }
}

/// The header parameters of a request for an access token: the request
/// token and the verifier.
pub open spec fn access_token_params(oauth_token: Seq<char>, oauth_verifier: Seq<char>) -> Seq<
    (Seq<char>, Seq<char>),
> {
    seq![("oauth_token"@, oauth_token), ("oauth_verifier"@, oauth_verifier)]
}

fn request_token_options<'a>(oauth_callback: &'a str, x_auth_access_type: Option<&'a str>) -> (options:
    Vec<(&'a str, &'a str)>)
    ensures
        str_pairs(options@) == request_token_params(oauth_callback@, text_of(x_auth_access_type)),
{
    let mut options: Vec<(&str, &str)> = vec![("oauth_callback", oauth_callback)];
    match x_auth_access_type {
        Some(access_type) => {
            options.push(("x_auth_access_type", access_type));
        },
        None => {},
    }
    assert(str_pairs(options@) =~= request_token_params(
        oauth_callback@,
        text_of(x_auth_access_type),
    ));
    options
}

/// The value of the `Authorization` header of the request for a request
/// token, a POST without parameters to
/// `https://api.twitter.com/oauth/request_token`, for a given nonce and a
/// given time. There is no token yet, so the token secret is empty. The
/// result is `None` where the arguments are too long to be signed.
pub fn request_token_header_with(
    consumer_key: &str,
    consumer_secret: &str,
    oauth_callback: &str,
    x_auth_access_type: Option<&str>,
    nonce: &str,
    timestamp: i64,
) -> (header: Option<String>)
    ensures
        signed_with(
            header,
            signing_key(consumer_secret@, Seq::empty()),
            consumer_key@,
            request_token_params(oauth_callback@, text_of(x_auth_access_type)),
            "POST"@,
            REQUEST_TOKEN_URI@,
            Seq::empty(),
            nonce@,
            timestamp as int,
        ),
{
    let key = make_signing_key(consumer_secret, "");
    let options = request_token_options(oauth_callback, x_auth_access_type);
    let none: Vec<(&str, &str)> = Vec::new();
    proof {
        reveal_strlit("");
        assert(""@ =~= Seq::<char>::empty());
        assert(str_pairs(none@) =~= Seq::<(Seq<char>, Seq<char>)>::empty());
    }
    sign_with(
        key.as_str(),
        consumer_key,
        &options,
        "POST",
        REQUEST_TOKEN_URI,
        &none,
        nonce,
        timestamp,
    )
}

/// The value of the `Authorization` header of the request for a request
/// token, with a nonce drawn now and the time read now.
pub fn request_token_header(
    consumer_key: &str,
    consumer_secret: &str,
    oauth_callback: &str,
    x_auth_access_type: Option<&str>,
) -> (header: Option<String>)
    ensures
        signed_afresh(
            header,
            signing_key(consumer_secret@, Seq::empty()),
            consumer_key@,
            request_token_params(oauth_callback@, text_of(x_auth_access_type)),
            "POST"@,
            REQUEST_TOKEN_URI@,
            Seq::empty(),
        ),
{
    let key = make_signing_key(consumer_secret, "");
    let options = request_token_options(oauth_callback, x_auth_access_type);
    let none: Vec<(&str, &str)> = Vec::new();
    proof {
        reveal_strlit("");
        assert(""@ =~= Seq::<char>::empty());
        assert(str_pairs(none@) =~= Seq::<(Seq<char>, Seq<char>)>::empty());
    }
    sign(
        key.as_str(),
        consumer_key,
        &options,
        "POST",
        REQUEST_TOKEN_URI,
        &none,
    )
}

/// The value of the `Authorization` header of the request for an access
/// token, a POST without parameters to
/// `https://api.twitter.com/oauth/access_token`, for a given nonce and a
/// given time. The request is signed with the secret of the request
/// token. The result is `None` where the arguments are too long to be
/// signed.
pub fn access_token_header_with(
    consumer_key: &str,
    consumer_secret: &str,
    oauth_token: &str,
    oauth_token_secret: &str,
    oauth_verifier: &str,
    nonce: &str,
    timestamp: i64,
) -> (header: Option<String>)
    ensures
        signed_with(
            header,
            signing_key(consumer_secret@, oauth_token_secret@),
            consumer_key@,
            access_token_params(oauth_token@, oauth_verifier@),
            "POST"@,
            ACCESS_TOKEN_URI@,
            Seq::empty(),
            nonce@,
            timestamp as int,
        ),
{
    let key = make_signing_key(consumer_secret, oauth_token_secret);
    let options: Vec<(&str, &str)> = vec![
        ("oauth_token", oauth_token),
        ("oauth_verifier", oauth_verifier),
    ];
    let none: Vec<(&str, &str)> = Vec::new();
    proof {
        assert(str_pairs(options@) =~= access_token_params(oauth_token@, oauth_verifier@));
        assert(str_pairs(none@) =~= Seq::<(Seq<char>, Seq<char>)>::empty());
    }
    sign_with(
        key.as_str(),
        consumer_key,
        &options,
        "POST",
        ACCESS_TOKEN_URI,
        &none,
        nonce,
        timestamp,
    )
}

/// The value of the `Authorization` header of the request for an access
/// token, with a nonce drawn now and the time read now.
pub fn access_token_header(
    consumer_key: &str,
    consumer_secret: &str,
    oauth_token: &str,
    oauth_token_secret: &str,
    oauth_verifier: &str,
) -> (header: Option<String>)
    ensures
        signed_afresh(
            header,
            signing_key(consumer_secret@, oauth_token_secret@),
            consumer_key@,
            access_token_params(oauth_token@, oauth_verifier@),
            "POST"@,
            ACCESS_TOKEN_URI@,
            Seq::empty(),
        ),
{
    let key = make_signing_key(consumer_secret, oauth_token_secret);
    let options: Vec<(&str, &str)> = vec![
        ("oauth_token", oauth_token),
        ("oauth_verifier", oauth_verifier),
    ];
    let none: Vec<(&str, &str)> = Vec::new();
    proof {
        assert(str_pairs(options@) =~= access_token_params(oauth_token@, oauth_verifier@));
        assert(str_pairs(none@) =~= Seq::<(Seq<char>, Seq<char>)>::empty());
    }
    sign(
        key.as_str(),
        consumer_key,
        &options,
        "POST",
        ACCESS_TOKEN_URI,
        &none,
    )
}

} // verus!
