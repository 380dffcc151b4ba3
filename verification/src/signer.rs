//! OAuth1 request signing: the signature base string, the HMAC-SHA1
//! signature over it, and the value of the `Authorization` header.
use vstd::prelude::*;
use vstd::string::*;
use vstd::utf8::encode_utf8;
use crate::digest::{
    base64_encode,
    base64_text,
    fits_mac,
    hmac_sha1,
    hmac_sha1_code,
    MAX_MAC_INPUT,
};
use crate::nonce::{clock_seconds, fresh_nonce, is_nonce};
use crate::params::{
    canonical_order,
    encoded_params,
    lemma_canonical_order,
    param_le,
    param_order,
    sort_params,
};
use crate::percent::{percent_encode, percent_encoded};
use crate::text::{
    ascii_upper,
    join_texts,
    joined,
    lemma_split,
    pairs_view,
    signed_decimal,
    signed_decimal_string,
    split,
    split_text,
    texts,
    to_ascii_upper,
};

verus! {

/// The texts of a list of borrowed name and value pairs.
pub open spec fn str_pairs(pairs: Seq<(&str, &str)>) -> Seq<(Seq<char>, Seq<char>)> {
    Seq::new(pairs.len(), |i: int| (pairs[i].0@, pairs[i].1@))
}

/// A parameter as it stands in the parameter string: `name=value`.
pub open spec fn name_value(param: (Seq<char>, Seq<char>)) -> Seq<char> {
    param.0 + seq!['='] + param.1
}

/// A parameter as it stands in the header: `name="value"`.
pub open spec fn quoted(param: (Seq<char>, Seq<char>)) -> Seq<char> {
    param.0 + seq!['=', '"'] + param.1 + seq!['"']
}

/// The parameter string: the parameters percent-encoded, put in canonical
/// order and joined as `name=value` by `&`.
pub open spec fn parameter_string(params: Seq<(Seq<char>, Seq<char>)>) -> Seq<char> {
    let ordered = canonical_order(encoded_params(params));
    joined(Seq::new(ordered.len(), |i: int| name_value(ordered[i])), seq!['&'])
}

/// The parameters as they are sent in a query or in the body of a form:
/// percent-encoded and joined as `name=value` by `&`, in the order given.
pub open spec fn form_encoded(params: Seq<(Seq<char>, Seq<char>)>) -> Seq<char> {
    let encoded = encoded_params(params);
    joined(Seq::new(encoded.len(), |i: int| name_value(encoded[i])), seq!['&'])
}

/// The URI without its query string: what stands before the first `?`.
pub open spec fn base_uri(uri: Seq<char>) -> Seq<char> {
    split(uri, '?')[0]
}

/// The signature base string: the method in upper case, the encoded URI
/// without its query string, and the encoded parameter string, joined by
/// `&`.
pub open spec fn signature_base_string(
    method: Seq<char>,
    uri: Seq<char>,
    params: Seq<(Seq<char>, Seq<char>)>,
) -> Seq<char> {
    ascii_upper(method) + seq!['&'] + percent_encoded(base_uri(uri)) + seq!['&']
        + percent_encoded(parameter_string(params))
}

/// The key of the signature: the two secrets, encoded and joined by `&`.
/// The token secret is empty where there is no token yet.
pub open spec fn signing_key(consumer_secret: Seq<char>, token_secret: Seq<char>) -> Seq<char> {
    percent_encoded(consumer_secret) + seq!['&'] + percent_encoded(token_secret)
}

/// The signature: the HMAC-SHA1 code of the base string under the signing
/// key, as base64 text.
pub open spec fn signature(signing_key: Seq<char>, base_string: Seq<char>) -> Seq<char> {
    base64_text(hmac_sha1_code(encode_utf8(signing_key), encode_utf8(base_string)))
}

/// The five parameters that every signed request carries.
pub open spec fn oauth_params(consumer_key: Seq<char>, nonce: Seq<char>, timestamp: int) -> Seq<
    (Seq<char>, Seq<char>),
> {
    seq![
        ("oauth_consumer_key"@, consumer_key),
        ("oauth_nonce"@, nonce),
        ("oauth_signature_method"@, "HMAC-SHA1"@),
        ("oauth_timestamp"@, signed_decimal(timestamp)),
        ("oauth_version"@, "1.0"@),
    ]
}

/// The parameters that are signed: those of every request, the header
/// parameters of the caller, and the parameters of the query and the
/// body.
pub open spec fn signed_params(
    consumer_key: Seq<char>,
    header_params: Seq<(Seq<char>, Seq<char>)>,
    request_params: Seq<(Seq<char>, Seq<char>)>,
    nonce: Seq<char>,
    timestamp: int,
) -> Seq<(Seq<char>, Seq<char>)> {
    oauth_params(consumer_key, nonce, timestamp) + header_params + request_params
}

/// The parameters of the header, in the order in which they stand there:
/// those of every request with the signature among them, then the header
/// parameters of the caller. The parameters of the query and the body
/// are not among them.
pub open spec fn header_params_with(
    consumer_key: Seq<char>,
    header_params: Seq<(Seq<char>, Seq<char>)>,
    nonce: Seq<char>,
    timestamp: int,
    signature: Seq<char>,
) -> Seq<(Seq<char>, Seq<char>)> {
    seq![
        ("oauth_consumer_key"@, consumer_key),
        ("oauth_nonce"@, nonce),
        ("oauth_signature"@, signature),
        ("oauth_signature_method"@, "HMAC-SHA1"@),
        ("oauth_timestamp"@, signed_decimal(timestamp)),
        ("oauth_version"@, "1.0"@),
    ] + header_params
}

/// The header value for given parameters: `OAuth`, a space, and the
/// parameters percent-encoded and joined as `name="value"` by a comma and
/// a space.
pub open spec fn header_value(params: Seq<(Seq<char>, Seq<char>)>) -> Seq<char> {
    let encoded = encoded_params(params);
    seq!['O', 'A', 'u', 't', 'h', ' '] + joined(
        Seq::new(encoded.len(), |i: int| quoted(encoded[i])),
        seq![',', ' '],
    )
}

/// The value of the `Authorization` header of a request.
pub open spec fn authorization(
    signing_key: Seq<char>,
    consumer_key: Seq<char>,
    header_params: Seq<(Seq<char>, Seq<char>)>,
    method: Seq<char>,
    uri: Seq<char>,
    request_params: Seq<(Seq<char>, Seq<char>)>,
    nonce: Seq<char>,
    timestamp: int,
) -> Seq<char> {
    let base_string = signature_base_string(
        method,
        uri,
        signed_params(consumer_key, header_params, request_params, nonce, timestamp),
    );
    header_value(
        header_params_with(
            consumer_key,
            header_params,
            nonce,
            timestamp,
            signature(signing_key, base_string),
        ),
    )
}

fn push_encoded(list: &mut Vec<(String, String)>, name: &str, value: &str)
    ensures
        pairs_view(final(list)@) == pairs_view(old(list)@).push(
            (percent_encoded(name@), percent_encoded(value@)),
        ),
{
    list.push((percent_encode(name), percent_encode(value)));
    assert(pairs_view(list@) =~= pairs_view(old(list)@).push(
        (percent_encoded(name@), percent_encoded(value@)),
    ));
}

fn push_encoded_all(list: &mut Vec<(String, String)>, params: &Vec<(&str, &str)>)
    ensures
        pairs_view(final(list)@) == pairs_view(old(list)@) + encoded_params(str_pairs(params@)),
{
    let mut i: usize = 0;
    let ghost added = encoded_params(str_pairs(params@));
    assert(pairs_view(list@) =~= pairs_view(old(list)@) + added.take(0));
    while i < params.len()
        invariant
            i <= params.len(),
            added == encoded_params(str_pairs(params@)),
            pairs_view(list@) == pairs_view(old(list)@) + added.take(i as int),
        decreases params.len() - i,
    {
        push_encoded(list, params[i].0, params[i].1);
        assert(pairs_view(list@) =~= pairs_view(old(list)@) + added.take(i + 1)) by {
            assert(added.take(i + 1) =~= added.take(i as int).push(added[i as int]));
        }
        i += 1;
    }
    assert(added.take(params@.len() as int) =~= added);
}

/// Renders each parameter as `name=value`, or as `name="value"`.
fn render(params: &Vec<(String, String)>, quotes: bool) -> (items: Vec<String>)
    ensures
        texts(items@) == Seq::new(
            params@.len(),
            |i: int|
                if quotes {
                    quoted(pairs_view(params@)[i])
                } else {
                    name_value(pairs_view(params@)[i])
                },
        ),
{
    let mut items: Vec<String> = Vec::new();
    let mut i: usize = 0;
    let ghost all = Seq::new(
        params@.len(),
        |i: int|
            if quotes {
                quoted(pairs_view(params@)[i])
            } else {
                name_value(pairs_view(params@)[i])
            },
    );
    assert(texts(items@) =~= all.take(0));
    while i < params.len()
        invariant
            i <= params.len(),
            all == Seq::new(
                params@.len(),
                |i: int|
                    if quotes {
                        quoted(pairs_view(params@)[i])
                    } else {
                        name_value(pairs_view(params@)[i])
                    },
            ),
            texts(items@) == all.take(i as int),
        decreases params.len() - i,
    {
        let mut item = params[i].0.clone();
        proof {
            reveal_strlit("=");
            reveal_strlit("=\"");
            reveal_strlit("\"");
        }
        if quotes {
            item.append("=\"");
            item.append(params[i].1.as_str());
            item.append("\"");
            assert(item@ =~= quoted(pairs_view(params@)[i as int]));
        } else {
            item.append("=");
            item.append(params[i].1.as_str());
            assert(item@ =~= name_value(pairs_view(params@)[i as int]));
        }
        let ghost before = texts(items@);
        items.push(item);
        assert(texts(items@) =~= before.push(all[i as int]));
        assert(all.take(i + 1) =~= all.take(i as int).push(all[i as int]));
        i += 1;
    }
    assert(all.take(params@.len() as int) =~= all);
    items
}

/// Renders parameters for a query or for the body of a form.
pub fn encode_form(params: &Vec<(&str, &str)>) -> (text: String)
    ensures
        text@ == form_encoded(str_pairs(params@)),
{
    let mut encoded: Vec<(String, String)> = Vec::new();
    push_encoded_all(&mut encoded, params);
    assert(pairs_view(encoded@) =~= encoded_params(str_pairs(params@)));
    let items = render(&encoded, false);
    let text = join_texts(&items, "&");
    proof {
        reveal_strlit("&");
        let all = encoded_params(str_pairs(params@));
        assert(texts(items@) =~= Seq::new(all.len(), |i: int| name_value(all[i])));
        assert("&"@ =~= seq!['&']);
    }
    text
}

/// The URI of a request with its query: the URI alone where there are no
/// parameters, else the URI, `?` and the parameters as `form_encoded`
/// gives them.
pub open spec fn uri_with_query(uri: Seq<char>, params: Seq<(Seq<char>, Seq<char>)>) -> Seq<
    char,
> {
    if params.len() == 0 {
        uri
    } else {
        uri + seq!['?'] + form_encoded(params)
    }
}

/// Appends the query of a request to its URI.
pub fn add_query(uri: &str, params: &Vec<(&str, &str)>) -> (full: String)
    ensures
        full@ == uri_with_query(uri@, str_pairs(params@)),
{
    let mut full = String::from_str(uri);
    if params.len() > 0 {
        proof {
            reveal_strlit("?");
        }
        full.append("?");
        full.append(encode_form(params).as_str());
        assert(full@ =~= uri@ + seq!['?'] + form_encoded(str_pairs(params@)));
    }
    full
}

/// Makes the key of the signature out of the two secrets.
pub fn make_signing_key(consumer_secret: &str, token_secret: &str) -> (key: String)
    ensures
        key@ == signing_key(consumer_secret@, token_secret@),
{
    let mut key = percent_encode(consumer_secret);
    proof {
        reveal_strlit("&");
    }
    key.append("&");
    key.append(percent_encode(token_secret).as_str());
    assert(key@ =~= signing_key(consumer_secret@, token_secret@));
    key
}

fn push_oauth_params(
    list: &mut Vec<(String, String)>,
    consumer_key: &str,
    nonce: &str,
    timestamp: i64,
    signature: Option<&str>,
)
    ensures
        pairs_view(final(list)@) == pairs_view(old(list)@) + encoded_params(
            match signature {
                Some(text) => header_params_with(
                    consumer_key@,
                    Seq::empty(),
                    nonce@,
                    timestamp as int,
                    text@,
                ),
                None => oauth_params(consumer_key@, nonce@, timestamp as int),
            },
        ),
{
    let ghost added = match signature {
        Some(text) => header_params_with(
            consumer_key@,
            Seq::empty(),
            nonce@,
            timestamp as int,
            text@,
        ),
        None => oauth_params(consumer_key@, nonce@, timestamp as int),
    };
    push_encoded(list, "oauth_consumer_key", consumer_key);
    push_encoded(list, "oauth_nonce", nonce);
    match signature {
        Some(text) => {
            push_encoded(list, "oauth_signature", text);
        },
        None => {},
    }
    push_encoded(list, "oauth_signature_method", "HMAC-SHA1");
    push_encoded(list, "oauth_timestamp", signed_decimal_string(timestamp).as_str());
    push_encoded(list, "oauth_version", "1.0");
    assert(pairs_view(list@) =~= pairs_view(old(list)@) + encoded_params(added));
}

/// Builds the signature base string of a request.
pub fn build_base_string(
    consumer_key: &str,
    header_params: &Vec<(&str, &str)>,
    method: &str,
    uri: &str,
    request_params: &Vec<(&str, &str)>,
    nonce: &str,
    timestamp: i64,
) -> (base_string: String)
    ensures
        base_string@ == signature_base_string(
            method@,
            uri@,
            signed_params(
                consumer_key@,
                str_pairs(header_params@),
                str_pairs(request_params@),
                nonce@,
                timestamp as int,
            ),
        ),
{
    let ghost params = signed_params(
        consumer_key@,
        str_pairs(header_params@),
        str_pairs(request_params@),
        nonce@,
        timestamp as int,
    );
    let mut encoded: Vec<(String, String)> = Vec::new();
    push_oauth_params(&mut encoded, consumer_key, nonce, timestamp, None);
    push_encoded_all(&mut encoded, header_params);
    push_encoded_all(&mut encoded, request_params);
    assert(pairs_view(encoded@) =~= encoded_params(params));
    let ordered = sort_params(&encoded);
    let items = render(&ordered, false);
    let parameters = join_texts(&items, "&");
    proof {
        reveal_strlit("&");
        let in_order = canonical_order(encoded_params(params));
        assert(texts(items@) =~= Seq::new(in_order.len(), |i: int| name_value(in_order[i])));
        assert("&"@ =~= seq!['&']);
        assert(parameters@ == parameter_string(params));
    }
    let pieces = split_text(uri, '?');
    proof {
        lemma_split(uri@, '?');
        assert(texts(pieces@)[0] == pieces@[0]@);
    }
    let mut base_string = to_ascii_upper(method);
    base_string.append("&");
    base_string.append(percent_encode(pieces[0].as_str()).as_str());
    base_string.append("&");
    base_string.append(percent_encode(parameters.as_str()).as_str());
    assert(base_string@ =~= signature_base_string(method@, uri@, params));
    base_string
}

/// Signs a base string: the HMAC-SHA1 code under the signing key, in
/// base64.
pub fn sign_base_string(signing_key: &str, base_string: &str) -> (text: String)
    requires
        fits_mac(signing_key@),
        fits_mac(base_string@),
    ensures
        text@ == signature(signing_key@, base_string@),
{
    let code = hmac_sha1(signing_key.as_bytes(), base_string.as_bytes());
    base64_encode(code.as_slice())
}

/// Builds the value of the `Authorization` header around a signature
/// that was computed before.
pub fn build_header(
    consumer_key: &str,
    header_params: &Vec<(&str, &str)>,
    nonce: &str,
    timestamp: i64,
    signature: &str,
) -> (header: String)
    ensures
        header@ == header_value(
            header_params_with(
                consumer_key@,
                str_pairs(header_params@),
                nonce@,
                timestamp as int,
                signature@,
            ),
        ),
{
    let ghost params = header_params_with(
        consumer_key@,
        str_pairs(header_params@),
        nonce@,
        timestamp as int,
        signature@,
    );
    let mut encoded: Vec<(String, String)> = Vec::new();
    push_oauth_params(&mut encoded, consumer_key, nonce, timestamp, Some(signature));
    push_encoded_all(&mut encoded, header_params);
    assert(pairs_view(encoded@) =~= encoded_params(params));
    let items = render(&encoded, true);
    let list = join_texts(&items, ", ");
    let mut header = String::from_str("OAuth ");
    header.append(list.as_str());
    proof {
        reveal_strlit(", ");
        reveal_strlit("OAuth ");
        let all = encoded_params(params);
        assert(texts(items@) =~= Seq::new(all.len(), |i: int| quoted(all[i])));
        assert(", "@ =~= seq![',', ' ']);
        assert("OAuth "@ =~= seq!['O', 'A', 'u', 't', 'h', ' ']);
        assert(header@ =~= header_value(params));
    }
    header
}

/// What holds of a header value computed for a given nonce and a given
/// time: it is the value that `authorization` gives, and it is `None`
/// exactly where the key or the base string is too long for the
/// authentication code.
pub open spec fn signed_with(
    header: Option<String>,
    signing_key: Seq<char>,
    consumer_key: Seq<char>,
    header_params: Seq<(Seq<char>, Seq<char>)>,
    method: Seq<char>,
    uri: Seq<char>,
    request_params: Seq<(Seq<char>, Seq<char>)>,
    nonce: Seq<char>,
    timestamp: int,
) -> bool {
    let base_string = signature_base_string(
        method,
        uri,
        signed_params(consumer_key, header_params, request_params, nonce, timestamp),
    );
    match header {
        Some(value) => {
            &&& fits_mac(signing_key)
            &&& fits_mac(base_string)
            &&& value@ == authorization(
                signing_key,
                consumer_key,
                header_params,
                method,
                uri,
                request_params,
                nonce,
                timestamp,
            )
        },
        None => !fits_mac(signing_key) || !fits_mac(base_string),
    }
}

/// What holds of a header value computed with a nonce drawn then and the
/// time read then: for some nonce and some time, what `signed_with`
/// says.
pub open spec fn signed_afresh(
    header: Option<String>,
    signing_key: Seq<char>,
    consumer_key: Seq<char>,
    header_params: Seq<(Seq<char>, Seq<char>)>,
    method: Seq<char>,
    uri: Seq<char>,
    request_params: Seq<(Seq<char>, Seq<char>)>,
) -> bool {
    exists|nonce: Seq<char>, timestamp: int|
        is_nonce(nonce) && #[trigger] signed_with(
            header,
            signing_key,
            consumer_key,
            header_params,
            method,
            uri,
            request_params,
            nonce,
            timestamp,
        )
}

/// Computes the value of the `Authorization` header of a request, for a
/// given nonce and a given time.
///
/// `header_params` go into the signature and into the header;
/// `request_params`, the parameters of the query and the body, go into the
/// signature only. The result is `None` where the key or the base string
/// is too long for the authentication code.
pub fn sign_with(
    signing_key: &str,
    consumer_key: &str,
    header_params: &Vec<(&str, &str)>,
    method: &str,
    uri: &str,
    request_params: &Vec<(&str, &str)>,
    nonce: &str,
    timestamp: i64,
) -> (header: Option<String>)
    ensures
        signed_with(
            header,
            signing_key@,
            consumer_key@,
            str_pairs(header_params@),
            method@,
            uri@,
            str_pairs(request_params@),
            nonce@,
            timestamp as int,
        ),
{
    let base_string = build_base_string(
        consumer_key,
        header_params,
        method,
        uri,
        request_params,
        nonce,
        timestamp,
    );
    if signing_key.as_bytes().len() as u64 > MAX_MAC_INPUT || base_string.as_str().as_bytes().len()
        as u64 > MAX_MAC_INPUT {
        return None;
    }
    let signature = sign_base_string(signing_key, base_string.as_str());
    Some(build_header(consumer_key, header_params, nonce, timestamp, signature.as_str()))
}

/// Computes the value of the `Authorization` header of a request, with a
/// nonce drawn now and the time read now.
pub fn sign(
    signing_key: &str,
    consumer_key: &str,
    header_params: &Vec<(&str, &str)>,
    method: &str,
    uri: &str,
    request_params: &Vec<(&str, &str)>,
) -> (header: Option<String>)
    ensures
        signed_afresh(
            header,
            signing_key@,
            consumer_key@,
            str_pairs(header_params@),
            method@,
            uri@,
            str_pairs(request_params@),
        ),
{
    let nonce = fresh_nonce();
    let timestamp = clock_seconds();
    sign_with(
        signing_key,
        consumer_key,
        header_params,
        method,
        uri,
        request_params,
        nonce.as_str(),
        timestamp,
    )
}

/// The parameter string holds every signed parameter once for each time
/// it occurs, in ascending order of encoded name and encoded value.
/// Putting its parameters in order again changes nothing.
pub proof fn lemma_parameter_string_is_ordered(params: Seq<(Seq<char>, Seq<char>)>)
    ensures
        ({
            let ordered = canonical_order(encoded_params(params));
            &&& parameter_string(params) == joined(
                Seq::new(ordered.len(), |i: int| name_value(ordered[i])),
                seq!['&'],
            )
            &&& ordered.len() == params.len()
            &&& ordered.to_multiset() == encoded_params(params).to_multiset()
            &&& forall|i: int, j: int|
                0 <= i < j < ordered.len() ==> #[trigger] param_le(ordered[i], ordered[j])
            &&& canonical_order(ordered) == ordered
        }),
{
    let ordered = canonical_order(encoded_params(params));
    lemma_canonical_order(encoded_params(params));
    assert forall|i: int, j: int| 0 <= i < j < ordered.len() implies #[trigger] param_le(
        ordered[i],
        ordered[j],
    ) by {
        assert(param_order()(ordered[i], ordered[j]));
    }
}

/// Signing is a function of its arguments: with the nonce and the time
/// given, two header values computed for the same request are the same.
pub proof fn lemma_signing_is_deterministic(
    first: Option<String>,
    second: Option<String>,
    signing_key: Seq<char>,
    consumer_key: Seq<char>,
    header_params: Seq<(Seq<char>, Seq<char>)>,
    method: Seq<char>,
    uri: Seq<char>,
    request_params: Seq<(Seq<char>, Seq<char>)>,
    nonce: Seq<char>,
    timestamp: int,
)
    requires
        signed_with(
            first,
            signing_key,
            consumer_key,
            header_params,
            method,
            uri,
            request_params,
            nonce,
            timestamp,
        ),
        signed_with(
            second,
            signing_key,
            consumer_key,
            header_params,
            method,
            uri,
            request_params,
            nonce,
            timestamp,
        ),
    ensures
        first is Some <==> second is Some,
        first is Some ==> first->0@ == second->0@,
{
}

} // verus!
