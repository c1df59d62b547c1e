//! Sends an HTTP request.
use vstd::prelude::*;
use vstd::string::*;
use crate::json::{clone_json, json_same, JsonValue};
use crate::operators::registry::{ConfigField, OperatorError, OperatorKind};
use crate::text::str_equals;

verus! {

/// The request methods the HTTP operator sends.
#[derive(Debug, Clone, Copy, PartialEq, Eq, Structural)]
pub enum HttpMethod {
    Get,
    Post,
    Put,
    Delete,
}

/// A request the HTTP operator sends.
#[derive(Debug, Clone)]
pub struct HttpRequest {
    pub method: HttpMethod,
    pub url: String,
    /// JSON body, sent with POST and PUT when configured.
    pub body: Option<JsonValue>,
}

/// The upper-case form of `s` under the Unicode case mapping.
pub uninterp spec fn to_upper_case(s: Seq<char>) -> Seq<char>;

/// `str::to_uppercase`: the Unicode upper-case mapping of `s`, which is a
/// function of `s` alone; the mapping itself is left to the name
/// `to_upper_case`.
#[verifier::external_body]
fn upper_case(s: &str) -> (r: String)
    ensures
        r@ == to_upper_case(s@),
{
    s.to_uppercase()
}

/// The method a configured method name selects: its upper-case form must
/// be GET, POST, PUT or DELETE.
pub open spec fn spec_method(name: Seq<char>) -> Option<HttpMethod> {
    let u = to_upper_case(name);
    if u == "GET"@ {
        Some(HttpMethod::Get)
    } else if u == "POST"@ {
        Some(HttpMethod::Post)
    } else if u == "PUT"@ {
        Some(HttpMethod::Put)
    } else if u == "DELETE"@ {
        Some(HttpMethod::Delete)
    } else {
        None
    }
}

/// A status code that counts as success (2xx).
pub open spec fn is_success_status(status: u16) -> bool {
    200 <= status && status <= 299
}

/// The operator that sends HTTP requests.
pub struct HttpOperator;

impl HttpOperator {
    /// The request that a configuration describes: the `url` string is
    /// required; the `method` string defaults to GET and is taken without
    /// regard to case; a `body` member is sent with POST and PUT.
    pub fn request(config: &JsonValue) -> (r: Result<HttpRequest, OperatorError>)
        ensures
            match config.spec_get_str("url"@) {
                None => r == Err::<HttpRequest, OperatorError>(
                    OperatorError::MissingField { operator: OperatorKind::Http, field: ConfigField::Url },
                ),
                Some(url) => {
                    let name = match config.spec_get_str("method"@) {
                        Some(m) => m,
                        None => "GET"@,
                    };
                    match spec_method(name) {
                        None => r matches Err(OperatorError::UnsupportedHttpMethod(m)) && m@ == name,
                        Some(method) => r matches Ok(req) && req.method == method && req.url@ == url && (
                        if method == HttpMethod::Post || method == HttpMethod::Put {
                            match config.spec_get("body"@) {
                                Some(b) => req.body matches Some(b2) && json_same(b, b2),
                                None => req.body is None,
                            }
                        } else {
                            req.body is None
                        }),
                    }
                },
            },
    {
        let url = match config.get_str("url") {
            Some(u) => u.clone(),
            None => {
                return Err(OperatorError::MissingField { operator: OperatorKind::Http, field: ConfigField::Url });
            },
        };
        let name: String = match config.get_str("method") {
            Some(m) => m.clone(),
            None => String::from_str("GET"),
        };
        let upper = upper_case(name.as_str());
        let method = if str_equals(upper.as_str(), "GET") {
            HttpMethod::Get
        } else if str_equals(upper.as_str(), "POST") {
            HttpMethod::Post
        } else if str_equals(upper.as_str(), "PUT") {
            HttpMethod::Put
        } else if str_equals(upper.as_str(), "DELETE") {
            HttpMethod::Delete
        } else {
            return Err(OperatorError::UnsupportedHttpMethod(name));
        };
        let body = match method {
            HttpMethod::Post | HttpMethod::Put => match config.get("body") {
                Some(b) => Some(clone_json(b)),
                None => None,
            },
            _ => None,
        };
        Ok(HttpRequest { method, url, body })
    }

    /// Judges the response: a 2xx status gives the response text.
    pub fn finish(status: u16, body: String) -> (r: Result<String, OperatorError>)
        ensures
            is_success_status(status) ==> r == Ok::<String, OperatorError>(body),
            !is_success_status(status) ==> r == Err::<String, OperatorError>(
                OperatorError::HttpStatus(status),
            ),
    {
        if 200 <= status && status <= 299 {
            Ok(body)
        } else {
            Err(OperatorError::HttpStatus(status))
        }
    }

    /// The operator's name.
    pub fn name(&self) -> (r: &'static str)
        ensures
            r@ == OperatorKind::Http.spec_name(),
    {
        OperatorKind::Http.name()
    }
}

/// The upper-case name of a request method.
pub open spec fn method_name(m: HttpMethod) -> Seq<char> {
    match m {
        HttpMethod::Get => "GET"@,
        HttpMethod::Post => "POST"@,
        HttpMethod::Put => "PUT"@,
        HttpMethod::Delete => "DELETE"@,
    }
}

/// A configured method name selects exactly the method whose name is its
/// upper-case form: "PUT" in any case gives PUT, "POST" gives POST, and so
/// on; any other name selects none.
pub proof fn lemma_method_named(name: Seq<char>, m: HttpMethod)
    ensures
        spec_method(name) == Some(m) <==> to_upper_case(name) == method_name(m),
        spec_method(name) is None <==> (to_upper_case(name) != "GET"@ && to_upper_case(name) != "POST"@
            && to_upper_case(name) != "PUT"@ && to_upper_case(name) != "DELETE"@),
{
    reveal_strlit("GET");
    reveal_strlit("POST");
    reveal_strlit("PUT");
    reveal_strlit("DELETE");
    assert("GET"@[0] == 'G' && "POST"@[0] == 'P' && "PUT"@[0] == 'P' && "DELETE"@[0] == 'D');
    assert("POST"@.len() == 4 && "PUT"@.len() == 3);
}

/// The statuses judged successful are exactly those of the 2xx class.
pub proof fn lemma_success_is_2xx(status: u16)
    ensures
        is_success_status(status) <==> status / 100 == 2,
{
}

} // verus!
