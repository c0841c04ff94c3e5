//! The completion client: configuration, the per-model token budget, the
//! outgoing request, and the handling of the response body.
//!
//! The client never touches the network itself.  [`OpenAIClient::prepare_request`]
//! yields everything the transport needs (URL, headers, body) after the
//! budget check, and [`handle_response`] turns the response body into the
//! completion text or a descriptive error.

use vstd::prelude::*;
use vstd::string::StringExecFns;
use crate::json::{
    choice_text_of, escape_json_str, extract_choice_text, json_escape, json_of,
    lemma_json_escape_injective, parse_json, Json,
};
use crate::text::{dec_digits, str_eq, trim_spec, trim_str, usize_to_string};
use crate::tokenize::{p50k_tokens, token_count};

verus! {

/// How many completion tokens every request asks for.
pub const OUTPUT_BUDGET: usize = 100;

/// A failure to build a client from its configuration.
#[derive(Debug, PartialEq, Eq, Structural)]
pub enum ConfigError {
    MissingApiKey,
    MissingModel,
}

/// A failure of one completion call.
#[derive(Debug)]
pub enum CompletionError {
    /// The prompt and the output budget together do not fit the model's
    /// token limit.  Raised before any network traffic.
    TokenBudgetExceeded { prompt_tokens: usize, limit: usize },
    /// The transport could not obtain a response body at all.
    TransportError { detail: String },
    /// The response body is not valid JSON.
    MalformedResponse { raw_body: String, parse_error: String },
    /// The response is JSON without a string under `choices[0].text`.
    UnexpectedShape { json: Json },
}

/// The token limit of a model: prompt and completion together must fit it.
/// Names outside the table fall back to 4097.
pub open spec fn spec_token_limit(model: Seq<char>) -> usize {
    if model == "text-davinci-003"@ {
        4097
    } else if model == "text-curie-001"@ {
        2048
    } else if model == "text-babbage-001"@ {
        2048
    } else if model == "text-ada-001"@ {
        2048
    } else if model == "code-davinci-002"@ {
        8000
    } else if model == "code-cushman-001"@ {
        2048
    } else {
        4097
    }
}

/// Whether the prompt plus the fixed output budget oversteps the model's
/// token limit.
pub open spec fn budget_exceeded(prompt: Seq<char>, model: Seq<char>) -> bool {
    p50k_tokens(prompt).len() + OUTPUT_BUDGET > spec_token_limit(model)
}

/// The JSON body of a completion request: the model and the prompt, with
/// the fixed sampling constants of this client.
pub open spec fn spec_request_body(model: Seq<char>, prompt: Seq<char>) -> Seq<char> {
    "{\"model\":\""@ + json_escape(model) + "\",\"prompt\":\""@ + json_escape(prompt)
        + "\",\"temperature\":0.5,\"max_tokens\":100,\"top_p\":1,\"frequency_penalty\":0,\"presence_penalty\":0}"@
}

/// The text supplied by an optional configuration entry: empty when absent.
pub open spec fn given_text(o: Option<String>) -> Seq<char> {
    match o {
        Some(s) => s@,
        None => Seq::empty(),
    }
}

/// Everything the transport needs to issue one completion request.
pub struct ApiRequest {
    /// The fixed completion endpoint.
    pub url: String,
    /// The value of the `Content-Type` header.
    pub content_type: String,
    /// The value of the `Authorization` header.
    pub authorization: String,
    /// The JSON request body.
    pub body: String,
}

/// A configured completion client: a non-empty API key and model name.
pub struct OpenAIClient {
    api_key: String,
    model: String,
}

impl OpenAIClient {
    /// The characters of the configured API key.
    pub closed spec fn spec_api_key(&self) -> Seq<char> {
        self.api_key@
    }

    /// The characters of the configured model name.
    pub closed spec fn spec_model(&self) -> Seq<char> {
        self.model@
    }

    /// A well-formed client holds a non-empty key and model name.
    pub open spec fn wf(&self) -> bool {
        self.spec_api_key().len() > 0 && self.spec_model().len() > 0
    }

    /// Builds a client from configuration.  An absent or empty API key is
    /// rejected first, then an absent or empty model name.
    pub fn new(api_key: Option<String>, model: Option<String>) -> (r: Result<
        OpenAIClient,
        ConfigError,
    >)
        ensures
            match r {
                Ok(c) => given_text(api_key).len() > 0 && given_text(model).len() > 0
                    && c.spec_api_key() == given_text(api_key) && c.spec_model() == given_text(
                    model,
                ) && c.wf(),
                Err(ConfigError::MissingApiKey) => given_text(api_key).len() == 0,
                Err(ConfigError::MissingModel) => given_text(api_key).len() > 0 && given_text(
                    model,
                ).len() == 0,
            },
    {
        let key = match api_key {
            Some(k) => k,
            None => String::new(),
        };
        if key.as_str().is_empty() {
            return Err(ConfigError::MissingApiKey);
        }
        let model_name = match model {
            Some(m) => m,
            None => String::new(),
        };
        if model_name.as_str().is_empty() {
            return Err(ConfigError::MissingModel);
        }
        Ok(OpenAIClient { api_key: key, model: model_name })
    }

    /// The configured model name.
    pub fn model(&self) -> (r: &str)
        ensures
            r@ == self.spec_model(),
    {
        self.model.as_str()
    }

    /// The token limit of the configured model.
    pub fn get_prompt_token_limit_for_model(&self) -> (r: usize)
        ensures
            r == spec_token_limit(self.spec_model()),
    {
        let m = self.model.as_str();
        if str_eq(m, "text-davinci-003") {
            4097
        } else if str_eq(m, "text-curie-001") {
            2048
        } else if str_eq(m, "text-babbage-001") {
            2048
        } else if str_eq(m, "text-ada-001") {
            2048
        } else if str_eq(m, "code-davinci-002") {
            8000
        } else if str_eq(m, "code-cushman-001") {
            2048
        } else {
            4097
        }
    }

    /// Checks the token budget and builds the completion request.  The
    /// prompt is carried into the body exactly as given, JSON-escaped and
    /// neither trimmed nor truncated.
    pub fn prepare_request(&self, prompt: &str) -> (r: Result<ApiRequest, CompletionError>)
        ensures
            match r {
                Ok(req) => !budget_exceeded(prompt@, self.spec_model()) && req.url@
                    == "https://api.openai.com/v1/completions"@ && req.content_type@
                    == "application/json"@ && req.authorization@ == "Bearer "@
                    + self.spec_api_key() && req.body@ == spec_request_body(
                    self.spec_model(),
                    prompt@,
                ),
                Err(e) => budget_exceeded(prompt@, self.spec_model()) && (e matches
                    CompletionError::TokenBudgetExceeded { prompt_tokens, limit } && prompt_tokens
                    == p50k_tokens(prompt@).len() && limit == spec_token_limit(self.spec_model())),
            },
    {
        let limit = self.get_prompt_token_limit_for_model();
        let prompt_tokens = token_count(prompt);
        assert(spec_token_limit(self.spec_model()) <= 8000);
        if prompt_tokens >= limit || prompt_tokens + OUTPUT_BUDGET > limit {
            return Err(CompletionError::TokenBudgetExceeded { prompt_tokens, limit });
        }
        let escaped_model = escape_json_str(self.model.as_str());
        let escaped_prompt = escape_json_str(prompt);
        let mut body = "{\"model\":\"".to_owned();
        body.append(escaped_model.as_str());
        body.append("\",\"prompt\":\"");
        body.append(escaped_prompt.as_str());
        body.append(
            "\",\"temperature\":0.5,\"max_tokens\":100,\"top_p\":1,\"frequency_penalty\":0,\"presence_penalty\":0}",
        );
        let mut authorization = "Bearer ".to_owned();
        authorization.append(self.api_key.as_str());
        proof {
            assert(body@ =~= spec_request_body(self.spec_model(), prompt@));
        }
        Ok(
            ApiRequest {
                url: "https://api.openai.com/v1/completions".to_owned(),
                content_type: "application/json".to_owned(),
                authorization,
                body,
            },
        )
    }
}

/// The prompt rides in the request body unmodified: under one model, two
/// prompts with the same request body are the same prompt, so nothing is
/// trimmed, truncated or rewritten on the way in.
pub proof fn lemma_prompt_rides_unmodified(model: Seq<char>, p1: Seq<char>, p2: Seq<char>)
    requires
        spec_request_body(model, p1) == spec_request_body(model, p2),
    ensures
        p1 == p2,
{
    let head = "{\"model\":\""@ + json_escape(model) + "\",\"prompt\":\""@;
    let tail =
        "\",\"temperature\":0.5,\"max_tokens\":100,\"top_p\":1,\"frequency_penalty\":0,\"presence_penalty\":0}"@;
    let e1 = json_escape(p1);
    let e2 = json_escape(p2);
    assert(spec_request_body(model, p1) == (head + e1) + tail);
    assert(spec_request_body(model, p2) == (head + e2) + tail);
    assert(e1.len() == e2.len());
    assert forall|i: int| 0 <= i < e1.len() implies e1[i] == e2[i] by {
        assert(e1[i] == ((head + e1) + tail)[head.len() + i]);
        assert(e2[i] == ((head + e2) + tail)[head.len() + i]);
    }
    assert(e1 =~= e2);
    lemma_json_escape_injective(p1, p2);
}

/// The static token-limit table: each listed model maps to its documented
/// limit, and every other name falls back to 4097.
pub proof fn lemma_token_limit_table()
    ensures
        spec_token_limit("text-davinci-003"@) == 4097,
        spec_token_limit("text-curie-001"@) == 2048,
        spec_token_limit("text-babbage-001"@) == 2048,
        spec_token_limit("text-ada-001"@) == 2048,
        spec_token_limit("code-davinci-002"@) == 8000,
        spec_token_limit("code-cushman-001"@) == 2048,
        forall|m: Seq<char>|
            (m != "text-davinci-003"@ && m != "text-curie-001"@ && m != "text-babbage-001"@ && m
                != "text-ada-001"@ && m != "code-davinci-002"@ && m != "code-cushman-001"@)
                ==> spec_token_limit(m) == 4097,
{
    reveal_strlit("text-davinci-003");
    reveal_strlit("text-curie-001");
    reveal_strlit("text-babbage-001");
    reveal_strlit("text-ada-001");
    reveal_strlit("code-davinci-002");
    reveal_strlit("code-cushman-001");
    let dav = "text-davinci-003"@;
    let cur = "text-curie-001"@;
    let bab = "text-babbage-001"@;
    let ada = "text-ada-001"@;
    let cdav = "code-davinci-002"@;
    let cush = "code-cushman-001"@;
    assert(dav.len() == 16 && cur.len() == 14 && bab.len() == 16 && ada.len() == 12 && cdav.len()
        == 16 && cush.len() == 16);
    assert(bab[5] == 'b' && dav[5] == 'd');
    assert(dav[0] == 't' && bab[0] == 't' && cdav[0] == 'c' && cush[0] == 'c');
    assert(cdav[5] == 'd' && cush[5] == 'c');
    assert(cur != dav && ada != dav && ada != cur && ada != bab);
    assert(bab != dav && bab != cur);
    assert(cdav != dav && cdav != cur && cdav != bab && cdav != ada);
    assert(cush != dav && cush != cur && cush != bab && cush != ada && cush != cdav);
}

/// The budget check sits exactly at the limit: against a model of limit
/// 2048 a prompt of 1948 tokens passes (1948 + 100 = 2048) and one of 1949
/// tokens fails (1949 + 100 = 2049 > 2048).
pub proof fn lemma_budget_boundary(prompt: Seq<char>, model: Seq<char>)
    requires
        model == "text-curie-001"@,
    ensures
        p50k_tokens(prompt).len() == 1948 ==> !budget_exceeded(prompt, model),
        p50k_tokens(prompt).len() == 1949 ==> budget_exceeded(prompt, model),
{
    lemma_token_limit_table();
    reveal_strlit("text-davinci-003");
    reveal_strlit("text-curie-001");
}

/// Turns the response body of a completion request into the completion
/// text: the string under `choices[0].text`, trimmed of surrounding
/// whitespace.  A body that is not JSON, or JSON of another shape, comes
/// back as the corresponding error, carrying the body or the document.
pub fn handle_response(body: &str) -> (r: Result<String, CompletionError>)
    ensures
        match json_of(body@) {
            None => r matches Err(CompletionError::MalformedResponse { raw_body, parse_error: _ })
                && raw_body@ == body@,
            Some(j) => match choice_text_of(j) {
                None => r matches Err(CompletionError::UnexpectedShape { json }) && json == j,
                Some(t) => r matches Ok(s) && s@ == trim_spec(t),
            },
        },
{
    match parse_json(body) {
        Err(e) => Err(
            CompletionError::MalformedResponse { raw_body: body.to_owned(), parse_error: e },
        ),
        Ok(j) => match extract_choice_text(&j) {
            Some(t) => Ok(trim_str(t)),
            None => Err(CompletionError::UnexpectedShape { json: j }),
        },
    }
}

/// What [`CompletionError::message`] says of each failure.  A budget
/// failure states the prompt's token count and the limit it overstepped.
pub open spec fn spec_message(e: CompletionError) -> Seq<char> {
    match e {
        CompletionError::TokenBudgetExceeded { prompt_tokens, limit } =>
            "token budget exceeded: prompt tokens "@ + dec_digits(prompt_tokens as int)
                + " plus output budget 100 exceed limit "@ + dec_digits(limit as int),
        CompletionError::TransportError { detail } => "transport failure: "@ + detail@,
        CompletionError::MalformedResponse { raw_body, parse_error } =>
            "could not decode JSON response: "@ + parse_error@ + "; response body: "@ + raw_body@,
        CompletionError::UnexpectedShape { json: _ } => "unexpected JSON response shape"@,
    }
}

impl CompletionError {
    /// A diagnostic line for this failure.
    pub fn message(&self) -> (r: String)
        ensures
            r@ == spec_message(*self),
    {
        match self {
            CompletionError::TokenBudgetExceeded { prompt_tokens, limit } => {
                let mut m = "token budget exceeded: prompt tokens ".to_owned();
                m.append(usize_to_string(*prompt_tokens).as_str());
                m.append(" plus output budget 100 exceed limit ");
                m.append(usize_to_string(*limit).as_str());
                proof {
                    assert(m@ =~= spec_message(*self));
                }
                m
            },
            CompletionError::TransportError { detail } => {
                let mut m = "transport failure: ".to_owned();
                m.append(detail.as_str());
                m
            },
            CompletionError::MalformedResponse { raw_body, parse_error } => {
                let mut m = "could not decode JSON response: ".to_owned();
                m.append(parse_error.as_str());
                m.append("; response body: ");
                m.append(raw_body.as_str());
                proof {
                    assert(m@ =~= spec_message(*self));
                }
                m
            },
            CompletionError::UnexpectedShape { json: _ } => {
                "unexpected JSON response shape".to_owned()
            },
        }
    }
}

} // verus!
