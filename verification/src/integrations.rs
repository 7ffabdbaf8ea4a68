//! LLM provider integrations: which credentials a provider needs, where they
//! are stored, and how a connection is tested.

use vstd::prelude::*;
use vstd::string::*;

use crate::errors::ApiError;
use crate::ids::{parse_uuid, uuid_value};
use crate::text::{chars_of, chars_range, owned, str_eq};

verus! {

/// Check a provider name: unknown providers are refused. `recognized` says
/// whether the gateway's provider list knows the name.
pub fn validate_provider(name: &str, recognized: bool) -> (r: Result<(), ApiError>)
    ensures
        recognized ==> r is Ok,
        !recognized ==> (r matches Err(ApiError::BadRequest(m)) && m@ == "Unsupported provider: "@
            + name@),
{
    if !recognized {
        let mut m = owned("Unsupported provider: ");
        m.append(name);
        return Err(ApiError::BadRequest(m));
    }
    Ok(())
}

/// A request to create (or replace) an integration.
pub struct CreateLlmIntegration {
    pub provider: String,
    pub api_key: Option<String>,
    /// Secret slot holding the API key (agent flow; exclusive with `api_key`).
    pub secret_slot: Option<String>,
    pub access_key_id: Option<String>,
    pub secret_access_key: Option<String>,
    /// Secret slots holding the Bedrock credentials (agent flow).
    pub access_key_slot: Option<String>,
    pub secret_key_slot: Option<String>,
    pub region: Option<String>,
    /// Base URL for providers with per-project endpoints.
    pub base_url: Option<String>,
    pub enabled: bool,
}

/// A request to update an integration.
pub struct UpdateLlmIntegration {
    pub api_key: Option<String>,
    pub secret_slot: Option<String>,
    pub access_key_id: Option<String>,
    pub secret_access_key: Option<String>,
    pub access_key_slot: Option<String>,
    pub secret_key_slot: Option<String>,
    pub region: Option<String>,
    pub base_url: Option<String>,
    pub enabled: Option<bool>,
}

/// A request to test a provider connection.
pub struct TestConnectionRequest {
    pub api_key: Option<String>,
    pub access_key_id: Option<String>,
    pub secret_access_key: Option<String>,
    pub region: Option<String>,
    pub base_url: Option<String>,
}

/// Whether an integration is created enabled when the request does not say.
pub fn default_true() -> (r: bool)
    ensures
        r,
{
    true
}

/// The setting that stores a provider's (encrypted) credentials.
pub fn api_key_setting(provider: &str) -> (r: String)
    ensures
        r@ == "gateway_"@ + provider@ + "_api_key"@,
{
    let mut k = owned("gateway_");
    k.append(provider);
    k.append("_api_key");
    k
}

/// The setting that stores a provider's base URL.
pub fn base_url_setting(provider: &str) -> (r: String)
    ensures
        r@ == "gateway_"@ + provider@ + "_base_url"@,
{
    let mut k = owned("gateway_");
    k.append(provider);
    k.append("_base_url");
    k
}

/// The secret slot fields of an integration request (agent flow).
#[derive(Debug, Clone, Copy, PartialEq, Eq, Structural)]
pub enum SlotField {
    /// `secret_slot`: the slot holding the API key.
    SecretSlot,
    /// `access_key_slot`: the slot holding the Bedrock access key id.
    AccessKeySlot,
    /// `secret_key_slot`: the slot holding the Bedrock secret access key.
    SecretKeySlot,
}

/// The answer to a slot field whose text is not a UUID.
pub open spec fn invalid_slot_message(field: SlotField) -> Seq<char> {
    match field {
        SlotField::SecretSlot => "Invalid secret_slot ID"@,
        SlotField::AccessKeySlot => "Invalid access_key_slot ID"@,
        SlotField::SecretKeySlot => "Invalid secret_key_slot ID"@,
    }
}

/// The slot a request names in `field`: the id written in `text`, or a bad
/// request naming the field when the text is not a UUID.
pub fn slot_id(field: SlotField, text: &str) -> (r: Result<u128, ApiError>)
    ensures
        match uuid_value(text@) {
            Some(u) => r == Ok::<u128, ApiError>(u),
            None => r matches Err(ApiError::BadRequest(m)) && m@ == invalid_slot_message(field),
        },
{
    match parse_uuid(text) {
        Some(u) => Ok(u),
        None => {
            let m = match field {
                SlotField::SecretSlot => owned("Invalid secret_slot ID"),
                SlotField::AccessKeySlot => owned("Invalid access_key_slot ID"),
                SlotField::SecretKeySlot => owned("Invalid secret_key_slot ID"),
            };
            Err(ApiError::BadRequest(m))
        },
    }
}

/// The credentials to store for a provider.
#[derive(Debug)]
pub enum Credentials {
    /// An API key (possibly empty).
    ApiKey(String),
    /// AWS Bedrock credentials, stored as a JSON object.
    Bedrock { access_key_id: String, secret_access_key: String, region: String },
}

/// The first present value.
pub open spec fn first_of(a: Option<String>, b: Option<String>) -> Option<Seq<char>> {
    match a {
        Some(x) => Some(x@),
        None => match b {
            Some(y) => Some(y@),
            None => None,
        },
    }
}

fn first_present(a: Option<String>, b: Option<String>) -> (r: Option<String>)
    ensures
        match r {
            Some(x) => first_of(a, b) == Some(x@),
            None => first_of(a, b) is None,
        },
{
    match a {
        Some(x) => Some(x),
        None => b,
    }
}

/// What a credentials plan says: the Bedrock triple, or an API key.
pub open spec fn credentials_are(c: Credentials, access: Seq<char>, secret: Seq<char>, region: Seq<char>) -> bool {
    c matches Credentials::Bedrock { access_key_id, secret_access_key, region: r } && access_key_id@
        == access && secret_access_key@ == secret && r@ == region
}

/// Decide which credentials to store. Values read from secret slots take
/// precedence over values given directly. Bedrock needs both keys (region
/// defaults to `us-east-1`); when `key_optional` (Theta Dedicated on
/// creation) a missing API key is stored as empty; otherwise an API key is
/// required.
pub fn plan_credentials(
    provider: &str,
    key_optional: bool,
    slot_api_key: Option<String>,
    api_key: Option<String>,
    slot_access_key: Option<String>,
    access_key_id: Option<String>,
    slot_secret_key: Option<String>,
    secret_access_key: Option<String>,
    region: Option<String>,
) -> (r: Result<Credentials, ApiError>)
    ensures
        provider@ == "bedrock"@ ==> match (
            first_of(slot_access_key, access_key_id),
            first_of(slot_secret_key, secret_access_key),
        ) {
            (None, _) => r matches Err(ApiError::BadRequest(m)) && m@
                == "access_key_id or access_key_slot is required for Bedrock"@,
            (Some(_), None) => r matches Err(ApiError::BadRequest(m)) && m@
                == "secret_access_key or secret_key_slot is required for Bedrock"@,
            (Some(a), Some(s)) => r matches Ok(c) && credentials_are(
                c,
                a,
                s,
                match region {
                    Some(x) => x@,
                    None => "us-east-1"@,
                },
            ),
        },
        provider@ != "bedrock"@ ==> match first_of(slot_api_key, api_key) {
            Some(k) => r matches Ok(Credentials::ApiKey(t)) && t@ == k,
            None => if key_optional {
                r matches Ok(Credentials::ApiKey(t)) && t@.len() == 0
            } else {
                r matches Err(ApiError::BadRequest(m)) && m@ == "api_key or secret_slot is required"@
            },
        },
{
    if str_eq(provider, "bedrock") {
        let access = match first_present(slot_access_key, access_key_id) {
            Some(a) => a,
            None => {
                return Err(
                    ApiError::BadRequest(
                        owned("access_key_id or access_key_slot is required for Bedrock"),
                    ),
                );
            },
        };
        let secret = match first_present(slot_secret_key, secret_access_key) {
            Some(s) => s,
            None => {
                return Err(
                    ApiError::BadRequest(
                        owned("secret_access_key or secret_key_slot is required for Bedrock"),
                    ),
                );
            },
        };
        let region = match region {
            Some(x) => x,
            None => owned("us-east-1"),
        };
        return Ok(Credentials::Bedrock { access_key_id: access, secret_access_key: secret, region });
    }
    match first_present(slot_api_key, api_key) {
        Some(k) => Ok(Credentials::ApiKey(k)),
        None => if key_optional {
            Ok(Credentials::ApiKey(String::new()))
        } else {
            Err(ApiError::BadRequest(owned("api_key or secret_slot is required")))
        },
    }
}

/// Providers served from a per-project endpoint, whose base URL is stored.
pub open spec fn needs_base_url(provider: Seq<char>) -> bool {
    provider == "theta-dedicated"@ || provider == "cloudflare"@ || provider == "azure-openai"@
}

/// On creation: the base URL to store, required for per-project endpoints.
pub fn creation_base_url(provider: &str, base_url: Option<String>) -> (r: Result<Option<String>, ApiError>)
    ensures
        !needs_base_url(provider@) ==> r matches Ok(None),
        needs_base_url(provider@) ==> match base_url {
            Some(u) => r matches Ok(Some(v)) && v@ == u@,
            None => r matches Err(ApiError::BadRequest(m)) && m@ == "base_url is required for "@
                + provider@,
        },
{
    if str_eq(provider, "theta-dedicated") || str_eq(provider, "cloudflare") || str_eq(
        provider,
        "azure-openai",
    ) {
        match base_url {
            Some(u) => Ok(Some(u)),
            None => {
                let mut m = owned("base_url is required for ");
                m.append(provider);
                Err(ApiError::BadRequest(m))
            },
        }
    } else {
        Ok(None)
    }
}

/// What an update changes: whether new credentials were given (an API key
/// or Bedrock keys, from a slot or directly) and whether a base URL was.
pub struct UpdatePlan {
    pub has_api_key: bool,
    pub has_bedrock_keys: bool,
    pub has_base_url: bool,
}

impl UpdatePlan {
    /// Whether the update touches credentials at all.
    pub fn credentials_updated(&self) -> (r: bool)
        ensures
            r == (self.has_api_key || self.has_bedrock_keys || self.has_base_url),
    {
        self.has_api_key || self.has_bedrock_keys || self.has_base_url
    }

    /// Whether new credentials are to be stored.
    pub fn stores_credentials(&self) -> (r: bool)
        ensures
            r == (self.has_api_key || self.has_bedrock_keys),
    {
        self.has_api_key || self.has_bedrock_keys
    }
}

/// Which credentials an update brings, given what the slots resolved to.
pub fn plan_update(req: &UpdateLlmIntegration, slot_api_key: bool, slot_access_key: bool) -> (r: UpdatePlan)
    ensures
        r.has_api_key == (slot_api_key || req.api_key is Some),
        r.has_bedrock_keys == (slot_access_key || req.access_key_id is Some),
        r.has_base_url == req.base_url is Some,
{
    UpdatePlan {
        has_api_key: slot_api_key || req.api_key.is_some(),
        has_bedrock_keys: slot_access_key || req.access_key_id.is_some(),
        has_base_url: req.base_url.is_some(),
    }
}

/// How a provider's connection is tested.
#[derive(Debug)]
pub enum ConnectionTest {
    OpenAi,
    Anthropic,
    Google,
    Bedrock,
    Theta,
    /// Needs the stored base URL.
    ThetaDedicated,
    DeepSeek,
    /// An OpenAI-compatible model list at a fixed URL.
    ModelList(&'static str),
    /// Cloudflare Workers AI: needs the stored account base URL.
    Cloudflare,
    /// Azure OpenAI: needs the stored resource URL.
    AzureOpenAi,
    Unsupported,
}

/// The fixed model-list URL of an OpenAI-compatible provider, if it has one.
pub open spec fn model_list_url(provider: Seq<char>) -> Option<Seq<char>> {
    if provider == "sambanova"@ {
        Some("https://api.sambanova.ai/v1/models"@)
    } else if provider == "lambda"@ {
        Some("https://api.lambdalabs.com/v1/models"@)
    } else if provider == "lepton"@ {
        Some("https://api.lepton.ai/v1/models"@)
    } else if provider == "hyperbolic"@ {
        Some("https://api.hyperbolic.xyz/v1/models"@)
    } else if provider == "ovhcloud"@ {
        Some("https://ovh.hf.space/v1/models"@)
    } else if provider == "novita"@ {
        Some("https://api.novita.ai/v3/openai/models"@)
    } else if provider == "huggingface"@ {
        Some("https://router.huggingface.co/v1/models"@)
    } else if provider == "vertex-ai"@ {
        Some("https://us-central1-aiplatform.googleapis.com/v1beta1/openai/models"@)
    } else if provider == "x-ai"@ {
        Some("https://api.x.ai/v1/models"@)
    } else if provider == "mistralai"@ {
        Some("https://api.mistral.ai/v1/models"@)
    } else if provider == "qwen"@ {
        Some("https://dashscope-intl.aliyuncs.com/compatible-mode/v1/models"@)
    } else if provider == "ai21"@ {
        Some("https://api.ai21.com/studio/v1/models"@)
    } else if provider == "cerebras"@ {
        Some("https://api.cerebras.ai/v1/models"@)
    } else if provider == "cohere"@ {
        Some("https://api.cohere.com/v2/models"@)
    } else if provider == "deepinfra"@ {
        Some("https://api.deepinfra.com/v1/openai/models"@)
    } else if provider == "fireworks"@ {
        Some("https://api.fireworks.ai/inference/v1/models"@)
    } else if provider == "groq"@ {
        Some("https://api.groq.com/openai/v1/models"@)
    } else if provider == "nvidia"@ {
        Some("https://integrate.api.nvidia.com/v1/models"@)
    } else if provider == "openrouter"@ {
        Some("https://openrouter.ai/api/v1/models"@)
    } else if provider == "perplexity"@ {
        Some("https://api.perplexity.ai/models"@)
    } else if provider == "together"@ {
        Some("https://api.together.xyz/v1/models"@)
    } else {
        None
    }
}

/// The connection test of a provider.
pub open spec fn test_kind(provider: Seq<char>) -> ConnectionTest {
    if provider == "openai"@ {
        ConnectionTest::OpenAi
    } else if provider == "anthropic"@ {
        ConnectionTest::Anthropic
    } else if provider == "google"@ {
        ConnectionTest::Google
    } else if provider == "bedrock"@ {
        ConnectionTest::Bedrock
    } else if provider == "theta"@ {
        ConnectionTest::Theta
    } else if provider == "theta-dedicated"@ {
        ConnectionTest::ThetaDedicated
    } else if provider == "deepseek"@ {
        ConnectionTest::DeepSeek
    } else if provider == "cloudflare"@ {
        ConnectionTest::Cloudflare
    } else if provider == "azure-openai"@ {
        ConnectionTest::AzureOpenAi
    } else if model_list_url(provider) is Some {
        ConnectionTest::ModelList(arbitrary())
    } else {
        ConnectionTest::Unsupported
    }
}

/// Whether `t` is the connection test of `provider`.
pub open spec fn is_test_for(provider: Seq<char>, t: ConnectionTest) -> bool {
    match t {
        ConnectionTest::ModelList(url) => model_list_url(provider) == Some(url@) && test_kind(
            provider,
        ) is ModelList,
        _ => t == test_kind(provider),
    }
}

fn model_list(provider: &str) -> (r: Option<&'static str>)
    ensures
        match r {
            Some(u) => model_list_url(provider@) == Some(u@),
            None => model_list_url(provider@) is None,
        },
{
    if str_eq(provider, "sambanova") {
        Some("https://api.sambanova.ai/v1/models")
    } else if str_eq(provider, "lambda") {
        Some("https://api.lambdalabs.com/v1/models")
    } else if str_eq(provider, "lepton") {
        Some("https://api.lepton.ai/v1/models")
    } else if str_eq(provider, "hyperbolic") {
        Some("https://api.hyperbolic.xyz/v1/models")
    } else if str_eq(provider, "ovhcloud") {
        Some("https://ovh.hf.space/v1/models")
    } else if str_eq(provider, "novita") {
        Some("https://api.novita.ai/v3/openai/models")
    } else if str_eq(provider, "huggingface") {
        Some("https://router.huggingface.co/v1/models")
    } else if str_eq(provider, "vertex-ai") {
        Some("https://us-central1-aiplatform.googleapis.com/v1beta1/openai/models")
    } else if str_eq(provider, "x-ai") {
        Some("https://api.x.ai/v1/models")
    } else if str_eq(provider, "mistralai") {
        Some("https://api.mistral.ai/v1/models")
    } else if str_eq(provider, "qwen") {
        Some("https://dashscope-intl.aliyuncs.com/compatible-mode/v1/models")
    } else if str_eq(provider, "ai21") {
        Some("https://api.ai21.com/studio/v1/models")
    } else if str_eq(provider, "cerebras") {
        Some("https://api.cerebras.ai/v1/models")
    } else if str_eq(provider, "cohere") {
        Some("https://api.cohere.com/v2/models")
    } else if str_eq(provider, "deepinfra") {
        Some("https://api.deepinfra.com/v1/openai/models")
    } else if str_eq(provider, "fireworks") {
        Some("https://api.fireworks.ai/inference/v1/models")
    } else if str_eq(provider, "groq") {
        Some("https://api.groq.com/openai/v1/models")
    } else if str_eq(provider, "nvidia") {
        Some("https://integrate.api.nvidia.com/v1/models")
    } else if str_eq(provider, "openrouter") {
        Some("https://openrouter.ai/api/v1/models")
    } else if str_eq(provider, "perplexity") {
        Some("https://api.perplexity.ai/models")
    } else if str_eq(provider, "together") {
        Some("https://api.together.xyz/v1/models")
    } else {
        None
    }
}

/// How to test a provider's connection.
pub fn connection_test_for(provider: &str) -> (r: ConnectionTest)
    ensures
        is_test_for(provider@, r),
{
    if str_eq(provider, "openai") {
        ConnectionTest::OpenAi
    } else if str_eq(provider, "anthropic") {
        ConnectionTest::Anthropic
    } else if str_eq(provider, "google") {
        ConnectionTest::Google
    } else if str_eq(provider, "bedrock") {
        ConnectionTest::Bedrock
    } else if str_eq(provider, "theta") {
        ConnectionTest::Theta
    } else if str_eq(provider, "theta-dedicated") {
        ConnectionTest::ThetaDedicated
    } else if str_eq(provider, "deepseek") {
        ConnectionTest::DeepSeek
    } else if str_eq(provider, "cloudflare") {
        ConnectionTest::Cloudflare
    } else if str_eq(provider, "azure-openai") {
        ConnectionTest::AzureOpenAi
    } else {
        match model_list(provider) {
            Some(u) => ConnectionTest::ModelList(u),
            None => ConnectionTest::Unsupported,
        }
    }
}

/// The error when a provider's stored base URL is missing.
pub open spec fn missing_base_url_message(t: ConnectionTest) -> Seq<char> {
    match t {
        ConnectionTest::ThetaDedicated => "Base URL not configured for Theta Dedicated"@,
        ConnectionTest::Cloudflare => "Account ID not configured for Cloudflare Workers AI"@,
        _ => "Resource URL not configured for Azure OpenAI"@,
    }
}

/// The base URL to test with: the requested one, else the stored one;
/// an error when neither exists.
pub fn test_base_url(t: &ConnectionTest, requested: Option<String>, stored: Option<String>) -> (r: Result<
    String,
    ApiError,
>)
    ensures
        match first_of(requested, stored) {
            Some(u) => r matches Ok(v) && v@ == u,
            None => r matches Err(ApiError::BadRequest(m)) && m@ == missing_base_url_message(*t),
        },
{
    match first_present(requested, stored) {
        Some(u) => Ok(u),
        None => match t {
            ConnectionTest::ThetaDedicated => Err(
                ApiError::BadRequest(owned("Base URL not configured for Theta Dedicated")),
            ),
            ConnectionTest::Cloudflare => Err(
                ApiError::BadRequest(owned("Account ID not configured for Cloudflare Workers AI")),
            ),
            _ => Err(ApiError::BadRequest(owned("Resource URL not configured for Azure OpenAI"))),
        },
    }
}

/// The number of `/` at the end of a text.
pub open spec fn trailing_slashes(s: Seq<char>) -> nat
    decreases s.len(),
{
    if s.len() > 0 && s.last() == '/' {
        1 + trailing_slashes(s.drop_last())
    } else {
        0
    }
}

/// The model list of a Cloudflare account: its base URL without trailing
/// slashes, then `/models`.
pub fn cloudflare_models_url(base_url: &str) -> (r: String)
    ensures
        r@ == base_url@.subrange(0, base_url@.len() - trailing_slashes(base_url@)) + "/models"@,
{
    let cs = chars_of(base_url);
    let mut e = cs.len();
    proof {
        assert(cs@.subrange(0, cs@.len() as int) =~= cs@);
    }
    while e > 0 && cs[e - 1] == '/'
        invariant
            e <= cs@.len(),
            cs@ == base_url@,
            trailing_slashes(base_url@) == (cs@.len() - e) + trailing_slashes(cs@.subrange(0, e as int)),
        decreases e,
    {
        proof {
            assert(cs@.subrange(0, e as int).drop_last() =~= cs@.subrange(0, e as int - 1));
        }
        e = e - 1;
    }
    proof {
        assert(trailing_slashes(cs@.subrange(0, e as int)) == 0);
    }
    let mut u = chars_range(&cs, 0, e);
    u.append("/models");
    u
}

/// The recorded status of a connection test.
pub fn test_status(succeeded: bool) -> (r: &'static str)
    ensures
        r@ == if succeeded {
            "success"@
        } else {
            "failed"@
        },
{
    if succeeded {
        "success"
    } else {
        "failed"
    }
}

} // verus!
