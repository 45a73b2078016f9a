use sha2::Digest;
use vstd::prelude::*;
use vstd::string::*;
use vstd::utf8::decode_utf8;
use crate::text::{
    chars_of, ends_with, push_char, range_ends_with, range_starts_with, starts_with, string_of,
    trim_end_char, trim_end_char_index, trim_indices, trim_spec,
};

verus! {

/// Where the relay lives and how to reach it, as resolved from the Codex config.
/// `config_path` is the path of the config file as text.
#[derive(Debug, Clone, PartialEq, Eq)]
pub struct Settings {
    pub config_path: String,
    pub provider: String,
    pub root_url: String,
    pub raw_base_url: String,
    pub api_key: String,
}

/// One `[model_providers.<name>]` table of the Codex config.
#[derive(Debug, Clone, PartialEq, Eq)]
pub struct ProviderConfig {
    pub base_url: Option<String>,
}

/// The parts of the Codex config that matter here. `model_providers` lists each
/// provider table under its name; no name occurs twice.
#[derive(Debug, Clone, PartialEq, Eq)]
pub struct CodexConfig {
    pub model_provider: Option<String>,
    pub preferred_auth_method: Option<String>,
    pub model_providers: Option<Vec<(String, ProviderConfig)>>,
}

/// The parts of Codex's `auth.json` that matter here.
#[derive(Debug, Clone, PartialEq, Eq)]
pub struct AuthJson {
    pub openai_api_key: Option<String>,
}

/// The provider chosen by a Codex config that passed its checks.
#[derive(Debug, Clone, PartialEq, Eq)]
pub struct CodexChoice {
    pub provider: String,
    pub raw_base_url: String,
}

/// Why settings could not be resolved.
#[derive(Debug, Clone, PartialEq, Eq)]
pub enum ConfigError {
    MissingModelProvider,
    MissingModelProviders,
    MissingProviderEntry(String),
    MissingBaseUrl(String),
    MissingAuthMethod,
    UnsupportedAuthMethod,
    NoParentDirectory,
    MissingApiKey(String),
    InvalidBaseUrl(String),
}

/// The text of a configuration error.
pub open spec fn config_error_text(e: ConfigError) -> Seq<char> {
    match e {
        ConfigError::MissingModelProvider => "Codex config missing model_provider"@,
        ConfigError::MissingModelProviders => "Codex config missing model_providers"@,
        ConfigError::MissingProviderEntry(p) => "Codex config missing [model_providers."@ + p@ + "]"@,
        ConfigError::MissingBaseUrl(p) => "[model_providers."@ + p@ + "] missing base_url"@,
        ConfigError::MissingAuthMethod => "Codex config missing preferred_auth_method"@,
        ConfigError::UnsupportedAuthMethod => "unsupported preferred_auth_method: expected apikey"@,
        ConfigError::NoParentDirectory => "config path has no parent directory"@,
        ConfigError::MissingApiKey(path) => path@ + " missing OPENAI_API_KEY"@,
        ConfigError::InvalidBaseUrl(input) => "invalid CRS base_url: "@ + input@,
    }
}

impl ConfigError {
    /// The text of the error, as the command line prints it.
    pub fn message(&self) -> (m: String)
        ensures
            m@ == config_error_text(*self),
    {
        match self {
            ConfigError::MissingModelProvider => "Codex config missing model_provider".to_owned(),
            ConfigError::MissingModelProviders => "Codex config missing model_providers".to_owned(),
            ConfigError::MissingProviderEntry(p) => {
                let mut m = "Codex config missing [model_providers.".to_owned();
                m.append(p.as_str());
                m.append("]");
                m
            },
            ConfigError::MissingBaseUrl(p) => {
                let mut m = "[model_providers.".to_owned();
                m.append(p.as_str());
                m.append("] missing base_url");
                m
            },
            ConfigError::MissingAuthMethod => "Codex config missing preferred_auth_method".to_owned(),
            ConfigError::UnsupportedAuthMethod => "unsupported preferred_auth_method: expected apikey".to_owned(),
            ConfigError::NoParentDirectory => "config path has no parent directory".to_owned(),
            ConfigError::MissingApiKey(path) => {
                let mut m = path.clone();
                m.append(" missing OPENAI_API_KEY");
                m
            },
            ConfigError::InvalidBaseUrl(input) => {
                let mut m = "invalid CRS base_url: ".to_owned();
                m.append(input.as_str());
                m
            },
        }
    }
}

/// The provider table named `name`: the first entry under that name.
pub open spec fn provider_lookup(providers: Seq<(String, ProviderConfig)>, name: Seq<char>) -> Option<ProviderConfig>
    decreases providers.len(),
{
    if providers.len() == 0 {
        None
    } else if providers[0].0@ == name {
        Some(providers[0].1)
    } else {
        provider_lookup(providers.drop_first(), name)
    }
}

/// What checking a Codex config gives: the chosen provider, or the first problem
/// in the order the fields are read.
pub open spec fn check_codex_config_spec(cfg: CodexConfig) -> Result<CodexChoice, ConfigError> {
    match cfg.model_provider {
        None => Err(ConfigError::MissingModelProvider),
        Some(provider) => match cfg.model_providers {
            None => Err(ConfigError::MissingModelProviders),
            Some(providers) => match provider_lookup(providers@, provider@) {
                None => Err(ConfigError::MissingProviderEntry(provider)),
                Some(entry) => match entry.base_url {
                    None => Err(ConfigError::MissingBaseUrl(provider)),
                    Some(raw_base_url) => match cfg.preferred_auth_method {
                        None => Err(ConfigError::MissingAuthMethod),
                        Some(method) => if method@ == "apikey"@ {
                            Ok(CodexChoice { provider, raw_base_url })
                        } else {
                            Err(ConfigError::UnsupportedAuthMethod)
                        },
                    },
                },
            },
        },
    }
}

fn find_provider(providers: &Vec<(String, ProviderConfig)>, name: &String) -> (r: Option<ProviderConfig>)
    ensures
        r == provider_lookup(providers@, name@),
{
    let mut i: usize = 0;
    assert(providers@.skip(0) =~= providers@);
    while i < providers.len()
        invariant
            0 <= i <= providers.len(),
            provider_lookup(providers@, name@) == provider_lookup(providers@.skip(i as int), name@),
        decreases providers.len() - i,
    {
        assert(providers@.skip(i as int).drop_first() =~= providers@.skip(i + 1));
        if providers[i].0 == *name {
            let entry = &providers[i].1;
            let base_url = match &entry.base_url {
                Some(u) => Some(u.clone()),
                None => None,
            };
            return Some(ProviderConfig { base_url });
        }
        i = i + 1;
    }
    None
}

/// Checks a Codex config: it must name a provider, have a table for it with a
/// `base_url`, and prefer the `apikey` auth method.
pub fn check_codex_config(cfg: &CodexConfig) -> (r: Result<CodexChoice, ConfigError>)
    ensures
        r == check_codex_config_spec(*cfg),
{
    let provider = match &cfg.model_provider {
        Some(p) => p.clone(),
        None => return Err(ConfigError::MissingModelProvider),
    };
    let providers = match &cfg.model_providers {
        Some(ps) => ps,
        None => return Err(ConfigError::MissingModelProviders),
    };
    let entry = match find_provider(providers, &provider) {
        Some(e) => e,
        None => return Err(ConfigError::MissingProviderEntry(provider)),
    };
    let raw_base_url = match entry.base_url {
        Some(u) => u,
        None => return Err(ConfigError::MissingBaseUrl(provider)),
    };
    match &cfg.preferred_auth_method {
        None => Err(ConfigError::MissingAuthMethod),
        Some(method) => {
            if crate::text::str_eq(method.as_str(), "apikey") {
                Ok(CodexChoice { provider, raw_base_url })
            } else {
                Err(ConfigError::UnsupportedAuthMethod)
            }
        },
    }
}

/// The API key of `auth.json` (read from `auth_path`), which must not be blank.
pub fn api_key_from_auth(auth: &AuthJson, auth_path: &str) -> (r: Result<String, ConfigError>)
    ensures
        match auth.openai_api_key {
            Some(k) => if trim_spec(k@).len() > 0 {
                r == Ok::<String, ConfigError>(k)
            } else {
                r matches Err(ConfigError::MissingApiKey(p)) && p@ == auth_path@
            },
            None => r matches Err(ConfigError::MissingApiKey(p)) && p@ == auth_path@,
        },
{
    match &auth.openai_api_key {
        Some(k) => {
            let chars = chars_of(k.as_str());
            let (b, e) = trim_indices(&chars);
            if b < e {
                return Ok(k.clone());
            }
        },
        None => {},
    }
    Err(ConfigError::MissingApiKey(auth_path.to_owned()))
}

/// The base URL trimmed, without trailing slashes, and without one `/openai` suffix.
pub open spec fn strip_base(input: Seq<char>) -> Seq<char> {
    let url = trim_end_char(trim_spec(input), '/');
    if ends_with(url, "/openai"@) {
        url.take(url.len() - "/openai"@.len())
    } else {
        url
    }
}

/// Whether a URL uses http or https.
pub open spec fn is_http_url(url: Seq<char>) -> bool {
    starts_with(url, "http://"@) || starts_with(url, "https://"@)
}

/// The root URL of the relay for a configured base URL: trimmed, without trailing
/// slashes and without an `/openai` suffix; an error unless it is an http(s) URL.
pub fn normalize_root_url(input: &str) -> (r: Result<String, ConfigError>)
    ensures
        match r {
            Ok(url) => is_http_url(strip_base(input@)) && url@ == trim_end_char(strip_base(input@), '/'),
            Err(e) => {
                &&& !is_http_url(strip_base(input@))
                &&& (e matches ConfigError::InvalidBaseUrl(s) && s@ == input@)
            },
        },
{
    let chars = chars_of(input);
    let (b, e) = trim_indices(&chars);
    let e = trim_end_char_index(&chars, b, e, '/');
    let suffix = chars_of("/openai");
    let e = if range_ends_with(&chars, b, e, "/openai") {
        assert(chars@.subrange(b as int, e - suffix@.len()) =~= chars@.subrange(b as int, e as int).take(
            (e - b) - suffix@.len(),
        ));
        e - suffix.len()
    } else {
        e
    };
    assert(chars@.subrange(b as int, e as int) == strip_base(input@));
    if !(range_starts_with(&chars, b, e, "http://") || range_starts_with(&chars, b, e, "https://")) {
        return Err(ConfigError::InvalidBaseUrl(input.to_owned()));
    }
    let e2 = trim_end_char_index(&chars, b, e, '/');
    Ok(string_of(&chars, b, e2))
}

/// Settings from a checked config, its path and the resolved API key.
pub fn settings_from_parts(config_path: String, choice: CodexChoice, api_key: String) -> (r: Result<
    Settings,
    ConfigError,
>)
    ensures
        match r {
            Ok(s) => {
                &&& s.config_path == config_path
                &&& s.provider == choice.provider
                &&& s.raw_base_url == choice.raw_base_url
                &&& s.api_key == api_key
                &&& is_http_url(strip_base(choice.raw_base_url@))
                &&& s.root_url@ == trim_end_char(strip_base(choice.raw_base_url@), '/')
            },
            Err(e) => {
                &&& !is_http_url(strip_base(choice.raw_base_url@))
                &&& (e matches ConfigError::InvalidBaseUrl(s) && s@ == choice.raw_base_url@)
            },
        },
{
    let root_url = match normalize_root_url(choice.raw_base_url.as_str()) {
        Ok(u) => u,
        Err(e) => return Err(e),
    };
    Ok(Settings {
        config_path,
        provider: choice.provider,
        root_url,
        raw_base_url: choice.raw_base_url,
        api_key,
    })
}

/// The key shown on screen: `***` for keys of at most 12 bytes, else the first 7
/// and the last 4 bytes of the key around `...`.
pub fn mask_key(key: &str) -> (r: String)
    requires
        key.spec_bytes().len() > 12 ==> vstd::utf8::is_char_boundary(key.spec_bytes(), 7)
            && vstd::utf8::is_char_boundary(key.spec_bytes(), key.spec_bytes().len() - 4),
    ensures
        r@ == if key.spec_bytes().len() <= 12 {
            "***"@
        } else {
            decode_utf8(key.spec_bytes().subrange(0, 7)) + "..."@ + decode_utf8(
                key.spec_bytes().subrange(key.spec_bytes().len() - 4, key.spec_bytes().len() as int),
            )
        },
{
    broadcast use vstd::utf8::encode_utf8_decode_utf8;
    let n = key.as_bytes().len();
    if n <= 12 {
        return "***".to_owned();
    }
    let (head, _) = key.split_at(7);
    let (_, tail) = key.split_at(n - 4);
    let mut r = head.to_owned();
    r.append("...");
    r.append(tail);
    r
}

/// The SHA-256 digest of `data`.
pub uninterp spec fn sha256_digest(data: Seq<u8>) -> Seq<u8>;

/// Calls `sha2::Sha256::digest`; the result is taken to be the SHA-256 digest of
/// `data`, a function of `data` alone, 32 bytes long (the hasher's output size).
/// Nothing else about it is claimed.
#[verifier::external_body]
fn sha256(data: &[u8]) -> (digest: Vec<u8>)
    ensures
        digest@ == sha256_digest(data@),
        digest@.len() == 32,
{
    sha2::Sha256::digest(data).to_vec()
}

/// The lower-case hexadecimal digit of `d < 16`.
pub open spec fn hex_digit(d: nat) -> char {
    if d < 10 {
        (48 + d) as char
    } else {
        (87 + d) as char
    }
}

/// Bytes in lower-case hexadecimal, two digits each (what `{:x}` prints for a digest).
pub open spec fn hex_lower(bytes: Seq<u8>) -> Seq<char>
    decreases bytes.len(),
{
    if bytes.len() == 0 {
        Seq::empty()
    } else {
        hex_lower(bytes.drop_last()) + seq![
            hex_digit(bytes.last() as nat / 16),
            hex_digit(bytes.last() as nat % 16),
        ]
    }
}

proof fn lemma_hex_lower_len(bytes: Seq<u8>)
    ensures
        hex_lower(bytes).len() == 2 * bytes.len(),
    decreases bytes.len(),
{
    if bytes.len() > 0 {
        lemma_hex_lower_len(bytes.drop_last());
    }
}

fn hex_char(d: u8) -> (c: char)
    requires
        d < 16,
    ensures
        c == hex_digit(d as nat),
{
    if d < 10 {
        (48u8 + d) as char
    } else {
        (87u8 + d) as char
    }
}

fn push_bytes(out: &mut Vec<u8>, bytes: &[u8])
    ensures
        final(out)@ == old(out)@ + bytes@,
{
    let mut i: usize = 0;
    while i < bytes.len()
        invariant
            0 <= i <= bytes.len(),
            out@ == old(out)@ + bytes@.take(i as int),
        decreases bytes.len() - i,
    {
        out.push(bytes[i]);
        assert(bytes@.take(i + 1) =~= bytes@.take(i as int).push(bytes@[i as int]));
        i = i + 1;
    }
    assert(bytes@.take(bytes.len() as int) =~= bytes@);
}

/// The cache key of a relay and an API key: the lower-case hex SHA-256 of the root
/// URL's bytes, a zero byte, and the key's bytes.
pub fn fingerprint(root_url: &str, api_key: &str) -> (r: String)
    ensures
        r@ == hex_lower(sha256_digest(root_url.spec_bytes() + seq![0u8] + api_key.spec_bytes())),
        r@.len() == 64,
{
    let mut data: Vec<u8> = Vec::new();
    push_bytes(&mut data, root_url.as_bytes());
    data.push(0u8);
    push_bytes(&mut data, api_key.as_bytes());
    assert(data@ =~= root_url.spec_bytes() + seq![0u8] + api_key.spec_bytes());
    let digest = sha256(data.as_slice());
    let r = hex_string(digest.as_slice());
    proof {
        lemma_hex_lower_len(digest@);
    }
    r
}

/// Bytes in lower-case hexadecimal, two digits each.
pub fn hex_string(bytes: &[u8]) -> (r: String)
    ensures
        r@ == hex_lower(bytes@),
{
    let mut r = String::new();
    let mut i: usize = 0;
    while i < bytes.len()
        invariant
            0 <= i <= bytes.len(),
            r@ == hex_lower(bytes@.take(i as int)),
        decreases bytes.len() - i,
    {
        let b = bytes[i];
        crate::text::push_char(&mut r, hex_char(b / 16));
        crate::text::push_char(&mut r, hex_char(b % 16));
        assert(bytes@.take(i + 1).drop_last() =~= bytes@.take(i as int));
        i = i + 1;
    }
    assert(bytes@.take(bytes.len() as int) =~= bytes@);
    r
}

} // verus!
