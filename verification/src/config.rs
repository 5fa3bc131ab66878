//! Settings: the configuration document, environment overrides and the
//! defaults behind them.  The environment is read by the caller and handed
//! in as an `EnvRead`.
use vstd::prelude::*;
use crate::config_registry::{
    entry_views, member, number, number_spec, parse_document, parse_document_spec, JsonScalar,
    ScalarView,
};
use crate::number::{decimal, parse_unsigned, parse_unsigned_spec, u64_text};
use crate::text::{chars_of, owned, push_str, trim, trim_exec};

verus! {

/// Whether a configuration document follows the rules.
pub fn validate_document(text: &str) -> (r: Result<(), String>)
    ensures
        match r {
            Ok(()) => parse_document_spec(text@) is Ok,
            Err(e) => parse_document_spec(text@) == Err::<Seq<(Seq<char>, ScalarView)>, Seq<char>>(e@),
        },
{
    match parse_document(text) {
        Ok(_) => Ok(()),
        Err(e) => Err(e),
    }
}

/// What reading an environment variable gave.
pub enum EnvRead {
    Absent,
    Value(String),
    /// Present but not Unicode: the message of the error.
    NotUnicode(String),
}

pub enum EnvReadView {
    Absent,
    Value(Seq<char>),
    NotUnicode(Seq<char>),
}

impl View for EnvRead {
    type V = EnvReadView;

    open spec fn view(&self) -> EnvReadView {
        match self {
            EnvRead::Absent => EnvReadView::Absent,
            EnvRead::Value(v) => EnvReadView::Value(v@),
            EnvRead::NotUnicode(m) => EnvReadView::NotUnicode(m@),
        }
    }
}

pub open spec fn env_text_spec(name: Seq<char>, read: EnvReadView) -> Result<Option<Seq<char>>, Seq<char>> {
    match read {
        EnvReadView::Absent => Ok(None),
        EnvReadView::NotUnicode(m) => Err(m),
        EnvReadView::Value(v) => if trim(v).len() == 0 {
            Err(name + " must not be empty"@)
        } else {
            Ok(Some(v))
        },
    }
}

/// An environment override: absent, or a value that must not be blank.
pub fn env_text(name: &str, read: EnvRead) -> (r: Result<Option<String>, String>)
    ensures
        match r {
            Ok(Some(v)) => env_text_spec(name@, read@) == Ok::<Option<Seq<char>>, Seq<char>>(Some(v@)),
            Ok(None) => env_text_spec(name@, read@) == Ok::<Option<Seq<char>>, Seq<char>>(None),
            Err(e) => env_text_spec(name@, read@) == Err::<Option<Seq<char>>, Seq<char>>(e@),
        },
{
    match read {
        EnvRead::Absent => Ok(None),
        EnvRead::NotUnicode(m) => Err(m),
        EnvRead::Value(v) => {
            let c = chars_of(v.as_str());
            let t = trim_exec(c.as_slice());
            if t.len() == 0 {
                let mut e = owned(name);
                push_str(&mut e, " must not be empty");
                Err(e)
            } else {
                Ok(Some(v))
            }
        },
    }
}

pub open spec fn env_integer_spec(name: Seq<char>, read: EnvReadView, min: u64, max: u64) -> Result<Option<u64>, Seq<char>> {
    match env_text_spec(name, read) {
        Err(e) => Err(e),
        Ok(None) => Ok(None),
        Ok(Some(raw)) => match parse_unsigned_spec(raw, 0xffff_ffff_ffff_ffff) {
            Err(_) => Err(name + " must be an integer"@),
            Ok(v) => if v < min || v > max {
                Err(name + " is outside "@ + decimal(min as nat) + ".."@ + decimal(max as nat))
            } else {
                Ok(Some(v as u64))
            },
        },
    }
}

/// An integer environment override within `min..=max`.
pub fn env_integer(name: &str, read: EnvRead, min: u64, max: u64) -> (r: Result<Option<u64>, String>)
    ensures
        match r {
            Ok(v) => env_integer_spec(name@, read@, min, max) == Ok::<Option<u64>, Seq<char>>(v),
            Err(e) => env_integer_spec(name@, read@, min, max) == Err::<Option<u64>, Seq<char>>(e@),
        },
{
    let raw = match env_text(name, read) {
        Err(e) => return Err(e),
        Ok(None) => return Ok(None),
        Ok(Some(raw)) => raw,
    };
    let value = match parse_unsigned(raw.as_str(), 0xffff_ffff_ffff_ffff) {
        Err(_) => {
            let mut e = owned(name);
            push_str(&mut e, " must be an integer");
            return Err(e);
        },
        Ok(v) => v,
    };
    if value < min || value > max {
        let mut e = owned(name);
        push_str(&mut e, " is outside ");
        push_str(&mut e, u64_text(min).as_str());
        push_str(&mut e, "..");
        push_str(&mut e, u64_text(max).as_str());
        return Err(e);
    }
    Ok(Some(value))
}

pub open spec fn prompt_tokens_spec(read: EnvReadView, values: Seq<(Seq<char>, ScalarView)>) -> Result<Option<u64>, Seq<char>> {
    match env_integer_spec("LKJAGENT_PROMPT_CONTEXT_TOKENS"@, read, 2048, 262144) {
        Err(e) => Err(e),
        Ok(Some(v)) => Ok(Some(v)),
        Ok(None) => Ok(Some(number_spec(values, "prompt_context_tokens"@))),
    }
}

/// The prompt's context-token cap: the environment override, else the
/// document's setting, else its default.
pub fn prompt_max_context_tokens(read: EnvRead, values: &Vec<(String, JsonScalar)>) -> (r: Result<Option<u64>, String>)
    ensures
        match r {
            Ok(v) => prompt_tokens_spec(read@, entry_views(values@)) == Ok::<Option<u64>, Seq<char>>(v),
            Err(e) => prompt_tokens_spec(read@, entry_views(values@)) == Err::<Option<u64>, Seq<char>>(e@),
        },
{
    match env_integer("LKJAGENT_PROMPT_CONTEXT_TOKENS", read, 2048, 262144) {
        Err(e) => Err(e),
        Ok(Some(v)) => Ok(Some(v)),
        Ok(None) => Ok(Some(number(values, "prompt_context_tokens"))),
    }
}

pub open spec fn source_spec(env_present: bool, values: Option<Seq<(Seq<char>, ScalarView)>>, key: Seq<char>) -> Seq<char> {
    if env_present {
        "env"@
    } else {
        match values {
            Some(v) => match member(v, key) {
                Some(ScalarView::Text(t)) => if trim(t).len() > 0 {
                    "config"@
                } else {
                    "absent"@
                },
                _ => "absent"@,
            },
            None => "absent"@,
        }
    }
}

/// Where an endpoint setting comes from: the environment, the document, or nowhere.
pub fn source(env_present: bool, values: Option<&Vec<(String, JsonScalar)>>, key: &str) -> (r: &'static str)
    ensures
        r@ == source_spec(
            env_present,
            match values {
                Some(v) => Some(entry_views(v@)),
                None => None,
            },
            key@,
        ),
{
    if env_present {
        return "env";
    }
    match values {
        Some(v) => match crate::config_registry::text(v, key) {
            Some(t) => {
                let c = chars_of(t.as_str());
                let tr = trim_exec(c.as_slice());
                if tr.len() > 0 {
                    "config"
                } else {
                    "absent"
                }
            },
            None => "absent",
        },
        None => "absent",
    }
}

pub open spec fn workspace_root_spec(read: EnvReadView, values: Seq<(Seq<char>, ScalarView)>) -> Result<Option<Seq<char>>, Seq<char>> {
    match env_text_spec("LKJAGENT_WORKSPACE_ROOT"@, read) {
        Err(e) => Err(e),
        Ok(Some(v)) => Ok(Some(v)),
        Ok(None) => match member(values, "workspace_root"@) {
            Some(ScalarView::Text(t)) => Ok(Some(t)),
            _ => Ok(None),
        },
    }
}

/// The configured workspace root: the environment override, else the
/// document's setting; `None` leaves the default to the caller, which also
/// resolves a relative root against the data directory.
pub fn workspace_root(read: EnvRead, values: &Vec<(String, JsonScalar)>) -> (r: Result<Option<String>, String>)
    ensures
        match r {
            Ok(Some(v)) => workspace_root_spec(read@, entry_views(values@)) == Ok::<Option<Seq<char>>, Seq<char>>(Some(v@)),
            Ok(None) => workspace_root_spec(read@, entry_views(values@)) == Ok::<Option<Seq<char>>, Seq<char>>(None),
            Err(e) => workspace_root_spec(read@, entry_views(values@)) == Err::<Option<Seq<char>>, Seq<char>>(e@),
        },
{
    match env_text("LKJAGENT_WORKSPACE_ROOT", read) {
        Err(e) => Err(e),
        Ok(Some(v)) => Ok(Some(v)),
        Ok(None) => Ok(crate::config_registry::text(values, "workspace_root")),
    }
}

/// `configured` as a path from the data directory: an absolute root as it
/// is, a relative one joined under `data_dir`.
pub open spec fn root_path_spec(data_dir: Seq<char>, configured: Seq<char>) -> Seq<char> {
    if configured.len() > 0 && configured[0] == '/' {
        configured
    } else if data_dir.len() == 0 {
        configured
    } else if data_dir.last() == '/' {
        data_dir + configured
    } else {
        data_dir + "/"@ + configured
    }
}

/// Joins a configured root under the data directory unless it is absolute.
pub fn root_path(data_dir: &str, configured: &str) -> (r: String)
    ensures
        r@ == root_path_spec(data_dir@, configured@),
{
    let c = chars_of(configured);
    let d = chars_of(data_dir);
    if c.len() > 0 && c[0] == '/' {
        return owned(configured);
    }
    if d.len() == 0 {
        return owned(configured);
    }
    let mut s = owned(data_dir);
    if d[d.len() - 1] != '/' {
        push_str(&mut s, "/");
    }
    push_str(&mut s, configured);
    s
}

pub open spec fn workspace_root_of_spec(data_dir: Seq<char>, read: EnvReadView, document: Option<Seq<char>>) -> Result<Seq<char>, Seq<char>> {
    let values = match document {
        None => Ok(Seq::empty()),
        Some(t) => parse_document_spec(t),
    };
    match values {
        Err(e) => Err(e),
        Ok(v) => match workspace_root_spec(read, v) {
            Err(e) => Err(e),
            Ok(Some(c)) => Ok(root_path_spec(data_dir, c)),
            Ok(None) => Ok(root_path_spec(data_dir, "workspace"@)),
        },
    }
}

/// The workspace root for a data directory whose `lkjagent.json` holds
/// `document` (none when there is no such file): the document is checked
/// first; then the environment's root, else the document's, else
/// `workspace`, joined under the data directory when relative.
pub fn workspace_root_of(data_dir: &str, read: EnvRead, document: Option<&str>) -> (r: Result<String, String>)
    ensures
        match r {
            Ok(p) => workspace_root_of_spec(data_dir@, read@, match document {
                Some(t) => Some(t@),
                None => None,
            }) == Ok::<Seq<char>, Seq<char>>(p@),
            Err(e) => workspace_root_of_spec(data_dir@, read@, match document {
                Some(t) => Some(t@),
                None => None,
            }) == Err::<Seq<char>, Seq<char>>(e@),
        },
{
    let values = match document {
        None => {
            let v: Vec<(String, JsonScalar)> = Vec::new();
            assert(entry_views(v@) =~= Seq::empty());
            v
        },
        Some(t) => match parse_document(t) {
            Err(e) => return Err(e),
            Ok(v) => v,
        },
    };
    match workspace_root(read, &values) {
        Err(e) => Err(e),
        Ok(Some(c)) => Ok(root_path(data_dir, c.as_str())),
        Ok(None) => {
            proof {
                reveal_strlit("workspace");
            }
            Ok(root_path(data_dir, "workspace"))
        },
    }
}

/// The text setting `key` of the document, if it is a text.
pub open spec fn text_setting(values: Seq<(Seq<char>, ScalarView)>, key: Seq<char>) -> Option<Seq<char>> {
    match member(values, key) {
        Some(ScalarView::Text(t)) => Some(t),
        _ => None,
    }
}

/// An override, else the document's text, else the default.
pub open spec fn setting_or(over: Option<Seq<char>>, values: Seq<(Seq<char>, ScalarView)>, key: Seq<char>, default: Seq<char>) -> Seq<char> {
    match over {
        Some(v) => v,
        None => match text_setting(values, key) {
            Some(t) => t,
            None => default,
        },
    }
}

/// The endpoint a client calls: its URL, model and timeout in seconds.
pub struct ClientSettings {
    pub url: String,
    pub model: String,
    pub timeout_seconds: u64,
}

pub open spec fn client_spec(url: EnvReadView, model: EnvReadView, timeout: EnvReadView, values: Seq<(Seq<char>, ScalarView)>) -> Result<(Seq<char>, Seq<char>, u64), Seq<char>> {
    match env_text_spec("LKJAGENT_ENDPOINT_URL"@, url) {
        Err(e) => Err(e),
        Ok(u) => match env_text_spec("LKJAGENT_MODEL"@, model) {
            Err(e) => Err(e),
            Ok(m) => match env_integer_spec("LKJAGENT_ENDPOINT_TIMEOUT_SECONDS"@, timeout, 1, 1800) {
                Err(e) => Err(e),
                Ok(t) => Ok((
                    setting_or(u, values, "endpoint_url"@, "http://127.0.0.1:8080"@),
                    setting_or(m, values, "endpoint_model"@, "local-model"@),
                    match t {
                        Some(t) => t,
                        None => number_spec(values, "endpoint_timeout_seconds"@),
                    },
                )),
            },
        },
    }
}

/// The endpoint settings from the environment overrides (URL, model and
/// timeout, read in that order) and the configuration document.
pub fn client_settings(url: EnvRead, model: EnvRead, timeout: EnvRead, values: &Vec<(String, JsonScalar)>) -> (r: Result<ClientSettings, String>)
    ensures
        match (r, client_spec(url@, model@, timeout@, entry_views(values@))) {
            (Ok(c), Ok((u, m, t))) => c.url@ == u && c.model@ == m && c.timeout_seconds == t,
            (Err(e), Err(s)) => e@ == s,
            _ => false,
        },
{
    let u = env_text("LKJAGENT_ENDPOINT_URL", url)?;
    let m = env_text("LKJAGENT_MODEL", model)?;
    let t = env_integer("LKJAGENT_ENDPOINT_TIMEOUT_SECONDS", timeout, 1, 1800)?;
    let url = match u {
        Some(v) => v,
        None => match crate::config_registry::text(values, "endpoint_url") {
            Some(v) => v,
            None => owned("http://127.0.0.1:8080"),
        },
    };
    let model = match m {
        Some(v) => v,
        None => match crate::config_registry::text(values, "endpoint_model") {
            Some(v) => v,
            None => owned("local-model"),
        },
    };
    let timeout_seconds = match t {
        Some(v) => v,
        None => number(values, "endpoint_timeout_seconds"),
    };
    Ok(ClientSettings { url, model, timeout_seconds })
}

/// The environment variable that holds the endpoint's credential.
pub fn api_key_env(values: Option<&Vec<(String, JsonScalar)>>) -> (r: String)
    ensures
        r@ == match values {
            Some(v) => match text_setting(entry_views(v@), "endpoint_api_key_env"@) {
                Some(t) => t,
                None => "LKJAGENT_API_KEY"@,
            },
            None => "LKJAGENT_API_KEY"@,
        },
{
    match values {
        Some(v) => match crate::config_registry::text(v, "endpoint_api_key_env") {
            Some(t) => t,
            None => owned("LKJAGENT_API_KEY"),
        },
        None => owned("LKJAGENT_API_KEY"),
    }
}

/// The endpoint line of the diagnostics: where the URL and model come from,
/// and whether a credential is set.
pub fn endpoint_state(url: &str, model: &str, credential_present: bool) -> (r: String)
    ensures
        r@ == "url="@ + url@ + " model="@ + model@ + " credential="@
            + if credential_present { "env"@ } else { "absent"@ },
{
    let mut r = owned("url=");
    push_str(&mut r, url);
    push_str(&mut r, " model=");
    push_str(&mut r, model);
    push_str(&mut r, " credential=");
    push_str(&mut r, if credential_present { "env" } else { "absent" });
    r
}

} // verus!
