//! The configuration file: its two formats, and the services that it names.

use crate::json::{
    member, parse_json, parse_toml, parsed_json, parsed_toml, pretty_json, print_json_pretty,
    print_toml, printed_toml, quote, quoted, text_member, Json, JsonView, TomlError,
};
use crate::text::{push_str, starts_with, str_eq, string_of, to_chars};
use vstd::prelude::*;

verus! {

/// A service that the configuration names.
#[derive(Debug)]
pub struct ServiceConfig {
    pub base_url: String,
    pub api_key: String,
    /// Extra headers, in the order of the document.
    pub custom_headers: Vec<(String, String)>,
}

/// The mathematical value of a [`ServiceConfig`].
pub struct ServiceConfigView {
    pub base_url: Seq<char>,
    pub api_key: Seq<char>,
    pub custom_headers: Seq<(Seq<char>, Seq<char>)>,
}

/// The texts of a sequence of pairs of strings.
pub open spec fn pair_texts(pairs: Seq<(String, String)>) -> Seq<(Seq<char>, Seq<char>)> {
    pairs.map_values(|p: (String, String)| (p.0@, p.1@))
}

impl View for ServiceConfig {
    type V = ServiceConfigView;

    open spec fn view(&self) -> ServiceConfigView {
        ServiceConfigView {
            base_url: self.base_url@,
            api_key: self.api_key@,
            custom_headers: pair_texts(self.custom_headers@),
        }
    }
}

/// The members whose value is a string, in order.
pub open spec fn string_members(members: Seq<(Seq<char>, JsonView)>) -> Seq<
    (Seq<char>, Seq<char>),
>
    decreases members.len(),
{
    if members.len() == 0 {
        Seq::empty()
    } else {
        let front = string_members(members.drop_last());
        match members.last().1 {
            JsonView::Text(t) => front.push((members.last().0, t)),
            _ => front,
        }
    }
}

/// The extra headers of a service: the string members of its
/// `custom_headers`, none where that is missing or no object.
pub open spec fn custom_headers_spec(service: JsonView) -> Seq<(Seq<char>, Seq<char>)> {
    match member(service, "custom_headers"@) {
        Some(JsonView::Object(members)) => string_members(members),
        _ => Seq::empty(),
    }
}

/// The service that a configuration names under `services.<key>`: it needs
/// a `base_url` and an `api_key`, both strings.
pub open spec fn service_config_spec(config: JsonView, key: Seq<char>) -> Option<
    ServiceConfigView,
> {
    match member(config, "services"@) {
        Some(services) => match member(services, key) {
            Some(service) => match (
                text_member(service, "base_url"@),
                text_member(service, "api_key"@),
            ) {
                (Some(base_url), Some(api_key)) => Some(
                    ServiceConfigView {
                        base_url,
                        api_key,
                        custom_headers: custom_headers_spec(service),
                    },
                ),
                _ => None,
            },
            None => None,
        },
        None => None,
    }
}

fn custom_headers(service: &Json) -> (r: Vec<(String, String)>)
    ensures
        pair_texts(r@) == custom_headers_spec(service@),
{
    let mut out: Vec<(String, String)> = Vec::new();
    assert(pair_texts(out@) =~= Seq::<(Seq<char>, Seq<char>)>::empty());
    let listed = match service.get("custom_headers") {
        Some(l) => l,
        None => {
            return out;
        },
    };
    let members = match listed.as_object() {
        Some(m) => m,
        None => {
            return out;
        },
    };
    let ghost mv = Json::members_view(members@);
    let mut i: usize = 0;
    assert(mv.take(0) =~= Seq::<(Seq<char>, JsonView)>::empty());
    while i < members.len()
        invariant
            i <= members.len(),
            mv == Json::members_view(members@),
            pair_texts(out@) == string_members(mv.take(i as int)),
        decreases members.len() - i,
    {
        proof {
            let upto = mv.take(i + 1);
            assert(upto.drop_last() =~= mv.take(i as int));
            assert(upto.last() == (members@[i as int].0@, members@[i as int].1@));
        }
        match members[i].1.as_str() {
            Some(value) => {
                let ghost before = out@;
                let pair = (members[i].0.clone(), string_of(&to_chars(value)));
                let ghost pv = (pair.0@, pair.1@);
                out.push(pair);
                assert(pair_texts(out@) =~= pair_texts(before).push(pv));
            },
            None => {},
        }
        i += 1;
    }
    assert(mv.take(members.len() as int) =~= mv);
    out
}

/// The service that a configuration names under `services.<key>`.
pub fn parse_service_config(config: &Json, key: &str) -> (r: Option<ServiceConfig>)
    ensures
        match r {
            Some(s) => service_config_spec(config@, key@) == Some(s@),
            None => service_config_spec(config@, key@) is None,
        },
{
    let services = match config.get("services") {
        Some(s) => s,
        None => {
            return None;
        },
    };
    let service = match services.get(key) {
        Some(s) => s,
        None => {
            return None;
        },
    };
    let base_url = match service.text_at("base_url") {
        Some(t) => string_of(&to_chars(t)),
        None => {
            return None;
        },
    };
    let api_key = match service.text_at("api_key") {
        Some(t) => string_of(&to_chars(t)),
        None => {
            return None;
        },
    };
    Some(ServiceConfig { base_url, api_key, custom_headers: custom_headers(service) })
}

/// The headers of a request to a service: the key, the content that is
/// accepted where the answer is to be Markdown, the id of the tool call,
/// the headers that every request carries, and the service's own.
pub open spec fn service_headers_spec(
    service: ServiceConfigView,
    tool_call_id: Seq<char>,
    common: Seq<(Seq<char>, Seq<char>)>,
    markdown: bool,
) -> Seq<(Seq<char>, Seq<char>)> {
    seq![("Authorization"@, "Bearer "@ + service.api_key)] + (if markdown {
        seq![("Accept"@, "text/markdown"@)]
    } else {
        Seq::empty()
    }) + seq![("X-Msh-Tool-Call-Id"@, tool_call_id)] + common + service.custom_headers
}

fn push_pairs(out: &mut Vec<(String, String)>, more: &Vec<(String, String)>)
    ensures
        pair_texts(final(out)@) == pair_texts(old(out)@) + pair_texts(more@),
{
    let mut i: usize = 0;
    assert(pair_texts(more@).take(0) =~= Seq::<(Seq<char>, Seq<char>)>::empty());
    assert(pair_texts(out@) =~= pair_texts(old(out)@) + pair_texts(more@).take(0));
    while i < more.len()
        invariant
            i <= more.len(),
            pair_texts(out@) == pair_texts(old(out)@) + pair_texts(more@).take(i as int),
        decreases more.len() - i,
    {
        let ghost before = out@;
        let pair = (more[i].0.clone(), more[i].1.clone());
        out.push(pair);
        assert(pair_texts(out@) =~= pair_texts(before).push((more@[i as int].0@, more@[i as int].1@)));
        assert(pair_texts(more@).take(i + 1) =~= pair_texts(more@).take(i as int).push(
            (more@[i as int].0@, more@[i as int].1@),
        ));
        i += 1;
    }
    assert(pair_texts(more@).take(more.len() as int) =~= pair_texts(more@));
}

fn pair(name: &str, value: String) -> (r: (String, String))
    ensures
        r.0@ == name@,
        r.1@ == value@,
{
    (string_of(&to_chars(name)), value)
}

/// The headers of a request to a service.
pub fn service_headers(
    service: &ServiceConfig,
    tool_call_id: &str,
    common: &Vec<(String, String)>,
    markdown: bool,
) -> (r: Vec<(String, String)>)
    ensures
        pair_texts(r@) == service_headers_spec(
            service@,
            tool_call_id@,
            pair_texts(common@),
            markdown,
        ),
{
    let mut out: Vec<(String, String)> = Vec::new();
    out.push(pair("Authorization", crate::text::concat2("Bearer ", service.api_key.as_str())));
    assert(pair_texts(out@) =~= seq![("Authorization"@, "Bearer "@ + service.api_key@)]);
    let ghost h0 = pair_texts(out@);
    if markdown {
        out.push(pair("Accept", string_of(&to_chars("text/markdown"))));
        assert(pair_texts(out@) =~= h0 + seq![("Accept"@, "text/markdown"@)]);
    } else {
        assert(pair_texts(out@) =~= h0 + Seq::<(Seq<char>, Seq<char>)>::empty());
    }
    let ghost h1 = pair_texts(out@);
    out.push(pair("X-Msh-Tool-Call-Id", string_of(&to_chars(tool_call_id))));
    assert(pair_texts(out@) =~= h1 + seq![("X-Msh-Tool-Call-Id"@, tool_call_id@)]);
    push_pairs(&mut out, common);
    push_pairs(&mut out, &service.custom_headers);
    out
}

/// What identifies this client to the services. The caller supplies what
/// the machine knows of itself.
pub open spec fn common_headers_spec(
    device_name: Seq<char>,
    arch: Seq<char>,
    os: Seq<char>,
    device_id: Seq<char>,
) -> Seq<(Seq<char>, Seq<char>)> {
    seq![
        ("User-Agent"@, "KimiCLI/0.1.0"@),
        ("X-Msh-Platform"@, "kimi_cli"@),
        ("X-Msh-Version"@, "0.1.0"@),
        ("X-Msh-Device-Name"@, device_name),
        ("X-Msh-Device-Model"@, arch),
        ("X-Msh-Os-Version"@, os + " "@ + arch),
        ("X-Msh-Device-Id"@, device_id),
    ]
}

/// The headers that every request carries, with the name that the
/// machine gives itself.
pub fn common_headers(arch: &str, os: &str, device_id: &str) -> (r: Vec<(String, String)>)
    ensures
        exists|device_name: Seq<char>|
            pair_texts(r@) == #[trigger] common_headers_spec(device_name, arch@, os@, device_id@),
{
    let name = crate::clock::host_name();
    common_headers_for(name.as_str(), arch, os, device_id)
}

/// The headers that every request carries.
pub fn common_headers_for(device_name: &str, arch: &str, os: &str, device_id: &str) -> (r: Vec<
    (String, String),
>)
    ensures
        pair_texts(r@) == common_headers_spec(device_name@, arch@, os@, device_id@),
{
    let mut out: Vec<(String, String)> = Vec::new();
    out.push(pair("User-Agent", string_of(&to_chars("KimiCLI/0.1.0"))));
    out.push(pair("X-Msh-Platform", string_of(&to_chars("kimi_cli"))));
    out.push(pair("X-Msh-Version", string_of(&to_chars("0.1.0"))));
    out.push(pair("X-Msh-Device-Name", string_of(&to_chars(device_name))));
    out.push(pair("X-Msh-Device-Model", string_of(&to_chars(arch))));
    out.push(pair("X-Msh-Os-Version", crate::text::concat3(os, " ", arch)));
    out.push(pair("X-Msh-Device-Id", string_of(&to_chars(device_id))));
    assert(pair_texts(out@) =~= common_headers_spec(device_name@, arch@, os@, device_id@));
    out
}

/// What a search asks of the service.
#[derive(Debug)]
pub struct SearchRequest {
    pub text_query: String,
    pub limit: usize,
    pub enable_page_crawling: bool,
    pub timeout_seconds: u64,
}

/// Seconds that the search service is given.
pub const SEARCH_TIMEOUT_SECS: u64 = 30;

/// What a search asks of the service.
pub fn search_request(query: &str, limit: usize, include_content: bool) -> (r: SearchRequest)
    ensures
        r.text_query@ == query@,
        r.limit == limit,
        r.enable_page_crawling == include_content,
        r.timeout_seconds == SEARCH_TIMEOUT_SECS,
{
    SearchRequest {
        text_query: string_of(&to_chars(query)),
        limit,
        enable_page_crawling: include_content,
        timeout_seconds: SEARCH_TIMEOUT_SECS,
    }
}

/// The user agent of a direct fetch.
pub fn browser_user_agent() -> (r: String)
    ensures
        r@ == "Mozilla/5.0 (Windows NT 10.0; Win64; x64) AppleWebKit/537.36 (KHTML, like Gecko) Chrome/91.0.4472.124 Safari/537.36"@,
{
    string_of(
        &to_chars(
            "Mozilla/5.0 (Windows NT 10.0; Win64; x64) AppleWebKit/537.36 (KHTML, like Gecko) Chrome/91.0.4472.124 Safari/537.36",
        ),
    )
}

// ---------------------------------------------------------------------------
// Formats
// ---------------------------------------------------------------------------

/// The format of a configuration file.
#[derive(Clone, Copy, Debug, PartialEq, Eq, Structural)]
pub enum ConfigFormat {
    Json,
    Toml,
}

/// The extension of a path: the part of its file name behind the last dot,
/// as `Path::extension` extracts it, or `None` where the file name has none.
pub uninterp spec fn extension_of(path: Seq<char>) -> Option<Seq<char>>;

/// `Path::extension` gives the part of a file name behind its last dot. What
/// it gives depends on the text of the path alone; which part of the text
/// is the file name follows the rules of the platform that the library is
/// built for.
#[verifier::external_body]
fn path_extension(path: &str) -> (r: Option<String>)
    ensures
        match r {
            Some(extension) => extension_of(path@) == Some(extension@),
            None => extension_of(path@) is None,
        },
{
    std::path::Path::new(path).extension().and_then(|e| e.to_str()).map(|e| e.to_string())
}

/// The format that an extension stands for: JSON for `json`, TOML for every
/// other extension and for none.
pub open spec fn format_of_extension(extension: Option<Seq<char>>) -> ConfigFormat {
    if extension == Some("json"@) {
        ConfigFormat::Json
    } else {
        ConfigFormat::Toml
    }
}

/// The format of a configuration file, by its name.
pub open spec fn config_format_spec(path: Seq<char>) -> ConfigFormat {
    format_of_extension(extension_of(path))
}

/// The format that an extension stands for.
pub fn format_for_extension(extension: Option<&str>) -> (r: ConfigFormat)
    ensures
        r == format_of_extension(
            match extension {
                Some(e) => Some(e@),
                None => None,
            },
        ),
{
    match extension {
        Some(e) => if str_eq(e, "json") {
            ConfigFormat::Json
        } else {
            ConfigFormat::Toml
        },
        None => ConfigFormat::Toml,
    }
}

/// The format of a configuration file, by its name: JSON where the
/// extension is `json`, TOML otherwise.
pub fn config_format(path: &str) -> (r: ConfigFormat)
    ensures
        r == config_format_spec(path@),
{
    match path_extension(path) {
        Some(extension) => format_for_extension(Some(extension.as_str())),
        None => format_for_extension(None),
    }
}

/// The document that a text holds in the given format.
pub open spec fn parsed_config(format: ConfigFormat, raw: Seq<char>) -> Option<JsonView> {
    match format {
        ConfigFormat::Json => parsed_json(raw),
        ConfigFormat::Toml => parsed_toml(raw),
    }
}

/// The text of a document in the given format.
pub open spec fn printed_config(format: ConfigFormat, doc: JsonView) -> Option<Seq<char>> {
    match format {
        ConfigFormat::Json => pretty_json(doc),
        ConfigFormat::Toml => printed_toml(doc),
    }
}

/// What [`parse_config_as`] returns: the document, or an error that names
/// the format and the file.
pub open spec fn parse_outcome(
    r: Result<Json, String>,
    format: ConfigFormat,
    path: Seq<char>,
    raw: Seq<char>,
) -> bool {
    match r {
        Ok(doc) => parsed_config(format, raw) == Some(doc@),
        Err(e) => parsed_config(format, raw) is None && (match format {
            ConfigFormat::Json => starts_with(e@, "Invalid JSON in "@ + quoted(path) + ": "@),
            ConfigFormat::Toml => starts_with(e@, "Invalid TOML in "@ + quoted(path) + ": "@)
                || starts_with(e@, "Failed to convert TOML to JSON: "@),
        }),
    }
}

fn message(prefix: &str, quoted_path: Option<&str>, detail: &str) -> (r: String)
    ensures
        match quoted_path {
            Some(p) => r@ == prefix@ + p@ + ": "@ + detail@ && starts_with(
                r@,
                prefix@ + p@ + ": "@,
            ),
            None => r@ == prefix@ + detail@ && starts_with(r@, prefix@),
        },
{
    let mut out = to_chars(prefix);
    match quoted_path {
        Some(p) => {
            push_str(&mut out, p);
            push_str(&mut out, ": ");
            let ghost head = out@;
            push_str(&mut out, detail);
            assert(out@.subrange(0, head.len() as int) =~= head);
        },
        None => {
            let ghost head = out@;
            push_str(&mut out, detail);
            assert(out@.subrange(0, head.len() as int) =~= head);
        },
    }
    string_of(&out)
}

/// Reads the content of a configuration file in the given format. The path
/// serves the error message only.
pub fn parse_config_as(format: ConfigFormat, path: &str, raw: &str) -> (r: Result<Json, String>)
    ensures
        parse_outcome(r, format, path@, raw@),
{
    match format {
        ConfigFormat::Json => match parse_json(raw) {
            Ok(doc) => Ok(doc),
            Err(e) => {
                let q = quote(path);
                Err(message("Invalid JSON in ", Some(q.as_str()), e.as_str()))
            },
        },
        ConfigFormat::Toml => match parse_toml(raw) {
            Ok(doc) => Ok(doc),
            Err(TomlError::Syntax { message: e }) => {
                let q = quote(path);
                Err(message("Invalid TOML in ", Some(q.as_str()), e.as_str()))
            },
            Err(TomlError::Conversion { message: e }) => Err(
                message("Failed to convert TOML to JSON: ", None, e.as_str()),
            ),
        },
    }
}

/// Reads the content of a configuration file in the format that its name
/// tells.
pub fn parse_config_content(path: &str, raw: &str) -> (r: Result<Json, String>)
    ensures
        parse_outcome(r, ConfigFormat::Json, path@, raw@) || parse_outcome(
            r,
            ConfigFormat::Toml,
            path@,
            raw@,
        ),
{
    parse_config_as(config_format(path), path, raw)
}

/// What [`encode_config_as`] returns: the text, or an error that names the
/// format.
pub open spec fn encode_outcome(r: Result<String, String>, format: ConfigFormat, doc: JsonView) -> bool {
    match r {
        Ok(text) => printed_config(format, doc) == Some(text@),
        Err(e) => printed_config(format, doc) is None && (match format {
            ConfigFormat::Json => starts_with(e@, "Failed to encode JSON: "@),
            ConfigFormat::Toml => starts_with(e@, "Failed to encode TOML: "@),
        }),
    }
}

/// Writes a document in the given format.
pub fn encode_config_as(format: ConfigFormat, doc: &Json) -> (r: Result<String, String>)
    ensures
        encode_outcome(r, format, doc@),
{
    match format {
        ConfigFormat::Json => match print_json_pretty(doc) {
            Ok(text) => Ok(text),
            Err(e) => Err(message("Failed to encode JSON: ", None, e.as_str())),
        },
        ConfigFormat::Toml => match print_toml(doc) {
            Ok(text) => Ok(text),
            Err(e) => Err(message("Failed to encode TOML: ", None, e.as_str())),
        },
    }
}

/// Writes a document in the format that the name of the file tells.
pub fn encode_config_content(path: &str, doc: &Json) -> (r: Result<String, String>)
    ensures
        encode_outcome(r, ConfigFormat::Json, doc@) || encode_outcome(
            r,
            ConfigFormat::Toml,
            doc@,
        ),
{
    encode_config_as(config_format(path), doc)
}

// ---------------------------------------------------------------------------
// The default configuration
// ---------------------------------------------------------------------------

/// An object without members.
pub open spec fn empty_object() -> JsonView {
    JsonView::Object(Seq::empty())
}

/// The configuration that is written where none exists.
pub open spec fn default_config_spec() -> JsonView {
    JsonView::Object(
        seq![
            ("default_model"@, JsonView::Text(Seq::empty())),
            ("default_thinking"@, JsonView::Bool(false)),
            ("models"@, empty_object()),
            ("providers"@, empty_object()),
            (
                "loop_control"@,
                JsonView::Object(
                    seq![
                        ("max_steps_per_turn"@, JsonView::Int(100)),
                        ("max_retries_per_step"@, JsonView::Int(3)),
                        ("max_ralph_iterations"@, JsonView::Int(0)),
                        ("reserved_context_size"@, JsonView::Int(50000)),
                    ],
                ),
            ),
            ("services"@, empty_object()),
            (
                "mcp"@,
                JsonView::Object(
                    seq![
                        (
                            "client"@,
                            JsonView::Object(seq![("tool_call_timeout_ms"@, JsonView::Int(60000))]),
                        ),
                    ],
                ),
            ),
        ],
    )
}

fn entry(key: &str, value: Json) -> (r: (String, Json))
    ensures
        r.0@ == key@,
        r.1 == value,
{
    (string_of(&to_chars(key)), value)
}

fn no_members() -> (r: Json)
    ensures
        r@ == empty_object(),
{
    let r = Json::Object(Vec::new());
    assert(Json::members_view(Seq::<(String, Json)>::empty()) =~= Seq::empty());
    r
}

/// The configuration that is written where none exists.
pub fn default_config_data() -> (r: Json)
    ensures
        r@ == default_config_spec(),
{
    let mut control: Vec<(String, Json)> = Vec::new();
    control.push(entry("max_steps_per_turn", Json::Int(100)));
    control.push(entry("max_retries_per_step", Json::Int(3)));
    control.push(entry("max_ralph_iterations", Json::Int(0)));
    control.push(entry("reserved_context_size", Json::Int(50000)));
    assert(Json::members_view(control@) =~= seq![
        ("max_steps_per_turn"@, JsonView::Int(100)),
        ("max_retries_per_step"@, JsonView::Int(3)),
        ("max_ralph_iterations"@, JsonView::Int(0)),
        ("reserved_context_size"@, JsonView::Int(50000)),
    ]);
    let control = Json::Object(control);
    let mut client: Vec<(String, Json)> = Vec::new();
    client.push(entry("tool_call_timeout_ms", Json::Int(60000)));
    assert(Json::members_view(client@) =~= seq![("tool_call_timeout_ms"@, JsonView::Int(60000))]);
    let client = Json::Object(client);
    let ghost client_view = client@;
    let mut mcp: Vec<(String, Json)> = Vec::new();
    mcp.push(entry("client", client));
    assert(Json::members_view(mcp@) =~= seq![("client"@, client_view)]);
    let mcp = Json::Object(mcp);
    let empty_text = Json::Text(String::new());
    assert(empty_text@ == JsonView::Text(Seq::empty()));
    let ghost control_view = control@;
    let ghost mcp_view = mcp@;
    let mut top: Vec<(String, Json)> = Vec::new();
    top.push(entry("default_model", empty_text));
    top.push(entry("default_thinking", Json::Bool(false)));
    top.push(entry("models", no_members()));
    top.push(entry("providers", no_members()));
    top.push(entry("loop_control", control));
    top.push(entry("services", no_members()));
    top.push(entry("mcp", mcp));
    assert(Json::members_view(top@) =~= seq![
        ("default_model"@, JsonView::Text(Seq::empty())),
        ("default_thinking"@, JsonView::Bool(false)),
        ("models"@, empty_object()),
        ("providers"@, empty_object()),
        ("loop_control"@, control_view),
        ("services"@, empty_object()),
        ("mcp"@, mcp_view),
    ]);
    Json::Object(top)
}

// ---------------------------------------------------------------------------
// What the front end is shown of a file
// ---------------------------------------------------------------------------

/// A configuration file: where it is, what it holds as text, and what that
/// text means.
#[derive(Debug)]
pub struct ConfigPayload {
    pub path: String,
    pub raw: String,
    pub data: Json,
}

/// The file of the tool servers: where it is, what it holds as text, and
/// what that text means.
#[derive(Debug)]
pub struct McpPayload {
    pub path: String,
    pub raw: String,
    pub data: Json,
}

/// What is shown of a configuration file with this content; an error where
/// the content is not of the format that the name of the file tells.
pub fn config_payload(path: &str, raw: String) -> (r: Result<ConfigPayload, String>)
    ensures
        match r {
            Ok(p) => p.path@ == path@ && p.raw == raw && (parsed_config(
                ConfigFormat::Json,
                raw@,
            ) == Some(p.data@) || parsed_config(ConfigFormat::Toml, raw@) == Some(p.data@)),
            Err(_) => parsed_config(ConfigFormat::Json, raw@) is None || parsed_config(
                ConfigFormat::Toml,
                raw@,
            ) is None,
        },
{
    match parse_config_content(path, raw.as_str()) {
        Ok(data) => Ok(ConfigPayload { path: string_of(&to_chars(path)), raw, data }),
        Err(e) => Err(e),
    }
}

/// What is shown of the file of the tool servers with this content; an
/// error where the content is no JSON.
pub fn mcp_payload(path: &str, raw: String) -> (r: Result<McpPayload, String>)
    ensures
        match r {
            Ok(p) => p.path@ == path@ && p.raw == raw && parsed_json(raw@) == Some(p.data@),
            Err(e) => parsed_json(raw@) is None && starts_with(e@, "Invalid MCP JSON: "@),
        },
{
    match parse_json(raw.as_str()) {
        Ok(data) => Ok(McpPayload { path: string_of(&to_chars(path)), raw, data }),
        Err(e) => Err(message("Invalid MCP JSON: ", None, e.as_str())),
    }
}

/// The content of the file of the tool servers where none exists: no
/// servers.
pub fn default_mcp_data() -> (r: Json)
    ensures
        r@ == JsonView::Object(seq![("mcpServers"@, empty_object())]),
{
    let mut top: Vec<(String, Json)> = Vec::new();
    top.push(entry("mcpServers", no_members()));
    assert(Json::members_view(top@) =~= seq![("mcpServers"@, empty_object())]);
    Json::Object(top)
}

} // verus!
