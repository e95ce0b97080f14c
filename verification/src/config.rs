//! Configuration: the global config, per-wiki overrides, their merge, and
//! reading and setting keys by dot-notation name.
use vstd::prelude::*;

use crate::links::texts;
use crate::text::{
    chars_of, decimal, decimal_exec, eq_str, join, push_chars, push_joined, push_str, split_char,
    string_of, trim, trim_exec,
};

verus! {

// ── Section structs ───────────────────────────────────────────────────────────

/// The `[global]` section of the global config file.
#[derive(Debug, Clone, PartialEq, Eq)]
pub struct GlobalSection {
    /// Name of the wiki used when no `--wiki` flag is given.
    pub default_wiki: String,
}

/// A registered wiki entry in the `[[wikis]]` array of the global config.
#[derive(Debug, Clone)]
pub struct WikiEntry {
    /// Short identifier used in `wiki://` URIs and the `--wiki` flag.
    pub name: String,
    /// Absolute path to the wiki repository root on disk.
    pub path: String,
    /// Optional one-line description shown in `spaces list`.
    pub description: Option<String>,
    /// Optional git remote URL for the wiki repository.
    pub remote: Option<String>,
}

/// Default values for CLI flags that can be overridden per-wiki via `wiki.toml`.
#[derive(Debug, Clone)]
pub struct Defaults {
    /// Maximum number of search results returned (default: 10).
    pub search_top_k: u32,
    /// Whether to include BM25 excerpts in search output (default: true).
    pub search_excerpt: bool,
    /// Whether to include section index pages in search results (default: false).
    pub search_sections: bool,
    /// Page display mode: `"flat"` or `"hierarchical"` (default: `"flat"`).
    pub page_mode: String,
    /// Number of pages returned per `list` call (default: 20).
    pub list_page_size: u32,
    /// Default output format: `"text"` or `"json"` (default: `"text"`).
    pub output_format: String,
    /// Maximum number of tag facet values to return (default: 10).
    pub facets_top_tags: u32,
}

/// `[read]` section — controls how pages are read back.
#[derive(Debug, Clone)]
pub struct ReadConfig {
    /// Strip frontmatter from `content read` output when true (default: false).
    pub no_frontmatter: bool,
}

/// `[index]` section — search index configuration.
#[derive(Debug, Clone)]
pub struct IndexConfig {
    /// Automatically rebuild the index on startup when stale (default: false).
    pub auto_rebuild: bool,
    /// Automatically recover a corrupt index by rebuilding (default: true).
    pub auto_recovery: bool,
    /// Index writer memory budget in megabytes (default: 50).
    pub memory_budget_mb: u32,
    /// Tokenizer name (default: `"en_stem"`).
    pub tokenizer: String,
}

/// Graph rendering and community detection configuration.
#[derive(Debug, Clone)]
pub struct GraphConfig {
    /// Default graph output format: `"mermaid"`, `"dot"`, or `"llms"` (default: `"mermaid"`).
    pub format: String,
    /// Default hop depth for subgraph extraction (default: 3).
    pub depth: u32,
    /// Page types to include when no `--type` flag is given (empty = all);
    /// the `type` key of the section.
    pub node_types: Vec<String>,
    /// Default output file path for graph commands (empty = stdout).
    pub output: String,
    /// Minimum local node count before community detection runs (default 30).
    pub min_nodes_for_communities: usize,
    /// Maximum community-peer suggestions (default 2).
    pub community_suggestions_limit: usize,
}

/// `[serve]` section — HTTP and ACP server configuration.
#[derive(Debug, Clone)]
pub struct ServeConfig {
    /// Enable the HTTP transport by default (default: false).
    pub http: bool,
    /// TCP port for the HTTP server (default: 8080).
    pub http_port: u16,
    /// Hostnames accepted by the HTTP server (default: localhost variants).
    pub http_allowed_hosts: Vec<String>,
    /// Enable the ACP transport by default (default: false).
    pub acp: bool,
    /// Maximum automatic restart attempts after a server crash (default: 10).
    pub max_restarts: u32,
    /// Seconds to wait between restart attempts (default: 1).
    pub restart_backoff: u32,
    /// Interval in seconds between ACP heartbeat pings (default: 60).
    pub heartbeat_secs: u32,
    /// Maximum number of concurrent ACP sessions (default: 20).
    pub acp_max_sessions: usize,
}

/// `[validation]` section — frontmatter validation strictness.
#[derive(Debug, Clone)]
pub struct ValidationConfig {
    /// `"loose"` (warn) or `"strict"` (error) for unknown types (default: `"loose"`).
    pub type_strictness: String,
}

/// `[logging]` section — structured log file configuration.
#[derive(Debug, Clone)]
pub struct LoggingConfig {
    /// Directory where log files are written (default: `~/.llm-wiki/logs`).
    pub log_path: String,
    /// Log rotation policy: `"daily"` or `"never"` (default: `"daily"`).
    pub log_rotation: String,
    /// Maximum number of log files to retain before pruning (default: 7).
    pub log_max_files: u32,
    /// Log line format: `"text"` or `"json"` (default: `"text"`).
    pub log_format: String,
}

/// `[ingest]` section — controls ingest commit behaviour.
#[derive(Debug, Clone)]
pub struct IngestConfig {
    /// Automatically commit ingested files to git after validation (default: true).
    pub auto_commit: bool,
}

/// `[history]` section — git log / history command defaults.
#[derive(Debug, Clone)]
pub struct HistoryConfig {
    /// Enable `--follow` rename tracking in git log (default: true).
    pub follow: bool,
    /// Default maximum number of history entries to return (default: 10).
    pub default_limit: u32,
}

/// `[watch]` section — filesystem watcher configuration.
#[derive(Debug, Clone)]
pub struct WatchConfig {
    /// Debounce delay in milliseconds before triggering ingest (default: 500).
    pub debounce_ms: u32,
}

/// `[suggest]` section, its whole-number part: the minimum score is a
/// float, held by the caller.
#[derive(Debug, Clone)]
pub struct SuggestConfig {
    /// Default maximum number of suggestions to return (default: 5).
    pub default_limit: u32,
}

/// `[lint]` section, its whole-number part: the confidence threshold is a
/// float, held by the caller.
#[derive(Debug, Clone)]
pub struct LintConfig {
    /// Pages not updated within this many days are stale candidates (default 90).
    pub stale_days: u32,
}

/// A user-defined redaction rule added to the built-in patterns.
#[derive(Debug, Clone)]
pub struct CustomPattern {
    /// Unique name used in redaction reports.
    pub name: String,
    /// Regex pattern to match sensitive text.
    pub pattern: String,
    /// Replacement string substituted for matched text.
    pub replacement: String,
}

/// `[redact]` section — sensitive-data redaction configuration.
#[derive(Debug, Clone)]
pub struct RedactConfig {
    /// Built-in pattern names to disable.
    pub disable: Vec<String>,
    /// Additional user-defined redaction patterns.
    pub patterns: Vec<CustomPattern>,
}

/// The global configuration file (`~/.llm-wiki/config.toml`), without the
/// float-valued settings (`[search]` multipliers, `suggest.min_score`,
/// `lint.stale_confidence_threshold`), which the caller holds.
#[derive(Debug, Clone)]
pub struct GlobalConfig {
    pub global: GlobalSection,
    pub wikis: Vec<WikiEntry>,
    pub defaults: Defaults,
    pub read: ReadConfig,
    pub index: IndexConfig,
    pub graph: GraphConfig,
    pub serve: ServeConfig,
    pub validation: ValidationConfig,
    pub ingest: IngestConfig,
    pub history: HistoryConfig,
    pub suggest: SuggestConfig,
    pub lint: LintConfig,
    pub logging: LoggingConfig,
    pub watch: WatchConfig,
    pub redact: RedactConfig,
}

/// A type entry in `[types.<name>]` of `wiki.toml`.
#[derive(Debug, Clone)]
pub struct TypeEntry {
    /// Relative path to the JSON Schema file for this type.
    pub schema: String,
    /// Human-readable description of the type.
    pub description: String,
}

/// Per-wiki configuration (`<wiki-root>/wiki.toml`): fields present here
/// override the corresponding global sections.
#[derive(Debug, Clone)]
pub struct WikiConfig {
    pub name: String,
    pub description: String,
    /// `[types.<name>]` registrations, by name.
    pub types: Vec<(String, TypeEntry)>,
    pub defaults: Option<Defaults>,
    pub read: Option<ReadConfig>,
    pub validation: Option<ValidationConfig>,
    pub ingest: Option<IngestConfig>,
    pub graph: Option<GraphConfig>,
    pub history: Option<HistoryConfig>,
    pub suggest: Option<SuggestConfig>,
    pub lint: Option<LintConfig>,
    pub redact: Option<RedactConfig>,
    /// Content directory relative to repo root.
    pub wiki_root: String,
}

/// Global settings overlaid with one wiki's overrides.
#[derive(Debug, Clone)]
pub struct ResolvedConfig {
    pub defaults: Defaults,
    pub read: ReadConfig,
    pub index: IndexConfig,
    pub graph: GraphConfig,
    pub serve: ServeConfig,
    pub ingest: IngestConfig,
    pub validation: ValidationConfig,
    pub history: HistoryConfig,
    pub suggest: SuggestConfig,
    pub lint: LintConfig,
    pub redact: RedactConfig,
}

// ── Parsing values ────────────────────────────────────────────────────────────

/// Why a value does not parse (`ParseIntError` kinds and `ParseBoolError`).
#[derive(Debug, Clone, Copy, PartialEq, Eq, Structural)]
pub enum ParseFailure {
    /// An empty string where a number was expected.
    Empty,
    /// A character that is not a decimal digit.
    InvalidDigit,
    /// A number too large for the field.
    PosOverflow,
    /// Neither `true` nor `false`.
    NotBool,
}

impl ParseFailure {
    /// The message `str::parse` gives for this failure.
    pub fn message(&self) -> (m: &'static str)
        ensures
            m@ == parse_failure_text(*self),
    {
        match self {
            ParseFailure::Empty => "cannot parse integer from empty string",
            ParseFailure::InvalidDigit => "invalid digit found in string",
            ParseFailure::PosOverflow => "number too large to fit in target type",
            ParseFailure::NotBool => "provided string was not `true` or `false`",
        }
    }
}

/// The message of a parse failure.
pub open spec fn parse_failure_text(f: ParseFailure) -> Seq<char> {
    match f {
        ParseFailure::Empty => "cannot parse integer from empty string"@,
        ParseFailure::InvalidDigit => "invalid digit found in string"@,
        ParseFailure::PosOverflow => "number too large to fit in target type"@,
        ParseFailure::NotBool => "provided string was not `true` or `false`"@,
    }
}

/// Why a key cannot be set.
#[derive(Debug, Clone)]
pub enum ConfigError {
    /// No such key.
    UnknownKey(String),
    /// The value does not parse for the key's field.
    InvalidValue(ParseFailure),
    /// The key only exists in the global config.
    GlobalOnly(String),
    /// The key holds a floating-point value, which the caller sets.
    FloatKey(String),
}

impl ConfigError {
    /// The human-readable message.
    pub fn message(&self) -> (m: String)
        ensures
            self matches ConfigError::UnknownKey(k) ==> m@ == "unknown key: "@ + k@,
            self matches ConfigError::InvalidValue(f) ==> m@ == parse_failure_text(*f),
            self matches ConfigError::GlobalOnly(k) ==> m@ == k@ + " is a global-only key \u{2014} use --global"@,
            self matches ConfigError::FloatKey(k) ==> m@ == k@ + " holds a floating-point value"@,
    {
        let mut out: Vec<char> = Vec::new();
        match self {
            ConfigError::UnknownKey(k) => {
                push_str(&mut out, "unknown key: ");
                push_str(&mut out, k.as_str());
            },
            ConfigError::InvalidValue(f) => push_str(&mut out, f.message()),
            ConfigError::GlobalOnly(k) => {
                push_str(&mut out, k.as_str());
                push_str(&mut out, " is a global-only key \u{2014} use --global");
            },
            ConfigError::FloatKey(k) => {
                push_str(&mut out, k.as_str());
                push_str(&mut out, " holds a floating-point value");
            },
        }
        string_of(&out)
    }
}

/// The value of a decimal digit character.
pub open spec fn digit_value(c: char) -> nat {
    (c as int - '0' as int) as nat
}

/// `c` is an ASCII decimal digit.
pub open spec fn is_digit(c: char) -> bool {
    '0' <= c && c <= '9'
}

/// Read the digits of `s` left to right onto `acc`: the first non-digit is
/// `InvalidDigit`; a value beyond `max` is `PosOverflow` at the digit that
/// makes it so.
pub open spec fn scan_digits(s: Seq<char>, acc: nat, max: nat) -> Result<nat, ParseFailure>
    decreases s.len(),
{
    if s.len() == 0 {
        Ok(acc)
    } else if !is_digit(s[0]) {
        Err(ParseFailure::InvalidDigit)
    } else if acc * 10 + digit_value(s[0]) > max {
        Err(ParseFailure::PosOverflow)
    } else {
        scan_digits(s.drop_first(), acc * 10 + digit_value(s[0]), max)
    }
}

/// An unsigned integer up to `max` from its text (`str::parse` of an
/// unsigned type): an optional `+`, then decimal digits.
pub open spec fn parse_unsigned(s: Seq<char>, max: nat) -> Result<nat, ParseFailure> {
    if s.len() == 0 {
        Err(ParseFailure::Empty)
    } else if s[0] == '+' {
        if s.len() == 1 {
            Err(ParseFailure::InvalidDigit)
        } else {
            scan_digits(s.drop_first(), 0, max)
        }
    } else {
        scan_digits(s, 0, max)
    }
}

/// A boolean from its text (`str::parse::<bool>`).
pub open spec fn parse_bool(s: Seq<char>) -> Result<bool, ParseFailure> {
    if s == "true"@ {
        Ok(true)
    } else if s == "false"@ {
        Ok(false)
    } else {
        Err(ParseFailure::NotBool)
    }
}

/// A parse result without its value.
pub open spec fn unit_of<T>(r: Result<T, ParseFailure>) -> Result<(), ParseFailure> {
    match r {
        Ok(_) => Ok(()),
        Err(f) => Err(f),
    }
}

proof fn lemma_scan_le(s: Seq<char>, acc: nat, max: nat)
    requires
        acc <= max,
    ensures
        scan_digits(s, acc, max) matches Ok(n) ==> n <= max,
    decreases s.len(),
{
    if s.len() > 0 && is_digit(s[0]) && acc * 10 + digit_value(s[0]) <= max {
        lemma_scan_le(s.drop_first(), acc * 10 + digit_value(s[0]), max);
    }
}

/// Parse an unsigned integer up to `max`.
pub fn parse_unsigned_exec(s: &str, max: u128) -> (r: Result<u128, ParseFailure>)
    requires
        max <= u64::MAX,
    ensures
        match parse_unsigned(s@, max as nat) {
            Ok(n) => r == Ok::<u128, ParseFailure>(n as u128),
            Err(f) => r == Err::<u128, ParseFailure>(f),
        },
        r matches Ok(n) ==> n <= max,
        parse_unsigned(s@, max as nat) matches Ok(n) ==> n <= max,
{
    proof {
        if s@.len() > 0 && s@[0] == '+' {
            lemma_scan_le(s@.drop_first(), 0, max as nat);
        } else {
            lemma_scan_le(s@, 0, max as nat);
        }
    }
    let v = chars_of(s);
    if v.len() == 0 {
        return Err(ParseFailure::Empty);
    }
    let mut i: usize = 0;
    if v[0] == '+' {
        if v.len() == 1 {
            return Err(ParseFailure::InvalidDigit);
        }
        i = 1;
        assert(v@.drop_first() == v@.subrange(1, v@.len() as int));
    } else {
        assert(v@ == v@.subrange(0, v@.len() as int));
    }
    let mut acc: u128 = 0;
    while i < v.len()
        invariant
            i <= v@.len(),
            acc <= max,
            max <= u64::MAX,
            parse_unsigned(s@, max as nat) == scan_digits(v@.subrange(i as int, v@.len() as int), acc as nat, max as nat),
            v@ == s@,
        decreases v.len() - i,
    {
        let ghost rest = v@.subrange(i as int, v@.len() as int);
        assert(rest[0] == v@[i as int]);
        assert(rest.drop_first() == v@.subrange(i + 1, v@.len() as int));
        let c = v[i];
        if !('0' <= c && c <= '9') {
            return Err(ParseFailure::InvalidDigit);
        }
        let d = (c as u32 - '0' as u32) as u128;
        assert(d == digit_value(c));
        let next = acc * 10 + d;
        if next > max {
            return Err(ParseFailure::PosOverflow);
        }
        acc = next;
        i = i + 1;
    }
    Ok(acc)
}

/// Parse a boolean.
pub fn parse_bool_exec(s: &str) -> (r: Result<bool, ParseFailure>)
    ensures
        r == parse_bool(s@),
{
    let v = chars_of(s);
    if eq_str(&v, "true") {
        Ok(true)
    } else if eq_str(&v, "false") {
        Ok(false)
    } else {
        Err(ParseFailure::NotBool)
    }
}

/// `true` or `false`, as `bool::to_string` writes it.
pub open spec fn bool_text(b: bool) -> Seq<char> {
    if b {
        "true"@
    } else {
        "false"@
    }
}

/// The text of a boolean.
fn bool_str(b: bool) -> (r: &'static str)
    ensures
        r@ == bool_text(b),
{
    if b {
        "true"
    } else {
        "false"
    }
}

/// A comma-separated list, each item trimmed.
pub open spec fn host_list(value: Seq<char>) -> Seq<Seq<char>> {
    split_char(value, ',').map_values(|p: Seq<char>| trim(p))
}

/// Split on commas and trim each item.
fn host_list_exec(value: &str) -> (r: Vec<String>)
    ensures
        texts(r@) == host_list(value@),
{
    let c = chars_of(value);
    let parts = crate::slug::split_char_exec(&c, ',');
    let ghost ps = parts@.map_values(|w: Vec<char>| w@);
    let mut out: Vec<String> = Vec::new();
    let mut i: usize = 0;
    while i < parts.len()
        invariant
            i <= parts@.len(),
            ps == parts@.map_values(|w: Vec<char>| w@),
            ps == split_char(value@, ','),
            texts(out@) == ps.subrange(0, i as int).map_values(|p: Seq<char>| trim(p)),
        decreases parts.len() - i,
    {
        let t = trim_exec(&parts[i]);
        let ghost old_out = out@;
        out.push(string_of(&t));
        assert(texts(out@) == texts(old_out).push(t@));
        assert(ps.subrange(0, i + 1) == ps.subrange(0, i as int).push(ps[i as int]));
        assert(ps.subrange(0, i + 1).map_values(|p: Seq<char>| trim(p)) == ps.subrange(0, i as int).map_values(
            |p: Seq<char>| trim(p),
        ).push(trim(ps[i as int])));
        i = i + 1;
    }
    assert(ps.subrange(0, parts@.len() as int) == ps);
    out
}

/// Items joined with `sep`.
fn joined(items: &Vec<String>, sep: &str) -> (r: String)
    ensures
        r@ == join(texts(items@), sep@),
{
    let mut out: Vec<char> = Vec::new();
    push_joined(&mut out, items, sep);
    string_of(&out)
}

// ── Default values ────────────────────────────────────────────────────────────

/// Smallest graph for community detection: 30.
pub fn default_min_nodes_for_communities() -> (r: usize)
    ensures
        r == 30,
{
    30
}

/// Community suggestions returned: 2.
pub fn default_community_suggestions_limit() -> (r: usize)
    ensures
        r == 2,
{
    2
}

/// Concurrent ACP sessions: 20.
pub fn default_acp_max_sessions() -> (r: usize)
    ensures
        r == 20,
{
    20
}

/// Search results returned: 10.
pub fn default_search_top_k() -> (r: u32)
    ensures
        r == 10,
{
    10
}

/// Pages per `list` call: 20.
pub fn default_list_page_size() -> (r: u32)
    ensures
        r == 20,
{
    20
}

/// Tags kept in the tag facet: 10.
pub fn default_facets_top_tags() -> (r: u32)
    ensures
        r == 10,
{
    10
}

/// Index writer memory budget, in MB: 50.
pub fn default_memory_budget_mb() -> (r: u32)
    ensures
        r == 50,
{
    50
}

/// Graph depth around a root: 3.
pub fn default_graph_depth() -> (r: u32)
    ensures
        r == 3,
{
    3
}

/// HTTP port: 8080.
pub fn default_http_port() -> (r: u16)
    ensures
        r == 8080,
{
    8080
}

/// Server restarts allowed: 10.
pub fn default_max_restarts() -> (r: u32)
    ensures
        r == 10,
{
    10
}

/// Seconds between restarts: 1.
pub fn default_restart_backoff() -> (r: u32)
    ensures
        r == 1,
{
    1
}

/// Seconds between heartbeats: 60.
pub fn default_heartbeat_secs() -> (r: u32)
    ensures
        r == 60,
{
    60
}

/// Log files kept: 7.
pub fn default_log_max_files() -> (r: u32)
    ensures
        r == 7,
{
    7
}

/// History entries returned: 10.
pub fn default_history_limit() -> (r: u32)
    ensures
        r == 10,
{
    10
}

/// Watcher debounce, in milliseconds: 500.
pub fn default_debounce_ms() -> (r: u32)
    ensures
        r == 500,
{
    500
}

/// Suggestions returned: 5.
pub fn default_suggest_limit() -> (r: u32)
    ensures
        r == 5,
{
    5
}

/// Days after which a page is stale: 90.
pub fn default_stale_days() -> (r: u32)
    ensures
        r == 90,
{
    90
}

/// Whether a flag is on by default: yes.
pub fn default_true() -> (r: bool)
    ensures
        r,
{
    true
}

/// Page layout of new pages: `flat`.
pub fn default_page_mode() -> (r: String)
    ensures
        r@ == "flat"@,
{
    string_of(&chars_of("flat"))
}

/// CLI output format: `text`.
pub fn default_output_format() -> (r: String)
    ensures
        r@ == "text"@,
{
    string_of(&chars_of("text"))
}

/// Search tokenizer: `en_stem`.
pub fn default_tokenizer() -> (r: String)
    ensures
        r@ == "en_stem"@,
{
    string_of(&chars_of("en_stem"))
}

/// Graph rendering format: `mermaid`.
pub fn default_graph_format() -> (r: String)
    ensures
        r@ == "mermaid"@,
{
    string_of(&chars_of("mermaid"))
}

/// Type validation strictness: `loose`.
pub fn default_type_strictness() -> (r: String)
    ensures
        r@ == "loose"@,
{
    string_of(&chars_of("loose"))
}

/// Log rotation period: `daily`.
pub fn default_log_rotation() -> (r: String)
    ensures
        r@ == "daily"@,
{
    string_of(&chars_of("daily"))
}

/// Log line format: `text`.
pub fn default_log_format() -> (r: String)
    ensures
        r@ == "text"@,
{
    string_of(&chars_of("text"))
}

/// Wiki root directory inside a repository: `wiki`.
pub fn default_wiki_root() -> (r: String)
    ensures
        r@ == "wiki"@,
{
    string_of(&chars_of("wiki"))
}

/// Hosts the HTTP transport accepts: `localhost`, `127.0.0.1`, `::1`.
pub fn default_http_allowed_hosts() -> (r: Vec<String>)
    ensures
        texts(r@) == seq!["localhost"@, "127.0.0.1"@, "::1"@],
{
    let mut hosts: Vec<String> = Vec::new();
    hosts.push(string_of(&chars_of("localhost")));
    hosts.push(string_of(&chars_of("127.0.0.1")));
    hosts.push(string_of(&chars_of("::1")));
    assert(texts(hosts@) =~= seq!["localhost"@, "127.0.0.1"@, "::1"@]);
    hosts
}

impl Default for Defaults {
    fn default() -> (r: Self)
        ensures
            r.search_top_k == 10,
            r.search_excerpt == true,
            r.search_sections == false,
            r.page_mode@ == "flat"@,
            r.list_page_size == 20,
            r.output_format@ == "text"@,
            r.facets_top_tags == 10,
    {
        Defaults {
            search_top_k: 10,
            search_excerpt: true,
            search_sections: false,
            page_mode: string_of(&chars_of("flat")),
            list_page_size: 20,
            output_format: string_of(&chars_of("text")),
            facets_top_tags: 10,
        }
    }
}

impl Default for ReadConfig {
    fn default() -> (r: Self)
        ensures
            r.no_frontmatter == false,
    {
        ReadConfig {
            no_frontmatter: false,
        }
    }
}

impl Default for IndexConfig {
    fn default() -> (r: Self)
        ensures
            r.auto_rebuild == false,
            r.auto_recovery == true,
            r.memory_budget_mb == 50,
            r.tokenizer@ == "en_stem"@,
    {
        IndexConfig {
            auto_rebuild: false,
            auto_recovery: true,
            memory_budget_mb: 50,
            tokenizer: string_of(&chars_of("en_stem")),
        }
    }
}

impl Default for ValidationConfig {
    fn default() -> (r: Self)
        ensures
            r.type_strictness@ == "loose"@,
    {
        ValidationConfig {
            type_strictness: string_of(&chars_of("loose")),
        }
    }
}

impl Default for IngestConfig {
    fn default() -> (r: Self)
        ensures
            r.auto_commit == true,
    {
        IngestConfig {
            auto_commit: true,
        }
    }
}

impl Default for HistoryConfig {
    fn default() -> (r: Self)
        ensures
            r.follow == true,
            r.default_limit == 10,
    {
        HistoryConfig {
            follow: true,
            default_limit: 10,
        }
    }
}

impl Default for WatchConfig {
    fn default() -> (r: Self)
        ensures
            r.debounce_ms == 500,
    {
        WatchConfig {
            debounce_ms: 500,
        }
    }
}

impl Default for SuggestConfig {
    fn default() -> (r: Self)
        ensures
            r.default_limit == 5,
    {
        SuggestConfig {
            default_limit: 5,
        }
    }
}

impl Default for LintConfig {
    fn default() -> (r: Self)
        ensures
            r.stale_days == 90,
    {
        LintConfig {
            stale_days: default_stale_days(),
        }
    }
}

impl Default for GraphConfig {
    fn default() -> (r: Self)
        ensures
            r.format@ == "mermaid"@,
            r.depth == 3,
            r.node_types@.len() == 0,
            r.output@.len() == 0,
            r.min_nodes_for_communities == 30,
            r.community_suggestions_limit == 2,
    {
        GraphConfig {
            format: string_of(&chars_of("mermaid")),
            depth: 3,
            node_types: Vec::new(),
            output: String::new(),
            min_nodes_for_communities: default_min_nodes_for_communities(),
            community_suggestions_limit: default_community_suggestions_limit(),
        }
    }
}
/// Every field of `s` but `except` has its default value.
pub open spec fn defaults_default_except(s: Defaults, except: Seq<char>) -> bool {
    &&& (except == "search_top_k"@ || s.search_top_k == 10)
    &&& (except == "search_excerpt"@ || s.search_excerpt == true)
    &&& (except == "search_sections"@ || s.search_sections == false)
    &&& (except == "page_mode"@ || s.page_mode@ == "flat"@)
    &&& (except == "list_page_size"@ || s.list_page_size == 20)
    &&& (except == "output_format"@ || s.output_format@ == "text"@)
    &&& (except == "facets_top_tags"@ || s.facets_top_tags == 10)
}

/// Every field of `s` but `except` has its default value.
pub open spec fn read_config_default_except(s: ReadConfig, except: Seq<char>) -> bool {
    &&& (except == "no_frontmatter"@ || s.no_frontmatter == false)
}

/// Every field of `s` but `except` has its default value.
pub open spec fn validation_config_default_except(s: ValidationConfig, except: Seq<char>) -> bool {
    &&& (except == "type_strictness"@ || s.type_strictness@ == "loose"@)
}

/// Every field of `s` but `except` has its default value.
pub open spec fn ingest_config_default_except(s: IngestConfig, except: Seq<char>) -> bool {
    &&& (except == "auto_commit"@ || s.auto_commit == true)
}

/// Every field of `s` but `except` has its default value.
pub open spec fn history_config_default_except(s: HistoryConfig, except: Seq<char>) -> bool {
    &&& (except == "follow"@ || s.follow == true)
    &&& (except == "default_limit"@ || s.default_limit == 10)
}

/// Every field of `s` but `except` has its default value.
pub open spec fn suggest_config_default_except(s: SuggestConfig, except: Seq<char>) -> bool {
    &&& (except == "default_limit"@ || s.default_limit == 5)
}

/// Every field of `s` but `except` has its default value.
pub open spec fn graph_config_default_except(s: GraphConfig, except: Seq<char>) -> bool {
    &&& (except == "format"@ || s.format@ == "mermaid"@)
    &&& (except == "depth"@ || s.depth == 3)
    &&& (except == "node_types"@ || s.node_types@.len() == 0)
    &&& (except == "output"@ || s.output@.len() == 0)
    &&& (except == "min_nodes_for_communities"@ || s.min_nodes_for_communities == 30)
    &&& (except == "community_suggestions_limit"@ || s.community_suggestions_limit == 2)
}

/// How the value of a settable key is read, by key (global config).
pub open spec fn global_key_parse(key: Seq<char>, value: Seq<char>) -> Option<Result<(), ParseFailure>> {
    if key == "global.default_wiki"@ {
        Some(Ok::<(), ParseFailure>(()))
    } else if key == "defaults.search_top_k"@ {
        Some(unit_of(parse_unsigned(value, 0xffff_ffffnat)))
    } else if key == "defaults.search_excerpt"@ {
        Some(unit_of(parse_bool(value)))
    } else if key == "defaults.search_sections"@ {
        Some(unit_of(parse_bool(value)))
    } else if key == "defaults.page_mode"@ {
        Some(Ok::<(), ParseFailure>(()))
    } else if key == "defaults.list_page_size"@ {
        Some(unit_of(parse_unsigned(value, 0xffff_ffffnat)))
    } else if key == "defaults.output_format"@ {
        Some(Ok::<(), ParseFailure>(()))
    } else if key == "defaults.facets_top_tags"@ {
        Some(unit_of(parse_unsigned(value, 0xffff_ffffnat)))
    } else if key == "read.no_frontmatter"@ {
        Some(unit_of(parse_bool(value)))
    } else if key == "index.auto_rebuild"@ {
        Some(unit_of(parse_bool(value)))
    } else if key == "index.auto_recovery"@ {
        Some(unit_of(parse_bool(value)))
    } else if key == "index.memory_budget_mb"@ {
        Some(unit_of(parse_unsigned(value, 0xffff_ffffnat)))
    } else if key == "index.tokenizer"@ {
        Some(Ok::<(), ParseFailure>(()))
    } else if key == "graph.format"@ {
        Some(Ok::<(), ParseFailure>(()))
    } else if key == "graph.depth"@ {
        Some(unit_of(parse_unsigned(value, 0xffff_ffffnat)))
    } else if key == "graph.output"@ {
        Some(Ok::<(), ParseFailure>(()))
    } else if key == "serve.http"@ {
        Some(unit_of(parse_bool(value)))
    } else if key == "serve.http_port"@ {
        Some(unit_of(parse_unsigned(value, 0xffffnat)))
    } else if key == "serve.http_allowed_hosts"@ {
        Some(Ok::<(), ParseFailure>(()))
    } else if key == "serve.acp"@ {
        Some(unit_of(parse_bool(value)))
    } else if key == "serve.max_restarts"@ {
        Some(unit_of(parse_unsigned(value, 0xffff_ffffnat)))
    } else if key == "serve.restart_backoff"@ {
        Some(unit_of(parse_unsigned(value, 0xffff_ffffnat)))
    } else if key == "serve.heartbeat_secs"@ {
        Some(unit_of(parse_unsigned(value, 0xffff_ffffnat)))
    } else if key == "serve.acp_max_sessions"@ {
        Some(unit_of(parse_unsigned(value, usize::MAX as nat)))
    } else if key == "ingest.auto_commit"@ {
        Some(unit_of(parse_bool(value)))
    } else if key == "history.follow"@ {
        Some(unit_of(parse_bool(value)))
    } else if key == "history.default_limit"@ {
        Some(unit_of(parse_unsigned(value, 0xffff_ffffnat)))
    } else if key == "suggest.default_limit"@ {
        Some(unit_of(parse_unsigned(value, 0xffff_ffffnat)))
    } else if key == "validation.type_strictness"@ {
        Some(Ok::<(), ParseFailure>(()))
    } else if key == "logging.log_path"@ {
        Some(Ok::<(), ParseFailure>(()))
    } else if key == "logging.log_rotation"@ {
        Some(Ok::<(), ParseFailure>(()))
    } else if key == "logging.log_max_files"@ {
        Some(unit_of(parse_unsigned(value, 0xffff_ffffnat)))
    } else if key == "logging.log_format"@ {
        Some(Ok::<(), ParseFailure>(()))
    } else if key == "watch.debounce_ms"@ {
        Some(unit_of(parse_unsigned(value, 0xffff_ffffnat)))
    } else {
        None
    }
}

/// `new` is `old` with the field of `key` set from `value`.
pub open spec fn global_updated(old: GlobalConfig, new: GlobalConfig, key: Seq<char>, value: Seq<char>) -> bool {
    if key == "global.default_wiki"@ {
        new == (GlobalConfig { global: (GlobalSection { default_wiki: new.global.default_wiki, ..old.global }), ..old }) && new.global.default_wiki@ == value
    } else if key == "defaults.search_top_k"@ {
        new == (GlobalConfig { defaults: (Defaults { search_top_k: new.defaults.search_top_k, ..old.defaults }), ..old }) && parse_unsigned(value, 0xffff_ffffnat) == Ok::<nat, ParseFailure>(new.defaults.search_top_k as nat)
    } else if key == "defaults.search_excerpt"@ {
        new == (GlobalConfig { defaults: (Defaults { search_excerpt: new.defaults.search_excerpt, ..old.defaults }), ..old }) && parse_bool(value) == Ok::<bool, ParseFailure>(new.defaults.search_excerpt)
    } else if key == "defaults.search_sections"@ {
        new == (GlobalConfig { defaults: (Defaults { search_sections: new.defaults.search_sections, ..old.defaults }), ..old }) && parse_bool(value) == Ok::<bool, ParseFailure>(new.defaults.search_sections)
    } else if key == "defaults.page_mode"@ {
        new == (GlobalConfig { defaults: (Defaults { page_mode: new.defaults.page_mode, ..old.defaults }), ..old }) && new.defaults.page_mode@ == value
    } else if key == "defaults.list_page_size"@ {
        new == (GlobalConfig { defaults: (Defaults { list_page_size: new.defaults.list_page_size, ..old.defaults }), ..old }) && parse_unsigned(value, 0xffff_ffffnat) == Ok::<nat, ParseFailure>(new.defaults.list_page_size as nat)
    } else if key == "defaults.output_format"@ {
        new == (GlobalConfig { defaults: (Defaults { output_format: new.defaults.output_format, ..old.defaults }), ..old }) && new.defaults.output_format@ == value
    } else if key == "defaults.facets_top_tags"@ {
        new == (GlobalConfig { defaults: (Defaults { facets_top_tags: new.defaults.facets_top_tags, ..old.defaults }), ..old }) && parse_unsigned(value, 0xffff_ffffnat) == Ok::<nat, ParseFailure>(new.defaults.facets_top_tags as nat)
    } else if key == "read.no_frontmatter"@ {
        new == (GlobalConfig { read: (ReadConfig { no_frontmatter: new.read.no_frontmatter, ..old.read }), ..old }) && parse_bool(value) == Ok::<bool, ParseFailure>(new.read.no_frontmatter)
    } else if key == "index.auto_rebuild"@ {
        new == (GlobalConfig { index: (IndexConfig { auto_rebuild: new.index.auto_rebuild, ..old.index }), ..old }) && parse_bool(value) == Ok::<bool, ParseFailure>(new.index.auto_rebuild)
    } else if key == "index.auto_recovery"@ {
        new == (GlobalConfig { index: (IndexConfig { auto_recovery: new.index.auto_recovery, ..old.index }), ..old }) && parse_bool(value) == Ok::<bool, ParseFailure>(new.index.auto_recovery)
    } else if key == "index.memory_budget_mb"@ {
        new == (GlobalConfig { index: (IndexConfig { memory_budget_mb: new.index.memory_budget_mb, ..old.index }), ..old }) && parse_unsigned(value, 0xffff_ffffnat) == Ok::<nat, ParseFailure>(new.index.memory_budget_mb as nat)
    } else if key == "index.tokenizer"@ {
        new == (GlobalConfig { index: (IndexConfig { tokenizer: new.index.tokenizer, ..old.index }), ..old }) && new.index.tokenizer@ == value
    } else if key == "graph.format"@ {
        new == (GlobalConfig { graph: (GraphConfig { format: new.graph.format, ..old.graph }), ..old }) && new.graph.format@ == value
    } else if key == "graph.depth"@ {
        new == (GlobalConfig { graph: (GraphConfig { depth: new.graph.depth, ..old.graph }), ..old }) && parse_unsigned(value, 0xffff_ffffnat) == Ok::<nat, ParseFailure>(new.graph.depth as nat)
    } else if key == "graph.output"@ {
        new == (GlobalConfig { graph: (GraphConfig { output: new.graph.output, ..old.graph }), ..old }) && new.graph.output@ == value
    } else if key == "serve.http"@ {
        new == (GlobalConfig { serve: (ServeConfig { http: new.serve.http, ..old.serve }), ..old }) && parse_bool(value) == Ok::<bool, ParseFailure>(new.serve.http)
    } else if key == "serve.http_port"@ {
        new == (GlobalConfig { serve: (ServeConfig { http_port: new.serve.http_port, ..old.serve }), ..old }) && parse_unsigned(value, 0xffffnat) == Ok::<nat, ParseFailure>(new.serve.http_port as nat)
    } else if key == "serve.http_allowed_hosts"@ {
        new == (GlobalConfig { serve: (ServeConfig { http_allowed_hosts: new.serve.http_allowed_hosts, ..old.serve }), ..old }) && texts(new.serve.http_allowed_hosts@) == host_list(value)
    } else if key == "serve.acp"@ {
        new == (GlobalConfig { serve: (ServeConfig { acp: new.serve.acp, ..old.serve }), ..old }) && parse_bool(value) == Ok::<bool, ParseFailure>(new.serve.acp)
    } else if key == "serve.max_restarts"@ {
        new == (GlobalConfig { serve: (ServeConfig { max_restarts: new.serve.max_restarts, ..old.serve }), ..old }) && parse_unsigned(value, 0xffff_ffffnat) == Ok::<nat, ParseFailure>(new.serve.max_restarts as nat)
    } else if key == "serve.restart_backoff"@ {
        new == (GlobalConfig { serve: (ServeConfig { restart_backoff: new.serve.restart_backoff, ..old.serve }), ..old }) && parse_unsigned(value, 0xffff_ffffnat) == Ok::<nat, ParseFailure>(new.serve.restart_backoff as nat)
    } else if key == "serve.heartbeat_secs"@ {
        new == (GlobalConfig { serve: (ServeConfig { heartbeat_secs: new.serve.heartbeat_secs, ..old.serve }), ..old }) && parse_unsigned(value, 0xffff_ffffnat) == Ok::<nat, ParseFailure>(new.serve.heartbeat_secs as nat)
    } else if key == "serve.acp_max_sessions"@ {
        new == (GlobalConfig { serve: (ServeConfig { acp_max_sessions: new.serve.acp_max_sessions, ..old.serve }), ..old }) && parse_unsigned(value, usize::MAX as nat) == Ok::<nat, ParseFailure>(new.serve.acp_max_sessions as nat)
    } else if key == "ingest.auto_commit"@ {
        new == (GlobalConfig { ingest: (IngestConfig { auto_commit: new.ingest.auto_commit, ..old.ingest }), ..old }) && parse_bool(value) == Ok::<bool, ParseFailure>(new.ingest.auto_commit)
    } else if key == "history.follow"@ {
        new == (GlobalConfig { history: (HistoryConfig { follow: new.history.follow, ..old.history }), ..old }) && parse_bool(value) == Ok::<bool, ParseFailure>(new.history.follow)
    } else if key == "history.default_limit"@ {
        new == (GlobalConfig { history: (HistoryConfig { default_limit: new.history.default_limit, ..old.history }), ..old }) && parse_unsigned(value, 0xffff_ffffnat) == Ok::<nat, ParseFailure>(new.history.default_limit as nat)
    } else if key == "suggest.default_limit"@ {
        new == (GlobalConfig { suggest: (SuggestConfig { default_limit: new.suggest.default_limit, ..old.suggest }), ..old }) && parse_unsigned(value, 0xffff_ffffnat) == Ok::<nat, ParseFailure>(new.suggest.default_limit as nat)
    } else if key == "validation.type_strictness"@ {
        new == (GlobalConfig { validation: (ValidationConfig { type_strictness: new.validation.type_strictness, ..old.validation }), ..old }) && new.validation.type_strictness@ == value
    } else if key == "logging.log_path"@ {
        new == (GlobalConfig { logging: (LoggingConfig { log_path: new.logging.log_path, ..old.logging }), ..old }) && new.logging.log_path@ == value
    } else if key == "logging.log_rotation"@ {
        new == (GlobalConfig { logging: (LoggingConfig { log_rotation: new.logging.log_rotation, ..old.logging }), ..old }) && new.logging.log_rotation@ == value
    } else if key == "logging.log_max_files"@ {
        new == (GlobalConfig { logging: (LoggingConfig { log_max_files: new.logging.log_max_files, ..old.logging }), ..old }) && parse_unsigned(value, 0xffff_ffffnat) == Ok::<nat, ParseFailure>(new.logging.log_max_files as nat)
    } else if key == "logging.log_format"@ {
        new == (GlobalConfig { logging: (LoggingConfig { log_format: new.logging.log_format, ..old.logging }), ..old }) && new.logging.log_format@ == value
    } else if key == "watch.debounce_ms"@ {
        new == (GlobalConfig { watch: (WatchConfig { debounce_ms: new.watch.debounce_ms, ..old.watch }), ..old }) && parse_unsigned(value, 0xffff_ffffnat) == Ok::<nat, ParseFailure>(new.watch.debounce_ms as nat)
    } else {
        false
    }
}

/// Set a dot-notation key of the global config from its text (`str::parse`
/// for numbers and booleans; `serve.http_allowed_hosts` splits on commas and
/// trims). On an error the config is unchanged. `suggest.min_score` holds a
/// float, which this library does not hold: it is refused as `FloatKey` for
/// the caller to set.
pub fn set_global_config_value(global: &mut GlobalConfig, key: &str, value: &str) -> (r: Result<(), ConfigError>)
    ensures
        match global_key_parse(key@, value@) {
            Some(Ok(())) => r is Ok && global_updated(*old(global), *final(global), key@, value@),
            Some(Err(f)) => r == Err::<(), ConfigError>(ConfigError::InvalidValue(f)) && *final(global) == *old(global),
            None => *final(global) == *old(global) && if key@ == "suggest.min_score"@ {
                r matches Err(ConfigError::FloatKey(k)) && k@ == key@
            } else {
                r matches Err(ConfigError::UnknownKey(k)) && k@ == key@
            },
        },
{
    let k = chars_of(key);
    if eq_str(&k, "global.default_wiki") {
        global.global.default_wiki = string_of(&chars_of(value));
        return Ok(());
    }
    if eq_str(&k, "defaults.search_top_k") {
        match parse_unsigned_exec(value, 0xffff_ffffu128) {
            Ok(n) => {
                global.defaults.search_top_k = n as u32;
            },
            Err(e) => {
                return Err(ConfigError::InvalidValue(e));
            },
        }
        return Ok(());
    }
    if eq_str(&k, "defaults.search_excerpt") {
        match parse_bool_exec(value) {
            Ok(b) => {
                global.defaults.search_excerpt = b;
            },
            Err(e) => {
                return Err(ConfigError::InvalidValue(e));
            },
        }
        return Ok(());
    }
    if eq_str(&k, "defaults.search_sections") {
        match parse_bool_exec(value) {
            Ok(b) => {
                global.defaults.search_sections = b;
            },
            Err(e) => {
                return Err(ConfigError::InvalidValue(e));
            },
        }
        return Ok(());
    }
    if eq_str(&k, "defaults.page_mode") {
        global.defaults.page_mode = string_of(&chars_of(value));
        return Ok(());
    }
    if eq_str(&k, "defaults.list_page_size") {
        match parse_unsigned_exec(value, 0xffff_ffffu128) {
            Ok(n) => {
                global.defaults.list_page_size = n as u32;
            },
            Err(e) => {
                return Err(ConfigError::InvalidValue(e));
            },
        }
        return Ok(());
    }
    if eq_str(&k, "defaults.output_format") {
        global.defaults.output_format = string_of(&chars_of(value));
        return Ok(());
    }
    if eq_str(&k, "defaults.facets_top_tags") {
        match parse_unsigned_exec(value, 0xffff_ffffu128) {
            Ok(n) => {
                global.defaults.facets_top_tags = n as u32;
            },
            Err(e) => {
                return Err(ConfigError::InvalidValue(e));
            },
        }
        return Ok(());
    }
    if eq_str(&k, "read.no_frontmatter") {
        match parse_bool_exec(value) {
            Ok(b) => {
                global.read.no_frontmatter = b;
            },
            Err(e) => {
                return Err(ConfigError::InvalidValue(e));
            },
        }
        return Ok(());
    }
    if eq_str(&k, "index.auto_rebuild") {
        match parse_bool_exec(value) {
            Ok(b) => {
                global.index.auto_rebuild = b;
            },
            Err(e) => {
                return Err(ConfigError::InvalidValue(e));
            },
        }
        return Ok(());
    }
    if eq_str(&k, "index.auto_recovery") {
        match parse_bool_exec(value) {
            Ok(b) => {
                global.index.auto_recovery = b;
            },
            Err(e) => {
                return Err(ConfigError::InvalidValue(e));
            },
        }
        return Ok(());
    }
    if eq_str(&k, "index.memory_budget_mb") {
        match parse_unsigned_exec(value, 0xffff_ffffu128) {
            Ok(n) => {
                global.index.memory_budget_mb = n as u32;
            },
            Err(e) => {
                return Err(ConfigError::InvalidValue(e));
            },
        }
        return Ok(());
    }
    if eq_str(&k, "index.tokenizer") {
        global.index.tokenizer = string_of(&chars_of(value));
        return Ok(());
    }
    if eq_str(&k, "graph.format") {
        global.graph.format = string_of(&chars_of(value));
        return Ok(());
    }
    if eq_str(&k, "graph.depth") {
        match parse_unsigned_exec(value, 0xffff_ffffu128) {
            Ok(n) => {
                global.graph.depth = n as u32;
            },
            Err(e) => {
                return Err(ConfigError::InvalidValue(e));
            },
        }
        return Ok(());
    }
    if eq_str(&k, "graph.output") {
        global.graph.output = string_of(&chars_of(value));
        return Ok(());
    }
    if eq_str(&k, "serve.http") {
        match parse_bool_exec(value) {
            Ok(b) => {
                global.serve.http = b;
            },
            Err(e) => {
                return Err(ConfigError::InvalidValue(e));
            },
        }
        return Ok(());
    }
    if eq_str(&k, "serve.http_port") {
        match parse_unsigned_exec(value, 0xffffu128) {
            Ok(n) => {
                global.serve.http_port = n as u16;
            },
            Err(e) => {
                return Err(ConfigError::InvalidValue(e));
            },
        }
        return Ok(());
    }
    if eq_str(&k, "serve.http_allowed_hosts") {
        global.serve.http_allowed_hosts = host_list_exec(value);
        return Ok(());
    }
    if eq_str(&k, "serve.acp") {
        match parse_bool_exec(value) {
            Ok(b) => {
                global.serve.acp = b;
            },
            Err(e) => {
                return Err(ConfigError::InvalidValue(e));
            },
        }
        return Ok(());
    }
    if eq_str(&k, "serve.max_restarts") {
        match parse_unsigned_exec(value, 0xffff_ffffu128) {
            Ok(n) => {
                global.serve.max_restarts = n as u32;
            },
            Err(e) => {
                return Err(ConfigError::InvalidValue(e));
            },
        }
        return Ok(());
    }
    if eq_str(&k, "serve.restart_backoff") {
        match parse_unsigned_exec(value, 0xffff_ffffu128) {
            Ok(n) => {
                global.serve.restart_backoff = n as u32;
            },
            Err(e) => {
                return Err(ConfigError::InvalidValue(e));
            },
        }
        return Ok(());
    }
    if eq_str(&k, "serve.heartbeat_secs") {
        match parse_unsigned_exec(value, 0xffff_ffffu128) {
            Ok(n) => {
                global.serve.heartbeat_secs = n as u32;
            },
            Err(e) => {
                return Err(ConfigError::InvalidValue(e));
            },
        }
        return Ok(());
    }
    if eq_str(&k, "serve.acp_max_sessions") {
        match parse_unsigned_exec(value, usize::MAX as u128) {
            Ok(n) => {
                global.serve.acp_max_sessions = n as usize;
            },
            Err(e) => {
                return Err(ConfigError::InvalidValue(e));
            },
        }
        return Ok(());
    }
    if eq_str(&k, "ingest.auto_commit") {
        match parse_bool_exec(value) {
            Ok(b) => {
                global.ingest.auto_commit = b;
            },
            Err(e) => {
                return Err(ConfigError::InvalidValue(e));
            },
        }
        return Ok(());
    }
    if eq_str(&k, "history.follow") {
        match parse_bool_exec(value) {
            Ok(b) => {
                global.history.follow = b;
            },
            Err(e) => {
                return Err(ConfigError::InvalidValue(e));
            },
        }
        return Ok(());
    }
    if eq_str(&k, "history.default_limit") {
        match parse_unsigned_exec(value, 0xffff_ffffu128) {
            Ok(n) => {
                global.history.default_limit = n as u32;
            },
            Err(e) => {
                return Err(ConfigError::InvalidValue(e));
            },
        }
        return Ok(());
    }
    if eq_str(&k, "suggest.default_limit") {
        match parse_unsigned_exec(value, 0xffff_ffffu128) {
            Ok(n) => {
                global.suggest.default_limit = n as u32;
            },
            Err(e) => {
                return Err(ConfigError::InvalidValue(e));
            },
        }
        return Ok(());
    }
    if eq_str(&k, "validation.type_strictness") {
        global.validation.type_strictness = string_of(&chars_of(value));
        return Ok(());
    }
    if eq_str(&k, "logging.log_path") {
        global.logging.log_path = string_of(&chars_of(value));
        return Ok(());
    }
    if eq_str(&k, "logging.log_rotation") {
        global.logging.log_rotation = string_of(&chars_of(value));
        return Ok(());
    }
    if eq_str(&k, "logging.log_max_files") {
        match parse_unsigned_exec(value, 0xffff_ffffu128) {
            Ok(n) => {
                global.logging.log_max_files = n as u32;
            },
            Err(e) => {
                return Err(ConfigError::InvalidValue(e));
            },
        }
        return Ok(());
    }
    if eq_str(&k, "logging.log_format") {
        global.logging.log_format = string_of(&chars_of(value));
        return Ok(());
    }
    if eq_str(&k, "watch.debounce_ms") {
        match parse_unsigned_exec(value, 0xffff_ffffu128) {
            Ok(n) => {
                global.watch.debounce_ms = n as u32;
            },
            Err(e) => {
                return Err(ConfigError::InvalidValue(e));
            },
        }
        return Ok(());
    }
    if eq_str(&k, "suggest.min_score") {
        return Err(ConfigError::FloatKey(string_of(&k)));
    }
    Err(ConfigError::UnknownKey(string_of(&k)))
}

/// The text of a key: from the resolved config or the global one, as the
/// key says; `None` for the float key `suggest.min_score`.
pub open spec fn config_value(resolved: ResolvedConfig, global: GlobalConfig, key: Seq<char>) -> Option<Seq<char>> {
    if key == "global.default_wiki"@ {
        Some(global.global.default_wiki@)
    } else if key == "defaults.search_top_k"@ {
        Some(decimal(resolved.defaults.search_top_k as nat))
    } else if key == "defaults.search_excerpt"@ {
        Some(bool_text(resolved.defaults.search_excerpt))
    } else if key == "defaults.search_sections"@ {
        Some(bool_text(resolved.defaults.search_sections))
    } else if key == "defaults.page_mode"@ {
        Some(resolved.defaults.page_mode@)
    } else if key == "defaults.list_page_size"@ {
        Some(decimal(resolved.defaults.list_page_size as nat))
    } else if key == "defaults.output_format"@ {
        Some(resolved.defaults.output_format@)
    } else if key == "defaults.facets_top_tags"@ {
        Some(decimal(resolved.defaults.facets_top_tags as nat))
    } else if key == "read.no_frontmatter"@ {
        Some(bool_text(resolved.read.no_frontmatter))
    } else if key == "index.auto_rebuild"@ {
        Some(bool_text(resolved.index.auto_rebuild))
    } else if key == "index.auto_recovery"@ {
        Some(bool_text(global.index.auto_recovery))
    } else if key == "index.memory_budget_mb"@ {
        Some(decimal(global.index.memory_budget_mb as nat))
    } else if key == "index.tokenizer"@ {
        Some(global.index.tokenizer@)
    } else if key == "graph.format"@ {
        Some(resolved.graph.format@)
    } else if key == "graph.depth"@ {
        Some(decimal(resolved.graph.depth as nat))
    } else if key == "graph.output"@ {
        Some(resolved.graph.output@)
    } else if key == "serve.http"@ {
        Some(bool_text(resolved.serve.http))
    } else if key == "serve.http_port"@ {
        Some(decimal(resolved.serve.http_port as nat))
    } else if key == "serve.http_allowed_hosts"@ {
        Some(join(texts(resolved.serve.http_allowed_hosts@), ","@))
    } else if key == "serve.acp"@ {
        Some(bool_text(resolved.serve.acp))
    } else if key == "serve.max_restarts"@ {
        Some(decimal(global.serve.max_restarts as nat))
    } else if key == "serve.restart_backoff"@ {
        Some(decimal(global.serve.restart_backoff as nat))
    } else if key == "serve.heartbeat_secs"@ {
        Some(decimal(global.serve.heartbeat_secs as nat))
    } else if key == "serve.acp_max_sessions"@ {
        Some(decimal(global.serve.acp_max_sessions as nat))
    } else if key == "ingest.auto_commit"@ {
        Some(bool_text(resolved.ingest.auto_commit))
    } else if key == "history.follow"@ {
        Some(bool_text(resolved.history.follow))
    } else if key == "history.default_limit"@ {
        Some(decimal(resolved.history.default_limit as nat))
    } else if key == "suggest.default_limit"@ {
        Some(decimal(resolved.suggest.default_limit as nat))
    } else if key == "validation.type_strictness"@ {
        Some(resolved.validation.type_strictness@)
    } else if key == "logging.log_path"@ {
        Some(global.logging.log_path@)
    } else if key == "logging.log_rotation"@ {
        Some(global.logging.log_rotation@)
    } else if key == "logging.log_max_files"@ {
        Some(decimal(global.logging.log_max_files as nat))
    } else if key == "logging.log_format"@ {
        Some(global.logging.log_format@)
    } else if key == "watch.debounce_ms"@ {
        Some(decimal(global.watch.debounce_ms as nat))
    } else if key == "suggest.min_score"@ {
        None
    } else {
        Some("unknown key: "@ + key)
    }
}

/// Read a dot-notation key (`"unknown key: <key>"` for an unknown one). The
/// float key `suggest.min_score` gives `None`: its value is the caller's.
pub fn get_config_value(resolved: &ResolvedConfig, global: &GlobalConfig, key: &str) -> (r: Option<String>)
    ensures
        match config_value(*resolved, *global, key@) {
            Some(t) => r matches Some(s) && s@ == t,
            None => r is None,
        },
{
    let k = chars_of(key);
    if eq_str(&k, "global.default_wiki") {
        return Some(global.global.default_wiki.clone());
    }
    if eq_str(&k, "defaults.search_top_k") {
        return Some(string_of(&decimal_exec(resolved.defaults.search_top_k as u64)));
    }
    if eq_str(&k, "defaults.search_excerpt") {
        return Some(string_of(&chars_of(bool_str(resolved.defaults.search_excerpt))));
    }
    if eq_str(&k, "defaults.search_sections") {
        return Some(string_of(&chars_of(bool_str(resolved.defaults.search_sections))));
    }
    if eq_str(&k, "defaults.page_mode") {
        return Some(resolved.defaults.page_mode.clone());
    }
    if eq_str(&k, "defaults.list_page_size") {
        return Some(string_of(&decimal_exec(resolved.defaults.list_page_size as u64)));
    }
    if eq_str(&k, "defaults.output_format") {
        return Some(resolved.defaults.output_format.clone());
    }
    if eq_str(&k, "defaults.facets_top_tags") {
        return Some(string_of(&decimal_exec(resolved.defaults.facets_top_tags as u64)));
    }
    if eq_str(&k, "read.no_frontmatter") {
        return Some(string_of(&chars_of(bool_str(resolved.read.no_frontmatter))));
    }
    if eq_str(&k, "index.auto_rebuild") {
        return Some(string_of(&chars_of(bool_str(resolved.index.auto_rebuild))));
    }
    if eq_str(&k, "index.auto_recovery") {
        return Some(string_of(&chars_of(bool_str(global.index.auto_recovery))));
    }
    if eq_str(&k, "index.memory_budget_mb") {
        return Some(string_of(&decimal_exec(global.index.memory_budget_mb as u64)));
    }
    if eq_str(&k, "index.tokenizer") {
        return Some(global.index.tokenizer.clone());
    }
    if eq_str(&k, "graph.format") {
        return Some(resolved.graph.format.clone());
    }
    if eq_str(&k, "graph.depth") {
        return Some(string_of(&decimal_exec(resolved.graph.depth as u64)));
    }
    if eq_str(&k, "graph.output") {
        return Some(resolved.graph.output.clone());
    }
    if eq_str(&k, "serve.http") {
        return Some(string_of(&chars_of(bool_str(resolved.serve.http))));
    }
    if eq_str(&k, "serve.http_port") {
        return Some(string_of(&decimal_exec(resolved.serve.http_port as u64)));
    }
    if eq_str(&k, "serve.http_allowed_hosts") {
        return Some(joined(&resolved.serve.http_allowed_hosts, ","));
    }
    if eq_str(&k, "serve.acp") {
        return Some(string_of(&chars_of(bool_str(resolved.serve.acp))));
    }
    if eq_str(&k, "serve.max_restarts") {
        return Some(string_of(&decimal_exec(global.serve.max_restarts as u64)));
    }
    if eq_str(&k, "serve.restart_backoff") {
        return Some(string_of(&decimal_exec(global.serve.restart_backoff as u64)));
    }
    if eq_str(&k, "serve.heartbeat_secs") {
        return Some(string_of(&decimal_exec(global.serve.heartbeat_secs as u64)));
    }
    if eq_str(&k, "serve.acp_max_sessions") {
        return Some(string_of(&decimal_exec(global.serve.acp_max_sessions as u64)));
    }
    if eq_str(&k, "ingest.auto_commit") {
        return Some(string_of(&chars_of(bool_str(resolved.ingest.auto_commit))));
    }
    if eq_str(&k, "history.follow") {
        return Some(string_of(&chars_of(bool_str(resolved.history.follow))));
    }
    if eq_str(&k, "history.default_limit") {
        return Some(string_of(&decimal_exec(resolved.history.default_limit as u64)));
    }
    if eq_str(&k, "suggest.default_limit") {
        return Some(string_of(&decimal_exec(resolved.suggest.default_limit as u64)));
    }
    if eq_str(&k, "validation.type_strictness") {
        return Some(resolved.validation.type_strictness.clone());
    }
    if eq_str(&k, "logging.log_path") {
        return Some(global.logging.log_path.clone());
    }
    if eq_str(&k, "logging.log_rotation") {
        return Some(global.logging.log_rotation.clone());
    }
    if eq_str(&k, "logging.log_max_files") {
        return Some(string_of(&decimal_exec(global.logging.log_max_files as u64)));
    }
    if eq_str(&k, "logging.log_format") {
        return Some(global.logging.log_format.clone());
    }
    if eq_str(&k, "watch.debounce_ms") {
        return Some(string_of(&decimal_exec(global.watch.debounce_ms as u64)));
    }
    if eq_str(&k, "suggest.min_score") {
        return None;
    }
    let mut m: Vec<char> = Vec::new();
    push_str(&mut m, "unknown key: ");
    push_chars(&mut m, &k);
    Some(string_of(&m))
}

/// How the value of a per-wiki key is read, by key.
pub open spec fn wiki_key_parse(key: Seq<char>, value: Seq<char>) -> Option<Result<(), ParseFailure>> {
    if key == "defaults.search_top_k"@ {
        Some(unit_of(parse_unsigned(value, 0xffff_ffffnat)))
    } else if key == "defaults.search_excerpt"@ {
        Some(unit_of(parse_bool(value)))
    } else if key == "defaults.search_sections"@ {
        Some(unit_of(parse_bool(value)))
    } else if key == "defaults.page_mode"@ {
        Some(Ok::<(), ParseFailure>(()))
    } else if key == "defaults.list_page_size"@ {
        Some(unit_of(parse_unsigned(value, 0xffff_ffffnat)))
    } else if key == "defaults.output_format"@ {
        Some(Ok::<(), ParseFailure>(()))
    } else if key == "defaults.facets_top_tags"@ {
        Some(unit_of(parse_unsigned(value, 0xffff_ffffnat)))
    } else if key == "read.no_frontmatter"@ {
        Some(unit_of(parse_bool(value)))
    } else if key == "validation.type_strictness"@ {
        Some(Ok::<(), ParseFailure>(()))
    } else if key == "ingest.auto_commit"@ {
        Some(unit_of(parse_bool(value)))
    } else if key == "history.follow"@ {
        Some(unit_of(parse_bool(value)))
    } else if key == "history.default_limit"@ {
        Some(unit_of(parse_unsigned(value, 0xffff_ffffnat)))
    } else if key == "suggest.default_limit"@ {
        Some(unit_of(parse_unsigned(value, 0xffff_ffffnat)))
    } else if key == "graph.format"@ {
        Some(Ok::<(), ParseFailure>(()))
    } else if key == "graph.depth"@ {
        Some(unit_of(parse_unsigned(value, 0xffff_ffffnat)))
    } else if key == "graph.output"@ {
        Some(Ok::<(), ParseFailure>(()))
    } else {
        None
    }
}

/// The keys only the global config holds.
pub open spec fn global_only_key(key: Seq<char>) -> bool {
    key == "global.default_wiki"@
    || key == "index.auto_rebuild"@
    || key == "index.auto_recovery"@
    || key == "index.memory_budget_mb"@
    || key == "index.tokenizer"@
    || key == "serve.http"@
    || key == "serve.http_port"@
    || key == "serve.http_allowed_hosts"@
    || key == "serve.acp"@
    || key == "serve.max_restarts"@
    || key == "serve.restart_backoff"@
    || key == "serve.heartbeat_secs"@
    || key == "serve.acp_max_sessions"@
    || key == "logging.log_path"@
    || key == "logging.log_rotation"@
    || key == "logging.log_max_files"@
    || key == "logging.log_format"@
    || key == "watch.debounce_ms"@
}

/// In `new`, the section override of `key` is the one of `old` (the
/// section's defaults when it had none) with the key's field set from
/// `value`; everything else is as in `old`.
pub open spec fn wiki_updated(old: WikiConfig, new: WikiConfig, key: Seq<char>, value: Seq<char>) -> bool {
    if key == "defaults.search_top_k"@ {
        &&& new == (WikiConfig { defaults: new.defaults, ..old })
        &&& new.defaults matches Some(s) && parse_unsigned(value, 0xffff_ffffnat) == Ok::<nat, ParseFailure>(s.search_top_k as nat) && match old.defaults {
            Some(o) => s == (Defaults { search_top_k: s.search_top_k, ..o }),
            None => defaults_default_except(s, "search_top_k"@),
        }
    } else if key == "defaults.search_excerpt"@ {
        &&& new == (WikiConfig { defaults: new.defaults, ..old })
        &&& new.defaults matches Some(s) && parse_bool(value) == Ok::<bool, ParseFailure>(s.search_excerpt) && match old.defaults {
            Some(o) => s == (Defaults { search_excerpt: s.search_excerpt, ..o }),
            None => defaults_default_except(s, "search_excerpt"@),
        }
    } else if key == "defaults.search_sections"@ {
        &&& new == (WikiConfig { defaults: new.defaults, ..old })
        &&& new.defaults matches Some(s) && parse_bool(value) == Ok::<bool, ParseFailure>(s.search_sections) && match old.defaults {
            Some(o) => s == (Defaults { search_sections: s.search_sections, ..o }),
            None => defaults_default_except(s, "search_sections"@),
        }
    } else if key == "defaults.page_mode"@ {
        &&& new == (WikiConfig { defaults: new.defaults, ..old })
        &&& new.defaults matches Some(s) && s.page_mode@ == value && match old.defaults {
            Some(o) => s == (Defaults { page_mode: s.page_mode, ..o }),
            None => defaults_default_except(s, "page_mode"@),
        }
    } else if key == "defaults.list_page_size"@ {
        &&& new == (WikiConfig { defaults: new.defaults, ..old })
        &&& new.defaults matches Some(s) && parse_unsigned(value, 0xffff_ffffnat) == Ok::<nat, ParseFailure>(s.list_page_size as nat) && match old.defaults {
            Some(o) => s == (Defaults { list_page_size: s.list_page_size, ..o }),
            None => defaults_default_except(s, "list_page_size"@),
        }
    } else if key == "defaults.output_format"@ {
        &&& new == (WikiConfig { defaults: new.defaults, ..old })
        &&& new.defaults matches Some(s) && s.output_format@ == value && match old.defaults {
            Some(o) => s == (Defaults { output_format: s.output_format, ..o }),
            None => defaults_default_except(s, "output_format"@),
        }
    } else if key == "defaults.facets_top_tags"@ {
        &&& new == (WikiConfig { defaults: new.defaults, ..old })
        &&& new.defaults matches Some(s) && parse_unsigned(value, 0xffff_ffffnat) == Ok::<nat, ParseFailure>(s.facets_top_tags as nat) && match old.defaults {
            Some(o) => s == (Defaults { facets_top_tags: s.facets_top_tags, ..o }),
            None => defaults_default_except(s, "facets_top_tags"@),
        }
    } else if key == "read.no_frontmatter"@ {
        &&& new == (WikiConfig { read: new.read, ..old })
        &&& new.read matches Some(s) && parse_bool(value) == Ok::<bool, ParseFailure>(s.no_frontmatter) && match old.read {
            Some(o) => s == (ReadConfig { no_frontmatter: s.no_frontmatter, ..o }),
            None => read_config_default_except(s, "no_frontmatter"@),
        }
    } else if key == "validation.type_strictness"@ {
        &&& new == (WikiConfig { validation: new.validation, ..old })
        &&& new.validation matches Some(s) && s.type_strictness@ == value && match old.validation {
            Some(o) => s == (ValidationConfig { type_strictness: s.type_strictness, ..o }),
            None => validation_config_default_except(s, "type_strictness"@),
        }
    } else if key == "ingest.auto_commit"@ {
        &&& new == (WikiConfig { ingest: new.ingest, ..old })
        &&& new.ingest matches Some(s) && parse_bool(value) == Ok::<bool, ParseFailure>(s.auto_commit) && match old.ingest {
            Some(o) => s == (IngestConfig { auto_commit: s.auto_commit, ..o }),
            None => ingest_config_default_except(s, "auto_commit"@),
        }
    } else if key == "history.follow"@ {
        &&& new == (WikiConfig { history: new.history, ..old })
        &&& new.history matches Some(s) && parse_bool(value) == Ok::<bool, ParseFailure>(s.follow) && match old.history {
            Some(o) => s == (HistoryConfig { follow: s.follow, ..o }),
            None => history_config_default_except(s, "follow"@),
        }
    } else if key == "history.default_limit"@ {
        &&& new == (WikiConfig { history: new.history, ..old })
        &&& new.history matches Some(s) && parse_unsigned(value, 0xffff_ffffnat) == Ok::<nat, ParseFailure>(s.default_limit as nat) && match old.history {
            Some(o) => s == (HistoryConfig { default_limit: s.default_limit, ..o }),
            None => history_config_default_except(s, "default_limit"@),
        }
    } else if key == "suggest.default_limit"@ {
        &&& new == (WikiConfig { suggest: new.suggest, ..old })
        &&& new.suggest matches Some(s) && parse_unsigned(value, 0xffff_ffffnat) == Ok::<nat, ParseFailure>(s.default_limit as nat) && match old.suggest {
            Some(o) => s == (SuggestConfig { default_limit: s.default_limit, ..o }),
            None => suggest_config_default_except(s, "default_limit"@),
        }
    } else if key == "graph.format"@ {
        &&& new == (WikiConfig { graph: new.graph, ..old })
        &&& new.graph matches Some(s) && s.format@ == value && match old.graph {
            Some(o) => s == (GraphConfig { format: s.format, ..o }),
            None => graph_config_default_except(s, "format"@),
        }
    } else if key == "graph.depth"@ {
        &&& new == (WikiConfig { graph: new.graph, ..old })
        &&& new.graph matches Some(s) && parse_unsigned(value, 0xffff_ffffnat) == Ok::<nat, ParseFailure>(s.depth as nat) && match old.graph {
            Some(o) => s == (GraphConfig { depth: s.depth, ..o }),
            None => graph_config_default_except(s, "depth"@),
        }
    } else if key == "graph.output"@ {
        &&& new == (WikiConfig { graph: new.graph, ..old })
        &&& new.graph matches Some(s) && s.output@ == value && match old.graph {
            Some(o) => s == (GraphConfig { output: s.output, ..o }),
            None => graph_config_default_except(s, "output"@),
        }
    } else {
        false
    }
}

/// Set a dot-notation key of a wiki's config (creating the section override
/// from the section's defaults when absent). Global-only keys and unknown
/// keys are refused, and so is `suggest.min_score` (a float, the caller's);
/// on an error the config is unchanged.
pub fn set_wiki_config_value(wiki_cfg: &mut WikiConfig, key: &str, value: &str) -> (r: Result<(), ConfigError>)
    ensures
        match wiki_key_parse(key@, value@) {
            Some(Ok(())) => r is Ok && wiki_updated(*old(wiki_cfg), *final(wiki_cfg), key@, value@),
            Some(Err(f)) => r == Err::<(), ConfigError>(ConfigError::InvalidValue(f)) && *final(wiki_cfg) == *old(wiki_cfg),
            None => *final(wiki_cfg) == *old(wiki_cfg) && if global_only_key(key@) {
                r matches Err(ConfigError::GlobalOnly(k)) && k@ == key@
            } else if key@ == "suggest.min_score"@ {
                r matches Err(ConfigError::FloatKey(k)) && k@ == key@
            } else {
                r matches Err(ConfigError::UnknownKey(k)) && k@ == key@
            },
        },
{
    let k = chars_of(key);
    if eq_str(&k, "defaults.search_top_k") {
        let v = match parse_unsigned_exec(value, 0xffff_ffffu128) {
            Ok(n) => n as u32,
            Err(e) => {
                return Err(ConfigError::InvalidValue(e));
            },
        };
        let mut s = match wiki_cfg.defaults.take() {
            Some(o) => o,
            None => Defaults::default(),
        };
        s.search_top_k = v;
        wiki_cfg.defaults = Some(s);
        return Ok(());
    }
    if eq_str(&k, "defaults.search_excerpt") {
        let v = match parse_bool_exec(value) {
            Ok(b) => b,
            Err(e) => {
                return Err(ConfigError::InvalidValue(e));
            },
        };
        let mut s = match wiki_cfg.defaults.take() {
            Some(o) => o,
            None => Defaults::default(),
        };
        s.search_excerpt = v;
        wiki_cfg.defaults = Some(s);
        return Ok(());
    }
    if eq_str(&k, "defaults.search_sections") {
        let v = match parse_bool_exec(value) {
            Ok(b) => b,
            Err(e) => {
                return Err(ConfigError::InvalidValue(e));
            },
        };
        let mut s = match wiki_cfg.defaults.take() {
            Some(o) => o,
            None => Defaults::default(),
        };
        s.search_sections = v;
        wiki_cfg.defaults = Some(s);
        return Ok(());
    }
    if eq_str(&k, "defaults.page_mode") {
        let v = string_of(&chars_of(value));
        let mut s = match wiki_cfg.defaults.take() {
            Some(o) => o,
            None => Defaults::default(),
        };
        s.page_mode = v;
        wiki_cfg.defaults = Some(s);
        return Ok(());
    }
    if eq_str(&k, "defaults.list_page_size") {
        let v = match parse_unsigned_exec(value, 0xffff_ffffu128) {
            Ok(n) => n as u32,
            Err(e) => {
                return Err(ConfigError::InvalidValue(e));
            },
        };
        let mut s = match wiki_cfg.defaults.take() {
            Some(o) => o,
            None => Defaults::default(),
        };
        s.list_page_size = v;
        wiki_cfg.defaults = Some(s);
        return Ok(());
    }
    if eq_str(&k, "defaults.output_format") {
        let v = string_of(&chars_of(value));
        let mut s = match wiki_cfg.defaults.take() {
            Some(o) => o,
            None => Defaults::default(),
        };
        s.output_format = v;
        wiki_cfg.defaults = Some(s);
        return Ok(());
    }
    if eq_str(&k, "defaults.facets_top_tags") {
        let v = match parse_unsigned_exec(value, 0xffff_ffffu128) {
            Ok(n) => n as u32,
            Err(e) => {
                return Err(ConfigError::InvalidValue(e));
            },
        };
        let mut s = match wiki_cfg.defaults.take() {
            Some(o) => o,
            None => Defaults::default(),
        };
        s.facets_top_tags = v;
        wiki_cfg.defaults = Some(s);
        return Ok(());
    }
    if eq_str(&k, "read.no_frontmatter") {
        let v = match parse_bool_exec(value) {
            Ok(b) => b,
            Err(e) => {
                return Err(ConfigError::InvalidValue(e));
            },
        };
        let mut s = match wiki_cfg.read.take() {
            Some(o) => o,
            None => ReadConfig::default(),
        };
        s.no_frontmatter = v;
        wiki_cfg.read = Some(s);
        return Ok(());
    }
    if eq_str(&k, "validation.type_strictness") {
        let v = string_of(&chars_of(value));
        let mut s = match wiki_cfg.validation.take() {
            Some(o) => o,
            None => ValidationConfig::default(),
        };
        s.type_strictness = v;
        wiki_cfg.validation = Some(s);
        return Ok(());
    }
    if eq_str(&k, "ingest.auto_commit") {
        let v = match parse_bool_exec(value) {
            Ok(b) => b,
            Err(e) => {
                return Err(ConfigError::InvalidValue(e));
            },
        };
        let mut s = match wiki_cfg.ingest.take() {
            Some(o) => o,
            None => IngestConfig::default(),
        };
        s.auto_commit = v;
        wiki_cfg.ingest = Some(s);
        return Ok(());
    }
    if eq_str(&k, "history.follow") {
        let v = match parse_bool_exec(value) {
            Ok(b) => b,
            Err(e) => {
                return Err(ConfigError::InvalidValue(e));
            },
        };
        let mut s = match wiki_cfg.history.take() {
            Some(o) => o,
            None => HistoryConfig::default(),
        };
        s.follow = v;
        wiki_cfg.history = Some(s);
        return Ok(());
    }
    if eq_str(&k, "history.default_limit") {
        let v = match parse_unsigned_exec(value, 0xffff_ffffu128) {
            Ok(n) => n as u32,
            Err(e) => {
                return Err(ConfigError::InvalidValue(e));
            },
        };
        let mut s = match wiki_cfg.history.take() {
            Some(o) => o,
            None => HistoryConfig::default(),
        };
        s.default_limit = v;
        wiki_cfg.history = Some(s);
        return Ok(());
    }
    if eq_str(&k, "suggest.default_limit") {
        let v = match parse_unsigned_exec(value, 0xffff_ffffu128) {
            Ok(n) => n as u32,
            Err(e) => {
                return Err(ConfigError::InvalidValue(e));
            },
        };
        let mut s = match wiki_cfg.suggest.take() {
            Some(o) => o,
            None => SuggestConfig::default(),
        };
        s.default_limit = v;
        wiki_cfg.suggest = Some(s);
        return Ok(());
    }
    if eq_str(&k, "graph.format") {
        let v = string_of(&chars_of(value));
        let mut s = match wiki_cfg.graph.take() {
            Some(o) => o,
            None => GraphConfig::default(),
        };
        s.format = v;
        wiki_cfg.graph = Some(s);
        return Ok(());
    }
    if eq_str(&k, "graph.depth") {
        let v = match parse_unsigned_exec(value, 0xffff_ffffu128) {
            Ok(n) => n as u32,
            Err(e) => {
                return Err(ConfigError::InvalidValue(e));
            },
        };
        let mut s = match wiki_cfg.graph.take() {
            Some(o) => o,
            None => GraphConfig::default(),
        };
        s.depth = v;
        wiki_cfg.graph = Some(s);
        return Ok(());
    }
    if eq_str(&k, "graph.output") {
        let v = string_of(&chars_of(value));
        let mut s = match wiki_cfg.graph.take() {
            Some(o) => o,
            None => GraphConfig::default(),
        };
        s.output = v;
        wiki_cfg.graph = Some(s);
        return Ok(());
    }
    if eq_str(&k, "global.default_wiki") || eq_str(&k, "index.auto_rebuild") || eq_str(&k, "index.auto_recovery") || eq_str(&k, "index.memory_budget_mb") || eq_str(&k, "index.tokenizer") || eq_str(&k, "serve.http") || eq_str(&k, "serve.http_port") || eq_str(&k, "serve.http_allowed_hosts") || eq_str(&k, "serve.acp") || eq_str(&k, "serve.max_restarts") || eq_str(&k, "serve.restart_backoff") || eq_str(&k, "serve.heartbeat_secs") || eq_str(&k, "serve.acp_max_sessions") || eq_str(&k, "logging.log_path") || eq_str(&k, "logging.log_rotation") || eq_str(&k, "logging.log_max_files") || eq_str(&k, "logging.log_format") || eq_str(&k, "watch.debounce_ms") {
        return Err(ConfigError::GlobalOnly(string_of(&k)));
    }
    if eq_str(&k, "suggest.min_score") {
        return Err(ConfigError::FloatKey(string_of(&k)));
    }
    Err(ConfigError::UnknownKey(string_of(&k)))
}

impl Default for ServeConfig {
    fn default() -> (r: Self)
        ensures
            !r.http,
            r.http_port == 8080,
            texts(r.http_allowed_hosts@) == seq!["localhost"@, "127.0.0.1"@, "::1"@],
            !r.acp,
            r.max_restarts == 10,
            r.restart_backoff == 1,
            r.heartbeat_secs == 60,
            r.acp_max_sessions == 20,
    {
        ServeConfig {
            http: false,
            http_port: 8080,
            http_allowed_hosts: default_http_allowed_hosts(),
            acp: false,
            max_restarts: 10,
            restart_backoff: 1,
            heartbeat_secs: 60,
            acp_max_sessions: default_acp_max_sessions(),
        }
    }
}

impl LoggingConfig {
    /// The default logging section for a user whose home directory is
    /// `home`: logs under `<home>/.llm-wiki/logs`, rotated daily, seven kept,
    /// as text.
    pub fn with_home(home: &str) -> (r: Self)
        ensures
            r.log_path@ == crate::lint::join_path(crate::lint::join_path(home@, ".llm-wiki"@), "logs"@),
            r.log_rotation@ == "daily"@,
            r.log_max_files == 7,
            r.log_format@ == "text"@,
    {
        let dir = crate::lint::join_path_exec(home, &chars_of(".llm-wiki"));
        let path = crate::lint::join_path_exec(dir.as_str(), &chars_of("logs"));
        LoggingConfig {
            log_path: path,
            log_rotation: string_of(&chars_of("daily")),
            log_max_files: 7,
            log_format: string_of(&chars_of("text")),
        }
    }
}

impl GlobalConfig {
    /// The default global config for a user whose home directory is `home`:
    /// no wikis, no default wiki, every section at its defaults.
    pub fn with_home(home: &str) -> (r: Self)
        ensures
            r.global.default_wiki@.len() == 0,
            r.wikis@.len() == 0,
            r.defaults.search_top_k == 10 && r.defaults.search_excerpt && !r.defaults.search_sections
                && r.defaults.page_mode@ == "flat"@ && r.defaults.list_page_size == 20 && r.defaults.output_format@
                == "text"@ && r.defaults.facets_top_tags == 10,
            !r.read.no_frontmatter,
            !r.index.auto_rebuild && r.index.auto_recovery && r.index.memory_budget_mb == 50 && r.index.tokenizer@
                == "en_stem"@,
            r.graph.format@ == "mermaid"@ && r.graph.depth == 3 && r.graph.node_types@.len() == 0
                && r.graph.output@.len() == 0 && r.graph.min_nodes_for_communities == 30
                && r.graph.community_suggestions_limit == 2,
            !r.serve.http && r.serve.http_port == 8080 && texts(r.serve.http_allowed_hosts@) == seq![
                "localhost"@,
                "127.0.0.1"@,
                "::1"@,
            ] && !r.serve.acp && r.serve.max_restarts == 10 && r.serve.restart_backoff == 1
                && r.serve.heartbeat_secs == 60 && r.serve.acp_max_sessions == 20,
            r.validation.type_strictness@ == "loose"@,
            r.ingest.auto_commit,
            r.history.follow && r.history.default_limit == 10,
            r.suggest.default_limit == 5,
            r.lint.stale_days == 90,
            r.logging.log_path@ == crate::lint::join_path(crate::lint::join_path(home@, ".llm-wiki"@), "logs"@)
                && r.logging.log_rotation@ == "daily"@ && r.logging.log_max_files == 7 && r.logging.log_format@
                == "text"@,
            r.watch.debounce_ms == 500,
            r.redact.disable@.len() == 0 && r.redact.patterns@.len() == 0,
    {
        GlobalConfig {
            global: GlobalSection { default_wiki: String::new() },
            wikis: Vec::new(),
            defaults: Defaults::default(),
            read: ReadConfig::default(),
            index: IndexConfig::default(),
            graph: GraphConfig::default(),
            serve: ServeConfig::default(),
            validation: ValidationConfig::default(),
            ingest: IngestConfig::default(),
            history: HistoryConfig::default(),
            suggest: SuggestConfig::default(),
            lint: LintConfig::default(),
            logging: LoggingConfig::with_home(home),
            watch: WatchConfig::default(),
            redact: RedactConfig { disable: Vec::new(), patterns: Vec::new() },
        }
    }
}

impl Default for WikiConfig {
    fn default() -> (r: Self)
        ensures
            r.name@.len() == 0,
            r.description@.len() == 0,
            r.types@.len() == 0,
            r.defaults is None,
            r.read is None,
            r.validation is None,
            r.ingest is None,
            r.graph is None,
            r.history is None,
            r.suggest is None,
            r.lint is None,
            r.redact is None,
            r.wiki_root@ == "wiki"@,
    {
        WikiConfig {
            name: String::new(),
            description: String::new(),
            types: Vec::new(),
            defaults: None,
            read: None,
            validation: None,
            ingest: None,
            graph: None,
            history: None,
            suggest: None,
            lint: None,
            redact: None,
            wiki_root: default_wiki_root(),
        }
    }
}

// ── Merging ───────────────────────────────────────────────────────────────────

/// Two graph sections with the same settings.
pub open spec fn same_graph(a: GraphConfig, b: GraphConfig) -> bool {
    &&& a.format == b.format
    &&& a.depth == b.depth
    &&& a.node_types@ == b.node_types@
    &&& a.output == b.output
    &&& a.min_nodes_for_communities == b.min_nodes_for_communities
    &&& a.community_suggestions_limit == b.community_suggestions_limit
}

/// Two serve sections with the same settings.
pub open spec fn same_serve(a: ServeConfig, b: ServeConfig) -> bool {
    &&& a.http == b.http
    &&& a.http_port == b.http_port
    &&& a.http_allowed_hosts@ == b.http_allowed_hosts@
    &&& a.acp == b.acp
    &&& a.max_restarts == b.max_restarts
    &&& a.restart_backoff == b.restart_backoff
    &&& a.heartbeat_secs == b.heartbeat_secs
    &&& a.acp_max_sessions == b.acp_max_sessions
}

/// Two redact sections with the same settings.
pub open spec fn same_redact(a: RedactConfig, b: RedactConfig) -> bool {
    a.disable@ == b.disable@ && a.patterns@ == b.patterns@
}

/// The per-wiki override when there is one, else the global section.
pub open spec fn pick<T>(over: Option<T>, global: T) -> T {
    match over {
        Some(v) => v,
        None => global,
    }
}

/// The merge of `global` and `w`: each overridable section from `w` when it
/// has one, else from `global`; `index` and `serve` always from `global`.
pub open spec fn resolve_spec(g: GlobalConfig, w: WikiConfig) -> ResolvedConfig {
    ResolvedConfig {
        defaults: pick(w.defaults, g.defaults),
        read: pick(w.read, g.read),
        index: g.index,
        graph: pick(w.graph, g.graph),
        serve: g.serve,
        ingest: pick(w.ingest, g.ingest),
        validation: pick(w.validation, g.validation),
        history: pick(w.history, g.history),
        suggest: pick(w.suggest, g.suggest),
        lint: pick(w.lint, g.lint),
        redact: pick(w.redact, g.redact),
    }
}

/// A wiki's own section wins: for each overridable section (`defaults`,
/// `read`, `graph`, `ingest`, `validation`, `history`, `suggest`, `lint`,
/// `redact`) the resolved section is the wiki's when its config has one,
/// else the global one; `index` and `serve` are always the global ones.
pub proof fn resolve_prefers_wiki_sections(g: GlobalConfig, w: WikiConfig)
    ensures
        resolve_spec(g, w).defaults == (match w.defaults {
            Some(s) => s,
            None => g.defaults,
        }),
        resolve_spec(g, w).read == (match w.read {
            Some(s) => s,
            None => g.read,
        }),
        resolve_spec(g, w).graph == (match w.graph {
            Some(s) => s,
            None => g.graph,
        }),
        resolve_spec(g, w).ingest == (match w.ingest {
            Some(s) => s,
            None => g.ingest,
        }),
        resolve_spec(g, w).validation == (match w.validation {
            Some(s) => s,
            None => g.validation,
        }),
        resolve_spec(g, w).history == (match w.history {
            Some(s) => s,
            None => g.history,
        }),
        resolve_spec(g, w).suggest == (match w.suggest {
            Some(s) => s,
            None => g.suggest,
        }),
        resolve_spec(g, w).lint == (match w.lint {
            Some(s) => s,
            None => g.lint,
        }),
        resolve_spec(g, w).redact == (match w.redact {
            Some(s) => s,
            None => g.redact,
        }),
        resolve_spec(g, w).index == g.index,
        resolve_spec(g, w).serve == g.serve,
{
}

/// The settings of a wiki without overrides: every section from `g`.
pub open spec fn global_resolved(g: GlobalConfig) -> ResolvedConfig {
    ResolvedConfig {
        defaults: g.defaults,
        read: g.read,
        index: g.index,
        graph: g.graph,
        serve: g.serve,
        ingest: g.ingest,
        validation: g.validation,
        history: g.history,
        suggest: g.suggest,
        lint: g.lint,
        redact: g.redact,
    }
}

/// `a` holds the same settings as `b`.
pub open spec fn same_resolved(a: ResolvedConfig, b: ResolvedConfig) -> bool {
    &&& a.defaults == b.defaults
    &&& a.read == b.read
    &&& a.index == b.index
    &&& same_graph(a.graph, b.graph)
    &&& same_serve(a.serve, b.serve)
    &&& a.ingest == b.ingest
    &&& a.validation == b.validation
    &&& a.history == b.history
    &&& a.suggest == b.suggest
    &&& a.lint == b.lint
    &&& same_redact(a.redact, b.redact)
}

/// A copy of a list of strings.
fn copy_strings(v: &Vec<String>) -> (r: Vec<String>)
    ensures
        r@ == v@,
{
    let mut r: Vec<String> = Vec::new();
    let mut i: usize = 0;
    while i < v.len()
        invariant
            i <= v@.len(),
            r@ == v@.subrange(0, i as int),
        decreases v.len() - i,
    {
        r.push(v[i].clone());
        assert(r@ == v@.subrange(0, i + 1));
        i = i + 1;
    }
    assert(v@.subrange(0, v@.len() as int) == v@);
    r
}

fn copy_defaults(d: &Defaults) -> (r: Defaults)
    ensures
        r == *d,
{
    Defaults {
        search_top_k: d.search_top_k,
        search_excerpt: d.search_excerpt,
        search_sections: d.search_sections,
        page_mode: d.page_mode.clone(),
        list_page_size: d.list_page_size,
        output_format: d.output_format.clone(),
        facets_top_tags: d.facets_top_tags,
    }
}

fn copy_graph(g: &GraphConfig) -> (r: GraphConfig)
    ensures
        same_graph(r, *g),
{
    GraphConfig {
        format: g.format.clone(),
        depth: g.depth,
        node_types: copy_strings(&g.node_types),
        output: g.output.clone(),
        min_nodes_for_communities: g.min_nodes_for_communities,
        community_suggestions_limit: g.community_suggestions_limit,
    }
}

fn copy_serve(s: &ServeConfig) -> (r: ServeConfig)
    ensures
        same_serve(r, *s),
{
    ServeConfig {
        http: s.http,
        http_port: s.http_port,
        http_allowed_hosts: copy_strings(&s.http_allowed_hosts),
        acp: s.acp,
        max_restarts: s.max_restarts,
        restart_backoff: s.restart_backoff,
        heartbeat_secs: s.heartbeat_secs,
        acp_max_sessions: s.acp_max_sessions,
    }
}

fn copy_redact(s: &RedactConfig) -> (r: RedactConfig)
    ensures
        same_redact(r, *s),
{
    let mut patterns: Vec<CustomPattern> = Vec::new();
    let mut i: usize = 0;
    while i < s.patterns.len()
        invariant
            i <= s.patterns@.len(),
            patterns@ == s.patterns@.subrange(0, i as int),
        decreases s.patterns.len() - i,
    {
        let p = &s.patterns[i];
        let c = CustomPattern {
            name: p.name.clone(),
            pattern: p.pattern.clone(),
            replacement: p.replacement.clone(),
        };
        assert(c == *p);
        patterns.push(c);
        assert(patterns@ == s.patterns@.subrange(0, i + 1));
        i = i + 1;
    }
    assert(s.patterns@.subrange(0, s.patterns@.len() as int) == s.patterns@);
    RedactConfig { disable: copy_strings(&s.disable), patterns }
}

/// Merge global and per-wiki config into the settings of one wiki.
pub fn resolve(global: &GlobalConfig, per_wiki: &WikiConfig) -> (r: ResolvedConfig)
    ensures
        same_resolved(r, resolve_spec(*global, *per_wiki)),
        r.defaults == (match per_wiki.defaults {
            Some(s) => s,
            None => global.defaults,
        }),
        r.read == (match per_wiki.read {
            Some(s) => s,
            None => global.read,
        }),
        r.ingest == (match per_wiki.ingest {
            Some(s) => s,
            None => global.ingest,
        }),
        r.validation == (match per_wiki.validation {
            Some(s) => s,
            None => global.validation,
        }),
        r.history == (match per_wiki.history {
            Some(s) => s,
            None => global.history,
        }),
        r.suggest == (match per_wiki.suggest {
            Some(s) => s,
            None => global.suggest,
        }),
        r.lint == (match per_wiki.lint {
            Some(s) => s,
            None => global.lint,
        }),
        same_graph(
            r.graph,
            match per_wiki.graph {
                Some(s) => s,
                None => global.graph,
            },
        ),
        same_redact(
            r.redact,
            match per_wiki.redact {
                Some(s) => s,
                None => global.redact,
            },
        ),
{
    ResolvedConfig {
        defaults: match &per_wiki.defaults {
            Some(d) => copy_defaults(d),
            None => copy_defaults(&global.defaults),
        },
        read: match &per_wiki.read {
            Some(d) => ReadConfig { no_frontmatter: d.no_frontmatter },
            None => ReadConfig { no_frontmatter: global.read.no_frontmatter },
        },
        index: IndexConfig {
            auto_rebuild: global.index.auto_rebuild,
            auto_recovery: global.index.auto_recovery,
            memory_budget_mb: global.index.memory_budget_mb,
            tokenizer: global.index.tokenizer.clone(),
        },
        graph: match &per_wiki.graph {
            Some(d) => copy_graph(d),
            None => copy_graph(&global.graph),
        },
        serve: copy_serve(&global.serve),
        ingest: match &per_wiki.ingest {
            Some(d) => IngestConfig { auto_commit: d.auto_commit },
            None => IngestConfig { auto_commit: global.ingest.auto_commit },
        },
        validation: match &per_wiki.validation {
            Some(d) => ValidationConfig { type_strictness: d.type_strictness.clone() },
            None => ValidationConfig { type_strictness: global.validation.type_strictness.clone() },
        },
        history: match &per_wiki.history {
            Some(d) => HistoryConfig { follow: d.follow, default_limit: d.default_limit },
            None => HistoryConfig { follow: global.history.follow, default_limit: global.history.default_limit },
        },
        suggest: match &per_wiki.suggest {
            Some(d) => SuggestConfig { default_limit: d.default_limit },
            None => SuggestConfig { default_limit: global.suggest.default_limit },
        },
        lint: match &per_wiki.lint {
            Some(d) => LintConfig { stale_days: d.stale_days },
            None => LintConfig { stale_days: global.lint.stale_days },
        },
        redact: match &per_wiki.redact {
            Some(d) => copy_redact(d),
            None => copy_redact(&global.redact),
        },
    }
}

// ── Operations ────────────────────────────────────────────────────────────────

/// Read a key of the global config as a wiki without overrides sees it.
pub fn config_get(global: &GlobalConfig, key: &str) -> (r: Option<String>)
    ensures
        match config_value(global_resolved(*global), *global, key@) {
            Some(t) => r matches Some(s) && s@ == t,
            None => r is None,
        },
{
    let w = WikiConfig::default();
    let resolved = resolve(global, &w);
    assert(resolve_spec(*global, w) == global_resolved(*global));
    assert(config_value(resolved, *global, key@) == config_value(global_resolved(*global), *global, key@));
    get_config_value(&resolved, global, key)
}

/// The settings of a wiki without overrides: the global ones.
pub fn config_list_resolved(global: &GlobalConfig) -> (r: ResolvedConfig)
    ensures
        same_resolved(r, global_resolved(*global)),
{
    let w = WikiConfig::default();
    assert(resolve_spec(*global, w) == global_resolved(*global));
    resolve(global, &w)
}

/// Where `config_set` writes: the global config, or the wiki named by
/// `wiki_name` (the default wiki when not given).
pub open spec fn set_scope_name(global: GlobalConfig, wiki_name: Option<Seq<char>>) -> Seq<char> {
    match wiki_name {
        Some(n) => n,
        None => global.global.default_wiki@,
    }
}

/// Set a key, in the global config when `global` is set, else in
/// `wiki_cfg`, the config of the wiki named by `wiki_name` (default: the
/// default wiki), and report it: `Set <key> = <value> (global)` or
/// `Set <key> = <value> (wiki: <name>)`.
pub fn config_set(
    global_cfg: &mut GlobalConfig,
    wiki_cfg: &mut WikiConfig,
    key: &str,
    value: &str,
    global: bool,
    wiki_name: Option<&str>,
) -> (r: Result<String, ConfigError>)
    ensures
        global ==> *final(wiki_cfg) == *old(wiki_cfg) && match global_key_parse(key@, value@) {
            Some(Ok(())) => r matches Ok(m) && global_updated(*old(global_cfg), *final(global_cfg), key@, value@)
                && m@ == "Set "@ + key@ + " = "@ + value@ + " (global)"@,
            _ => r is Err && *final(global_cfg) == *old(global_cfg),
        },
        !global ==> *final(global_cfg) == *old(global_cfg) && match wiki_key_parse(key@, value@) {
            Some(Ok(())) => r matches Ok(m) && wiki_updated(*old(wiki_cfg), *final(wiki_cfg), key@, value@)
                && m@ == "Set "@ + key@ + " = "@ + value@ + " (wiki: "@ + set_scope_name(
                *old(global_cfg),
                crate::text::opt_text(wiki_name),
            ) + ")"@,
            _ => r is Err && *final(wiki_cfg) == *old(wiki_cfg),
        },
{
    let mut m: Vec<char> = Vec::new();
    push_str(&mut m, "Set ");
    push_str(&mut m, key);
    push_str(&mut m, " = ");
    push_str(&mut m, value);
    if global {
        match set_global_config_value(global_cfg, key, value) {
            Ok(()) => {},
            Err(e) => {
                return Err(e);
            },
        }
        push_str(&mut m, " (global)");
    } else {
        let name: Vec<char> = match wiki_name {
            Some(n) => chars_of(n),
            None => chars_of(global_cfg.global.default_wiki.as_str()),
        };
        match set_wiki_config_value(wiki_cfg, key, value) {
            Ok(()) => {},
            Err(e) => {
                return Err(e);
            },
        }
        push_str(&mut m, " (wiki: ");
        push_chars(&mut m, &name);
        push_str(&mut m, ")");
    }
    Ok(string_of(&m))
}


// ── Reading back what was written ─────────────────────────────────────────────

/// What `config get` shows for a key once `value` was set under it: the
/// number or boolean parsed from it, the host list joined with commas, or
/// the text itself.
pub open spec fn shown_value(key: Seq<char>, value: Seq<char>) -> Seq<char> {
    if key == "global.default_wiki"@ {
        value
    } else if key == "defaults.search_top_k"@ {
        decimal(parse_unsigned(value, 0xffff_ffffnat)->Ok_0)
    } else if key == "defaults.search_excerpt"@ {
        bool_text(parse_bool(value)->Ok_0)
    } else if key == "defaults.search_sections"@ {
        bool_text(parse_bool(value)->Ok_0)
    } else if key == "defaults.page_mode"@ {
        value
    } else if key == "defaults.list_page_size"@ {
        decimal(parse_unsigned(value, 0xffff_ffffnat)->Ok_0)
    } else if key == "defaults.output_format"@ {
        value
    } else if key == "defaults.facets_top_tags"@ {
        decimal(parse_unsigned(value, 0xffff_ffffnat)->Ok_0)
    } else if key == "read.no_frontmatter"@ {
        bool_text(parse_bool(value)->Ok_0)
    } else if key == "index.auto_rebuild"@ {
        bool_text(parse_bool(value)->Ok_0)
    } else if key == "index.auto_recovery"@ {
        bool_text(parse_bool(value)->Ok_0)
    } else if key == "index.memory_budget_mb"@ {
        decimal(parse_unsigned(value, 0xffff_ffffnat)->Ok_0)
    } else if key == "index.tokenizer"@ {
        value
    } else if key == "graph.format"@ {
        value
    } else if key == "graph.depth"@ {
        decimal(parse_unsigned(value, 0xffff_ffffnat)->Ok_0)
    } else if key == "graph.output"@ {
        value
    } else if key == "serve.http"@ {
        bool_text(parse_bool(value)->Ok_0)
    } else if key == "serve.http_port"@ {
        decimal(parse_unsigned(value, 0xffffnat)->Ok_0)
    } else if key == "serve.http_allowed_hosts"@ {
        join(host_list(value), ","@)
    } else if key == "serve.acp"@ {
        bool_text(parse_bool(value)->Ok_0)
    } else if key == "serve.max_restarts"@ {
        decimal(parse_unsigned(value, 0xffff_ffffnat)->Ok_0)
    } else if key == "serve.restart_backoff"@ {
        decimal(parse_unsigned(value, 0xffff_ffffnat)->Ok_0)
    } else if key == "serve.heartbeat_secs"@ {
        decimal(parse_unsigned(value, 0xffff_ffffnat)->Ok_0)
    } else if key == "serve.acp_max_sessions"@ {
        decimal(parse_unsigned(value, usize::MAX as nat)->Ok_0)
    } else if key == "ingest.auto_commit"@ {
        bool_text(parse_bool(value)->Ok_0)
    } else if key == "history.follow"@ {
        bool_text(parse_bool(value)->Ok_0)
    } else if key == "history.default_limit"@ {
        decimal(parse_unsigned(value, 0xffff_ffffnat)->Ok_0)
    } else if key == "suggest.default_limit"@ {
        decimal(parse_unsigned(value, 0xffff_ffffnat)->Ok_0)
    } else if key == "validation.type_strictness"@ {
        value
    } else if key == "logging.log_path"@ {
        value
    } else if key == "logging.log_rotation"@ {
        value
    } else if key == "logging.log_max_files"@ {
        decimal(parse_unsigned(value, 0xffff_ffffnat)->Ok_0)
    } else if key == "logging.log_format"@ {
        value
    } else if key == "watch.debounce_ms"@ {
        decimal(parse_unsigned(value, 0xffff_ffffnat)->Ok_0)
    } else {
        value
    }
}

/// Setting a key in the global config and then getting it gives back the
/// value set (in the form `shown_value` says).
pub proof fn set_then_get(old: GlobalConfig, new: GlobalConfig, key: Seq<char>, value: Seq<char>)
    requires
        global_key_parse(key, value) == Some(Ok::<(), ParseFailure>(())),
        global_updated(old, new, key, value),
    ensures
        config_value(global_resolved(new), new, key) == Some(shown_value(key, value)),
{
}

/// Setting a key in the global config leaves every other key as it was.
#[verifier::rlimit(100)]
pub proof fn set_keeps_other_keys(old: GlobalConfig, new: GlobalConfig, key: Seq<char>, value: Seq<char>, other: Seq<char>)
    requires
        global_key_parse(key, value) == Some(Ok::<(), ParseFailure>(())),
        global_updated(old, new, key, value),
        other != key,
    ensures
        config_value(global_resolved(new), new, other) == config_value(global_resolved(old), old, other),
{
}

/// Setting a key in a wiki's config and then getting it for that wiki gives
/// back the value set (in the form `shown_value` says).
pub proof fn wiki_set_then_get(global: GlobalConfig, old: WikiConfig, new: WikiConfig, key: Seq<char>, value: Seq<char>)
    requires
        wiki_key_parse(key, value) == Some(Ok::<(), ParseFailure>(())),
        wiki_updated(old, new, key, value),
    ensures
        config_value(resolve_spec(global, new), global, key) == Some(shown_value(key, value)),
{
    reveal_strlit("global.default_wiki");
    reveal_strlit("defaults.search_top_k");
    reveal_strlit("defaults.search_excerpt");
    reveal_strlit("defaults.search_sections");
    reveal_strlit("defaults.page_mode");
    reveal_strlit("defaults.list_page_size");
    reveal_strlit("defaults.output_format");
    reveal_strlit("defaults.facets_top_tags");
    reveal_strlit("read.no_frontmatter");
    reveal_strlit("index.auto_rebuild");
    reveal_strlit("index.auto_recovery");
    reveal_strlit("index.memory_budget_mb");
    reveal_strlit("index.tokenizer");
    reveal_strlit("graph.format");
    reveal_strlit("graph.depth");
    reveal_strlit("graph.output");
    reveal_strlit("serve.http");
    reveal_strlit("serve.http_port");
    reveal_strlit("serve.http_allowed_hosts");
    reveal_strlit("serve.acp");
    reveal_strlit("serve.max_restarts");
    reveal_strlit("serve.restart_backoff");
    reveal_strlit("serve.heartbeat_secs");
    reveal_strlit("serve.acp_max_sessions");
    reveal_strlit("ingest.auto_commit");
    reveal_strlit("history.follow");
    reveal_strlit("history.default_limit");
    reveal_strlit("suggest.default_limit");
    reveal_strlit("validation.type_strictness");
    reveal_strlit("logging.log_path");
    reveal_strlit("logging.log_rotation");
    reveal_strlit("logging.log_max_files");
    reveal_strlit("logging.log_format");
    reveal_strlit("watch.debounce_ms");
    if key == "defaults.search_top_k"@ {
        assert(key[1] != "global.default_wiki"@[1]);
        assert(resolve_spec(global, new).defaults == new.defaults->Some_0);
        assert(config_value(resolve_spec(global, new), global, key) == Some(shown_value(key, value)));
    } else if key == "defaults.search_excerpt"@ {
        assert(key[1] != "global.default_wiki"@[1]);
        assert(resolve_spec(global, new).defaults == new.defaults->Some_0);
        assert(config_value(resolve_spec(global, new), global, key) == Some(shown_value(key, value)));
    } else if key == "defaults.search_sections"@ {
        assert(key[1] != "global.default_wiki"@[1]);
        assert(resolve_spec(global, new).defaults == new.defaults->Some_0);
        assert(config_value(resolve_spec(global, new), global, key) == Some(shown_value(key, value)));
    } else if key == "defaults.page_mode"@ {
        assert(key[1] != "global.default_wiki"@[1]);
        assert(resolve_spec(global, new).defaults == new.defaults->Some_0);
        assert(config_value(resolve_spec(global, new), global, key) == Some(shown_value(key, value)));
    } else if key == "defaults.list_page_size"@ {
        assert(key[1] != "global.default_wiki"@[1]);
        assert(resolve_spec(global, new).defaults == new.defaults->Some_0);
        assert(config_value(resolve_spec(global, new), global, key) == Some(shown_value(key, value)));
    } else if key == "defaults.output_format"@ {
        assert(key[1] != "global.default_wiki"@[1]);
        assert(resolve_spec(global, new).defaults == new.defaults->Some_0);
        assert(config_value(resolve_spec(global, new), global, key) == Some(shown_value(key, value)));
    } else if key == "defaults.facets_top_tags"@ {
        assert(key[1] != "global.default_wiki"@[1]);
        assert(resolve_spec(global, new).defaults == new.defaults->Some_0);
        assert(config_value(resolve_spec(global, new), global, key) == Some(shown_value(key, value)));
    } else if key == "read.no_frontmatter"@ {
        assert(key[1] != "global.default_wiki"@[1]);
        assert(resolve_spec(global, new).read == new.read->Some_0);
        assert(config_value(resolve_spec(global, new), global, key) == Some(shown_value(key, value)));
    } else if key == "validation.type_strictness"@ {
        assert(key[1] != "global.default_wiki"@[1]);
        assert(resolve_spec(global, new).validation == new.validation->Some_0);
        assert(config_value(resolve_spec(global, new), global, key) == Some(shown_value(key, value)));
    } else if key == "ingest.auto_commit"@ {
        assert(key[1] != "global.default_wiki"@[1]);
        assert(key[2] != "index.auto_rebuild"@[2]);
        assert(resolve_spec(global, new).ingest == new.ingest->Some_0);
        assert(config_value(resolve_spec(global, new), global, key) == Some(shown_value(key, value)));
    } else if key == "history.follow"@ {
        assert(key[1] != "global.default_wiki"@[1]);
        assert(resolve_spec(global, new).history == new.history->Some_0);
        assert(config_value(resolve_spec(global, new), global, key) == Some(shown_value(key, value)));
    } else if key == "history.default_limit"@ {
        assert(key[1] != "global.default_wiki"@[1]);
        assert(resolve_spec(global, new).history == new.history->Some_0);
        assert(config_value(resolve_spec(global, new), global, key) == Some(shown_value(key, value)));
    } else if key == "suggest.default_limit"@ {
        assert(key[1] != "global.default_wiki"@[1]);
        assert(resolve_spec(global, new).suggest == new.suggest->Some_0);
        assert(config_value(resolve_spec(global, new), global, key) == Some(shown_value(key, value)));
    } else if key == "graph.format"@ {
        assert(key[1] != "global.default_wiki"@[1]);
        assert(resolve_spec(global, new).graph == new.graph->Some_0);
        assert(config_value(resolve_spec(global, new), global, key) == Some(shown_value(key, value)));
    } else if key == "graph.depth"@ {
        assert(key[1] != "global.default_wiki"@[1]);
        assert(resolve_spec(global, new).graph == new.graph->Some_0);
        assert(config_value(resolve_spec(global, new), global, key) == Some(shown_value(key, value)));
    } else if key == "graph.output"@ {
        assert(key[1] != "global.default_wiki"@[1]);
        assert(resolve_spec(global, new).graph == new.graph->Some_0);
        assert(config_value(resolve_spec(global, new), global, key) == Some(shown_value(key, value)));
    }
}


} // verus!
