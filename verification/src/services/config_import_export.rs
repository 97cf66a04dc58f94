//! Import and export of profiles: file formats, warnings on imported
//! profiles, and differences between two profiles.
use vstd::prelude::*;
use crate::error::InspectorError;
use crate::models::profile::{server_names, ProfileConfig};
use crate::text::{
    concat2, concat3, copy_string, decimal, folds_to, matches_keyword, opt_str, push_decimal, push_str,
    str_eq, views_of_strings,
};

verus! {

/// File format of an exported profile.
#[derive(PartialEq, Eq, Structural, Clone, Copy, Debug)]
pub enum ConfigFormat {
    Json,
    Yaml,
}

/// What `Path::new(path).extension()` gives, as text: the part of the file
/// name after its last `.`, when the file name has one that is not its first
/// character.
pub uninterp spec fn path_extension(path: Seq<char>) -> Option<Seq<char>>;

/// `std::path::Path::extension` of `path`, as text.
#[verifier::external_body]
fn extension_of(path: &str) -> (r: Option<String>)
    ensures
        opt_str(r) == path_extension(path@),
{
    std::path::Path::new(path).extension().and_then(|e| e.to_str()).map(|e| e.to_string())
}

/// The format named by `s`, letter case ignored: `json`, or `yaml` / `yml`.
pub open spec fn format_named(s: Seq<char>) -> Option<ConfigFormat> {
    if folds_to(s, "json"@) {
        Some(ConfigFormat::Json)
    } else if folds_to(s, "yaml"@) || folds_to(s, "yml"@) {
        Some(ConfigFormat::Yaml)
    } else {
        None
    }
}

/// The format of a file extension (exact, lowercase): `json`, or `yaml` / `yml`.
pub open spec fn format_of_extension(e: Seq<char>) -> Option<ConfigFormat> {
    if e == "json"@ {
        Some(ConfigFormat::Json)
    } else if e == "yaml"@ || e == "yml"@ {
        Some(ConfigFormat::Yaml)
    } else {
        None
    }
}

/// The outcome of choosing a format by a file's extension `ext`.
pub open spec fn extension_outcome(ext: Option<Seq<char>>) -> Result<ConfigFormat, Seq<char>> {
    match ext {
        Some(e) => match format_of_extension(e) {
            Some(f) => Ok(f),
            None => Err("Unsupported file extension: ."@ + e),
        },
        None => Err("No file extension found"@),
    }
}

/// Whether a result carries the format, or the configuration error with the
/// message, that an outcome names.
pub open spec fn format_result_matches(r: Result<ConfigFormat, InspectorError>, o: Result<ConfigFormat, Seq<char>>) -> bool {
    match r {
        Ok(f) => o == Ok::<ConfigFormat, Seq<char>>(f),
        Err(InspectorError::Config(m)) => o == Err::<ConfigFormat, Seq<char>>(m@),
        Err(_) => false,
    }
}

impl ConfigFormat {
    /// The format named by `s` (`json`, `yaml` or `yml`, letter case ignored),
    /// or a configuration error that lists the supported formats.
    pub fn parse(s: &str) -> (r: Result<ConfigFormat, InspectorError>)
        ensures
            r matches Ok(f) ==> format_named(s@) == Some(f),
            r is Err ==> format_named(s@) is None,
            r matches Err(e) ==> e matches InspectorError::Config(m)
                && m@ == "Unsupported format: "@ + s@ + ". Supported formats: json, yaml"@,
    {
        if matches_keyword(s, "json") {
            Ok(ConfigFormat::Json)
        } else if matches_keyword(s, "yaml") || matches_keyword(s, "yml") {
            Ok(ConfigFormat::Yaml)
        } else {
            Err(InspectorError::Config(concat3("Unsupported format: ", s, ". Supported formats: json, yaml")))
        }
    }

    /// The format for a file extension, or why there is none.
    pub fn from_extension(ext: Option<&str>) -> (r: Result<ConfigFormat, InspectorError>)
        ensures
            format_result_matches(r, extension_outcome(match ext { Some(e) => Some(e@), None => None })),
    {
        match ext {
            Some(e) => {
                if str_eq(e, "json") {
                    Ok(ConfigFormat::Json)
                } else if str_eq(e, "yaml") || str_eq(e, "yml") {
                    Ok(ConfigFormat::Yaml)
                } else {
                    Err(InspectorError::Config(concat2("Unsupported file extension: .", e)))
                }
            },
            None => Err(InspectorError::Config(String::from_str("No file extension found"))),
        }
    }

    /// The format of the file at `path`, by its extension.
    pub fn from_path(path: &str) -> (r: Result<ConfigFormat, InspectorError>)
        ensures
            format_result_matches(r, extension_outcome(path_extension(path@))),
    {
        let ext = extension_of(path);
        match ext {
            Some(e) => ConfigFormat::from_extension(Some(e.as_str())),
            None => ConfigFormat::from_extension(None),
        }
    }
}

impl std::str::FromStr for ConfigFormat {
    type Err = InspectorError;

    /// As [`ConfigFormat::parse`].
    fn from_str(s: &str) -> (r: Result<Self, Self::Err>)
        ensures
            r matches Ok(f) ==> format_named(s@) == Some(f),
            r is Err ==> format_named(s@) is None,
            r matches Err(e) ==> e matches InspectorError::Config(m)
                && m@ == "Unsupported format: "@ + s@ + ". Supported formats: json, yaml"@,
    {
        ConfigFormat::parse(s)
    }
}

// ---------------------------------------------------------------------------
// Warnings on a profile
// ---------------------------------------------------------------------------

/// The warnings on a valid profile: no servers, timeouts under one second,
/// fewer than 100 log entries kept.
pub open spec fn profile_warnings(c: ProfileConfig) -> Seq<Seq<char>> {
    (if c.servers@.len() == 0 { seq!["No servers configured"@] } else { Seq::empty() })
    + (if c.execution_config.tool_timeout_ms < 1000 {
        seq!["Tool timeout is very low: "@ + decimal(c.execution_config.tool_timeout_ms as nat) + "ms"@]
    } else {
        Seq::empty()
    })
    + (if c.execution_config.connection_timeout_ms < 1000 {
        seq!["Connection timeout is very low: "@ + decimal(c.execution_config.connection_timeout_ms as nat) + "ms"@]
    } else {
        Seq::empty()
    })
    + (if c.logging.max_logs < 100 {
        seq!["Max logs is very low: "@ + decimal(c.logging.max_logs as nat)]
    } else {
        Seq::empty()
    })
}

// ---------------------------------------------------------------------------
// Differences between profiles
// ---------------------------------------------------------------------------

/// The names of `n2` that are not in `n1`, each once, in the order they first
/// appear in `n2`.
pub open spec fn names_not_in(n1: Seq<Seq<char>>, n2: Seq<Seq<char>>) -> Seq<Seq<char>>
    decreases n2.len(),
{
    if n2.len() == 0 {
        Seq::empty()
    } else {
        let prev = names_not_in(n1, n2.drop_last());
        let x = n2.last();
        if n1.contains(x) || n2.drop_last().contains(x) {
            prev
        } else {
            prev.push(x)
        }
    }
}

/// `prefix` put before each of `items`.
pub open spec fn prefixed(prefix: Seq<char>, items: Seq<Seq<char>>) -> Seq<Seq<char>> {
    Seq::new(items.len(), |i: int| prefix + items[i])
}

/// `true` or `false`.
pub open spec fn bool_text(b: bool) -> Seq<char> {
    if b {
        "true"@
    } else {
        "false"@
    }
}

/// A one-line list when `changed`, an empty one otherwise.
pub open spec fn line_if(changed: bool, line: Seq<char>) -> Seq<Seq<char>> {
    if changed {
        seq![line]
    } else {
        Seq::empty()
    }
}

/// The server lines of a difference: servers added, then servers removed.
pub open spec fn server_change_lines(c1: ProfileConfig, c2: ProfileConfig) -> Seq<Seq<char>> {
    prefixed("+ Server added: "@, names_not_in(server_names(c1.servers@), server_names(c2.servers@)))
        + prefixed("- Server removed: "@, names_not_in(server_names(c2.servers@), server_names(c1.servers@)))
}

/// The logging lines of a difference: backend, then log capacity.
pub open spec fn logging_change_lines(c1: ProfileConfig, c2: ProfileConfig) -> Seq<Seq<char>> {
    line_if(c1.logging.backend@ != c2.logging.backend@,
        "Backend: "@ + c1.logging.backend@ + " -> "@ + c2.logging.backend@)
    + line_if(c1.logging.max_logs != c2.logging.max_logs,
        "Max logs: "@ + decimal(c1.logging.max_logs as nat) + " -> "@ + decimal(c2.logging.max_logs as nat))
}

/// The execution lines of a difference, one per changed setting.
pub open spec fn execution_change_lines(c1: ProfileConfig, c2: ProfileConfig) -> Seq<Seq<char>> {
    let e1 = c1.execution_config;
    let e2 = c2.execution_config;
    line_if(e1.verbose != e2.verbose, "Verbose: "@ + bool_text(e1.verbose) + " -> "@ + bool_text(e2.verbose))
    + line_if(e1.tool_timeout_ms != e2.tool_timeout_ms,
        "Tool timeout: "@ + decimal(e1.tool_timeout_ms as nat) + "ms -> "@ + decimal(e2.tool_timeout_ms as nat) + "ms"@)
    + line_if(e1.connection_timeout_ms != e2.connection_timeout_ms,
        "Connection timeout: "@ + decimal(e1.connection_timeout_ms as nat) + "ms -> "@
            + decimal(e2.connection_timeout_ms as nat) + "ms"@)
    + line_if(e1.retry_count != e2.retry_count,
        "Retry count: "@ + decimal(e1.retry_count as nat) + " -> "@ + decimal(e2.retry_count as nat))
    + line_if(e1.auto_retry_on_timeout != e2.auto_retry_on_timeout,
        "Auto retry: "@ + bool_text(e1.auto_retry_on_timeout) + " -> "@ + bool_text(e2.auto_retry_on_timeout))
}

/// The differences between two profiles.
pub struct ConfigDiff {
    pub servers_added: usize,
    pub servers_removed: usize,
    pub server_changes: Vec<String>,
    pub logging_changes: Vec<String>,
    pub execution_changes: Vec<String>,
}

/// Whether a difference records any change.
pub open spec fn diff_has_changes(d: ConfigDiff) -> bool {
    d.servers_added > 0 || d.servers_removed > 0 || d.server_changes@.len() > 0
        || d.logging_changes@.len() > 0 || d.execution_changes@.len() > 0
}

/// How many change lines a difference holds.
pub open spec fn diff_total(d: ConfigDiff) -> nat {
    d.server_changes@.len() + d.logging_changes@.len() + d.execution_changes@.len()
}

/// Whether `d` is the difference from `c1` to `c2`: how many servers were
/// added and removed, and the server, logging and execution lines.
pub open spec fn diff_of(d: ConfigDiff, c1: ProfileConfig, c2: ProfileConfig) -> bool {
    &&& d.servers_added == (if c2.servers@.len() > c1.servers@.len() { c2.servers@.len() - c1.servers@.len() } else { 0 })
    &&& d.servers_removed == (if c1.servers@.len() > c2.servers@.len() { c1.servers@.len() - c2.servers@.len() } else { 0 })
    &&& views_of_strings(d.server_changes@) == server_change_lines(c1, c2)
    &&& views_of_strings(d.logging_changes@) == logging_change_lines(c1, c2)
    &&& views_of_strings(d.execution_changes@) == execution_change_lines(c1, c2)
}

/// How many changes a difference between `c1` and `c2` counts: the server
/// names added and removed (as sets), the logging backend and capacity, and
/// each of the five execution settings that differs.
pub open spec fn profile_change_count(c1: ProfileConfig, c2: ProfileConfig) -> nat {
    let n1 = server_names(c1.servers@).to_set();
    let n2 = server_names(c2.servers@).to_set();
    n2.difference(n1).len() + n1.difference(n2).len()
        + (if c1.logging.backend@ != c2.logging.backend@ { 1nat } else { 0nat })
        + (if c1.logging.max_logs != c2.logging.max_logs { 1nat } else { 0nat })
        + changed_execution_settings(c1, c2)
}

/// Whether two profiles differ in what a difference looks at: the number of
/// servers, the set of server names, the logging backend or capacity, or an
/// execution setting.
pub open spec fn profiles_differ(c1: ProfileConfig, c2: ProfileConfig) -> bool {
    c1.servers@.len() != c2.servers@.len()
        || server_names(c1.servers@).to_set() != server_names(c2.servers@).to_set()
        || c1.logging.backend@ != c2.logging.backend@ || c1.logging.max_logs != c2.logging.max_logs
        || c1.execution_config != c2.execution_config
}

/// How many of the five execution settings differ.
pub open spec fn changed_execution_settings(c1: ProfileConfig, c2: ProfileConfig) -> nat {
    let e1 = c1.execution_config;
    let e2 = c2.execution_config;
    (if e1.verbose != e2.verbose { 1nat } else { 0nat })
        + (if e1.tool_timeout_ms != e2.tool_timeout_ms { 1nat } else { 0nat })
        + (if e1.connection_timeout_ms != e2.connection_timeout_ms { 1nat } else { 0nat })
        + (if e1.retry_count != e2.retry_count { 1nat } else { 0nat })
        + (if e1.auto_retry_on_timeout != e2.auto_retry_on_timeout { 1nat } else { 0nat })
}

/// Each line indented by two spaces and ended by a newline.
pub open spec fn indented_lines(lines: Seq<Seq<char>>) -> Seq<char>
    decreases lines.len(),
{
    if lines.len() == 0 {
        Seq::empty()
    } else {
        indented_lines(lines.drop_last()) + "  "@ + lines.last() + "\n"@
    }
}

/// A titled section of the report; nothing when there are no lines.
pub open spec fn diff_section(title: Seq<char>, lines: Seq<Seq<char>>) -> Seq<char> {
    if lines.len() == 0 {
        Seq::empty()
    } else {
        title + indented_lines(lines) + "\n"@
    }
}

/// The report of a difference.
pub open spec fn diff_text(d: ConfigDiff) -> Seq<char> {
    if !diff_has_changes(d) {
        "No changes detected.\n"@
    } else {
        "Total changes: "@ + decimal(diff_total(d)) + "\n\n"@
            + diff_section("Server changes:\n"@, views_of_strings(d.server_changes@))
            + diff_section("Logging changes:\n"@, views_of_strings(d.logging_changes@))
            + diff_section("Execution changes:\n"@, views_of_strings(d.execution_changes@))
    }
}

impl Default for ConfigDiff {
    /// No difference.
    fn default() -> (r: ConfigDiff)
        ensures
            r.servers_added == 0,
            r.servers_removed == 0,
            r.server_changes@.len() == 0,
            r.logging_changes@.len() == 0,
            r.execution_changes@.len() == 0,
    {
        ConfigDiff {
            servers_added: 0,
            servers_removed: 0,
            server_changes: Vec::new(),
            logging_changes: Vec::new(),
            execution_changes: Vec::new(),
        }
    }
}

fn push_bool(out: &mut String, b: bool)
    ensures
        final(out)@ == old(out)@ + bool_text(b),
{
    if b {
        push_str(out, "true");
    } else {
        push_str(out, "false");
    }
}

fn push_lines(out: &mut String, lines: &Vec<String>)
    ensures
        final(out)@ == old(out)@ + indented_lines(views_of_strings(lines@)),
{
    let ghost start = out@;
    let mut i: usize = 0;
    while i < lines.len()
        invariant
            i <= lines@.len(),
            out@ == start + indented_lines(views_of_strings(lines@).take(i as int)),
        decreases lines@.len() - i,
    {
        proof {
            let t = views_of_strings(lines@).take(i + 1);
            assert(t.drop_last() =~= views_of_strings(lines@).take(i as int));
            assert(t.last() == lines@[i as int]@);
        }
        push_str(out, "  ");
        push_str(out, lines[i].as_str());
        push_str(out, "\n");
        i = i + 1;
    }
    assert(views_of_strings(lines@).take(lines@.len() as int) =~= views_of_strings(lines@));
}

fn push_section(out: &mut String, title: &str, lines: &Vec<String>)
    ensures
        final(out)@ == old(out)@ + diff_section(title@, views_of_strings(lines@)),
{
    if lines.len() > 0 {
        push_str(out, title);
        push_lines(out, lines);
        push_str(out, "\n");
    } else {
        assert(old(out)@ + Seq::<char>::empty() =~= old(out)@);
    }
}

impl ConfigDiff {
    /// Whether any change is recorded.
    pub fn has_changes(&self) -> (r: bool)
        ensures
            r == diff_has_changes(*self),
    {
        self.servers_added > 0 || self.servers_removed > 0 || self.server_changes.len() > 0
            || self.logging_changes.len() > 0 || self.execution_changes.len() > 0
    }

    /// How many change lines are recorded.
    pub fn total_changes(&self) -> (r: usize)
        requires
            diff_total(*self) <= usize::MAX,
        ensures
            r == diff_total(*self),
    {
        self.server_changes.len() + self.logging_changes.len() + self.execution_changes.len()
    }

    /// The report: `No changes detected.`, or the number of changes and a
    /// section for each kind of change that occurred.
    pub fn format(&self) -> (r: String)
        requires
            diff_total(*self) <= usize::MAX,
        ensures
            r@ == diff_text(*self),
    {
        if !self.has_changes() {
            return String::from_str("No changes detected.\n");
        }
        let mut out = String::from_str("Total changes: ");
        push_decimal(&mut out, self.total_changes() as u64);
        push_str(&mut out, "\n\n");
        push_section(&mut out, "Server changes:\n", &self.server_changes);
        push_section(&mut out, "Logging changes:\n", &self.logging_changes);
        push_section(&mut out, "Execution changes:\n", &self.execution_changes);
        out
    }
}

/// The server names of a profile, copied.
fn names_of(c: &ProfileConfig) -> (r: Vec<String>)
    ensures
        views_of_strings(r@) == server_names(c.servers@),
{
    let mut names: Vec<String> = Vec::new();
    let mut i: usize = 0;
    while i < c.servers.len()
        invariant
            i <= c.servers@.len(),
            names@.len() == i,
            forall|k: int| 0 <= k < i ==> (#[trigger] names@[k])@ == c.servers@[k].name@,
        decreases c.servers@.len() - i,
    {
        names.push(copy_string(&c.servers[i].name));
        i = i + 1;
    }
    assert(views_of_strings(names@) =~= server_names(c.servers@));
    names
}

/// Whether one of the first `upto` strings of `v` is `x`.
fn contains_before(v: &Vec<String>, upto: usize, x: &str) -> (r: bool)
    requires
        upto <= v@.len(),
    ensures
        r == views_of_strings(v@).take(upto as int).contains(x@),
{
    let ghost s = views_of_strings(v@).take(upto as int);
    let mut i: usize = 0;
    while i < upto
        invariant
            i <= upto <= v@.len(),
            s == views_of_strings(v@).take(upto as int),
            forall|k: int| 0 <= k < i ==> s[k] != x@,
        decreases upto - i,
    {
        if str_eq(v[i].as_str(), x) {
            assert(s[i as int] == x@);
            return true;
        }
        i = i + 1;
    }
    false
}

/// The lines `prefix + name` for the names of `n2` not in `n1`.
fn lines_for_missing(n1: &Vec<String>, n2: &Vec<String>, prefix: &str, out: &mut Vec<String>)
    ensures
        views_of_strings(final(out)@) == views_of_strings(old(out)@)
            + prefixed(prefix@, names_not_in(views_of_strings(n1@), views_of_strings(n2@))),
{
    let ghost v1 = views_of_strings(n1@);
    let ghost v2 = views_of_strings(n2@);
    let ghost start = views_of_strings(out@);
    let mut j: usize = 0;
    while j < n2.len()
        invariant
            j <= n2@.len(),
            v1 == views_of_strings(n1@),
            v2 == views_of_strings(n2@),
            views_of_strings(out@) == start + prefixed(prefix@, names_not_in(v1, v2.take(j as int))),
        decreases n2@.len() - j,
    {
        let x = n2[j].as_str();
        let in1 = contains_before(n1, n1.len(), x);
        let earlier = contains_before(n2, j, x);
        proof {
            let t = v2.take(j + 1);
            assert(t.drop_last() =~= v2.take(j as int));
            assert(t.last() == x@);
            assert(v1.take(n1@.len() as int) =~= v1);
        }
        if !in1 && !earlier {
            let line = concat2(prefix, x);
            let ghost before = out@;
            out.push(line);
            proof {
                let names = names_not_in(v1, v2.take(j as int));
                assert(prefixed(prefix@, names.push(x@)) =~= prefixed(prefix@, names).push(prefix@ + x@));
                assert(views_of_strings(out@) =~= views_of_strings(before).push(line@));
            }
        }
        j = j + 1;
    }
    assert(v2.take(n2@.len() as int) =~= v2);
}

fn push_line(out: &mut Vec<String>, line: String)
    ensures
        views_of_strings(final(out)@) == views_of_strings(old(out)@).push(line@),
{
    out.push(line);
    assert(views_of_strings(out@) =~= views_of_strings(old(out)@).push(line@));
}

/// Profiles in and out of files, and their differences.
pub struct ConfigImportExport;

impl ConfigImportExport {
    /// The warnings on an imported profile, or the error of the import.
    pub fn validate_config_file(imported: Result<ProfileConfig, InspectorError>) -> (r: Result<Vec<String>, InspectorError>)
        ensures
            imported matches Err(e) ==> r matches Err(f) && f == e,
            r matches Ok(w) ==> imported matches Ok(c) && views_of_strings(w@) == profile_warnings(c),
            imported is Ok ==> r is Ok,
    {
        match imported {
            Ok(config) => {
                let mut warnings: Vec<String> = Vec::new();
                if config.servers.len() == 0 {
                    push_line(&mut warnings, String::from_str("No servers configured"));
                }
                if config.execution_config.tool_timeout_ms < 1000 {
                    let mut m = String::from_str("Tool timeout is very low: ");
                    push_decimal(&mut m, config.execution_config.tool_timeout_ms);
                    push_str(&mut m, "ms");
                    push_line(&mut warnings, m);
                }
                if config.execution_config.connection_timeout_ms < 1000 {
                    let mut m = String::from_str("Connection timeout is very low: ");
                    push_decimal(&mut m, config.execution_config.connection_timeout_ms);
                    push_str(&mut m, "ms");
                    push_line(&mut warnings, m);
                }
                if config.logging.max_logs < 100 {
                    let mut m = String::from_str("Max logs is very low: ");
                    push_decimal(&mut m, config.logging.max_logs as u64);
                    push_line(&mut warnings, m);
                }
                assert(views_of_strings(warnings@) =~= profile_warnings(config));
                Ok(warnings)
            },
            Err(e) => Err(e),
        }
    }

    /// The differences from `config1` to `config2`: how many servers were
    /// added and removed, which server names appear and disappear, and which
    /// logging and execution settings changed.
    pub fn diff_configs(config1: &ProfileConfig, config2: &ProfileConfig) -> (r: ConfigDiff)
        ensures
            diff_of(r, *config1, *config2),
            diff_total(r) == profile_change_count(*config1, *config2),
            diff_has_changes(r) <==> profiles_differ(*config1, *config2),
    {
        let len1 = config1.servers.len();
        let len2 = config2.servers.len();
        let r = ConfigDiff {
            servers_added: if len2 > len1 { len2 - len1 } else { 0 },
            servers_removed: if len1 > len2 { len1 - len2 } else { 0 },
            server_changes: server_lines(config1, config2),
            logging_changes: logging_lines(config1, config2),
            execution_changes: execution_lines(config1, config2),
        };
        proof {
            lemma_diff_counts(r, *config1, *config2);
        }
        r
    }
}

fn server_lines(config1: &ProfileConfig, config2: &ProfileConfig) -> (r: Vec<String>)
    ensures
        views_of_strings(r@) == server_change_lines(*config1, *config2),
{
    let names1 = names_of(config1);
    let names2 = names_of(config2);
    let mut out: Vec<String> = Vec::new();
    assert(views_of_strings(out@) =~= Seq::<Seq<char>>::empty());
    lines_for_missing(&names1, &names2, "+ Server added: ", &mut out);
    lines_for_missing(&names2, &names1, "- Server removed: ", &mut out);
    assert(views_of_strings(out@) =~= server_change_lines(*config1, *config2));
    out
}

fn logging_lines(config1: &ProfileConfig, config2: &ProfileConfig) -> (r: Vec<String>)
    ensures
        views_of_strings(r@) == logging_change_lines(*config1, *config2),
{
    let l1 = &config1.logging;
    let l2 = &config2.logging;
    let mut out: Vec<String> = Vec::new();
    assert(views_of_strings(out@) =~= Seq::<Seq<char>>::empty());
    if !str_eq(l1.backend.as_str(), l2.backend.as_str()) {
        let mut m = String::from_str("Backend: ");
        push_str(&mut m, l1.backend.as_str());
        push_str(&mut m, " -> ");
        push_str(&mut m, l2.backend.as_str());
        push_line(&mut out, m);
    }
    if l1.max_logs != l2.max_logs {
        let mut m = String::from_str("Max logs: ");
        push_decimal(&mut m, l1.max_logs as u64);
        push_str(&mut m, " -> ");
        push_decimal(&mut m, l2.max_logs as u64);
        push_line(&mut out, m);
    }
    assert(views_of_strings(out@) =~= logging_change_lines(*config1, *config2));
    out
}

fn execution_lines(config1: &ProfileConfig, config2: &ProfileConfig) -> (r: Vec<String>)
    ensures
        views_of_strings(r@) == execution_change_lines(*config1, *config2),
{
    let e1 = config1.execution_config;
    let e2 = config2.execution_config;
    let mut out: Vec<String> = Vec::new();
    let ghost l0 = line_if(e1.verbose != e2.verbose, "Verbose: "@ + bool_text(e1.verbose) + " -> "@ + bool_text(e2.verbose));
    let ghost l1 = line_if(e1.tool_timeout_ms != e2.tool_timeout_ms,
        "Tool timeout: "@ + decimal(e1.tool_timeout_ms as nat) + "ms -> "@ + decimal(e2.tool_timeout_ms as nat) + "ms"@);
    let ghost l2 = line_if(e1.connection_timeout_ms != e2.connection_timeout_ms,
        "Connection timeout: "@ + decimal(e1.connection_timeout_ms as nat) + "ms -> "@
            + decimal(e2.connection_timeout_ms as nat) + "ms"@);
    let ghost l3 = line_if(e1.retry_count != e2.retry_count,
        "Retry count: "@ + decimal(e1.retry_count as nat) + " -> "@ + decimal(e2.retry_count as nat));
    let ghost l4 = line_if(e1.auto_retry_on_timeout != e2.auto_retry_on_timeout,
        "Auto retry: "@ + bool_text(e1.auto_retry_on_timeout) + " -> "@ + bool_text(e2.auto_retry_on_timeout));
    assert(views_of_strings(out@) =~= Seq::<Seq<char>>::empty());
    if e1.verbose != e2.verbose {
        let mut m = String::from_str("Verbose: ");
        push_bool(&mut m, e1.verbose);
        push_str(&mut m, " -> ");
        push_bool(&mut m, e2.verbose);
        push_line(&mut out, m);
    }
    assert(views_of_strings(out@) =~= l0);
    if e1.tool_timeout_ms != e2.tool_timeout_ms {
        let mut m = String::from_str("Tool timeout: ");
        push_decimal(&mut m, e1.tool_timeout_ms);
        push_str(&mut m, "ms -> ");
        push_decimal(&mut m, e2.tool_timeout_ms);
        push_str(&mut m, "ms");
        push_line(&mut out, m);
    }
    assert(views_of_strings(out@) =~= l0 + l1);
    if e1.connection_timeout_ms != e2.connection_timeout_ms {
        let mut m = String::from_str("Connection timeout: ");
        push_decimal(&mut m, e1.connection_timeout_ms);
        push_str(&mut m, "ms -> ");
        push_decimal(&mut m, e2.connection_timeout_ms);
        push_str(&mut m, "ms");
        push_line(&mut out, m);
    }
    assert(views_of_strings(out@) =~= l0 + l1 + l2);
    if e1.retry_count != e2.retry_count {
        let mut m = String::from_str("Retry count: ");
        push_decimal(&mut m, e1.retry_count as u64);
        push_str(&mut m, " -> ");
        push_decimal(&mut m, e2.retry_count as u64);
        push_line(&mut out, m);
    }
    assert(views_of_strings(out@) =~= l0 + l1 + l2 + l3);
    if e1.auto_retry_on_timeout != e2.auto_retry_on_timeout {
        let mut m = String::from_str("Auto retry: ");
        push_bool(&mut m, e1.auto_retry_on_timeout);
        push_str(&mut m, " -> ");
        push_bool(&mut m, e2.auto_retry_on_timeout);
        push_line(&mut out, m);
    }
    assert(views_of_strings(out@) =~= l0 + l1 + l2 + l3 + l4);
    out
}

proof fn lemma_names_not_in_covered(n1: Seq<Seq<char>>, n2: Seq<Seq<char>>)
    requires
        forall|i: int| 0 <= i < n2.len() ==> n1.contains(#[trigger] n2[i]),
    ensures
        names_not_in(n1, n2).len() == 0,
    decreases n2.len(),
{
    if n2.len() > 0 {
        let d = n2.drop_last();
        assert forall|i: int| 0 <= i < d.len() implies n1.contains(#[trigger] d[i]) by {
            assert(d[i] == n2[i]);
        }
        lemma_names_not_in_covered(n1, d);
        assert(n1.contains(n2[n2.len() - 1]));
    }
}

/// A profile compared with itself, or with a profile of the same servers and
/// settings, shows no change lines.
pub proof fn lemma_diff_same_settings(c1: ProfileConfig, c2: ProfileConfig)
    requires
        server_names(c1.servers@) == server_names(c2.servers@),
        c1.logging.backend@ == c2.logging.backend@,
        c1.logging.max_logs == c2.logging.max_logs,
        c1.execution_config == c2.execution_config,
    ensures
        server_change_lines(c1, c2).len() == 0,
        logging_change_lines(c1, c2).len() == 0,
        execution_change_lines(c1, c2).len() == 0,
{
    let n = server_names(c1.servers@);
    assert forall|i: int| 0 <= i < n.len() implies n.contains(#[trigger] n[i]) by {}
    lemma_names_not_in_covered(n, n);
}

/// The names listed as missing are exactly the names of `n2` that `n1` lacks,
/// each once.
proof fn lemma_names_not_in_members(n1: Seq<Seq<char>>, n2: Seq<Seq<char>>)
    ensures
        names_not_in(n1, n2).no_duplicates(),
        forall|x: Seq<char>| #[trigger] names_not_in(n1, n2).contains(x) <==> (n2.contains(x) && !n1.contains(x)),
    decreases n2.len(),
{
    if n2.len() > 0 {
        let d = n2.drop_last();
        let x = n2.last();
        lemma_names_not_in_members(n1, d);
        assert(n2 =~= d.push(x));
        let prev = names_not_in(n1, d);
        assert forall|y: Seq<char>| n2.contains(y) <==> (d.contains(y) || y == x) by {
            if n2.contains(y) {
                let i = choose|i: int| 0 <= i < n2.len() && n2[i] == y;
                if i < d.len() {
                    assert(d[i] == y);
                }
            }
            if d.contains(y) {
                let i = choose|i: int| 0 <= i < d.len() && d[i] == y;
                assert(n2[i] == y);
            }
            if y == x {
                assert(n2[n2.len() - 1] == y);
            }
        }
        if !(n1.contains(x) || d.contains(x)) {
            let r = prev.push(x);
            assert forall|y: Seq<char>| r.contains(y) <==> (prev.contains(y) || y == x) by {
                if r.contains(y) {
                    let i = choose|i: int| 0 <= i < r.len() && r[i] == y;
                    if i < prev.len() {
                        assert(prev[i] == y);
                    }
                }
                if prev.contains(y) {
                    let i = choose|i: int| 0 <= i < prev.len() && prev[i] == y;
                    assert(r[i] == y);
                }
                if y == x {
                    assert(r[r.len() - 1] == y);
                }
            }
            assert forall|i: int, j: int| 0 <= i < r.len() && 0 <= j < r.len() && i != j implies r[i] != r[j] by {
                if i < prev.len() && j < prev.len() {
                } else if i < prev.len() {
                    assert(prev.contains(r[i]));
                } else {
                    assert(prev.contains(r[j]));
                }
            }
        }
    }
}

/// How many names are listed as missing: the size of the set difference.
proof fn lemma_names_not_in_len(n1: Seq<Seq<char>>, n2: Seq<Seq<char>>)
    ensures
        names_not_in(n1, n2).len() == n2.to_set().difference(n1.to_set()).len(),
{
    lemma_names_not_in_members(n1, n2);
    let r = names_not_in(n1, n2);
    r.unique_seq_to_set();
    assert(r.to_set() =~= n2.to_set().difference(n1.to_set()));
}

/// The server lines of a difference in terms of the sets of server names:
/// one "+ Server added: " line for each name of the second profile that the
/// first lacks, then one "- Server removed: " line for each name of the first
/// that the second lacks, each name once.
pub proof fn lemma_diff_server_lines(d: ConfigDiff, c1: ProfileConfig, c2: ProfileConfig)
    requires
        diff_of(d, c1, c2),
    ensures
        ({
            let s1 = server_names(c1.servers@);
            let s2 = server_names(c2.servers@);
            let added = names_not_in(s1, s2);
            let removed = names_not_in(s2, s1);
            &&& views_of_strings(d.server_changes@)
                == prefixed("+ Server added: "@, added) + prefixed("- Server removed: "@, removed)
            &&& added.no_duplicates()
            &&& added.to_set() == s2.to_set().difference(s1.to_set())
            &&& removed.no_duplicates()
            &&& removed.to_set() == s1.to_set().difference(s2.to_set())
        }),
{
    let s1 = server_names(c1.servers@);
    let s2 = server_names(c2.servers@);
    lemma_names_not_in_members(s1, s2);
    lemma_names_not_in_members(s2, s1);
    assert(names_not_in(s1, s2).to_set() =~= s2.to_set().difference(s1.to_set()));
    assert(names_not_in(s2, s1).to_set() =~= s1.to_set().difference(s2.to_set()));
}

/// The change count of a difference, and whether it records any change, in
/// terms of the sets of server names: the names added and the names removed
/// count one each, then the logging backend and capacity, then each of the
/// five execution settings that differs; the numbers of servers added and
/// removed are not counted. A change is recorded exactly when the numbers of
/// servers or the sets of names differ, or a logging or execution setting does.
pub proof fn lemma_diff_counts(d: ConfigDiff, c1: ProfileConfig, c2: ProfileConfig)
    requires
        diff_of(d, c1, c2),
    ensures
        diff_total(d) == profile_change_count(c1, c2),
        diff_has_changes(d) <==> profiles_differ(c1, c2),
{
    let s1 = server_names(c1.servers@);
    let s2 = server_names(c2.servers@);
    let n1 = s1.to_set();
    let n2 = s2.to_set();
    lemma_names_not_in_len(s1, s2);
    lemma_names_not_in_len(s2, s1);
    lemma_names_not_in_members(s1, s2);
    lemma_names_not_in_members(s2, s1);
    let a = names_not_in(s1, s2);
    let b = names_not_in(s2, s1);
    assert(d.server_changes@.len() == views_of_strings(d.server_changes@).len());
    assert(d.logging_changes@.len() == views_of_strings(d.logging_changes@).len());
    assert(d.execution_changes@.len() == views_of_strings(d.execution_changes@).len());
    assert(server_change_lines(c1, c2).len() == a.len() + b.len());
    let e1 = c1.execution_config;
    let e2 = c2.execution_config;
    assert(logging_change_lines(c1, c2).len()
        == (if c1.logging.backend@ != c2.logging.backend@ { 1nat } else { 0nat })
            + (if c1.logging.max_logs != c2.logging.max_logs { 1nat } else { 0nat }));
    assert(execution_change_lines(c1, c2).len() == changed_execution_settings(c1, c2));
    assert(e1 != e2 ==> changed_execution_settings(c1, c2) > 0);
    assert(c1.servers@.len() != c2.servers@.len() ==> d.servers_added > 0 || d.servers_removed > 0);
    if n1 != n2 {
        if exists|x: Seq<char>| n2.contains(x) && !n1.contains(x) {
            let x = choose|x: Seq<char>| n2.contains(x) && !n1.contains(x);
            assert(a.contains(x));
        } else {
            assert(exists|x: Seq<char>| n1.contains(x) && !n2.contains(x)) by {
                if !exists|x: Seq<char>| n1.contains(x) && !n2.contains(x) {
                    assert(n1 =~= n2);
                }
            }
            let x = choose|x: Seq<char>| n1.contains(x) && !n2.contains(x);
            assert(b.contains(x));
        }
    } else {
        if a.len() > 0 {
            let x = a[0];
            assert(a.contains(x));
            assert(s2.contains(x) && !s1.contains(x));
            assert(n2.contains(x));
            assert(!n1.contains(x));
        }
        if b.len() > 0 {
            let x = b[0];
            assert(b.contains(x));
            assert(s1.contains(x) && !s2.contains(x));
            assert(n1.contains(x));
            assert(!n2.contains(x));
        }
        assert(server_change_lines(c1, c2).len() == 0);
    }
}

} // verus!
