//! Configuration templates: the presets, and the rules for custom templates
//! kept as `<name>.json` files.
use vstd::prelude::*;
use crate::error::InspectorError;
use crate::models::profile::{profile_check, ProfileConfig};
use crate::order::sorted_by_name;
use crate::text::{ascii_fold, concat3, copy_string, ends_with_seq, folds_to, matches_keyword, string_of, chars_of};

verus! {

/// A built-in template.
#[derive(PartialEq, Eq, Structural, Clone, Copy, Debug)]
pub enum PresetTemplate {
    Minimal,
    Development,
    Production,
    CI,
}

/// The preset that `s` names, letter case ignored: `minimal`,
/// `development`/`dev`, `production`/`prod`, `ci`/`ci-cd`.
pub open spec fn preset_named(s: Seq<char>) -> Option<PresetTemplate> {
    if folds_to(s, "minimal"@) {
        Some(PresetTemplate::Minimal)
    } else if folds_to(s, "development"@) || folds_to(s, "dev"@) {
        Some(PresetTemplate::Development)
    } else if folds_to(s, "production"@) || folds_to(s, "prod"@) {
        Some(PresetTemplate::Production)
    } else if folds_to(s, "ci"@) || folds_to(s, "ci-cd"@) {
        Some(PresetTemplate::CI)
    } else {
        None
    }
}

/// The name of a preset.
pub open spec fn preset_name(p: PresetTemplate) -> Seq<char> {
    match p {
        PresetTemplate::Minimal => "minimal"@,
        PresetTemplate::Development => "development"@,
        PresetTemplate::Production => "production"@,
        PresetTemplate::CI => "ci"@,
    }
}

/// The description of a preset.
pub open spec fn preset_description(p: PresetTemplate) -> Seq<char> {
    match p {
        PresetTemplate::Minimal => "Minimal configuration with basic settings"@,
        PresetTemplate::Development => "Development environment with verbose logging and relaxed timeouts"@,
        PresetTemplate::Production => "Production environment with optimized settings and persistent logging"@,
        PresetTemplate::CI => "CI/CD environment with extended timeouts and verbose output"@,
    }
}

/// The error of an unknown preset name.
pub open spec fn unknown_preset_message(s: Seq<char>) -> Seq<char> {
    "Unknown preset template: "@ + s + ". Available: minimal, development, production, ci"@
}

impl PresetTemplate {
    /// The preset that `s` names, or a configuration error listing the presets.
    pub fn parse(s: &str) -> (r: Result<PresetTemplate, InspectorError>)
        ensures
            r matches Ok(p) ==> preset_named(s@) == Some(p),
            r is Err ==> preset_named(s@) is None,
            r matches Err(e) ==> e matches InspectorError::Config(m) && m@ == unknown_preset_message(s@),
    {
        if matches_keyword(s, "minimal") {
            Ok(PresetTemplate::Minimal)
        } else if matches_keyword(s, "development") || matches_keyword(s, "dev") {
            Ok(PresetTemplate::Development)
        } else if matches_keyword(s, "production") || matches_keyword(s, "prod") {
            Ok(PresetTemplate::Production)
        } else if matches_keyword(s, "ci") || matches_keyword(s, "ci-cd") {
            Ok(PresetTemplate::CI)
        } else {
            Err(InspectorError::Config(
                concat3("Unknown preset template: ", s, ". Available: minimal, development, production, ci"),
            ))
        }
    }

    /// The name of the preset.
    pub fn name(&self) -> (r: &'static str)
        ensures
            r@ == preset_name(*self),
    {
        match self {
            PresetTemplate::Minimal => "minimal",
            PresetTemplate::Development => "development",
            PresetTemplate::Production => "production",
            PresetTemplate::CI => "ci",
        }
    }

    /// One line on what the preset is for.
    pub fn description(&self) -> (r: &'static str)
        ensures
            r@ == preset_description(*self),
    {
        match self {
            PresetTemplate::Minimal => "Minimal configuration with basic settings",
            PresetTemplate::Development => "Development environment with verbose logging and relaxed timeouts",
            PresetTemplate::Production => "Production environment with optimized settings and persistent logging",
            PresetTemplate::CI => "CI/CD environment with extended timeouts and verbose output",
        }
    }

    /// The profile of the preset: the default, development, production or CI
    /// profile. Every one of them is valid.
    pub fn to_config(&self) -> (r: ProfileConfig)
        ensures
            profile_check(r) is Ok,
            *self == PresetTemplate::Minimal ==> r.execution_config.tool_timeout_ms == 30000,
            *self == PresetTemplate::Development ==> r.execution_config.verbose && r.execution_config.tool_timeout_ms == 10000,
            *self == PresetTemplate::Production ==> r.logging.backend@ == "persistent"@ && r.execution_config.retry_count == 3,
            *self == PresetTemplate::CI ==> r.execution_config.verbose && r.execution_config.tool_timeout_ms == 15000,
    {
        match self {
            PresetTemplate::Minimal => ProfileConfig::default_profile(),
            PresetTemplate::Development => ProfileConfig::dev_profile(),
            PresetTemplate::Production => ProfileConfig::prod_profile(),
            PresetTemplate::CI => ProfileConfig::ci_profile(),
        }
    }

    /// Every preset, in the order minimal, development, production, CI.
    pub fn all() -> (r: Vec<PresetTemplate>)
        ensures
            r@ == seq![PresetTemplate::Minimal, PresetTemplate::Development, PresetTemplate::Production, PresetTemplate::CI],
    {
        let mut v: Vec<PresetTemplate> = Vec::new();
        v.push(PresetTemplate::Minimal);
        v.push(PresetTemplate::Development);
        v.push(PresetTemplate::Production);
        v.push(PresetTemplate::CI);
        assert(v@ =~= seq![PresetTemplate::Minimal, PresetTemplate::Development, PresetTemplate::Production, PresetTemplate::CI]);
        v
    }
}

impl std::str::FromStr for PresetTemplate {
    type Err = InspectorError;

    /// As [`PresetTemplate::parse`].
    fn from_str(s: &str) -> (r: Result<Self, Self::Err>)
        ensures
            r matches Ok(p) ==> preset_named(s@) == Some(p),
            r is Err ==> preset_named(s@) is None,
            r matches Err(e) ==> e matches InspectorError::Config(m) && m@ == unknown_preset_message(s@),
    {
        PresetTemplate::parse(s)
    }
}

proof fn lemma_fold_fixed(s: Seq<char>)
    requires
        forall|i: int| 0 <= i < s.len() ==> (#[trigger] s[i] as u32) >= 97,
    ensures
        ascii_fold(s) == s,
{
    assert(ascii_fold(s) =~= s);
}

/// The name of every preset reads back as that preset.
pub proof fn lemma_preset_name_round_trip(p: PresetTemplate)
    ensures
        preset_named(preset_name(p)) == Some(p),
{
    reveal_strlit("minimal");
    reveal_strlit("development");
    reveal_strlit("dev");
    reveal_strlit("production");
    reveal_strlit("prod");
    reveal_strlit("ci");
    reveal_strlit("ci-cd");
    let n = preset_name(p);
    assert(forall|i: int| 0 <= i < n.len() ==> (#[trigger] n[i] as u32) >= 97);
    lemma_fold_fixed(n);
    assert("dev"@[0] != "ci"@[0]);
}

/// The presets have distinct names; any letter case of a name or of an alias
/// (`dev`, `prod`, `ci-cd`) reads as its preset; `unknown` names none.
pub proof fn lemma_preset_names(p: PresetTemplate, q: PresetTemplate, s: Seq<char>)
    ensures
        p != q ==> preset_name(p) != preset_name(q),
        folds_to(s, preset_name(p)) ==> preset_named(s) == Some(p),
        folds_to(s, "dev"@) ==> preset_named(s) == Some(PresetTemplate::Development),
        folds_to(s, "prod"@) ==> preset_named(s) == Some(PresetTemplate::Production),
        folds_to(s, "ci-cd"@) ==> preset_named(s) == Some(PresetTemplate::CI),
        preset_named("unknown"@) is None,
{
    lemma_preset_name_round_trip(p);
    lemma_preset_name_round_trip(q);
    reveal_strlit("minimal");
    reveal_strlit("development");
    reveal_strlit("dev");
    reveal_strlit("production");
    reveal_strlit("prod");
    reveal_strlit("ci");
    reveal_strlit("ci-cd");
    reveal_strlit("unknown");
    let u = "unknown"@;
    assert(forall|i: int| 0 <= i < u.len() ==> (#[trigger] u[i] as u32) >= 97);
    lemma_fold_fixed(u);
    assert(u.len() != "minimal"@.len() || u[0] != "minimal"@[0]);
    assert(u[0] != "development"@[0]);
    assert(u[0] != "dev"@[0]);
    assert(u[0] != "production"@[0]);
    assert(u[0] != "prod"@[0]);
    assert(u[0] != "ci"@[0]);
    assert(u[0] != "ci-cd"@[0]);
    assert("development"@.len() != "dev"@.len());
    assert("minimal"@[0] != "dev"@[0]);
    assert("minimal"@[0] != "prod"@[0]);
    assert("minimal"@[0] != "ci-cd"@[0]);
    assert("development"@[0] != "prod"@[0]);
    assert("development"@[0] != "ci-cd"@[0]);
    assert("production"@[0] != "ci-cd"@[0]);
    assert("production"@.len() != "dev"@.len());
}

/// A template as listed to the user.
pub struct TemplateInfo {
    pub name: String,
    pub description: String,
    pub is_preset: bool,
    /// The file of a custom template.
    pub file_path: Option<String>,
}

/// The presets and the custom templates of a directory.
pub struct ConfigTemplate {
    /// Directory of the custom template files.
    pub templates_dir: String,
}

/// The listing of the presets: name and description of each, in order.
pub open spec fn preset_listing(v: Seq<TemplateInfo>) -> bool {
    let all = seq![PresetTemplate::Minimal, PresetTemplate::Development, PresetTemplate::Production, PresetTemplate::CI];
    &&& v.len() == 4
    &&& forall|i: int| 0 <= i < 4 ==> (#[trigger] v[i]).name@ == preset_name(all[i])
        && v[i].description@ == preset_description(all[i]) && v[i].is_preset && v[i].file_path is None
}

/// The template name of a file called `file_name`: the name without the
/// `.json` ending, when it ends so and something precedes the ending.
pub open spec fn template_name_of_file(file_name: Seq<char>) -> Option<Seq<char>> {
    if ends_with_seq(file_name, ".json"@) && file_name.len() > 5 {
        Some(file_name.take(file_name.len() - 5))
    } else {
        None
    }
}

/// A custom template file `<name>.json` holds the template `name`, for any
/// non-empty name; a file not ending in `.json` holds none.
pub proof fn lemma_template_file_names(name: Seq<char>, file_name: Seq<char>)
    ensures
        name.len() > 0 ==> template_name_of_file(name + ".json"@) == Some(name),
        !ends_with_seq(file_name, ".json"@) ==> template_name_of_file(file_name) is None,
{
    reveal_strlit(".json");
    let f = name + ".json"@;
    assert(f.subrange(f.len() - 5, f.len() as int) =~= ".json"@);
    assert(f.take(f.len() - 5) =~= name);
}

impl ConfigTemplate {
    /// Templates whose custom files live in `templates_dir`.
    pub fn new(templates_dir: String) -> (r: ConfigTemplate)
        ensures
            r.templates_dir == templates_dir,
    {
        ConfigTemplate { templates_dir }
    }

    /// The presets, with their names and descriptions.
    pub fn list_preset_templates(&self) -> (r: Vec<TemplateInfo>)
        ensures
            preset_listing(r@),
    {
        let all = PresetTemplate::all();
        let mut out: Vec<TemplateInfo> = Vec::new();
        let mut i: usize = 0;
        while i < all.len()
            invariant
                i <= all@.len(),
                all@ == seq![PresetTemplate::Minimal, PresetTemplate::Development, PresetTemplate::Production, PresetTemplate::CI],
                out@.len() == i,
                forall|k: int| 0 <= k < i ==> (#[trigger] out@[k]).name@ == preset_name(all@[k])
                    && out@[k].description@ == preset_description(all@[k]) && out@[k].is_preset && out@[k].file_path is None,
            decreases all@.len() - i,
        {
            let p = all[i];
            out.push(TemplateInfo {
                name: String::from_str(p.name()),
                description: String::from_str(p.description()),
                is_preset: true,
                file_path: None,
            });
            i = i + 1;
        }
        out
    }

    /// The presets followed by the custom templates `custom`.
    pub fn list_all_templates(&self, custom: Vec<TemplateInfo>) -> (r: Vec<TemplateInfo>)
        ensures
            r@.len() == 4 + custom@.len(),
            preset_listing(r@.take(4)),
            r@.skip(4) == custom@,
    {
        let mut out = self.list_preset_templates();
        let ghost presets = out@;
        let ghost extra = custom@;
        let mut custom = custom;
        out.append(&mut custom);
        assert(out@.take(4) =~= presets);
        assert(out@.skip(4) =~= extra);
        out
    }

    /// The template that a file called `file_name` holds, if any.
    pub fn template_name_of_file(file_name: &str) -> (r: Option<String>)
        ensures
            opt_text(r) == template_name_of_file(file_name@),
    {
        let cs = chars_of(file_name);
        let n = cs.len();
        if n > 5 && cs[n - 5] == '.' && cs[n - 4] == 'j' && cs[n - 3] == 's' && cs[n - 2] == 'o' && cs[n - 1] == 'n' {
            proof {
                reveal_strlit(".json");
                assert(file_name@.skip(n - 5) =~= ".json"@);
            }
            let mut stem: Vec<char> = Vec::new();
            let mut i: usize = 0;
            while i < n - 5
                invariant
                    n == cs@.len(),
                    n > 5,
                    cs@ == file_name@,
                    i <= n - 5,
                    stem@ == cs@.take(i as int),
                decreases n - 5 - i,
            {
                stem.push(cs[i]);
                assert(cs@.take(i + 1) =~= cs@.take(i as int).push(cs@[i as int]));
                i = i + 1;
            }
            Some(string_of(stem.as_slice()))
        } else {
            proof {
                reveal_strlit(".json");
                if ends_with_seq(file_name@, ".json"@) && n > 5 {
                    assert(file_name@.skip(n - 5)[0] == '.');
                    assert(file_name@.skip(n - 5)[1] == 'j');
                    assert(file_name@.skip(n - 5)[2] == 's');
                    assert(file_name@.skip(n - 5)[3] == 'o');
                    assert(file_name@.skip(n - 5)[4] == 'n');
                }
            }
            None
        }
    }

    /// Custom templates sorted by name (a stable sort).
    pub fn sort_by_name(templates: Vec<TemplateInfo>) -> (r: Vec<TemplateInfo>)
        ensures
            r@.len() == templates@.len(),
            r@.to_multiset() == templates@.to_multiset(),
            sorted_by_name(r@),
    {
        crate::order::sort_by_name(templates)
    }
}

/// The view of an optional string.
pub open spec fn opt_text(o: Option<String>) -> Option<Seq<char>> {
    match o {
        Some(s) => Some(s@),
        None => None,
    }
}

/// Whether `name` may be used for a new custom template, given whether its
/// file already exists: it must not name a preset, nor an existing template.
pub fn check_new_template_name(name: &str, file_exists: bool) -> (r: Result<(), InspectorError>)
    ensures
        r is Ok <==> (preset_named(name@) is None && !file_exists),
        preset_named(name@) is Some ==> (r matches Err(InspectorError::Config(m))
            && m@ == "Template name '"@ + name@ + "' conflicts with a preset template"@),
        preset_named(name@) is None && file_exists ==> (r matches Err(InspectorError::Config(m))
            && m@ == "Custom template '"@ + name@ + "' already exists"@),
{
    if PresetTemplate::parse(name).is_ok() {
        return Err(InspectorError::Config(concat3("Template name '", name, "' conflicts with a preset template")));
    }
    if file_exists {
        return Err(InspectorError::Config(concat3("Custom template '", name, "' already exists")));
    }
    Ok(())
}

/// Whether the template `name` may be deleted, given whether its file exists:
/// presets cannot be, nor templates that do not exist.
pub fn check_delete_template_name(name: &str, file_exists: bool) -> (r: Result<(), InspectorError>)
    ensures
        r is Ok <==> (preset_named(name@) is None && file_exists),
        preset_named(name@) is Some ==> (r matches Err(InspectorError::Config(m))
            && m@ == "Cannot delete preset template '"@ + name@ + "'"@),
        preset_named(name@) is None && !file_exists ==> (r matches Err(InspectorError::Config(m))
            && m@ == "Custom template '"@ + name@ + "' does not exist"@),
{
    if PresetTemplate::parse(name).is_ok() {
        return Err(InspectorError::Config(concat3("Cannot delete preset template '", name, "'")));
    }
    if !file_exists {
        return Err(InspectorError::Config(concat3("Custom template '", name, "' does not exist")));
    }
    Ok(())
}

} // verus!
