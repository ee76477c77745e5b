//! The project configuration model of `vord.toml` / `.vord.toml`, and the
//! reader for legacy `sonar-project.properties` files.
//!
//! Parsing TOML is left to the `toml` crate at the edge of the program;
//! what is verified here is the shape of the configuration, its defaults,
//! and the line-oriented `sonar-project.properties` format.

use std::collections::HashMap;
use vstd::prelude::*;
use crate::heuristics::{find_char_from, first_index_from, lemma_first_index_from};
use crate::text::{
    chars_of, lemma_chars_deep_view, same_chars, split_chars, split_on,
    string_from_chars, sub_chars, trim_chars, trim_spec,
};

verus! {

/// One `[[flows]]` entry: a name (used in the finding message) plus its
/// ordered steps.
#[derive(Clone, Debug, PartialEq, Eq)]
pub struct FlowConfig {
    pub name: String,
    pub steps: Vec<FlowStepConfig>,
}

/// One step of a `[[flows]]` entry: `path` is repository-relative and
/// `function` is that function's declared name in `path`.
#[derive(Clone, Debug, PartialEq, Eq)]
pub struct FlowStepConfig {
    pub path: String,
    pub function: String,
}

/// `[gate]` — quality-gate thresholds. `min_health_score` (0-100): when
/// set, an enforced gate fails if the health score falls below it.
#[derive(Clone, Debug, PartialEq, Eq)]
pub struct GateSettings {
    pub min_health_score: Option<u32>,
}

/// `[vite_react]` — per-rule glob exceptions for the
/// `vite-react-frontend-starter` profile's rules, keyed by full rule id.
#[derive(Clone, Debug, PartialEq, Eq)]
pub struct ViteReactSettings {
    pub exceptions: HashMap<String, Vec<String>>,
}

/// `[secrets]` — JSON/object key names (case-insensitive) whose values the
/// high-entropy rule never flags.
#[derive(Clone, Debug, PartialEq, Eq)]
pub struct SecretsSettings {
    pub ignore_keys: Vec<String>,
}

/// `[agent]` — the agent runtime's limits; every field falls back to the
/// runtime's own default when unset.
#[derive(Clone, Debug, PartialEq, Eq)]
pub struct AgentSettings {
    pub max_turns: Option<u32>,
    pub max_tokens: Option<u64>,
    pub max_rejections: Option<u32>,
    pub allowed_commands: Option<Vec<String>>,
    pub command_timeout_secs: Option<u64>,
}

/// `[swarm]` — worktree-per-agent isolation and role configuration.
#[derive(Clone, Debug, PartialEq, Eq)]
pub struct SwarmSettings {
    pub worktree_root: Option<String>,
    pub roles: Vec<RoleSettings>,
    pub topology: Option<String>,
    pub pipeline: Option<Vec<String>>,
}

/// One `[[swarm.role]]` entry: a named role, its worktree/branch naming and
/// the access restrictions layered onto the base policy for its writes.
#[derive(Clone, Debug, PartialEq, Eq)]
pub struct RoleSettings {
    pub name: String,
    pub worktree: Option<String>,
    pub branch: Option<String>,
    pub protected_paths: Vec<RoleProtectedPath>,
    pub blocking_rules: Vec<String>,
    pub escalate_rules: Vec<String>,
}

/// A path pattern a role may never write to, with the reason.
#[derive(Clone, Debug, PartialEq, Eq)]
pub struct RoleProtectedPath {
    pub pattern: String,
    pub reason: String,
}

/// `[project]` — the project's identity.
#[derive(Clone, Debug, PartialEq, Eq)]
pub struct ProjectConfig {
    pub key: Option<String>,
    pub name: Option<String>,
    pub version: Option<String>,
}

/// `[analysis]` — what to scan and with which profile.
#[derive(Clone, Debug, PartialEq, Eq)]
pub struct AnalysisConfig {
    pub sources: Option<Vec<String>>,
    pub exclusions: Option<Vec<String>>,
    pub inclusions: Option<Vec<String>>,
    pub profile: Option<String>,
}

/// `[architecture]` — declared component boundaries and project-specific
/// layer names.
#[derive(Clone, Debug, PartialEq, Eq)]
pub struct ArchitectureSettings {
    pub allowed_dependencies: Vec<DependencyEdgeConfig>,
    pub forbidden_dependencies: Vec<DependencyEdgeConfig>,
    pub exceptions: Vec<DependencyEdgeConfig>,
    pub layer: Vec<LayerConfig>,
}

/// One `{ from = "...", to = "..." }` edge between components or tiers.
#[derive(Clone, Debug, PartialEq, Eq)]
pub struct DependencyEdgeConfig {
    pub from: String,
    pub to: String,
}

/// One `[[architecture.layer]]` entry: `is_a` names the built-in ring the
/// layer subsumes into, `patterns` the globs that mark a path as in it.
#[derive(Clone, Debug, PartialEq, Eq)]
pub struct LayerConfig {
    pub name: String,
    pub is_a: String,
    pub patterns: Vec<String>,
}

/// `[rules]` — project-declared custom rules.
#[derive(Clone, Debug, PartialEq, Eq)]
pub struct RulesConfig {
    pub custom: Vec<CustomRuleConfig>,
}

/// One `[[rules.custom]]` entry: a regex rule with its id, message and
/// severity (`"major"` unless given).
#[derive(Clone, Debug, PartialEq, Eq)]
pub struct CustomRuleConfig {
    pub id: String,
    pub message: String,
    pub pattern: String,
    pub severity: String,
}

/// The whole configuration. `[duplication]`, whose settings include a
/// fractional threshold, is carried beside it by the program that reads the
/// file.
#[derive(Clone, Debug, PartialEq, Eq)]
pub struct VordConfig {
    pub project: ProjectConfig,
    pub analysis: AnalysisConfig,
    pub rules: RulesConfig,
    pub architecture: ArchitectureSettings,
    pub agent: AgentSettings,
    pub swarm: SwarmSettings,
    pub gate: GateSettings,
    pub vite_react: ViteReactSettings,
    pub secrets: SecretsSettings,
    pub flows: Vec<FlowConfig>,
}

/// The severity a custom rule gets when it names none.
pub fn default_severity_str() -> (s: String)
    ensures
        s@ == "major"@,
{
    let v = chars_of("major");
    string_from_chars(&v)
}

impl Default for GateSettings {
    fn default() -> (r: Self)
        ensures
            r.min_health_score is None,
    {
        GateSettings { min_health_score: None }
    }
}

impl Default for ViteReactSettings {
    fn default() -> (r: Self)
        ensures
            r.exceptions@ == Map::<String, Vec<String>>::empty(),
    {
        ViteReactSettings { exceptions: HashMap::new() }
    }
}

impl Default for SecretsSettings {
    fn default() -> (r: Self)
        ensures
            r.ignore_keys@.len() == 0,
    {
        SecretsSettings { ignore_keys: Vec::new() }
    }
}

impl Default for AgentSettings {
    fn default() -> (r: Self)
        ensures
            r.max_turns is None,
            r.max_tokens is None,
            r.max_rejections is None,
            r.allowed_commands is None,
            r.command_timeout_secs is None,
    {
        AgentSettings {
            max_turns: None,
            max_tokens: None,
            max_rejections: None,
            allowed_commands: None,
            command_timeout_secs: None,
        }
    }
}

impl Default for SwarmSettings {
    fn default() -> (r: Self)
        ensures
            r.worktree_root is None,
            r.roles@.len() == 0,
            r.topology is None,
            r.pipeline is None,
    {
        SwarmSettings { worktree_root: None, roles: Vec::new(), topology: None, pipeline: None }
    }
}

impl Default for RoleSettings {
    fn default() -> (r: Self)
        ensures
            r.name@.len() == 0,
            r.worktree is None,
            r.branch is None,
            r.protected_paths@.len() == 0,
            r.blocking_rules@.len() == 0,
            r.escalate_rules@.len() == 0,
    {
        RoleSettings {
            name: String::new(),
            worktree: None,
            branch: None,
            protected_paths: Vec::new(),
            blocking_rules: Vec::new(),
            escalate_rules: Vec::new(),
        }
    }
}

impl Default for ProjectConfig {
    fn default() -> (r: Self)
        ensures
            r.key is None,
            r.name is None,
            r.version is None,
    {
        ProjectConfig { key: None, name: None, version: None }
    }
}

impl Default for AnalysisConfig {
    fn default() -> (r: Self)
        ensures
            r.sources is None,
            r.exclusions is None,
            r.inclusions is None,
            r.profile is None,
    {
        AnalysisConfig { sources: None, exclusions: None, inclusions: None, profile: None }
    }
}

impl Default for ArchitectureSettings {
    fn default() -> (r: Self)
        ensures
            r.allowed_dependencies@.len() == 0,
            r.forbidden_dependencies@.len() == 0,
            r.exceptions@.len() == 0,
            r.layer@.len() == 0,
    {
        ArchitectureSettings {
            allowed_dependencies: Vec::new(),
            forbidden_dependencies: Vec::new(),
            exceptions: Vec::new(),
            layer: Vec::new(),
        }
    }
}

impl Default for RulesConfig {
    fn default() -> (r: Self)
        ensures
            r.custom@.len() == 0,
    {
        RulesConfig { custom: Vec::new() }
    }
}

/// Everything a `sonar-project.properties` file cannot set is at its
/// default: no profile, no custom rules, no architecture, agent, swarm,
/// gate, vite-react, secrets or flow settings.
pub open spec fn default_beyond_sonar(c: VordConfig) -> bool {
    &&& c.analysis.profile is None
    &&& c.rules.custom@.len() == 0
    &&& c.architecture.allowed_dependencies@.len() == 0
    &&& c.architecture.forbidden_dependencies@.len() == 0
    &&& c.architecture.exceptions@.len() == 0
    &&& c.architecture.layer@.len() == 0
    &&& c.agent.max_turns is None
    &&& c.agent.max_tokens is None
    &&& c.agent.max_rejections is None
    &&& c.agent.allowed_commands is None
    &&& c.agent.command_timeout_secs is None
    &&& c.swarm.worktree_root is None
    &&& c.swarm.roles@.len() == 0
    &&& c.swarm.topology is None
    &&& c.swarm.pipeline is None
    &&& c.gate.min_health_score is None
    &&& c.vite_react.exceptions@ == Map::<String, Vec<String>>::empty()
    &&& c.secrets.ignore_keys@.len() == 0
    &&& c.flows@.len() == 0
}

impl Default for VordConfig {
    fn default() -> (r: Self)
        ensures
            r.project.key is None,
            r.project.name is None,
            r.project.version is None,
            r.analysis.sources is None,
            r.analysis.exclusions is None,
            r.analysis.inclusions is None,
            default_beyond_sonar(r),
    {
        VordConfig {
            project: ProjectConfig::default(),
            analysis: AnalysisConfig::default(),
            rules: RulesConfig::default(),
            architecture: ArchitectureSettings::default(),
            agent: AgentSettings::default(),
            swarm: SwarmSettings::default(),
            gate: GateSettings::default(),
            vite_react: ViteReactSettings::default(),
            secrets: SecretsSettings::default(),
            flows: Vec::new(),
        }
    }
}

/// The trimmed comma-separated parts of `val`, as `sonar.*` list values
/// are written (`"src, lib"`).
pub open spec fn csv_spec(val: Seq<char>) -> Seq<Seq<char>> {
    split_on(val, ',').map_values(|p: Seq<char>| trim_spec(p))
}

/// Splits a comma-joined `sonar.*` property value (`"src,lib"`) into its
/// trimmed parts.
pub fn split_csv(val: &str) -> (parts: Vec<String>)
    ensures
        parts.deep_view() == csv_spec(val@),
{
    let text = chars_of(val);
    let pieces = split_chars(&text, ',');
    let ghost all = pieces.deep_view();
    let mut parts: Vec<String> = Vec::new();
    let mut i: usize = 0;
    while i < pieces.len()
        invariant
            i <= pieces.len(),
            all == pieces.deep_view(),
            all == split_on(val@, ','),
            parts.deep_view() == all.take(i as int).map_values(|p: Seq<char>| trim_spec(p)),
        decreases pieces.len() - i,
    {
        proof {
            lemma_chars_deep_view(pieces@[i as int]);
        }
        let t = trim_chars(&pieces[i]);
        let part = string_from_chars(&t);
        let ghost before = parts.deep_view();
        parts.push(part);
        assert(all.take(i + 1) =~= all.take(i as int).push(all[i as int]));
        assert(parts.deep_view() =~= before.push(part@));
        assert(all.take(i + 1).map_values(|p: Seq<char>| trim_spec(p)) =~= all.take(
            i as int,
        ).map_values(|p: Seq<char>| trim_spec(p)).push(trim_spec(all[i as int])));
        i += 1;
    }
    assert(all.take(pieces.len() as int) =~= all);
    parts
}

/// The `key = value` pair one line of a `sonar-project.properties` file
/// holds: `None` for a blank line, a `#` comment, or a line without `=`;
/// otherwise the trimmed text before the first `=` and the trimmed text
/// after it.
pub open spec fn sonar_property(line: Seq<char>) -> Option<(Seq<char>, Seq<char>)> {
    let t = trim_spec(line);
    if t.len() == 0 || t[0] == '#' {
        None
    } else {
        match first_index_from(t, '=', 0) {
            Some(j) => Some((trim_spec(t.take(j)), trim_spec(t.skip(j + 1)))),
            None => None,
        }
    }
}

/// The value the last line setting `key` gives it, if any line does.
pub open spec fn last_sonar_value(lines: Seq<Seq<char>>, key: Seq<char>) -> Option<Seq<char>>
    decreases lines.len(),
{
    if lines.len() == 0 {
        None
    } else {
        match sonar_property(lines.last()) {
            Some((k, v)) => if k == key {
                Some(v)
            } else {
                last_sonar_value(lines.drop_last(), key)
            },
            None => last_sonar_value(lines.drop_last(), key),
        }
    }
}

/// The list value the last line setting `key` gives it, split at commas.
pub open spec fn last_sonar_list(lines: Seq<Seq<char>>, key: Seq<char>) -> Option<Seq<Seq<char>>> {
    match last_sonar_value(lines, key) {
        Some(v) => Some(csv_spec(v)),
        None => None,
    }
}

/// The lines of a properties file. A `\r` before a line break is
/// whitespace and falls to the trimming of each line.
pub open spec fn sonar_lines(content: Seq<char>) -> Seq<Seq<char>> {
    split_on(content, '\n')
}

/// Sets the one field `key` names, if it is one of the six recognized
/// `sonar.*` keys; any other key is ignored.
fn apply_sonar_property(config: &mut VordConfig, key: &str, val: &str)
    ensures
        final(config).project.key.deep_view() == if key@ == "sonar.projectKey"@ {
            Some(val@)
        } else {
            old(config).project.key.deep_view()
        },
        final(config).project.name.deep_view() == if key@ == "sonar.projectName"@ {
            Some(val@)
        } else {
            old(config).project.name.deep_view()
        },
        final(config).project.version.deep_view() == if key@ == "sonar.projectVersion"@ {
            Some(val@)
        } else {
            old(config).project.version.deep_view()
        },
        final(config).analysis.sources.deep_view() == if key@ == "sonar.sources"@ {
            Some(csv_spec(val@))
        } else {
            old(config).analysis.sources.deep_view()
        },
        final(config).analysis.exclusions.deep_view() == if key@ == "sonar.exclusions"@ {
            Some(csv_spec(val@))
        } else {
            old(config).analysis.exclusions.deep_view()
        },
        final(config).analysis.inclusions.deep_view() == if key@ == "sonar.inclusions"@ {
            Some(csv_spec(val@))
        } else {
            old(config).analysis.inclusions.deep_view()
        },
        final(config).analysis.profile == old(config).analysis.profile,
        final(config).rules == old(config).rules,
        final(config).architecture == old(config).architecture,
        final(config).agent == old(config).agent,
        final(config).swarm == old(config).swarm,
        final(config).gate == old(config).gate,
        final(config).vite_react == old(config).vite_react,
        final(config).secrets == old(config).secrets,
        final(config).flows == old(config).flows,
{
    proof {
        reveal_strlit("sonar.projectKey");
        reveal_strlit("sonar.projectName");
        reveal_strlit("sonar.projectVersion");
        reveal_strlit("sonar.sources");
        reveal_strlit("sonar.exclusions");
        reveal_strlit("sonar.inclusions");
        assert("sonar.projectKey"@[6] != "sonar.exclusions"@[6]);
        assert("sonar.projectKey"@[6] != "sonar.inclusions"@[6]);
        assert("sonar.exclusions"@[6] != "sonar.inclusions"@[6]);
        assert("sonar.projectKey"@.len() != "sonar.projectName"@.len());
        assert("sonar.projectKey"@.len() != "sonar.projectVersion"@.len());
        assert("sonar.projectKey"@.len() != "sonar.sources"@.len());
        assert("sonar.projectName"@.len() != "sonar.projectVersion"@.len());
        assert("sonar.projectName"@.len() != "sonar.sources"@.len());
        assert("sonar.projectName"@.len() != "sonar.exclusions"@.len());
        assert("sonar.projectVersion"@.len() != "sonar.sources"@.len());
        assert("sonar.projectVersion"@.len() != "sonar.exclusions"@.len());
        assert("sonar.sources"@.len() != "sonar.exclusions"@.len());
    }
    let k = chars_of(key);
    if same_chars(&k, &chars_of("sonar.projectKey")) {
        config.project.key = Some(val.to_owned());
    } else if same_chars(&k, &chars_of("sonar.projectName")) {
        config.project.name = Some(val.to_owned());
    } else if same_chars(&k, &chars_of("sonar.projectVersion")) {
        config.project.version = Some(val.to_owned());
    } else if same_chars(&k, &chars_of("sonar.sources")) {
        config.analysis.sources = Some(split_csv(val));
    } else if same_chars(&k, &chars_of("sonar.exclusions")) {
        config.analysis.exclusions = Some(split_csv(val));
    } else if same_chars(&k, &chars_of("sonar.inclusions")) {
        config.analysis.inclusions = Some(split_csv(val));
    }
}

/// The configuration a `sonar-project.properties` text describes, taken
/// line by line: each field is what the last line setting it says.
pub open spec fn sonar_config_matches(c: VordConfig, lines: Seq<Seq<char>>) -> bool {
    &&& c.project.key.deep_view() == last_sonar_value(lines, "sonar.projectKey"@)
    &&& c.project.name.deep_view() == last_sonar_value(lines, "sonar.projectName"@)
    &&& c.project.version.deep_view() == last_sonar_value(lines, "sonar.projectVersion"@)
    &&& c.analysis.sources.deep_view() == last_sonar_list(lines, "sonar.sources"@)
    &&& c.analysis.exclusions.deep_view() == last_sonar_list(lines, "sonar.exclusions"@)
    &&& c.analysis.inclusions.deep_view() == last_sonar_list(lines, "sonar.inclusions"@)
    &&& default_beyond_sonar(c)
}

impl VordConfig {
    /// Reads a legacy `sonar-project.properties` text: blank lines and `#`
    /// comments are skipped, every other line of the form `key = value`
    /// sets `sonar.projectKey`, `sonar.projectName`, `sonar.projectVersion`
    /// (as is) or `sonar.sources`, `sonar.exclusions`, `sonar.inclusions`
    /// (split at commas), the last such line winning; other keys and lines
    /// without `=` are ignored, and everything else keeps its default.
    pub fn parse_sonar_properties(content: &str) -> (c: Self)
        ensures
            sonar_config_matches(c, sonar_lines(content@)),
    {
        let text = chars_of(content);
        let lines = split_chars(&text, '\n');
        let ghost all = lines.deep_view();
        let mut config = VordConfig::default();
        let mut i: usize = 0;
        while i < lines.len()
            invariant
                i <= lines.len(),
                all == lines.deep_view(),
                all == sonar_lines(content@),
                sonar_config_matches(config, all.take(i as int)),
            decreases lines.len() - i,
        {
            proof {
                lemma_chars_deep_view(lines@[i as int]);
                assert(all.take(i + 1).drop_last() =~= all.take(i as int));
                assert(all.take(i + 1).last() == lines@[i as int]@);
            }
            let t = trim_chars(&lines[i]);
            if t.len() > 0 && t[0] != '#' {
                proof {
                    lemma_first_index_from(t@, '=', 0);
                }
                match find_char_from(&t, '=', 0) {
                    Some(j) => {
                        let key = string_from_chars(&trim_chars(&sub_chars(&t, 0, j)));
                        let val = string_from_chars(&trim_chars(&sub_chars(&t, j + 1, t.len())));
                        assert(t@.subrange(0, j as int) =~= t@.take(j as int));
                        assert(t@.subrange(j + 1, t@.len() as int) =~= t@.skip(j + 1));
                        apply_sonar_property(&mut config, key.as_str(), val.as_str());
                    },
                    None => {},
                }
            }
            i += 1;
        }
        assert(all.take(lines.len() as int) =~= all);
        config
    }
}

/// Whether a line leaves the property `key` alone: it is blank, a comment,
/// has no `=`, or sets another key.
pub open spec fn leaves_key_alone(line: Seq<char>, key: Seq<char>) -> bool {
    match sonar_property(line) {
        Some((k, _)) => k != key,
        None => true,
    }
}

/// A line that is blank, a comment, has no `=`, or sets another key
/// changes nothing about `key`, wherever it stands in the file.
pub proof fn law_other_lines_leave_a_key_alone(
    before: Seq<Seq<char>>,
    line: Seq<char>,
    after: Seq<Seq<char>>,
    key: Seq<char>,
)
    requires
        leaves_key_alone(line, key),
    ensures
        last_sonar_value(before + seq![line] + after, key) == last_sonar_value(before + after, key),
    decreases after.len(),
{
    if after.len() == 0 {
        assert(before + seq![line] + after =~= before.push(line));
        assert(before + after =~= before);
        assert(before.push(line).drop_last() =~= before);
        assert(before.push(line).last() == line);
    } else {
        law_other_lines_leave_a_key_alone(before, line, after.drop_last(), key);
        assert((before + seq![line] + after).drop_last() =~= before + seq![line] + after.drop_last());
        assert((before + after).drop_last() =~= before + after.drop_last());
        assert((before + seq![line] + after).last() == after.last());
        assert((before + after).last() == after.last());
    }
}

/// A line that sets `key` decides its value, whatever came before it.
pub proof fn law_last_setting_wins(before: Seq<Seq<char>>, line: Seq<char>, key: Seq<char>, val: Seq<char>)
    requires
        sonar_property(line) == Some((key, val)),
    ensures
        last_sonar_value(before.push(line), key) == Some(val),
{
    assert(before.push(line).last() == line);
}

} // verus!
