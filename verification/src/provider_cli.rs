//! Which CLI binary a provider launches: a custom binary the user chose, the
//! app-managed Codex binary, or the provider's default; and what a probe of
//! that binary reports.
use vstd::prelude::*;

use crate::agents::{harness_name, AgentHarnessKind};
use crate::text::{chars_of, copy_opt, copy_str, join, opt_view, push_joined, push_str, str_is_blank, trim, is_blank, trim_str};

verus! {

/// Who installs and updates a provider's CLI.
#[derive(Debug, Clone, Copy, PartialEq, Eq, Structural)]
pub enum AgentProviderCliManagementMode {
    UserManaged,
    RxManaged,
}

/// The CLI-related settings of one provider.
#[derive(Debug, Clone)]
pub struct AgentProviderSettings {
    pub provider: AgentHarnessKind,
    pub cli_management_mode: AgentProviderCliManagementMode,
    pub custom_binary_enabled: bool,
    pub custom_binary_path: Option<String>,
}

impl AgentProviderSettings {
    /// User-managed, with no custom binary.
    pub fn disabled_defaults(provider: AgentHarnessKind) -> (s: Self)
        ensures
            s.provider == provider,
            s.cli_management_mode == AgentProviderCliManagementMode::UserManaged,
            !s.custom_binary_enabled,
            s.custom_binary_path is None,
    {
        AgentProviderSettings {
            provider,
            cli_management_mode: AgentProviderCliManagementMode::UserManaged,
            custom_binary_enabled: false,
            custom_binary_path: None,
        }
    }
}

/// What a probe of a provider binary found.
#[derive(Debug, Clone)]
pub struct HarnessRuntimeProbe {
    pub binary_path: Option<String>,
    pub binary_found: bool,
    pub probe_succeeded: bool,
    pub available: bool,
    pub missing_core_exec_features: Vec<String>,
    pub cli_version: Option<String>,
    pub supported_model_aliases: Option<Vec<String>>,
    pub supported_efforts: Option<Vec<String>>,
    pub ultra_supported_models: Vec<String>,
    pub supports_fast_mode: bool,
    pub fast_mode_supported_models: Vec<String>,
    pub error: Option<String>,
}

/// What running a Codex binary's capability probe reported.
#[derive(Debug, Clone)]
pub struct CodexCapabilities {
    pub version: Option<String>,
    pub missing_core_exec_features: Vec<String>,
    pub supported_model_aliases: Vec<String>,
    pub supported_effort_labels: Vec<String>,
    pub ultra_supported_models: Vec<String>,
    pub supports_fast_mode: bool,
    pub fast_mode_supported_models: Vec<String>,
}

/// What running an Anthropic harness binary's capability probe reported.
#[derive(Debug, Clone)]
pub struct ClaudeCapabilities {
    pub version: Option<String>,
    pub supported_model_aliases: Vec<String>,
    pub supported_effort_labels: Vec<String>,
}

pub open spec fn display_name(p: AgentHarnessKind) -> Seq<char> {
    harness_name(p)
}

/// The app-managed binary, where the app manages this provider's CLI: only
/// Codex is managed; the Anthropic harness keeps its default resolution.
pub fn managed_provider_cli_launch_path(settings: &AgentProviderSettings, managed_codex_path: &str) -> (r:
    Option<String>)
    ensures
        (settings.cli_management_mode == AgentProviderCliManagementMode::RxManaged && settings.provider
            == AgentHarnessKind::Codex) ==> opt_view(r) == Some(managed_codex_path@),
        !(settings.cli_management_mode == AgentProviderCliManagementMode::RxManaged && settings.provider
            == AgentHarnessKind::Codex) ==> r is None,
{
    if settings.cli_management_mode != AgentProviderCliManagementMode::RxManaged {
        return None;
    }
    match settings.provider {
        AgentHarnessKind::Codex => Some(copy_str(managed_codex_path)),
        AgentHarnessKind::Claude => None,
    }
}

pub open spec fn path_required_error(p: AgentHarnessKind) -> Seq<char> {
    "Custom "@ + display_name(p) + " binary path is required before enabling custom binary mode"@
}

pub fn custom_binary_path_required_error(provider: AgentHarnessKind) -> (e: String)
    ensures
        e@ == path_required_error(provider),
{
    let mut e = copy_str("Custom ");
    push_str(&mut e, provider.as_str());
    push_str(&mut e, " binary path is required before enabling custom binary mode");
    e
}

/// The custom path to check, trimmed; refused when missing or blank.
/// `None` when no custom binary is enabled.
pub open spec fn custom_candidate(settings: AgentProviderSettings) -> Option<Result<Seq<char>, Seq<char>>> {
    if !settings.custom_binary_enabled {
        None
    } else {
        match settings.custom_binary_path {
            Some(p) => if is_blank(p@) {
                Some(Err(path_required_error(settings.provider)))
            } else {
                Some(Ok(trim(p@)))
            },
            None => Some(Err(path_required_error(settings.provider))),
        }
    }
}

pub open spec fn result_view(r: Result<String, String>) -> Result<Seq<char>, Seq<char>> {
    match r {
        Ok(s) => Ok(s@),
        Err(e) => Err(e@),
    }
}

pub open spec fn opt_result_view(r: Option<Result<String, String>>) -> Option<Result<Seq<char>, Seq<char>>> {
    match r {
        Some(x) => Some(result_view(x)),
        None => None,
    }
}

pub fn custom_cli_candidate(settings: &AgentProviderSettings) -> (r: Option<Result<String, String>>)
    ensures
        opt_result_view(r) == custom_candidate(*settings),
{
    if !settings.custom_binary_enabled {
        return None;
    }
    match &settings.custom_binary_path {
        Some(p) => {
            if str_is_blank(p.as_str()) {
                Some(Err(custom_binary_path_required_error(settings.provider)))
            } else {
                Some(Ok(trim_str(p.as_str())))
            }
        },
        None => Some(Err(custom_binary_path_required_error(settings.provider))),
    }
}

/// `s[i..j]` is one `/`-separated component of `s`.
pub open spec fn is_component(s: Seq<char>, i: int, j: int) -> bool {
    &&& 0 <= i <= j <= s.len()
    &&& (i == 0 || s[i - 1] == '/')
    &&& (j == s.len() || s[j] == '/')
    &&& forall|k: int| i <= k < j ==> s[k] != '/'
}

/// An absolute path none of whose components is `.` or `..`.
pub open spec fn safe_absolute_shape(s: Seq<char>) -> bool {
    &&& s.len() > 0
    &&& s[0] == '/'
    &&& forall|i: int, j: int|
        #[trigger] is_component(s, i, j) ==> s.subrange(i, j) != "."@ && s.subrange(i, j) != ".."@
}

fn dot_component(v: &Vec<char>, start: usize, end: usize) -> (b: bool)
    requires
        start <= end <= v@.len(),
    ensures
        b == (v@.subrange(start as int, end as int) == "."@ || v@.subrange(start as int, end as int)
            == ".."@),
{
    proof {
        reveal_strlit(".");
        reveal_strlit("..");
    }
    let len = end - start;
    let is_dot = len == 1 && v[start] == '.';
    let is_dotdot = len == 2 && v[start] == '.' && v[start + 1] == '.';
    let ghost c = v@.subrange(start as int, end as int);
    if is_dot {
        assert(c =~= "."@);
    } else if len == 1 {
        assert(c[0] != "."@[0]);
    } else {
        assert(c.len() != "."@.len());
    }
    if is_dotdot {
        assert(c =~= ".."@);
    } else if len == 2 {
        assert(c[0] != ".."@[0] || c[1] != ".."@[1]);
    } else {
        assert(c.len() != ".."@.len());
    }
    is_dot || is_dotdot
}

proof fn lemma_component_at(s: Seq<char>, start: int, k: int, i: int, j: int)
    requires
        0 <= start <= k <= s.len(),
        start == 0 || s[start - 1] == '/',
        forall|q: int| start <= q < k ==> s[q] != '/',
        k == s.len() || s[k] == '/',
        is_component(s, i, j),
        start <= j <= k,
    ensures
        i == start && j == k,
{
    if j < k {
        assert(s[j] == '/');
    }
    if i < start {
        assert(s[start - 1] == '/');
    }
    if i > start {
        assert(s[i - 1] == '/');
    }
}

/// Whether a binary path is absolute and free of `.` and `..` components.
pub fn has_safe_absolute_binary_path_shape(path: &str) -> (b: bool)
    ensures
        b == safe_absolute_shape(path@),
{
    let v = chars_of(path);
    let n = v.len();
    if n == 0 || v[0] != '/' {
        return false;
    }
    let mut start: usize = 0;
    let mut k: usize = 0;
    while k < n
        invariant
            v@ == path@,
            n == v@.len(),
            start <= k <= n,
            start == 0 || v@[start - 1] == '/',
            forall|q: int| start <= q < k ==> v@[q] != '/',
            forall|i: int, j: int|
                #[trigger] is_component(v@, i, j) && j < start ==> v@.subrange(i, j) != "."@
                    && v@.subrange(i, j) != ".."@,
        decreases n - k,
    {
        if v[k] == '/' {
            if dot_component(&v, start, k) {
                assert(is_component(v@, start as int, k as int));
                return false;
            }
            proof {
                assert forall|i: int, j: int|
                    #[trigger] is_component(v@, i, j) && j < k + 1 implies v@.subrange(i, j) != "."@
                        && v@.subrange(i, j) != ".."@ by {
                    if j >= start {
                        lemma_component_at(v@, start as int, k as int, i, j);
                    }
                }
            }
            start = k + 1;
        }
        k = k + 1;
    }
    if dot_component(&v, start, n) {
        assert(is_component(v@, start as int, n as int));
        return false;
    }
    proof {
        assert forall|i: int, j: int| #[trigger] is_component(v@, i, j) implies v@.subrange(i, j) != "."@
            && v@.subrange(i, j) != ".."@ by {
            if j >= start {
                lemma_component_at(v@, start as int, n as int, i, j);
            }
        }
    }
    true
}

/// A candidate custom path judged by the two checks on it: an absolute
/// path without `.` or `..` components, and (as the file system reports)
/// a launchable executable file.
pub open spec fn custom_path_verdict(
    provider: AgentHarnessKind,
    path: Seq<char>,
    launchable: bool,
) -> Result<Seq<char>, Seq<char>> {
    if !safe_absolute_shape(path) {
        Err("Custom "@ + display_name(provider)
            + " binary path must be an absolute path without . or .. components."@)
    } else if !launchable {
        Err("Custom "@ + display_name(provider) + " binary path is not a launchable executable file: "@
            + path)
    } else {
        Ok(path)
    }
}

pub fn validate_custom_provider_cli_path(provider: AgentHarnessKind, path: &str, launchable: bool) -> (r:
    Result<String, String>)
    ensures
        result_view(r) == custom_path_verdict(provider, path@, launchable),
{
    if !has_safe_absolute_binary_path_shape(path) {
        let mut e = copy_str("Custom ");
        push_str(&mut e, provider.as_str());
        push_str(&mut e, " binary path must be an absolute path without . or .. components.");
        return Err(e);
    }
    if !launchable {
        let mut e = copy_str("Custom ");
        push_str(&mut e, provider.as_str());
        push_str(&mut e, " binary path is not a launchable executable file: ");
        push_str(&mut e, path);
        return Err(e);
    }
    Ok(copy_str(path))
}

/// The binary a provider launches: the custom binary when enabled (with its
/// verdict), else the managed binary, else `None` (default resolution).
pub fn provider_cli_launch_path(
    settings: &AgentProviderSettings,
    custom_verdict: Option<Result<String, String>>,
    managed_codex_path: &str,
) -> (r: Option<Result<String, String>>)
    ensures
        settings.custom_binary_enabled ==> opt_result_view(r) == Some(
            match custom_verdict {
                Some(v) => result_view(v),
                None => Err(path_required_error(settings.provider)),
            },
        ),
        !settings.custom_binary_enabled && settings.cli_management_mode
            == AgentProviderCliManagementMode::RxManaged && settings.provider == AgentHarnessKind::Codex
            ==> opt_result_view(r) == Some(Ok::<Seq<char>, Seq<char>>(managed_codex_path@)),
        !settings.custom_binary_enabled && !(settings.cli_management_mode
            == AgentProviderCliManagementMode::RxManaged && settings.provider == AgentHarnessKind::Codex)
            ==> r is None,
{
    if settings.custom_binary_enabled {
        return match custom_verdict {
            Some(v) => Some(v),
            None => Some(Err(custom_binary_path_required_error(settings.provider))),
        };
    }
    match managed_provider_cli_launch_path(settings, managed_codex_path) {
        Some(p) => Some(Ok(p)),
        None => None,
    }
}

/// Which probe a provider's runtime gets: the custom binary's when one is
/// enabled, else the managed Codex binary's, else none.
#[derive(Debug, Clone, PartialEq, Eq)]
pub enum RuntimeProbePlan {
    CustomBinary,
    ManagedCodex(String),
}

pub fn runtime_probe_plan(settings: &AgentProviderSettings, managed_codex_path: &str) -> (r: Option<
    RuntimeProbePlan,
>)
    ensures
        settings.custom_binary_enabled ==> r == Some(RuntimeProbePlan::CustomBinary),
        !settings.custom_binary_enabled && settings.cli_management_mode
            == AgentProviderCliManagementMode::RxManaged && settings.provider == AgentHarnessKind::Codex
            ==> (r matches Some(RuntimeProbePlan::ManagedCodex(p)) && p@ == managed_codex_path@),
        !settings.custom_binary_enabled && !(settings.cli_management_mode
            == AgentProviderCliManagementMode::RxManaged && settings.provider == AgentHarnessKind::Codex)
            ==> r is None,
{
    if settings.custom_binary_enabled {
        return Some(RuntimeProbePlan::CustomBinary);
    }
    match managed_provider_cli_launch_path(settings, managed_codex_path) {
        Some(p) => Some(RuntimeProbePlan::ManagedCodex(p)),
        None => None,
    }
}

/// A probe that found no binary to run.
pub open spec fn is_unfound_probe(p: HarnessRuntimeProbe, binary_path: Option<Seq<char>>, error: Seq<char>) -> bool {
    &&& opt_view(p.binary_path) == binary_path
    &&& !p.binary_found
    &&& !p.probe_succeeded
    &&& !p.available
    &&& p.missing_core_exec_features@.len() == 0
    &&& p.cli_version is None
    &&& p.supported_model_aliases is None
    &&& p.supported_efforts is None
    &&& p.ultra_supported_models@.len() == 0
    &&& !p.supports_fast_mode
    &&& p.fast_mode_supported_models@.len() == 0
    &&& opt_view(p.error) == Some(error)
}

/// A probe whose binary was found but whose capability probe failed.
pub open spec fn is_failed_probe(p: HarnessRuntimeProbe, binary_path: Seq<char>, error: Seq<char>) -> bool {
    &&& opt_view(p.binary_path) == Some(binary_path)
    &&& p.binary_found
    &&& !p.probe_succeeded
    &&& !p.available
    &&& p.missing_core_exec_features@.len() == 0
    &&& p.cli_version is None
    &&& p.supported_model_aliases is None
    &&& p.supported_efforts is None
    &&& p.ultra_supported_models@.len() == 0
    &&& !p.supports_fast_mode
    &&& p.fast_mode_supported_models@.len() == 0
    &&& opt_view(p.error) == Some(error)
}

fn unfound_probe(binary_path: Option<String>, error: String) -> (p: HarnessRuntimeProbe)
    ensures
        is_unfound_probe(p, opt_view(binary_path), error@),
{
    HarnessRuntimeProbe {
        binary_path,
        binary_found: false,
        probe_succeeded: false,
        available: false,
        missing_core_exec_features: Vec::new(),
        cli_version: None,
        supported_model_aliases: None,
        supported_efforts: None,
        ultra_supported_models: Vec::new(),
        supports_fast_mode: false,
        fast_mode_supported_models: Vec::new(),
        error: Some(error),
    }
}

fn failed_probe(binary_path: &str, error: String) -> (p: HarnessRuntimeProbe)
    ensures
        is_failed_probe(p, binary_path@, error@),
{
    HarnessRuntimeProbe {
        binary_path: Some(copy_str(binary_path)),
        binary_found: true,
        probe_succeeded: false,
        available: false,
        missing_core_exec_features: Vec::new(),
        cli_version: None,
        supported_model_aliases: None,
        supported_efforts: None,
        ultra_supported_models: Vec::new(),
        supports_fast_mode: false,
        fast_mode_supported_models: Vec::new(),
        error: Some(error),
    }
}

/// The probe reported for a custom binary whose path was refused: the path
/// as configured, not found, with the refusal as the error.
pub fn custom_path_error_probe(settings: &AgentProviderSettings, error: String) -> (p: HarnessRuntimeProbe)
    ensures
        is_unfound_probe(p, opt_view(settings.custom_binary_path), error@),
{
    unfound_probe(copy_opt(&settings.custom_binary_path), error)
}

/// The probe reported when the managed Codex binary is not installed.
pub fn missing_managed_codex_probe(path: &str) -> (p: HarnessRuntimeProbe)
    ensures
        is_unfound_probe(p, Some(path@), "RX-managed Codex is not installed."@),
{
    unfound_probe(Some(copy_str(path)), copy_str("RX-managed Codex is not installed."))
}

/// A list, or `None` when it is empty.
pub open spec fn non_empty(v: Seq<String>) -> Option<Seq<Seq<char>>> {
    if v.len() == 0 {
        None
    } else {
        Some(v.map_values(|s: String| s@))
    }
}

pub open spec fn opt_names(v: Option<Vec<String>>) -> Option<Seq<Seq<char>>> {
    match v {
        Some(x) => Some(x@.map_values(|s: String| s@)),
        None => None,
    }
}

fn non_empty_capability_values(values: Vec<String>) -> (r: Option<Vec<String>>)
    ensures
        opt_names(r) == non_empty(values@),
{
    if values.len() == 0 {
        None
    } else {
        Some(values)
    }
}

/// The error of a Codex binary that lacks core capabilities.
pub open spec fn missing_capability_error(managed: bool, missing: Seq<String>) -> Seq<char> {
    (if managed {
        "RX-managed Codex is missing required capability: "@
    } else {
        "Custom Codex binary is missing required capability: "@
    }) + join(missing.map_values(|s: String| s@), ", "@)
}

/// The probe of a Codex binary from its capability report: available
/// exactly when no core capability is missing.
pub fn codex_probe(
    path: &str,
    result: Result<CodexCapabilities, String>,
    managed: bool,
) -> (p: HarnessRuntimeProbe)
    ensures
        match result {
            Ok(c) => {
                &&& opt_view(p.binary_path) == Some(path@)
                &&& p.binary_found
                &&& p.probe_succeeded
                &&& p.available == (c.missing_core_exec_features@.len() == 0)
                &&& p.missing_core_exec_features@ == c.missing_core_exec_features@
                &&& p.cli_version == c.version
                &&& opt_names(p.supported_model_aliases) == non_empty(c.supported_model_aliases@)
                &&& opt_names(p.supported_efforts) == non_empty(c.supported_effort_labels@)
                &&& p.ultra_supported_models@ == c.ultra_supported_models@
                &&& p.supports_fast_mode == c.supports_fast_mode
                &&& p.fast_mode_supported_models@ == c.fast_mode_supported_models@
                &&& opt_view(p.error) == (if c.missing_core_exec_features@.len() == 0 {
                    None
                } else {
                    Some(missing_capability_error(managed, c.missing_core_exec_features@))
                })
            },
            Err(e) => is_failed_probe(p, path@, e@),
        },
{
    match result {
        Ok(c) => {
            let available = c.missing_core_exec_features.len() == 0;
            let error = if available {
                None
            } else {
                let mut e = if managed {
                    copy_str("RX-managed Codex is missing required capability: ")
                } else {
                    copy_str("Custom Codex binary is missing required capability: ")
                };
                push_joined(&mut e, &c.missing_core_exec_features, ", ");
                Some(e)
            };
            HarnessRuntimeProbe {
                binary_path: Some(copy_str(path)),
                binary_found: true,
                probe_succeeded: true,
                available,
                missing_core_exec_features: c.missing_core_exec_features,
                cli_version: c.version,
                supported_model_aliases: non_empty_capability_values(c.supported_model_aliases),
                supported_efforts: non_empty_capability_values(c.supported_effort_labels),
                ultra_supported_models: c.ultra_supported_models,
                supports_fast_mode: c.supports_fast_mode,
                fast_mode_supported_models: c.fast_mode_supported_models,
                error,
            }
        },
        Err(e) => failed_probe(path, e),
    }
}

/// The probe of a custom Anthropic harness binary from its capability report.
pub fn claude_probe(path: &str, result: Result<ClaudeCapabilities, String>) -> (p: HarnessRuntimeProbe)
    ensures
        match result {
            Ok(c) => {
                &&& opt_view(p.binary_path) == Some(path@)
                &&& p.binary_found
                &&& p.probe_succeeded
                &&& p.available
                &&& p.missing_core_exec_features@.len() == 0
                &&& p.cli_version == c.version
                &&& opt_names(p.supported_model_aliases) == Some(
                    c.supported_model_aliases@.map_values(|s: String| s@),
                )
                &&& opt_names(p.supported_efforts) == Some(
                    c.supported_effort_labels@.map_values(|s: String| s@),
                )
                &&& p.ultra_supported_models@.len() == 0
                &&& !p.supports_fast_mode
                &&& p.fast_mode_supported_models@.len() == 0
                &&& p.error is None
            },
            Err(e) => is_failed_probe(p, path@, e@),
        },
{
    match result {
        Ok(c) => HarnessRuntimeProbe {
            binary_path: Some(copy_str(path)),
            binary_found: true,
            probe_succeeded: true,
            available: true,
            missing_core_exec_features: Vec::new(),
            cli_version: c.version,
            supported_model_aliases: Some(c.supported_model_aliases),
            supported_efforts: Some(c.supported_effort_labels),
            ultra_supported_models: Vec::new(),
            supports_fast_mode: false,
            fast_mode_supported_models: Vec::new(),
            error: None,
        },
        Err(e) => failed_probe(path, e),
    }
}

/// The error to report for an unavailable binary: the probe's own, else a
/// generic one naming the purpose and the provider.
pub fn managed_probe_error(probe: HarnessRuntimeProbe, purpose: &str, provider: AgentHarnessKind) -> (e:
    String)
    ensures
        e@ == match probe.error {
            Some(x) => x@,
            None => purpose@ + " harness unavailable: "@ + display_name(provider),
        },
{
    match probe.error {
        Some(x) => x,
        None => {
            let mut e = copy_str(purpose);
            push_str(&mut e, " harness unavailable: ");
            push_str(&mut e, provider.as_str());
            e
        },
    }
}

/// The checked launch path: a refused path stays refused; an unavailable
/// probe refuses the launch; otherwise the path is launched.
pub fn checked_provider_cli_launch_path(
    launch: Option<Result<String, String>>,
    probe: Option<HarnessRuntimeProbe>,
    purpose: &str,
    provider: AgentHarnessKind,
) -> (r: Option<Result<String, String>>)
    ensures
        launch is None ==> r is None,
        launch matches Some(Err(e)) ==> opt_result_view(r) == Some(Err::<Seq<char>, Seq<char>>(e@)),
        launch matches Some(Ok(path)) ==> opt_result_view(r) == match probe {
            Some(p) => if !p.available {
                Some(
                    Err::<Seq<char>, Seq<char>>(
                        match p.error {
                            Some(x) => x@,
                            None => purpose@ + " harness unavailable: "@ + display_name(provider),
                        },
                    ),
                )
            } else {
                Some(Ok(path@))
            },
            None => Some(Ok(path@)),
        },
{
    let path = match launch {
        None => {
            return None;
        },
        Some(Err(e)) => {
            return Some(Err(e));
        },
        Some(Ok(path)) => path,
    };
    match probe {
        Some(p) => {
            if !p.available {
                return Some(Err(managed_probe_error(p, purpose, provider)));
            }
        },
        None => {},
    }
    Some(Ok(path))
}

} // verus!
