//! MCP server policy: layering YAML and UI overrides over provider-native
//! state, and the small checks around policy configuration.
use vstd::prelude::*;

use crate::agents::{harness_name, AgentHarnessKind};
use crate::path_safety::{absolute_non_root, absolute_non_root_error, validate_absolute_non_root_path};
use crate::env::{env_get, env_lookup, env_view};
use crate::text::{
    chars_of, copy_str, insert_sorted, join, lemma_filter_sorted, lemma_sorted_pairwise, opt_view,
    push_joined, push_str, seq_lt, sorted_pairwise, sorted_strict, str_eq,
};

verus! {

/// At most this many diagnostics are kept from one policy file.
pub const MAX_POLICY_DIAGNOSTICS: usize = 20;

/// A requested state for a server or tool; `Follow` defers to lower layers.
#[derive(Debug, Clone, Copy, PartialEq, Eq, Structural)]
pub enum McpOverrideState {
    Follow,
    Enabled,
    Disabled,
}

/// Which layer decided a field.
#[derive(Debug, Clone, Copy, PartialEq, Eq, Structural)]
pub enum McpPolicySource {
    ProviderNative,
    GlobalYaml,
    GlobalUi,
    ProjectYaml,
    ProjectUi,
    RequiredInternal,
}

/// The provider's own view of a server.
#[derive(Debug, Clone, Copy, PartialEq, Eq, Structural)]
pub enum NativeMcpState {
    Enabled,
    Disabled,
    PendingApproval,
    AuthRequired,
    Untrusted,
    Unavailable,
    Unknown,
}

/// Native states under which the provider lets a server launch.
pub open spec fn permits_launch(s: NativeMcpState) -> bool {
    s == NativeMcpState::Enabled || s == NativeMcpState::Unknown
}

impl NativeMcpState {
    pub fn permits_launch(&self) -> (b: bool)
        ensures
            b == permits_launch(*self),
    {
        match self {
            NativeMcpState::Enabled | NativeMcpState::Unknown => true,
            _ => false,
        }
    }
}

/// A server, identified per provider.
#[derive(Debug)]
pub struct McpServerKey {
    pub provider: AgentHarnessKind,
    pub server_id: String,
}

/// Server ids reserved for RalphX's own MCP server.
pub open spec fn is_reserved_server_id(id: Seq<char>) -> bool {
    id == "ralphx"@ || (id.len() > 7 && id.take(7) == "ralphx_"@)
}

impl McpServerKey {
    pub fn is_ralphx_owned(&self) -> (b: bool)
        ensures
            b == is_reserved_server_id(self.server_id@),
    {
        proof {
            reveal_strlit("ralphx");
            reveal_strlit("ralphx_");
        }
        if str_eq(self.server_id.as_str(), "ralphx") {
            return true;
        }
        let v = chars_of(self.server_id.as_str());
        if v.len() <= 7 {
            return false;
        }
        let prefix = crate::text::string_from_chars(&v, 0, 7);
        let r = str_eq(prefix.as_str(), "ralphx_");
        assert(v@.subrange(0, 7) =~= v@.take(7));
        r
    }

    pub fn same_as(&self, other: &McpServerKey) -> (b: bool)
        ensures
            b == (self.provider == other.provider && self.server_id@ == other.server_id@),
    {
        self.provider == other.provider && str_eq(self.server_id.as_str(), other.server_id.as_str())
    }
}

/// One layer's override for a server: its requested state and per-tool
/// states (unique tool names).
#[derive(Debug)]
pub struct McpPolicyOverride {
    pub project_id: Option<String>,
    pub key: McpServerKey,
    pub server_state: McpOverrideState,
    pub tool_states: Vec<(String, McpOverrideState)>,
    pub updated_at: i64,
}

/// What the provider reports of a server.
#[derive(Debug)]
pub struct NativeMcpServerSnapshot {
    pub key: McpServerKey,
    pub native_scope: Option<String>,
    pub native_state: NativeMcpState,
    pub known_tools: Vec<String>,
    pub diagnostic: Option<String>,
}

/// The policy in force for one server.
#[derive(Debug)]
pub struct EffectiveMcpServerPolicy {
    pub enabled: bool,
    pub server_state: McpOverrideState,
    pub server_source: McpPolicySource,
    pub tool_states: Vec<(String, McpOverrideState)>,
    pub tool_sources: Vec<(String, McpPolicySource)>,
    pub disabled_tools: Vec<String>,
    pub locked: bool,
    pub locked_reason: Option<String>,
    pub native: NativeMcpServerSnapshot,
}

/// The server state a layer requests.
pub open spec fn layer_state(l: Option<McpPolicyOverride>) -> McpOverrideState {
    match l {
        Some(p) => p.server_state,
        None => McpOverrideState::Follow,
    }
}

/// The layers in precedence order, lowest first.
pub open spec fn layer_sources() -> Seq<McpPolicySource> {
    seq![
        McpPolicySource::GlobalYaml,
        McpPolicySource::GlobalUi,
        McpPolicySource::ProjectYaml,
        McpPolicySource::ProjectUi,
    ]
}

/// (requested enabled, requested state, source) after the first `n`
/// layers: the last layer that does not follow wins.
pub open spec fn server_outcome(layers: Seq<Option<McpPolicyOverride>>, n: int) -> (
    bool,
    McpOverrideState,
    McpPolicySource,
)
    decreases n,
{
    if n <= 0 {
        (true, McpOverrideState::Follow, McpPolicySource::ProviderNative)
    } else {
        let prev = server_outcome(layers, n - 1);
        match layer_state(layers[n - 1]) {
            McpOverrideState::Follow => prev,
            McpOverrideState::Enabled => (true, McpOverrideState::Enabled, layer_sources()[n - 1]),
            McpOverrideState::Disabled => (
                false,
                McpOverrideState::Disabled,
                layer_sources()[n - 1],
            ),
        }
    }
}

/// The state of tool `t` in a tool-state list (first entry by that name).
pub open spec fn tool_entry(states: Seq<(String, McpOverrideState)>, t: Seq<char>) -> Option<
    McpOverrideState,
>
    decreases states.len(),
{
    if states.len() == 0 {
        None
    } else {
        match tool_entry(states.drop_last(), t) {
            Some(s) => Some(s),
            None => if states.last().0@ == t {
                Some(states.last().1)
            } else {
                None
            },
        }
    }
}

/// A layer's requested state for tool `t`.
pub open spec fn layer_tool(l: Option<McpPolicyOverride>, t: Seq<char>) -> Option<McpOverrideState> {
    match l {
        Some(p) => tool_entry(p.tool_states@, t),
        None => None,
    }
}

/// (state, source) of tool `t` after the first `n` layers.
pub open spec fn tool_outcome(layers: Seq<Option<McpPolicyOverride>>, t: Seq<char>, n: int) -> (
    McpOverrideState,
    McpPolicySource,
)
    decreases n,
{
    if n <= 0 {
        (McpOverrideState::Follow, McpPolicySource::ProviderNative)
    } else {
        let prev = tool_outcome(layers, t, n - 1);
        match layer_tool(layers[n - 1], t) {
            Some(s) => if s != McpOverrideState::Follow {
                (s, layer_sources()[n - 1])
            } else {
                prev
            },
            None => prev,
        }
    }
}

/// The tool names a layer mentions.
pub open spec fn layer_tool_names(l: Option<McpPolicyOverride>) -> Seq<Seq<char>> {
    match l {
        Some(p) => names_of(p.tool_states@),
        None => Seq::empty(),
    }
}

/// Every tool named by the provider, then by each of the first `n` layers.
pub open spec fn tool_names_upto(
    native_tools: Seq<String>,
    layers: Seq<Option<McpPolicyOverride>>,
    n: int,
) -> Seq<Seq<char>>
    decreases n,
{
    if n <= 0 {
        native_tools.map_values(|t: String| t@)
    } else {
        tool_names_upto(native_tools, layers, n - 1) + layer_tool_names(layers[n - 1])
    }
}

/// The names of a list of string pairs.
pub open spec fn names_of<T>(v: Seq<(String, T)>) -> Seq<Seq<char>> {
    v.map_values(|e: (String, T)| e.0@)
}

/// The four layers, with the project YAML layer falling back to the
/// snapshot's entry for the server.
pub open spec fn effective_layers(
    global_yaml: Option<McpPolicyOverride>,
    global_ui: Option<McpPolicyOverride>,
    project_yaml: Option<McpPolicyOverride>,
    project_ui: Option<McpPolicyOverride>,
) -> Seq<Option<McpPolicyOverride>> {
    seq![global_yaml, global_ui, project_yaml, project_ui]
}

/// True when `e` is the layered policy of `native` under `layers`.
pub open spec fn is_layered_policy(
    e: EffectiveMcpServerPolicy,
    native: NativeMcpServerSnapshot,
    layers: Seq<Option<McpPolicyOverride>>,
) -> bool {
    let (requested_enabled, requested_state, source) = server_outcome(layers, 4);
    let tools = names_of(e.tool_states@);
    &&& e.enabled == (permits_launch(native.native_state) && requested_enabled)
    &&& e.server_state == requested_state
    &&& e.server_source == source
    &&& e.native == native
    &&& !e.locked
    &&& e.locked_reason is None
    &&& sorted_strict(tools)
    &&& tools.no_duplicates()
    &&& tools.to_set() == tool_names_upto(native.known_tools@, layers, 4).to_set()
    &&& names_of(e.tool_sources@) == tools
    &&& forall|i: int|
        0 <= i < tools.len() ==> (#[trigger] e.tool_states@[i]).1 == tool_outcome(layers, tools[i], 4).0
            && e.tool_sources@[i].1 == tool_outcome(layers, tools[i], 4).1
    &&& e.disabled_tools@.map_values(|t: String| t@) == tools.filter(
        |t: Seq<char>| tool_outcome(layers, t, 4).0 == McpOverrideState::Disabled,
    )
}

fn state_of_tool(states: &Vec<(String, McpOverrideState)>, t: &str) -> (r: Option<McpOverrideState>)
    ensures
        r == tool_entry(states@, t@),
{
    let mut i: usize = 0;
    while i < states.len()
        invariant
            i <= states@.len(),
            tool_entry(states@.take(i as int), t@) is None,
        decreases states.len() - i,
    {
        proof {
            assert(states@.take(i + 1).drop_last() =~= states@.take(i as int));
        }
        if str_eq(states[i].0.as_str(), t) {
            proof {
                lemma_tool_entry_extend(states@, t@, i + 1);
            }
            return Some(states[i].1);
        }
        i = i + 1;
    }
    assert(states@.take(states@.len() as int) =~= states@);
    None
}

proof fn lemma_tool_entry_extend(states: Seq<(String, McpOverrideState)>, t: Seq<char>, j: int)
    requires
        0 <= j <= states.len(),
        tool_entry(states.take(j), t) is Some,
    ensures
        tool_entry(states, t) == tool_entry(states.take(j), t),
    decreases states.len() - j,
{
    if j == states.len() {
        assert(states.take(j) =~= states);
    } else {
        assert(states.take(j + 1).drop_last() =~= states.take(j));
        lemma_tool_entry_extend(states, t, j + 1);
    }
}

fn layer_tool_exec(l: Option<&McpPolicyOverride>, t: &str) -> (r: Option<McpOverrideState>)
    ensures
        r == layer_tool(
            match l {
                Some(p) => Some(*p),
                None => None,
            },
            t@,
        ),
{
    match l {
        Some(p) => state_of_tool(&p.tool_states, t),
        None => None,
    }
}

fn source_at(i: usize) -> (s: McpPolicySource)
    requires
        i < 4,
    ensures
        s == layer_sources()[i as int],
{
    if i == 0 {
        McpPolicySource::GlobalYaml
    } else if i == 1 {
        McpPolicySource::GlobalUi
    } else if i == 2 {
        McpPolicySource::ProjectYaml
    } else {
        McpPolicySource::ProjectUi
    }
}

pub open spec fn opt_ref(l: Option<&McpPolicyOverride>) -> Option<McpPolicyOverride> {
    match l {
        Some(p) => Some(*p),
        None => None,
    }
}

/// The four layers as plain values.
pub open spec fn layers_view(layers: [Option<&McpPolicyOverride>; 4]) -> Seq<Option<McpPolicyOverride>> {
    layers@.map_values(|l: Option<&McpPolicyOverride>| opt_ref(l))
}

fn layer_at<'a>(layers: &[Option<&'a McpPolicyOverride>; 4], i: usize) -> (r: Option<
    &'a McpPolicyOverride,
>)
    requires
        i < 4,
    ensures
        opt_ref(r) == layers_view(*layers)[i as int],
{
    layers[i]
}

/// The server-level decision: the last layer that does not follow wins.
fn decide_server(layers: &[Option<&McpPolicyOverride>; 4]) -> (r: (
    bool,
    McpOverrideState,
    McpPolicySource,
))
    ensures
        r == server_outcome(layers_view(*layers), 4),
{
    let ghost lv = layers_view(*layers);
    let mut requested_enabled = true;
    let mut requested_state = McpOverrideState::Follow;
    let mut server_source = McpPolicySource::ProviderNative;
    let mut i: usize = 0;
    while i < 4
        invariant
            i <= 4,
            lv == layers_view(*layers),
            (requested_enabled, requested_state, server_source) == server_outcome(lv, i as int),
        decreases 4 - i,
    {
        match layer_at(layers, i) {
            Some(policy) => match policy.server_state {
                McpOverrideState::Follow => {},
                McpOverrideState::Enabled => {
                    requested_enabled = true;
                    requested_state = McpOverrideState::Enabled;
                    server_source = source_at(i);
                },
                McpOverrideState::Disabled => {
                    requested_enabled = false;
                    requested_state = McpOverrideState::Disabled;
                    server_source = source_at(i);
                },
            },
            None => {},
        }
        i = i + 1;
    }
    (requested_enabled, requested_state, server_source)
}

/// The tool-level decision for `tool`: the last layer with a non-follow
/// entry for it wins.
fn decide_tool(layers: &[Option<&McpPolicyOverride>; 4], tool: &str) -> (r: (
    McpOverrideState,
    McpPolicySource,
))
    ensures
        r == tool_outcome(layers_view(*layers), tool@, 4),
{
    let ghost lv = layers_view(*layers);
    let mut state = McpOverrideState::Follow;
    let mut source = McpPolicySource::ProviderNative;
    let mut q: usize = 0;
    while q < 4
        invariant
            q <= 4,
            lv == layers_view(*layers),
            (state, source) == tool_outcome(lv, tool@, q as int),
        decreases 4 - q,
    {
        let l = layer_at(layers, q);
        match layer_tool_exec(l, tool) {
            Some(candidate) => {
                if candidate != McpOverrideState::Follow {
                    state = candidate;
                    source = source_at(q);
                }
            },
            None => {},
        }
        q = q + 1;
    }
    (state, source)
}

/// Add the names of `entries` to the sorted, unique list `tools`.
fn add_tool_names(
    tools: &mut Vec<String>,
    entries: &Vec<(String, McpOverrideState)>,
    Ghost(base): Ghost<Seq<Seq<char>>>,
)
    requires
        sorted_strict(old(tools)@.map_values(|s: String| s@)),
        old(tools)@.map_values(|s: String| s@).no_duplicates(),
        old(tools)@.map_values(|s: String| s@).to_set() == base.to_set(),
    ensures
        sorted_strict(final(tools)@.map_values(|s: String| s@)),
        final(tools)@.map_values(|s: String| s@).no_duplicates(),
        final(tools)@.map_values(|s: String| s@).to_set() == (base + names_of(entries@)).to_set(),
{
    let ghost ns = names_of(entries@);
    let mut j: usize = 0;
    while j < entries.len()
        invariant
            j <= entries@.len(),
            ns == names_of(entries@),
            sorted_strict(tools@.map_values(|s: String| s@)),
            tools@.map_values(|s: String| s@).no_duplicates(),
            tools@.map_values(|s: String| s@).to_set() == (base + ns.take(j as int)).to_set(),
        decreases entries.len() - j,
    {
        insert_sorted(tools, entries[j].0.as_str());
        proof {
            assert(base + ns.take(j + 1) =~= (base + ns.take(j as int)).push(ns[j as int]));
            (base + ns.take(j as int)).lemma_push_to_set_commute(ns[j as int]);
        }
        j = j + 1;
    }
    assert(ns.take(ns.len() as int) =~= ns);
}

/// Every tool named by the provider or by a layer, sorted and unique.
fn collect_tool_names(native_tools: &Vec<String>, layers: &[Option<&McpPolicyOverride>; 4]) -> (tools:
    Vec<String>)
    ensures
        sorted_strict(tools@.map_values(|s: String| s@)),
        tools@.map_values(|s: String| s@).no_duplicates(),
        tools@.map_values(|s: String| s@).to_set() == tool_names_upto(
            native_tools@,
            layers_view(*layers),
            4,
        ).to_set(),
{
    let ghost lv = layers_view(*layers);
    let ghost kt = native_tools@.map_values(|t: String| t@);
    let mut tools: Vec<String> = Vec::new();
    let mut n: usize = 0;
    while n < native_tools.len()
        invariant
            n <= native_tools@.len(),
            kt == native_tools@.map_values(|t: String| t@),
            sorted_strict(tools@.map_values(|s: String| s@)),
            tools@.map_values(|s: String| s@).no_duplicates(),
            tools@.map_values(|s: String| s@).to_set() == kt.take(n as int).to_set(),
        decreases native_tools.len() - n,
    {
        insert_sorted(&mut tools, native_tools[n].as_str());
        proof {
            assert(kt.take(n + 1) =~= kt.take(n as int).push(kt[n as int]));
            kt.take(n as int).lemma_push_to_set_commute(kt[n as int]);
        }
        n = n + 1;
    }
    assert(kt.take(kt.len() as int) =~= kt);
    let mut li: usize = 0;
    while li < 4
        invariant
            li <= 4,
            lv == layers_view(*layers),
            sorted_strict(tools@.map_values(|s: String| s@)),
            tools@.map_values(|s: String| s@).no_duplicates(),
            tools@.map_values(|s: String| s@).to_set() == tool_names_upto(
                native_tools@,
                lv,
                li as int,
            ).to_set(),
        decreases 4 - li,
    {
        let ghost base = tool_names_upto(native_tools@, lv, li as int);
        match layer_at(layers, li) {
            Some(policy) => {
                add_tool_names(&mut tools, &policy.tool_states, Ghost(base));
                proof {
                    assert(tool_names_upto(native_tools@, lv, li + 1) == base + names_of(
                        policy.tool_states@,
                    ));
                }
            },
            None => {
                proof {
                    assert(tool_names_upto(native_tools@, lv, li + 1) =~= base);
                }
            },
        }
        li = li + 1;
    }
    tools
}

/// Resolve one server's policy through the four layers, lowest first:
/// global YAML, global UI, project YAML (falling back to the project
/// snapshot's entry), project UI. For the server and for each tool, the last
/// layer that does not follow decides; the provider's native state is an
/// upper bound on enablement.
pub fn resolve_layers(
    native: NativeMcpServerSnapshot,
    global_yaml: Option<&McpPolicyOverride>,
    global_ui: Option<&McpPolicyOverride>,
    project_yaml_direct: Option<&McpPolicyOverride>,
    project_ui: Option<&McpPolicyOverride>,
    project_yaml_snapshot: Option<&McpPolicyConfigSnapshot>,
) -> (e: EffectiveMcpServerPolicy)
    ensures
        is_layered_policy(
            e,
            native,
            effective_layers(
                opt_ref(global_yaml),
                opt_ref(global_ui),
                match project_yaml_direct {
                    Some(p) => Some(*p),
                    None => match project_yaml_snapshot {
                        Some(s) => policy_in(s.policies@, native.key.provider, native.key.server_id@),
                        None => None,
                    },
                },
                opt_ref(project_ui),
            ),
        ),
{
    let project_yaml: Option<&McpPolicyOverride> = match project_yaml_direct {
        Some(p) => Some(p),
        None => match project_yaml_snapshot {
            Some(s) => policy_for(&s.policies, &native.key),
            None => None,
        },
    };
    let layers: [Option<&McpPolicyOverride>; 4] = [global_yaml, global_ui, project_yaml, project_ui];
    let ghost lv = layers_view(layers);
    assert(lv =~= effective_layers(
        opt_ref(global_yaml),
        opt_ref(global_ui),
        opt_ref(project_yaml),
        opt_ref(project_ui),
    ));
    let (requested_enabled, requested_state, server_source) = decide_server(&layers);
    let tools = collect_tool_names(&native.known_tools, &layers);
    let ghost names = tools@.map_values(|s: String| s@);
    let mut tool_states: Vec<(String, McpOverrideState)> = Vec::new();
    let mut tool_sources: Vec<(String, McpPolicySource)> = Vec::new();
    let mut disabled_tools: Vec<String> = Vec::new();
    let ghost dpred = |t: Seq<char>| tool_outcome(lv, t, 4).0 == McpOverrideState::Disabled;
    let mut k: usize = 0;
    while k < tools.len()
        invariant
            k <= tools@.len(),
            names == tools@.map_values(|s: String| s@),
            lv == layers_view(layers),
            dpred == (|t: Seq<char>| tool_outcome(lv, t, 4).0 == McpOverrideState::Disabled),
            tool_states@.len() == k,
            tool_sources@.len() == k,
            names_of(tool_states@) == names.take(k as int),
            names_of(tool_sources@) == names.take(k as int),
            forall|q: int|
                0 <= q < k ==> (#[trigger] tool_states@[q]).1 == tool_outcome(lv, names[q], 4).0
                    && tool_sources@[q].1 == tool_outcome(lv, names[q], 4).1,
            disabled_tools@.map_values(|t: String| t@) == names.take(k as int).filter(dpred),
        decreases tools.len() - k,
    {
        let tool = tools[k].as_str();
        let (state, source) = decide_tool(&layers, tool);
        let ghost before_disabled = disabled_tools@;
        if state == McpOverrideState::Disabled {
            disabled_tools.push(copy_str(tool));
        }
        let ghost bs = tool_states@;
        let ghost bsrc = tool_sources@;
        tool_states.push((copy_str(tool), state));
        tool_sources.push((copy_str(tool), source));
        proof {
            assert(names.take(k + 1).drop_last() =~= names.take(k as int));
            assert(names.take(k + 1).last() == tool@);
            assert(names_of(tool_states@) =~= names_of(bs).push(tool@));
            assert(names_of(tool_sources@) =~= names_of(bsrc).push(tool@));
            assert(names.take(k as int).push(tool@) =~= names.take(k + 1));
            reveal_with_fuel(Seq::filter, 1);
            if state == McpOverrideState::Disabled {
                assert(disabled_tools@.map_values(|t: String| t@) =~= before_disabled.map_values(
                    |t: String| t@,
                ).push(tool@));
            }
        }
        k = k + 1;
    }
    assert(names.take(names.len() as int) =~= names);
    let enabled = native.native_state.permits_launch() && requested_enabled;
    EffectiveMcpServerPolicy {
        enabled,
        server_state: requested_state,
        server_source,
        tool_states,
        tool_sources,
        disabled_tools,
        locked: false,
        locked_reason: None,
        native,
    }
}

/// The server policies of one YAML file and the diagnostics it produced.
#[derive(Debug)]
pub struct McpPolicyConfigSnapshot {
    pub policies: Vec<McpPolicyOverride>,
    pub diagnostics: Vec<String>,
}

impl McpPolicyConfigSnapshot {
    pub fn empty() -> (s: Self)
        ensures
            s.policies@.len() == 0,
            s.diagnostics@.len() == 0,
    {
        McpPolicyConfigSnapshot { policies: Vec::new(), diagnostics: Vec::new() }
    }
}

/// The first policy for `key` in `policies`.
pub open spec fn policy_in(
    policies: Seq<McpPolicyOverride>,
    provider: AgentHarnessKind,
    id: Seq<char>,
) -> Option<McpPolicyOverride>
    decreases policies.len(),
{
    if policies.len() == 0 {
        None
    } else {
        match policy_in(policies.drop_last(), provider, id) {
            Some(p) => Some(p),
            None => if policies.last().key.provider == provider && policies.last().key.server_id@
                == id {
                Some(policies.last())
            } else {
                None
            },
        }
    }
}

proof fn lemma_policy_in_extend(
    policies: Seq<McpPolicyOverride>,
    provider: AgentHarnessKind,
    id: Seq<char>,
    j: int,
)
    requires
        0 <= j <= policies.len(),
        policy_in(policies.take(j), provider, id) is Some,
    ensures
        policy_in(policies, provider, id) == policy_in(policies.take(j), provider, id),
    decreases policies.len() - j,
{
    if j == policies.len() {
        assert(policies.take(j) =~= policies);
    } else {
        assert(policies.take(j + 1).drop_last() =~= policies.take(j));
        lemma_policy_in_extend(policies, provider, id, j + 1);
    }
}

/// The snapshot's policy for `key`.
pub fn policy_for<'a>(policies: &'a Vec<McpPolicyOverride>, key: &McpServerKey) -> (r: Option<
    &'a McpPolicyOverride,
>)
    ensures
        opt_ref(r) == policy_in(policies@, key.provider, key.server_id@),
{
    let mut i: usize = 0;
    while i < policies.len()
        invariant
            i <= policies@.len(),
            policy_in(policies@.take(i as int), key.provider, key.server_id@) is None,
        decreases policies.len() - i,
    {
        proof {
            assert(policies@.take(i + 1).drop_last() =~= policies@.take(i as int));
        }
        if policies[i].key.same_as(key) {
            proof {
                lemma_policy_in_extend(policies@, key.provider, key.server_id@, i + 1);
            }
            return Some(&policies[i]);
        }
        i = i + 1;
    }
    assert(policies@.take(policies@.len() as int) =~= policies@);
    None
}

/// Keep a diagnostic unless the cap is reached.
pub fn push_diagnostic(diagnostics: &mut Vec<String>, diagnostic: String)
    ensures
        old(diagnostics)@.len() < MAX_POLICY_DIAGNOSTICS ==> final(diagnostics)@ == old(
            diagnostics,
        )@.push(diagnostic),
        old(diagnostics)@.len() >= MAX_POLICY_DIAGNOSTICS ==> final(diagnostics)@ == old(
            diagnostics,
        )@,
{
    if diagnostics.len() < MAX_POLICY_DIAGNOSTICS {
        diagnostics.push(diagnostic);
    }
}

/// One tool entry of a parsed policy file, with the verdict of the
/// identifier check on its name.
#[derive(Debug)]
pub struct RawPolicyTool {
    pub name: String,
    pub name_check: Result<(), String>,
    pub state: McpOverrideState,
}

/// One server entry of a parsed policy file, with the verdicts of the
/// identifier check on its id and of the policy check on the policy it
/// makes.
#[derive(Debug)]
pub struct RawPolicyServer {
    pub provider: AgentHarnessKind,
    pub server_id: String,
    pub id_check: Result<(), String>,
    pub state: McpOverrideState,
    pub tools: Vec<RawPolicyTool>,
    pub policy_check: Result<(), String>,
}

/// The diagnostics of the tools: each refused name's error, in order.
pub open spec fn tool_diags(ts: Seq<RawPolicyTool>) -> Seq<Seq<char>>
    decreases ts.len(),
{
    if ts.len() == 0 {
        Seq::empty()
    } else {
        tool_diags(ts.drop_last()) + match ts.last().name_check {
            Err(e) => seq![e@],
            Ok(()) => Seq::empty(),
        }
    }
}

/// The tools kept: those whose name passed, as (name, state).
pub open spec fn kept_tools(ts: Seq<RawPolicyTool>) -> Seq<(Seq<char>, McpOverrideState)>
    decreases ts.len(),
{
    if ts.len() == 0 {
        Seq::empty()
    } else {
        kept_tools(ts.drop_last()) + match ts.last().name_check {
            Err(_) => Seq::empty(),
            Ok(()) => seq![(ts.last().name@, ts.last().state)],
        }
    }
}

/// A server's diagnostics: its id's error alone when the id is refused,
/// else its tools' errors and then the policy check's error.
pub open spec fn server_diags(srv: RawPolicyServer) -> Seq<Seq<char>> {
    match srv.id_check {
        Err(e) => seq![e@],
        Ok(()) => tool_diags(srv.tools@) + match srv.policy_check {
            Err(e) => seq![e@],
            Ok(()) => Seq::empty(),
        },
    }
}

pub open spec fn all_diags(ss: Seq<RawPolicyServer>) -> Seq<Seq<char>>
    decreases ss.len(),
{
    if ss.len() == 0 {
        Seq::empty()
    } else {
        all_diags(ss.drop_last()) + server_diags(ss.last())
    }
}

/// A server makes a policy when its id and its policy pass.
pub open spec fn server_kept(srv: RawPolicyServer) -> bool {
    srv.id_check is Ok && srv.policy_check is Ok
}

pub open spec fn kept_servers(ss: Seq<RawPolicyServer>) -> Seq<RawPolicyServer> {
    ss.filter(|srv: RawPolicyServer| server_kept(srv))
}

/// At most the first `MAX_POLICY_DIAGNOSTICS` of `ds`.
pub open spec fn capped(ds: Seq<Seq<char>>) -> Seq<Seq<char>> {
    if ds.len() <= MAX_POLICY_DIAGNOSTICS {
        ds
    } else {
        ds.take(MAX_POLICY_DIAGNOSTICS as int)
    }
}

pub open spec fn tool_pairs(v: Seq<(String, McpOverrideState)>) -> Seq<(Seq<char>, McpOverrideState)> {
    v.map_values(|e: (String, McpOverrideState)| (e.0@, e.1))
}

/// `p` is the policy that server entry `srv` makes.
pub open spec fn policy_from(
    p: McpPolicyOverride,
    srv: RawPolicyServer,
    project_id: Option<Seq<char>>,
    now: i64,
) -> bool {
    &&& opt_view(p.project_id) == project_id
    &&& p.key.provider == srv.provider
    &&& p.key.server_id@ == srv.server_id@
    &&& p.server_state == srv.state
    &&& tool_pairs(p.tool_states@) == kept_tools(srv.tools@)
    &&& p.updated_at == now
}

proof fn lemma_capped_push(ds: Seq<Seq<char>>, x: Seq<char>)
    ensures
        capped(ds + seq![x]) == if capped(ds).len() < MAX_POLICY_DIAGNOSTICS {
            capped(ds).push(x)
        } else {
            capped(ds)
        },
{
    if ds.len() < MAX_POLICY_DIAGNOSTICS {
        assert(ds + seq![x] =~= ds.push(x));
    } else {
        assert((ds + seq![x]).take(MAX_POLICY_DIAGNOSTICS as int) =~= ds.take(MAX_POLICY_DIAGNOSTICS as int));
    }
}

fn push_capped(diagnostics: &mut Vec<String>, d: String, Ghost(all): Ghost<Seq<Seq<char>>>)
    requires
        strings_of(old(diagnostics)@) == capped(all),
    ensures
        strings_of(final(diagnostics)@) == capped(all + seq![d@]),
{
    proof {
        lemma_capped_push(all, d@);
    }
    let ghost before = diagnostics@;
    let ghost dv = d@;
    push_diagnostic(diagnostics, d);
    proof {
        if before.len() < MAX_POLICY_DIAGNOSTICS {
            assert(strings_of(diagnostics@) =~= strings_of(before).push(dv));
        }
    }
}

pub open spec fn strings_of(v: Seq<String>) -> Seq<Seq<char>> {
    v.map_values(|s: String| s@)
}

/// The snapshot of a parsed policy file: a policy for each server whose id
/// and policy pass, holding the tools whose names pass, for `project_id`,
/// stamped `now`; and the errors of every refused id, tool name and policy,
/// in file order, at most `MAX_POLICY_DIAGNOSTICS` of them.
pub fn snapshot_from_servers(servers: &Vec<RawPolicyServer>, project_id: Option<&str>, now: i64) -> (s:
    McpPolicyConfigSnapshot)
    ensures
        strings_of(s.diagnostics@) == capped(all_diags(servers@)),
        s.diagnostics@.len() <= MAX_POLICY_DIAGNOSTICS,
        s.policies@.len() == kept_servers(servers@).len(),
        forall|i: int|
            0 <= i < s.policies@.len() ==> policy_from(
                #[trigger] s.policies@[i],
                kept_servers(servers@)[i],
                match project_id {
                    Some(p) => Some(p@),
                    None => None,
                },
                now,
            ),
{
    let ghost ss = servers@;
    let ghost pv: Option<Seq<char>> = match project_id {
        Some(p) => Some(p@),
        None => None,
    };
    let mut policies: Vec<McpPolicyOverride> = Vec::new();
    let mut diagnostics: Vec<String> = Vec::new();
    let mut i: usize = 0;
    assert(strings_of(diagnostics@) =~= capped(all_diags(ss.take(0))));
    while i < servers.len()
        invariant
            ss == servers@,
            i <= ss.len(),
            strings_of(diagnostics@) == capped(all_diags(ss.take(i as int))),
            policies@.len() == kept_servers(ss.take(i as int)).len(),
            forall|k: int|
                0 <= k < policies@.len() ==> policy_from(
                    #[trigger] policies@[k],
                    kept_servers(ss.take(i as int))[k],
                    pv,
                    now,
                ),
            pv == (match project_id {
                Some(p) => Some(p@),
                None => None::<Seq<char>>,
            }),
        decreases servers.len() - i,
    {
        let srv = &servers[i];
        proof {
            assert(ss.take(i + 1).drop_last() =~= ss.take(i as int));
            assert(ss.take(i + 1).last() == ss[i as int]);
            reveal_with_fuel(Seq::filter, 1);
        }
        let ghost prefix = all_diags(ss.take(i as int));
        let ghost kp = kept_servers(ss.take(i as int));
        match &srv.id_check {
            Err(e) => {
                push_capped(&mut diagnostics, copy_str(e.as_str()), Ghost(prefix));
                proof {
                    assert(kept_servers(ss.take(i + 1)) == kp);
                }
            },
            Ok(()) => {
                let mut tool_states: Vec<(String, McpOverrideState)> = Vec::new();
                let mut j: usize = 0;
                let ghost ts = srv.tools@;
                while j < srv.tools.len()
                    invariant
                        ts == srv.tools@,
                        j <= ts.len(),
                        strings_of(diagnostics@) == capped(prefix + tool_diags(ts.take(j as int))),
                        tool_pairs(tool_states@) == kept_tools(ts.take(j as int)),
                    decreases srv.tools.len() - j,
                {
                    proof {
                        assert(ts.take(j + 1).drop_last() =~= ts.take(j as int));
                        assert(ts.take(j + 1).last() == ts[j as int]);
                    }
                    let t = &srv.tools[j];
                    match &t.name_check {
                        Err(e) => {
                            let ghost acc = prefix + tool_diags(ts.take(j as int));
                            push_capped(&mut diagnostics, copy_str(e.as_str()), Ghost(acc));
                            proof {
                                assert(acc + seq![e@] =~= prefix + tool_diags(ts.take(j + 1)));
                            }
                        },
                        Ok(()) => {
                            let ghost before = tool_states@;
                            let name = copy_str(t.name.as_str());
                            tool_states.push((name, t.state));
                            proof {
                                assert(tool_pairs(tool_states@) =~= tool_pairs(before).push((t.name@, t.state)));
                                assert(kept_tools(ts.take(j + 1)) =~= kept_tools(ts.take(j as int)).push((t.name@, t.state)));
                                assert(tool_diags(ts.take(j + 1)) =~= tool_diags(ts.take(j as int)));
                            }
                        },
                    }
                    j = j + 1;
                }
                proof {
                    assert(ts.take(j as int) =~= ts);
                }
                match &srv.policy_check {
                    Err(e) => {
                        let ghost acc = prefix + tool_diags(ts);
                        push_capped(&mut diagnostics, copy_str(e.as_str()), Ghost(acc));
                        proof {
                            assert(acc + seq![e@] =~= prefix + server_diags(ss[i as int]));
                            assert(kept_servers(ss.take(i + 1)) == kp);
                        }
                    },
                    Ok(()) => {
                        let project = match project_id {
                            Some(p) => Some(copy_str(p)),
                            None => None,
                        };
                        let policy = McpPolicyOverride {
                            project_id: project,
                            key: McpServerKey { provider: srv.provider, server_id: copy_str(srv.server_id.as_str()) },
                            server_state: srv.state,
                            tool_states,
                            updated_at: now,
                        };
                        let ghost before = policies@;
                        policies.push(policy);
                        proof {
                            assert(prefix + tool_diags(ts) =~= prefix + server_diags(ss[i as int]));
                            assert(kept_servers(ss.take(i + 1)) == kp.push(ss[i as int]));
                            assert forall|k: int| 0 <= k < policies@.len() implies policy_from(
                                #[trigger] policies@[k],
                                kept_servers(ss.take(i + 1))[k],
                                pv,
                                now,
                            ) by {
                                if k < before.len() {
                                    assert(policies@[k] == before[k]);
                                }
                            }
                        }
                    },
                }
            },
        }
        i = i + 1;
    }
    proof {
        assert(ss.take(i as int) =~= ss);
        assert(strings_of(diagnostics@).len() == diagnostics@.len());
    }
    McpPolicyConfigSnapshot { policies, diagnostics }
}

/// `Follow` is cleared through the clear operations, never stored.
pub fn reject_follow_update(state: McpOverrideState) -> (r: Result<(), String>)
    ensures
        state == McpOverrideState::Follow ==> (r matches Err(e) && e@
            == "Follow must use the matching clear MCP policy operation"@),
        state != McpOverrideState::Follow ==> r is Ok,
{
    if state == McpOverrideState::Follow {
        return Err(copy_str("Follow must use the matching clear MCP policy operation"));
    }
    Ok(())
}

/// A policy file with diagnostics fails launch closed.
pub fn ensure_valid_policy_config(scope: &str, snapshot: &McpPolicyConfigSnapshot) -> (r: Result<
    (),
    String,
>)
    ensures
        snapshot.diagnostics@.len() == 0 ==> r is Ok,
        snapshot.diagnostics@.len() > 0 ==> (r matches Err(e) && e@ == "Invalid "@ + scope@
            + " MCP policy: "@ + join(snapshot.diagnostics@.map_values(|d: String| d@), "; "@)),
{
    if snapshot.diagnostics.len() == 0 {
        return Ok(());
    }
    let mut e = copy_str("Invalid ");
    push_str(&mut e, scope);
    push_str(&mut e, " MCP policy: ");
    push_joined(&mut e, &snapshot.diagnostics, "; ");
    Err(e)
}


/// The last policy for the server in a list (a later row replaces an
/// earlier one with the same key).
pub open spec fn policy_last_in(
    policies: Seq<McpPolicyOverride>,
    provider: AgentHarnessKind,
    id: Seq<char>,
) -> Option<McpPolicyOverride>
    decreases policies.len(),
{
    if policies.len() == 0 {
        None
    } else if policies.last().key.provider == provider && policies.last().key.server_id@ == id {
        Some(policies.last())
    } else {
        policy_last_in(policies.drop_last(), provider, id)
    }
}

fn policy_last_for<'a>(policies: &'a Vec<McpPolicyOverride>, key: &McpServerKey) -> (r: Option<
    &'a McpPolicyOverride,
>)
    ensures
        opt_ref(r) == policy_last_in(policies@, key.provider, key.server_id@),
{
    let mut i: usize = policies.len();
    assert(policies@.take(i as int) =~= policies@);
    while i > 0
        invariant
            i <= policies@.len(),
            policy_last_in(policies@, key.provider, key.server_id@) == policy_last_in(
                policies@.take(i as int),
                key.provider,
                key.server_id@,
            ),
        decreases i,
    {
        assert(policies@.take(i as int).drop_last() =~= policies@.take(i - 1));
        if policies[i - 1].key.same_as(key) {
            return Some(&policies[i - 1]);
        }
        i = i - 1;
    }
    None
}

/// The text shown when a provider-native server collides with the reserved id.
pub open spec fn reserved_collision_reason(id: Seq<char>) -> Seq<char> {
    "Native provider configuration already defines reserved server ID '"@ + id + "'"@
}

/// The fixed policy of RalphX's own server: required, locked, and disabled
/// only when a provider-native server already uses the reserved id.
pub open spec fn is_reserved_policy(e: EffectiveMcpServerPolicy, native: NativeMcpServerSnapshot) -> bool {
    let collision = opt_view(native.native_scope) != Some("ralphx"@);
    &&& e.enabled == !collision
    &&& e.server_state == McpOverrideState::Enabled
    &&& e.server_source == McpPolicySource::RequiredInternal
    &&& e.tool_states@.len() == 0
    &&& e.tool_sources@.len() == 0
    &&& e.disabled_tools@.len() == 0
    &&& e.locked
    &&& opt_view(e.locked_reason) == Some(
        if collision {
            reserved_collision_reason(native.key.server_id@)
        } else {
            "Required by RalphX"@
        },
    )
    &&& e.native.key == native.key
    &&& e.native.native_scope == native.native_scope
    &&& e.native.known_tools == native.known_tools
    &&& e.native.native_state == (if collision {
        NativeMcpState::Unavailable
    } else {
        native.native_state
    })
    &&& opt_view(e.native.diagnostic) == (if collision {
        Some(
            "Remove or rename the provider-native server that collides with this reserved RalphX ID. RalphX will not overwrite it."@,
        )
    } else {
        opt_view(native.diagnostic)
    })
}

/// The policy of RalphX's own (reserved) server.
pub fn reserved_policy(native: NativeMcpServerSnapshot) -> (e: EffectiveMcpServerPolicy)
    ensures
        is_reserved_policy(e, native),
{
    proof {
        reveal_strlit("ralphx");
        reveal_strlit("Required by RalphX");
    }
    let collision = match &native.native_scope {
        Some(scope) => !str_eq(scope.as_str(), "ralphx"),
        None => true,
    };
    let locked_reason = if collision {
        let mut r = copy_str("Native provider configuration already defines reserved server ID '");
        push_str(&mut r, native.key.server_id.as_str());
        push_str(&mut r, "'");
        r
    } else {
        copy_str("Required by RalphX")
    };
    let native_state = if collision {
        NativeMcpState::Unavailable
    } else {
        native.native_state
    };
    let diagnostic = if collision {
        Some(
            copy_str(
                "Remove or rename the provider-native server that collides with this reserved RalphX ID. RalphX will not overwrite it.",
            ),
        )
    } else {
        native.diagnostic
    };
    EffectiveMcpServerPolicy {
        enabled: !collision,
        server_state: McpOverrideState::Enabled,
        server_source: McpPolicySource::RequiredInternal,
        tool_states: Vec::new(),
        tool_sources: Vec::new(),
        disabled_tools: Vec::new(),
        locked: true,
        locked_reason: Some(locked_reason),
        native: NativeMcpServerSnapshot {
            key: native.key,
            native_scope: native.native_scope,
            native_state,
            known_tools: native.known_tools,
            diagnostic,
        },
    }
}

/// The policy in force for a provider-reported server, given the loaded
/// YAML files and the stored UI overrides: RalphX's own server is fixed;
/// every other server goes through the four layers.
pub fn resolve_policy(
    native: NativeMcpServerSnapshot,
    global_yaml: &McpPolicyConfigSnapshot,
    global_ui: Option<&McpPolicyOverride>,
    project_ui: Option<&McpPolicyOverride>,
    project_yaml: &McpPolicyConfigSnapshot,
) -> (e: EffectiveMcpServerPolicy)
    ensures
        is_reserved_server_id(native.key.server_id@) ==> is_reserved_policy(e, native),
        !is_reserved_server_id(native.key.server_id@) ==> is_layered_policy(
            e,
            native,
            effective_layers(
                policy_in(global_yaml.policies@, native.key.provider, native.key.server_id@),
                opt_ref(global_ui),
                policy_in(project_yaml.policies@, native.key.provider, native.key.server_id@),
                opt_ref(project_ui),
            ),
        ),
{
    if native.key.is_ralphx_owned() {
        return reserved_policy(native);
    }
    let global = policy_for(&global_yaml.policies, &native.key);
    resolve_layers(native, global, global_ui, None, project_ui, Some(project_yaml))
}

/// Servers disabled at launch and, per server, the tools disabled at launch.
#[derive(Debug)]
pub struct McpLaunchPolicy {
    pub disabled_servers: Vec<String>,
    pub disabled_tools: Vec<(String, Vec<String>)>,
}

/// The ids of the non-reserved servers of `provider` that a list names, in
/// list order.
pub open spec fn provider_ids(policies: Seq<McpPolicyOverride>, provider: AgentHarnessKind) -> Seq<
    Seq<char>,
>
    decreases policies.len(),
{
    if policies.len() == 0 {
        Seq::empty()
    } else {
        let rest = provider_ids(policies.drop_last(), provider);
        let p = policies.last();
        if p.key.provider == provider && !is_reserved_server_id(p.key.server_id@) {
            rest.push(p.key.server_id@)
        } else {
            rest
        }
    }
}

/// Every server id that one of the four layers names for `provider`.
pub open spec fn launch_ids(
    provider: AgentHarnessKind,
    global_yaml: Seq<McpPolicyOverride>,
    global_ui: Seq<McpPolicyOverride>,
    project_yaml: Seq<McpPolicyOverride>,
    project_ui: Seq<McpPolicyOverride>,
) -> Set<Seq<char>> {
    (provider_ids(global_yaml, provider) + provider_ids(global_ui, provider) + provider_ids(
        project_yaml,
        provider,
    ) + provider_ids(project_ui, provider)).to_set()
}

/// The four layers that decide server `id` at launch.
pub open spec fn launch_layers(
    provider: AgentHarnessKind,
    id: Seq<char>,
    global_yaml: Seq<McpPolicyOverride>,
    global_ui: Seq<McpPolicyOverride>,
    project_yaml: Seq<McpPolicyOverride>,
    project_ui: Seq<McpPolicyOverride>,
) -> Seq<Option<McpPolicyOverride>> {
    effective_layers(
        policy_in(global_yaml, provider, id),
        policy_last_in(global_ui, provider, id),
        policy_in(project_yaml, provider, id),
        policy_last_in(project_ui, provider, id),
    )
}

/// `e` is the launch-time policy of server `id`: a server the provider has
/// not reported, resolved through `layers`.
pub open spec fn is_launch_resolution(
    e: EffectiveMcpServerPolicy,
    provider: AgentHarnessKind,
    id: Seq<char>,
    layers: Seq<Option<McpPolicyOverride>>,
) -> bool {
    &&& e.native.key.provider == provider
    &&& e.native.key.server_id@ == id
    &&& e.native.native_scope is None
    &&& e.native.native_state == NativeMcpState::Unknown
    &&& e.native.known_tools@.len() == 0
    &&& e.native.diagnostic is None
    &&& is_layered_policy(e, e.native, layers)
}

/// The servers of `ids` whose resolution is disabled, in order.
pub open spec fn disabled_servers_of(ids: Seq<Seq<char>>, es: Seq<EffectiveMcpServerPolicy>) -> Seq<
    Seq<char>,
>
    decreases ids.len(),
{
    if ids.len() == 0 || es.len() == 0 {
        Seq::empty()
    } else {
        let rest = disabled_servers_of(ids.drop_last(), es.drop_last());
        if !es.last().enabled {
            rest.push(ids.last())
        } else {
            rest
        }
    }
}

/// The servers of `ids` with disabled tools, each with those tools, in order.
pub open spec fn disabled_tools_of(ids: Seq<Seq<char>>, es: Seq<EffectiveMcpServerPolicy>) -> Seq<
    (Seq<char>, Seq<String>),
>
    decreases ids.len(),
{
    if ids.len() == 0 || es.len() == 0 {
        Seq::empty()
    } else {
        let rest = disabled_tools_of(ids.drop_last(), es.drop_last());
        if es.last().disabled_tools@.len() > 0 {
            rest.push((ids.last(), es.last().disabled_tools@))
        } else {
            rest
        }
    }
}

/// Add the ids that `policies` names for `provider` to a sorted id list.
fn add_provider_ids(
    ids: &mut Vec<String>,
    policies: &Vec<McpPolicyOverride>,
    provider: AgentHarnessKind,
    Ghost(base): Ghost<Seq<Seq<char>>>,
)
    requires
        sorted_strict(old(ids)@.map_values(|s: String| s@)),
        old(ids)@.map_values(|s: String| s@).no_duplicates(),
        old(ids)@.map_values(|s: String| s@).to_set() == base.to_set(),
    ensures
        sorted_strict(final(ids)@.map_values(|s: String| s@)),
        final(ids)@.map_values(|s: String| s@).no_duplicates(),
        final(ids)@.map_values(|s: String| s@).to_set() == (base + provider_ids(
            policies@,
            provider,
        )).to_set(),
{
    let mut j: usize = 0;
    while j < policies.len()
        invariant
            j <= policies@.len(),
            sorted_strict(ids@.map_values(|s: String| s@)),
            ids@.map_values(|s: String| s@).no_duplicates(),
            ids@.map_values(|s: String| s@).to_set() == (base + provider_ids(
                policies@.take(j as int),
                provider,
            )).to_set(),
        decreases policies.len() - j,
    {
        let ghost prev = provider_ids(policies@.take(j as int), provider);
        assert(policies@.take(j + 1).drop_last() =~= policies@.take(j as int));
        let key = &policies[j].key;
        if key.provider == provider && !key.is_ralphx_owned() {
            insert_sorted(ids, key.server_id.as_str());
            proof {
                assert(base + prev.push(key.server_id@) =~= (base + prev).push(key.server_id@));
                (base + prev).lemma_push_to_set_commute(key.server_id@);
            }
        }
        j = j + 1;
    }
    assert(policies@.take(policies@.len() as int) =~= policies@);
}

/// What `launch_policy` returns for valid configuration: the ids are the
/// sorted server ids, each resolved as a server the provider has not reported.
pub open spec fn is_launch_policy(
    r: McpLaunchPolicy,
    provider: AgentHarnessKind,
    global_yaml: Seq<McpPolicyOverride>,
    global_ui: Seq<McpPolicyOverride>,
    project_yaml: Seq<McpPolicyOverride>,
    project_ui: Seq<McpPolicyOverride>,
) -> bool {
    exists|ids: Seq<Seq<char>>, es: Seq<EffectiveMcpServerPolicy>|
        {
            &&& ids.len() == es.len()
            &&& sorted_strict(ids)
            &&& ids.no_duplicates()
            &&& ids.to_set() == launch_ids(provider, global_yaml, global_ui, project_yaml, project_ui)
            &&& forall|i: int|
                0 <= i < ids.len() ==> is_launch_resolution(
                    #[trigger] es[i],
                    provider,
                    ids[i],
                    launch_layers(provider, ids[i], global_yaml, global_ui, project_yaml, project_ui),
                )
            &&& r.disabled_servers@.map_values(|s: String| s@) == disabled_servers_of(ids, es)
            &&& r.disabled_tools@.map_values(|e: (String, Vec<String>)| (e.0@, e.1@))
                == disabled_tools_of(ids, es)
        }
}

/// The launch-time MCP policy of `provider`: both policy files must be free
/// of diagnostics; then every server that a layer names for the provider
/// (RalphX's own server aside) is resolved, in id order.
pub fn launch_policy(
    provider: AgentHarnessKind,
    global_yaml: &McpPolicyConfigSnapshot,
    global_ui: &Vec<McpPolicyOverride>,
    project_yaml: &McpPolicyConfigSnapshot,
    project_ui: &Vec<McpPolicyOverride>,
) -> (r: Result<McpLaunchPolicy, String>)
    ensures
        global_yaml.diagnostics@.len() > 0 ==> (r matches Err(e) && e@ == "Invalid "@ + "global"@
            + " MCP policy: "@ + join(global_yaml.diagnostics@.map_values(|d: String| d@), "; "@)),
        global_yaml.diagnostics@.len() == 0 && project_yaml.diagnostics@.len() > 0 ==> (r matches Err(
            e,
        ) && e@ == "Invalid "@ + "project"@ + " MCP policy: "@ + join(
            project_yaml.diagnostics@.map_values(|d: String| d@),
            "; "@,
        )),
        global_yaml.diagnostics@.len() == 0 && project_yaml.diagnostics@.len() == 0 ==> (r matches Ok(
            p,
        ) && is_launch_policy(
            p,
            provider,
            global_yaml.policies@,
            global_ui@,
            project_yaml.policies@,
            project_ui@,
        )),
{
    match ensure_valid_policy_config("global", global_yaml) {
        Ok(()) => {},
        Err(e) => {
            return Err(e);
        },
    }
    match ensure_valid_policy_config("project", project_yaml) {
        Ok(()) => {},
        Err(e) => {
            return Err(e);
        },
    }
    let ghost gy = global_yaml.policies@;
    let ghost gu = global_ui@;
    let ghost py = project_yaml.policies@;
    let ghost pu = project_ui@;
    let mut ids: Vec<String> = Vec::new();
    assert(ids@.map_values(|s: String| s@).to_set() =~= Seq::<Seq<char>>::empty().to_set());
    add_provider_ids(&mut ids, &global_yaml.policies, provider, Ghost(Seq::empty()));
    assert(Seq::<Seq<char>>::empty() + provider_ids(gy, provider) =~= provider_ids(gy, provider));
    add_provider_ids(&mut ids, global_ui, provider, Ghost(provider_ids(gy, provider)));
    add_provider_ids(
        &mut ids,
        &project_yaml.policies,
        provider,
        Ghost(provider_ids(gy, provider) + provider_ids(gu, provider)),
    );
    add_provider_ids(
        &mut ids,
        project_ui,
        provider,
        Ghost(provider_ids(gy, provider) + provider_ids(gu, provider) + provider_ids(py, provider)),
    );
    let ghost names = ids@.map_values(|s: String| s@);
    let mut disabled_servers: Vec<String> = Vec::new();
    let mut disabled_tools: Vec<(String, Vec<String>)> = Vec::new();
    let ghost mut es: Seq<EffectiveMcpServerPolicy> = Seq::empty();
    let mut k: usize = 0;
    while k < ids.len()
        invariant
            k <= ids@.len(),
            names == ids@.map_values(|s: String| s@),
            gy == global_yaml.policies@,
            gu == global_ui@,
            py == project_yaml.policies@,
            pu == project_ui@,
            es.len() == k,
            forall|i: int|
                0 <= i < k ==> is_launch_resolution(
                    #[trigger] es[i],
                    provider,
                    names[i],
                    launch_layers(provider, names[i], gy, gu, py, pu),
                ),
            disabled_servers@.map_values(|s: String| s@) == disabled_servers_of(
                names.take(k as int),
                es,
            ),
            disabled_tools@.map_values(|e: (String, Vec<String>)| (e.0@, e.1@)) == disabled_tools_of(
                names.take(k as int),
                es,
            ),
        decreases ids.len() - k,
    {
        let key = McpServerKey { provider, server_id: copy_str(ids[k].as_str()) };
        let gy_p = policy_for(&global_yaml.policies, &key);
        let gu_p = policy_last_for(global_ui, &key);
        let py_p = policy_for(&project_yaml.policies, &key);
        let pu_p = policy_last_for(project_ui, &key);
        let native = NativeMcpServerSnapshot {
            key,
            native_scope: None,
            native_state: NativeMcpState::Unknown,
            known_tools: Vec::new(),
            diagnostic: None,
        };
        let e = resolve_layers(native, gy_p, gu_p, py_p, pu_p, None);
        let ghost before_servers = disabled_servers@;
        let ghost before_tools = disabled_tools@;
        let ghost es_before = es;
        proof {
            es = es.push(e);
            assert(es.drop_last() =~= es_before);
            assert(names.take(k + 1).drop_last() =~= names.take(k as int));
            assert(names.take(k + 1).last() == names[k as int]);
        }
        if !e.enabled {
            disabled_servers.push(copy_str(ids[k].as_str()));
            proof {
                assert(disabled_servers@.map_values(|s: String| s@) =~= before_servers.map_values(
                    |s: String| s@,
                ).push(names[k as int]));
            }
        }
        if e.disabled_tools.len() > 0 {
            disabled_tools.push((copy_str(ids[k].as_str()), e.disabled_tools));
            proof {
                assert(disabled_tools@.map_values(|e: (String, Vec<String>)| (e.0@, e.1@))
                    =~= before_tools.map_values(|e: (String, Vec<String>)| (e.0@, e.1@)).push(
                    (names[k as int], es.last().disabled_tools@),
                ));
            }
        }
        k = k + 1;
    }
    proof {
        assert(names.take(names.len() as int) =~= names);
        assert(launch_ids(provider, gy, gu, py, pu) == (provider_ids(gy, provider) + provider_ids(
            gu,
            provider,
        ) + provider_ids(py, provider) + provider_ids(pu, provider)).to_set());
    }
    Ok(McpLaunchPolicy { disabled_servers, disabled_tools })
}

/// `base` joined with the relative component `name`, as a path.
pub open spec fn join_path(base: Seq<char>, name: Seq<char>) -> Seq<char> {
    if base.len() == 0 {
        name
    } else if base.last() == '/' {
        base + name
    } else {
        base + "/"@ + name
    }
}

/// The provider's native configuration root: the home itself for the
/// Anthropic harness; for
/// Codex, `CODEX_HOME` from the provider's own environment, else from the
/// login shell, else `.codex` under the home.
pub open spec fn native_config_root(
    provider: AgentHarnessKind,
    default_home: Seq<char>,
    shell_env: Seq<(String, String)>,
    provider_env: Seq<(String, String)>,
) -> Seq<char> {
    match provider {
        AgentHarnessKind::Claude => default_home,
        AgentHarnessKind::Codex => match env_lookup(env_view(provider_env), "CODEX_HOME"@) {
            Some(v) => v,
            None => match env_lookup(env_view(shell_env), "CODEX_HOME"@) {
                Some(v) => v,
                None => join_path(default_home, ".codex"@),
            },
        },
    }
}

pub fn resolve_provider_native_config_root(
    provider: AgentHarnessKind,
    default_home: &str,
    shell_env: &Vec<(String, String)>,
    provider_env: &Vec<(String, String)>,
) -> (r: Result<String, String>)
    ensures
        ({
            let root = native_config_root(provider, default_home@, shell_env@, provider_env@);
            &&& r is Ok <==> absolute_non_root(root)
            &&& r matches Ok(p) ==> p@ == root
            &&& r matches Err(e) ==> e@ == absolute_non_root_error(
                harness_name(provider) + " native MCP config root"@,
                root,
            )
        }),
{
    let root = native_config_root_path(provider, default_home, shell_env, provider_env);
    let mut label = copy_str(provider.as_str());
    push_str(&mut label, " native MCP config root");
    validate_absolute_non_root_path(root.as_str(), label.as_str())
}

fn native_config_root_path(
    provider: AgentHarnessKind,
    default_home: &str,
    shell_env: &Vec<(String, String)>,
    provider_env: &Vec<(String, String)>,
) -> (r: String)
    ensures
        r@ == native_config_root(provider, default_home@, shell_env@, provider_env@),
{
    proof {
        reveal_strlit("CODEX_HOME");
        reveal_strlit(".codex");
        reveal_strlit("/");
    }
    match provider {
        AgentHarnessKind::Claude => copy_str(default_home),
        AgentHarnessKind::Codex => {
            match env_get(provider_env, "CODEX_HOME") {
                Some(v) => {
                    return v;
                },
                None => {},
            }
            match env_get(shell_env, "CODEX_HOME") {
                Some(v) => {
                    return v;
                },
                None => {},
            }
            let chars = chars_of(default_home);
            if chars.len() == 0 {
                return copy_str(".codex");
            }
            let mut out = copy_str(default_home);
            if chars[chars.len() - 1] != '/' {
                push_str(&mut out, "/");
            }
            push_str(&mut out, ".codex");
            out
        },
    }
}

/// The parent of a path, as `std::path::Path::parent` computes it.
pub uninterp spec fn path_parent(path: Seq<char>) -> Option<Seq<char>>;

/// The last component of a path, as `std::path::Path::file_name` computes it.
pub uninterp spec fn path_file_name(path: Seq<char>) -> Option<Seq<char>>;

/// Calls `std::path::Path::parent`; claims only that the result is a
/// function of the path.
#[verifier::external_body]
fn parent_of(path: &str) -> (r: Option<String>)
    ensures
        opt_view(r) == path_parent(path@),
{
    std::path::Path::new(path).parent().map(|p| p.to_string_lossy().into_owned())
}

/// Calls `std::path::Path::file_name`; claims only that the result is a
/// function of the path.
#[verifier::external_body]
fn file_name_of(path: &str) -> (r: Option<String>)
    ensures
        opt_view(r) == path_file_name(path@),
{
    std::path::Path::new(path).file_name().map(|n| n.to_string_lossy().into_owned())
}

/// The provider home, from the policy file's directory (`root`), that
/// directory's last component and its parent: the directory itself, or its
/// parent when the directory is `.ralphx`.
pub fn provider_home_from_parts(
    root: Option<String>,
    root_file_name: Option<String>,
    root_parent: Option<String>,
) -> (r: Result<String, String>)
    ensures
        root is None ==> (r matches Err(e) && e@ == "Global MCP policy has no owned root"@),
        root matches Some(dir) ==> {
            if opt_view(root_file_name) == Some(".ralphx"@) {
                match root_parent {
                    Some(home) => r matches Ok(h) && h@ == home@,
                    None => r matches Err(e) && e@ == "Global MCP policy has no provider home"@,
                }
            } else {
                r matches Ok(h) && h@ == dir@
            }
        },
{
    proof {
        reveal_strlit(".ralphx");
    }
    let dir = match root {
        Some(dir) => dir,
        None => {
            return Err(copy_str("Global MCP policy has no owned root"));
        },
    };
    let is_ralphx_dir = match &root_file_name {
        Some(name) => str_eq(name.as_str(), ".ralphx"),
        None => false,
    };
    if is_ralphx_dir {
        match root_parent {
            Some(home) => Ok(home),
            None => Err(copy_str("Global MCP policy has no provider home")),
        }
    } else {
        Ok(dir)
    }
}

/// The provider home that owns the global policy file: the file's directory,
/// or that directory's parent when the directory is `.ralphx`.
pub fn default_provider_home(global_policy_path: &str) -> (r: Result<String, String>)
    ensures
        path_parent(global_policy_path@) is None ==> (r matches Err(e) && e@
            == "Global MCP policy has no owned root"@),
        path_parent(global_policy_path@) matches Some(root) ==> {
            if path_file_name(root) == Some(".ralphx"@) {
                match path_parent(root) {
                    Some(home) => r matches Ok(h) && h@ == home,
                    None => r matches Err(e) && e@ == "Global MCP policy has no provider home"@,
                }
            } else {
                r matches Ok(h) && h@ == root
            }
        },
{
    let root = parent_of(global_policy_path);
    let (name, parent) = match &root {
        Some(dir) => (file_name_of(dir.as_str()), parent_of(dir.as_str())),
        None => (None, None),
    };
    provider_home_from_parts(root, name, parent)
}


/// The names of a policy's disabled tools.
pub open spec fn disabled_names(e: EffectiveMcpServerPolicy) -> Seq<Seq<char>> {
    e.disabled_tools@.map_values(|d: String| d@)
}

proof fn lemma_tool_follow_is_native(layers: Seq<Option<McpPolicyOverride>>, t: Seq<char>, n: int)
    requires
        0 <= n <= 4,
        layers.len() == 4,
    ensures
        (tool_outcome(layers, t, n).0 == McpOverrideState::Follow) == (tool_outcome(layers, t, n).1
            == McpPolicySource::ProviderNative),
    decreases n,
{
    if n > 0 {
        lemma_tool_follow_is_native(layers, t, n - 1);
    }
}

proof fn lemma_server_follow_is_native(layers: Seq<Option<McpPolicyOverride>>, n: int)
    requires
        0 <= n <= 4,
        layers.len() == 4,
    ensures
        (server_outcome(layers, n).1 == McpOverrideState::Follow) == (server_outcome(layers, n).2
            == McpPolicySource::ProviderNative),
    decreases n,
{
    if n > 0 {
        lemma_server_follow_is_native(layers, n - 1);
    }
}

/// The shape of every layered policy: its tools are the provider's known
/// tools and every tool a layer names, each once, with a state and a source
/// for each; a tool, and the server, follow exactly when the provider's
/// native state is their source; and the disabled tools are in strictly
/// ascending order, exactly the tools whose state is disabled.
pub proof fn law_layered_policy_shape(
    e: EffectiveMcpServerPolicy,
    native: NativeMcpServerSnapshot,
    layers: Seq<Option<McpPolicyOverride>>,
)
    requires
        layers.len() == 4,
        is_layered_policy(e, native, layers),
    ensures
        names_of(e.tool_states@).to_set() == tool_names_upto(native.known_tools@, layers, 4).to_set(),
        names_of(e.tool_states@).no_duplicates(),
        names_of(e.tool_sources@) == names_of(e.tool_states@),
        forall|i: int|
            0 <= i < e.tool_states@.len() ==> ((#[trigger] e.tool_states@[i]).1
                == McpOverrideState::Follow) == (e.tool_sources@[i].1 == McpPolicySource::ProviderNative),
        (e.server_state == McpOverrideState::Follow) == (e.server_source
            == McpPolicySource::ProviderNative),
        sorted_pairwise(disabled_names(e)),
        forall|t: Seq<char>|
            #[trigger] disabled_names(e).contains(t) <==> exists|i: int|
                0 <= i < e.tool_states@.len() && (#[trigger] e.tool_states@[i]).0@ == t
                    && e.tool_states@[i].1 == McpOverrideState::Disabled,
{
    let tools = names_of(e.tool_states@);
    let pred = |t: Seq<char>| tool_outcome(layers, t, 4).0 == McpOverrideState::Disabled;
    let disabled = disabled_names(e);
    assert(disabled == tools.filter(pred));
    lemma_server_follow_is_native(layers, 4);
    assert forall|i: int| 0 <= i < e.tool_states@.len() implies ((#[trigger] e.tool_states@[i]).1
        == McpOverrideState::Follow) == (e.tool_sources@[i].1 == McpPolicySource::ProviderNative) by {
        assert(tools[i] == e.tool_states@[i].0@);
        lemma_tool_follow_is_native(layers, tools[i], 4);
    }
    lemma_sorted_pairwise(tools);
    lemma_filter_sorted(tools, pred);
    assert forall|t: Seq<char>|
        #[trigger] disabled.contains(t) <==> exists|i: int|
            0 <= i < e.tool_states@.len() && (#[trigger] e.tool_states@[i]).0@ == t
                && e.tool_states@[i].1 == McpOverrideState::Disabled by {
        if disabled.contains(t) {
            let k = choose|k: int| 0 <= k < disabled.len() && disabled[k] == t;
            assert(tools.contains(tools.filter(pred)[k]));
            let m = choose|m: int| 0 <= m < tools.len() && tools[m] == t;
            assert(tools[m] == e.tool_states@[m].0@);
            tools.lemma_filter_pred(pred, k);
        }
        if exists|i: int|
            0 <= i < e.tool_states@.len() && (#[trigger] e.tool_states@[i]).0@ == t
                && e.tool_states@[i].1 == McpOverrideState::Disabled {
            let i = choose|i: int|
                0 <= i < e.tool_states@.len() && (#[trigger] e.tool_states@[i]).0@ == t
                    && e.tool_states@[i].1 == McpOverrideState::Disabled;
            assert(tools[i] == t);
            tools.lemma_filter_contains(pred, i);
        }
    }
}

/// A server is never enabled beyond what the provider's native state
/// allows, whatever the layers request.
pub proof fn law_native_state_bounds_enablement(
    e: EffectiveMcpServerPolicy,
    native: NativeMcpServerSnapshot,
    layers: Seq<Option<McpPolicyOverride>>,
)
    requires
        is_layered_policy(e, native, layers),
    ensures
        e.enabled ==> permits_launch(native.native_state),
        !permits_launch(native.native_state) ==> !e.enabled,
{
}

/// When no layer takes a position on the server, the provider's native
/// state decides and the source is the provider.
pub proof fn law_all_follow_defers_to_native(layers: Seq<Option<McpPolicyOverride>>)
    requires
        layers.len() == 4,
        forall|i: int| 0 <= i < 4 ==> layer_state(#[trigger] layers[i]) == McpOverrideState::Follow,
    ensures
        server_outcome(layers, 4) == (true, McpOverrideState::Follow, McpPolicySource::ProviderNative),
{
    assert(layer_state(layers[0]) == McpOverrideState::Follow);
    assert(server_outcome(layers, 1) == server_outcome(layers, 0));
    assert(layer_state(layers[1]) == McpOverrideState::Follow);
    assert(server_outcome(layers, 2) == server_outcome(layers, 1));
    assert(layer_state(layers[2]) == McpOverrideState::Follow);
    assert(server_outcome(layers, 3) == server_outcome(layers, 2));
    assert(layer_state(layers[3]) == McpOverrideState::Follow);
    assert(server_outcome(layers, 4) == server_outcome(layers, 3));
}

proof fn lemma_later_follow_keeps_outcome(layers: Seq<Option<McpPolicyOverride>>, i: int, n: int)
    requires
        0 <= i < n <= 4,
        layers.len() == 4,
        forall|j: int| i < j < 4 ==> layer_state(#[trigger] layers[j]) == McpOverrideState::Follow,
    ensures
        server_outcome(layers, n) == server_outcome(layers, i + 1),
    decreases n - i,
{
    if n > i + 1 {
        lemma_later_follow_keeps_outcome(layers, i, n - 1);
        assert(layer_state(layers[n - 1]) == McpOverrideState::Follow);
    }
}

/// The highest layer that takes a position on the server decides it: its
/// request and its source are the outcome.
pub proof fn law_highest_deciding_layer_wins(layers: Seq<Option<McpPolicyOverride>>, i: int)
    requires
        layers.len() == 4,
        0 <= i < 4,
        layer_state(layers[i]) != McpOverrideState::Follow,
        forall|j: int| i < j < 4 ==> layer_state(#[trigger] layers[j]) == McpOverrideState::Follow,
    ensures
        server_outcome(layers, 4).0 == (layer_state(layers[i]) == McpOverrideState::Enabled),
        server_outcome(layers, 4).1 == layer_state(layers[i]),
        server_outcome(layers, 4).2 == layer_sources()[i],
{
    lemma_later_follow_keeps_outcome(layers, i, 4);
}

proof fn lemma_later_tool_follow_keeps_outcome(
    layers: Seq<Option<McpPolicyOverride>>,
    t: Seq<char>,
    i: int,
    n: int,
)
    requires
        0 <= i < n <= 4,
        layers.len() == 4,
        forall|j: int|
            i < j < 4 ==> (#[trigger] layer_tool(layers[j], t) is None || layer_tool(layers[j], t)
                == Some(McpOverrideState::Follow)),
    ensures
        tool_outcome(layers, t, n) == tool_outcome(layers, t, i + 1),
    decreases n - i,
{
    if n > i + 1 {
        lemma_later_tool_follow_keeps_outcome(layers, t, i, n - 1);
        assert(layer_tool(layers[n - 1], t) is None || layer_tool(layers[n - 1], t) == Some(
            McpOverrideState::Follow,
        ));
    }
}

/// Each tool is decided on its own: the highest layer with a non-follow
/// entry for that tool decides it, whatever the layers say of the server.
pub proof fn law_tool_decided_by_highest_entry(
    layers: Seq<Option<McpPolicyOverride>>,
    t: Seq<char>,
    i: int,
)
    requires
        layers.len() == 4,
        0 <= i < 4,
        layer_tool(layers[i], t) matches Some(s) && s != McpOverrideState::Follow,
        forall|j: int|
            i < j < 4 ==> (#[trigger] layer_tool(layers[j], t) is None || layer_tool(layers[j], t)
                == Some(McpOverrideState::Follow)),
    ensures
        Some(tool_outcome(layers, t, 4).0) == layer_tool(layers[i], t),
        tool_outcome(layers, t, 4).1 == layer_sources()[i],
{
    lemma_later_tool_follow_keeps_outcome(layers, t, i, 4);
}

} // verus!
