//! Team intents and whether a conversation runs with the RX-native Team
//! overlay.
use vstd::prelude::*;

use crate::agents::{harness_name, AgentHarnessKind};
use crate::text::{copy_str, push_str, str_eq};

verus! {

/// How a conversation coordinates its work.
#[derive(Debug, Clone, Copy, PartialEq, Eq, Structural)]
pub enum CoordinationMode {
    Solo,
    RxNativeTeam,
    RxNativeWorkflow,
    CodexNativeUltra,
}

pub open spec fn coordination_mode_name(m: CoordinationMode) -> Seq<char> {
    match m {
        CoordinationMode::Solo => "solo"@,
        CoordinationMode::RxNativeTeam => "rx_native_team"@,
        CoordinationMode::RxNativeWorkflow => "rx_native_workflow"@,
        CoordinationMode::CodexNativeUltra => "codex_native_ultra"@,
    }
}

/// The error for text that names no coordination mode.
pub open spec fn invalid_mode_error(value: Seq<char>) -> Seq<char> {
    "Invalid coordination mode '"@ + value
        + "'. Valid values: solo, rx_native_team, rx_native_workflow, codex_native_ultra"@
}

impl CoordinationMode {
    /// The wire name of the mode (its `Display` form).
    pub fn as_str(self) -> (s: &'static str)
        ensures
            s@ == coordination_mode_name(self),
    {
        match self {
            CoordinationMode::Solo => "solo",
            CoordinationMode::RxNativeTeam => "rx_native_team",
            CoordinationMode::RxNativeWorkflow => "rx_native_workflow",
            CoordinationMode::CodexNativeUltra => "codex_native_ultra",
        }
    }

    /// The mode a wire name names (`FromStr`).
    pub fn parse(value: &str) -> (r: Result<CoordinationMode, String>)
        ensures
            match r {
                Ok(m) => coordination_mode_name(m) == value@,
                Err(e) => e@ == invalid_mode_error(value@) && forall|m: CoordinationMode|
                    coordination_mode_name(m) != value@,
            },
    {
        proof {
            reveal_strlit("solo");
            reveal_strlit("rx_native_team");
            reveal_strlit("rx_native_workflow");
            reveal_strlit("codex_native_ultra");
        }
        if str_eq(value, "solo") {
            Ok(CoordinationMode::Solo)
        } else if str_eq(value, "rx_native_team") {
            Ok(CoordinationMode::RxNativeTeam)
        } else if str_eq(value, "rx_native_workflow") {
            Ok(CoordinationMode::RxNativeWorkflow)
        } else if str_eq(value, "codex_native_ultra") {
            Ok(CoordinationMode::CodexNativeUltra)
        } else {
            let mut e = copy_str("Invalid coordination mode '");
            push_str(&mut e, value);
            push_str(
                &mut e,
                "'. Valid values: solo, rx_native_team, rx_native_workflow, codex_native_ultra",
            );
            assert forall|m: CoordinationMode| coordination_mode_name(m) != value@ by {
                match m {
                    CoordinationMode::Solo => {},
                    CoordinationMode::RxNativeTeam => {},
                    CoordinationMode::RxNativeWorkflow => {},
                    CoordinationMode::CodexNativeUltra => {},
                }
            }
            Err(e)
        }
    }
}

/// How a Team splits its work.
#[derive(Debug, Clone, Copy, PartialEq, Eq, Structural)]
pub enum TeamIntentStrategy {
    Research,
    Debate,
    Execution,
}

pub open spec fn strategy_name(s: TeamIntentStrategy) -> Seq<char> {
    match s {
        TeamIntentStrategy::Research => "research"@,
        TeamIntentStrategy::Debate => "debate"@,
        TeamIntentStrategy::Execution => "execution"@,
    }
}

impl TeamIntentStrategy {
    pub fn as_str(self) -> (s: &'static str)
        ensures
            s@ == strategy_name(self),
    {
        match self {
            TeamIntentStrategy::Research => "research",
            TeamIntentStrategy::Debate => "debate",
            TeamIntentStrategy::Execution => "execution",
        }
    }
}

/// What a conversation asks of Team coordination.
#[derive(Debug, Clone, Copy, PartialEq, Eq, Structural)]
pub struct TeamIntent {
    pub coordination_mode: CoordinationMode,
    pub strategy: Option<TeamIntentStrategy>,
}

impl TeamIntent {
    /// Solo, with no strategy.
    pub fn solo() -> (t: Self)
        ensures
            t.coordination_mode == CoordinationMode::Solo,
            t.strategy is None,
    {
        TeamIntent { coordination_mode: CoordinationMode::Solo, strategy: None }
    }

    /// An RX-native Team with an optional strategy.
    pub fn rx_native(strategy: Option<TeamIntentStrategy>) -> (t: Self)
        ensures
            t.coordination_mode == CoordinationMode::RxNativeTeam,
            t.strategy == strategy,
    {
        TeamIntent { coordination_mode: CoordinationMode::RxNativeTeam, strategy }
    }

    pub fn is_solo(&self) -> (b: bool)
        ensures
            b == (self.coordination_mode == CoordinationMode::Solo),
    {
        self.coordination_mode == CoordinationMode::Solo
    }
}

impl Default for TeamIntent {
    fn default() -> (t: Self)
        ensures
            t.coordination_mode == CoordinationMode::Solo,
            t.strategy is None,
    {
        TeamIntent::solo()
    }
}

/// The Team overlay a conversation runs with.
#[derive(Debug, Clone, Copy, PartialEq, Eq, Structural)]
pub struct ResolvedTeamOverlay {
    pub coordination_mode: CoordinationMode,
    pub harness: AgentHarnessKind,
}

/// Why a Team intent cannot be honoured.
#[derive(Debug, Clone, Copy, PartialEq, Eq, Structural)]
pub enum NativeTeamOverlayError {
    Disabled,
    HarnessUnsupported { harness: AgentHarnessKind },
}

pub open spec fn overlay_error_code(e: NativeTeamOverlayError) -> Seq<char> {
    match e {
        NativeTeamOverlayError::Disabled => "team_mode_disabled"@,
        NativeTeamOverlayError::HarnessUnsupported { .. } => "harness_unsupported"@,
    }
}

pub open spec fn overlay_error_message(e: NativeTeamOverlayError) -> Seq<char> {
    match e {
        NativeTeamOverlayError::Disabled => "team_mode_disabled: RX-native team mode is disabled in this build"@,
        NativeTeamOverlayError::HarnessUnsupported { harness } => "harness_unsupported: harness '"@
            + harness_name(harness) + "' does not support RX-native team mode"@,
    }
}

impl NativeTeamOverlayError {
    /// The stable code of the error.
    pub fn code(&self) -> (s: &'static str)
        ensures
            s@ == overlay_error_code(*self),
    {
        match self {
            NativeTeamOverlayError::Disabled => "team_mode_disabled",
            NativeTeamOverlayError::HarnessUnsupported { .. } => "harness_unsupported",
        }
    }

    /// The message shown for the error (its `Display` form).
    pub fn message(&self) -> (s: String)
        ensures
            s@ == overlay_error_message(*self),
    {
        match self {
            NativeTeamOverlayError::Disabled => copy_str(
                "team_mode_disabled: RX-native team mode is disabled in this build",
            ),
            NativeTeamOverlayError::HarnessUnsupported { harness } => {
                let mut s = copy_str("harness_unsupported: harness '");
                push_str(&mut s, harness.as_str());
                push_str(&mut s, "' does not support RX-native team mode");
                s
            },
        }
    }
}

/// Every harness the app ships can run the RX-native Team overlay.
pub open spec fn supports_rx_native_team(h: AgentHarnessKind) -> bool {
    match h {
        AgentHarnessKind::Claude => true,
        AgentHarnessKind::Codex => true,
    }
}

pub fn harness_supports_rx_native_team(harness: AgentHarnessKind) -> (b: bool)
    ensures
        b == supports_rx_native_team(harness),
{
    match harness {
        AgentHarnessKind::Claude => true,
        AgentHarnessKind::Codex => true,
    }
}

/// The overlay for an intent: none without an RX-native Team intent;
/// refused when the harness cannot run it.
pub open spec fn overlay_for(
    intent: Option<TeamIntent>,
    harness: AgentHarnessKind,
    supported: bool,
) -> Result<Option<ResolvedTeamOverlay>, NativeTeamOverlayError> {
    match intent {
        None => Ok(None),
        Some(i) => if i.coordination_mode != CoordinationMode::RxNativeTeam {
            Ok(None)
        } else if !supported {
            Err(NativeTeamOverlayError::HarnessUnsupported { harness })
        } else {
            Ok(Some(ResolvedTeamOverlay { coordination_mode: CoordinationMode::RxNativeTeam, harness }))
        },
    }
}

pub fn validate_native_team_intent_with_capabilities(
    team_intent: Option<&TeamIntent>,
    harness: AgentHarnessKind,
    supports_rx_native_team: bool,
) -> (r: Result<Option<ResolvedTeamOverlay>, NativeTeamOverlayError>)
    ensures
        r == overlay_for(
            match team_intent {
                Some(i) => Some(*i),
                None => None,
            },
            harness,
            supports_rx_native_team,
        ),
{
    let intent = match team_intent {
        Some(i) => i,
        None => {
            return Ok(None);
        },
    };
    if intent.is_solo() {
        return Ok(None);
    }
    if intent.coordination_mode != CoordinationMode::RxNativeTeam {
        return Ok(None);
    }
    if !supports_rx_native_team {
        return Err(NativeTeamOverlayError::HarnessUnsupported { harness });
    }
    Ok(Some(ResolvedTeamOverlay { coordination_mode: CoordinationMode::RxNativeTeam, harness }))
}

pub fn validate_native_team_intent(team_intent: Option<&TeamIntent>, harness: AgentHarnessKind) -> (r:
    Result<Option<ResolvedTeamOverlay>, NativeTeamOverlayError>)
    ensures
        r == overlay_for(
            match team_intent {
                Some(i) => Some(*i),
                None => None,
            },
            harness,
            supports_rx_native_team(harness),
        ),
{
    validate_native_team_intent_with_capabilities(
        team_intent,
        harness,
        harness_supports_rx_native_team(harness),
    )
}

/// Only an RX-native Team intent ever yields an overlay, and the overlay it
/// yields is that mode on the asked harness.
pub proof fn law_only_team_intents_activate_the_overlay(
    intent: Option<TeamIntent>,
    harness: AgentHarnessKind,
    supported: bool,
)
    ensures
        overlay_for(intent, harness, supported) matches Ok(Some(o)) ==> (intent matches Some(i)
            && i.coordination_mode == CoordinationMode::RxNativeTeam && o.harness == harness
            && o.coordination_mode == CoordinationMode::RxNativeTeam),
        overlay_for(intent, harness, supported) is Err ==> !supported,
{
}

} // verus!
