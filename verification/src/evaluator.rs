//! The request and response shapes shared by every guest execution model,
//! and the checks the evaluator applies to a guest's answer.

use vstd::prelude::*;
use crate::text::str_eq;

verus! {

/// The guest execution model a policy was authored against.
#[derive(Clone, Copy, Debug, PartialEq, Eq, Structural)]
pub enum PolicyExecutionMode {
    KubewardenWapc,
    Opa,
    OpaGatekeeper,
    Wasi,
}

impl Default for PolicyExecutionMode {
    fn default() -> (r: PolicyExecutionMode)
        ensures
            r == PolicyExecutionMode::KubewardenWapc,
    {
        PolicyExecutionMode::KubewardenWapc
    }
}

/// The wire name of each execution mode.
pub open spec fn mode_name(m: PolicyExecutionMode) -> Seq<char> {
    match m {
        PolicyExecutionMode::KubewardenWapc => "kubewarden-wapc"@,
        PolicyExecutionMode::Opa => "opa"@,
        PolicyExecutionMode::OpaGatekeeper => "gatekeeper"@,
        PolicyExecutionMode::Wasi => "wasi"@,
    }
}

/// The JSON rendering of each execution mode: its wire name in quotes.
pub open spec fn mode_json(m: PolicyExecutionMode) -> Seq<char> {
    match m {
        PolicyExecutionMode::KubewardenWapc => "\"kubewarden-wapc\""@,
        PolicyExecutionMode::Opa => "\"opa\""@,
        PolicyExecutionMode::OpaGatekeeper => "\"gatekeeper\""@,
        PolicyExecutionMode::Wasi => "\"wasi\""@,
    }
}

impl PolicyExecutionMode {
    /// The wire name of the mode.
    pub fn name(&self) -> (r: &'static str)
        ensures
            r@ == mode_name(*self),
    {
        match self {
            PolicyExecutionMode::KubewardenWapc => "kubewarden-wapc",
            PolicyExecutionMode::Opa => "opa",
            PolicyExecutionMode::OpaGatekeeper => "gatekeeper",
            PolicyExecutionMode::Wasi => "wasi",
        }
    }

    /// The JSON document holding the mode: its wire name as a JSON string.
    pub fn to_json_string(&self) -> (r: String)
        ensures
            r@ == mode_json(*self),
    {
        let s: &'static str = match self {
            PolicyExecutionMode::KubewardenWapc => "\"kubewarden-wapc\"",
            PolicyExecutionMode::Opa => "\"opa\"",
            PolicyExecutionMode::OpaGatekeeper => "\"gatekeeper\"",
            PolicyExecutionMode::Wasi => "\"wasi\"",
        };
        s.to_owned()
    }

    /// Parse a JSON document into a mode. Exactly the four JSON strings of
    /// the known wire names are accepted.
    pub fn from_json_str(s: &str) -> (r: Option<PolicyExecutionMode>)
        ensures
            match r {
                Some(m) => s@ == mode_json(m),
                None => forall|m: PolicyExecutionMode| s@ != mode_json(m),
            },
    {
        if str_eq(s, "\"kubewarden-wapc\"") {
            Some(PolicyExecutionMode::KubewardenWapc)
        } else if str_eq(s, "\"opa\"") {
            Some(PolicyExecutionMode::Opa)
        } else if str_eq(s, "\"gatekeeper\"") {
            Some(PolicyExecutionMode::OpaGatekeeper)
        } else if str_eq(s, "\"wasi\"") {
            Some(PolicyExecutionMode::Wasi)
        } else {
            None
        }
    }
}

/// The two dialects of the policy-as-data execution model.
#[derive(Clone, Copy, Debug, PartialEq, Eq, Structural)]
pub enum RegoPolicyExecutionMode {
    Opa,
    Gatekeeper,
}

impl RegoPolicyExecutionMode {
    /// The policy-as-data dialect of an execution mode; the message-oriented
    /// and command-line modes have none.
    pub fn try_from(execution_mode: PolicyExecutionMode) -> (r: Result<RegoPolicyExecutionMode, EvaluationError>)
        ensures
            match r {
                Ok(m) => (execution_mode == PolicyExecutionMode::Opa && m == RegoPolicyExecutionMode::Opa)
                    || (execution_mode == PolicyExecutionMode::OpaGatekeeper
                        && m == RegoPolicyExecutionMode::Gatekeeper),
                Err(e) => (execution_mode == PolicyExecutionMode::KubewardenWapc
                    || execution_mode == PolicyExecutionMode::Wasi)
                    && e == EvaluationError::ModeNotRego,
            },
    {
        match execution_mode {
            PolicyExecutionMode::Opa => Ok(RegoPolicyExecutionMode::Opa),
            PolicyExecutionMode::OpaGatekeeper => Ok(RegoPolicyExecutionMode::Gatekeeper),
            PolicyExecutionMode::KubewardenWapc | PolicyExecutionMode::Wasi => Err(
                EvaluationError::ModeNotRego,
            ),
        }
    }
}

/// The guest runtime actually driving an evaluation.
#[derive(Clone, Copy, Debug, PartialEq, Eq, Structural)]
pub enum Runtime {
    Wapc,
    Rego(RegoPolicyExecutionMode),
    Cli,
}

pub open spec fn runtime_name(r: Runtime) -> Seq<char> {
    match r {
        Runtime::Wapc => "wapc"@,
        Runtime::Rego(RegoPolicyExecutionMode::Opa) => "OPA"@,
        Runtime::Rego(RegoPolicyExecutionMode::Gatekeeper) => "Gatekeeper"@,
        Runtime::Cli => "wasi"@,
    }
}

impl Runtime {
    pub fn name(&self) -> (r: &'static str)
        ensures
            r@ == runtime_name(*self),
    {
        match self {
            Runtime::Wapc => "wapc",
            Runtime::Rego(RegoPolicyExecutionMode::Opa) => "OPA",
            Runtime::Rego(RegoPolicyExecutionMode::Gatekeeper) => "Gatekeeper",
            Runtime::Cli => "wasi",
        }
    }
}

/// An error of the evaluation layer itself, as opposed to a deny answer.
#[derive(Clone, Copy, Debug, PartialEq, Eq, Structural)]
pub enum EvaluationError {
    ModeNotRego,
}

impl EvaluationError {
    pub fn message(&self) -> (r: &'static str)
        ensures
            *self == EvaluationError::ModeNotRego
                ==> r@ == "execution mode not convertible to a Rego based execution mode"@,
    {
        match self {
            EvaluationError::ModeNotRego => "execution mode not convertible to a Rego based execution mode",
        }
    }
}

/// A raw validation object: an arbitrary document plus the correlation
/// identifier read out of it, if it carries one.
#[derive(Clone, Debug)]
pub struct RawValidateObject {
    pub uid: Option<String>,
    pub payload: Vec<u8>,
}

/// A Kubernetes admission request, reduced to the fields the engine reads.
/// The objects stay in their wire encoding.
#[derive(Clone, Debug)]
pub struct AdmissionRequest {
    pub uid: String,
    pub object: Option<Vec<u8>>,
    pub old_object: Option<Vec<u8>>,
    pub dry_run: bool,
    pub username: String,
}

/// A validation request sent to a policy evaluator: either a raw document or
/// a Kubernetes admission request.
#[derive(Clone, Debug)]
pub enum ValidateRequest {
    Raw(RawValidateObject),
    AdmissionRequest(Box<AdmissionRequest>),
}

/// The correlation identifier of a request; a raw request without one gets
/// the empty identifier.
pub open spec fn spec_uid(r: ValidateRequest) -> Seq<char> {
    match r {
        ValidateRequest::Raw(raw) => match raw.uid {
            Some(u) => u@,
            None => Seq::empty(),
        },
        ValidateRequest::AdmissionRequest(adm) => adm.uid@,
    }
}

impl ValidateRequest {
    pub fn uid(&self) -> (r: &str)
        ensures
            r@ == spec_uid(*self),
    {
        proof {
            reveal_strlit("");
            assert(""@ =~= Seq::<char>::empty());
        }
        match self {
            ValidateRequest::Raw(raw) => match &raw.uid {
                Some(u) => u.as_str(),
                None => "",
            },
            ValidateRequest::AdmissionRequest(adm) => adm.uid.as_str(),
        }
    }
}

/// Settings specified by the user for a given policy: an object of named
/// values, each kept in its wire encoding.
#[derive(Clone, Debug)]
pub struct PolicySettings {
    pub entries: Vec<(String, Vec<u8>)>,
}

impl Default for PolicySettings {
    fn default() -> (r: PolicySettings)
        ensures
            r.entries@.len() == 0,
    {
        PolicySettings { entries: Vec::new() }
    }
}

/// A settings document as handed over by the outer configuration: absent,
/// an object, or some other value.
#[derive(Clone, Debug)]
pub enum SettingsValue {
    Null,
    Object(Vec<(String, Vec<u8>)>),
    Other,
}

impl PolicySettings {
    /// Settings from a configuration document: an absent document means no
    /// settings, an object is taken as is, anything else is rejected.
    pub fn try_from_value(value: SettingsValue) -> (r: Result<PolicySettings, &'static str>)
        ensures
            match r {
                Ok(s) => match value {
                    SettingsValue::Null => s.entries@.len() == 0,
                    SettingsValue::Object(o) => s.entries == o,
                    SettingsValue::Other => false,
                },
                Err(m) => value is Other && m@ == "Invalid settings in CRD, not an object"@,
            },
    {
        match value {
            SettingsValue::Null => Ok(PolicySettings::default()),
            SettingsValue::Object(o) => Ok(PolicySettings { entries: o }),
            SettingsValue::Other => Err("Invalid settings in CRD, not an object"),
        }
    }
}

/// The outward response shape every guest execution model converges on.
#[derive(Clone, Debug)]
pub struct AdmissionResponse {
    pub uid: String,
    pub allowed: bool,
    pub message: Option<String>,
    pub code: Option<u64>,
    pub patch: Option<String>,
    pub patch_type: Option<String>,
    pub warnings: Vec<String>,
}

/// The message of the deny answer that replaces a forbidden mutation.
pub open spec fn mutation_disallowed_message() -> Seq<char> {
    "mutation-not-allowed: the policy attempted to mutate the request, but its metadata does not declare it mutating"@
}

/// Enforce the mutation gate on a guest answer: a patch coming from a
/// policy whose metadata does not declare `mutating` is a fatal evaluation
/// error, turned into a deny answer so the server itself stays healthy.
pub fn audit_mutation(declared_mutating: bool, response: AdmissionResponse) -> (r: AdmissionResponse)
    ensures
        (declared_mutating || response.patch is None) ==> r == response,
        (!declared_mutating && response.patch is Some) ==> {
            &&& r.uid == response.uid
            &&& !r.allowed
            &&& r.patch is None
            &&& r.patch_type is None
            &&& r.code == Some(500u64)
            &&& r.message matches Some(m) && m@ == mutation_disallowed_message()
        },
{
    if !declared_mutating && response.patch.is_some() {
        AdmissionResponse {
            uid: response.uid,
            allowed: false,
            message: Some(
                "mutation-not-allowed: the policy attempted to mutate the request, but its metadata does not declare it mutating".to_owned(),
            ),
            code: Some(500),
            patch: None,
            patch_type: None,
            warnings: response.warnings,
        }
    } else {
        response
    }
}

/// What the guest runtime handed back for one evaluation: a response, or a
/// trap that tore the instance down.
#[derive(Clone, Debug)]
pub enum GuestOutcome {
    Response(AdmissionResponse),
    Trap(String),
}

/// The prefix of the message a trapped evaluation is denied with.
pub open spec fn guest_trap_message_prefix() -> Seq<char> {
    "guest execution failed: "@
}

/// Normalise a guest outcome into the common response shape. A trap becomes
/// a deny naming the trap — the instance is discarded, but the server stays
/// healthy and answers the request; a response passes the mutation gate.
pub fn normalize_guest_outcome(
    uid: String,
    declared_mutating: bool,
    outcome: GuestOutcome,
) -> (r: AdmissionResponse)
    ensures
        outcome matches GuestOutcome::Trap(trap) ==> {
            &&& r.uid == uid
            &&& !r.allowed
            &&& r.code == Some(500u64)
            &&& r.patch is None
            &&& r.message matches Some(m) && m@ == guest_trap_message_prefix() + trap@
        },
        outcome matches GuestOutcome::Response(response) ==> {
            &&& (declared_mutating || response.patch is None) ==> r == response
            &&& (!declared_mutating && response.patch is Some) ==> {
                &&& r.uid == response.uid
                &&& !r.allowed
                &&& r.patch is None
                &&& r.patch_type is None
                &&& r.code == Some(500u64)
                &&& r.message matches Some(m) && m@ == mutation_disallowed_message()
            }
        },
{
    match outcome {
        GuestOutcome::Response(response) => audit_mutation(declared_mutating, response),
        GuestOutcome::Trap(trap) => {
            let mut message = "guest execution failed: ".to_owned();
            message.append(trap.as_str());
            AdmissionResponse {
                uid,
                allowed: false,
                message: Some(message),
                code: Some(500),
                patch: None,
                patch_type: None,
                warnings: Vec::new(),
            }
        },
    }
}

/// One rule selector a policy declares: the requests it wants to see,
/// by apiVersion, kind and operation. A list selects its members, and the
/// wildcard entry selects everything.
#[derive(Clone, Debug)]
pub struct Rule {
    pub api_versions: Vec<String>,
    pub kinds: Vec<String>,
    pub operations: Vec<String>,
}

/// A selector list accepts a value it contains, or anything when it holds
/// the wildcard; an empty list accepts nothing.
pub open spec fn spec_selector_accepts(list: Seq<String>, value: Seq<char>) -> bool {
    exists|i: int| 0 <= i < list.len() && ((#[trigger] list[i])@ == value || list[i]@ == "*"@)
}

/// One rule accepts a request when each of its three selector lists does.
pub open spec fn spec_rule_accepts(
    rule: Rule,
    api_version: Seq<char>,
    kind: Seq<char>,
    operation: Seq<char>,
) -> bool {
    &&& spec_selector_accepts(rule.api_versions@, api_version)
    &&& spec_selector_accepts(rule.kinds@, kind)
    &&& spec_selector_accepts(rule.operations@, operation)
}

/// A request is selected when some declared rule accepts it.
pub open spec fn spec_request_selected(
    rules: Seq<Rule>,
    api_version: Seq<char>,
    kind: Seq<char>,
    operation: Seq<char>,
) -> bool {
    exists|i: int| 0 <= i < rules.len() && spec_rule_accepts(#[trigger] rules[i], api_version, kind, operation)
}

fn selector_accepts(list: &Vec<String>, value: &str) -> (r: bool)
    ensures
        r == spec_selector_accepts(list@, value@),
{
    let n = list.len();
    let mut i: usize = 0;
    while i < n
        invariant
            i <= n,
            n == list@.len(),
            forall|k: int| 0 <= k < i ==> (#[trigger] list@[k])@ != value@ && list@[k]@ != "*"@,
        decreases n - i,
    {
        if str_eq(list[i].as_str(), value) || str_eq(list[i].as_str(), "*") {
            return true;
        }
        i += 1;
    }
    false
}

/// Whether a request's coordinates are matched by any of the policy's
/// declared rule selectors. Requests that no rule selects are short-circuited
/// to "allow" without invoking the guest.
pub fn request_selected_by_rules(
    rules: &Vec<Rule>,
    api_version: &str,
    kind: &str,
    operation: &str,
) -> (r: bool)
    ensures
        r == spec_request_selected(rules@, api_version@, kind@, operation@),
{
    let n = rules.len();
    let mut i: usize = 0;
    while i < n
        invariant
            i <= n,
            n == rules@.len(),
            forall|k: int|
                0 <= k < i ==> !spec_rule_accepts(#[trigger] rules@[k], api_version@, kind@, operation@),
        decreases n - i,
    {
        let rule = &rules[i];
        if selector_accepts(&rule.api_versions, api_version) && selector_accepts(
            &rule.kinds,
            kind,
        ) && selector_accepts(&rule.operations, operation) {
            return true;
        }
        i += 1;
    }
    false
}

/// The response of a short-circuited request: allowed, with nothing else
/// said — the guest never ran.
pub fn short_circuit_allow(uid: String) -> (r: AdmissionResponse)
    ensures
        r.uid == uid,
        r.allowed,
        r.message is None,
        r.code is None,
        r.patch is None,
        r.patch_type is None,
        r.warnings@.len() == 0,
{
    AdmissionResponse {
        uid,
        allowed: true,
        message: None,
        code: None,
        patch: None,
        patch_type: None,
        warnings: Vec::new(),
    }
}

/// What a guest's settings validator answered.
#[derive(Clone, Debug)]
pub struct SettingsValidationResponse {
    pub valid: bool,
    pub message: Option<String>,
}

/// The message reported when settings are rejected without a reason.
pub open spec fn settings_rejected_default_message() -> Seq<char> {
    "the settings are invalid"@
}

/// Apply a guest's settings validation: a false answer aborts that policy's
/// load, carrying the guest's message or a default one.
pub fn settings_validation_outcome(response: SettingsValidationResponse) -> (r: Result<
    (),
    String,
>)
    ensures
        response.valid <==> r is Ok,
        !response.valid ==> (r matches Err(m) && (match response.message {
            Some(given) => m@ == given@,
            None => m@ == settings_rejected_default_message(),
        })),
{
    if response.valid {
        Ok(())
    } else {
        match response.message {
            Some(message) => Err(message),
            None => Err("the settings are invalid".to_owned()),
        }
    }
}

} // verus!
