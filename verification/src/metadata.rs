//! Policy metadata: the annotations a policy module carries, its execution
//! mode, its protocol version, and the cluster resources it declares it
//! needs at evaluation time.

use vstd::prelude::*;
use crate::evaluator::PolicyExecutionMode;
use crate::version::Version;

verus! {

/// The version of the message-oriented guest protocol a policy speaks.
#[derive(Clone, Copy, Debug, PartialEq, Eq, Structural)]
pub enum ProtocolVersion {
    V1,
    Unknown,
}

/// What kind of requests the policy validates.
#[derive(Clone, Copy, Debug, PartialEq, Eq, Structural)]
pub enum PolicyType {
    Kubernetes,
    Raw,
}

impl PolicyType {
    pub fn name(&self) -> (r: &'static str)
        ensures
            r@ == policy_type_name(*self),
    {
        match self {
            PolicyType::Kubernetes => "kubernetes",
            PolicyType::Raw => "raw",
        }
    }
}

pub open spec fn policy_type_name(t: PolicyType) -> Seq<char> {
    match t {
        PolicyType::Kubernetes => "kubernetes"@,
        PolicyType::Raw => "raw"@,
    }
}

/// An `(api_version, kind)` pair: one Kubernetes resource family that a
/// policy declares it reads during evaluation.
#[derive(Clone, Debug)]
pub struct ContextAwareResource {
    pub api_version: String,
    pub kind: String,
}

/// The metadata annotations of a policy module, reduced to the fields the
/// engine reads.
#[derive(Clone, Debug)]
pub struct Metadata {
    pub protocol_version: Option<ProtocolVersion>,
    pub rules: Vec<String>,
    pub annotations: Option<Vec<(String, String)>>,
    pub mutating: bool,
    pub background_audit: bool,
    /// The declared resources form an ordered set: whoever parses the
    /// annotations keeps them sorted by (apiVersion, kind) and free of
    /// duplicates, and the snapshot builder walks them in that order.
    pub context_aware_resources: Vec<ContextAwareResource>,
    pub execution_mode: PolicyExecutionMode,
    pub policy_type: PolicyType,
    pub minimum_kubewarden_version: Option<Version>,
}

impl Default for Metadata {
    /// A metadata block with nothing declared: the message-oriented mode,
    /// no protocol version, no annotations, not mutating.
    fn default() -> (r: Metadata)
        ensures
            r.protocol_version is None,
            r.rules@.len() == 0,
            r.annotations is None,
            !r.mutating,
            !r.background_audit,
            r.context_aware_resources@.len() == 0,
            r.execution_mode == PolicyExecutionMode::KubewardenWapc,
            r.policy_type == PolicyType::Kubernetes,
            r.minimum_kubewarden_version is None,
    {
        Metadata {
            protocol_version: None,
            rules: Vec::new(),
            annotations: None,
            mutating: false,
            background_audit: false,
            context_aware_resources: Vec::new(),
            execution_mode: PolicyExecutionMode::KubewardenWapc,
            policy_type: PolicyType::Kubernetes,
            minimum_kubewarden_version: None,
        }
    }
}

} // verus!
