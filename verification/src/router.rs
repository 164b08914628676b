//! The callback router: for each bus request it applies the deployment's
//! capability gate and picks the capability that must answer. The task that
//! owns the bus receiver, performs the capability's I/O and writes each
//! reply to the request's private channel lives with the embedding program;
//! every decision it takes per request is made here.

use vstd::prelude::*;
use crate::bus::CallbackRequestType;

verus! {

/// The capability families requests are gated by.
#[derive(Clone, Copy, Debug, PartialEq, Eq, Structural)]
pub enum CapabilityFamily {
    /// Registry lookups: manifests, digests, configurations.
    Oci,
    /// Signature verification of images.
    Sigstore,
    /// Host name resolution.
    Dns,
    /// Reads of cluster resources.
    KubernetesRead,
    /// Permission reviews.
    SubjectAccessReview,
}

/// The family a request belongs to.
pub open spec fn spec_family_of(r: CallbackRequestType) -> CapabilityFamily {
    match r {
        CallbackRequestType::OciManifest { .. } => CapabilityFamily::Oci,
        CallbackRequestType::OciManifestDigest { .. } => CapabilityFamily::Oci,
        CallbackRequestType::OciManifestAndConfig { .. } => CapabilityFamily::Oci,
        CallbackRequestType::SigstorePubKeysVerify { .. } => CapabilityFamily::Sigstore,
        CallbackRequestType::SigstoreKeylessVerify { .. } => CapabilityFamily::Sigstore,
        CallbackRequestType::SigstoreGithubActionsVerify { .. } => CapabilityFamily::Sigstore,
        CallbackRequestType::SigstoreCertificateVerify { .. } => CapabilityFamily::Sigstore,
        CallbackRequestType::DnsLookupHost { .. } => CapabilityFamily::Dns,
        CallbackRequestType::KubernetesListResourceAll { .. } => CapabilityFamily::KubernetesRead,
        CallbackRequestType::KubernetesListResourceByNamespace { .. } => CapabilityFamily::KubernetesRead,
        CallbackRequestType::KubernetesGetResource { .. } => CapabilityFamily::KubernetesRead,
        CallbackRequestType::KubernetesGetResourcePluralName { .. } => CapabilityFamily::KubernetesRead,
        CallbackRequestType::KubernetesCanI { .. } => CapabilityFamily::SubjectAccessReview,
        CallbackRequestType::HasKubernetesListResourceAllResultChangedSinceInstant { .. } => CapabilityFamily::KubernetesRead,
    }
}

/// Which capability must answer a request.
pub fn family_of(r: &CallbackRequestType) -> (f: CapabilityFamily)
    ensures
        f == spec_family_of(*r),
{
    match r {
        CallbackRequestType::OciManifest { .. } => CapabilityFamily::Oci,
        CallbackRequestType::OciManifestDigest { .. } => CapabilityFamily::Oci,
        CallbackRequestType::OciManifestAndConfig { .. } => CapabilityFamily::Oci,
        CallbackRequestType::SigstorePubKeysVerify { .. } => CapabilityFamily::Sigstore,
        CallbackRequestType::SigstoreKeylessVerify { .. } => CapabilityFamily::Sigstore,
        CallbackRequestType::SigstoreGithubActionsVerify { .. } => CapabilityFamily::Sigstore,
        CallbackRequestType::SigstoreCertificateVerify { .. } => CapabilityFamily::Sigstore,
        CallbackRequestType::DnsLookupHost { .. } => CapabilityFamily::Dns,
        CallbackRequestType::KubernetesListResourceAll { .. } => CapabilityFamily::KubernetesRead,
        CallbackRequestType::KubernetesListResourceByNamespace { .. } => CapabilityFamily::KubernetesRead,
        CallbackRequestType::KubernetesGetResource { .. } => CapabilityFamily::KubernetesRead,
        CallbackRequestType::KubernetesGetResourcePluralName { .. } => CapabilityFamily::KubernetesRead,
        CallbackRequestType::KubernetesCanI { .. } => CapabilityFamily::SubjectAccessReview,
        CallbackRequestType::HasKubernetesListResourceAllResultChangedSinceInstant { .. } => CapabilityFamily::KubernetesRead,
    }
}

/// The capability gate a deployment configures: which verb families are
/// forwarded at all.
#[derive(Clone, Copy, Debug, PartialEq, Eq, Structural)]
pub struct CapabilityGate {
    pub allow_oci: bool,
    pub allow_sigstore: bool,
    pub allow_dns: bool,
    pub allow_kubernetes_read: bool,
    pub allow_subject_access_review: bool,
}

impl CapabilityGate {
    /// The configuration that forwards every family.
    pub fn allow_all() -> (r: CapabilityGate)
        ensures
            r.allow_oci && r.allow_sigstore && r.allow_dns && r.allow_kubernetes_read
                && r.allow_subject_access_review,
    {
        CapabilityGate {
            allow_oci: true,
            allow_sigstore: true,
            allow_dns: true,
            allow_kubernetes_read: true,
            allow_subject_access_review: true,
        }
    }
}

/// Whether the configuration forwards a family.
pub open spec fn spec_gate_allows(gate: CapabilityGate, family: CapabilityFamily) -> bool {
    match family {
        CapabilityFamily::Oci => gate.allow_oci,
        CapabilityFamily::Sigstore => gate.allow_sigstore,
        CapabilityFamily::Dns => gate.allow_dns,
        CapabilityFamily::KubernetesRead => gate.allow_kubernetes_read,
        CapabilityFamily::SubjectAccessReview => gate.allow_subject_access_review,
    }
}

/// What the router does with one request.
#[derive(Clone, Debug, PartialEq)]
pub enum RoutingDecision {
    /// Forward the request to this capability and reply with its answer.
    Dispatch(CapabilityFamily),
    /// Refuse the request: its family is not allowed here. The text goes
    /// back to the guest as the call's error.
    Deny(String),
}

/// The message a gated-off request is refused with.
pub open spec fn spec_denied_message() -> Seq<char> {
    "host capability denied by the configuration of this deployment"@
}

/// Decide one request: dispatch it to its capability when its family is
/// allowed, refuse it otherwise.
pub fn route(gate: &CapabilityGate, request: &CallbackRequestType) -> (r: RoutingDecision)
    ensures
        spec_gate_allows(*gate, spec_family_of(*request)) ==> r == RoutingDecision::Dispatch(
            spec_family_of(*request),
        ),
        !spec_gate_allows(*gate, spec_family_of(*request)) ==> (r matches RoutingDecision::Deny(m)
            && m@ == spec_denied_message()),
{
    let family = family_of(request);
    let allowed = match family {
        CapabilityFamily::Oci => gate.allow_oci,
        CapabilityFamily::Sigstore => gate.allow_sigstore,
        CapabilityFamily::Dns => gate.allow_dns,
        CapabilityFamily::KubernetesRead => gate.allow_kubernetes_read,
        CapabilityFamily::SubjectAccessReview => gate.allow_subject_access_review,
    };
    if allowed {
        RoutingDecision::Dispatch(family)
    } else {
        RoutingDecision::Deny(
            "host capability denied by the configuration of this deployment".to_owned(),
        )
    }
}

} // verus!
