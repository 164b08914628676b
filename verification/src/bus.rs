//! The host-capability bus: the typed requests guests make, the single-use
//! reply channel each request carries, and the blocking call a guest thread
//! makes while the router answers on the async side.

use vstd::prelude::*;
use crate::kube::SubjectAccessReview;
use crate::text::{dec_digits, u64_to_string};

verus! {

/// tokio's bounded multi-producer channel sender: the handle guests post
/// bus requests through.
#[verifier::external_type_specification]
#[verifier::external_body]
#[verifier::reject_recursive_types(T)]
pub struct ExMpscSender<T>(tokio::sync::mpsc::Sender<T>);

/// tokio's single-use channel sender: the private reply channel carried by
/// each bus request.
#[verifier::external_type_specification]
#[verifier::external_body]
#[verifier::reject_recursive_types(T)]
pub struct ExOneshotSender<T>(tokio::sync::oneshot::Sender<T>);

/// The capability verbs a guest can reach through the bus.
#[derive(Debug)]
pub enum CallbackRequestType {
    OciManifest { image: String },
    OciManifestDigest { image: String },
    OciManifestAndConfig { image: String },
    SigstorePubKeysVerify { image: String, pub_keys: Vec<String> },
    SigstoreKeylessVerify { image: String, issuer: String, subject: String },
    SigstoreGithubActionsVerify { image: String, owner: String, repository: Option<String> },
    SigstoreCertificateVerify { image: String, certificate: Vec<u8> },
    DnsLookupHost { host: String },
    KubernetesListResourceAll {
        api_version: String,
        kind: String,
        label_selector: Option<String>,
        field_selector: Option<String>,
    },
    KubernetesListResourceByNamespace {
        api_version: String,
        kind: String,
        namespace: String,
        label_selector: Option<String>,
        field_selector: Option<String>,
    },
    KubernetesGetResource {
        api_version: String,
        kind: String,
        name: String,
        namespace: Option<String>,
    },
    KubernetesGetResourcePluralName { api_version: String, kind: String },
    KubernetesCanI { request: SubjectAccessReview },
    HasKubernetesListResourceAllResultChangedSinceInstant {
        api_version: String,
        kind: String,
        label_selector: Option<String>,
        field_selector: Option<String>,
        since: u64,
    },
}

/// The reply to a bus request: an opaque payload in the canonical encoding
/// of the verb.
#[derive(Debug)]
pub struct CallbackResponse {
    pub payload: Vec<u8>,
}

/// Why a bus call failed on the guest's side.
#[derive(Clone, Debug, PartialEq)]
pub enum BusError {
    /// The bus is closed; the request was never posted. A full bus is not an
    /// error: senders back-pressure until the router drains a slot.
    Send(String),
    /// The capability behind the router answered with an error.
    Capability(String),
    /// The reply channel closed before an answer came: shutdown.
    ResponseChannelClosed(String),
}

/// One request on the bus: the verb and the private single-use channel its
/// reply must be written to.
pub struct CallbackRequest {
    pub request: CallbackRequestType,
    pub response_channel: tokio::sync::oneshot::Sender<Result<CallbackResponse, String>>,
}

/// Relies on tokio's bounded mpsc and oneshot channels: the request is
/// posted on the bus with a fresh single-use reply channel, back-pressuring
/// while the bus is full, and the calling thread blocks until the router
/// answers or the bus shuts down. The error mapping is fixed: a closed bus
/// fails the send; a responder that answers `Err` surfaces as a capability
/// error, passed through with no local retry; a reply channel dropped
/// before an answer surfaces as the shutdown error. What an answer holds
/// depends on the capability behind the router, so nothing is promised of
/// the payload. `blocking_send` and `blocking_recv` panic when called from
/// inside an async runtime: guests run on blocking-tolerant workers, never
/// on the router's scheduler.
#[verifier::external_body]
pub(crate) fn send_request_and_wait(
    channel: &tokio::sync::mpsc::Sender<CallbackRequest>,
    request_type: CallbackRequestType,
) -> (r: Result<CallbackResponse, BusError>) {
    let (tx, rx) = tokio::sync::oneshot::channel();
    let req = CallbackRequest { request: request_type, response_channel: tx };
    if let Err(e) = channel.blocking_send(req) {
        return Err(BusError::Send(e.to_string()));
    }
    match rx.blocking_recv() {
        Ok(Ok(response)) => Ok(response),
        Ok(Err(message)) => Err(BusError::Capability(message)),
        Err(e) => Err(BusError::ResponseChannelClosed(e.to_string())),
    }
}

/// A guest's host calls within one evaluation, with the transcript of
/// request/reply pairs in the order the guest made them. The guest blocks on
/// each call's private reply channel before issuing the next call, so the
/// i-th reply it observes is the reply to its i-th request.
pub struct HostCallSession {
    pub channel: tokio::sync::mpsc::Sender<CallbackRequest>,
    pub transcript: Ghost<Seq<(CallbackRequestType, Result<CallbackResponse, BusError>)>>,
}

impl HostCallSession {
    /// A session over a sender handle of the bus, with nothing called yet.
    pub fn new(channel: tokio::sync::mpsc::Sender<CallbackRequest>) -> (r: HostCallSession)
        ensures
            r.transcript@.len() == 0,
    {
        HostCallSession { channel, transcript: Ghost(Seq::empty()) }
    }

    /// Make one host call and block for its reply; the pair is appended to
    /// the transcript.
    pub fn call(&mut self, request: CallbackRequestType) -> (r: Result<CallbackResponse, BusError>)
        ensures
            final(self).transcript@ == old(self).transcript@.push((request, r)),
    {
        let ghost requested = request;
        let r = send_request_and_wait(&self.channel, request);
        proof {
            self.transcript@ = self.transcript@.push((requested, r));
        }
        r
    }

    /// Make a sequence of host calls in order. The transcript extends by one
    /// pair per request: the k-th reply handed back answers the k-th
    /// request — this is the ordering guests observe.
    pub fn run_requests(&mut self, requests: Vec<CallbackRequestType>) -> (r: Vec<
        Result<CallbackResponse, BusError>,
    >)
        ensures
            r@.len() == requests@.len(),
            final(self).transcript@.len() == old(self).transcript@.len() + requests@.len(),
            forall|k: int|
                0 <= k < old(self).transcript@.len() ==> final(self).transcript@[k] == old(
                    self,
                ).transcript@[k],
            forall|k: int|
                0 <= k < requests@.len() ==> final(self).transcript@[old(self).transcript@.len()
                    + k] == (requests@[k], r@[k]),
    {
        let ghost all = requests@;
        let ghost base = self.transcript@;
        let mut pending = requests;
        let mut replies: Vec<Result<CallbackResponse, BusError>> = Vec::new();
        while pending.len() > 0
            invariant
                replies@.len() + pending@.len() == all.len(),
                pending@ == all.skip(replies@.len() as int),
                self.transcript@.len() == base.len() + replies@.len(),
                forall|k: int| 0 <= k < base.len() ==> self.transcript@[k] == base[k],
                forall|k: int|
                    0 <= k < replies@.len() ==> self.transcript@[base.len() + k] == (
                    all[k],
                    replies@[k],
                ),
            decreases pending@.len(),
        {
            let ghost k = replies@.len() as int;
            proof {
                assert(pending@[0] == all[k]);
            }
            let request = pending.remove(0);
            let reply = self.call(request);
            replies.push(reply);
            proof {
                assert(pending@ =~= all.skip(replies@.len() as int));
            }
        }
        replies
    }
}

/// Law: per evaluation, host calls observe program order. However a
/// transcript was extended by sequential calls, each reply stands at the
/// index of its own request: replies arrive in the order of the requests,
/// never crossed between requests.
pub proof fn lemma_replies_in_request_order(
    base: Seq<(CallbackRequestType, Result<CallbackResponse, BusError>)>,
    request: CallbackRequestType,
    reply: Result<CallbackResponse, BusError>,
)
    ensures
        base.push((request, reply)).len() == base.len() + 1,
        base.push((request, reply))[base.len() as int].0 == request,
        base.push((request, reply))[base.len() as int].1 == reply,
        forall|k: int| 0 <= k < base.len() ==> base.push((request, reply))[k] == base[k],
{
}

/// The canonical key of one string field: its length, then its characters.
pub open spec fn spec_key_field(s: Seq<char>) -> Seq<char> {
    dec_digits(s.len()) + ":"@ + s + ";"@
}

/// The canonical key of an optional string field.
pub open spec fn spec_key_opt(o: Option<Seq<char>>) -> Seq<char> {
    match o {
        None => "-;"@,
        Some(s) => "+"@ + spec_key_field(s),
    }
}

/// The canonical key of a number field.
pub open spec fn spec_key_u64(n: u64) -> Seq<char> {
    dec_digits(n as nat) + ";"@
}

/// The canonical key of a list of string fields.
pub open spec fn spec_key_strings(v: Seq<String>) -> Seq<char>
    decreases v.len(),
{
    if v.len() == 0 {
        Seq::empty()
    } else {
        spec_key_strings(v.drop_last()) + spec_key_field(v.last()@)
    }
}

pub open spec fn spec_key_bytes_body(b: Seq<u8>) -> Seq<char>
    decreases b.len(),
{
    if b.len() == 0 {
        Seq::empty()
    } else {
        spec_key_bytes_body(b.drop_last()) + dec_digits(b.last() as nat) + ","@
    }
}

/// The canonical key of a byte-string field: each byte in decimal, then the
/// terminator.
pub open spec fn spec_key_bytes(b: Seq<u8>) -> Seq<char> {
    spec_key_bytes_body(b) + ";"@
}

fn key_push_field(out: &mut String, s: &str)
    ensures
        final(out)@ == old(out)@ + spec_key_field(s@),
{
    let len = u64_to_string(s.unicode_len() as u64);
    out.append(len.as_str());
    out.append(":");
    out.append(s);
    out.append(";");
    proof {
        assert(out@ =~= old(out)@ + spec_key_field(s@));
    }
}

fn key_push_opt(out: &mut String, o: &Option<String>)
    ensures
        final(out)@ == old(out)@ + spec_key_opt(
            match *o {
                Some(ref s) => Some(s@),
                None => None,
            },
        ),
{
    match o {
        None => {
            out.append("-;");
        },
        Some(s) => {
            out.append("+");
            key_push_field(out, s.as_str());
        },
    }
    proof {
        assert(out@ =~= old(out)@ + spec_key_opt(
            match *o {
                Some(ref s) => Some(s@),
                None => None,
            },
        ));
    }
}

fn key_push_u64(out: &mut String, n: u64)
    ensures
        final(out)@ == old(out)@ + spec_key_u64(n),
{
    let s = u64_to_string(n);
    out.append(s.as_str());
    out.append(";");
    proof {
        assert(out@ =~= old(out)@ + spec_key_u64(n));
    }
}

fn key_push_strings(out: &mut String, v: &Vec<String>)
    ensures
        final(out)@ == old(out)@ + spec_key_strings(v@),
{
    let n = v.len();
    let mut i: usize = 0;
    while i < n
        invariant
            i <= n,
            n == v@.len(),
            out@ == old(out)@ + spec_key_strings(v@.take(i as int)),
        decreases n - i,
    {
        key_push_field(out, v[i].as_str());
        proof {
            assert(v@.take(i as int + 1).drop_last() =~= v@.take(i as int));
            assert(v@.take(i as int + 1).last() == v@[i as int]);
            assert(out@ =~= old(out)@ + spec_key_strings(v@.take(i as int + 1)));
        }
        i += 1;
    }
    proof {
        assert(v@.take(n as int) =~= v@);
    }
}

fn key_push_bytes(out: &mut String, b: &Vec<u8>)
    ensures
        final(out)@ == old(out)@ + spec_key_bytes(b@),
{
    let n = b.len();
    let mut i: usize = 0;
    while i < n
        invariant
            i <= n,
            n == b@.len(),
            out@ == old(out)@ + spec_key_bytes_body(b@.take(i as int)),
        decreases n - i,
    {
        let d = u64_to_string(b[i] as u64);
        out.append(d.as_str());
        out.append(",");
        proof {
            assert(b@.take(i as int + 1).drop_last() =~= b@.take(i as int));
            assert(b@.take(i as int + 1).last() == b@[i as int]);
            assert(out@ =~= old(out)@ + spec_key_bytes_body(b@.take(i as int + 1)));
        }
        i += 1;
    }
    out.append(";");
    proof {
        assert(b@.take(n as int) =~= b@);
        assert(out@ =~= old(out)@ + spec_key_bytes(b@));
    }
}

pub open spec fn view_opt(o: Option<String>) -> Option<Seq<char>> {
    match o {
        Some(s) => Some(s@),
        None => None,
    }
}

/// The canonical key of a permission request.
pub open spec fn spec_key_sar(r: SubjectAccessReview) -> Seq<char> {
    spec_key_field(r.user@) + spec_key_strings(r.groups@) + spec_key_field(r.verb@)
        + spec_key_field(r.group@) + spec_key_field(r.resource@) + spec_key_opt(
        view_opt(r.namespace),
    )
}

fn key_push_sar(out: &mut String, r: &SubjectAccessReview)
    ensures
        final(out)@ == old(out)@ + spec_key_sar(*r),
{
    key_push_field(out, r.user.as_str());
    key_push_strings(out, &r.groups);
    key_push_field(out, r.verb.as_str());
    key_push_field(out, r.group.as_str());
    key_push_field(out, r.resource.as_str());
    key_push_opt(out, &r.namespace);
    proof {
        assert(out@ =~= old(out)@ + spec_key_sar(*r));
    }
}

/// The canonical key of a request: a tag naming the verb, then every field
/// in order. Requests that differ get different keys, and one request always
/// gets the same key, in every process — this is what record/replay journals
/// are keyed by.
pub open spec fn spec_request_key(r: CallbackRequestType) -> Seq<char> {
    match r {
        CallbackRequestType::OciManifest { image } => "oci-manifest/"@ + spec_key_field(image@),
        CallbackRequestType::OciManifestDigest { image } => "oci-manifest-digest/"@
            + spec_key_field(image@),
        CallbackRequestType::OciManifestAndConfig { image } => "oci-manifest-and-config/"@
            + spec_key_field(image@),
        CallbackRequestType::SigstorePubKeysVerify { image, pub_keys } => "sigstore-pub-keys/"@
            + spec_key_field(image@) + spec_key_strings(pub_keys@),
        CallbackRequestType::SigstoreKeylessVerify { image, issuer, subject } => "sigstore-keyless/"@
            + spec_key_field(image@) + spec_key_field(issuer@) + spec_key_field(subject@),
        CallbackRequestType::SigstoreGithubActionsVerify { image, owner, repository } => "sigstore-github-actions/"@
            + spec_key_field(image@) + spec_key_field(owner@) + spec_key_opt(view_opt(repository)),
        CallbackRequestType::SigstoreCertificateVerify { image, certificate } => "sigstore-certificate/"@
            + spec_key_field(image@) + spec_key_bytes(certificate@),
        CallbackRequestType::DnsLookupHost { host } => "dns-lookup-host/"@ + spec_key_field(host@),
        CallbackRequestType::KubernetesListResourceAll {
            api_version,
            kind,
            label_selector,
            field_selector,
        } => "kube-list-all/"@ + spec_key_field(api_version@) + spec_key_field(kind@)
            + spec_key_opt(view_opt(label_selector)) + spec_key_opt(view_opt(field_selector)),
        CallbackRequestType::KubernetesListResourceByNamespace {
            api_version,
            kind,
            namespace,
            label_selector,
            field_selector,
        } => "kube-list-namespace/"@ + spec_key_field(api_version@) + spec_key_field(kind@)
            + spec_key_field(namespace@) + spec_key_opt(view_opt(label_selector)) + spec_key_opt(
            view_opt(field_selector),
        ),
        CallbackRequestType::KubernetesGetResource { api_version, kind, name, namespace } => "kube-get/"@
            + spec_key_field(api_version@) + spec_key_field(kind@) + spec_key_field(name@)
            + spec_key_opt(view_opt(namespace)),
        CallbackRequestType::KubernetesGetResourcePluralName { api_version, kind } => "kube-plural-name/"@
            + spec_key_field(api_version@) + spec_key_field(kind@),
        CallbackRequestType::KubernetesCanI { request } => "kube-can-i/"@ + spec_key_sar(request),
        CallbackRequestType::HasKubernetesListResourceAllResultChangedSinceInstant {
            api_version,
            kind,
            label_selector,
            field_selector,
            since,
        } => "kube-list-all-changed-since/"@ + spec_key_field(api_version@) + spec_key_field(kind@)
            + spec_key_opt(view_opt(label_selector)) + spec_key_opt(view_opt(field_selector))
            + spec_key_u64(since),
    }
}

/// Render the canonical key of a request.
pub fn request_key(r: &CallbackRequestType) -> (key: String)
    ensures
        key@ == spec_request_key(*r),
{
    let mut out: String;
    match r {
        CallbackRequestType::OciManifest { image } => {
            out = "oci-manifest/".to_owned();
            key_push_field(&mut out, image.as_str());
        },
        CallbackRequestType::OciManifestDigest { image } => {
            out = "oci-manifest-digest/".to_owned();
            key_push_field(&mut out, image.as_str());
        },
        CallbackRequestType::OciManifestAndConfig { image } => {
            out = "oci-manifest-and-config/".to_owned();
            key_push_field(&mut out, image.as_str());
        },
        CallbackRequestType::SigstorePubKeysVerify { image, pub_keys } => {
            out = "sigstore-pub-keys/".to_owned();
            key_push_field(&mut out, image.as_str());
            key_push_strings(&mut out, pub_keys);
        },
        CallbackRequestType::SigstoreKeylessVerify { image, issuer, subject } => {
            out = "sigstore-keyless/".to_owned();
            key_push_field(&mut out, image.as_str());
            key_push_field(&mut out, issuer.as_str());
            key_push_field(&mut out, subject.as_str());
        },
        CallbackRequestType::SigstoreGithubActionsVerify { image, owner, repository } => {
            out = "sigstore-github-actions/".to_owned();
            key_push_field(&mut out, image.as_str());
            key_push_field(&mut out, owner.as_str());
            key_push_opt(&mut out, repository);
        },
        CallbackRequestType::SigstoreCertificateVerify { image, certificate } => {
            out = "sigstore-certificate/".to_owned();
            key_push_field(&mut out, image.as_str());
            key_push_bytes(&mut out, certificate);
        },
        CallbackRequestType::DnsLookupHost { host } => {
            out = "dns-lookup-host/".to_owned();
            key_push_field(&mut out, host.as_str());
        },
        CallbackRequestType::KubernetesListResourceAll {
            api_version,
            kind,
            label_selector,
            field_selector,
        } => {
            out = "kube-list-all/".to_owned();
            key_push_field(&mut out, api_version.as_str());
            key_push_field(&mut out, kind.as_str());
            key_push_opt(&mut out, label_selector);
            key_push_opt(&mut out, field_selector);
        },
        CallbackRequestType::KubernetesListResourceByNamespace {
            api_version,
            kind,
            namespace,
            label_selector,
            field_selector,
        } => {
            out = "kube-list-namespace/".to_owned();
            key_push_field(&mut out, api_version.as_str());
            key_push_field(&mut out, kind.as_str());
            key_push_field(&mut out, namespace.as_str());
            key_push_opt(&mut out, label_selector);
            key_push_opt(&mut out, field_selector);
        },
        CallbackRequestType::KubernetesGetResource { api_version, kind, name, namespace } => {
            out = "kube-get/".to_owned();
            key_push_field(&mut out, api_version.as_str());
            key_push_field(&mut out, kind.as_str());
            key_push_field(&mut out, name.as_str());
            key_push_opt(&mut out, namespace);
        },
        CallbackRequestType::KubernetesGetResourcePluralName { api_version, kind } => {
            out = "kube-plural-name/".to_owned();
            key_push_field(&mut out, api_version.as_str());
            key_push_field(&mut out, kind.as_str());
        },
        CallbackRequestType::KubernetesCanI { request } => {
            out = "kube-can-i/".to_owned();
            key_push_sar(&mut out, request);
        },
        CallbackRequestType::HasKubernetesListResourceAllResultChangedSinceInstant {
            api_version,
            kind,
            label_selector,
            field_selector,
            since,
        } => {
            out = "kube-list-all-changed-since/".to_owned();
            key_push_field(&mut out, api_version.as_str());
            key_push_field(&mut out, kind.as_str());
            key_push_opt(&mut out, label_selector);
            key_push_opt(&mut out, field_selector);
            key_push_u64(&mut out, *since);
        },
    }
    proof {
        assert(out@ =~= spec_request_key(*r));
    }
    out
}

} // verus!
