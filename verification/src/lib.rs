//! Core of a Kubernetes admission-policy engine.
//!
//! Policies are WebAssembly modules. The engine loads them ([`precompile`]),
//! checks their metadata against the running platform ([`metadata`],
//! [`version`]), evaluates requests against them ([`evaluator`]), and gives
//! the guests a controlled host-capability surface: a typed request bus
//! ([`bus`]) with canonical payloads ([`codec`]), a record/replay proxy for
//! reproducible offline evaluation ([`proxy`]), capability gating and
//! dispatch ([`router`]), a mirror of the cluster with
//! change detection ([`kube`]), short-TTL memo caches for point lookups
//! ([`memo`]), and context snapshots for policy-as-data guests
//! ([`context_aware`]). Policy images are signature-verified ([`verify`])
//! against trust settings ([`sources`]). Operator tooling reads the local
//! store ([`policies`]) and renders policy metadata ([`inspect`]).

pub mod builtins;
pub mod bus;
pub mod codec;
pub mod context_aware;
pub mod evaluator;
pub mod inspect;
pub mod kube;
pub mod memo;
pub mod metadata;
pub mod policies;
pub mod precompile;
pub mod proxy;
pub mod router;
pub mod sources;
pub mod text;
pub mod verify;
pub mod version;
