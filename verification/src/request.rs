//! Where a compaction request goes: which provider, which model, and through which client.

use vstd::prelude::*;

use crate::config;
use crate::config::{Config, ModelProviderInfo};
use crate::text::same_text;

verus! {

/// The features that shape a client.
#[derive(Clone, Copy, Debug, PartialEq, Eq, Structural)]
pub struct Features {
    pub use_agent_identity: bool,
    pub content_item_kinds: bool,
    pub enable_request_compression: bool,
    pub runtime_metrics: bool,
    pub concurrent_reasoning_summaries: bool,
}

/// How an agent proves who it is.
#[derive(Clone, Copy, Debug, PartialEq, Eq, Structural)]
pub enum AgentIdentityAuthPolicy {
    ChatGptAuth,
    JwtOnly,
}

/// A client of its own for compaction.
#[derive(Debug, PartialEq, Eq)]
pub struct ClientPlan {
    pub provider_info: ModelProviderInfo,
    pub auth_policy: AgentIdentityAuthPolicy,
    pub content_item_kinds: bool,
    pub request_compression: bool,
    pub runtime_metrics: bool,
    pub concurrent_reasoning_summaries: bool,
}

/// Request-side context for compaction.
#[derive(Debug, PartialEq, Eq)]
pub struct CompactionRequest {
    /// Whether the request uses the session's own context as it is.
    pub own_context: bool,
    /// The provider that replaces the session's, if one does.
    pub provider: Option<ModelProviderInfo>,
    /// The model that the context has to be resolved for anew, if that is needed.
    pub resolve_model: Option<String>,
    /// The client to be made for the request; without one the session's client serves.
    pub client: Option<ClientPlan>,
}

/// What a `CompactionRequest` holds.
pub struct RequestModel {
    pub own_context: bool,
    pub provider: Option<config::ProviderModel>,
    pub resolve_model: Option<Seq<char>>,
    pub client: Option<ClientModel>,
}

/// What a `ClientPlan` holds.
pub struct ClientModel {
    pub provider_info: config::ProviderModel,
    pub auth_policy: AgentIdentityAuthPolicy,
    pub content_item_kinds: bool,
    pub request_compression: bool,
    pub runtime_metrics: bool,
    pub concurrent_reasoning_summaries: bool,
}

impl DeepView for ClientPlan {
    type V = ClientModel;

    open spec fn deep_view(&self) -> ClientModel {
        ClientModel {
            provider_info: self.provider_info.deep_view(),
            auth_policy: self.auth_policy,
            content_item_kinds: self.content_item_kinds,
            request_compression: self.request_compression,
            runtime_metrics: self.runtime_metrics,
            concurrent_reasoning_summaries: self.concurrent_reasoning_summaries,
        }
    }
}

impl View for CompactionRequest {
    type V = RequestModel;

    open spec fn view(&self) -> RequestModel {
        RequestModel {
            own_context: self.own_context,
            provider: self.provider.deep_view(),
            resolve_model: self.resolve_model.deep_view(),
            client: self.client.deep_view(),
        }
    }
}

/// The client for a provider.
pub open spec fn client_for(info: config::ProviderModel, features: Features) -> ClientModel {
    ClientModel {
        provider_info: info,
        auth_policy: if features.use_agent_identity {
            AgentIdentityAuthPolicy::ChatGptAuth
        } else {
            AgentIdentityAuthPolicy::JwtOnly
        },
        content_item_kinds: features.content_item_kinds,
        request_compression: features.enable_request_compression,
        runtime_metrics: features.runtime_metrics,
        concurrent_reasoning_summaries: features.concurrent_reasoning_summaries,
    }
}

/// Where a compaction request goes in a session that runs on `session_model`.
pub open spec fn request_for(
    config: config::ConfigModel,
    features: Features,
    session_model: Seq<char>,
) -> RequestModel {
    RequestModel {
        own_context: config.compact_provider is None && config.compact_model is None,
        provider: config.compact_provider,
        resolve_model: if config.compact_model == Some(session_model) {
            None
        } else {
            config.compact_model
        },
        client: match config.compact_provider {
            Some(info) => Some(client_for(info, features)),
            None => None,
        },
    }
}

/// The request context and client for compaction in a session that runs on `session_model`.
/// Without a provider or model of its own, compaction uses the session's own context and
/// client. Only a different model needs to be resolved anew, and only a provider of its own
/// needs a client of its own.
pub fn compaction_request(config: &Config, features: &Features, session_model: &str) -> (request:
    CompactionRequest)
    ensures
        request@ == request_for(config@, *features, session_model@),
{
    let resolve_model = match &config.compact_model {
        Some(model) => if same_text(model.as_str(), session_model) {
            None
        } else {
            Some(model.clone())
        },
        None => None,
    };
    match &config.compact_model_provider {
        Some(info) => {
            let client = ClientPlan {
                provider_info: info.clone(),
                auth_policy: if features.use_agent_identity {
                    AgentIdentityAuthPolicy::ChatGptAuth
                } else {
                    AgentIdentityAuthPolicy::JwtOnly
                },
                content_item_kinds: features.content_item_kinds,
                request_compression: features.enable_request_compression,
                runtime_metrics: features.runtime_metrics,
                concurrent_reasoning_summaries: features.concurrent_reasoning_summaries,
            };
            CompactionRequest {
                own_context: false,
                provider: Some(info.clone()),
                resolve_model,
                client: Some(client),
            }
        },
        None => CompactionRequest {
            own_context: config.compact_model.is_none(),
            provider: None,
            resolve_model,
            client: None,
        },
    }
}

/// Without a provider or model of its own, compaction is a request like any other of the
/// session.
pub proof fn law_unconfigured_compaction_uses_the_session(
    config: config::ConfigModel,
    features: Features,
    session_model: Seq<char>,
)
    requires
        config.compact_provider is None,
        config.compact_model is None,
    ensures
        request_for(config, features, session_model) == (RequestModel {
            own_context: true,
            provider: None,
            resolve_model: None,
            client: None,
        }),
{
}

/// A compaction model never changes the provider: whatever model is configured, the request
/// goes to the same provider through the same client.
pub proof fn law_the_model_leaves_the_provider_alone(
    config: config::ConfigModel,
    features: Features,
    session_model: Seq<char>,
    model: Option<Seq<char>>,
)
    ensures
        ({
            let other = config::ConfigModel { compact_model: model, ..config };
            let a = request_for(config, features, session_model);
            let b = request_for(other, features, session_model);
            a.provider == b.provider && a.client == b.client
        }),
{
}

/// Whatever the provider, a configured model that is not the session's is the one that the
/// request is resolved for; without one, or with the session's, nothing is resolved anew.
pub proof fn law_a_different_model_is_always_resolved(
    config: config::ConfigModel,
    features: Features,
    session_model: Seq<char>,
)
    ensures
        ({
            let request = request_for(config, features, session_model);
            &&& config.compact_model matches Some(model) ==> if model != session_model {
                request.resolve_model == Some(model)
            } else {
                request.resolve_model is None
            }
            &&& config.compact_model is None ==> request.resolve_model is None
        }),
{
}

/// A configured provider takes the request, whatever the model, through a client made for it
/// that has each feature exactly if it is on. Without one the session's client serves.
pub proof fn law_a_configured_provider_has_its_own_client(
    config: config::ConfigModel,
    features: Features,
    session_model: Seq<char>,
)
    ensures
        ({
            let request = request_for(config, features, session_model);
            &&& config.compact_provider is None ==> request.provider is None
                && request.client is None
            &&& config.compact_provider matches Some(info) ==> {
                &&& request.provider == Some(info)
                &&& request.client matches Some(client)
                &&& client.provider_info == info
                &&& client.content_item_kinds == features.content_item_kinds
                &&& client.request_compression == features.enable_request_compression
                &&& client.runtime_metrics == features.runtime_metrics
                &&& client.concurrent_reasoning_summaries
                    == features.concurrent_reasoning_summaries
                &&& (client.auth_policy == AgentIdentityAuthPolicy::ChatGptAuth
                    <==> features.use_agent_identity)
            }
            &&& (request.own_context <==> config.compact_provider is None
                && config.compact_model is None)
        }),
{
}

/// A request is told by everything in it.
pub proof fn law_requests_are_told_by_their_parts(request: CompactionRequest)
    ensures
        request@.own_context == request.own_context,
        request@.provider == (match request.provider {
            Some(info) => Some(info.deep_view()),
            None => None,
        }),
        request@.resolve_model == (match request.resolve_model {
            Some(model) => Some(model@),
            None => None,
        }),
        request.client is None ==> request@.client is None,
        request.client matches Some(client) ==> request@.client == Some(
            ClientModel {
                provider_info: client.provider_info.deep_view(),
                auth_policy: client.auth_policy,
                content_item_kinds: client.content_item_kinds,
                request_compression: client.request_compression,
                runtime_metrics: client.runtime_metrics,
                concurrent_reasoning_summaries: client.concurrent_reasoning_summaries,
            },
        ),
{
}

} // verus!
