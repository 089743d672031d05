//! The plugin: the profiles that are registered, and the steps of a call that
//! are not the provider's.

use core::time::Duration;
use std::sync::Arc;
use vstd::prelude::*;
use vstd::string::StringExecFns;

use crate::config::{ImageExecutionSpec, StabilityImageSpec};
#[allow(unused_imports)]
use crate::config::{base_url_of, is_route, route_of, validation};
use crate::error::{BackendError, ConfigError, ProviderError};
#[allow(unused_imports)]
use crate::error::{BackendErrorModel, ProviderErrorModel, viewed};
use crate::image_adapter::StabilityImageAdapter;
#[allow(unused_imports)]
use crate::image_adapter::{AdapterModel, USER_AGENT, adapter_model, endpoint_model};
use crate::outside::{json_empty_object, json_to_vec, parse_json};
#[allow(unused_imports)]
use crate::outside::{JsonNode, braces, json_document, json_node, json_rendering, millis_span};
use crate::text::same_text;
#[allow(unused_imports)]
use crate::text::{
    lower, lowering_is_idempotent, lowering_keeps_trimmed, run_at_the_end_is_cut, trimmed,
};

verus! {

/// What a plugin is for.
#[derive(Debug, Clone, Copy, PartialEq, Eq)]
pub enum PluginClass {
    Backend,
}

/// What a plugin needs of the gateway.
#[derive(Debug, Clone, Copy, PartialEq, Eq)]
pub enum PluginCapability {
    /// Requests to the network.
    NetworkOutbound,
}

/// The name that a capability is declared under.
pub open spec fn capability_name(capability: PluginCapability) -> Seq<char> {
    match capability {
        PluginCapability::NetworkOutbound => "network_outbound"@,
    }
}

impl PluginCapability {
    /// The name that the capability is declared under.
    pub fn name(&self) -> (name: &'static str)
        ensures
            name@ == capability_name(*self),
    {
        match self {
            PluginCapability::NetworkOutbound => "network_outbound",
        }
    }
}

/// The plugin's name among the gateway's plugins.
pub const PLUGIN_ID: &'static str = "dev.mcpg.backend.stability.image";

/// The plugin's name for people.
pub const PLUGIN_NAME: &'static str = "Stability AI Image Generation";

/// The kind of backend that bindings select.
pub const PLUGIN_KIND: &'static str = "stability.image";

/// How a plugin presents itself to the gateway.
pub struct PluginManifest {
    pub id: &'static str,
    pub name: &'static str,
    pub class: PluginClass,
    pub capabilities: Vec<PluginCapability>,
}

/// Whether a manifest is the one of this plugin.
pub open spec fn is_own_manifest(manifest: PluginManifest) -> bool {
    &&& manifest.id@ == PLUGIN_ID@
    &&& manifest.name@ == PLUGIN_NAME@
    &&& manifest.class == PluginClass::Backend
    &&& manifest.capabilities@ == seq![PluginCapability::NetworkOutbound]
}

/// What is registered under a name.
pub struct Profile {
    pub backend_name: String,
    pub adapter: Arc<StabilityImageAdapter>,
    pub image: ImageExecutionSpec,
}

/// A [`Profile`], but for its name, as a mathematical value.
pub struct ProfileModel {
    pub adapter: AdapterModel,
    pub model: Seq<char>,
    pub connect_timeout_ms: u64,
}

impl View for Profile {
    type V = ProfileModel;

    open spec fn view(&self) -> ProfileModel {
        ProfileModel {
            adapter: self.adapter@,
            model: self.image.model@,
            connect_timeout_ms: self.image.connect_timeout_ms,
        }
    }
}

/// Whether the profile at `i` is registered under `name`.
spec fn is_at(profiles: Seq<Profile>, name: Seq<char>, i: int) -> bool {
    0 <= i < profiles.len() && profiles[i].backend_name@ == name
}

/// The names of a list of profiles.
spec fn names_of(profiles: Seq<Profile>) -> Seq<Seq<char>> {
    Seq::new(profiles.len(), |i: int| profiles[i].backend_name@)
}

/// A list of profiles as a map from names.
spec fn profiles_map(profiles: Seq<Profile>) -> Map<Seq<char>, ProfileModel> {
    Map::new(
        |name: Seq<char>| names_of(profiles).contains(name),
        |name: Seq<char>| profiles[choose|i: int| is_at(profiles, name, i)]@,
    )
}

proof fn lemma_profiles_map(profiles: Seq<Profile>)
    requires
        names_of(profiles).no_duplicates(),
    ensures
        forall|i: int|
            #![trigger profiles[i]]
            0 <= i < profiles.len() ==> profiles_map(profiles).contains_key(
                profiles[i].backend_name@,
            ) && profiles_map(profiles)[profiles[i].backend_name@] == profiles[i]@,
        profiles_map(profiles).dom() == names_of(profiles).to_set(),
        profiles_map(profiles).dom().finite(),
        profiles_map(profiles).dom().len() == profiles.len(),
{
    let names = names_of(profiles);
    assert forall|i: int|
        #![trigger profiles[i]]
        0 <= i < profiles.len() implies profiles_map(profiles).contains_key(
        profiles[i].backend_name@,
    ) && profiles_map(profiles)[profiles[i].backend_name@] == profiles[i]@ by {
        let name = profiles[i].backend_name@;
        assert(names[i] == name);
        assert(is_at(profiles, name, i));
        let j = choose|j: int| is_at(profiles, name, j);
        assert(is_at(profiles, name, j));
        assert(names[j] == name);
    }
    assert(profiles_map(profiles).dom() =~= names.to_set());
    names.unique_seq_to_set();
}

/// The plugin's state: at most one profile for a name.
pub struct StabilityImagePlugin {
    manifest: PluginManifest,
    profiles: Vec<Profile>,
}

impl View for StabilityImagePlugin {
    type V = Map<Seq<char>, ProfileModel>;

    /// The profile that is registered under each name.
    closed spec fn view(&self) -> Map<Seq<char>, ProfileModel> {
        profiles_map(self.profiles@)
    }
}

impl Default for StabilityImagePlugin {
    fn default() -> (plugin: Self)
        ensures
            plugin.wf(),
            plugin@.dom().is_empty(),
            is_own_manifest(plugin.spec_manifest()),
    {
        Self::new()
    }
}

/// The refusal of a binding whose adapter could not be made, for the reason
/// that `fault` says.
pub open spec fn adapter_refusal(fault: Seq<char>) -> BackendErrorModel {
    BackendErrorModel::InvalidSpec("build stability image adapter: "@ + fault)
}

/// The fault that there is no HTTP client.
pub open spec fn client_fault(fault: Seq<char>) -> ProviderErrorModel {
    ProviderErrorModel::Network("build http client: "@ + fault)
}

/// Why there is no adapter for a binding.
#[derive(Debug, PartialEq, Eq)]
pub enum AdapterFault {
    /// The configuration or the key is refused.
    Rejected { message: String },
    /// The adapter could not be made.
    NotMade { fault: ProviderError },
}

/// An [`AdapterFault`] as a mathematical value.
pub enum AdapterFaultModel {
    Rejected(Seq<char>),
    NotMade(ProviderErrorModel),
}

impl View for AdapterFault {
    type V = AdapterFaultModel;

    open spec fn view(&self) -> AdapterFaultModel {
        match self {
            AdapterFault::Rejected { message } => AdapterFaultModel::Rejected(message@),
            AdapterFault::NotMade { fault } => AdapterFaultModel::NotMade(fault@),
        }
    }
}

/// How the gateway is told that there is no adapter.
pub open spec fn fault_refusal(fault: AdapterFaultModel) -> BackendErrorModel {
    match fault {
        AdapterFaultModel::Rejected(message) => BackendErrorModel::InvalidSpec(message),
        AdapterFaultModel::NotMade(why) => adapter_refusal(why.text()),
    }
}

/// The arguments of a call: none at all where the payload is empty, or an
/// object without members.
pub open spec fn arguments_model(payload: Seq<u8>) -> Result<JsonNode, BackendErrorModel> {
    if payload.len() == 0 || payload == braces() {
        Ok(JsonNode::Members(Map::empty()))
    } else {
        match json_document(payload) {
            Ok(node) => Ok(node),
            Err(fault) => Err(
                BackendErrorModel::InvalidSpec("execute payload was not JSON: "@ + fault),
            ),
        }
    }
}

/// Reads the arguments of a call.
pub fn execute_arguments(payload: &[u8]) -> (args: Result<serde_json::Value, BackendError>)
    ensures
        match args {
            Ok(value) => arguments_model(payload@) == Ok::<JsonNode, BackendErrorModel>(
                json_node(value),
            ),
            Err(refusal) => arguments_model(payload@) == Err::<JsonNode, BackendErrorModel>(
                refusal@,
            ),
        },
{
    if payload.len() == 0 {
        let value = json_empty_object();
        assert(json_node(value)->Members_0 =~= Map::empty());
        return Ok(value);
    }
    match parse_json(payload) {
        Ok(value) => Ok(value),
        Err(fault) => Err(
            BackendError::InvalidSpec {
                message: String::from_str("execute payload was not JSON: ").concat(fault.as_str()),
            },
        ),
    }
}

/// What a call hands back to the gateway.
#[derive(Debug, PartialEq, Eq)]
pub struct BackendResponse {
    pub payload: Vec<u8>,
    pub truncated: bool,
}

/// Writes what a call brought as the payload that is handed back. Every value
/// can be written.
pub fn finish_execute(value: &serde_json::Value) -> (response: Result<
    BackendResponse,
    BackendError,
>)
    ensures
        response matches Ok(done) && done.payload@ == json_rendering(json_node(*value))
            && !done.truncated,
{
    match json_to_vec(value) {
        Ok(payload) => Ok(BackendResponse { payload, truncated: false }),
        Err(fault) => Err(
            BackendError::Transport {
                message: String::from_str("serialize image response: ").concat(fault.as_str()),
            },
        ),
    }
}

/// The labels that a call is counted under.
pub struct CallLabels {
    pub backend: String,
    pub provider: &'static str,
    pub model: String,
    pub status: &'static str,
}

impl Profile {
    /// The labels that a call to this profile is counted under.
    pub fn call_labels(&self, succeeded: bool) -> (labels: CallLabels)
        ensures
            labels.backend@ == self.backend_name@,
            labels.provider@ == "stability"@,
            labels.model@ == self.image.model@,
            labels.status@ == (if succeeded {
                "ok"@
            } else {
                "error"@
            }),
    {
        CallLabels {
            backend: self.backend_name.clone(),
            provider: self.adapter.label(),
            model: self.image.model.clone(),
            status: if succeeded {
                "ok"
            } else {
                "error"
            },
        }
    }
}

impl StabilityImagePlugin {
    /// No two profiles share a name, and every profile has a key and a route of
    /// the API's, the one that its model names.
    pub closed spec fn wf(&self) -> bool {
        &&& names_of(self.profiles@).no_duplicates()
        &&& forall|i: int|
            0 <= i < self.profiles@.len() ==> is_callable((#[trigger] self.profiles@[i])@)
    }

    /// What the plugin tells the gateway of itself.
    pub closed spec fn spec_manifest(&self) -> PluginManifest {
        self.manifest
    }

    pub fn new() -> (plugin: Self)
        ensures
            plugin.wf(),
            plugin@.dom().is_empty(),
            is_own_manifest(plugin.spec_manifest()),
    {
        let mut capabilities: Vec<PluginCapability> = Vec::new();
        capabilities.push(PluginCapability::NetworkOutbound);
        let plugin = StabilityImagePlugin {
            manifest: PluginManifest {
                id: PLUGIN_ID,
                name: PLUGIN_NAME,
                class: PluginClass::Backend,
                capabilities,
            },
            profiles: Vec::new(),
        };
        assert(plugin@.dom() =~= Set::empty());
        assert(plugin.manifest.capabilities@ =~= seq![PluginCapability::NetworkOutbound]);
        plugin
    }

    /// How the plugin presents itself.
    pub fn manifest(&self) -> (manifest: &PluginManifest)
        ensures
            *manifest == self.spec_manifest(),
    {
        &self.manifest
    }

    /// The kind of backend that bindings select.
    pub fn kind(&self) -> (kind: &'static str)
        ensures
            kind@ == PLUGIN_KIND@,
    {
        PLUGIN_KIND
    }

    /// How many names have a profile.
    pub fn registered_profile_count(&self) -> (count: usize)
        requires
            self.wf(),
        ensures
            count == self@.dom().len(),
            self@.dom().finite(),
    {
        proof {
            lemma_profiles_map(self.profiles@);
        }
        self.profiles.len()
    }

    /// The place of a name among the profiles.
    fn position(&self, backend_name: &str) -> (at: Option<usize>)
        requires
            self.wf(),
        ensures
            match at {
                Some(i) => is_at(self.profiles@, backend_name@, i as int),
                None => !self@.contains_key(backend_name@),
            },
    {
        let mut i: usize = 0;
        while i < self.profiles.len()
            invariant
                i <= self.profiles@.len(),
                forall|j: int|
                    0 <= j < i ==> (#[trigger] self.profiles@[j]).backend_name@ != backend_name@,
            decreases self.profiles@.len() - i,
        {
            if same_text(self.profiles[i].backend_name.as_str(), backend_name) {
                return Some(i);
            }
            i = i + 1;
        }
        proof {
            let names = names_of(self.profiles@);
            if names.contains(backend_name@) {
                let j = choose|j: int| 0 <= j < names.len() && names[j] == backend_name@;
                assert(self.profiles@[j].backend_name@ == backend_name@);
            }
        }
        None
    }

    /// The profile of a name.
    pub fn profile(&self, backend_name: &str) -> (found: Result<&Profile, BackendError>)
        requires
            self.wf(),
        ensures
            match found {
                Ok(profile) => self@.contains_key(backend_name@) && self@[backend_name@]
                    == profile@ && profile.backend_name@ == backend_name@,
                Err(refusal) => !self@.contains_key(backend_name@) && refusal@
                    == BackendErrorModel::ProfileNotFound(backend_name@),
            },
    {
        proof {
            lemma_profiles_map(self.profiles@);
        }
        match self.position(backend_name) {
            Some(i) => Ok(&self.profiles[i]),
            None => Err(
                BackendError::ProfileNotFound { backend_name: String::from_str(backend_name) },
            ),
        }
    }

    /// Puts an adapter in the place of a name.
    pub fn register_adapter(
        &mut self,
        backend_name: &str,
        image: ImageExecutionSpec,
        adapter: StabilityImageAdapter,
    )
        requires
            old(self).wf(),
            is_route(route_of(image.model@)),
            adapter@.model_route == route_of(image.model@),
            adapter@.api_key.len() > 0,
        ensures
            final(self).wf(),
            final(self).spec_manifest() == old(self).spec_manifest(),
            final(self)@ == old(self)@.insert(
                backend_name@,
                (ProfileModel {
                    adapter: adapter@,
                    model: image.model@,
                    connect_timeout_ms: image.connect_timeout_ms,
                }),
            ),
    {
        let ghost before = self.profiles@;
        let profile = Profile {
            backend_name: String::from_str(backend_name),
            adapter: Arc::new(adapter),
            image,
        };
        let ghost entry = profile;
        let place = self.position(backend_name);
        match place {
            Some(i) => {
                self.profiles.set(i, profile);
                assert(names_of(self.profiles@) =~= names_of(before));
            },
            None => {
                self.profiles.push(profile);
                assert(names_of(self.profiles@) =~= names_of(before).push(backend_name@));
                assert(names_of(self.profiles@).no_duplicates()) by {
                    assert(!names_of(before).contains(backend_name@));
                }
            },
        }
        proof {
            lemma_profiles_map(before);
            lemma_profiles_map(self.profiles@);
            let after = self.profiles@;
            let expected = profiles_map(before).insert(backend_name@, entry@);
            let at = match place {
                Some(i) => i as int,
                None => before.len() as int,
            };
            assert(after[at] == entry);
            assert forall|name: Seq<char>|
                profiles_map(after).contains_key(name) == expected.contains_key(name) by {
                if expected.contains_key(name) {
                    if name == backend_name@ {
                        assert(names_of(after)[at] == name);
                    } else {
                        let j = names_of(before).index_of(name);
                        assert(names_of(after)[j] == name);
                    }
                }
                if profiles_map(after).contains_key(name) && name != backend_name@ {
                    let j = names_of(after).index_of(name);
                    assert(names_of(before)[j] == name);
                }
            }
            assert forall|name: Seq<char>| profiles_map(after).contains_key(name) implies #[trigger]
            profiles_map(after)[name] == expected[name] by {
                let j = names_of(after).index_of(name);
                assert(names_of(after)[j] == name);
                assert(after[j].backend_name@ == name);
                if name != backend_name@ {
                    assert(before[j] == after[j]);
                }
            }
            assert(profiles_map(after) =~= expected);
        }
    }

    /// Registers a binding under a name, in the place of what was there: its
    /// adapter is the one of [`adapter_for`].
    pub fn register_profile(
        &mut self,
        backend_name: &str,
        spec: StabilityImageSpec,
        shared: Result<(), ConfigError>,
        api_key: &str,
    ) -> (registered: Result<(), BackendError>)
        requires
            old(self).wf(),
        ensures
            final(self).wf(),
            final(self).spec_manifest() == old(self).spec_manifest(),
            registered is Err ==> final(self)@ == old(self)@,
            registered is Err <== must_refuse(viewed(shared), spec, api_key@),
            registered matches Err(refusal) ==> exists|fault: AdapterFaultModel|
                refusal@ == fault_refusal(fault) && #[trigger] can_fault(
                    fault,
                    viewed(shared),
                    spec,
                    api_key@,
                ),
            registered is Ok ==> wanted_adapter(
                spec,
                api_key@,
                millis_span(spec.image.connect_timeout_ms),
            ) is Ok && final(self)@ == old(self)@.insert(
                backend_name@,
                (ProfileModel {
                    adapter: wanted_adapter(
                        spec,
                        api_key@,
                        millis_span(spec.image.connect_timeout_ms),
                    )->Ok_0,
                    model: spec.image.model@,
                    connect_timeout_ms: spec.image.connect_timeout_ms,
                }),
            ),
    {
        let span = spec.image.connect_timeout();
        let adapter = match accept_adapter(adapter_for(&spec, shared, api_key, span)) {
            Ok(made) => made,
            Err(refusal) => {
                return Err(refusal);
            },
        };
        proof {
            wanted_adapter_keeps_what_it_is_given(spec, api_key@, span);
        }
        self.register_adapter(backend_name, spec.image, adapter);
        Ok(())
    }

    /// Finds the profile that a call goes to and reads the call's arguments. An
    /// unknown name is told before arguments that cannot be read.
    pub fn begin_execute(&self, backend_name: &str, payload: &[u8]) -> (begun: Result<
        (&Profile, serde_json::Value),
        BackendError,
    >)
        requires
            self.wf(),
        ensures
            match begun {
                Ok((profile, args)) => self@.contains_key(backend_name@) && self@[backend_name@]
                    == profile@ && profile.backend_name@ == backend_name@ && arguments_model(
                    payload@,
                ) == Ok::<JsonNode, BackendErrorModel>(json_node(args)),
                Err(refusal) => if self@.contains_key(backend_name@) {
                    arguments_model(payload@) == Err::<JsonNode, BackendErrorModel>(refusal@)
                } else {
                    refusal@ == BackendErrorModel::ProfileNotFound(backend_name@)
                },
            },
    {
        let profile = match self.profile(backend_name) {
            Ok(found) => found,
            Err(refusal) => {
                return Err(refusal);
            },
        };
        match execute_arguments(payload) {
            Ok(args) => Ok((profile, args)),
            Err(refusal) => Err(refusal),
        }
    }
}

/// Whether a profile's route is one of the API's, the one that its model names.
pub open spec fn routed(profile: ProfileModel) -> bool {
    is_route(profile.adapter.model_route) && profile.adapter.model_route == route_of(profile.model)
}

/// Whether a profile has a key, and a route that its model names.
pub open spec fn is_callable(profile: ProfileModel) -> bool {
    routed(profile) && profile.adapter.api_key.len() > 0
}

/// The adapter that a configuration, a key and a limit on the TCP connect call
/// for, given a client, or why there is none.
pub open spec fn wanted_adapter(
    spec: StabilityImageSpec,
    api_key: Seq<char>,
    connect_timeout: Duration,
) -> Result<AdapterModel, ProviderErrorModel> {
    adapter_model(
        Ok((USER_AGENT@, connect_timeout)),
        base_url_of(spec.base_url),
        api_key,
        route_of(spec.image.model@),
    )
}

/// The adapter that is called for has the route that the model names, the key
/// and the limit on the TCP connect.
pub proof fn wanted_adapter_keeps_what_it_is_given(
    spec: StabilityImageSpec,
    api_key: Seq<char>,
    connect_timeout: Duration,
)
    requires
        wanted_adapter(spec, api_key, connect_timeout) is Ok,
    ensures
        wanted_adapter(spec, api_key, connect_timeout) matches Ok(adapter) && adapter.model_route
            == route_of(spec.image.model@) && adapter.api_key == api_key && adapter.connect_timeout
            == connect_timeout,
{
    lowering_keeps_trimmed(spec.image.model@);
    lowering_is_idempotent(trimmed(spec.image.model@));
}

/// Whether a configuration and a key are refused on every machine.
pub open spec fn must_refuse(
    shared: Result<(), Seq<char>>,
    spec: StabilityImageSpec,
    api_key: Seq<char>,
) -> bool {
    validation(shared, spec.image.model@) is Err || api_key.len() == 0 || base_url_of(
        spec.base_url,
    ).len() == 0
}

/// Whether `fault` is one that a configuration and a key can meet: the first of
/// what validating, the key and making the adapter bring.
pub open spec fn can_fault(
    fault: AdapterFaultModel,
    shared: Result<(), Seq<char>>,
    spec: StabilityImageSpec,
    api_key: Seq<char>,
) -> bool {
    match validation(shared, spec.image.model@) {
        Err(message) => fault == AdapterFaultModel::Rejected(message),
        Ok(_) => if api_key.len() == 0 {
            fault == AdapterFaultModel::Rejected("api_key is empty"@)
        } else {
            ||| base_url_of(spec.base_url).len() == 0 && fault == AdapterFaultModel::NotMade(
                ProviderErrorModel::BadRequest("base_url is empty"@),
            )
            ||| exists|why: Seq<char>|
                fault == AdapterFaultModel::NotMade(#[trigger] client_fault(why))
        },
    }
}

/// Tells the gateway that an adapter could not be made, for the reason that
/// `fault` says.
pub fn not_made(fault: &str) -> (refusal: BackendError)
    ensures
        refusal@ == adapter_refusal(fault@),
{
    BackendError::InvalidSpec {
        message: String::from_str("build stability image adapter: ").concat(fault),
    }
}

/// Passes on an adapter, or tells the gateway that there is none.
pub fn accept_adapter(made: Result<StabilityImageAdapter, AdapterFault>) -> (accepted: Result<
    StabilityImageAdapter,
    BackendError,
>)
    ensures
        match made {
            Ok(adapter) => accepted == Ok::<StabilityImageAdapter, BackendError>(adapter),
            Err(fault) => accepted matches Err(refusal) && refusal@ == fault_refusal(fault@),
        },
{
    match made {
        Ok(adapter) => Ok(adapter),
        Err(AdapterFault::Rejected { message }) => Err(BackendError::InvalidSpec { message }),
        Err(AdapterFault::NotMade { fault }) => Err(not_made(fault.message())),
    }
}

/// Makes the adapter that a configuration calls for, with a limit on the TCP
/// connect. The configuration is checked, `shared` being the outcome of the
/// checks that every image provider makes, and so is the key, which comes
/// resolved and must not be empty. Whether an HTTP client can be had depends on
/// the machine: where nothing else is refused, the adapter is made or the
/// client's fault is told.
pub fn adapter_for(
    spec: &StabilityImageSpec,
    shared: Result<(), ConfigError>,
    api_key: &str,
    connect_timeout: Duration,
) -> (adapter: Result<StabilityImageAdapter, AdapterFault>)
    ensures
        must_refuse(viewed(shared), *spec, api_key@) ==> adapter is Err,
        match adapter {
            Ok(made) => wanted_adapter(*spec, api_key@, connect_timeout) == Ok::<
                AdapterModel,
                ProviderErrorModel,
            >(made@),
            Err(fault) => can_fault(fault@, viewed(shared), *spec, api_key@),
        },
{
    if let Err(fault) = spec.validate(shared) {
        return Err(AdapterFault::Rejected { message: String::from_str(fault.message()) });
    }
    if api_key.is_empty() {
        return Err(AdapterFault::Rejected { message: String::from_str("api_key is empty") });
    }
    let model_route = spec.model_route();
    let made = StabilityImageAdapter::new(
        spec.resolved_base_url(),
        api_key,
        model_route.as_str(),
        connect_timeout,
    );
    proof {
        lowering_keeps_trimmed(spec.image.model@);
        lowering_is_idempotent(trimmed(spec.image.model@));
        reveal_strlit("core");
        reveal_strlit("sd3");
        reveal_strlit("ultra");
        assert(route_of(spec.image.model@).len() > 0);
        if made is Err && made->Err_0@ is Network {
            let why = choose|why: Seq<char>|
                viewed(made) == #[trigger] adapter_model(
                    Err(why),
                    base_url_of(spec.base_url),
                    api_key@,
                    model_route@,
                );
            assert(made->Err_0@ == client_fault(why));
        }
    }
    match made {
        Ok(adapter) => Ok(adapter),
        Err(fault) => Err(AdapterFault::NotMade { fault }),
    }
}

proof fn lemma_registered(plugin: StabilityImagePlugin, name: Seq<char>)
    requires
        plugin.wf(),
        plugin@.contains_key(name),
    ensures
        is_callable(plugin@[name]),
{
    lemma_profiles_map(plugin.profiles@);
    let names = names_of(plugin.profiles@);
    let i = names.index_of(name);
    assert(names[i] == name);
    assert(plugin.profiles@[i].backend_name@ == name);
}

/// Whatever was registered, every profile goes to one of the API's three
/// routes, the one that its model names.
pub proof fn registered_profiles_are_routed(plugin: StabilityImagePlugin, name: Seq<char>)
    requires
        plugin.wf(),
        plugin@.contains_key(name),
    ensures
        routed(plugin@[name]),
        plugin@[name].adapter.model_route == lower(trimmed(plugin@[name].model)),
        ({
            let adapter = plugin@[name].adapter;
            let url = endpoint_model(adapter.base_url, adapter.model_route);
            ||| url == endpoint_model(adapter.base_url, "core"@)
            ||| url == endpoint_model(adapter.base_url, "sd3"@)
            ||| url == endpoint_model(adapter.base_url, "ultra"@)
        }),
{
    lemma_registered(plugin, name);
}

/// A name finds what was registered under it last; other names find what they
/// found before; and the count grows by one for a new name alone.
pub proof fn last_registration_counts(
    before: Map<Seq<char>, ProfileModel>,
    name: Seq<char>,
    profile: ProfileModel,
)
    requires
        before.dom().finite(),
    ensures
        ({
            let after = before.insert(name, profile);
            &&& after.contains_key(name) && after[name] == profile
            &&& forall|other: Seq<char>|
                other != name ==> (#[trigger] after.contains_key(other) <==> before.contains_key(
                    other,
                ))
            &&& forall|other: Seq<char>|
                other != name && before.contains_key(other) ==> #[trigger] after[other]
                    == before[other]
            &&& after.dom().len() == before.dom().len() + (if before.contains_key(name) {
                0int
            } else {
                1int
            })
        }),
{
}

/// Whatever was registered, no profile has an empty key.
pub proof fn registered_profiles_have_a_key(plugin: StabilityImagePlugin, name: Seq<char>)
    requires
        plugin.wf(),
        plugin@.contains_key(name),
    ensures
        plugin@[name].adapter.api_key.len() > 0,
{
    lemma_registered(plugin, name);
}

/// An empty payload and an object without members are the same arguments, and
/// neither is refused.
pub proof fn empty_payload_is_an_empty_object()
    ensures
        arguments_model(Seq::empty()) == arguments_model(braces()),
        arguments_model(braces()) == Ok::<JsonNode, BackendErrorModel>(
            JsonNode::Members(Map::empty()),
        ),
{
}

/// The arguments of a call are the JSON document of its payload; a payload that
/// is none is refused with the parser's words.
pub proof fn payload_is_read_as_json(payload: Seq<u8>)
    requires
        payload.len() > 0,
        payload != braces(),
    ensures
        json_document(payload) matches Ok(node) ==> arguments_model(payload) == Ok::<
            JsonNode,
            BackendErrorModel,
        >(node),
        json_document(payload) matches Err(fault) ==> arguments_model(payload) == Err::<
            JsonNode,
            BackendErrorModel,
        >(BackendErrorModel::InvalidSpec("execute payload was not JSON: "@ + fault)),
{
}

/// The manifest holds the plugin's names, and declares that it needs the network
/// and nothing else.
pub proof fn manifest_declares_the_network(manifest: PluginManifest)
    requires
        is_own_manifest(manifest),
    ensures
        manifest.id@ == "dev.mcpg.backend.stability.image"@,
        manifest.name@ == "Stability AI Image Generation"@,
        manifest.class == PluginClass::Backend,
        manifest.capabilities@.len() == 1,
        capability_name(manifest.capabilities@[0]) == "network_outbound"@,
{
}

/// A profile shows its adapter, its model and its connect timeout as they are.
pub proof fn profile_shows_its_parts(profile: Profile)
    ensures
        profile@.adapter == profile.adapter@,
        profile@.model == profile.image.model@,
        profile@.connect_timeout_ms == profile.image.connect_timeout_ms,
{
}

/// Why there is no adapter is shown as it is, and told to the gateway in these
/// words.
pub proof fn missing_adapter_is_told(message: String, fault: ProviderError)
    ensures
        (AdapterFault::Rejected { message })@ == AdapterFaultModel::Rejected(message@),
        (AdapterFault::NotMade { fault })@ == AdapterFaultModel::NotMade(fault@),
        fault_refusal(AdapterFaultModel::Rejected(message@)) == BackendErrorModel::InvalidSpec(
            message@,
        ),
        fault_refusal(AdapterFaultModel::NotMade(fault@)) == BackendErrorModel::InvalidSpec(
            "build stability image adapter: "@ + fault@.text(),
        ),
        adapter_refusal(message@) == BackendErrorModel::InvalidSpec(
            "build stability image adapter: "@ + message@,
        ),
{
}

/// A configuration that does not pass is refused with what is wrong with it.
pub proof fn invalid_configuration_is_refused(
    shared: Result<(), Seq<char>>,
    spec: StabilityImageSpec,
    api_key: Seq<char>,
    fault: AdapterFaultModel,
)
    requires
        validation(shared, spec.image.model@) is Err,
    ensures
        must_refuse(shared, spec, api_key),
        can_fault(fault, shared, spec, api_key) <==> fault == AdapterFaultModel::Rejected(
            validation(shared, spec.image.model@)->Err_0,
        ),
{
}

/// An empty key is refused at once, whatever else would go wrong later.
pub proof fn empty_key_is_refused(
    shared: Result<(), Seq<char>>,
    spec: StabilityImageSpec,
    fault: AdapterFaultModel,
)
    requires
        validation(shared, spec.image.model@) is Ok,
    ensures
        must_refuse(shared, spec, Seq::empty()),
        can_fault(fault, shared, spec, Seq::empty()) <==> fault == AdapterFaultModel::Rejected(
            "api_key is empty"@,
        ),
{
}

/// A valid configuration with a key is refused for an empty base URL or for want
/// of a client, in these words, and for nothing else: with a base URL and a
/// client it has an adapter.
pub proof fn only_base_url_and_client_are_left_to_fault(
    shared: Result<(), Seq<char>>,
    spec: StabilityImageSpec,
    api_key: Seq<char>,
    connect_timeout: Duration,
    fault: AdapterFaultModel,
)
    requires
        validation(shared, spec.image.model@) is Ok,
        api_key.len() > 0,
    ensures
        must_refuse(shared, spec, api_key) <==> base_url_of(spec.base_url).len() == 0,
        wanted_adapter(spec, api_key, connect_timeout) is Ok <==> base_url_of(spec.base_url).len()
            > 0,
        can_fault(fault, shared, spec, api_key) ==> (fault == AdapterFaultModel::NotMade(
            ProviderErrorModel::BadRequest("base_url is empty"@),
        ) && base_url_of(spec.base_url).len() == 0) || exists|why: Seq<char>|
            fault == AdapterFaultModel::NotMade(
                ProviderErrorModel::Network(#[trigger] ("build http client: "@ + why)),
            ),
{
    lowering_keeps_trimmed(spec.image.model@);
    lowering_is_idempotent(trimmed(spec.image.model@));
    reveal_strlit("core");
    reveal_strlit("sd3");
    reveal_strlit("ultra");
    assert("core"@.len() == 4 && "sd3"@.len() == 3 && "ultra"@.len() == 5);
    if can_fault(fault, shared, spec, api_key) && !(fault == AdapterFaultModel::NotMade(
        ProviderErrorModel::BadRequest("base_url is empty"@),
    )) {
        let why = choose|why: Seq<char>|
            fault == AdapterFaultModel::NotMade(#[trigger] client_fault(why));
        assert(fault == AdapterFaultModel::NotMade(
            ProviderErrorModel::Network("build http client: "@ + why),
        ));
    }
}

/// A binding is called under the API's path at its base URL, on the route that
/// its model names, with its key and as this plugin.
pub proof fn binding_goes_where_it_is_configured(
    spec: StabilityImageSpec,
    base: Seq<char>,
    slashes: nat,
    api_key: Seq<char>,
    connect_timeout: Duration,
)
    requires
        base_url_of(spec.base_url) == base + Seq::new(slashes, |i: int| '/'),
        base.len() > 0 ==> base[base.len() - 1] != '/',
        base.len() + slashes > 0,
        is_route(route_of(spec.image.model@)),
    ensures
        wanted_adapter(spec, api_key, connect_timeout) matches Ok(adapter) && adapter.user_agent
            == "mcpg-plugin-backend-llm-stability/1.0"@ && adapter.api_key == api_key
            && adapter.connect_timeout == connect_timeout && endpoint_model(
            adapter.base_url,
            adapter.model_route,
        ) == base + "/v2beta/stable-image/generate/"@ + lower(trimmed(spec.image.model@)),
{
    lowering_keeps_trimmed(spec.image.model@);
    lowering_is_idempotent(trimmed(spec.image.model@));
    reveal_strlit("core");
    reveal_strlit("sd3");
    reveal_strlit("ultra");
    assert("core"@.len() == 4 && "sd3"@.len() == 3 && "ultra"@.len() == 5);
    run_at_the_end_is_cut(base, '/', slashes);
}

}
