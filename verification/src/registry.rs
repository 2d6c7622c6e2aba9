//! Loading the registry of providers from its JSON text.
//!
//! The text is an array of providers. A provider is an object with the
//! strings `provider_name` and `provider_url` and the array `endpoints`. An
//! endpoint is an object with the string `url`, and it may have `schemes`,
//! an array of strings, and `discovery`, a boolean; without them it has no
//! scheme and is not reserved for discovery. Other members are passed over.

use vstd::prelude::*;
use crate::json::{item_views, lemma_item_views, parsed_json, Json, JsonView};
use crate::object::{find_member, member, read_text, required_text};
use crate::provider::{
    endpoint_views, provider_views, text_views, Endpoint, EndpointView, Provider, ProviderView,
    Registry,
};

verus! {

/// Why a text is not a registry.
#[derive(Debug, Clone, Copy, PartialEq, Eq, Structural)]
pub enum RegistryLoadError {
    /// The text is not one JSON text.
    Syntax,
    /// The text is JSON, but not an array of providers.
    Malformed,
    /// The array holds no provider.
    Empty,
}

pub const PROVIDER_NAME: &'static str = "provider_name";

pub const PROVIDER_URL: &'static str = "provider_url";

pub const ENDPOINTS: &'static str = "endpoints";

pub const SCHEMES: &'static str = "schemes";

pub const ENDPOINT_URL: &'static str = "url";

pub const DISCOVERY: &'static str = "discovery";

/// The strings that the items are, where each of them is one.
pub open spec fn loaded_texts(items: Seq<JsonView>) -> Option<Seq<Seq<char>>> {
    if forall|i: int| 0 <= i < items.len() ==> (#[trigger] items[i]) is Text {
        Some(Seq::new(items.len(), |i: int| items[i]->Text_0))
    } else {
        None
    }
}

/// The schemes of an endpoint: none where the member is missing.
pub open spec fn loaded_schemes(members: Seq<(Seq<char>, JsonView)>) -> Option<Seq<Seq<char>>> {
    match member(members, SCHEMES@) {
        None => Some(Seq::empty()),
        Some(JsonView::Array(items)) => loaded_texts(items),
        Some(_) => None,
    }
}

/// Whether an endpoint is reserved for discovery: not so where the member
/// is missing.
pub open spec fn loaded_discovery(members: Seq<(Seq<char>, JsonView)>) -> Option<bool> {
    match member(members, DISCOVERY@) {
        None => Some(false),
        Some(JsonView::Bool(b)) => Some(b),
        Some(_) => None,
    }
}

/// The endpoint that a document describes.
pub open spec fn loaded_endpoint(tree: JsonView) -> Option<EndpointView> {
    match tree {
        JsonView::Object(members) => match (
            loaded_schemes(members),
            required_text(members, ENDPOINT_URL@),
            loaded_discovery(members),
        ) {
            (Some(schemes), Some(url), Some(discovery)) => Some(
                EndpointView { schemes, url, discovery },
            ),
            _ => None,
        },
        _ => None,
    }
}

/// The endpoints that the items describe, where each of them describes one.
pub open spec fn loaded_endpoints(items: Seq<JsonView>) -> Option<Seq<EndpointView>> {
    if forall|i: int| 0 <= i < items.len() ==> loaded_endpoint(#[trigger] items[i]) is Some {
        Some(Seq::new(items.len(), |i: int| loaded_endpoint(items[i])->0))
    } else {
        None
    }
}

/// The provider that a document describes.
pub open spec fn loaded_provider(tree: JsonView) -> Option<ProviderView> {
    match tree {
        JsonView::Object(members) => match (
            required_text(members, PROVIDER_NAME@),
            required_text(members, PROVIDER_URL@),
            member(members, ENDPOINTS@),
        ) {
            (Some(provider_name), Some(provider_url), Some(JsonView::Array(items))) => {
                match loaded_endpoints(items) {
                    Some(endpoints) => Some(
                        ProviderView { provider_name, provider_url, endpoints },
                    ),
                    None => None,
                }
            },
            _ => None,
        },
        _ => None,
    }
}

/// The providers that the items describe, where each of them describes one.
pub open spec fn loaded_providers(items: Seq<JsonView>) -> Option<Seq<ProviderView>> {
    if forall|i: int| 0 <= i < items.len() ==> loaded_provider(#[trigger] items[i]) is Some {
        Some(Seq::new(items.len(), |i: int| loaded_provider(items[i])->0))
    } else {
        None
    }
}

/// The providers of the registry that a document describes.
pub open spec fn loaded_registry(tree: JsonView) -> Result<Seq<ProviderView>, RegistryLoadError> {
    match tree {
        JsonView::Array(items) => match loaded_providers(items) {
            Some(providers) => if providers.len() == 0 {
                Err(RegistryLoadError::Empty)
            } else {
                Ok(providers)
            },
            None => Err(RegistryLoadError::Malformed),
        },
        _ => Err(RegistryLoadError::Malformed),
    }
}

/// The providers of the registry that a text describes.
pub open spec fn loaded_text(bytes: Seq<u8>) -> Result<Seq<ProviderView>, RegistryLoadError> {
    match parsed_json(bytes) {
        Some(tree) => loaded_registry(tree),
        None => Err(RegistryLoadError::Syntax),
    }
}

fn load_texts(items: &Vec<Json>) -> (texts: Option<Vec<String>>)
    ensures
        match texts {
            Some(t) => loaded_texts(item_views(items@)) == Some(text_views(t@)),
            None => loaded_texts(item_views(items@)) is None,
        },
{
    let ghost views = item_views(items@);
    proof {
        lemma_item_views(items@);
    }
    let mut texts: Vec<String> = Vec::new();
    let mut i: usize = 0;
    while i < items.len()
        invariant
            i <= items.len(),
            views == item_views(items@),
            views.len() == items.len(),
            forall|k: int| 0 <= k < items.len() ==> (#[trigger] views[k]) == items[k]@,
            texts.len() == i,
            forall|k: int| 0 <= k < i ==> (#[trigger] views[k]) == JsonView::Text(texts[k]@),
        decreases items.len() - i,
    {
        match &items[i] {
            Json::Text(text) => {
                texts.push(text.clone());
            },
            _ => {
                assert(!(views[i as int] is Text));
                return None;
            },
        }
        i += 1;
    }
    assert(loaded_texts(views)->0 =~= text_views(texts@));
    Some(texts)
}

fn load_endpoint(tree: &Json) -> (endpoint: Option<Endpoint>)
    ensures
        match endpoint {
            Some(e) => loaded_endpoint(tree@) == Some(e@),
            None => loaded_endpoint(tree@) is None,
        },
{
    let members = match tree {
        Json::Object(members) => members,
        _ => {
            return None;
        },
    };
    let schemes = match find_member(members, SCHEMES) {
        None => {
            let none: Vec<String> = Vec::new();
            assert(text_views(none@) =~= Seq::empty());
            none
        },
        Some(Json::Array(items)) => match load_texts(items) {
            Some(texts) => texts,
            None => {
                return None;
            },
        },
        Some(_) => {
            return None;
        },
    };
    let url = match read_text(members, ENDPOINT_URL) {
        Some(url) => url,
        None => {
            return None;
        },
    };
    let discovery = match find_member(members, DISCOVERY) {
        None => false,
        Some(Json::Bool(b)) => *b,
        Some(_) => {
            return None;
        },
    };
    Some(Endpoint { schemes, url, discovery })
}

fn load_endpoints(items: &Vec<Json>) -> (endpoints: Option<Vec<Endpoint>>)
    ensures
        match endpoints {
            Some(e) => loaded_endpoints(item_views(items@)) == Some(endpoint_views(e@)),
            None => loaded_endpoints(item_views(items@)) is None,
        },
{
    let ghost views = item_views(items@);
    proof {
        lemma_item_views(items@);
    }
    let mut endpoints: Vec<Endpoint> = Vec::new();
    let mut i: usize = 0;
    while i < items.len()
        invariant
            i <= items.len(),
            views == item_views(items@),
            views.len() == items.len(),
            forall|k: int| 0 <= k < items.len() ==> (#[trigger] views[k]) == items[k]@,
            endpoints.len() == i,
            forall|k: int|
                0 <= k < i ==> loaded_endpoint(#[trigger] views[k]) == Some(endpoints[k]@),
        decreases items.len() - i,
    {
        match load_endpoint(&items[i]) {
            Some(endpoint) => {
                endpoints.push(endpoint);
            },
            None => {
                assert(loaded_endpoint(views[i as int]) is None);
                return None;
            },
        }
        i += 1;
    }
    assert(loaded_endpoints(views)->0 =~= endpoint_views(endpoints@));
    Some(endpoints)
}

fn load_provider(tree: &Json) -> (provider: Option<Provider>)
    ensures
        match provider {
            Some(p) => loaded_provider(tree@) == Some(p@),
            None => loaded_provider(tree@) is None,
        },
{
    let members = match tree {
        Json::Object(members) => members,
        _ => {
            return None;
        },
    };
    let provider_name = match read_text(members, PROVIDER_NAME) {
        Some(name) => name,
        None => {
            return None;
        },
    };
    let provider_url = match read_text(members, PROVIDER_URL) {
        Some(url) => url,
        None => {
            return None;
        },
    };
    let endpoints = match find_member(members, ENDPOINTS) {
        Some(Json::Array(items)) => match load_endpoints(items) {
            Some(endpoints) => endpoints,
            None => {
                return None;
            },
        },
        _ => {
            return None;
        },
    };
    Some(Provider { provider_name, provider_url, endpoints })
}

fn load_providers(items: &Vec<Json>) -> (providers: Option<Vec<Provider>>)
    ensures
        match providers {
            Some(p) => loaded_providers(item_views(items@)) == Some(provider_views(p@)),
            None => loaded_providers(item_views(items@)) is None,
        },
{
    let ghost views = item_views(items@);
    proof {
        lemma_item_views(items@);
    }
    let mut providers: Vec<Provider> = Vec::new();
    let mut i: usize = 0;
    while i < items.len()
        invariant
            i <= items.len(),
            views == item_views(items@),
            views.len() == items.len(),
            forall|k: int| 0 <= k < items.len() ==> (#[trigger] views[k]) == items[k]@,
            providers.len() == i,
            forall|k: int|
                0 <= k < i ==> loaded_provider(#[trigger] views[k]) == Some(providers[k]@),
        decreases items.len() - i,
    {
        match load_provider(&items[i]) {
            Some(provider) => {
                providers.push(provider);
            },
            None => {
                assert(loaded_provider(views[i as int]) is None);
                return None;
            },
        }
        i += 1;
    }
    assert(loaded_providers(views)->0 =~= provider_views(providers@));
    Some(providers)
}

impl Registry {
    /// Reads a registry out of a JSON document.
    ///
    /// The document has to be an array of providers, each in its shape (else
    /// `Malformed`), and there has to be a provider (else `Empty`).
    pub fn from_json(tree: &Json) -> (outcome: Result<Registry, RegistryLoadError>)
        ensures
            match outcome {
                Ok(registry) => loaded_registry(tree@) == Ok::<_, RegistryLoadError>(
                    provider_views(registry@),
                ) && registry.inv(),
                Err(error) => loaded_registry(tree@) == Err::<Seq<ProviderView>, _>(error),
            },
    {
        let items = match tree {
            Json::Array(items) => items,
            _ => {
                return Err(RegistryLoadError::Malformed);
            },
        };
        match load_providers(items) {
            None => Err(RegistryLoadError::Malformed),
            Some(providers) => match Registry::new(providers) {
                Some(registry) => Ok(registry),
                None => Err(RegistryLoadError::Empty),
            },
        }
    }

    /// Reads a registry out of its JSON text.
    ///
    /// A text that is not one JSON text gives `Syntax`; any other text is
    /// read as `from_json` reads the document.
    pub fn load(bytes: &[u8]) -> (outcome: Result<Registry, RegistryLoadError>)
        ensures
            match outcome {
                Ok(registry) => loaded_text(bytes@) == Ok::<_, RegistryLoadError>(
                    provider_views(registry@),
                ) && registry.inv(),
                Err(error) => loaded_text(bytes@) == Err::<Seq<ProviderView>, _>(error),
            },
    {
        match Json::parse(bytes) {
            Ok(tree) => Registry::from_json(&tree),
            Err(_) => Err(RegistryLoadError::Syntax),
        }
    }
}

} // verus!
