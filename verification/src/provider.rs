//! Providers, their endpoints, and the lookup of the endpoint that serves
//! a URL.

use vstd::prelude::*;
use crate::scheme::{matches_scheme, scheme_matches};

verus! {

/// One request target of a provider, guarded by wildcard schemes.
#[derive(Debug)]
pub struct Endpoint {
    /// The schemes of the URLs this endpoint describes, in the order in
    /// which they are tried.
    pub schemes: Vec<String>,
    /// Where to send the request.
    pub url: String,
    /// Set for an endpoint that is reached by link discovery only. Such an
    /// endpoint is never chosen by its schemes.
    pub discovery: bool,
}

/// A service that describes the content behind certain URLs.
#[derive(Debug)]
pub struct Provider {
    pub provider_name: String,
    pub provider_url: String,
    /// The endpoints, in the order in which they are tried.
    pub endpoints: Vec<Endpoint>,
}

/// The providers known to the process, in the order in which they are
/// tried. A registry is never empty.
#[derive(Debug)]
pub struct Registry {
    providers: Vec<Provider>,
}

/// The mathematical value of an [`Endpoint`].
pub struct EndpointView {
    pub schemes: Seq<Seq<char>>,
    pub url: Seq<char>,
    pub discovery: bool,
}

/// The mathematical value of a [`Provider`].
pub struct ProviderView {
    pub provider_name: Seq<char>,
    pub provider_url: Seq<char>,
    pub endpoints: Seq<EndpointView>,
}

/// The characters of each of some strings.
pub open spec fn text_views(texts: Seq<String>) -> Seq<Seq<char>> {
    Seq::new(texts.len(), |i: int| texts[i]@)
}

/// The views of some endpoints.
pub open spec fn endpoint_views(endpoints: Seq<Endpoint>) -> Seq<EndpointView> {
    Seq::new(endpoints.len(), |i: int| endpoints[i]@)
}

/// The views of some providers.
pub open spec fn provider_views(providers: Seq<Provider>) -> Seq<ProviderView> {
    Seq::new(providers.len(), |i: int| providers[i]@)
}

impl View for Endpoint {
    type V = EndpointView;

    open spec fn view(&self) -> EndpointView {
        EndpointView {
            schemes: text_views(self.schemes@),
            url: self.url@,
            discovery: self.discovery,
        }
    }
}

impl View for Provider {
    type V = ProviderView;

    open spec fn view(&self) -> ProviderView {
        ProviderView {
            provider_name: self.provider_name@,
            provider_url: self.provider_url@,
            endpoints: endpoint_views(self.endpoints@),
        }
    }
}

impl Endpoint {
    /// One of the schemes matches `url`, and the endpoint is not reserved
    /// for discovery.
    pub open spec fn serves(&self, url: Seq<char>) -> bool {
        &&& !self.discovery
        &&& exists|k: int|
            0 <= k < self.schemes.len() && scheme_matches(#[trigger] self.schemes[k]@, url)
    }

    /// Tells whether this endpoint may be chosen for `url`.
    pub fn accepts(&self, url: &str) -> (accepted: bool)
        ensures
            accepted == self.serves(url@),
    {
        if self.discovery {
            return false;
        }
        let mut k: usize = 0;
        while k < self.schemes.len()
            invariant
                !self.discovery,
                k <= self.schemes.len(),
                forall|j: int| 0 <= j < k ==> !scheme_matches(#[trigger] self.schemes[j]@, url@),
            decreases self.schemes.len() - k,
        {
            if matches_scheme(self.schemes[k].as_str(), url) {
                assert(scheme_matches(self.schemes[k as int]@, url@));
                return true;
            }
            k += 1;
        }
        false
    }
}

impl Provider {
    /// Endpoint `j` is the first endpoint of this provider that serves `url`.
    pub open spec fn serves_first_at(&self, url: Seq<char>, j: int) -> bool {
        &&& 0 <= j < self.endpoints.len()
        &&& self.endpoints[j].serves(url)
        &&& forall|b: int| 0 <= b < j ==> !(#[trigger] self.endpoints[b]).serves(url)
    }

    /// No endpoint of this provider serves `url`.
    pub open spec fn serves_nowhere(&self, url: Seq<char>) -> bool {
        forall|b: int| 0 <= b < self.endpoints.len() ==> !(#[trigger] self.endpoints[b]).serves(url)
    }

    /// The first endpoint of this provider that serves `url`, if any.
    pub fn endpoint_for(&self, url: &str) -> (found: Option<&Endpoint>)
        ensures
            match found {
                Some(endpoint) => exists|j: int|
                    #[trigger] self.serves_first_at(url@, j) && *endpoint == self.endpoints[j],
                None => self.serves_nowhere(url@),
            },
    {
        let mut j: usize = 0;
        while j < self.endpoints.len()
            invariant
                j <= self.endpoints.len(),
                forall|b: int| 0 <= b < j ==> !(#[trigger] self.endpoints[b]).serves(url@),
            decreases self.endpoints.len() - j,
        {
            if self.endpoints[j].accepts(url) {
                assert(self.serves_first_at(url@, j as int));
                return Some(&self.endpoints[j]);
            }
            j += 1;
        }
        None
    }
}

/// Provider `i` is the first of `providers` with an endpoint that serves
/// `url`, and endpoint `j` is the first such endpoint of it.
pub open spec fn resolves_to(providers: Seq<Provider>, url: Seq<char>, i: int, j: int) -> bool {
    &&& 0 <= i < providers.len()
    &&& providers[i].serves_first_at(url, j)
    &&& forall|a: int| 0 <= a < i ==> (#[trigger] providers[a]).serves_nowhere(url)
}

/// No endpoint of any of `providers` serves `url`.
pub open spec fn unresolved(providers: Seq<Provider>, url: Seq<char>) -> bool {
    forall|a: int| 0 <= a < providers.len() ==> (#[trigger] providers[a]).serves_nowhere(url)
}

impl Registry {
    /// The providers, in order.
    pub closed spec fn view(&self) -> Seq<Provider> {
        self.providers@
    }

    /// What holds of every registry: it has a provider.
    pub closed spec fn inv(&self) -> bool {
        self.providers.len() > 0
    }

    /// A registry never lacks a provider.
    pub proof fn lemma_never_empty(&self)
        requires
            self.inv(),
        ensures
            self@.len() > 0,
    {
    }

    /// Makes a registry of `providers`, unless there are none.
    pub fn new(providers: Vec<Provider>) -> (made: Option<Registry>)
        ensures
            made is Some <==> providers.len() > 0,
            made matches Some(registry) ==> registry@ == providers@ && registry.inv(),
    {
        if providers.len() == 0 {
            None
        } else {
            Some(Registry { providers })
        }
    }

    /// The providers, in the order in which they are tried.
    pub fn providers(&self) -> (all: &Vec<Provider>)
        ensures
            all@ == self@,
    {
        &self.providers
    }
}

/// Finds the provider and the endpoint that serve `url`.
///
/// Providers are tried in the order of the registry, the endpoints of each
/// in their order, and the schemes of each endpoint in theirs. The first
/// endpoint with a matching scheme decides. Endpoints that are reserved for
/// discovery are passed over. Where nothing serves the URL the result is
/// `None`.
pub fn find_provider<'a>(registry: &'a Registry, url: &str) -> (found: Option<
    (&'a Provider, &'a Endpoint),
>)
    ensures
        match found {
            Some((provider, endpoint)) => exists|i: int, j: int|
                #[trigger] resolves_to(registry@, url@, i, j) && *provider == registry@[i]
                    && *endpoint == registry@[i].endpoints[j],
            None => unresolved(registry@, url@),
        },
        found matches Some((_, endpoint)) ==> !endpoint.discovery,
{
    let mut i: usize = 0;
    while i < registry.providers.len()
        invariant
            i <= registry.providers.len(),
            forall|a: int| 0 <= a < i ==> (#[trigger] registry.providers[a]).serves_nowhere(url@),
        decreases registry.providers.len() - i,
    {
        let provider = &registry.providers[i];
        match provider.endpoint_for(url) {
            Some(endpoint) => {
                proof {
                    let j = choose|j: int|
                        #[trigger] provider.serves_first_at(url@, j) && *endpoint
                            == provider.endpoints[j];
                    assert(resolves_to(registry@, url@, i as int, j));
                }
                return Some((provider, endpoint));
            },
            None => {},
        }
        i += 1;
    }
    None
}

} // verus!
