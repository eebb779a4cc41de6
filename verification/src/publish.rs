//! The state that readers observe: the loaded database and what is derived
//! from it.

use vstd::prelude::*;

verus! {

/// The loaded database that lookups read, and the enrichment state that is
/// built from it. Both are empty until an artifact was loaded for the first
/// time, and both change only when a newly parsed artifact is published.
pub struct Registry<C, G> {
    client: Option<C>,
    geoip: Option<G>,
}

impl<C, G> Registry<C, G> {
    /// Derived state exists only for a database that is published.
    #[verifier::type_invariant]
    spec fn derived_has_source(self) -> bool {
        self.geoip is Some ==> self.client is Some
    }

    /// The database that readers see.
    pub closed spec fn published(self) -> Option<C> {
        self.client
    }

    /// The enrichment state that readers see.
    pub closed spec fn derived(self) -> Option<G> {
        self.geoip
    }

    /// A registry in which nothing was published yet.
    pub fn new() -> (registry: Self)
        ensures
            registry.published() is None,
            registry.derived() is None,
    {
        Registry { client: None, geoip: None }
    }

    /// The database that readers see, if one was ever loaded.
    pub fn client(&self) -> (client: Option<&C>)
        ensures
            client == match self.published() {
                Some(c) => Some(&c),
                None => None,
            },
    {
        self.client.as_ref()
    }

    /// The enrichment state that readers see, if a database was ever loaded.
    pub fn geoip(&self) -> (geoip: Option<&G>)
        ensures
            geoip == match self.derived() {
                Some(g) => Some(&g),
                None => None,
            },
            geoip is Some ==> self.published() is Some,
    {
        proof {
            use_type_invariant(self);
        }
        self.geoip.as_ref()
    }
}

/// Publishes a newly parsed artifact, or keeps what is published when parsing
/// failed.
///
/// `parsed` is the database that the artifact was parsed into, or `None` when
/// the file was missing, corrupt or incompatible. In that case the registry is
/// left exactly as it was. Otherwise the database replaces the published one,
/// and only then is the enrichment state rebuilt by `derive`, which is handed
/// the database as readers now see it. Either way readers find the database
/// that was published before or the one that was parsed, never anything else.
pub fn update_global_maxmind_client<C, G, F: FnOnce(&C) -> G>(
    registry: &mut Registry<C, G>,
    parsed: Option<C>,
    derive: F,
) -> (published: bool)
    requires
        parsed matches Some(c) ==> derive.requires((&c,)),
    ensures
        published == parsed is Some,
        parsed is None ==> *final(registry) == *old(registry),
        parsed is Some ==> final(registry).published() == parsed,
        final(registry).published() == old(registry).published() || final(registry).published()
            == parsed,
        parsed matches Some(c) ==> (final(registry).derived() matches Some(g) && derive.ensures(
            (&c,),
            g,
        )),
{
    match parsed {
        None => false,
        Some(client) => {
            registry.client = Some(client);
            let geoip = derive(registry.client.as_ref().unwrap());
            registry.geoip = Some(geoip);
            true
        },
    }
}

} // verus!
