//! Trusted surface over the multimap that groups running services by
//! owning application: the type declaration, a name for its contents,
//! and wrappers for the operations the resolver uses.

use vstd::prelude::*;

use crate::service_model::Service;
use crate::service_model::ServiceView;

verus! {

/// Declares the multimap type so that it can stand in signatures; a
/// value of it is read only through the wrappers below.
#[verifier::external_type_specification]
#[verifier::external_body]
#[verifier::reject_recursive_types(K)]
#[verifier::reject_recursive_types(V)]
#[verifier::reject_recursive_types(S)]
pub struct ExMultiMap<K, V, S>(multimap::MultiMap<K, V, S>);

/// The multimap shape in which running services are reported,
/// grouped by owning application.
pub type ServiceMultiMap = multimap::MultiMap<String, Service>;

/// What a service multimap holds: for each application name present,
/// the services recorded under it, in insertion order.
pub uninterp spec fn multimap_view(m: ServiceMultiMap) -> Map<Seq<char>, Seq<ServiceView>>;

/// The empty services-by-application map.
pub open spec fn empty_services_map() -> Map<Seq<char>, Seq<ServiceView>> {
    Map::empty()
}

/// Relies on `multimap::MultiMap::new`: the new multimap holds
/// nothing.
#[verifier::external_body]
pub(crate) fn multimap_new() -> (created: ServiceMultiMap)
    ensures
        multimap_view(created) == empty_services_map(),
{
    multimap::MultiMap::new()
}

/// Relies on `multimap::MultiMap::insert`: appends the value to the
/// key's vector, creating the key with a one-element vector when the
/// key is absent.
#[verifier::external_body]
pub(crate) fn multimap_insert(m: &mut ServiceMultiMap, k: String, v: Service)
    ensures
        multimap_view(*final(m)) == multimap_view(*old(m)).insert(
            k@,
            (if multimap_view(*old(m)).contains_key(k@) {
                multimap_view(*old(m))[k@]
            } else {
                Seq::<ServiceView>::empty()
            }).push(v@),
        ),
{
    m.insert(k, v)
}

/// Relies on `multimap::MultiMap::get_vec`: returns the key's vector
/// exactly when the key is present; the returned services are copies
/// of the recorded ones.
#[verifier::external_body]
pub(crate) fn multimap_get_vec(m: &ServiceMultiMap, k: &String) -> (r: Option<Vec<Service>>)
    ensures
        match r {
            Some(v) => multimap_view(*m).contains_key(k@) && v.deep_view() == multimap_view(*m)[k@],
            None => !multimap_view(*m).contains_key(k@),
        },
{
    m.get_vec(k).cloned()
}

} // verus!
