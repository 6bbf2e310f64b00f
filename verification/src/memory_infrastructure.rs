//! An in-memory infrastructure backend: the canonical test double for
//! the port. It records, per application, the configurations it was
//! last started with, and can be put into a failing mode in which
//! every request reports a backend failure.

use vstd::prelude::*;

use crate::config::ContainerConfig;
use crate::infrastructure::Infrastructure;
use crate::infrastructure::after_start;
use crate::infrastructure::backend_failure;
use crate::multimap_port::ServiceMultiMap;
use crate::multimap_port::multimap_insert;
use crate::multimap_port::multimap_new;
use crate::multimap_port::multimap_view;
use crate::service_model::Service;
use crate::service_model::ServiceConfig;
use crate::service_model::ServiceConfigView;
use crate::service_model::ServiceView;
use crate::service_model::clone_configs;
use crate::service_model::realize_services;
use crate::service_model::services_of_configs;

verus! {

/// The configurations map an entry sequence denotes: each entry binds
/// its application name to its configuration list, later entries
/// overriding earlier ones.
pub open spec fn entries_map(s: Seq<(String, Vec<ServiceConfig>)>) -> Map<Seq<char>, Seq<ServiceConfigView>>
    decreases s.len(),
{
    if s.len() == 0 {
        Map::empty()
    } else {
        entries_map(s.drop_last()).insert(s.last().0@, s.last().1.deep_view())
    }
}

/// Whether the entries carry pairwise distinct application names.
pub open spec fn distinct_keys(s: Seq<(String, Vec<ServiceConfig>)>) -> bool {
    forall|i: int, j: int| 0 <= i < j < s.len() ==> s[i].0@ != s[j].0@
}

/// The running-services map an entry sequence denotes: an application
/// appears exactly when it was started with at least one
/// configuration, and runs the services those configurations realize.
pub open spec fn entries_running(s: Seq<(String, Vec<ServiceConfig>)>) -> Map<Seq<char>, Seq<ServiceView>> {
    Map::new(
        |k: Seq<char>| entries_map(s).contains_key(k) && entries_map(s)[k].len() > 0,
        |k: Seq<char>| services_of_configs(k, entries_map(s)[k]),
    )
}

/// An entry sequence binds a name exactly when some entry carries it.
pub proof fn lemma_entries_map_contains(s: Seq<(String, Vec<ServiceConfig>)>, k: Seq<char>)
    ensures
        entries_map(s).contains_key(k) <==> exists|i: int| 0 <= i < s.len() && s[i].0@ == k,
    decreases s.len(),
{
    if s.len() > 0 {
        lemma_entries_map_contains(s.drop_last(), k);
        assert(forall|i: int| 0 <= i < s.len() - 1 ==> s[i] == s.drop_last()[i]);
        if entries_map(s).contains_key(k) && s.last().0@ != k {
            assert(entries_map(s.drop_last()).contains_key(k));
        }
        if s.last().0@ == k {
            assert(0 <= s.len() - 1 < s.len() && s[s.len() - 1].0@ == k);
        }
    }
}

/// With distinct names, the entry that carries a name determines what
/// the entry sequence binds it to.
pub proof fn lemma_entries_map_get(s: Seq<(String, Vec<ServiceConfig>)>, i: int, k: Seq<char>)
    requires
        distinct_keys(s),
        0 <= i < s.len(),
        s[i].0@ == k,
    ensures
        entries_map(s).contains_key(k),
        entries_map(s)[k] == s[i].1.deep_view(),
    decreases s.len(),
{
    if i == s.len() - 1 {
    } else {
        assert(forall|p: int| 0 <= p < s.len() - 1 ==> s[p] == s.drop_last()[p]);
        lemma_entries_map_get(s.drop_last(), i, k);
        assert(s.last().0@ != k);
    }
}

/// An in-memory backend: the applications and the configurations each
/// was last started with, plus a flag that makes every request fail.
pub struct InMemoryInfrastructure {
    apps: Vec<(String, Vec<ServiceConfig>)>,
    fail_requests: bool,
}

impl InMemoryInfrastructure {
    #[verifier::type_invariant]
    spec fn wf(&self) -> bool {
        distinct_keys(self.apps@)
    }

    /// Whether every request reports a backend failure.
    pub closed spec fn failing(&self) -> bool {
        self.fail_requests
    }

    /// A backend that runs nothing and answers every request.
    pub fn new() -> (r: InMemoryInfrastructure)
        ensures
            r.running() == Map::<Seq<char>, Seq<ServiceView>>::empty(),
            r.configs() == Map::<Seq<char>, Seq<ServiceConfigView>>::empty(),
            !r.failing(),
    {
        let r = InMemoryInfrastructure { apps: Vec::new(), fail_requests: false };
        proof {
            assert(r.running() =~= Map::<Seq<char>, Seq<ServiceView>>::empty());
        }
        r
    }

    /// A backend that runs nothing and reports a failure on every
    /// request.
    pub fn new_failing() -> (r: InMemoryInfrastructure)
        ensures
            r.running() == Map::<Seq<char>, Seq<ServiceView>>::empty(),
            r.configs() == Map::<Seq<char>, Seq<ServiceConfigView>>::empty(),
            r.failing(),
    {
        let r = InMemoryInfrastructure { apps: Vec::new(), fail_requests: true };
        proof {
            assert(r.running() =~= Map::<Seq<char>, Seq<ServiceView>>::empty());
        }
        r
    }

    /// The entries without the given application, in their original
    /// order; the recorded state with that application removed.
    fn entries_without(&self, app_name: &String) -> (r: Vec<(String, Vec<ServiceConfig>)>)
        ensures
            distinct_keys(r@),
            forall|p: int| 0 <= p < r@.len() ==> r@[p].0@ != app_name@,
            entries_map(r@) == entries_map(self.apps@).remove(app_name@),
    {
        proof {
            use_type_invariant(&*self);
        }
        let mut kept: Vec<(String, Vec<ServiceConfig>)> = Vec::new();
        let mut i: usize = 0;
        while i < self.apps.len()
            invariant
                i <= self.apps.len(),
                distinct_keys(self.apps@),
                distinct_keys(kept@),
                forall|p: int| 0 <= p < kept@.len() ==> kept@[p].0@ != app_name@,
                forall|p: int| 0 <= p < kept@.len() ==> entries_map(self.apps@.take(i as int)).contains_key(#[trigger] kept@[p].0@),
                entries_map(kept@) == entries_map(self.apps@.take(i as int)).remove(app_name@),
            decreases self.apps.len() - i,
        {
            let ghost prefix = self.apps@.take(i as int);
            let ghost next_prefix = self.apps@.take(i + 1 as int);
            assert(next_prefix.drop_last() =~= prefix);
            assert(next_prefix.last() == self.apps@[i as int]);
            let entry_name = self.apps[i].0.clone();
            let ghost key = self.apps@[i as int].0@;
            proof {
                lemma_entries_map_contains(prefix, key);
            }
            if !(entry_name == *app_name) {
                let ghost old_kept = kept@;
                kept.push((self.apps[i].0.clone(), clone_configs(&self.apps[i].1)));
                assert(kept@.last().0@ == key);
                assert(kept@.last().1.deep_view() == self.apps@[i as int].1.deep_view());
                assert(kept@.drop_last() =~= old_kept);
                assert(entries_map(kept@) == entries_map(old_kept).insert(key, self.apps@[i as int].1.deep_view()));
                assert(entries_map(kept@) =~= entries_map(next_prefix).remove(app_name@));
                assert(forall|p: int| 0 <= p < kept@.len() ==> entries_map(next_prefix).contains_key(#[trigger] kept@[p].0@)) by {
                    assert(forall|k2: Seq<char>| entries_map(prefix).contains_key(k2) ==> entries_map(next_prefix).contains_key(k2));
                }
            } else {
                assert(entries_map(kept@) =~= entries_map(next_prefix).remove(app_name@));
                assert(forall|p: int| 0 <= p < kept@.len() ==> entries_map(next_prefix).contains_key(#[trigger] kept@[p].0@)) by {
                    assert(forall|k2: Seq<char>| entries_map(prefix).contains_key(k2) ==> entries_map(next_prefix).contains_key(k2));
                }
            }
            i = i + 1;
        }
        assert(self.apps@.take(self.apps@.len() as int) =~= self.apps@);
        kept
    }
}

impl Infrastructure for InMemoryInfrastructure {
    closed spec fn running(&self) -> Map<Seq<char>, Seq<ServiceView>> {
        entries_running(self.apps@)
    }

    closed spec fn configs(&self) -> Map<Seq<char>, Seq<ServiceConfigView>> {
        entries_map(self.apps@)
    }

    closed spec fn infallible(&self) -> bool {
        !self.fail_requests
    }

    fn get_services(&self) -> (r: Result<ServiceMultiMap, failure::Error>) {
        proof {
            use_type_invariant(&*self);
        }
        if self.fail_requests {
            return Err(backend_failure("infrastructure unavailable".to_owned()));
        }
        let mut m = multimap_new();
        let mut i: usize = 0;
        while i < self.apps.len()
            invariant
                i <= self.apps.len(),
                distinct_keys(self.apps@),
                multimap_view(m) == entries_running(self.apps@.take(i as int)),
            decreases self.apps.len() - i,
        {
            let ghost prefix = self.apps@.take(i as int);
            let ghost next_prefix = self.apps@.take(i + 1 as int);
            assert(next_prefix.drop_last() =~= prefix);
            assert(next_prefix.last() == self.apps@[i as int]);
            let entry_name = &self.apps[i].0;
            let ghost key = self.apps@[i as int].0@;
            let ghost svs = services_of_configs(key, self.apps@[i as int].1.deep_view());
            proof {
                lemma_entries_map_contains(prefix, key);
                if entries_map(prefix).contains_key(key) {
                    let p = choose|p: int| 0 <= p < prefix.len() && prefix[p].0@ == key;
                    assert(self.apps@[p].0@ == self.apps@[i as int].0@);
                    assert(false);
                }
            }
            let services = realize_services(entry_name, &self.apps[i].1);
            let mut j: usize = 0;
            while j < services.len()
                invariant
                    j <= services.len(),
                    distinct_keys(self.apps@),
                    services.deep_view() == svs,
                    entry_name@ == key,
                    svs.len() == services@.len(),
                    !entries_map(prefix).contains_key(key),
                    multimap_view(m) == (if j == 0 {
                        entries_running(prefix)
                    } else {
                        entries_running(prefix).insert(key, svs.take(j as int))
                    }),
                decreases services.len() - j,
            {
                let ghost before = multimap_view(m);
                multimap_insert(&mut m, entry_name.clone(), services[j].clone_service());
                proof {
                    if j == 0 {
                        assert(!before.contains_key(key));
                        assert(Seq::<ServiceView>::empty().push(svs[0]) =~= svs.take(1));
                    } else {
                        assert(before.contains_key(key));
                        assert(before[key].push(svs[j as int]) =~= svs.take(j + 1 as int));
                    }
                    assert(multimap_view(m) == entries_running(prefix).insert(key, svs.take(j + 1 as int)));
                }
                j = j + 1;
            }
            proof {
                if services.len() == 0 {
                    assert(entries_running(next_prefix) =~= entries_running(prefix));
                } else {
                    assert(svs.take(svs.len() as int) =~= svs);
                    assert(entries_running(next_prefix) =~= entries_running(prefix).insert(key, svs));
                }
            }
            i = i + 1;
        }
        assert(self.apps@.take(self.apps@.len() as int) =~= self.apps@);
        Ok(m)
    }

    fn get_configs_of_app(&self, app_name: &String) -> (r: Result<Vec<ServiceConfig>, failure::Error>) {
        proof {
            use_type_invariant(&*self);
        }
        if self.fail_requests {
            return Err(backend_failure("infrastructure unavailable".to_owned()));
        }
        let mut i: usize = 0;
        while i < self.apps.len()
            invariant
                i <= self.apps.len(),
                distinct_keys(self.apps@),
                forall|p: int| 0 <= p < i ==> self.apps@[p].0@ != app_name@,
            decreases self.apps.len() - i,
        {
            if self.apps[i].0 == *app_name {
                proof {
                    lemma_entries_map_get(self.apps@, i as int, app_name@);
                }
                return Ok(clone_configs(&self.apps[i].1));
            }
            i = i + 1;
        }
        proof {
            lemma_entries_map_contains(self.apps@, app_name@);
        }
        let empty: Vec<ServiceConfig> = Vec::new();
        assert(empty.deep_view() =~= Seq::<ServiceConfigView>::empty());
        Ok(empty)
    }

    fn start_services(
        &mut self,
        app_name: &String,
        service_configs: &Vec<ServiceConfig>,
        container_config: &ContainerConfig,
    ) -> (r: Result<Vec<Service>, failure::Error>) {
        proof {
            use_type_invariant(&*self);
        }
        if self.fail_requests {
            return Err(backend_failure("infrastructure unavailable".to_owned()));
        }
        let ghost old_map = entries_map(self.apps@);
        let mut kept = self.entries_without(app_name);
        let ghost kept_view = kept@;
        kept.push((app_name.clone(), clone_configs(service_configs)));
        assert(kept@.drop_last() =~= kept_view);
        assert(entries_map(kept@) == entries_map(kept_view).insert(app_name@, service_configs.deep_view()));
        assert(entries_map(kept@) =~= old_map.insert(app_name@, service_configs.deep_view()));
        assert(distinct_keys(kept@)) by {
            assert(forall|p: int| 0 <= p < kept_view.len() ==> kept@[p] == kept_view[p]);
        }
        self.apps = kept;
        proof {
            assert(self.configs() == old(self).configs().insert(app_name@, service_configs.deep_view()));
            assert(self.running() =~= after_start(
                old(self).running(),
                app_name@,
                services_of_configs(app_name@, service_configs.deep_view()),
            ));
        }
        Ok(realize_services(app_name, service_configs))
    }

    fn stop_services(&mut self, app_name: &String) -> (r: Result<Vec<Service>, failure::Error>) {
        proof {
            use_type_invariant(&*self);
        }
        if self.fail_requests {
            return Err(backend_failure("infrastructure unavailable".to_owned()));
        }
        let stopped = match self.get_configs_of_app(app_name) {
            Ok(configs) => realize_services(app_name, &configs),
            Err(e) => {
                return Err(e);
            },
        };
        let kept = self.entries_without(app_name);
        self.apps = kept;
        proof {
            assert(self.configs() == old(self).configs().remove(app_name@));
            assert(self.running() =~= old(self).running().remove(app_name@));
            if old(self).running().contains_key(app_name@) {
                assert(stopped.deep_view() =~= old(self).running()[app_name@]);
            } else {
                assert(stopped.deep_view() =~= Seq::<ServiceView>::empty());
            }
        }
        Ok(stopped)
    }
}

} // verus!
