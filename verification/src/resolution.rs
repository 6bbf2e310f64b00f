//! The replication half of the resolution algorithm: merging the
//! master application's configurations, marked as replicas, into a
//! caller-supplied configuration set.

use vstd::prelude::*;

use crate::service_model::ContainerType;
use crate::service_model::ServiceConfig;
use crate::service_model::ServiceConfigView;

verus! {

/// The distinguished name of the replication source application.
pub open spec fn master_name() -> Seq<char> {
    "master"@
}

/// Whether some caller-supplied configuration already uses this
/// service name, so that a master configuration with the same name
/// must not be replicated.
pub open spec fn overridden(callers: Seq<ServiceConfigView>, name: Seq<char>) -> bool {
    exists|i: int| 0 <= i < callers.len() && callers[i].service_name == name
}

/// A master configuration as it enters another application's resolved
/// set: identical but for the role marker, which becomes `Replica`.
pub open spec fn replica_of(c: ServiceConfigView) -> ServiceConfigView {
    ServiceConfigView { container_type: ContainerType::Replica, ..c }
}

/// The replica entries derived from the master configurations: every
/// master configuration whose name neither the caller supplied nor an
/// earlier master configuration carries, in master order, marked
/// `Replica`. Within one resolved set, service names stay unique; the
/// earlier entry always wins a collision.
pub open spec fn replicas_from(callers: Seq<ServiceConfigView>, masters: Seq<ServiceConfigView>) -> Seq<ServiceConfigView>
    decreases masters.len(),
{
    if masters.len() == 0 {
        Seq::empty()
    } else {
        let rest = replicas_from(callers, masters.drop_last());
        if overridden(callers, masters.last().service_name)
            || overridden(masters.drop_last(), masters.last().service_name) {
            rest
        } else {
            rest.push(replica_of(masters.last()))
        }
    }
}

/// The working set after the replication step: the caller's
/// configurations unchanged, followed by the derived replicas — or the
/// caller's configurations alone when the target is the master
/// application itself.
pub open spec fn merged_set(app: Seq<char>, callers: Seq<ServiceConfigView>, masters: Seq<ServiceConfigView>) -> Seq<ServiceConfigView> {
    if app == master_name() {
        callers
    } else {
        callers + replicas_from(callers, masters)
    }
}

/// Whether the configurations carry pairwise distinct service names.
pub open spec fn unique_names(s: Seq<ServiceConfigView>) -> bool {
    forall|i: int, j: int| 0 <= i < j < s.len() ==> s[i].service_name != s[j].service_name
}

/// The replication source never replicates from itself: resolving for
/// the master application leaves the caller's configurations exactly
/// as supplied, whatever the master query would have returned.
pub proof fn lemma_master_never_replicates(callers: Seq<ServiceConfigView>, masters: Seq<ServiceConfigView>)
    ensures
        merged_set(master_name(), callers, masters) == callers,
{
}

/// Whether a configuration is a replica derived from some master
/// configuration whose name the caller did not override.
pub open spec fn is_derived_replica(callers: Seq<ServiceConfigView>, masters: Seq<ServiceConfigView>, c: ServiceConfigView) -> bool {
    exists|j: int| 0 <= j < masters.len()
        && !overridden(callers, masters[j].service_name)
        && c == replica_of(masters[j])
}

/// Every derived replica is a master configuration whose name the
/// caller did not override, marked `Replica`; every such master
/// configuration appears; and no replica carries a caller's name.
pub proof fn lemma_replicas_from_shape(callers: Seq<ServiceConfigView>, masters: Seq<ServiceConfigView>)
    ensures
        forall|i: int| 0 <= i < replicas_from(callers, masters).len()
            ==> is_derived_replica(callers, masters, #[trigger] replicas_from(callers, masters)[i]),
        forall|j: int| 0 <= j < masters.len()
            && !overridden(callers, masters[j].service_name)
            && !overridden(masters.take(j), #[trigger] masters[j].service_name)
            ==> exists|i: int| 0 <= i < replicas_from(callers, masters).len()
                && replicas_from(callers, masters)[i] == replica_of(masters[j]),
        forall|i: int| 0 <= i < replicas_from(callers, masters).len()
            ==> !overridden(callers, #[trigger] replicas_from(callers, masters)[i].service_name),
    decreases masters.len(),
{
    if masters.len() > 0 {
        lemma_replicas_from_shape(callers, masters.drop_last());
        assert(forall|j: int| 0 <= j < masters.len() - 1 ==> masters[j] == masters.drop_last()[j]);
        assert(masters.take(masters.len() - 1) =~= masters.drop_last());
        assert forall|j: int| 0 <= j < masters.len() - 1
            implies masters.drop_last().take(j) =~= masters.take(j) by {
        }
        let rest = replicas_from(callers, masters.drop_last());
        if !overridden(callers, masters.last().service_name)
            && !overridden(masters.drop_last(), masters.last().service_name) {
            assert(replicas_from(callers, masters) == rest.push(replica_of(masters.last())));
            assert(replicas_from(callers, masters)[rest.len() as int] == replica_of(masters[masters.len() - 1]));
            assert(forall|i: int| 0 <= i < rest.len() ==> replicas_from(callers, masters)[i] == rest[i]);
        }
    }
}

/// A master name that the caller did not supply is always represented
/// among the derived replicas.
pub proof fn lemma_replicas_cover(callers: Seq<ServiceConfigView>, masters: Seq<ServiceConfigView>, name: Seq<char>)
    requires
        overridden(masters, name),
        !overridden(callers, name),
    ensures
        overridden(replicas_from(callers, masters), name),
    decreases masters.len(),
{
    let w0 = choose|w: int| 0 <= w < masters.len() && masters[w].service_name == name;
    assert(masters.len() > 0);
    assert(forall|p: int| 0 <= p < masters.len() - 1 ==> masters[p] == masters.drop_last()[p]);
    let rest = replicas_from(callers, masters.drop_last());
    assert(forall|i: int| 0 <= i < rest.len() ==> replicas_from(callers, masters)[i] == rest[i]);
    if masters.last().service_name == name {
        if overridden(masters.drop_last(), name) {
            lemma_replicas_cover(callers, masters.drop_last(), name);
            let w = choose|w: int| 0 <= w < rest.len() && rest[w].service_name == name;
            assert(replicas_from(callers, masters)[w].service_name == name);
        } else {
            assert(replicas_from(callers, masters)[rest.len() as int] == replica_of(masters.last()));
            assert(replicas_from(callers, masters)[rest.len() as int].service_name == name);
        }
    } else {
        assert(w0 < masters.len() - 1);
        assert(masters.drop_last()[w0].service_name == name);
        lemma_replicas_cover(callers, masters.drop_last(), name);
        let w = choose|w: int| 0 <= w < rest.len() && rest[w].service_name == name;
        assert(replicas_from(callers, masters)[w].service_name == name);
    }
}

/// A name is present in the working set after the replication step
/// exactly when the caller supplied it or some master configuration
/// carries it.
#[verifier::rlimit(50)]
pub proof fn lemma_working_set_names(callers: Seq<ServiceConfigView>, masters: Seq<ServiceConfigView>, name: Seq<char>)
    ensures
        overridden(callers + replicas_from(callers, masters), name)
            <==> (overridden(callers, name) || overridden(masters, name)),
{
    let rf = replicas_from(callers, masters);
    let working = callers + rf;
    assert((overridden(callers, name) || overridden(masters, name)) ==> overridden(working, name)) by {
        if overridden(callers, name) {
            let w = choose|w: int| 0 <= w < callers.len() && callers[w].service_name == name;
            assert(working[w] == callers[w]);
            assert(overridden(working, name));
        } else if overridden(masters, name) {
            lemma_replicas_cover(callers, masters, name);
            let w = choose|w: int| 0 <= w < rf.len() && rf[w].service_name == name;
            assert(working[callers.len() + w] == rf[w]);
            assert(overridden(working, name));
        }
    }
    assert(overridden(working, name) ==> (overridden(callers, name) || overridden(masters, name))) by {
        if overridden(working, name) {
            let w = choose|w: int| 0 <= w < working.len() && working[w].service_name == name;
            if w < callers.len() {
                assert(working[w] == callers[w]);
                assert(overridden(callers, name));
            } else {
                lemma_replicas_from_shape(callers, masters);
                assert(working[w] == rf[w - callers.len()]);
                assert(is_derived_replica(callers, masters, rf[w - callers.len()]));
                let j = choose|j: int| 0 <= j < masters.len()
                    && !overridden(callers, masters[j].service_name)
                    && rf[w - callers.len()] == replica_of(masters[j]);
                assert(masters[j].service_name == name);
                assert(overridden(masters, name));
            }
        }
    }
}

/// The derived replicas carry pairwise distinct names, whatever the
/// master configurations hold: a duplicated master name enters only
/// once.
pub proof fn lemma_replicas_from_unique(callers: Seq<ServiceConfigView>, masters: Seq<ServiceConfigView>)
    ensures
        unique_names(replicas_from(callers, masters)),
    decreases masters.len(),
{
    if masters.len() > 0 {
        assert(forall|j: int| 0 <= j < masters.len() - 1 ==> masters[j] == masters.drop_last()[j]);
        lemma_replicas_from_unique(callers, masters.drop_last());
        let rest = replicas_from(callers, masters.drop_last());
        if !overridden(callers, masters.last().service_name)
            && !overridden(masters.drop_last(), masters.last().service_name) {
            lemma_replicas_from_shape(callers, masters.drop_last());
            assert forall|i: int| 0 <= i < rest.len() implies rest[i].service_name != masters.last().service_name by {
                assert(is_derived_replica(callers, masters.drop_last(), rest[i]));
                let j = choose|j: int| 0 <= j < masters.drop_last().len()
                    && !overridden(callers, masters.drop_last()[j].service_name)
                    && rest[i] == replica_of(masters.drop_last()[j]);
                assert(masters.drop_last()[j].service_name == rest[i].service_name);
            }
            assert(forall|i: int| 0 <= i < rest.len() ==> replicas_from(callers, masters)[i] == rest[i]);
        }
    }
}

/// The merged set keeps every caller entry unchanged and in place,
/// appends exactly the non-overridden master configurations as
/// replicas, and never lets a derived entry carry a caller's name: a
/// caller-supplied configuration always wins over a master's.
pub proof fn lemma_merged_set_shape(app: Seq<char>, callers: Seq<ServiceConfigView>, masters: Seq<ServiceConfigView>)
    requires
        app != master_name(),
    ensures
        merged_set(app, callers, masters).len() == callers.len() + replicas_from(callers, masters).len(),
        forall|i: int| 0 <= i < callers.len() ==> merged_set(app, callers, masters)[i] == callers[i],
        forall|i: int| callers.len() <= i < merged_set(app, callers, masters).len()
            ==> is_derived_replica(callers, masters, #[trigger] merged_set(app, callers, masters)[i]),
        forall|j: int| 0 <= j < masters.len()
            && !overridden(callers, masters[j].service_name)
            && !overridden(masters.take(j), #[trigger] masters[j].service_name)
            ==> exists|i: int| callers.len() <= i < merged_set(app, callers, masters).len()
                && merged_set(app, callers, masters)[i] == replica_of(masters[j]),
        forall|i: int| callers.len() <= i < merged_set(app, callers, masters).len()
            ==> !overridden(callers, #[trigger] merged_set(app, callers, masters)[i].service_name),
{
    lemma_replicas_from_shape(callers, masters);
    let rf = replicas_from(callers, masters);
    assert(forall|i: int| 0 <= i < rf.len() ==> merged_set(app, callers, masters)[callers.len() + i] == rf[i]);
    assert forall|j: int| 0 <= j < masters.len()
        && !overridden(callers, masters[j].service_name)
        && !overridden(masters.take(j), #[trigger] masters[j].service_name)
        implies exists|i: int| callers.len() <= i < merged_set(app, callers, masters).len()
            && merged_set(app, callers, masters)[i] == replica_of(masters[j]) by {
        let i = choose|i: int| 0 <= i < rf.len() && rf[i] == replica_of(masters[j]);
        assert(merged_set(app, callers, masters)[callers.len() + i] == replica_of(masters[j]));
    }
}

/// With pairwise distinct caller names, the merged set carries
/// pairwise distinct names, whatever the master configurations hold.
pub proof fn lemma_merged_set_unique_names(app: Seq<char>, callers: Seq<ServiceConfigView>, masters: Seq<ServiceConfigView>)
    requires
        app != master_name(),
        unique_names(callers),
    ensures
        unique_names(merged_set(app, callers, masters)),
{
    lemma_merged_set_shape(app, callers, masters);
    lemma_replicas_from_unique(callers, masters);
    let merged = merged_set(app, callers, masters);
    let rf = replicas_from(callers, masters);
    assert(forall|i: int| 0 <= i < rf.len() ==> merged[callers.len() + i] == rf[i]);
    assert forall|i: int, j: int| 0 <= i < j < merged.len() implies merged[i].service_name != merged[j].service_name by {
        if j >= callers.len() {
            assert(!overridden(callers, merged[j].service_name));
            if i < callers.len() {
                assert(merged[i] == callers[i]);
            } else {
                assert(merged[i] == rf[i - callers.len()]);
                assert(merged[j] == rf[j - callers.len()]);
            }
        }
    }
}

/// A master configuration whose name the caller supplied is absent
/// from the merged set, while the caller's entry stands unchanged.
pub proof fn lemma_caller_overrides_master(app: Seq<char>, callers: Seq<ServiceConfigView>, masters: Seq<ServiceConfigView>, j: int)
    requires
        app != master_name(),
        0 <= j < masters.len(),
        overridden(callers, masters[j].service_name),
    ensures
        exists|i: int| 0 <= i < callers.len()
            && merged_set(app, callers, masters)[i] == callers[i]
            && callers[i].service_name == masters[j].service_name,
        forall|i: int| callers.len() <= i < merged_set(app, callers, masters).len()
            ==> #[trigger] merged_set(app, callers, masters)[i].service_name != masters[j].service_name,
{
    lemma_merged_set_shape(app, callers, masters);
    let i = choose|i: int| 0 <= i < callers.len() && callers[i].service_name == masters[j].service_name;
    assert(merged_set(app, callers, masters)[i] == callers[i]);
}

/// Reports whether any configuration in `configs` carries the given
/// service name.
pub fn contains_service_name(configs: &Vec<ServiceConfig>, name: &String) -> (r: bool)
    ensures
        r == overridden(configs.deep_view(), name@),
{
    let mut i: usize = 0;
    while i < configs.len()
        invariant
            i <= configs.len(),
            forall|j: int| 0 <= j < i ==> configs.deep_view()[j].service_name != name@,
        decreases configs.len() - i,
    {
        if *configs[i].get_service_name() == *name {
            assert(configs.deep_view()[i as int].service_name == name@);
            return true;
        }
        i = i + 1;
    }
    false
}

/// The replication step of `create_or_update`: appends to the caller's
/// configurations a `Replica`-marked copy of every master
/// configuration whose service name the caller did not supply, in
/// master order. The caller's entries are never removed or altered.
pub fn merge_with_master_configs(app_name: &String, service_configs: &Vec<ServiceConfig>, master_configs: &Vec<ServiceConfig>) -> (r: Vec<ServiceConfig>)
    requires
        app_name@ != master_name(),
    ensures
        r.deep_view() == merged_set(app_name@, service_configs.deep_view(), master_configs.deep_view()),
{
    let mut configs: Vec<ServiceConfig> = Vec::new();
    let mut i: usize = 0;
    while i < service_configs.len()
        invariant
            i <= service_configs.len(),
            configs@.len() == i,
            configs.deep_view() == service_configs.deep_view().take(i as int),
        decreases service_configs.len() - i,
    {
        configs.push(service_configs[i].clone_config());
        assert(configs.deep_view() =~= service_configs.deep_view().take(i + 1 as int));
        i = i + 1;
    }
    assert(configs.deep_view() =~= service_configs.deep_view());

    let mut m: usize = 0;
    while m < master_configs.len()
        invariant
            m <= master_configs.len(),
            configs.deep_view() == service_configs.deep_view() + replicas_from(service_configs.deep_view(), master_configs.deep_view().take(m as int)),
        decreases master_configs.len() - m,
    {
        let ghost callers_dv = service_configs.deep_view();
        let ghost prefix = master_configs.deep_view().take(m as int);
        let ghost next_prefix = master_configs.deep_view().take(m + 1 as int);
        let ghost name = master_configs.deep_view()[m as int].service_name;
        assert(next_prefix.drop_last() =~= prefix);
        assert(next_prefix.last() == master_configs.deep_view()[m as int]);
        proof {
            lemma_working_set_names(callers_dv, prefix, name);
        }
        if !contains_service_name(&configs, master_configs[m].get_service_name()) {
            assert(!overridden(callers_dv, name) && !overridden(prefix, name));
            let mut replicated_config = master_configs[m].clone_config();
            replicated_config.set_container_type(ContainerType::Replica);
            assert(replicated_config@ == replica_of(next_prefix.last()));
            assert(replicas_from(service_configs.deep_view(), next_prefix) == replicas_from(service_configs.deep_view(), prefix).push(replica_of(next_prefix.last())));
            let ghost pre = configs.deep_view();
            configs.push(replicated_config);
            assert(configs@.len() == pre.len() + 1);
            assert(configs.deep_view() =~= pre.push(replica_of(next_prefix.last())));
            proof {
                Seq::push_distributes_over_add(
                    service_configs.deep_view(),
                    replicas_from(service_configs.deep_view(), prefix),
                    replica_of(next_prefix.last()),
                );
            }
        } else {
            assert(configs.deep_view() =~= service_configs.deep_view() + replicas_from(service_configs.deep_view(), next_prefix));
        }
        m = m + 1;
    }
    assert(master_configs.deep_view().take(master_configs.len() as int) =~= master_configs.deep_view());
    configs
}

} // verus!
