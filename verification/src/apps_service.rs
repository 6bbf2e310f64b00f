//! The application resolver: owns the public lifecycle contract
//! (create-or-update, delete, enumerate) for an application, and
//! implements the merge algorithm that derives the full service set
//! from the caller's partial list, the master application's
//! replicated services, and the application-companion templates.

use vstd::prelude::*;

use crate::config::Config;
use crate::config::ConfigError;
use crate::config::ConfigView;
use crate::infrastructure::Infrastructure;
use crate::infrastructure::after_start;
use crate::infrastructure::configs_of;
use crate::multimap_port::ServiceMultiMap;
use crate::multimap_port::multimap_get_vec;
use crate::multimap_port::multimap_view;
use crate::resolution::is_derived_replica;
use crate::resolution::lemma_master_never_replicates;
use crate::resolution::lemma_merged_set_shape;
use crate::resolution::lemma_merged_set_unique_names;
use crate::resolution::master_name;
use crate::resolution::merge_with_master_configs;
use crate::resolution::merged_set;
use crate::resolution::overridden;
use crate::resolution::replica_of;
use crate::resolution::replicas_from;
use crate::resolution::unique_names;
use crate::service_model::ContainerType;
use crate::service_model::Service;
use crate::service_model::ServiceConfig;
use crate::service_model::ServiceConfigView;
use crate::service_model::ServiceError;
use crate::service_model::ServiceView;
use crate::service_model::clone_configs;
use crate::service_model::services_of_configs;
use crate::templating::apply_companions;
use crate::templating::companions_resolve;
use crate::templating::lemma_with_companions_shape;
use crate::templating::with_companions;

verus! {

/// The error cases with which the resolver's public operations fail.
#[derive(Debug)]
pub enum AppsServiceError {
    /// The caller-supplied service configuration is invalid.
    InvalidServiceModel(ServiceError),
    /// No application with the given name is running.
    AppNotFound(String),
    /// The backend failed to query or mutate container state.
    InfrastructureError(failure::Error),
    /// The process-wide configuration cannot be loaded.
    InvalidServerConfiguration(ConfigError),
    /// An application-companion template failed to resolve.
    InvalidTemplateFormat(handlebars::RenderError),
}

impl core::convert::From<ConfigError> for AppsServiceError {
    fn from(err: ConfigError) -> Self {
        AppsServiceError::InvalidServerConfiguration(err)
    }
}

impl vstd::std_specs::convert::FromSpecImpl<ConfigError> for AppsServiceError {
    open spec fn obeys_from_spec() -> bool {
        true
    }

    open spec fn from_spec(err: ConfigError) -> Self {
        AppsServiceError::InvalidServerConfiguration(err)
    }
}

impl core::convert::From<failure::Error> for AppsServiceError {
    fn from(error: failure::Error) -> Self {
        AppsServiceError::InfrastructureError(error)
    }
}

impl vstd::std_specs::convert::FromSpecImpl<failure::Error> for AppsServiceError {
    open spec fn obeys_from_spec() -> bool {
        true
    }

    open spec fn from_spec(error: failure::Error) -> Self {
        AppsServiceError::InfrastructureError(error)
    }
}

impl core::convert::From<handlebars::RenderError> for AppsServiceError {
    fn from(error: handlebars::RenderError) -> Self {
        AppsServiceError::InvalidTemplateFormat(error)
    }
}

impl vstd::std_specs::convert::FromSpecImpl<handlebars::RenderError> for AppsServiceError {
    open spec fn obeys_from_spec() -> bool {
        true
    }

    open spec fn from_spec(error: handlebars::RenderError) -> Self {
        AppsServiceError::InvalidTemplateFormat(error)
    }
}

/// The full resolved set for one application: the caller's
/// configurations, then the non-overridden master configurations as
/// replicas, then the resolved companions in load order — every name
/// entering the set at most once, the earlier entry winning a
/// collision.
pub open spec fn resolved_set(
    app: Seq<char>,
    callers: Seq<ServiceConfigView>,
    masters: Seq<ServiceConfigView>,
    templates: Seq<crate::config::AppCompanionConfigView>,
) -> Seq<ServiceConfigView> {
    with_companions(merged_set(app, callers, masters), app, templates)
}

/// The resolution law: for caller configurations with pairwise
/// distinct names, resolved for an application other than the master,
/// the resolved set contains every caller entry unchanged and in
/// place, then the master's non-overridden configurations as replicas
/// in master order, then the resolved companions in load order, each
/// marked as such and carrying a name no earlier entry holds — and no
/// two entries of the whole set share a service name. A caller entry
/// wins every collision with a derived one; the per-template step is
/// stated by `lemma_with_companions_shape`.
pub proof fn lemma_resolution_complete(
    app: Seq<char>,
    callers: Seq<ServiceConfigView>,
    masters: Seq<ServiceConfigView>,
    templates: Seq<crate::config::AppCompanionConfigView>,
)
    requires
        app != master_name(),
        unique_names(callers),
    ensures
        merged_set(app, callers, masters).len() == callers.len() + replicas_from(callers, masters).len(),
        merged_set(app, callers, masters).len() <= resolved_set(app, callers, masters, templates).len(),
        resolved_set(app, callers, masters, templates).len() <= merged_set(app, callers, masters).len() + templates.len(),
        forall|i: int| 0 <= i < callers.len()
            ==> #[trigger] resolved_set(app, callers, masters, templates)[i] == callers[i],
        forall|i: int| callers.len() <= i < merged_set(app, callers, masters).len()
            ==> is_derived_replica(callers, masters, #[trigger] resolved_set(app, callers, masters, templates)[i]),
        forall|j: int| 0 <= j < masters.len()
            && !overridden(callers, masters[j].service_name)
            && !overridden(masters.take(j), #[trigger] masters[j].service_name)
            ==> exists|i: int| callers.len() <= i < merged_set(app, callers, masters).len()
                && resolved_set(app, callers, masters, templates)[i] == replica_of(masters[j]),
        forall|i: int| merged_set(app, callers, masters).len() <= i < resolved_set(app, callers, masters, templates).len()
            ==> #[trigger] resolved_set(app, callers, masters, templates)[i].container_type
                == ContainerType::ApplicationCompanion,
        unique_names(resolved_set(app, callers, masters, templates)),
{
    let merged = merged_set(app, callers, masters);
    let resolved = resolved_set(app, callers, masters, templates);
    lemma_merged_set_shape(app, callers, masters);
    lemma_merged_set_unique_names(app, callers, masters);
    lemma_with_companions_shape(merged, app, templates);
    assert forall|j: int| 0 <= j < masters.len()
        && !overridden(callers, masters[j].service_name)
        && !overridden(masters.take(j), #[trigger] masters[j].service_name)
        implies exists|i: int| callers.len() <= i < merged.len() && resolved[i] == replica_of(masters[j]) by {
        let i = choose|i: int| callers.len() <= i < merged.len() && merged[i] == replica_of(masters[j]);
        assert(resolved[i] == merged[i]);
    }
}

/// Resolving for the master application never introduces a replica,
/// whatever the master query would have returned: every entry of the
/// resolved set is a caller entry in place, or a companion marked as
/// such.
pub proof fn lemma_master_resolution_no_replicas(
    callers: Seq<ServiceConfigView>,
    masters: Seq<ServiceConfigView>,
    templates: Seq<crate::config::AppCompanionConfigView>,
)
    ensures
        callers.len() <= resolved_set(master_name(), callers, masters, templates).len(),
        resolved_set(master_name(), callers, masters, templates).len() <= callers.len() + templates.len(),
        forall|i: int| 0 <= i < callers.len()
            ==> #[trigger] resolved_set(master_name(), callers, masters, templates)[i] == callers[i],
        forall|i: int| callers.len() <= i < resolved_set(master_name(), callers, masters, templates).len()
            ==> #[trigger] resolved_set(master_name(), callers, masters, templates)[i].container_type
                == ContainerType::ApplicationCompanion,
{
    lemma_master_never_replicates(callers, masters);
    lemma_with_companions_shape(callers, master_name(), templates);
}

/// The application resolver over a pluggable infrastructure backend.
pub struct AppsService<I: Infrastructure> {
    config: Config,
    infrastructure: I,
}

impl<I: Infrastructure> AppsService<I> {
    /// The loaded configuration.
    pub closed spec fn config_view(&self) -> ConfigView {
        self.config@
    }

    /// The backend's running services, grouped by application.
    pub closed spec fn running(&self) -> Map<Seq<char>, Seq<ServiceView>> {
        self.infrastructure.running()
    }

    /// The configurations each application currently runs with, as the
    /// backend records them.
    pub closed spec fn infra_configs(&self) -> Map<Seq<char>, Seq<ServiceConfigView>> {
        self.infrastructure.configs()
    }

    /// Whether the backend answers every request; vacuously false for
    /// a backend that can fail.
    pub closed spec fn backend_infallible(&self) -> bool {
        self.infrastructure.infallible()
    }

    /// The working set after the replication step, against the current
    /// master state.
    pub open spec fn merged_for(&self, app: Seq<char>, callers: Seq<ServiceConfigView>) -> Seq<ServiceConfigView> {
        merged_set(app, callers, configs_of(self.infra_configs(), master_name()))
    }

    /// The set that resolving the given caller configurations for the
    /// given application yields against the current master state and
    /// the loaded templates.
    pub open spec fn resolved_set_for(&self, app: Seq<char>, callers: Seq<ServiceConfigView>) -> Seq<ServiceConfigView> {
        resolved_set(
            app,
            callers,
            configs_of(self.infra_configs(), master_name()),
            self.config_view().application_companions,
        )
    }

    /// Builds a resolver over the given loaded configuration and
    /// backend.
    pub fn new(config: Config, infrastructure: I) -> (r: AppsService<I>)
        ensures
            r.config_view() == config@,
            r.running() == infrastructure.running(),
            r.infra_configs() == infrastructure.configs(),
            r.backend_infallible() == infrastructure.infallible(),
    {
        AppsService { config, infrastructure }
    }

    /// Returns every currently running service grouped by owning
    /// application, as the backend reports it. A pure query: fails
    /// only when the backend query fails.
    pub fn get_apps(&self) -> (r: Result<ServiceMultiMap, AppsServiceError>)
        ensures
            r matches Ok(m) ==> multimap_view(m) == self.running(),
            r matches Err(e) ==> e is InfrastructureError,
            self.backend_infallible() ==> r is Ok,
    {
        match self.infrastructure.get_services() {
            Ok(m) => Ok(m),
            Err(e) => Err(AppsServiceError::from(e)),
        }
    }

    /// Creates or updates an application: extends the caller's
    /// configurations with the master application's non-overridden
    /// configurations as replicas (unless the target is the master
    /// itself), then with one resolved companion per loaded template,
    /// and hands the full set to the backend's start operation. On a
    /// template failure the whole call aborts with the backend
    /// untouched.
    pub fn create_or_update(&mut self, app_name: &String, service_configs: &Vec<ServiceConfig>) -> (r: Result<Vec<Service>, AppsServiceError>)
        ensures
            r matches Ok(v) ==> ({
                let resolved = old(self).resolved_set_for(app_name@, service_configs.deep_view());
                &&& v.deep_view() == services_of_configs(app_name@, resolved)
                &&& final(self).running() == after_start(old(self).running(), app_name@, services_of_configs(app_name@, resolved))
                &&& final(self).infra_configs() == old(self).infra_configs().insert(app_name@, resolved)
                &&& final(self).config_view() == old(self).config_view()
            }),
            r matches Err(e) ==> (e is InfrastructureError || e is InvalidTemplateFormat),
            r matches Err(e) && e is InvalidTemplateFormat ==> ({
                &&& final(self).running() == old(self).running()
                &&& final(self).infra_configs() == old(self).infra_configs()
                &&& old(self).config_view().application_companions.len() > 0
            }),
            final(self).config_view() == old(self).config_view(),
            final(self).backend_infallible() == old(self).backend_infallible(),
            r is Ok ==> companions_resolve(
                old(self).merged_for(app_name@, service_configs.deep_view()),
                app_name@,
                old(self).config_view().application_companions,
            ),
            r matches Err(e) && e is InvalidTemplateFormat ==> !companions_resolve(
                old(self).merged_for(app_name@, service_configs.deep_view()),
                app_name@,
                old(self).config_view().application_companions,
            ),
            old(self).backend_infallible() && companions_resolve(
                old(self).merged_for(app_name@, service_configs.deep_view()),
                app_name@,
                old(self).config_view().application_companions,
            ) ==> r is Ok,
            old(self).backend_infallible() && !companions_resolve(
                old(self).merged_for(app_name@, service_configs.deep_view()),
                app_name@,
                old(self).config_view().application_companions,
            ) ==> (r matches Err(e) && e is InvalidTemplateFormat),
    {
        let master = "master".to_owned();
        let configs: Vec<ServiceConfig> = if *app_name == master {
            clone_configs(service_configs)
        } else {
            let master_configs = match self.infrastructure.get_configs_of_app(&master) {
                Ok(v) => v,
                Err(e) => {
                    return Err(AppsServiceError::from(e));
                },
            };
            merge_with_master_configs(app_name, service_configs, &master_configs)
        };
        assert(configs.deep_view() == merged_set(
            app_name@,
            service_configs.deep_view(),
            configs_of(self.infra_configs(), master_name()),
        ));

        let companions = match self.config.get_application_companion_configs() {
            Ok(v) => v,
            Err(e) => {
                return Err(AppsServiceError::from(e));
            },
        };
        let working = match apply_companions(app_name, configs, &companions) {
            Ok(v) => v,
            Err(e) => {
                return Err(AppsServiceError::from(e));
            },
        };
        assert(working.deep_view() == self.resolved_set_for(app_name@, service_configs.deep_view()));

        let container_config = self.config.get_container_config();
        match self.infrastructure.start_services(app_name, &working, &container_config) {
            Ok(services) => Ok(services),
            Err(e) => Err(AppsServiceError::from(e)),
        }
    }

    /// Deletes all services of the given application: fails with
    /// `AppNotFound` exactly when the backend reports no running
    /// services under that name at query time, and otherwise stops the
    /// application and returns the services that were running. The
    /// check and the stop are two separate backend calls; they are not
    /// atomic.
    pub fn delete_app(&mut self, app_name: &String) -> (r: Result<Vec<Service>, AppsServiceError>)
        ensures
            r matches Ok(v) ==> ({
                &&& old(self).running().contains_key(app_name@)
                &&& v.deep_view() == old(self).running()[app_name@]
                &&& final(self).running() == old(self).running().remove(app_name@)
                &&& final(self).infra_configs() == old(self).infra_configs().remove(app_name@)
                &&& final(self).config_view() == old(self).config_view()
            }),
            r matches Err(e) ==> (e is AppNotFound || e is InfrastructureError),
            r matches Err(AppsServiceError::AppNotFound(missing)) ==> ({
                &&& missing@ == app_name@
                &&& !old(self).running().contains_key(app_name@)
                &&& final(self).running() == old(self).running()
                &&& final(self).infra_configs() == old(self).infra_configs()
            }),
            !old(self).running().contains_key(app_name@) ==> r is Err,
            final(self).config_view() == old(self).config_view(),
            final(self).backend_infallible() == old(self).backend_infallible(),
            old(self).backend_infallible() && old(self).running().contains_key(app_name@) ==> r is Ok,
            old(self).backend_infallible() && !old(self).running().contains_key(app_name@)
                ==> (r matches Err(e) && e is AppNotFound),
    {
        let services_map = match self.infrastructure.get_services() {
            Ok(m) => m,
            Err(e) => {
                return Err(AppsServiceError::from(e));
            },
        };
        match multimap_get_vec(&services_map, app_name) {
            None => Err(AppsServiceError::AppNotFound(app_name.clone())),
            Some(_) => match self.infrastructure.stop_services(app_name) {
                Ok(v) => Ok(v),
                Err(e) => Err(AppsServiceError::from(e)),
            },
        }
    }
}

} // verus!
