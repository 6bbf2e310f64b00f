//! The infrastructure port: the abstract capability surface the
//! resolver uses to query currently running services and to start and
//! stop the resolved set. Any backend satisfying this contract is
//! substitutable.

use vstd::prelude::*;

use crate::config::ContainerConfig;
use crate::multimap_port::ServiceMultiMap;
use crate::multimap_port::multimap_view;
use crate::service_model::Service;
use crate::service_model::ServiceConfig;
use crate::service_model::ServiceConfigView;
use crate::service_model::ServiceView;
use crate::service_model::services_of_configs;

verus! {

/// Declares the opaque error type with which a backend reports its
/// failures; the library carries such a value through unchanged.
#[verifier::external_type_specification]
#[verifier::external_body]
pub struct ExFailureError(failure::Error);

/// Relies on `failure::err_msg`: builds an opaque backend failure
/// from a message. Nothing is claimed of the resulting value.
#[verifier::external_body]
pub(crate) fn backend_failure(msg: String) -> failure::Error {
    failure::err_msg(msg)
}

/// The configurations recorded for one application in an
/// infrastructure state: the recorded ones when the application is
/// present, none otherwise.
pub open spec fn configs_of(m: Map<Seq<char>, Seq<ServiceConfigView>>, app: Seq<char>) -> Seq<ServiceConfigView> {
    if m.contains_key(app) {
        m[app]
    } else {
        Seq::empty()
    }
}

/// The running-services map after a start operation: the application
/// runs exactly the requested services, and an application that runs
/// nothing does not appear.
pub open spec fn after_start(
    m: Map<Seq<char>, Seq<ServiceView>>,
    app: Seq<char>,
    services: Seq<ServiceView>,
) -> Map<Seq<char>, Seq<ServiceView>> {
    if services.len() == 0 {
        m.remove(app)
    } else {
        m.insert(app, services)
    }
}

/// The infrastructure port. A backend either reflects the requested
/// state, as the method contracts state, or reports an opaque failure;
/// no atomicity across calls is assumed.
pub trait Infrastructure: Sized {
    /// The services currently running, grouped by owning application.
    spec fn running(&self) -> Map<Seq<char>, Seq<ServiceView>>;

    /// The configurations each application is currently running with.
    spec fn configs(&self) -> Map<Seq<char>, Seq<ServiceConfigView>>;

    /// Whether this backend answers every request. A backend that can
    /// fail leaves this false and every success clause below vacuous.
    spec fn infallible(&self) -> bool;

    /// Queries every currently running service, grouped by owning
    /// application.
    fn get_services(&self) -> (r: Result<ServiceMultiMap, failure::Error>)
        ensures
            r matches Ok(m) ==> multimap_view(m) == self.running(),
            self.infallible() ==> r is Ok,
    ;

    /// Queries the configurations the given application is currently
    /// running with; an application that runs nothing has none.
    fn get_configs_of_app(&self, app_name: &String) -> (r: Result<Vec<ServiceConfig>, failure::Error>)
        ensures
            r matches Ok(v) ==> v.deep_view() == configs_of(self.configs(), app_name@),
            self.infallible() ==> r is Ok,
    ;

    /// Starts the given configuration set for the given application,
    /// replacing whatever ran under that name, and reports the now
    /// running services.
    fn start_services(
        &mut self,
        app_name: &String,
        service_configs: &Vec<ServiceConfig>,
        container_config: &ContainerConfig,
    ) -> (r: Result<Vec<Service>, failure::Error>)
        ensures
            r matches Ok(v) ==> ({
                &&& final(self).running() == after_start(
                    old(self).running(),
                    app_name@,
                    services_of_configs(app_name@, service_configs.deep_view()),
                )
                &&& final(self).configs() == old(self).configs().insert(app_name@, service_configs.deep_view())
                &&& v.deep_view() == services_of_configs(app_name@, service_configs.deep_view())
            }),
            old(self).infallible() ==> r is Ok,
            final(self).infallible() == old(self).infallible(),
    ;

    /// Stops every service of the given application and reports the
    /// services that were running under it.
    fn stop_services(&mut self, app_name: &String) -> (r: Result<Vec<Service>, failure::Error>)
        ensures
            r matches Ok(v) ==> ({
                &&& final(self).running() == old(self).running().remove(app_name@)
                &&& final(self).configs() == old(self).configs().remove(app_name@)
                &&& v.deep_view() == (if old(self).running().contains_key(app_name@) {
                    old(self).running()[app_name@]
                } else {
                    Seq::<ServiceView>::empty()
                })
            }),
            old(self).infallible() ==> r is Ok,
            final(self).infallible() == old(self).infallible(),
    ;
}

} // verus!
