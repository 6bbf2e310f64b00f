//! The service data model: a deployable unit's configuration, its role
//! marker, and the realized service records that the infrastructure
//! reports back.

use vstd::prelude::*;

verus! {

/// Marks the provenance of a service configuration within one
/// application's resolved set: supplied by the caller, replicated from
/// the master application, or derived from a companion template.
#[derive(Clone, Copy, PartialEq, Eq, Structural, Debug)]
pub enum ContainerType {
    Primary,
    Replica,
    ApplicationCompanion,
    ServiceCompanion,
}

/// Error raised when a caller-supplied service model is semantically
/// invalid.
#[derive(Debug)]
pub enum ServiceError {
    InvalidServiceName(String),
}

/// Mathematical model of a `ServiceConfig`.
pub struct ServiceConfigView {
    pub service_name: Seq<char>,
    pub image: Seq<char>,
    pub container_type: ContainerType,
}

/// One deployable unit's specification: its unique name within an
/// application, its opaque runtime parameters (here the image
/// reference), and its role marker.
#[derive(Debug)]
pub struct ServiceConfig {
    service_name: String,
    image: String,
    container_type: ContainerType,
}

impl View for ServiceConfig {
    type V = ServiceConfigView;

    closed spec fn view(&self) -> ServiceConfigView {
        ServiceConfigView {
            service_name: self.service_name@,
            image: self.image@,
            container_type: self.container_type,
        }
    }
}

impl DeepView for ServiceConfig {
    type V = ServiceConfigView;

    open spec fn deep_view(&self) -> ServiceConfigView {
        self.view()
    }
}

impl ServiceConfig {
    pub fn new(service_name: String, image: String, container_type: ContainerType) -> (r: ServiceConfig)
        ensures
            r@ == (ServiceConfigView { service_name: service_name@, image: image@, container_type }),
    {
        ServiceConfig { service_name, image, container_type }
    }

    pub fn get_service_name(&self) -> (r: &String)
        ensures
            r@ == self@.service_name,
    {
        &self.service_name
    }

    pub fn get_image(&self) -> (r: &String)
        ensures
            r@ == self@.image,
    {
        &self.image
    }

    pub fn get_container_type(&self) -> (r: ContainerType)
        ensures
            r == self@.container_type,
    {
        self.container_type
    }

    pub fn set_container_type(&mut self, container_type: ContainerType)
        ensures
            final(self)@ == (ServiceConfigView { container_type, ..old(self)@ }),
    {
        self.container_type = container_type;
    }

    pub fn clone_config(&self) -> (r: ServiceConfig)
        ensures
            r@ == self@,
    {
        ServiceConfig {
            service_name: self.service_name.clone(),
            image: self.image.clone(),
            container_type: self.container_type,
        }
    }
}

/// Mathematical model of a realized `Service`.
pub struct ServiceView {
    pub app_name: Seq<char>,
    pub service_name: Seq<char>,
    pub container_type: ContainerType,
}

/// A realized service as reported by the infrastructure: the owning
/// application, the service's name, and its role marker.
#[derive(Clone, Debug)]
pub struct Service {
    app_name: String,
    service_name: String,
    container_type: ContainerType,
}

impl View for Service {
    type V = ServiceView;

    closed spec fn view(&self) -> ServiceView {
        ServiceView {
            app_name: self.app_name@,
            service_name: self.service_name@,
            container_type: self.container_type,
        }
    }
}

impl DeepView for Service {
    type V = ServiceView;

    open spec fn deep_view(&self) -> ServiceView {
        self.view()
    }
}

impl Service {
    pub fn new(app_name: String, service_name: String, container_type: ContainerType) -> (r: Service)
        ensures
            r@ == (ServiceView { app_name: app_name@, service_name: service_name@, container_type }),
    {
        Service { app_name, service_name, container_type }
    }

    pub fn get_app_name(&self) -> (r: &String)
        ensures
            r@ == self@.app_name,
    {
        &self.app_name
    }

    pub fn get_service_name(&self) -> (r: &String)
        ensures
            r@ == self@.service_name,
    {
        &self.service_name
    }

    pub fn get_container_type(&self) -> (r: ContainerType)
        ensures
            r == self@.container_type,
    {
        self.container_type
    }

    pub fn clone_service(&self) -> (r: Service)
        ensures
            r@ == self@,
    {
        Service {
            app_name: self.app_name.clone(),
            service_name: self.service_name.clone(),
            container_type: self.container_type,
        }
    }
}

/// The realized service record that starting one configuration under
/// the given application yields.
pub open spec fn service_for(app: Seq<char>, c: ServiceConfigView) -> ServiceView {
    ServiceView { app_name: app, service_name: c.service_name, container_type: c.container_type }
}

/// The realized service records that starting a whole configuration set
/// under the given application yields, in configuration order.
pub open spec fn services_of_configs(app: Seq<char>, configs: Seq<ServiceConfigView>) -> Seq<ServiceView> {
    configs.map_values(|c: ServiceConfigView| service_for(app, c))
}

/// Clones a configuration list, preserving every entry.
pub fn clone_configs(configs: &Vec<ServiceConfig>) -> (r: Vec<ServiceConfig>)
    ensures
        r.deep_view() == configs.deep_view(),
{
    let mut cloned: Vec<ServiceConfig> = Vec::new();
    let mut i: usize = 0;
    while i < configs.len()
        invariant
            i <= configs.len(),
            cloned@.len() == i,
            cloned.deep_view() == configs.deep_view().take(i as int),
        decreases configs.len() - i,
    {
        cloned.push(configs[i].clone_config());
        assert(cloned.deep_view() =~= configs.deep_view().take(i + 1 as int));
        i = i + 1;
    }
    assert(cloned.deep_view() =~= configs.deep_view());
    cloned
}

/// Builds the realized service records for a configuration set, in
/// configuration order.
pub fn realize_services(app_name: &String, configs: &Vec<ServiceConfig>) -> (r: Vec<Service>)
    ensures
        r.deep_view() == services_of_configs(app_name@, configs.deep_view()),
{
    let mut services: Vec<Service> = Vec::new();
    let mut i: usize = 0;
    while i < configs.len()
        invariant
            i <= configs.len(),
            services@.len() == i,
            services.deep_view() == services_of_configs(app_name@, configs.deep_view().take(i as int)),
        decreases configs.len() - i,
    {
        let c = &configs[i];
        services.push(Service {
            app_name: app_name.clone(),
            service_name: c.service_name.clone(),
            container_type: c.container_type,
        });
        assert(services.deep_view()[i as int] == service_for(app_name@, configs.deep_view()[i as int]));
        assert(forall|j: int| 0 <= j < i ==> services.deep_view()[j] == services_of_configs(app_name@, configs.deep_view().take(i as int))[j]);
        assert(forall|j: int| 0 <= j < i ==> services.deep_view()[j] == service_for(app_name@, configs.deep_view()[j]));
        assert(services.deep_view() =~= services_of_configs(app_name@, configs.deep_view().take(i + 1 as int)));
        i = i + 1;
    }
    assert(configs.deep_view().take(configs.len() as int) =~= configs.deep_view());
    services
}

} // verus!
