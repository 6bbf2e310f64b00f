//! The process-wide configuration: the application-companion templates
//! and the global container configuration, loaded once before the
//! resolver is constructed and read-only thereafter.

use vstd::prelude::*;

verus! {

/// Error raised when the process-wide configuration cannot be loaded.
#[derive(Debug)]
pub enum ConfigError {
    CannotOpenConfigFile(String),
}

/// Mathematical model of an `AppCompanionConfig`.
pub struct AppCompanionConfigView {
    pub service_name: Seq<char>,
    pub image: Seq<char>,
}

/// An unresolved application-companion service configuration: its
/// fields are template strings, resolved per target application.
#[derive(Debug)]
pub struct AppCompanionConfig {
    service_name: String,
    image: String,
}

impl View for AppCompanionConfig {
    type V = AppCompanionConfigView;

    closed spec fn view(&self) -> AppCompanionConfigView {
        AppCompanionConfigView { service_name: self.service_name@, image: self.image@ }
    }
}

impl DeepView for AppCompanionConfig {
    type V = AppCompanionConfigView;

    open spec fn deep_view(&self) -> AppCompanionConfigView {
        self.view()
    }
}

impl AppCompanionConfig {
    pub fn new(service_name: String, image: String) -> (r: AppCompanionConfig)
        ensures
            r@ == (AppCompanionConfigView { service_name: service_name@, image: image@ }),
    {
        AppCompanionConfig { service_name, image }
    }

    pub fn get_service_name(&self) -> (r: &String)
        ensures
            r@ == self@.service_name,
    {
        &self.service_name
    }

    pub fn get_image(&self) -> (r: &String)
        ensures
            r@ == self@.image,
    {
        &self.image
    }

    pub fn clone_companion(&self) -> (r: AppCompanionConfig)
        ensures
            r@ == self@,
    {
        AppCompanionConfig { service_name: self.service_name.clone(), image: self.image.clone() }
    }
}

/// Mathematical model of a `ContainerConfig`.
pub struct ContainerConfigView {
    pub memory_limit: Option<u64>,
}

/// The global container configuration handed through to the
/// infrastructure on every start operation.
#[derive(Debug)]
pub struct ContainerConfig {
    memory_limit: Option<u64>,
}

impl View for ContainerConfig {
    type V = ContainerConfigView;

    closed spec fn view(&self) -> ContainerConfigView {
        ContainerConfigView { memory_limit: self.memory_limit }
    }
}

impl ContainerConfig {
    pub fn new(memory_limit: Option<u64>) -> (r: ContainerConfig)
        ensures
            r@ == (ContainerConfigView { memory_limit }),
    {
        ContainerConfig { memory_limit }
    }

    pub fn get_memory_limit(&self) -> (r: Option<u64>)
        ensures
            r == self@.memory_limit,
    {
        self.memory_limit
    }

    pub fn clone_container_config(&self) -> (r: ContainerConfig)
        ensures
            r@ == self@,
    {
        ContainerConfig { memory_limit: self.memory_limit }
    }
}

/// Mathematical model of a `Config`.
pub struct ConfigView {
    pub application_companions: Seq<AppCompanionConfigView>,
    pub container_config: ContainerConfigView,
}

/// The immutable, startup-loaded configuration value.
#[derive(Debug)]
pub struct Config {
    application_companions: Vec<AppCompanionConfig>,
    container_config: ContainerConfig,
}

impl View for Config {
    type V = ConfigView;

    closed spec fn view(&self) -> ConfigView {
        ConfigView {
            application_companions: self.application_companions.deep_view(),
            container_config: self.container_config@,
        }
    }
}

impl Config {
    pub fn new(application_companions: Vec<AppCompanionConfig>, container_config: ContainerConfig) -> (r: Config)
        ensures
            r@ == (ConfigView {
                application_companions: application_companions.deep_view(),
                container_config: container_config@,
            }),
    {
        Config { application_companions, container_config }
    }

    /// The loaded application-companion templates, in load order.
    pub fn get_application_companion_configs(&self) -> (r: Result<Vec<AppCompanionConfig>, ConfigError>)
        ensures
            r matches Ok(v) && v.deep_view() == self@.application_companions,
    {
        let mut companions: Vec<AppCompanionConfig> = Vec::new();
        let mut i: usize = 0;
        while i < self.application_companions.len()
            invariant
                i <= self.application_companions.len(),
                companions@.len() == i,
                companions.deep_view() == self@.application_companions.take(i as int),
        decreases self.application_companions.len() - i,
        {
            companions.push(self.application_companions[i].clone_companion());
            assert(companions.deep_view() =~= self@.application_companions.take(i + 1 as int));
            i = i + 1;
        }
        assert(companions.deep_view() =~= self@.application_companions);
        Ok(companions)
    }

    /// The global container configuration.
    pub fn get_container_config(&self) -> (r: ContainerConfig)
        ensures
            r@ == self@.container_config,
    {
        self.container_config.clone_container_config()
    }
}

} // verus!
