pub mod apps_service;
pub mod config;
pub mod infrastructure;
pub mod memory_infrastructure;
pub mod multimap_port;
pub mod resolution;
pub mod service_model;
pub mod templating;

pub use apps_service::AppsService;
pub use apps_service::AppsServiceError;
pub use config::AppCompanionConfig;
pub use config::Config;
pub use config::ConfigError;
pub use config::ContainerConfig;
pub use infrastructure::Infrastructure;
pub use memory_infrastructure::InMemoryInfrastructure;
pub use service_model::ContainerType;
pub use service_model::Service;
pub use service_model::ServiceConfig;
pub use service_model::ServiceError;
