use apps_service::AppCompanionConfig;
use apps_service::AppsService;
use apps_service::AppsServiceError;
use apps_service::Config;
use apps_service::ConfigError;
use apps_service::ContainerConfig;
use apps_service::ContainerType;
use apps_service::InMemoryInfrastructure;
use apps_service::Infrastructure;
use apps_service::ServiceConfig;
use apps_service::ServiceError;

fn empty_config() -> Config {
    Config::new(Vec::new(), ContainerConfig::new(None))
}

fn config_with(companions: Vec<AppCompanionConfig>) -> Config {
    Config::new(companions, ContainerConfig::new(None))
}

fn sc(name: &str, image: &str, t: ContainerType) -> ServiceConfig {
    ServiceConfig::new(name.to_string(), image.to_string(), t)
}

#[test]
fn enumerate_empty_backend_returns_empty_mapping() {
    let service = AppsService::new(empty_config(), InMemoryInfrastructure::new());
    let apps = service.get_apps().expect("an empty backend answers the query");
    assert!(apps.is_empty());
}

#[test]
fn create_or_update_replicates_master_services() {
    let mut infra = InMemoryInfrastructure::new();
    let master_configs = vec![
        sc("web", "web:1", ContainerType::Primary),
        sc("db", "postgres:11", ContainerType::Primary),
    ];
    infra
        .start_services(&"master".to_string(), &master_configs, &ContainerConfig::new(None))
        .expect("seeding master succeeds");

    let mut service = AppsService::new(empty_config(), infra);
    let caller = vec![sc("web", "web:override", ContainerType::Primary)];
    let running = service
        .create_or_update(&"review-1".to_string(), &caller)
        .expect("resolution succeeds");

    assert_eq!(running.len(), 2);
    assert_eq!(running[0].get_service_name().as_str(), "web");
    assert_eq!(running[0].get_container_type(), ContainerType::Primary);
    assert_eq!(running[0].get_app_name().as_str(), "review-1");
    assert_eq!(running[1].get_service_name().as_str(), "db");
    assert_eq!(running[1].get_container_type(), ContainerType::Replica);
}

#[test]
fn caller_config_wins_over_master_config() {
    let caller = vec![sc("web", "web:override", ContainerType::Primary)];
    let masters = vec![
        sc("web", "web:master", ContainerType::Primary),
        sc("db", "postgres:11", ContainerType::Primary),
    ];
    let merged = apps_service::resolution::merge_with_master_configs(
        &"review-1".to_string(),
        &caller,
        &masters,
    );
    assert_eq!(merged.len(), 2);
    assert_eq!(merged[0].get_service_name().as_str(), "web");
    assert_eq!(merged[0].get_image().as_str(), "web:override");
    assert_eq!(merged[0].get_container_type(), ContainerType::Primary);
    assert_eq!(merged[1].get_service_name().as_str(), "db");
    assert_eq!(merged[1].get_container_type(), ContainerType::Replica);
}

#[test]
fn master_update_never_appends_replicas() {
    let mut infra = InMemoryInfrastructure::new();
    infra
        .start_services(
            &"master".to_string(),
            &vec![sc("db", "postgres:11", ContainerType::Primary)],
            &ContainerConfig::new(None),
        )
        .expect("seeding master succeeds");

    let mut service = AppsService::new(empty_config(), infra);
    let running = service
        .create_or_update(
            &"master".to_string(),
            &vec![sc("web", "web:1", ContainerType::Primary)],
        )
        .expect("updating master succeeds");

    assert_eq!(running.len(), 1);
    assert_eq!(running[0].get_service_name().as_str(), "web");
    assert_eq!(running[0].get_container_type(), ContainerType::Primary);
}

#[test]
fn template_failure_leaves_backend_untouched() {
    let mut infra = InMemoryInfrastructure::new();
    let seeded = vec![sc("web", "web:1", ContainerType::Primary)];
    infra
        .start_services(&"app-1".to_string(), &seeded, &ContainerConfig::new(None))
        .expect("seeding succeeds");

    let bad_template = AppCompanionConfig::new("{{#if}}".to_string(), "img".to_string());
    let mut service = AppsService::new(config_with(vec![bad_template]), infra);
    let result = service.create_or_update(
        &"app-1".to_string(),
        &vec![sc("other", "other:1", ContainerType::Primary)],
    );
    assert!(matches!(result, Err(AppsServiceError::InvalidTemplateFormat(_))));

    let apps = service.get_apps().expect("the backend still answers");
    let still_running = apps.get_vec("app-1").expect("the application still runs");
    assert_eq!(still_running.len(), 1);
    assert_eq!(still_running[0].get_service_name().as_str(), "web");
}

#[test]
fn companion_templates_see_earlier_companions() {
    let t1 = AppCompanionConfig::new("t1-companion".to_string(), "postgres:11".to_string());
    let t2 = AppCompanionConfig::new("t2-{{[t1-companion]}}".to_string(), "nginx:1".to_string());
    let mut service = AppsService::new(config_with(vec![t1, t2]), InMemoryInfrastructure::new());

    let running = service
        .create_or_update(&"review-2".to_string(), &Vec::new())
        .expect("both templates resolve");

    assert_eq!(running.len(), 2);
    assert_eq!(running[0].get_service_name().as_str(), "t1-companion");
    assert_eq!(running[0].get_container_type(), ContainerType::ApplicationCompanion);
    assert_eq!(running[1].get_service_name().as_str(), "t2-application-companion");
    assert_eq!(running[1].get_container_type(), ContainerType::ApplicationCompanion);
}

#[test]
fn templates_see_the_application_name() {
    let template = AppCompanionConfig::new(
        "{{application_name}}-proxy".to_string(),
        "nginx:1".to_string(),
    );
    let resolved = apps_service::templating::apply_templating_for_application_companion(
        &template,
        &"review-3".to_string(),
        &Vec::new(),
    )
    .expect("the template resolves");
    assert_eq!(resolved.get_service_name().as_str(), "review-3-proxy");
    assert_eq!(resolved.get_image().as_str(), "nginx:1");
    assert_eq!(resolved.get_container_type(), ContainerType::ApplicationCompanion);
}

#[test]
fn malformed_template_fails_to_resolve() {
    let template = AppCompanionConfig::new("{{unclosed".to_string(), "img".to_string());
    let resolved = apps_service::templating::apply_templating_for_application_companion(
        &template,
        &"review-4".to_string(),
        &Vec::new(),
    );
    assert!(resolved.is_err());
}

#[test]
fn full_resolution_has_no_duplicate_names() {
    let mut infra = InMemoryInfrastructure::new();
    infra
        .start_services(
            &"master".to_string(),
            &vec![
                sc("a", "a:master", ContainerType::Primary),
                sc("b", "b:master", ContainerType::Primary),
            ],
            &ContainerConfig::new(None),
        )
        .expect("seeding master succeeds");

    let template = AppCompanionConfig::new("c".to_string(), "c:1".to_string());
    let mut service = AppsService::new(config_with(vec![template]), infra);
    let running = service
        .create_or_update(
            &"review-5".to_string(),
            &vec![sc("a", "a:caller", ContainerType::Primary)],
        )
        .expect("resolution succeeds");

    assert_eq!(running.len(), 3);
    assert_eq!(running[0].get_service_name().as_str(), "a");
    assert_eq!(running[0].get_container_type(), ContainerType::Primary);
    assert_eq!(running[1].get_service_name().as_str(), "b");
    assert_eq!(running[1].get_container_type(), ContainerType::Replica);
    assert_eq!(running[2].get_service_name().as_str(), "c");
    assert_eq!(running[2].get_container_type(), ContainerType::ApplicationCompanion);
    let mut names: Vec<String> = running.iter().map(|s| s.get_service_name().clone()).collect();
    names.sort();
    names.dedup();
    assert_eq!(names.len(), 3);
}

#[test]
fn delete_unknown_app_reports_not_found() {
    let mut service = AppsService::new(empty_config(), InMemoryInfrastructure::new());
    let result = service.delete_app(&"ghost".to_string());
    match result {
        Err(AppsServiceError::AppNotFound(name)) => assert_eq!(name.as_str(), "ghost"),
        _ => panic!("expected an application-not-found failure"),
    }
}

#[test]
fn delete_running_app_stops_and_reports_its_services() {
    let mut service = AppsService::new(empty_config(), InMemoryInfrastructure::new());
    service
        .create_or_update(
            &"app-2".to_string(),
            &vec![sc("web", "web:1", ContainerType::Primary)],
        )
        .expect("creation succeeds");

    let stopped = service.delete_app(&"app-2".to_string()).expect("deletion succeeds");
    assert_eq!(stopped.len(), 1);
    assert_eq!(stopped[0].get_service_name().as_str(), "web");
    assert_eq!(stopped[0].get_app_name().as_str(), "app-2");

    let apps = service.get_apps().expect("the backend answers");
    assert!(apps.get_vec("app-2").is_none());

    let again = service.delete_app(&"app-2".to_string());
    assert!(matches!(again, Err(AppsServiceError::AppNotFound(_))));
}

#[test]
fn backend_failures_surface_as_infrastructure_errors() {
    let mut service = AppsService::new(empty_config(), InMemoryInfrastructure::new_failing());
    assert!(matches!(
        service.get_apps(),
        Err(AppsServiceError::InfrastructureError(_))
    ));
    assert!(matches!(
        service.create_or_update(
            &"review-6".to_string(),
            &vec![sc("web", "web:1", ContainerType::Primary)],
        ),
        Err(AppsServiceError::InfrastructureError(_))
    ));
    assert!(matches!(
        service.delete_app(&"review-6".to_string()),
        Err(AppsServiceError::InfrastructureError(_))
    ));
}

#[test]
fn error_kinds_wrap_their_causes() {
    let config_error = ConfigError::CannotOpenConfigFile("config.toml".to_string());
    assert!(matches!(
        AppsServiceError::from(config_error),
        AppsServiceError::InvalidServerConfiguration(ConfigError::CannotOpenConfigFile(_))
    ));
    let model_error = ServiceError::InvalidServiceName("".to_string());
    assert!(matches!(
        AppsServiceError::InvalidServiceModel(model_error),
        AppsServiceError::InvalidServiceModel(ServiceError::InvalidServiceName(_))
    ));
}

#[test]
fn service_config_accessors_round_trip() {
    let mut config = sc("web", "web:1", ContainerType::Primary);
    assert_eq!(config.get_service_name().as_str(), "web");
    assert_eq!(config.get_image().as_str(), "web:1");
    assert_eq!(config.get_container_type(), ContainerType::Primary);
    config.set_container_type(ContainerType::Replica);
    assert_eq!(config.get_container_type(), ContainerType::Replica);
    assert_eq!(config.get_service_name().as_str(), "web");
}

#[test]
fn config_hands_out_its_companions_in_load_order() {
    let t1 = AppCompanionConfig::new("one".to_string(), "one:1".to_string());
    let t2 = AppCompanionConfig::new("two".to_string(), "two:1".to_string());
    let config = config_with(vec![t1, t2]);
    let companions = config
        .get_application_companion_configs()
        .expect("loaded companions are handed out");
    assert_eq!(companions.len(), 2);
    assert_eq!(companions[0].get_service_name().as_str(), "one");
    assert_eq!(companions[1].get_service_name().as_str(), "two");
    assert_eq!(config.get_container_config().get_memory_limit(), None);
}

#[test]
fn duplicated_master_name_is_replicated_once() {
    let masters = vec![
        sc("db", "postgres:11", ContainerType::Primary),
        sc("db", "postgres:12", ContainerType::Primary),
        sc("cache", "redis:5", ContainerType::Primary),
    ];
    let merged = apps_service::resolution::merge_with_master_configs(
        &"review-7".to_string(),
        &Vec::new(),
        &masters,
    );
    assert_eq!(merged.len(), 2);
    assert_eq!(merged[0].get_service_name().as_str(), "db");
    assert_eq!(merged[0].get_image().as_str(), "postgres:11");
    assert_eq!(merged[0].get_container_type(), ContainerType::Replica);
    assert_eq!(merged[1].get_service_name().as_str(), "cache");
}

#[test]
fn companion_colliding_with_caller_name_is_dropped() {
    let template = AppCompanionConfig::new("web".to_string(), "nginx:1".to_string());
    let mut service = AppsService::new(config_with(vec![template]), InMemoryInfrastructure::new());
    let running = service
        .create_or_update(
            &"review-8".to_string(),
            &vec![sc("web", "web:caller", ContainerType::Primary)],
        )
        .expect("resolution succeeds");
    assert_eq!(running.len(), 1);
    assert_eq!(running[0].get_service_name().as_str(), "web");
    assert_eq!(running[0].get_container_type(), ContainerType::Primary);
}

#[test]
fn application_name_binding_cannot_be_shadowed() {
    let template = AppCompanionConfig::new(
        "{{application_name}}-proxy".to_string(),
        "nginx:1".to_string(),
    );
    let shadowing_service = sc("application_name", "evil:1", ContainerType::Primary);
    let resolved = apps_service::templating::apply_templating_for_application_companion(
        &template,
        &"review-9".to_string(),
        &vec![shadowing_service],
    )
    .expect("the template resolves");
    assert_eq!(resolved.get_service_name().as_str(), "review-9-proxy");
}
