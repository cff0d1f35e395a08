use load_balancer::config::{select_backend, Backend, BackendConfig, Config, ConfigError, RouteError};

fn basic(service: &str, ip: &str, port: u16) -> BackendConfig {
    BackendConfig {
        service: service.to_string(),
        backend: Backend::Basic {
            ip: ip.to_string(),
            port,
        },
    }
}

fn services(list: &[(&str, &str)]) -> Vec<(String, String)> {
    list.iter().map(|(n, p)| (n.to_string(), p.to_string())).collect()
}

#[test]
fn valid_config_passes_validation() {
    let config = Config {
        services: services(&[("root", "/api")]),
        backends: vec![basic("root", "10.0.0.1", 8080)],
    };
    assert!(config.validate().is_ok());
}

#[test]
fn backend_with_unknown_service_is_rejected() {
    let config = Config {
        services: services(&[("root", "/api")]),
        backends: vec![basic("missing", "10.0.0.1", 8080)],
    };
    match config.validate() {
        Err(ConfigError::UnknownService { service }) => assert_eq!(service, "missing"),
        other => panic!("expected UnknownService, got {:?}", other),
    }
}

#[test]
fn unused_service_is_rejected() {
    let config = Config {
        services: services(&[("root", "/api"), ("spare", "/spare")]),
        backends: vec![basic("root", "10.0.0.1", 8080)],
    };
    match config.validate() {
        Err(ConfigError::UnusedService { name }) => assert_eq!(name, "spare"),
        other => panic!("expected UnusedService, got {:?}", other),
    }
}

#[test]
fn route_selects_first_matching_prefix() {
    let config = Config {
        services: services(&[("suggest", "/geocode/suggest"), ("geocode", "/geocode")]),
        backends: vec![
            basic("suggest", "10.0.0.1", 8081),
            basic("geocode", "10.0.0.2", 8082),
        ],
    };
    assert_eq!(
        select_backend(&config, "/geocode/suggest?q=x"),
        Ok(("10.0.0.1".to_string(), 8081))
    );
    assert_eq!(
        select_backend(&config, "/geocode/forward"),
        Ok(("10.0.0.2".to_string(), 8082))
    );
}

#[test]
fn route_unknown_path_is_not_found() {
    let config = Config {
        services: services(&[("root", "/api")]),
        backends: vec![basic("root", "10.0.0.1", 8080)],
    };
    assert_eq!(select_backend(&config, "/other"), Err(RouteError::NoService));
}

#[test]
fn route_without_backend_is_unavailable() {
    let config = Config {
        services: services(&[("root", "/api"), ("bare", "/bare")]),
        backends: vec![basic("root", "10.0.0.1", 8080)],
    };
    assert_eq!(select_backend(&config, "/bare"), Err(RouteError::NoBackend));
}

#[test]
fn reserved_backend_variant_is_unimplemented() {
    let config = Config {
        services: services(&[("pool", "/pool")]),
        backends: vec![BackendConfig {
            service: "pool".to_string(),
            backend: Backend::Hetzner {
                labels: vec![vec![("env".to_string(), "prod".to_string())]],
                port: 8099,
            },
        }],
    };
    assert_eq!(
        select_backend(&config, "/pool"),
        Err(RouteError::NotImplemented)
    );
}
