use load_balancer::upstream::{StaticUpstreams, Upstream, UpstreamsProvider};

#[test]
fn upstream_holds_endpoints() {
    let endpoints = vec!["127.0.0.1:8080".to_string(), "127.0.0.1:8081".to_string()];
    let upstream = Upstream::new(endpoints.clone());
    assert_eq!(upstream.endpoints, endpoints);
}

#[test]
fn static_provider_clones_endpoints() {
    let provider = StaticUpstreams::new(vec!["10.0.0.1:80".into(), "10.0.0.2:80".into()]);
    let upstream = provider.upstreams();
    assert_eq!(
        upstream.endpoints,
        vec!["10.0.0.1:80".to_string(), "10.0.0.2:80".to_string()]
    );
}
