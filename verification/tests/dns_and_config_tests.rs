use http_tunnel::configuration::{ProxyConfiguration, ProxyMode, TunnelConfig};
use http_tunnel::matcher::TargetMatcher;
use http_tunnel::proxy_target::{Nugget, SimpleCachingDnsResolver, SimpleTcpConnector, SocketAddress};
use http_tunnel::relay::{NO_BANDWIDTH_LIMIT, NO_TIMEOUT_MS};
use http_tunnel::tunnel::{EstablishTunnelResult, TunnelCtx};

fn addr(ip: u128, port: u16) -> SocketAddress {
    SocketAddress { ip, is_ipv6: false, port }
}

#[test]
fn test_dns_cache_hit_within_ttl() {
    let mut cache = SimpleCachingDnsResolver::new(1000);
    let key = String::from("example.com:443");
    cache.cache_addresses(&key, vec![addr(0x7f000001, 443), addr(0x7f000002, 443)], 100);
    // Two lookups inside the TTL window return the identical first address,
    // with no re-resolution needed.
    let first = cache.try_find(&key, 500);
    let second = cache.try_find(&key, 1099);
    assert_eq!(first, Some(addr(0x7f000001, 443)));
    assert_eq!(second, Some(addr(0x7f000001, 443)));
}

#[test]
fn test_dns_cache_expires_at_ttl() {
    let mut cache = SimpleCachingDnsResolver::new(1000);
    let key = String::from("example.com:443");
    cache.cache_addresses(&key, vec![addr(1, 443)], 100);
    // Age equal to the TTL is expired: the caller must re-resolve.
    assert_eq!(cache.try_find(&key, 1100), None);
}

#[test]
fn test_dns_cache_replaces_stale_entry() {
    let mut cache = SimpleCachingDnsResolver::new(1000);
    let key = String::from("example.com:443");
    cache.cache_addresses(&key, vec![addr(1, 443)], 0);
    cache.cache_addresses(&key, vec![addr(2, 443)], 1500);
    assert_eq!(cache.try_find(&key, 1600), Some(addr(2, 443)));
}

#[test]
fn test_dns_cache_keys_are_independent() {
    let mut cache = SimpleCachingDnsResolver::new(1000);
    let a = String::from("a.example:80");
    let b = String::from("b.example:80");
    cache.cache_addresses(&a, vec![addr(10, 80)], 0);
    cache.cache_addresses(&b, vec![addr(20, 80)], 0);
    assert_eq!(cache.try_find(&a, 500), Some(addr(10, 80)));
    assert_eq!(cache.try_find(&b, 500), Some(addr(20, 80)));
    assert_eq!(cache.try_find(&String::from("c.example:80"), 500), None);
}

#[test]
fn test_dns_cache_miss_on_empty_cache() {
    let cache = SimpleCachingDnsResolver::new(1000);
    assert_eq!(cache.try_find(&String::from("example.com:443"), 0), None);
}

#[test]
fn test_connector_failure_mapping() {
    assert_eq!(
        SimpleTcpConnector::failure_result(true),
        EstablishTunnelResult::GatewayTimeout
    );
    assert_eq!(
        SimpleTcpConnector::failure_result(false),
        EstablishTunnelResult::BadGateway
    );
}

#[test]
fn test_connector_new_keeps_fields() {
    let resolver = SimpleCachingDnsResolver::new(5000);
    let ctx = TunnelCtx::new(99);
    let connector = SimpleTcpConnector::new(resolver, 7000, ctx);
    assert_eq!(connector.connect_timeout, 7000);
    assert_eq!(connector.tunnel_ctx, ctx);
}

#[test]
fn test_default_tunnel_config() {
    let config = TunnelConfig::default();
    assert!(config.validate());
    assert_eq!(config.client_connection.initiation_timeout, NO_TIMEOUT_MS);
    assert_eq!(config.client_connection.relay_policy.idle_timeout, NO_TIMEOUT_MS);
    assert_eq!(config.client_connection.relay_policy.min_rate_bpm, 0);
    assert_eq!(config.client_connection.relay_policy.max_rate_bps, NO_BANDWIDTH_LIMIT);
    assert_eq!(config.target_connection.dns_cache_ttl, NO_TIMEOUT_MS);
    assert_eq!(config.target_connection.connection_timeout, NO_TIMEOUT_MS);
    assert_eq!(config.target_connection.relay_policy.max_rate_bps, NO_BANDWIDTH_LIMIT);
}

#[test]
fn test_invalid_policy_fails_validation() {
    let mut config = TunnelConfig::default();
    config.target_connection.relay_policy.idle_timeout = 0;
    assert!(!config.validate());
}

#[test]
fn test_matcher_compile() {
    assert!(TargetMatcher::compile(r"internal\.example\.com:.*").is_some());
    assert!(TargetMatcher::compile("(unclosed").is_none());
}

#[test]
fn test_proxy_configuration_new() {
    let config = ProxyConfiguration::new(
        ProxyMode::Tcp(String::from("upstream.example:25")),
        String::from("127.0.0.1:8080"),
        TunnelConfig::default(),
    );
    assert_eq!(config.bind_address, "127.0.0.1:8080");
    assert!(matches!(config.mode, ProxyMode::Tcp(d) if d == "upstream.example:25"));
}

#[test]
fn test_tunnel_ctx_id() {
    let ctx = TunnelCtx::new(0x1234_5678_9abc_def0_1234_5678_9abc_def0);
    assert_eq!(ctx.id, 0x1234_5678_9abc_def0_1234_5678_9abc_def0);
}

#[test]
fn test_status_codes_match_table() {
    assert_eq!(EstablishTunnelResult::Okay.status_code(), 200);
    assert_eq!(EstablishTunnelResult::BadRequest.status_code(), 400);
    assert_eq!(EstablishTunnelResult::Forbidden.status_code(), 403);
    assert_eq!(EstablishTunnelResult::OperationNotAllowed.status_code(), 405);
    assert_eq!(EstablishTunnelResult::RequestTimeout.status_code(), 408);
    assert_eq!(EstablishTunnelResult::TooManyRequest.status_code(), 429);
    assert_eq!(EstablishTunnelResult::ServerError.status_code(), 500);
    assert_eq!(EstablishTunnelResult::BadGateway.status_code(), 502);
    assert_eq!(EstablishTunnelResult::GatewayTimeout.status_code(), 504);
}

#[test]
fn test_proceed_to_relay() {
    assert!(EstablishTunnelResult::Okay.proceed_to_relay());
    assert!(EstablishTunnelResult::OkWithNugget.proceed_to_relay());
    assert!(!EstablishTunnelResult::BadRequest.proceed_to_relay());
    assert!(!EstablishTunnelResult::Forbidden.proceed_to_relay());
    assert!(!EstablishTunnelResult::OperationNotAllowed.proceed_to_relay());
    assert!(!EstablishTunnelResult::GatewayTimeout.proceed_to_relay());
}

#[test]
fn test_nugget_round_trip() {
    let nugget = Nugget::new(vec![1, 2, 3]);
    assert_eq!(nugget.data(), &vec![1, 2, 3]);
}
