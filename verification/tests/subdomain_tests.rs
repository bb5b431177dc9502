use sorcery_server::subdomain::{detect_mode, SubdomainMode};

#[test]
fn test_srcuri_com_is_direct() {
    assert_eq!(detect_mode("srcuri.com", "/"), SubdomainMode::DirectProtocol);
}

#[test]
fn test_www_srcuri_com_redirects() {
    assert_eq!(detect_mode("www.srcuri.com", "/"), SubdomainMode::WwwRedirect);
}

#[test]
fn test_tenant_subdomain() {
    assert_eq!(
        detect_mode("fedex.srcuri.com", "/"),
        SubdomainMode::EnterpriseTenant("fedex".to_string())
    );
}

#[test]
fn test_localhost_is_direct() {
    assert_eq!(detect_mode("localhost:3000", "/"), SubdomainMode::DirectProtocol);
}

#[test]
fn test_query_override_tenant() {
    assert_eq!(
        detect_mode("localhost:3000", "/?_subdomain=acme"),
        SubdomainMode::EnterpriseTenant("acme".to_string())
    );
}

#[test]
fn test_query_override_with_other_params() {
    assert_eq!(
        detect_mode("localhost:3000", "/path?foo=bar&_subdomain=acme&baz=qux"),
        SubdomainMode::EnterpriseTenant("acme".to_string())
    );
}

#[test]
fn test_host_with_port() {
    assert_eq!(
        detect_mode("acme.srcuri.com:443", "/"),
        SubdomainMode::EnterpriseTenant("acme".to_string())
    );
}

#[test]
fn test_query_override_ignored_on_production() {
    assert_eq!(detect_mode("srcuri.com", "/?_subdomain=acme"), SubdomainMode::DirectProtocol);
}

#[test]
fn test_query_override_works_on_127_0_0_1() {
    assert_eq!(
        detect_mode("127.0.0.1:3000", "/?_subdomain=acme"),
        SubdomainMode::EnterpriseTenant("acme".to_string())
    );
}

#[test]
fn test_query_override_www() {
    assert_eq!(detect_mode("localhost:3000", "/?_subdomain=www"), SubdomainMode::WwwRedirect);
}

#[test]
fn test_query_override_direct_and_empty() {
    assert_eq!(detect_mode("localhost:3000", "/?_subdomain=direct"), SubdomainMode::DirectProtocol);
    assert_eq!(detect_mode("localhost:3000", "/?_subdomain="), SubdomainMode::DirectProtocol);
}

#[test]
fn test_ipv4_host_is_direct() {
    assert_eq!(detect_mode("192.168.10.5:8080", "/"), SubdomainMode::DirectProtocol);
    assert_eq!(detect_mode("10.0.0.1", "/"), SubdomainMode::DirectProtocol);
}

#[test]
fn test_non_ipv4_dotted_host_is_tenant() {
    // looks numeric but is not a valid dotted quad: leading zero
    assert_eq!(
        detect_mode("01.2.3.4", "/"),
        SubdomainMode::EnterpriseTenant("01".to_string())
    );
    // octet out of range
    assert_eq!(
        detect_mode("300.2.3.4", "/"),
        SubdomainMode::EnterpriseTenant("300".to_string())
    );
}

#[test]
fn test_subdomain_extraction_for_tenants() {
    assert_eq!(sorcery_server::tenant::extract_subdomain("acme.srcuri.com"), "acme");
    assert_eq!(sorcery_server::tenant::extract_subdomain("srcuri.com"), "default");
    assert_eq!(sorcery_server::tenant::extract_subdomain("localhost:3000"), "default");
}

#[test]
fn test_default_config_values() {
    let c = sorcery_server::tenant::TenantConfig::default_config();
    assert_eq!(c.name, "default");
    assert!(c.default_remote.is_none());
    assert!(c.allowed_remotes.is_none());
}
