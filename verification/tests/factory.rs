use a2a_kit::error_code;
use a2a_kit::factory::{interface_tenant, A2AClientFactory, TransportChoice, TransportKey};
use a2a_kit::protocol::{
    A2AError, AgentCapabilities, AgentCard, AgentInterface, TRANSPORT_PROTOCOL_HTTP_JSON,
    TRANSPORT_PROTOCOL_JSONRPC,
};

fn card(interfaces: Vec<AgentInterface>) -> AgentCard {
    AgentCard {
        name: "test".to_string(),
        description: "test agent".to_string(),
        version: "1.0".to_string(),
        supported_interfaces: interfaces,
        capabilities: AgentCapabilities::default(),
        default_input_modes: vec!["text".to_string()],
        default_output_modes: vec!["text".to_string()],
        skills: vec![],
        provider: None,
        documentation_url: None,
        icon_url: None,
        security_schemes: None,
        security_requirements: None,
        signatures: None,
    }
}

fn interface(url: &str, binding: &str, version: &str) -> AgentInterface {
    let mut iface = AgentInterface::new(url, binding);
    iface.protocol_version = version.to_string();
    iface
}

#[test]
fn test_transport_key_from_interface() {
    let iface = AgentInterface::new("http://localhost", "jsonrpc");
    let key = TransportKey::from_interface(&iface);
    assert_eq!(key.protocol, "jsonrpc");
}

#[test]
fn test_transport_key_from_interface_no_version() {
    let mut iface = AgentInterface::new("http://localhost", "rest");
    iface.protocol_version = "bad".to_string();
    let key = TransportKey::from_interface(&iface);
    assert_eq!(key.major_version, 1);
}

#[test]
fn test_transport_key_from_protocol() {
    let key = TransportKey::from_protocol("jsonrpc", "2.3.4");
    assert_eq!(key.protocol, "jsonrpc");
    assert_eq!(key.major_version, 2);
}

#[test]
fn test_builder_defaults() {
    let factory = A2AClientFactory::builder().build();
    assert_eq!(factory.factories.len(), 2);
    assert_eq!(factory.preferred_bindings.len(), 2);
}

#[test]
fn test_builder_no_defaults() {
    let factory = A2AClientFactory::builder().no_defaults().build();
    assert_eq!(factory.factories.len(), 0);
}

#[test]
fn test_builder_preferred_bindings() {
    let factory = A2AClientFactory::builder()
        .preferred_bindings(vec!["grpc".to_string()])
        .build();
    assert_eq!(factory.preferred_bindings, vec!["grpc"]);
}

#[test]
fn test_builder_with_interceptor() {
    let factory = A2AClientFactory::builder().with_interceptor(7).build();
    assert_eq!(factory.interceptors.len(), 1);
}

#[test]
fn test_create_from_card_no_matching_transport() {
    let factory = A2AClientFactory::builder().no_defaults().build();
    let result = factory.create_from_card(&card(vec![AgentInterface::new(
        "http://localhost",
        "unknown",
    )]));
    let error = result.err().unwrap();
    assert_eq!(error.code, error_code::UNSUPPORTED_OPERATION);
    assert_eq!(
        error.message,
        "no compatible transport found for agent card interfaces"
    );
}

#[test]
fn test_create_from_card_with_interface_returns_selected_interface() {
    let factory = A2AClientFactory::builder().build();
    let mut iface = AgentInterface::new("http://localhost/jsonrpc", TRANSPORT_PROTOCOL_JSONRPC);
    iface.tenant = Some("tenant-42".to_string());
    let selected = factory
        .create_from_card_with_interface(&card(vec![iface]), &vec![])
        .ok()
        .unwrap();
    assert_eq!(selected.interface.protocol_binding, TRANSPORT_PROTOCOL_JSONRPC);
    assert_eq!(selected.interface.tenant.as_deref(), Some("tenant-42"));
    assert_eq!(selected.transport, TransportChoice::JsonRpc);
}

fn tenant_of(tenant: Option<&str>) -> Option<String> {
    let mut iface = AgentInterface::new("http://localhost/jsonrpc", TRANSPORT_PROTOCOL_JSONRPC);
    iface.tenant = tenant.map(str::to_string);
    let factory = A2AClientFactory::builder().build();
    let ranked = factory.create_from_card(&card(vec![iface])).ok().unwrap();
    interface_tenant(&ranked[0].interface)
}

#[test]
fn test_create_from_card_applies_the_declared_tenant() {
    assert_eq!(tenant_of(Some("tenant-42")).as_deref(), Some("tenant-42"));
}

#[test]
fn test_create_from_card_without_a_declared_tenant() {
    assert_eq!(tenant_of(None), None);
}

#[test]
fn test_create_from_card_treats_an_empty_tenant_as_undeclared() {
    assert_eq!(tenant_of(Some("")), None);
}

#[test]
fn candidates_rank_by_preference_then_by_newest_version_then_by_card_order() {
    let factory = A2AClientFactory::builder().build();
    let ranked = factory
        .create_from_card(&card(vec![
            interface("http://a", TRANSPORT_PROTOCOL_HTTP_JSON, "1.5"),
            interface("http://b", TRANSPORT_PROTOCOL_JSONRPC, "1.0"),
            interface("http://c", TRANSPORT_PROTOCOL_JSONRPC, "1.2"),
            interface("http://d", TRANSPORT_PROTOCOL_JSONRPC, "1.2"),
            interface("http://e", TRANSPORT_PROTOCOL_JSONRPC, "2.0"),
        ]))
        .ok()
        .unwrap();
    let urls: Vec<&str> = ranked.iter().map(|c| c.interface.url.as_str()).collect();
    assert_eq!(urls, vec!["http://c", "http://d", "http://b", "http://a"]);
}

#[test]
fn supported_interfaces_keep_the_order_of_the_card() {
    let factory = A2AClientFactory::builder().build();
    let found = factory
        .supported_interfaces(&card(vec![
            interface("http://a", TRANSPORT_PROTOCOL_HTTP_JSON, "1.0"),
            interface("http://b", "unknown", "1.0"),
            interface("http://c", TRANSPORT_PROTOCOL_JSONRPC, "1.0"),
        ]))
        .ok()
        .unwrap();
    let urls: Vec<&str> = found.iter().map(|c| c.interface.url.as_str()).collect();
    assert_eq!(urls, vec!["http://a", "http://c"]);
}

#[test]
fn a_registered_transport_replaces_the_built_in_one() {
    let factory = A2AClientFactory::builder()
        .register(TRANSPORT_PROTOCOL_JSONRPC, 9)
        .build();
    assert_eq!(factory.factories.len(), 2);
    let found = factory
        .supported_interfaces(&card(vec![
            interface("http://a", TRANSPORT_PROTOCOL_JSONRPC, "1.0"),
            interface("http://b", TRANSPORT_PROTOCOL_HTTP_JSON, "1.0"),
        ]))
        .ok()
        .unwrap();
    assert_eq!(found[0].transport, TransportChoice::Registered(9));
    assert_eq!(found[1].transport, TransportChoice::Rest);
}

#[test]
fn attempts_follow_the_ranking_and_end_with_the_last_failure() {
    let factory = A2AClientFactory::builder().build();
    let card = card(vec![
        interface("http://a", TRANSPORT_PROTOCOL_HTTP_JSON, "1.0"),
        interface("http://b", TRANSPORT_PROTOCOL_JSONRPC, "1.0"),
    ]);
    let mut failures: Vec<A2AError> = Vec::new();
    let first = factory.create_from_card_with_interface(&card, &failures);
    assert_eq!(first.ok().unwrap().interface.url, "http://b");
    failures.push(A2AError::internal("first"));
    let second = factory.create_from_card_with_interface(&card, &failures);
    assert_eq!(second.ok().unwrap().interface.url, "http://a");
    failures.push(A2AError::internal("second"));
    let done = factory.create_from_card_with_interface(&card, &failures);
    assert_eq!(done.err().unwrap().message, "second");
}
