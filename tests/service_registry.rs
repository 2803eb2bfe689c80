use aether_kernel::service_registry::ServiceRegistry;
use aether_kernel::task::{ResourceMetadata, ResourceType, ServiceResource};

#[test]
fn test_register_service() {
    let mut registry = ServiceRegistry::new();

    let provides = vec![
        ServiceResource { name: "process".to_string(), resource_type: ResourceType::Step, metadata: None },
        ServiceResource {
            name: "analyze".to_string(),
            resource_type: ResourceType::Activity,
            metadata: Some(ResourceMetadata {
                max_attempts: Some(3),
                timeout: Some(30000),
                input_schema: None,
                output_schema: None,
            }),
        },
    ];

    registry.register(
        "data-proc".to_string(),
        "data-group".to_string(),
        vec!["python".to_string()],
        provides,
        "python-service:50051".to_string(),
    );

    assert!(registry.is_registered("data-proc"));
    assert_eq!(registry.len(), 1);

    let service = registry.get("data-proc").unwrap();
    assert_eq!(service.service_name, "data-proc");
    assert_eq!(service.group, "data-group");
    assert!(service.provides.iter().any(|r| r.name == "process"));
    assert!(service.provides.iter().any(|r| r.name == "analyze"));
}

#[test]
fn test_find_resource() {
    let mut registry = ServiceRegistry::new();

    let provides = vec![ServiceResource {
        name: "process".to_string(),
        resource_type: ResourceType::Step,
        metadata: None,
    }];

    registry.register(
        "data-proc".to_string(),
        "data-group".to_string(),
        vec!["python".to_string()],
        provides,
        "python-service:50051".to_string(),
    );

    let result = registry.find_resource("process");
    assert!(result.is_some());
    let (service_name, resource) = result.unwrap();
    assert_eq!(service_name, "data-proc");
    assert_eq!(resource.name, "process");
    assert_eq!(resource.resource_type, ResourceType::Step);
}

#[test]
fn test_find_resource_not_found() {
    let registry = ServiceRegistry::new();

    let result = registry.find_resource("nonexistent");
    assert!(result.is_none());
}

#[test]
fn test_unregister_service() {
    let mut registry = ServiceRegistry::new();

    let provides = vec![];
    registry.register(
        "data-proc".to_string(),
        "data-group".to_string(),
        vec!["python".to_string()],
        provides,
        "python-service:50051".to_string(),
    );

    assert!(registry.is_registered("data-proc"));

    let removed = registry.unregister("data-proc");
    assert!(removed);
    assert!(!registry.is_registered("data-proc"));

    let removed_again = registry.unregister("data-proc");
    assert!(!removed_again);
}

fn res(name: &str, rt: ResourceType) -> ServiceResource {
    ServiceResource { name: name.to_string(), resource_type: rt, metadata: None }
}

#[test]
fn duplicate_resource_names_keep_the_last() {
    let mut registry = ServiceRegistry::new();
    registry.register(
        "s".to_string(),
        "g".to_string(),
        vec![],
        vec![res("a", ResourceType::Step), res("b", ResourceType::Step), res("a", ResourceType::Workflow)],
        "e".to_string(),
    );
    let s = registry.get("s").unwrap();
    assert_eq!(s.provides.len(), 2);
    let a = registry.find_resource_in_service("s", "a").unwrap();
    assert_eq!(a.resource_type, ResourceType::Workflow);
    assert!(registry.find_resource_in_service("s", "zz").is_none());
    assert!(registry.find_resource_in_service("nope", "a").is_none());
}

#[test]
fn lookups_by_kind_and_first_match() {
    let mut registry = ServiceRegistry::new();
    registry.register("one".to_string(), "g".to_string(), vec![], vec![res("x", ResourceType::Activity)], "e1".to_string());
    registry.register("two".to_string(), "g".to_string(), vec![], vec![res("x", ResourceType::Step)], "e2".to_string());
    registry.register("one".to_string(), "g".to_string(), vec![], vec![res("x", ResourceType::Activity)], "e3".to_string());
    assert_eq!(registry.len(), 2);
    assert_eq!(registry.get("one").unwrap().endpoint, "e3");
    let (name, _) = registry.find_resource("x").unwrap();
    assert_eq!(name, "one");
    let steps = registry.get_services_by_resource_type(ResourceType::Step);
    assert_eq!(steps.len(), 1);
    assert_eq!(steps[0].service_name, "two");
    assert!(registry.get_services_by_resource_type(ResourceType::Workflow).is_empty());
    assert_eq!(registry.list().len(), 2);
    assert!(!registry.is_empty());
}
