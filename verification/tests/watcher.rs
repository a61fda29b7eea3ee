use lb_inter_node_exporter::watcher::{
    get_lb_addr, on_lookup, on_resolved, IpAddress, Lb, LoadBalancerIngress, LoadBalancerStatus,
    Lookup, Service, ServiceSpec, ServiceStatus, VipEvent, WatchStep,
};

fn service(kind: Option<&str>, policy: Option<&str>, ips: Option<Vec<Option<&str>>>) -> Service {
    Service {
        spec: Some(ServiceSpec {
            type_: kind.map(|s| s.to_string()),
            external_traffic_policy: policy.map(|s| s.to_string()),
        }),
        status: Some(ServiceStatus {
            load_balancer: Some(LoadBalancerStatus {
                ingress: ips.map(|v| {
                    v.into_iter()
                        .map(|ip| LoadBalancerIngress { ip: ip.map(|s| s.to_string()) })
                        .collect()
                }),
            }),
        }),
    }
}

#[test]
fn load_balancer_with_an_address_is_watched() {
    let svc = service(Some("LoadBalancer"), None, Some(vec![Some("192.168.1.10")]));
    assert_eq!(get_lb_addr(&svc), Some("192.168.1.10".to_string()));
    let cluster = service(Some("LoadBalancer"), Some("Cluster"), Some(vec![Some("10.1.2.3")]));
    assert_eq!(get_lb_addr(&cluster), Some("10.1.2.3".to_string()));
}

#[test]
fn local_traffic_policy_is_never_watched() {
    let svc = service(Some("LoadBalancer"), Some("Local"), Some(vec![Some("192.168.1.10")]));
    assert_eq!(get_lb_addr(&svc), None);
    assert_eq!(on_lookup("web", "default", &Lookup::Found(svc)), WatchStep::Skip);
}

#[test]
fn policy_is_compared_exactly() {
    let svc = service(Some("LoadBalancer"), Some("local"), Some(vec![Some("192.168.1.10")]));
    assert_eq!(get_lb_addr(&svc), Some("192.168.1.10".to_string()));
    let other = service(Some("LoadBalancer"), Some("Local "), Some(vec![Some("192.168.1.10")]));
    assert_eq!(get_lb_addr(&other), Some("192.168.1.10".to_string()));
}

#[test]
fn other_kinds_of_service_are_not_watched() {
    for kind in ["ClusterIP", "NodePort", "ExternalName", "loadbalancer", "", "LoadBalancers"] {
        let svc = service(Some(kind), None, Some(vec![Some("192.168.1.10")]));
        assert_eq!(get_lb_addr(&svc), None);
    }
    let untyped = service(None, None, Some(vec![Some("192.168.1.10")]));
    assert_eq!(get_lb_addr(&untyped), None);
}

#[test]
fn service_without_specification_is_not_watched() {
    let mut svc = service(Some("LoadBalancer"), None, Some(vec![Some("192.168.1.10")]));
    svc.spec = None;
    assert_eq!(get_lb_addr(&svc), None);
}

#[test]
fn service_without_an_ingress_address_is_not_watched() {
    let mut no_status = service(Some("LoadBalancer"), None, None);
    no_status.status = None;
    assert_eq!(get_lb_addr(&no_status), None);
    let mut no_balancer = service(Some("LoadBalancer"), None, None);
    no_balancer.status = Some(ServiceStatus { load_balancer: None });
    assert_eq!(get_lb_addr(&no_balancer), None);
    let no_ingress = service(Some("LoadBalancer"), None, None);
    assert_eq!(get_lb_addr(&no_ingress), None);
    let empty = service(Some("LoadBalancer"), None, Some(vec![]));
    assert_eq!(get_lb_addr(&empty), None);
}

#[test]
fn first_ingress_point_decides() {
    let two = service(Some("LoadBalancer"), None, Some(vec![Some("10.0.0.1"), Some("10.0.0.2")]));
    assert_eq!(get_lb_addr(&two), Some("10.0.0.1".to_string()));
    let first_by_name_only = service(Some("LoadBalancer"), None, Some(vec![None, Some("10.0.0.2")]));
    assert_eq!(get_lb_addr(&first_by_name_only), None);
}

#[test]
fn address_text_is_handed_on_as_it_stands() {
    let svc = service(Some("LoadBalancer"), None, Some(vec![Some("not an address")]));
    assert_eq!(get_lb_addr(&svc), Some("not an address".to_string()));
    assert_eq!(
        on_lookup("web", "default", &Lookup::Found(svc)),
        WatchStep::Resolve("not an address".to_string())
    );
}

#[test]
fn missing_service_is_deleted() {
    assert_eq!(
        on_lookup("web", "prod", &Lookup::Missing),
        WatchStep::Emit(VipEvent::Delete(Lb {
            name: "web".to_string(),
            namespace: "prod".to_string(),
            addr: None
        }))
    );
}

#[test]
fn failed_lookup_is_skipped() {
    assert_eq!(on_lookup("web", "prod", &Lookup::Failed), WatchStep::Skip);
}

#[test]
fn watched_service_has_its_address_read() {
    let svc = service(Some("LoadBalancer"), None, Some(vec![Some("192.168.1.10")]));
    assert_eq!(
        on_lookup("web", "prod", &Lookup::Found(svc)),
        WatchStep::Resolve("192.168.1.10".to_string())
    );
}

#[test]
fn service_that_is_not_watched_gives_no_event() {
    let node_port = service(Some("NodePort"), None, Some(vec![Some("192.168.1.10")]));
    assert_eq!(on_lookup("web", "prod", &Lookup::Found(node_port)), WatchStep::Skip);
    let pending = service(Some("LoadBalancer"), None, Some(vec![]));
    assert_eq!(on_lookup("web", "prod", &Lookup::Found(pending)), WatchStep::Skip);
}

#[test]
fn resolved_address_gives_an_add() {
    assert_eq!(
        on_resolved("web", "prod", Some(IpAddress::V4(0xc0a8_010a))),
        Some(VipEvent::Add(Lb {
            name: "web".to_string(),
            namespace: "prod".to_string(),
            addr: Some(IpAddress::V4(0xc0a8_010a))
        }))
    );
    assert_eq!(
        on_resolved("web", "prod", Some(IpAddress::V6(1))),
        Some(VipEvent::Add(Lb {
            name: "web".to_string(),
            namespace: "prod".to_string(),
            addr: Some(IpAddress::V6(1))
        }))
    );
}

#[test]
fn text_that_is_no_address_gives_no_event() {
    assert_eq!(on_resolved("web", "prod", None), None);
}
