use roborally::discovery::{
    get_service_endpoint, get_singular_endpoint, next_error_count, DiscoveryError,
    EndpointSubset, SingularEndpoint, MAX_CONSECUTIVE_ERRORS,
};

fn endpoint(ip: &str, port: i32) -> SingularEndpoint {
    SingularEndpoint { ip: ip.to_string(), port }
}

fn subset(addresses: Option<Vec<&str>>, ports: Option<Vec<i32>>) -> EndpointSubset {
    EndpointSubset {
        addresses: addresses.map(|a| a.into_iter().map(String::from).collect()),
        ports,
    }
}

#[test]
fn first_subset_that_serves_the_port_is_taken() {
    let subsets = vec![
        subset(None, Some(vec![80])),
        subset(Some(vec!["10.0.0.1"]), None),
        subset(Some(vec![]), Some(vec![80])),
        subset(Some(vec!["10.0.0.2"]), Some(vec![443, 8080])),
        subset(Some(vec!["10.0.0.3", "10.0.0.4"]), Some(vec![443, 80])),
        subset(Some(vec!["10.0.0.5"]), Some(vec![80])),
    ];
    assert_eq!(
        get_service_endpoint(&subsets, 80),
        Some(vec![endpoint("10.0.0.3", 80), endpoint("10.0.0.4", 80)])
    );
    assert_eq!(get_service_endpoint(&subsets, 8080), Some(vec![endpoint("10.0.0.2", 8080)]));
    assert_eq!(get_service_endpoint(&subsets, 81), None);
    assert_eq!(get_service_endpoint(&vec![], 80), None);
}

#[test]
fn first_instance_in_charge_is_chosen() {
    let answers = vec![
        (endpoint("a", 1), false),
        (endpoint("b", 2), true),
        (endpoint("c", 3), true),
    ];
    assert_eq!(get_singular_endpoint(3, &answers), Ok(endpoint("b", 2)));
    let answers = vec![(endpoint("a", 1), false), (endpoint("c", 3), false)];
    assert_eq!(get_singular_endpoint(4, &answers), Err(DiscoveryError::NoneResponsible));
    assert_eq!(
        get_singular_endpoint(4, &vec![]),
        Err(DiscoveryError::NoQuerySucceeded { total: 4 })
    );
}

#[test]
fn discovery_gives_up_after_too_many_failures_in_a_row() {
    assert_eq!(MAX_CONSECUTIVE_ERRORS, 5);
    let mut count = 0;
    for expected in 1..=5 {
        count = next_error_count(count, true).unwrap();
        assert_eq!(count, expected);
    }
    assert_eq!(next_error_count(count, true), None);
    assert_eq!(next_error_count(count, false), Some(0));
    assert_eq!(next_error_count(3, false), Some(0));
    assert_eq!(next_error_count(u32::MAX, true), None);
}
