use mc_proxy::proxy::host::{HostManager, Route};
use mc_proxy::proxy::loadbalancer::{Endpoint, Balancer, GuardBalancer};
use mc_proxy::util::retreat;

fn v4(last: u8, port: u16) -> Endpoint {
    Endpoint::V4 { ip: u32::from_be_bytes([10, 0, 0, last]), port }
}

fn route(hostname: &str, ppv2: bool, backends: Vec<Endpoint>) -> Route {
    Route { hostname: hostname.to_string(), ppv2, backends }
}

#[test]
fn four_selections_go_round() {
    let (a, b, c) = (v4(1, 25565), v4(2, 25565), v4(3, 25565));
    let balancer = Balancer::new(false, vec![a, b, c]);
    assert_eq!(balancer.take(), Some(&a));
    assert_eq!(balancer.take(), Some(&b));
    assert_eq!(balancer.take(), Some(&c));
    assert_eq!(balancer.take(), Some(&a));
}

#[test]
fn selection_is_the_cursor_modulo_the_backends() {
    let (a, b, c) = (v4(1, 1), v4(2, 2), v4(3, 3));
    let balancer = Balancer::new(false, vec![a, b, c]);
    assert_eq!(balancer.backend_at(0), Some(&a));
    assert_eq!(balancer.backend_at(1), Some(&b));
    assert_eq!(balancer.backend_at(2), Some(&c));
    assert_eq!(balancer.backend_at(3), Some(&a));
    assert_eq!(balancer.backend_at(100), Some(&b));
    assert_eq!(balancer.backend_at(usize::MAX), Some(&[a, b, c][usize::MAX % 3]));
}

#[test]
fn no_backend_no_selection() {
    let balancer = Balancer::new(false, Vec::new());
    assert_eq!(balancer.take(), None);
    assert_eq!(balancer.backend_at(0), None);
    assert_eq!(balancer.backend_at(7), None);
}

#[test]
fn single_backend_is_always_selected() {
    let only = Endpoint::V6 { ip: 1, port: 25565, flowinfo: 0, scope_id: 0 };
    let balancer = Balancer::new(true, vec![only]);
    for _ in 0..5 {
        assert_eq!(balancer.take(), Some(&only));
    }
}

#[test]
fn release_moves_the_cursor_back() {
    let (a, b) = (v4(1, 1), v4(2, 2));
    let balancer = Balancer::new(false, vec![a, b]);
    assert_eq!(balancer.take(), Some(&a));
    balancer.release();
    assert_eq!(balancer.take(), Some(&a));
    assert_eq!(balancer.take(), Some(&b));
    balancer.release();
    assert_eq!(balancer.take(), Some(&b));
}

#[test]
fn release_stops_at_zero() {
    let (a, b) = (v4(1, 1), v4(2, 2));
    let balancer = Balancer::new(false, vec![a, b]);
    balancer.release();
    balancer.release();
    assert_eq!(balancer.take(), Some(&a));
    assert_eq!(balancer.take(), Some(&b));
}

#[test]
fn counter_steps_down_to_zero_and_no_further() {
    assert_eq!(retreat(0), None);
    assert_eq!(retreat(1), Some(0));
    assert_eq!(retreat(7), Some(6));
    assert_eq!(retreat(usize::MAX), Some(usize::MAX - 1));
}

#[test]
fn balancer_keeps_its_flag() {
    assert!(Balancer::new(true, Vec::new()).is_ppv2());
    assert!(!Balancer::new(false, Vec::new()).is_ppv2());
}

#[test]
fn reservation_releases_its_balancer() {
    let (a, b) = (v4(1, 1), v4(2, 2));
    let balancer = Balancer::new(false, vec![a, b]);
    let guard = GuardBalancer::new(&balancer);
    assert_eq!(guard.take(), Some(&a));
    guard.release();
    assert_eq!(balancer.take(), Some(&a));
}

#[test]
fn lookup_finds_configured_hosts() {
    let (a, b) = (v4(1, 1), v4(2, 2));
    let table = HostManager::new(vec![
        route("one.example.com", false, vec![a]),
        route("two.example.com", true, vec![b]),
    ]);
    let one = table.get_host("one.example.com").unwrap();
    assert_eq!(one.take(), Some(&a));
    assert!(!one.is_ppv2());
    let two = table.get_host("two.example.com").unwrap();
    assert_eq!(two.take(), Some(&b));
    assert!(two.is_ppv2());
}

#[test]
fn lookup_misses_unconfigured_hosts() {
    let table = HostManager::new(vec![route("one.example.com", false, vec![v4(1, 1)])]);
    assert!(table.get_host("other.example.com").is_none());
    assert!(table.get_host("").is_none());
    assert!(table.get_host("one.example.com.").is_none());
    assert!(table.get_host("ONE.example.com").is_none());
    assert!(HostManager::new(Vec::new()).get_host("one.example.com").is_none());
}

#[test]
fn last_route_for_a_host_counts() {
    let (a, b, c) = (v4(1, 1), v4(2, 2), v4(3, 3));
    let table = HostManager::new(vec![
        route("same.example.com", false, vec![a]),
        route("other.example.com", false, vec![b]),
        route("same.example.com", true, vec![c]),
    ]);
    let same = table.get_host("same.example.com").unwrap();
    assert!(same.is_ppv2());
    assert_eq!(same.take(), Some(&c));
    assert_eq!(same.take(), Some(&c));
    let other = table.get_host("other.example.com").unwrap();
    assert_eq!(other.take(), Some(&b));
}

#[test]
fn lookups_share_the_cursor_of_a_host() {
    let (a, b) = (v4(1, 1), v4(2, 2));
    let table = HostManager::new(vec![route("h", false, vec![a, b])]);
    let first = table.get_host("h").unwrap();
    let second = table.get_host("h").unwrap();
    assert_eq!(first.take(), Some(&a));
    assert_eq!(second.take(), Some(&b));
    first.release();
    let third = table.get_host("h").unwrap();
    assert_eq!(third.take(), Some(&b));
}
