use speedtest_exporter::model::{Direction, MetricKey, ServerDescriptor};
use speedtest_exporter::registry::Registry;
use speedtest_exporter::scheduler::{
    select_candidates, DiscoveryError, ProbeError, Round, DEFAULT_PORT,
    DEFAULT_PROBE_INTERVAL_SECS, MAX_CANDIDATES,
};

fn srv(host: &str, country: &str) -> ServerDescriptor {
    ServerDescriptor { host: host.to_string(), country: country.to_string() }
}

fn key(direction: Direction, country: &str, host: &str) -> MetricKey {
    MetricKey::new(direction, country.to_string(), host.to_string())
}

fn many(n: usize) -> Vec<ServerDescriptor> {
    (0..n).map(|i| srv(&format!("h{}", i), "JP")).collect()
}

#[test]
fn defaults() {
    assert_eq!(DEFAULT_PORT, 9100);
    assert_eq!(DEFAULT_PROBE_INTERVAL_SECS, 300);
    assert_eq!(MAX_CANDIDATES, 5);
}

#[test]
fn systemic_errors() {
    assert!(ProbeError::ConnectFailure.is_systemic());
    assert!(ProbeError::Timeout.is_systemic());
    assert!(!ProbeError::Other.is_systemic());
}

#[test]
fn candidates_are_bounded() {
    let picked = select_candidates(many(12));
    assert_eq!(picked.len(), 5);
    for (i, s) in picked.iter().enumerate() {
        assert_eq!(s.host, format!("h{}", i));
    }
    assert_eq!(select_candidates(many(3)).len(), 3);
    assert_eq!(select_candidates(Vec::new()).len(), 0);
}

#[test]
fn round_over_twelve_servers_probes_five() {
    let mut reg = Registry::new();
    let mut round = Round::begin(Ok(many(12)), &reg).unwrap();
    let mut probes = 0;
    let mut hosts = Vec::new();
    while let Some(p) = round.next_probe() {
        assert!(p.server_index < 5);
        hosts.push(p.key.host.clone());
        probes += 1;
        round.record(&mut reg, Ok(100));
    }
    assert_eq!(probes, 10);
    assert_eq!(hosts, vec!["h0", "h0", "h1", "h1", "h2", "h2", "h3", "h3", "h4", "h4"]);
    assert_eq!(reg.snapshot().len(), 10);
    assert!(round.is_finished());
}

#[test]
fn failed_discovery_keeps_registry() {
    let mut reg = Registry::new();
    reg.set(key(Direction::Download, "JP", "a"), 42);
    assert!(Round::begin(Err(DiscoveryError {}), &reg).is_none());
    assert_eq!(reg.get(&key(Direction::Download, "JP", "a")), Some(42));
}

#[test]
fn empty_discovery_finishes_at_once() {
    let reg = Registry::new();
    let round = Round::begin(Ok(Vec::new()), &reg).unwrap();
    assert!(round.is_finished());
    assert!(round.next_probe().is_none());
}

#[test]
fn download_before_upload_per_server() {
    let reg = Registry::new();
    let mut reg2 = Registry::new();
    let mut round = Round::begin(Ok(vec![srv("a", "JP"), srv("b", "US")]), &reg).unwrap();
    let mut seen = Vec::new();
    while let Some(p) = round.next_probe() {
        assert_eq!(p.key.direction, p.direction);
        seen.push((p.server_index, p.direction, p.key.country.clone()));
        round.record(&mut reg2, Ok(1));
    }
    assert_eq!(
        seen,
        vec![
            (0, Direction::Download, "JP".to_string()),
            (0, Direction::Upload, "JP".to_string()),
            (1, Direction::Download, "US".to_string()),
            (1, Direction::Upload, "US".to_string()),
        ]
    );
}

#[test]
fn per_metric_failure_is_isolated() {
    let mut reg = Registry::new();
    let mut round = Round::begin(Ok(vec![srv("A", "JP"), srv("B", "JP")]), &reg).unwrap();
    let outcomes = [Err(ProbeError::Other), Ok(2000), Ok(3000), Ok(4000)];
    for o in outcomes {
        assert!(round.next_probe().is_some());
        round.record(&mut reg, o);
    }
    assert!(round.next_probe().is_none());
    assert_eq!(reg.get(&key(Direction::Download, "JP", "A")), Some(0));
    assert_eq!(reg.get(&key(Direction::Upload, "JP", "A")), Some(2000));
    assert_eq!(reg.get(&key(Direction::Download, "JP", "B")), Some(3000));
    assert_eq!(reg.get(&key(Direction::Upload, "JP", "B")), Some(4000));
}

#[test]
fn connect_failure_clears_prepopulated_registry() {
    let mut reg = Registry::new();
    for i in 0..4u64 {
        reg.set(key(Direction::Download, "US", &format!("old{}", i)), i + 1);
    }
    let mut round = Round::begin(Ok(many(3)), &reg).unwrap();
    round.record(&mut reg, Ok(10));
    round.record(&mut reg, Ok(20));
    round.record(&mut reg, Ok(30));
    assert!(!reg.is_empty());
    round.record(&mut reg, Err(ProbeError::ConnectFailure));
    assert!(reg.is_empty());
    assert!(round.is_finished());
    assert!(round.next_probe().is_none());
}

#[test]
fn timeout_on_second_server_empties_registry() {
    let mut reg = Registry::new();
    let discovered = vec![srv("a", "JP"), srv("b", "JP")];
    let mut round = Round::begin(Ok(discovered), &reg).unwrap();
    round.record(&mut reg, Ok(50000));
    round.record(&mut reg, Ok(10000));
    assert_eq!(reg.get(&key(Direction::Download, "JP", "a")), Some(50000));
    assert_eq!(reg.get(&key(Direction::Upload, "JP", "a")), Some(10000));
    let p = round.next_probe().unwrap();
    assert_eq!(p.key.host, "b");
    assert_eq!(p.direction, Direction::Download);
    round.record(&mut reg, Err(ProbeError::Timeout));
    assert!(round.next_probe().is_none());
    assert!(reg.is_empty());
    assert!(reg.snapshot().is_empty());
}

#[test]
fn conclude_prunes_only_completed_rounds() {
    let mut reg = Registry::new();
    reg.set(key(Direction::Upload, "US", "gone"), 5);
    let mut round = Round::begin(Ok(vec![srv("a", "JP")]), &reg).unwrap();
    round.record(&mut reg, Ok(1));
    round.record(&mut reg, Ok(2));
    round.conclude(&mut reg);
    assert_eq!(reg.get(&key(Direction::Upload, "US", "gone")), None);
    assert_eq!(reg.snapshot().len(), 2);

    let mut round = Round::begin(Ok(vec![srv("b", "JP")]), &reg).unwrap();
    round.record(&mut reg, Err(ProbeError::ConnectFailure));
    round.conclude(&mut reg);
    assert!(reg.is_empty());
}
