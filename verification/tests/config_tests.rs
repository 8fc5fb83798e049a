use mc_gateway::config::{Config, Destination, Route, StatusConfig, TransferMode};
use mc_gateway::json::Json;

fn status() -> StatusConfig {
    StatusConfig::Static { json: Json::Object(Vec::new()), fake_protocol_version: false }
}

fn destination(host: &str) -> Destination {
    Destination::Transfer {
        host: host.to_string(),
        port: 25565,
        transfer_mode: TransferMode::default(),
        rewrite_address: false,
    }
}

fn route(pattern: &str) -> Route {
    Route { pattern: pattern.to_string(), status: status(), destination: destination(pattern) }
}

fn config(patterns: &[&str]) -> Config {
    Config {
        listen: "0.0.0.0:25565".to_string(),
        routes: patterns.iter().map(|p| route(p)).collect(),
    }
}

fn fetch(port: u16, cache_ttl: Option<u64>) -> StatusConfig {
    StatusConfig::FetchFrom {
        host: "status.example".to_string(),
        port,
        rewrite_address: false,
        cache_ttl,
    }
}

#[test]
fn star_covers_everything() {
    let r = route("*");
    assert!(r.matches(""));
    assert!(r.matches("anything.example"));
    assert!(r.matches("*"));
}

#[test]
fn subdomain_patterns() {
    let r = route("*.example.com");
    assert!(r.matches("example.com"));
    assert!(r.matches("play.example.com"));
    assert!(r.matches("a.b.example.com"));
    assert!(r.matches(".example.com"));
    assert!(!r.matches("notexample.com"));
    assert!(!r.matches("example.com.evil"));
    assert!(!r.matches("xample.com"));
    assert!(!r.matches(""));
}

#[test]
fn empty_subdomain_pattern() {
    let r = route("*.");
    assert!(r.matches(""));
    assert!(r.matches("host."));
    assert!(!r.matches("host"));
}

#[test]
fn continuation_patterns() {
    let r = route("play.*");
    assert!(r.matches("play"));
    assert!(r.matches("play."));
    assert!(r.matches("play.example.com"));
    assert!(!r.matches("player.example.com"));
    assert!(!r.matches("pla"));
    assert!(!r.matches("x.play.example.com"));
}

#[test]
fn pattern_with_stars_at_both_ends() {
    let r = route("*.*");
    assert!(r.matches("*"));
    assert!(r.matches("a.*"));
    assert!(!r.matches("a.b"));
    let s = route(".*");
    assert!(s.matches(""));
    assert!(s.matches(".x"));
    assert!(!s.matches("x"));
}

#[test]
fn plain_patterns() {
    let r = route("mc.example.com");
    assert!(r.matches("mc.example.com"));
    assert!(!r.matches("MC.example.com"));
    assert!(!r.matches("mc.example.co"));
    assert!(!r.matches("mc.example.com."));
    assert!(route("*mc").matches("*mc"));
    assert!(!route("*mc").matches("a.mc"));
    assert!(!route("mc*").matches("mc.a"));
    assert!(route("").matches(""));
    assert!(!route("").matches("x"));
}

#[test]
fn patterns_beyond_ascii() {
    assert!(route("*.b\u{fc}cher.de").matches("\u{1f600}.b\u{fc}cher.de"));
    assert!(!route("*.b\u{fc}cher.de").matches("xb\u{fc}cher.de"));
    assert!(route("\u{fc}.*").matches("\u{fc}.x"));
    assert!(!route("\u{fc}.*").matches("\u{fc}\u{fc}"));
}

#[test]
fn first_route_decides() {
    let c = config(&["a.example", "*.example", "a.*", "*"]);
    assert_eq!(c.match_index("a.example"), Some(0));
    assert_eq!(c.match_index("b.example"), Some(1));
    assert_eq!(c.match_index("a.other"), Some(2));
    assert_eq!(c.match_index("elsewhere"), Some(3));
    assert_eq!(c.match_host("b.example").unwrap().pattern, "*.example");
}

#[test]
fn no_route() {
    let c = config(&["a.example"]);
    assert!(c.match_host("b.example").is_none());
    assert_eq!(c.match_index("b.example"), None);
    assert!(config(&[]).match_host("").is_none());
}

#[test]
fn cache_keys() {
    assert_eq!(fetch(25565, None).cache_key("10.0.0.1"), Some("10.0.0.1:25565".to_string()));
    assert_eq!(fetch(0, None).cache_key(""), Some(":0".to_string()));
    assert_eq!(fetch(65535, None).cache_key("h"), Some("h:65535".to_string()));
    assert_eq!(status().cache_key("h"), None);
}

#[test]
fn cache_keys_differ() {
    let mut keys: Vec<Option<String>> = Vec::new();
    for host in ["a", "a:1", "a:", ":"] {
        for port in [1u16, 11, 111] {
            keys.push(fetch(port, None).cache_key(host));
        }
    }
    for i in 0..keys.len() {
        for j in 0..i {
            assert_ne!(keys[i], keys[j]);
        }
    }
}

#[test]
fn cache_ttls() {
    assert_eq!(fetch(1, Some(30)).cache_ttl(), Some(30));
    assert_eq!(fetch(1, None).cache_ttl(), None);
    assert_eq!(status().cache_ttl(), None);
}

#[test]
fn usable_statuses() {
    assert!(fetch(1, Some(0)).is_usable());
    assert!(!fetch(1, None).is_usable());
    assert!(status().is_usable());
    let bare = StatusConfig::Static { json: Json::Number(1), fake_protocol_version: true };
    assert!(!bare.is_usable());
    let versioned = StatusConfig::Static {
        json: Json::Object(vec![("version".to_string(), Json::Object(Vec::new()))]),
        fake_protocol_version: true,
    };
    assert!(versioned.is_usable());
}

#[test]
fn transfer_is_the_default_mode() {
    assert_eq!(TransferMode::default(), TransferMode::Transfer);
    assert_ne!(TransferMode::Proxy { haproxy: true }, TransferMode::Opportunistic { haproxy: true });
}
