use quazal::config::{Config, ContentServer, Context, OnlineConfig, OnlineConfigContent, OnlineConfigItem, Service};
use quazal::Error;
use quazal::prudp::packet::StreamType;

fn ws_rewrite(ip: &'static str) -> impl Fn(&String) -> Option<String> {
    move |v: &String| v.rsplit_once(':').map(|(_, port)| format!("{}:{}", ip, port))
}

#[test]
fn default_online_config() {
    let c = OnlineConfig::new_default();
    assert_eq!(c.listen, "0.0.0.0:80");
    match &c.content {
        OnlineConfigContent::Typed(items) => {
            assert_eq!(items.len(), 2);
            assert_eq!(items[0].name, "SandboxUrl");
            assert_eq!(items[0].values, vec!["prudp:/address=127.0.0.1;port=21126".to_string()]);
            assert_eq!(items[1].name, "SandboxUrlWS");
            assert_eq!(items[1].values, vec!["127.0.0.1:21126".to_string()]);
        },
        OnlineConfigContent::Raw(_) => panic!("the default is typed"),
    }
}

#[test]
fn set_ips_typed() {
    let mut c = OnlineConfig::new_default();
    if let OnlineConfigContent::Typed(items) = &mut c.content {
        items.push(OnlineConfigItem { name: "Other".into(), values: vec!["address=1;port=2".into()] });
        items[0].values.push("no address here".into());
    }
    c.set_ips("192.168.1.2:80".into(), "203.0.113.7", ws_rewrite("203.0.113.7"));
    assert_eq!(c.listen, "192.168.1.2:80");
    match &c.content {
        OnlineConfigContent::Typed(items) => {
            assert_eq!(
                items[0].values,
                vec!["prudp:/address=203.0.113.7;port=21126".to_string(), "no address here".to_string()]
            );
            assert_eq!(items[1].values, vec!["203.0.113.7:21126".to_string()]);
            assert_eq!(items[2].values, vec!["address=1;port=2".to_string()]);
        },
        OnlineConfigContent::Raw(_) => panic!("content stays typed"),
    }
}

#[test]
fn set_ips_raw() {
    let raw = r#"[{"Name":"SandboxUrl","Values":["prudp:/address=127.0.0.1;port=21126"]},{"Name":"SandboxUrlWS","Values":["127.0.0.1:21126"]}]"#;
    let mut c = OnlineConfig { listen: "0.0.0.0:80".into(), content: OnlineConfigContent::Raw(raw.into()) };
    c.set_ips("0.0.0.0:80".into(), "10.0.0.5", ws_rewrite("10.0.0.5"));
    match &c.content {
        OnlineConfigContent::Raw(s) => assert_eq!(
            s,
            r#"[{"Name":"SandboxUrl","Values":["prudp:/address=10.0.0.5;port=21126"]},{"Name":"SandboxUrlWS","Values":["10.0.0.5"]}]"#
        ),
        OnlineConfigContent::Typed(_) => panic!("content stays raw"),
    }
}

#[test]
fn set_ips_raw_without_sandbox_is_unchanged() {
    let raw = r#"[{"Name":"Other","Values":["x"]}]"#;
    let mut c = OnlineConfig { listen: "0.0.0.0:80".into(), content: OnlineConfigContent::Raw(raw.into()) };
    c.set_ips("0.0.0.0:81".into(), "10.0.0.5", ws_rewrite("10.0.0.5"));
    assert_eq!(c.listen, "0.0.0.0:81");
    assert!(matches!(&c.content, OnlineConfigContent::Raw(s) if s == raw));
}

#[test]
fn context_keys() {
    let ctx = Context::splinter_cell_blacklist();
    assert_eq!(ctx.key(StreamType::RVSec), b"yl4NG7qZ".iter().map(|b| *b as u32).sum::<u32>());
    assert_eq!(ctx.key(StreamType::RV), 0);
    assert_eq!(ctx.crypto_key, b"CD&ML".to_vec());
    assert_eq!(ctx.vport, 1);
}

#[test]
fn into_services_keeps_enabled_services_in_order() {
    let config = Config {
        services: vec!["auth".into(), "content".into()],
        service: vec![
            ("content".into(), Service::Content(ContentServer::new_default())),
            ("unused".into(), Service::new_default()),
            ("auth".into(), Service::new_default()),
        ],
    };
    let services = config.into_services().ok().unwrap();
    let names: Vec<&str> = services.iter().map(|(n, _)| n.as_str()).collect();
    assert_eq!(names, vec!["content", "auth"]);
    assert!(matches!(services[0].1, Service::Content(_)));
    assert!(matches!(services[1].1, Service::Authentication(_)));
}

#[test]
fn into_services_names_missing_services() {
    let config = Config {
        services: vec!["a".into(), "b".into(), "c".into()],
        service: vec![("b".into(), Service::new_default())],
    };
    match config.into_services() {
        Err(Error::ServiceNotFound(s)) => assert_eq!(s, "a/c"),
        _ => panic!("expected missing services"),
    }
}

#[test]
fn untagged_service_kind() {
    let mut ctx = Context::new_default();
    assert!(matches!(Service::from_untagged(ctx), Service::Secure(_)));
    ctx = Context::new_default();
    ctx.secure_server_addr = Some("127.0.0.1:21127".into());
    assert!(matches!(Service::from_untagged(ctx), Service::Authentication(_)));
}

#[test]
fn default_services() {
    let c = ContentServer::new_default();
    assert_eq!(c.listen, "127.0.0.1:8000");
    assert_eq!(c.files, vec![("/mp_balancing.ini".to_string(), "./data/mp_balancing.ini".to_string())]);
    match Service::new_default() {
        Service::Authentication(ctx) => {
            assert_eq!(ctx.listen, "0.0.0.0:9999");
            assert!(ctx.access_key.is_empty());
            assert!(ctx.settings.is_empty());
        },
        _ => panic!("the default service authenticates"),
    }
}

#[test]
fn config_names_nothing_twice() {
    let ok = Config {
        services: vec!["a".into(), "b".into()],
        service: vec![("a".into(), Service::new_default()), ("b".into(), Service::new_default())],
    };
    assert!(ok.well_formed());
    let twice_enabled = Config { services: vec!["a".into(), "a".into()], service: vec![] };
    assert!(!twice_enabled.well_formed());
    let twice_configured = Config {
        services: vec![],
        service: vec![("b".into(), Service::new_default()), ("b".into(), Service::new_default())],
    };
    assert!(!twice_configured.well_formed());
}
