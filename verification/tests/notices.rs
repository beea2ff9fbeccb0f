use shipcat::error::Error;
use shipcat::slack::{message, parse_link, Message};
use shipcat::structs::{volume_default_mode, volume_key, volume_mount_read_only, HealthCheck, Image, Replicas, Resources};

#[test]
fn link_without_bar_is_address_and_description() {
    let l = parse_link("https://example.com/x").unwrap();
    assert_eq!(l.address, "https://example.com/x");
    assert_eq!(l.description, "https://example.com/x");
}

#[test]
fn link_with_bar_splits() {
    let l = parse_link("https://example.com/x|the build").unwrap();
    assert_eq!(l.address, "https://example.com/x");
    assert_eq!(l.description, "the build");
    let l = parse_link("|only").unwrap();
    assert_eq!(l.address, "");
    assert_eq!(l.description, "only");
    let l = parse_link("addr|").unwrap();
    assert_eq!(l.address, "addr");
    assert_eq!(l.description, "");
}

#[test]
fn link_with_two_bars_is_malformed() {
    match parse_link("a|b|c") {
        Err(Error::MalformedLink(l)) => assert_eq!(l, "a|b|c"),
        other => panic!("{:?}", other),
    }
}

#[test]
fn notice_keeps_text_and_colour() {
    let n = message(Message {
        text: "deployed".into(),
        link: Some("http://ci/1|build 1".into()),
        color: Some("good".into()),
    })
    .unwrap();
    assert_eq!(n.text, "deployed");
    assert_eq!(n.color.as_deref(), Some("good"));
    let l = n.link.unwrap();
    assert_eq!(l.address, "http://ci/1");
    assert_eq!(l.description, "build 1");

    let n = message(Message { text: "plain".into(), link: None, color: None }).unwrap();
    assert_eq!(n.text, "plain");
    assert!(n.link.is_none());
    assert!(n.color.is_none());

    assert!(matches!(
        message(Message { text: "x".into(), link: Some("a|b|c".into()), color: None }),
        Err(Error::MalformedLink(_))
    ));
}

#[test]
fn image_reference_is_rendered() {
    let img = Image { name: Some("billing".into()), repository: None, tag: None };
    assert_eq!(img.to_string(), "billing:latest");
    let img = Image { name: Some("billing".into()), repository: Some("".into()), tag: Some("1.2".into()) };
    assert_eq!(img.to_string(), "billing:1.2");
    let img = Image { name: Some("billing".into()), repository: Some("quay.io/co".into()), tag: Some("1.2".into()) };
    assert_eq!(img.to_string(), "quay.io/co/billing:1.2");
}

#[test]
fn descriptor_defaults() {
    assert!(!volume_mount_read_only());
    assert_eq!(volume_key(), "value");
    assert_eq!(volume_default_mode(), 420);
    assert_eq!(volume_default_mode(), 0o644);
    assert_eq!(Replicas::default(), Replicas { min: 0, max: 0 });
    let h = HealthCheck::default();
    assert!(h.uri.is_none() && h.wait.is_none() && h.port.is_none());
    let r = Resources::default();
    assert!(r.requests.is_none() && r.limits.is_none());
    let i = Image::default();
    assert!(i.name.is_none() && i.repository.is_none() && i.tag.is_none());
}
