use shipwright::image_ref::{parse_image, ImageRefError, DEFAULT_REGISTRY};

#[test]
fn explicit_registry_host_is_first_segment() {
    let r = parse_image("myregistry.example.com/team/app:1.2").unwrap();
    assert_eq!(r.registry, "myregistry.example.com");
    assert_eq!(r.repository, "team/app");
    assert_eq!(r.tag, "1.2");
}

#[test]
fn short_reference_uses_default_registry() {
    let r = parse_image("redis:6").unwrap();
    assert_eq!(r.registry, DEFAULT_REGISTRY);
    assert_eq!(r.registry, "https://index.docker.io/v1");
    assert_eq!(r.repository, "redis");
    assert_eq!(r.tag, "6");
}

#[test]
fn two_segments_keep_whole_string_as_repository() {
    let r = parse_image("reg.example.com/app:1").unwrap();
    assert_eq!(r.registry, "https://index.docker.io/v1");
    assert_eq!(r.repository, "reg.example.com/app");
    assert_eq!(r.tag, "1");
    assert_eq!(format!("{}:{}", r.repository, r.tag), "reg.example.com/app:1");
}

#[test]
fn tag_follows_last_colon() {
    let r = parse_image("reg.example.com:5000/team/app:2").unwrap();
    assert_eq!(r.registry, "reg.example.com:5000");
    assert_eq!(r.repository, "team/app");
    assert_eq!(r.tag, "2");
    let r = parse_image("localhost:5000/app:3").unwrap();
    assert_eq!(r.registry, "https://index.docker.io/v1");
    assert_eq!(r.repository, "localhost:5000/app");
    assert_eq!(r.tag, "3");
}

#[test]
fn missing_tag_is_an_error() {
    assert_eq!(parse_image("redis").err(), Some(ImageRefError::MissingTag));
    assert_eq!(parse_image("a/b/c").err(), Some(ImageRefError::MissingTag));
    assert_eq!(parse_image("").err(), Some(ImageRefError::MissingTag));
}

#[test]
fn colon_only_in_host_is_no_tag() {
    assert_eq!(parse_image("reg:5000/team/app").err(), Some(ImageRefError::MissingTag));
}

#[test]
fn deep_repository_path() {
    let r = parse_image("ghcr.io/org/group/app:v1").unwrap();
    assert_eq!(r.registry, "ghcr.io");
    assert_eq!(r.repository, "org/group/app");
    assert_eq!(r.tag, "v1");
}
