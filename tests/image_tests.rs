use dockerfile_updater::{ContainerImage, Error, ParseError, Registry, Tag};

#[test]
fn container_image_parse_registry_image_dockerhub() {
    // parsing library dockerhub image
    let image = "node:8.0.0-alpine3.10";
    let registry_image: ContainerImage = image.parse().unwrap();
    assert!(!registry_image.is_latest());
    assert!(registry_image.is_dockerhub());
    assert!(registry_image.get_group().is_none());
    assert_eq!(registry_image.get_tag(), &"8.0.0-alpine3.10".parse::<Tag>().unwrap());
    assert_eq!(registry_image.get_name(), "node");

    let image = "node:8.0-alpine";
    let registry_image: ContainerImage = image.parse().unwrap();
    assert!(!registry_image.is_latest());
    assert!(registry_image.is_dockerhub());
    assert!(registry_image.get_group().is_none());
    assert_eq!(registry_image.get_tag(), &"8.0-alpine".parse::<Tag>().unwrap());
    assert_eq!(registry_image.get_name(), "node");

    // parsing non-library dockerhub image
    let image = "guacamole/guacamole:latest";
    let registry_image: ContainerImage = image.parse().unwrap();
    assert!(registry_image.is_latest());
    assert!(registry_image.is_dockerhub());
    assert_eq!(registry_image.get_group(), Some(String::from("guacamole")));
    assert_eq!(registry_image.get_name(), "guacamole");
    assert_eq!(image, &registry_image.to_string());
}

#[test]
fn container_image_parse_registry_image_mcr() {
    let image = "mcr.microsoft.com/dotnet/aspnet:9.0.0";
    let registry_image: ContainerImage = image.parse().unwrap();
    assert!(!registry_image.is_latest());
    assert!(registry_image.is_mcr());
    assert!(registry_image.get_group().is_some());
    assert_eq!(registry_image.get_group(), Some(String::from("dotnet")));
    assert_eq!(registry_image.get_tag(), &"9.0.0".parse::<Tag>().unwrap());
    assert_eq!(registry_image.get_name(), "aspnet");
    assert_eq!(image, &registry_image.to_string());
}

#[test]
fn docker_file_parse_registry_image_dockerhub() {
    let image = "node:8.0.0-alpine3.10";
    let registry_image: ContainerImage = image.parse().unwrap();
    assert!(!registry_image.is_latest());
    assert!(registry_image.is_dockerhub());
    assert!(registry_image.get_group().is_none());
    assert_eq!(registry_image.get_tag(), &"8.0.0-alpine3.10".parse::<Tag>().unwrap());
    assert_eq!(registry_image.get_name(), "node");

    let image = "node:8.0-alpine";
    let registry_image: ContainerImage = image.parse().unwrap();
    assert!(!registry_image.is_latest());
    assert!(registry_image.is_dockerhub());
    assert!(registry_image.get_group().is_none());
    assert_eq!(registry_image.get_tag(), &"8.0-alpine".parse::<Tag>().unwrap());
    assert_eq!(registry_image.get_name(), "node");

    let image = "guacamole/guacamole:latest";
    let registry_image: ContainerImage = image.parse().unwrap();
    assert!(registry_image.is_latest());
    assert!(registry_image.is_dockerhub());
    assert_eq!(registry_image.get_group(), Some(String::from("guacamole")));
    assert_eq!(registry_image.get_name(), "guacamole");
    assert_eq!(image, &registry_image.to_string());
}

#[test]
fn docker_file_parse_registry_image_mcr() {
    let image = "mcr.microsoft.com/dotnet/aspnet:9.0.0";
    let registry_image: ContainerImage = image.parse().unwrap();
    assert!(!registry_image.is_latest());
    assert!(registry_image.is_mcr());
    assert!(registry_image.get_group().is_some());
    assert_eq!(registry_image.get_group(), Some(String::from("dotnet")));
    assert_eq!(registry_image.get_tag(), &"9.0.0".parse::<Tag>().unwrap());
    assert_eq!(registry_image.get_name(), "aspnet");
    assert_eq!(image, &registry_image.to_string());
}

#[test]
fn image_node_parse_fields() {
    let img = ContainerImage::parse("node:8.0.0-alpine3.10").unwrap();
    assert_eq!(img.registry(), Registry::Dockerhub);
    assert_eq!(img.get_group(), None);
    assert_eq!(img.get_name(), "node");
    assert_eq!(img.get_tag().major, Some(8));
}

#[test]
fn image_rendering_is_verbatim() {
    for s in ["mcr.microsoft.com/dotnet/aspnet:9.0.0", "node:8.0-alpine", "guacamole/guacamole:1.3.0", "base", "gcr.io/project/tool:1.2.3"] {
        let img = ContainerImage::parse(s).unwrap();
        assert_eq!(img.to_string(), s);
    }
}

#[test]
fn image_without_tag_names_a_stage() {
    let img = ContainerImage::parse("base").unwrap();
    assert!(img.get_tag().allowed_missing);
    assert_eq!(img.get_name(), "base");
    let img = ContainerImage::parse("a/b").unwrap();
    assert!(img.get_tag().allowed_missing);
    assert_eq!(img.get_group(), Some("a".to_owned()));
    assert_eq!(img.get_name(), "b");
    assert_eq!(img.to_string(), "a/b");
    let img = ContainerImage::parse("node:").unwrap();
    assert!(img.get_tag().allowed_missing);
    assert_eq!(img.get_name(), "node");
}

#[test]
fn blank_image_is_an_error() {
    assert_eq!(ContainerImage::parse("   "), Err(Error::Parse(ParseError::EmptyImage)));
    assert_eq!(ContainerImage::parse(":"), Err(Error::Parse(ParseError::EmptyImage)));
}

#[test]
fn registry_prefix_in_any_case() {
    let img = ContainerImage::parse("MCR.Microsoft.com/dotnet/sdk:8.0").unwrap();
    assert!(img.is_mcr());
    assert_eq!(img.get_name(), "sdk");
    let img = ContainerImage::parse("gcr.io/distroless/static:nonroot").unwrap();
    assert!(img.is_gcr());
    assert_eq!(img.get_group(), Some("distroless".to_owned()));
}

#[test]
fn names_and_urls() {
    let node = ContainerImage::parse("node:8.0-alpine").unwrap();
    assert_eq!(node.get_full_name(), "library/node");
    assert_eq!(node.get_full_tagged_name(), "/node:8.0-alpine");
    assert_eq!(node.get_tagged_name(), "node:8.0-alpine");
    assert_eq!(node.get_query_url(), "https://hub.docker.com/v2/repositories/library/node/tags?page_size=100");
    let mcr = ContainerImage::parse("mcr.microsoft.com/dotnet/aspnet:9.0.0").unwrap();
    assert_eq!(mcr.get_full_name(), "dotnet/aspnet");
    assert_eq!(mcr.get_full_tagged_name(), "dotnet/aspnet:9.0.0");
    assert_eq!(mcr.get_query_url(), "https://mcr.microsoft.com/api/v1/catalog/dotnet/aspnet/tags?reg=mar");
    let gcr = ContainerImage::parse("gcr.io/proj/tool:1.0.0").unwrap();
    assert_eq!(
        gcr.get_query_url(),
        "https://artifactregistry.clients6.google.com/v1/projects/proj/locations/us/repositories/gcr.io/packages/tool/versions"
    );
}

#[test]
fn from_line_parts() {
    let (img, alias) = ContainerImage::parse_from_line("FROM node:8.0-alpine AS build").unwrap();
    assert_eq!(img.to_string(), "node:8.0-alpine");
    assert_eq!(alias, Some("build".to_owned()));
    let (img, alias) = ContainerImage::parse_from_line("  from   python:3.12.3-alpine").unwrap();
    assert_eq!(img.to_string(), "python:3.12.3-alpine");
    assert_eq!(alias, None);
    let (_, alias) = ContainerImage::parse_from_line("FROM alpine:3.22 as").unwrap();
    assert_eq!(alias, Some(String::new()));
    assert_eq!(ContainerImage::parse_from_line("FROM "), Err(Error::Parse(ParseError::EmptyImage)));
}

#[test]
fn set_tag_keeps_the_rest() {
    let mut img = ContainerImage::parse("mcr.microsoft.com/dotnet/aspnet:9.0.0").unwrap();
    img.update_image_tag(&"9.0.1".parse().unwrap());
    assert_eq!(img.to_string(), "mcr.microsoft.com/dotnet/aspnet:9.0.1");
    assert!(!img.is_empty());
    assert!(ContainerImage::default().is_empty());
}
