use dockerfile_updater::{
    handle_file, DockerInstruction, Dockerfile, Error, ParseError, Strategy, Tag,
};

const CONTENT: &str = r#"# Comment 1
# Comment 2
# Comment 3
# comment 3.1
FROM alpine:3.0 AS base
FROM base AS something
COPY /app /app
ADD src dest
CMD ["/command"]
ENTRYPOINT ["/entrypoint.sh"]
HEALTHCHECK /bin/true
LABEL multi.label1="value1" \
      multi.label2="value2" \
      other="value3"

MAINTAINER info@example.com
WORKDIR /tmp

FROM node:8.0-alpine AS build
RUN apk install \
        python \
        make \
        g++

# comment in the middle
COPY --from=base /app /app
RUN npm install

FROM node:12.0-alpine AS release
COPY /app /app

FROM python:3.12.3-alpine

FROM nginx:1.26.1-alpine3.19

FROM guacamole/guacamole:1.3.0

# comment 4
FROM mcr.microsoft.com/dotnet/aspnet:9.0.0 AS Final
# comment 5
ARG ARG1=ARG1
ENV ENV1=ENV1 \
    ENV2=ENV2

USER ${USERNAME}:${GROUPNAME}
EXPOSE 1337
SHELL /bin/bash
VOLUME /data
ONBUILD echo "hello world"
STOPSIGNAL SIGTERM

RUN echo && \
    # comment
    echo "hi" && \
    # comment
    ( echo "meow" ) | piped -a "hello"
"#;

fn tags(list: &[&str]) -> Vec<Tag> {
    list.iter().map(|s| s.parse().unwrap()).collect()
}

#[test]
fn container_image_parse_tests_valid_checks() {
    let dockerfile = Dockerfile::parse(CONTENT).unwrap();
    assert_eq!(dockerfile.get_path(), None);
    assert_eq!(
        dockerfile.get_instructions().first().unwrap(),
        &(DockerInstruction::Raw(String::from("# Comment 1")))
    );
    assert_eq!(
        dockerfile.get_instructions().get(3).unwrap(),
        &(DockerInstruction::Raw(String::from("# comment 3.1")))
    );
    assert_eq!(dockerfile.get_instructions().get(4).unwrap().get_full_image_name().unwrap(), "alpine:3.0");
    assert_eq!(dockerfile.get_instructions().get(4).unwrap().get_stage_name().unwrap(), "base");
    assert_eq!(dockerfile.get_instructions().get(18).unwrap().get_full_image_name().unwrap(), "node:8.0-alpine");
    assert_eq!(
        dockerfile.get_instructions().get(38).unwrap().get_full_image_name().unwrap(),
        "mcr.microsoft.com/dotnet/aspnet:9.0.0"
    );
    assert_eq!(dockerfile.get_instructions().get(38).unwrap().get_only_image_name().unwrap(), "aspnet:9.0.0");
    assert_eq!(
        *dockerfile.get_instructions().get(38).unwrap().get_image_tag().unwrap(),
        "9.0.0".parse::<Tag>().unwrap()
    );
    assert_eq!(CONTENT, dockerfile.to_string());
}

#[test]
fn empty_file_is_an_error() {
    assert_eq!(Dockerfile::parse(""), Err(Error::Parse(ParseError::EmptyFile)));
}

#[test]
fn from_without_image_fails_the_file() {
    assert_eq!(
        Dockerfile::parse("FROM alpine:3\nFROM   \n"),
        Err(Error::Parse(ParseError::EmptyImage))
    );
}

#[test]
fn only_comments_is_a_file_without_images() {
    let d = Dockerfile::parse("#just a comment").unwrap();
    assert!(d.get_base_images_mut().is_empty());
    assert_eq!(d.to_string(), "#just a comment\n");
}

#[test]
fn crlf_lines_read_without_carriage_return() {
    let d = Dockerfile::parse("FROM node:1.0.0\r\nRUN x\r\n").unwrap();
    assert_eq!(d.get_instructions().len(), 2);
    assert_eq!(d.get_instructions()[1], DockerInstruction::Raw("RUN x".to_owned()));
}

#[test]
fn base_images_skip_stage_references() {
    let d = Dockerfile::parse(CONTENT).unwrap();
    let bases = d.get_base_images_mut();
    let names: Vec<String> = bases.iter().map(|b| b.to_string()).collect();
    assert_eq!(
        names,
        vec![
            "alpine:3.0",
            "node:8.0-alpine",
            "node:12.0-alpine",
            "python:3.12.3-alpine",
            "nginx:1.26.1-alpine3.19",
            "guacamole/guacamole:1.3.0",
            "mcr.microsoft.com/dotnet/aspnet:9.0.0",
        ]
    );
}

#[test]
fn dry_run_update_only_touches_from_lines() {
    let d = Dockerfile::parse(CONTENT).unwrap();
    let mut remote = Vec::new();
    for _ in 0..7 {
        remote.push(Vec::new());
    }
    remote[1] = tags(&["9.0-alpine", "10.0-alpine", "8.1-alpine"]);
    remote[6] = tags(&["9.0.1", "9.1.0", "10.0.0"]);
    let ignore = vec!["node:8.0-alpine".parse().unwrap()];
    let plan = d.generate_image_updates(&Strategy::Latest, &remote, &ignore);
    assert_eq!(plan.updates.len(), 1);
    assert_eq!(plan.updates[0].0, 6);
    assert_eq!(plan.updates[0].1.to_string(), "10.0.0");
    let out = plan.apply().to_string();
    let expected = CONTENT.replace(
        "FROM mcr.microsoft.com/dotnet/aspnet:9.0.0 AS Final",
        "FROM mcr.microsoft.com/dotnet/aspnet:10.0.0 AS Final",
    );
    assert_eq!(out, expected);
    assert_eq!(d.to_string(), CONTENT);
}

#[test]
fn handle_file_rewrites_tags() {
    let content = "# base\nFROM node:8.0-alpine AS build\nRUN make\nFROM build\n";
    let remote = vec![tags(&["9.0-alpine", "10.0-alpine", "8.1-alpine"])];
    let out = handle_file(content, &Strategy::LatestMinor, &remote).unwrap();
    assert_eq!(out, "# base\nFROM node:8.1-alpine AS build\nRUN make\nFROM build\n");
    assert_eq!(handle_file("", &Strategy::Latest, &remote), Err(Error::Parse(ParseError::EmptyFile)));
}

#[test]
fn missing_path_is_reported() {
    let mut d = Dockerfile::parse("FROM node:1.0.0\n").unwrap();
    assert_eq!(d.write_target(), Err(Error::MissingPath));
    d.set_path("/tmp/Dockerfile");
    assert_eq!(d.get_path(), Some("/tmp/Dockerfile".to_owned()));
    assert_eq!(d.write_target(), Ok("/tmp/Dockerfile".to_owned()));
    d.clear_path();
    assert_eq!(d.get_path(), None);
}

#[test]
fn later_update_wins() {
    let d = Dockerfile::parse("FROM node:1.0.0\n").unwrap();
    let mut plan = d.generate_image_updates(&Strategy::Latest, &vec![], &vec![]);
    assert!(plan.updates.is_empty());
    plan.updates.push((0, "2.0.0".parse().unwrap()));
    plan.updates.push((0, "3.0.0".parse().unwrap()));
    assert_eq!(plan.apply().to_string(), "FROM node:3.0.0\n");
}
