use dockerfile_updater::cli::{is_dockerfile_name, is_excluded, overview, quiet_answer};
use dockerfile_updater::{
    cache_file_name, is_cache_fresh, load_cache_file, ContainerImage, DockerHubResponse, DockerHubResult, Error,
    HubImage, McrResponseEntry, PageOutcome, PagerStep, ParseError, RegistryResponse, Tag,
    TagCache, TagPager, TagSource,
};

fn hub_entry(name: &str, archs: &[&str]) -> DockerHubResult {
    DockerHubResult {
        name: name.to_owned(),
        images: archs.iter().map(|a| HubImage { architecture: (*a).to_owned() }).collect(),
    }
}

fn names(tags: &[Tag]) -> Vec<String> {
    tags.iter().map(|t| t.to_string()).collect()
}

#[test]
fn noise_tags_are_dropped_and_list_sorted() {
    let resp = RegistryResponse::DockerHub(DockerHubResponse {
        next: None,
        results: vec![
            hub_entry("2.0.0", &["amd64"]),
            hub_entry("latest", &["amd64"]),
            hub_entry("1.0.0-alpine", &["arm64"]),
            hub_entry("1.0.0", &["amd64", "arm64"]),
            hub_entry("2.0.0", &["amd64"]),
        ],
    });
    assert_eq!(names(&resp.get_tags()), vec!["1.0.0", "1.0.0-alpine", "2.0.0"]);
    assert_eq!(names(&resp.get_tags_for_arch("arm64")), vec!["1.0.0", "1.0.0-alpine"]);
    assert!(resp.get_tags_for_arch("s390x").is_empty());
}

#[test]
fn mcr_entries_filter_by_architecture() {
    let resp = RegistryResponse::MicrosoftContainerRegistry(vec![
        McrResponseEntry { name: "9.0.0".to_owned(), architecture: Some("amd64".to_owned()) },
        McrResponseEntry { name: "9.0.1".to_owned(), architecture: None },
        McrResponseEntry { name: "sha256abc".to_owned(), architecture: Some("amd64".to_owned()) },
    ]);
    assert_eq!(names(&resp.get_tags()), vec!["9.0.0", "9.0.1"]);
    assert_eq!(names(&resp.get_tags_for_arch("amd64")), vec!["9.0.0"]);
}

#[test]
fn pagination_stops_on_empty_page_even_with_next() {
    let mut pager = TagPager::new("library/node".to_owned(), None);
    assert_eq!(pager.limit, 2000);
    let step = pager.on_page(PageOutcome::Page(DockerHubResponse {
        next: Some("https://next/2".to_owned()),
        results: vec![hub_entry("1.0.0", &["amd64"])],
    }));
    assert!(matches!(step, PagerStep::Fetch(ref u) if u == "https://next/2"));
    let step = pager.on_page(PageOutcome::Page(DockerHubResponse {
        next: Some("https://next/3".to_owned()),
        results: vec![],
    }));
    assert!(matches!(step, PagerStep::Done));
    assert_eq!(pager.results.len(), 1);
}

#[test]
fn pagination_limit_and_failures() {
    let mut pager = TagPager::new("library/node".to_owned(), Some(2));
    let step = pager.on_page(PageOutcome::Page(DockerHubResponse {
        next: Some("https://next/2".to_owned()),
        results: vec![hub_entry("1.0.0", &[]), hub_entry("1.0.1", &[])],
    }));
    assert!(matches!(step, PagerStep::Done));
    assert!(matches!(pager.on_page(PageOutcome::Unreadable), PagerStep::Done));

    let mut fresh = TagPager::new("library/node".to_owned(), None);
    assert!(matches!(
        fresh.on_page(PageOutcome::Unreadable),
        PagerStep::Failed(Error::Parse(ParseError::InvalidDockerhubResponse))
    ));
    assert!(matches!(
        fresh.on_page(PageOutcome::Unreachable),
        PagerStep::Failed(Error::ImageNotFound(ref n)) if n == "library/node"
    ));
    let resp = pager.into_response();
    assert_eq!(names(&resp.get_tags()), vec!["1.0.0", "1.0.1"]);
}

#[test]
fn cache_returns_what_was_stored() {
    let mut cache = TagCache::new();
    assert!(cache.lookup("library/node").is_none());
    let tags: Vec<Tag> = vec!["1.0.0".parse().unwrap(), "2.0.0".parse().unwrap()];
    cache.insert("library/node", &tags);
    assert_eq!(cache.lookup("library/node"), Some(tags.clone()));
    let newer: Vec<Tag> = vec!["3.0.0".parse().unwrap()];
    cache.insert("library/node", &newer);
    assert_eq!(cache.lookup("library/node"), Some(newer));
    assert!(cache.lookup("library/python").is_none());
}

#[test]
fn cache_freshness_window() {
    assert!(is_cache_fresh(0));
    assert!(is_cache_fresh(3599));
    assert!(!is_cache_fresh(3600));
    assert!(!is_cache_fresh(100_000));
}

#[test]
fn cache_file_names() {
    assert_eq!(cache_file_name("library/node"), "library-node.json");
    assert_eq!(cache_file_name("dotnet/aspnet"), "dotnet-aspnet.json");
}

#[test]
fn lookup_plan() {
    let mut cache = TagCache::new();
    let node = ContainerImage::parse("node:8.0-alpine").unwrap();
    match node.plan_tag_lookup(&cache).unwrap() {
        TagSource::Fetch(u) => assert_eq!(u, "https://hub.docker.com/v2/repositories/library/node/tags?page_size=100"),
        other => panic!("unexpected {other:?}"),
    }
    let tags: Vec<Tag> = vec!["9.0-alpine".parse().unwrap()];
    cache.insert("library/node", &tags);
    match node.plan_tag_lookup(&cache).unwrap() {
        TagSource::Cached(v) => assert_eq!(v, tags),
        other => panic!("unexpected {other:?}"),
    }
    let stage = ContainerImage::parse("base").unwrap();
    assert!(matches!(stage.plan_tag_lookup(&cache).unwrap(), TagSource::NoTags));
    let gcr = ContainerImage::parse("gcr.io/proj/tool:1.0.0").unwrap();
    assert_eq!(
        gcr.plan_tag_lookup(&cache).unwrap_err(),
        Error::NotImplemented("proj/tool".to_owned())
    );
}

#[test]
fn multi_mode_file_choice() {
    assert!(is_dockerfile_name("Dockerfile"));
    assert!(is_dockerfile_name("dockerfile.prod"));
    assert!(!is_dockerfile_name("Makefile"));
    let excluded = vec!["./tests/testfiles/DockerfileExample1".to_owned()];
    assert!(is_excluded("./tests/testfiles/DockerfileExample1", &excluded));
    assert!(!is_excluded("./tests/testfiles/DockerfileExample2", &excluded));
}

#[test]
fn quiet_answer_and_overview() {
    let img = ContainerImage::parse("node:8.0-alpine").unwrap();
    let found: Tag = "8.1-alpine".parse().unwrap();
    assert_eq!(quiet_answer(&img, &found), "library/node:8.1-alpine");
    let list: Vec<Tag> = vec!["8.1-alpine".parse().unwrap(), "9.0.0-alpine".parse().unwrap()];
    let all = overview(img.get_tag(), &list);
    assert_eq!(all.len(), 7);
    assert_eq!(all[0].1.as_ref().map(|t| t.to_string()), Some("9.0.0-alpine".to_owned()));
    assert_eq!(all[3].1.as_ref().map(|t| t.to_string()), Some("8.1-alpine".to_owned()));
}

#[test]
fn stale_cache_file_is_ignored() {
    let mut cache = TagCache::new();
    let tags: Vec<Tag> = vec!["1.0.0".parse().unwrap()];
    assert!(!load_cache_file(&mut cache, "library/node", 3600, Some(tags.clone())));
    assert!(cache.lookup("library/node").is_none());
    assert!(!load_cache_file(&mut cache, "library/node", 10, None));
    assert!(cache.lookup("library/node").is_none());
    assert!(load_cache_file(&mut cache, "library/node", 3599, Some(tags.clone())));
    assert_eq!(cache.lookup("library/node"), Some(tags));
}

#[test]
fn error_messages() {
    assert_eq!(Error::MissingPath.message(), "No path was set for the given dockerfile.");
    assert_eq!(Error::Parse(ParseError::EmptyFile).message(), "The given file is empty.");
}
