//! Building the endpoint map from arguments, files and folders.

use testsuite::args::Arguments;
use testsuite::args::Content;
use testsuite::args::Log;
use testsuite::endpoint::classify_file_name;
use testsuite::endpoint::endpoint_for_file;
use testsuite::endpoint::file_stem;
use testsuite::endpoint::from_folder_entries;
use testsuite::endpoint::populate_map;
use testsuite::endpoint::EndpointContent;
use testsuite::endpoint::EndpointMap;
use testsuite::endpoint::FolderError;
use testsuite::format::LogType;
use testsuite::format::ResponseFormat;

fn args_with(content: Content) -> Arguments {
    Arguments {
        port: 8080,
        content,
        format: ResponseFormat::Json,
        endpoint: "/".to_string(),
        allow_remote: false,
        log: Log {
            log: false,
            log_file: "./testsuite.log".to_string(),
            log_filter: LogType::Error,
        },
    }
}

#[test]
fn map_keeps_insertion_order() {
    let mut map = EndpointMap::new();
    map.insert("/b".to_string(), EndpointContent::from_content("1", &ResponseFormat::Json));
    map.insert("/a".to_string(), EndpointContent::from_content("2", &ResponseFormat::Html));
    assert_eq!(map.len(), 2);
    assert_eq!(map.get_index(0).unwrap().0, "/b");
    assert_eq!(map.get_index(1).unwrap().0, "/a");
    assert!(map.get_index(2).is_none());
}

#[test]
fn map_replaces_value_in_place() {
    let mut map = EndpointMap::new();
    map.insert("/x".to_string(), EndpointContent::from_content("old", &ResponseFormat::Json));
    map.insert("/y".to_string(), EndpointContent::from_content("other", &ResponseFormat::Json));
    map.insert("/x".to_string(), EndpointContent::from_content("new", &ResponseFormat::Html));
    assert_eq!(map.len(), 2);
    let first = map.get_index(0).unwrap();
    assert_eq!(first.0, "/x");
    assert_eq!(first.1.content.as_deref(), Some("new"));
    assert_eq!(first.1.format, "text/html");
}

#[test]
fn map_get_finds_by_key() {
    let mut map = EndpointMap::new();
    map.insert("/hello".to_string(), EndpointContent::from_content("hi", &ResponseFormat::Json));
    let c = map.get(&"/hello".to_string()).unwrap();
    assert_eq!(c.content.as_deref(), Some("hi"));
    assert!(map.get(&"/nope".to_string()).is_none());
}

#[test]
fn content_from_literal() {
    let c = EndpointContent::from_content("body", &ResponseFormat::Html);
    assert_eq!(c.content.as_deref(), Some("body"));
    assert_eq!(c.format, "text/html");
    assert_eq!(c.to_string(), "body");
}

#[test]
fn content_default_is_blank() {
    let c = EndpointContent::default();
    assert!(c.content.is_none());
    assert_eq!(c.format, "");
    assert_eq!(c.to_string(), "");
}

#[test]
fn from_args_prefers_literal_content() {
    let args = args_with(Content {
        content: Some("text".to_string()),
        content_file: None,
        content_folder: None,
    });
    let c = EndpointContent::from_args(&args, None);
    assert_eq!(c.content.as_deref(), Some("text"));
    assert_eq!(c.format, "application/json");
}

#[test]
fn from_args_uses_file_text_when_named() {
    let args = args_with(Content {
        content: None,
        content_file: Some("data/body.json".to_string()),
        content_folder: None,
    });
    let c = EndpointContent::from_args(&args, Some("from file".to_string()));
    assert_eq!(c.content.as_deref(), Some("from file"));
    let missing = EndpointContent::from_args(&args, None);
    assert!(missing.content.is_none());
}

#[test]
fn from_args_blank_when_no_source() {
    let args = args_with(Content { content: None, content_file: None, content_folder: None });
    let c = EndpointContent::from_args(&args, None);
    assert!(c.content.is_none());
    assert_eq!(c.format, "application/json");
}

#[test]
fn file_stem_cases() {
    assert_eq!(file_stem("dir/name.json"), "name");
    assert_eq!(file_stem("name.html"), "name");
    assert_eq!(file_stem("a/b/archive.tar.gz"), "archive.tar");
    assert_eq!(file_stem("noext"), "noext");
    assert_eq!(file_stem(".json"), ".json");
    assert_eq!(file_stem("dir/"), "");
}

#[test]
fn endpoint_for_file_prefixes_slash() {
    assert_eq!(endpoint_for_file("content/hello.json"), "/hello");
    assert_eq!(endpoint_for_file("plain"), "/plain");
}

#[test]
fn classify_known_extensions() {
    let (stem, fmt) = classify_file_name("hello.json").unwrap();
    assert_eq!(stem, "hello");
    assert!(matches!(fmt, ResponseFormat::Json));
    let (stem, fmt) = classify_file_name("page.html").unwrap();
    assert_eq!(stem, "page");
    assert!(matches!(fmt, ResponseFormat::Html));
}

#[test]
fn classify_rejects_other_names() {
    assert!(classify_file_name("notes.txt").is_none());
    assert!(classify_file_name(".json").is_none());
    assert!(classify_file_name("json").is_none());
}

#[test]
fn folder_entries_build_endpoints_and_skip_strangers() {
    let files = vec![
        ("hello.json".to_string(), Some("hi".to_string())),
        ("readme.txt".to_string(), Some("skip me".to_string())),
        ("page.html".to_string(), Some("<p>x</p>".to_string())),
        ("gone.json".to_string(), None),
    ];
    let map = from_folder_entries(&files);
    assert_eq!(map.len(), 3);
    assert_eq!(map.get_index(0).unwrap().0, "/hello");
    assert_eq!(map.get_index(1).unwrap().0, "/page");
    assert_eq!(map.get_index(2).unwrap().0, "/gone");
    assert_eq!(map.get(&"/hello".to_string()).unwrap().content.as_deref(), Some("hi"));
    assert_eq!(map.get(&"/page".to_string()).unwrap().format, "text/html");
    assert!(map.get(&"/gone".to_string()).unwrap().content.is_none());
    assert!(map.get(&"/readme".to_string()).is_none());
}

#[test]
fn populate_map_literal_case() {
    let mut args = args_with(Content {
        content: Some("hi".to_string()),
        content_file: None,
        content_folder: None,
    });
    args.endpoint = "/hello".to_string();
    let map = populate_map(&args, None, None);
    assert_eq!(map.len(), 1);
    assert_eq!(map.get(&"/hello".to_string()).unwrap().content.as_deref(), Some("hi"));
}

#[test]
fn populate_map_file_case_derives_endpoint() {
    let args = args_with(Content {
        content: None,
        content_file: Some("www/index.html".to_string()),
        content_folder: None,
    });
    let map = populate_map(&args, Some("<h1>hi</h1>".to_string()), None);
    assert_eq!(map.len(), 1);
    assert_eq!(map.get_index(0).unwrap().0, "/index");
    assert_eq!(
        map.get(&"/index".to_string()).unwrap().content.as_deref(),
        Some("<h1>hi</h1>")
    );
}

#[test]
fn populate_map_folder_case() {
    let args = args_with(Content {
        content: None,
        content_file: None,
        content_folder: Some("content".to_string()),
    });
    let files = vec![("a.json".to_string(), Some("1".to_string()))];
    let map = populate_map(&args, None, Some(&files));
    assert_eq!(map.len(), 1);
    assert_eq!(map.get_index(0).unwrap().0, "/a");
}

#[test]
fn populate_map_unusable_folder_is_empty() {
    let args = args_with(Content {
        content: None,
        content_file: None,
        content_folder: Some("missing".to_string()),
    });
    let map = populate_map(&args, None, None);
    assert_eq!(map.len(), 0);
}

#[test]
fn populate_map_default_case_maps_root() {
    let args = args_with(Content { content: None, content_file: None, content_folder: None });
    let map = populate_map(&args, None, None);
    assert_eq!(map.len(), 1);
    let root = map.get(&"/".to_string()).unwrap();
    assert!(root.content.is_none());
    assert_eq!(root.format, "");
}

#[test]
fn folder_error_carries_message() {
    let e = FolderError::new("Path does not exists".to_string());
    assert_eq!(e.message(), "Path does not exists");
}
