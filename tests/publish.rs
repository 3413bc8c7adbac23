use sitebuild::address::hex_string;
use sitebuild::cleanup::cache_files_to_remove;
use sitebuild::input_file::{InputFile, InputFileMeta};
use sitebuild::page::{convert_datetime, DateTimeParts, PageError, TomlDate, TomlDatetime, TomlTime};
use sitebuild::publish::{
    asset_file, base_path, base_relative_href, output_for, render_page, resolve_href,
    route_relative_href, route_url, sri_hash, template_path, Output, PublishError, Resolution,
};
use sitebuild::route::RouteTable;

const BASE: &str = "https://example.com/";

fn file(logical_path: &str, contents: Option<&[u8]>) -> InputFile {
    InputFile {
        id: format!("id,{logical_path}"),
        logical_path: logical_path.to_string(),
        contents_hash: vec![0xab; 32],
        contents: contents.map(|c| c.to_vec()),
    }
}

#[test]
fn base_path_strips_slash_and_refuses_parent() {
    assert_eq!(None, base_path("../x"));
    assert_eq!(Some("a/b".to_string()), base_path("/a/b"));
    assert_eq!(Some("a/b".to_string()), base_path("a/b"));
}

#[test]
fn relative_hrefs_resolve_below_base() {
    let page = "https://example.com/blog/index.html";
    assert_eq!(Some("style.css".to_string()), base_relative_href(BASE, page, "../style.css"));
    assert_eq!(Some("blog/next.html".to_string()), base_relative_href(BASE, page, "next.html"));
    assert_eq!(Some("a/b.html".to_string()), base_relative_href(BASE, page, "/a/b.html"));
    assert_eq!(None, base_relative_href(BASE, page, "https://other.org/x"));
    let sub = "https://example.com/sub/";
    assert_eq!(None, base_relative_href(sub, "https://example.com/sub/a.html", "../up.html"));
}

#[test]
fn route_urls() {
    assert_eq!(Ok("https://example.com/blog/a.html".to_string()), route_url(BASE, "blog/a.html"));
    assert_eq!(Err(PublishError::Url), route_url("not a url", "a.html"));
    assert_eq!(
        Ok(Some("../style.1.css".to_string())),
        route_relative_href(BASE, "https://example.com/blog/index.html", "style.1.css")
    );
    assert_eq!(Err(PublishError::Url), route_relative_href("::", "https://example.com/", "a"));
}

#[test]
fn links_resolve_against_routes_and_assets() {
    let mut routes = RouteTable::new(1);
    routes.add("index.html", "id-index").unwrap();
    routes.add("style.abc.css", "id-style").unwrap();
    let files = vec![InputFileMeta {
        id: "id-style".to_string(),
        logical_path: "assets/style.css".to_string(),
        contents_hash: vec![1, 2],
    }];
    let page = "https://example.com/index.html";

    match resolve_href(&routes, &files, BASE, page, "index.html").unwrap() {
        Resolution::Route { input_file_id } => assert_eq!("id-index", input_file_id),
        other => panic!("unexpected {other:?}"),
    }
    match resolve_href(&routes, &files, BASE, page, "style.css").unwrap() {
        Resolution::Asset { input_file_id, href } => {
            assert_eq!("id-style", input_file_id);
            assert_eq!(Some("style.abc.css".to_string()), href);
        }
        other => panic!("unexpected {other:?}"),
    }
    assert!(matches!(
        resolve_href(&routes, &files, BASE, page, "missing.html").unwrap(),
        Resolution::Missing
    ));
    assert!(matches!(
        resolve_href(&routes, &files, BASE, page, "https://elsewhere.org/").unwrap(),
        Resolution::Untouched
    ));
    assert_eq!("id-style", asset_file(&files, "style.css").unwrap().id);
    assert!(asset_file(&files, "other.css").is_none());
}

#[test]
fn integrity_of_empty_file() {
    assert_eq!(
        "sha384-OLBgp1GsljhM2TJ+sbHjaiH9txEUvgdDTAzHv2P24donTt6/529l+9Ua0vFImLlb",
        sri_hash(b"")
    );
    assert_ne!(sri_hash(b""), sri_hash(b"a"));
}

#[test]
fn rendering_a_page() {
    let page = b"+++\ntemplate = \"t.hbs\"\n+++\n# Title\n";
    assert_eq!(
        Ok("<main><h1>Title</h1>\n</main>".to_string()),
        render_page(page, 27, b"<main>{{{content}}}</main>")
    );
    assert_eq!(Ok("<p>x</p>\n".to_string()), render_page(b"x", 0, b"{{content}}"));
    assert_eq!(Err(PublishError::BadOffset), render_page(b"x", 2, b""));
    assert_eq!(Err(PublishError::BadOffset), render_page(b"x", -1, b""));
    assert_eq!(Err(PublishError::NotUtf8), render_page(&[0xff], 0, b""));
    assert_eq!(Err(PublishError::Template), render_page(b"x", 0, b"{{#if}}"));
}

#[test]
fn output_per_role() {
    assert!(matches!(output_for(&file("content/a.md", Some(b"x"))), Ok(Output::RenderPage)));
    assert_eq!(
        PublishError::ContentNotInline,
        output_for(&file("content/a.md", None)).unwrap_err()
    );
    assert!(matches!(output_for(&file("static/a.html", Some(b"x"))), Ok(Output::RewriteHtml)));
    assert!(matches!(output_for(&file("assets/a.hbs", Some(b"x"))), Ok(Output::WriteInline)));
    match output_for(&file("static/a.txt", None)).unwrap() {
        Output::CopyCached { cache_file_name } => {
            assert_eq!(hex_string(&[0xab; 32]), cache_file_name)
        }
        other => panic!("unexpected {other:?}"),
    }
    assert!(matches!(output_for(&file("templates/t.hbs", Some(b"x"))), Ok(Output::Nothing)));
    assert_eq!(PublishError::UnknownFile, output_for(&file("x/y", None)).unwrap_err());
    assert_eq!("templates/base.hbs", template_path("base.hbs"));
}

#[test]
fn cleanup_removes_only_stored_files() {
    let files = vec![
        file("static/a.txt", None),
        file("content/a.md", Some(b"x")),
        InputFile { contents_hash: vec![0x01], ..file("static/b.txt", None) },
    ];
    assert_eq!(vec![hex_string(&[0xab; 32]), "01".to_string()], cache_files_to_remove(&files));
}

#[test]
fn datetimes_with_offsets() {
    let now = DateTimeParts { year: 2000, month: 1, day: 1, hour: 12, minute: 0, second: 0, nanosecond: 0 };
    let date_only = TomlDatetime {
        date: Some(TomlDate { year: 1970, month: 1, day: 2 }),
        time: None,
        offset_minutes: Some(0),
    };
    assert_eq!(86400 + 12 * 3600, convert_datetime(date_only, now).unwrap().seconds);
    let time_only = TomlDatetime {
        date: None,
        time: Some(TomlTime { hour: 1, minute: 30, second: None, nanosecond: Some(5) }),
        offset_minutes: Some(60),
    };
    let t = convert_datetime(time_only, now).unwrap();
    assert_eq!(946684800 + 1800, t.seconds);
    assert_eq!(5, t.nanos);
    let impossible = TomlDatetime {
        date: Some(TomlDate { year: 2023, month: 2, day: 30 }),
        time: None,
        offset_minutes: Some(0),
    };
    assert_eq!(Err(PageError::Datetime), convert_datetime(impossible, now));
}
