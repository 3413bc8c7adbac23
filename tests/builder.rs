use sitebuild::address::{content_hash, hex_string, input_file_id};
use sitebuild::asset::{process, Metadata};
use sitebuild::builder::{check_cached_length, record, BuildError, FileRecord};
use sitebuild::content::Error;
use sitebuild::input_file::{ty, InputFile, Ty};
use sitebuild::page::{new_page, DateTimeParts, PageError};
use sitebuild::publish::render_page;
use sitebuild::route::RouteTable;

fn meta(logical_path: &str) -> Metadata {
    Metadata {
        disk_path: format!("/site/{logical_path}"),
        logical_path: logical_path.to_string(),
        size: 0,
    }
}

fn record_file(logical_path: &str, contents: &[u8]) -> Result<FileRecord, BuildError> {
    record(process(meta(logical_path), contents.to_vec()))
}

fn now() -> DateTimeParts {
    DateTimeParts { year: 2024, month: 5, day: 6, hour: 7, minute: 8, second: 9, nanosecond: 0 }
}

#[test]
fn hex_is_two_lowercase_digits_per_byte() {
    assert_eq!("00ab0f7f", hex_string(&[0x00, 0xab, 0x0f, 0x7f]));
    assert_eq!("", hex_string(&[]));
}

#[test]
fn content_hash_covers_path_slash_and_bytes() {
    let h = content_hash(b"static/a.txt", b"hello");
    assert_eq!(blake3::hash(b"static/a.txt/hello").as_bytes().to_vec(), h);
    assert_ne!(h, content_hash(b"static/b.txt", b"hello"));
}

#[test]
fn input_file_id_is_hex_comma_path() {
    assert_eq!("0aff,content/a.md", input_file_id(&[0x0a, 0xff], "content/a.md"));
}

#[test]
fn classification_by_top_level_directory() {
    assert!(matches!(ty("assets/site.css"), Ty::Asset("site.css")));
    assert!(matches!(ty("content/index.md"), Ty::Content("index.md")));
    assert!(matches!(ty("static/foo.txt"), Ty::Static("foo.txt")));
    assert!(matches!(ty("templates/base.hbs"), Ty::Template("base.hbs")));
    assert!(matches!(ty("other/x"), Ty::Unknown));
    assert!(ty("assets/a/Site.CSS").is_stylesheet());
    assert!(!ty("static/site.css").is_stylesheet());
    assert!(ty("static/page.HTML").is_html());
    assert!(!ty("content/page.html").is_html());
}

#[test]
fn inline_extensions() {
    assert!(meta("templates/base.hbs").is_inline());
    assert!(meta("content/a.MD").is_inline());
    assert!(meta("static/a.html").is_inline());
    assert!(!meta("static/foo.txt").is_inline());
    assert!(!meta("assets/site.css").is_inline());
    assert!(!meta("static/.md").is_inline());
}

#[test]
fn content_page_scenario() {
    let page = "+++\ntitle = \"Hi\"\ntemplate = \"base.hbs\"\n+++\nHello.";
    let rec = record_file("content/index.md", page.as_bytes()).unwrap();
    assert_eq!(Some("index.html".to_string()), rec.route);
    assert!(rec.is_inline);
    assert_eq!(None, rec.cache_file_name);
    let source = rec.page.clone().unwrap();
    assert_eq!(Some("title = \"Hi\"\ntemplate = \"base.hbs\"".to_string()), source.front_matter);
    assert_eq!(43, source.offset);

    let row = new_page(&rec.input_file_id, &source, now()).unwrap();
    assert_eq!(Some("Hi".to_string()), row.title);
    assert_eq!(Some("base.hbs".to_string()), row.template);
    assert!(!row.draft);
    assert_eq!(None, row.date);

    let template = record_file("templates/base.hbs", b"{{content}}").unwrap();
    assert_eq!(None, template.route);
    let html = render_page(&rec.contents, row.offset, &template.contents).unwrap();
    assert_eq!("<p>Hello.</p>\n", html);
}

#[test]
fn unchanged_file_gets_the_same_row_twice() {
    let first = record_file("static/foo.txt", b"same bytes").unwrap();
    let second = record_file("static/foo.txt", b"same bytes").unwrap();
    assert_eq!(first.input_file_id, second.input_file_id);
    assert_eq!(first.contents_hash, second.contents_hash);
    let moved = record_file("static/bar.txt", b"same bytes").unwrap();
    assert_ne!(first.input_file_id, moved.input_file_id);
}

#[test]
fn static_file_goes_to_content_store() {
    let bytes = b"plain text file\n";
    let rec = record_file("static/foo.txt", bytes).unwrap();
    assert!(!rec.is_inline);
    let name = rec.cache_file_name.clone().unwrap();
    assert_eq!(64, name.len());
    assert_eq!(hex_string(&rec.contents_hash), name);
    assert_eq!(bytes.len(), rec.contents.len());
    assert_eq!(Some("foo.txt".to_string()), rec.route);
    assert!(rec.new_input_file().contents.is_none());
    assert_eq!(Ok(()), check_cached_length(rec.contents.len(), bytes.len() as u64));
    assert_eq!(Err(BuildError::CacheMismatch), check_cached_length(rec.contents.len(), 3));

    let row = InputFile {
        id: rec.input_file_id.clone(),
        logical_path: rec.logical_path.clone(),
        contents_hash: rec.contents_hash.clone(),
        contents: None,
    };
    assert_eq!(Some(name), row.cache_file_name());
}

#[test]
fn inline_file_keeps_its_bytes() {
    let rec = record_file("static/page.html", b"<a href=\"x\">x</a>").unwrap();
    assert!(rec.is_inline);
    assert_eq!(None, rec.cache_file_name);
    assert_eq!(Some(&b"<a href=\"x\">x</a>"[..]), rec.new_input_file().contents);
}

#[test]
fn stylesheet_is_minified_before_hashing() {
    let original = b"body {\n    color: red;\n}\n";
    let rec = record_file("assets/style.css", original).unwrap();
    assert!(rec.contents.len() < original.len());
    let hash = content_hash(b"assets/style.css", &rec.contents);
    assert_eq!(hash, rec.contents_hash);
    assert_ne!(content_hash(b"assets/style.css", original), rec.contents_hash);
    assert_eq!(Some(format!("style.{}.css", hex_string(&hash))), rec.route);
    assert!(!rec.is_inline);
}

#[test]
fn stylesheet_in_subdirectory_keeps_directory() {
    let rec = record_file("assets/css/Site.CSS", b"a { color: blue }").unwrap();
    let hex = hex_string(&rec.contents_hash);
    assert_eq!(Some(format!("css/Site.{hex}.css")), rec.route);
}

#[test]
fn routes_by_role() {
    assert_eq!(Some("img/a.png".to_string()), record_file("assets/img/a.png", b"\x89PNG").unwrap().route);
    assert_eq!(None, record_file("content/notes.txt", b"x").unwrap().route);
    assert_eq!(Some("docs/a.html".to_string()), record_file("content/docs/a.md", b"# A").unwrap().route);
}

#[test]
fn record_errors() {
    assert_eq!(BuildError::UnknownFile, record_file("elsewhere/a.md", b"x").unwrap_err());
    assert_eq!(BuildError::NotUtf8, record_file("assets/bad.css", &[0xff, 0xfe]).unwrap_err());
    assert_eq!(BuildError::NotUtf8, record_file("content/bad.md", &[0xff, 0xfe]).unwrap_err());
    assert_eq!(
        BuildError::FrontMatter(Error::InvalidStartMarker),
        record_file("content/a.md", b"++\nx\n++\nbody").unwrap_err()
    );
    assert_eq!(
        BuildError::FrontMatter(Error::Eof),
        record_file("content/a.md", b"+++\nx = 1\n").unwrap_err()
    );
}

#[test]
fn page_errors_and_defaults() {
    let bad = record_file("content/a.md", b"+++\nthis is not toml\n+++\nbody").unwrap();
    assert_eq!(PageError::Toml, new_page("id", bad.page.as_ref().unwrap(), now()).unwrap_err());

    let plain = record_file("content/b.md", b"Just text.").unwrap();
    let source = plain.page.clone().unwrap();
    assert_eq!(None, source.front_matter);
    assert_eq!(0, source.offset);
    let row = new_page("id", &source, now()).unwrap();
    assert_eq!(None, row.title);
    assert!(!row.draft);

    let bad_date = record_file("content/c.md", b"+++\ndate = 2023-02-30T00:00:00Z\n+++\nx.").unwrap();
    let result = new_page("id", bad_date.page.as_ref().unwrap(), now());
    assert!(matches!(result, Err(PageError::Toml) | Err(PageError::Datetime)));
}

#[test]
fn page_fields_from_front_matter() {
    let text = "+++\ndraft = true\ndescription = \"d\"\nkeywords = \"k\"\nsummary = \"s\"\nexcerpt = \"e\"\ndate = 1970-01-02T00:00:00Z\npublish_date = 1970-01-01T01:00:00+01:00\n+++\nx.";
    let rec = record_file("content/d.md", text.as_bytes()).unwrap();
    let row = new_page("id", rec.page.as_ref().unwrap(), now()).unwrap();
    assert!(row.draft);
    assert_eq!(Some("d".to_string()), row.description);
    assert_eq!(Some("k".to_string()), row.keywords);
    assert_eq!(Some("s".to_string()), row.summary);
    assert_eq!(Some("e".to_string()), row.excerpt);
    assert_eq!(86400, row.date.unwrap().seconds);
    assert_eq!(0, row.publish_date.unwrap().seconds);
    assert_eq!(None, row.expiry_date);
}

#[test]
fn route_table_refuses_duplicates() {
    let mut table = RouteTable::new(7);
    assert_eq!(Ok(()), table.add("a.html", "id-a"));
    assert_eq!(Ok(()), table.add("b.html", "id-a"));
    assert_eq!(Err(BuildError::DuplicateRoute), table.add("a.html", "id-b"));
    assert_eq!(2, table.routes().len());
    assert_eq!("id-a", table.lookup("a.html").unwrap().input_file_id);
    assert_eq!(7, table.lookup("b.html").unwrap().revision_id);
    assert!(table.lookup("c.html").is_none());
    assert_eq!("a.html", table.first_for_input_file("id-a").unwrap().route);
}

#[test]
fn content_and_static_page_may_collide() {
    let page = record_file("content/a.md", b"A").unwrap();
    let html = record_file("static/a.html", b"<p>A</p>").unwrap();
    let mut table = RouteTable::new(1);
    assert_eq!(Ok(()), table.add(page.route.as_deref().unwrap(), &page.input_file_id));
    assert_eq!(
        Err(BuildError::DuplicateRoute),
        table.add(html.route.as_deref().unwrap(), &html.input_file_id)
    );
}
