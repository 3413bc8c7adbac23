//! Publishing a revision: what each route's output is made of, how links
//! inside HTML are resolved against the revision's routes, and the
//! integrity hash of a referenced file.
use base64ct::{Base64, Encoding};
use handlebars::{no_escape, Handlebars};
use pulldown_cmark::{html, Options, Parser};
use sha2::{Digest, Sha384};
use url::{ParseError, Url};
use vstd::prelude::*;
use vstd::string::StringExecFns;
use vstd::utf8::valid_utf8;
use crate::address::{hex_of, hex_string};
use crate::builder::below;
use crate::input_file::{InputFile, InputFileMeta, Ty};
use crate::route::{has_route, RouteTable};
use crate::text::{equals, has_prefix, starts_with, strip_prefix, utf8_text};

verus! {

broadcast use vstd::utf8::encode_utf8_decode_utf8;

/// Why a route cannot be published.
#[derive(Debug, Clone, Copy, PartialEq, Eq, Structural)]
pub enum PublishError {
    /// A URL could not be joined.
    Url,
    /// A content page is not stored inline.
    ContentNotInline,
    /// A content page names no template.
    NoTemplate,
    /// A template is not stored inline.
    TemplateNotInline,
    /// The stored body offset lies outside the page.
    BadOffset,
    /// A page or template is not valid UTF-8.
    NotUtf8,
    /// The template could not be rendered.
    Template,
    /// The file lies outside the four source directories.
    UnknownFile,
}

/// `href` is a relative reference: it does not parse as an absolute URL
/// for want of a scheme.
pub uninterp spec fn is_relative_reference_of(href: Seq<char>) -> bool;

/// The serialization of `input` resolved against the absolute URL `base`,
/// or `None` where either does not parse.
pub uninterp spec fn url_join_of(base: Seq<char>, input: Seq<char>) -> Option<Seq<char>>;

/// The relative URL that leads from the absolute URL `base` to `target`, or
/// `None` where there is none (another scheme, host or port).
pub uninterp spec fn url_relative_of(base: Seq<char>, target: Seq<char>) -> Option<Seq<char>>;

/// Relies on `url::Url::parse`: the input lacks a scheme
/// (`ParseError::RelativeUrlWithoutBase`); depends on the input alone.
#[verifier::external_body]
fn is_relative_reference(href: &str) -> (r: bool)
    ensures
        r == is_relative_reference_of(href@),
{
    match Url::parse(href) {
        Err(ParseError::RelativeUrlWithoutBase) => true,
        _ => false,
    }
}

/// Relies on `url::Url::join`, after parsing `base`: the serialized result;
/// depends on the inputs alone.
#[verifier::external_body]
fn join_url(base: &str, input: &str) -> (r: Option<String>)
    ensures
        r matches Some(u) ==> url_join_of(base@, input@) == Some(u@),
        r is None ==> url_join_of(base@, input@) is None,
{
    let base = Url::parse(base).ok()?;
    base.join(input).ok().map(String::from)
}

/// Relies on `url::Url::make_relative`, after parsing both URLs; depends on
/// the inputs alone.
#[verifier::external_body]
fn make_relative_url(base: &str, target: &str) -> (r: Option<String>)
    ensures
        r matches Some(u) ==> url_relative_of(base@, target@) == Some(u@),
        r is None ==> url_relative_of(base@, target@) is None,
{
    let base = Url::parse(base).ok()?;
    let target = Url::parse(target).ok()?;
    base.make_relative(&target)
}

/// A path relative to the base URL, from the relative URL `rel` that leads
/// there: `None` where it climbs above the base (`../`), a leading `/`
/// dropped.
pub open spec fn base_path_of(rel: Seq<char>) -> Option<Seq<char>> {
    if has_prefix(rel, "../"@) {
        None
    } else if has_prefix(rel, "/"@) {
        Some(rel.drop_first())
    } else {
        Some(rel)
    }
}

/// The path below the base URL that `href`, found on the page at
/// `route_abs_url`, refers to: only for relative references that stay
/// below the base.
pub open spec fn base_relative_href_of(
    base_url: Seq<char>,
    route_abs_url: Seq<char>,
    href: Seq<char>,
) -> Option<Seq<char>> {
    if !is_relative_reference_of(href) {
        None
    } else {
        match url_join_of(route_abs_url, href) {
            None => None,
            Some(target) => match url_relative_of(base_url, target) {
                None => None,
                Some(rel) => base_path_of(rel),
            },
        }
    }
}

/// The path below the base for the relative URL `rel` (see `base_path_of`).
pub fn base_path(rel: &str) -> (r: Option<String>)
    ensures
        r matches Some(p) ==> base_path_of(rel@) == Some(p@),
        r is None ==> base_path_of(rel@) is None,
{
    if starts_with(rel, "../") {
        return None;
    }
    match strip_prefix(rel, "/") {
        Some(rest) => {
            proof {
                reveal_strlit("/");
            }
            assert(rest@ =~= rel@.drop_first());
            Some(String::from_str(rest))
        },
        None => Some(String::from_str(rel)),
    }
}

/// The path below `base_url` that `href`, on the page at `route_abs_url`,
/// refers to (see `base_relative_href_of`).
pub fn base_relative_href(base_url: &str, route_abs_url: &str, href: &str) -> (r: Option<String>)
    ensures
        r matches Some(p) ==> base_relative_href_of(base_url@, route_abs_url@, href@) == Some(p@),
        r is None ==> base_relative_href_of(base_url@, route_abs_url@, href@) is None,
{
    if !is_relative_reference(href) {
        return None;
    }
    let target = match join_url(route_abs_url, href) {
        Some(t) => t,
        None => return None,
    };
    let rel = match make_relative_url(base_url, target.as_str()) {
        Some(rel) => rel,
        None => return None,
    };
    base_path(rel.as_str())
}

/// The href that leads from the page at `route_abs_url` to the route `path`
/// below `base_url`; an error where the two cannot be joined.
pub fn route_relative_href(base_url: &str, route_abs_url: &str, path: &str) -> (r: Result<
    Option<String>,
    PublishError,
>)
    ensures
        url_join_of(base_url@, path@) is None ==> r == Err::<Option<String>, PublishError>(
            PublishError::Url,
        ),
        url_join_of(base_url@, path@) matches Some(target) ==> (r matches Ok(h) && (match h {
            Some(h) => url_relative_of(route_abs_url@, target) == Some(h@),
            None => url_relative_of(route_abs_url@, target) is None,
        })),
{
    match join_url(base_url, path) {
        Some(target) => Ok(make_relative_url(route_abs_url, target.as_str())),
        None => Err(PublishError::Url),
    }
}

/// The absolute URL of a route: the route joined to the base URL.
pub fn route_url(base_url: &str, route: &str) -> (r: Result<String, PublishError>)
    ensures
        url_join_of(base_url@, route@) matches Some(u) ==> (r matches Ok(x) && x@ == u),
        url_join_of(base_url@, route@) is None ==> r == Err::<String, PublishError>(
            PublishError::Url,
        ),
{
    match join_url(base_url, route) {
        Some(u) => Ok(u),
        None => Err(PublishError::Url),
    }
}

/// What a link on a published page refers to.
#[derive(Debug)]
pub enum Resolution {
    /// Nothing to do: not a relative reference below the base, or an asset
    /// that no route serves.
    Untouched,
    /// A route of the revision, served by this input file.
    Route { input_file_id: String },
    /// An asset given by its logical path below `assets/`, served by this
    /// input file at another route; `href` leads there from the page.
    Asset { input_file_id: String, href: Option<String> },
    /// Neither a route nor an asset of the revision.
    Missing,
}

/// Some file of `files` has the logical path `assets/` followed by `path`.
pub open spec fn names_asset(files: Seq<InputFileMeta>, path: Seq<char>) -> bool {
    exists|i: int| 0 <= i < files.len() && files[i].logical_path@ == "assets/"@ + path
}

/// `h` is the href that leads from the page at `route_abs_url` to `route`.
pub open spec fn leads_to(
    base_url: Seq<char>,
    route_abs_url: Seq<char>,
    route: Seq<char>,
    h: Option<String>,
) -> bool {
    url_join_of(base_url, route) matches Some(target) && match h {
        Some(h) => url_relative_of(route_abs_url, target) == Some(h@),
        None => url_relative_of(route_abs_url, target) is None,
    }
}

/// `r` is how `href` resolves against `routes` and `files` (see `resolve_href`).
pub open spec fn resolves_as(
    routes: Seq<(Seq<char>, Seq<char>)>,
    files: Seq<InputFileMeta>,
    base_url: Seq<char>,
    route_abs_url: Seq<char>,
    href: Seq<char>,
    r: Result<Resolution, PublishError>,
) -> bool {
    match base_relative_href_of(base_url, route_abs_url, href) {
        None => r matches Ok(Resolution::Untouched),
        Some(path) => if has_route(routes, path) {
            r matches Ok(Resolution::Route { input_file_id }) && routes.contains(
                (path, input_file_id@),
            )
        } else if !names_asset(files, path) {
            r matches Ok(Resolution::Missing)
        } else {
            match r {
                Ok(Resolution::Asset { input_file_id, href: h }) => asset_link(
                    routes,
                    files,
                    base_url,
                    route_abs_url,
                    path,
                    input_file_id@,
                    h,
                ),
                Ok(Resolution::Untouched) => true,
                Err(e) => e == PublishError::Url,
                _ => false,
            }
        },
    }
}

/// `input_file_id` is a file at `assets/<path>` that some route serves, and
/// `h` the href that leads from the page to that route.
pub open spec fn asset_link(
    routes: Seq<(Seq<char>, Seq<char>)>,
    files: Seq<InputFileMeta>,
    base_url: Seq<char>,
    route_abs_url: Seq<char>,
    path: Seq<char>,
    input_file_id: Seq<char>,
    h: Option<String>,
) -> bool {
    &&& exists|i: int|
        0 <= i < files.len() && files[i].logical_path@ == "assets/"@ + path && files[i].id@
            == input_file_id
    &&& exists|route: Seq<char>|
        #[trigger] routes.contains((route, input_file_id)) && leads_to(
            base_url,
            route_abs_url,
            route,
            h,
        )
}

/// The first file of `files` whose logical path is `assets/` followed by `name`.
pub fn asset_file<'a>(files: &'a Vec<InputFileMeta>, name: &str) -> (r: Option<&'a InputFileMeta>)
    ensures
        r is None <==> !(exists|i: int| 0 <= i < files@.len() && files@[i].logical_path@ == "assets/"@ + name@),
        r matches Some(f) ==> exists|i: int| 0 <= i < files@.len() && files@[i] == *f
            && f.logical_path@ == "assets/"@ + name@
            && forall|j: int| 0 <= j < i ==> files@[j].logical_path@ != "assets/"@ + name@,
{
    let mut i: usize = 0;
    while i < files.len()
        invariant
            i <= files@.len(),
            forall|j: int| 0 <= j < i ==> files@[j].logical_path@ != "assets/"@ + name@,
        decreases files@.len() - i,
    {
        let f = &files[i];
        match strip_prefix(f.logical_path.as_str(), "assets/") {
            Some(rest) => {
                if equals(rest, name) {
                    return Some(f);
                }
                proof {
                    let lp = f.logical_path@;
                    assert(lp.subrange("assets/"@.len() as int, lp.len() as int) =~= rest@);
                    if lp == "assets/"@ + name@ {
                        assert(lp.subrange("assets/"@.len() as int, lp.len() as int) =~= name@);
                    }
                }
            },
            None => {
                proof {
                    let lp = f.logical_path@;
                    if lp == "assets/"@ + name@ {
                        assert(lp.subrange(0, "assets/"@.len() as int) =~= "assets/"@);
                    }
                }
            },
        }
        i = i + 1;
    }
    None
}

/// Resolves `href`, found on the page at `route_abs_url`, against the
/// revision's routes and files. A path below the base that is a route is
/// that route; otherwise a path that names an asset (`assets/<path>`)
/// resolves to that asset's first route, with an href that leads there.
pub fn resolve_href(
    routes: &RouteTable,
    files: &Vec<InputFileMeta>,
    base_url: &str,
    route_abs_url: &str,
    href: &str,
) -> (r: Result<Resolution, PublishError>)
    requires
        routes.wf(),
    ensures
        resolves_as(routes@, files@, base_url@, route_abs_url@, href@, r),
{
    let path = match base_relative_href(base_url, route_abs_url, href) {
        Some(path) => path,
        None => return Ok(Resolution::Untouched),
    };
    if let Some(route) = routes.lookup(path.as_str()) {
        return Ok(Resolution::Route { input_file_id: String::from_str(route.input_file_id.as_str()) });
    }
    let asset = match asset_file(files, path.as_str()) {
        Some(asset) => asset,
        None => return Ok(Resolution::Missing),
    };
    match routes.first_for_input_file(asset.id.as_str()) {
        Some(route) => {
            let link = match route_relative_href(base_url, route_abs_url, route.route.as_str()) {
                Ok(h) => h,
                Err(e) => return Err(e),
            };
            let input_file_id = String::from_str(asset.id.as_str());
            proof {
                let i = choose|i: int| 0 <= i < files@.len() && files@[i] == *asset
                    && asset.logical_path@ == "assets/"@ + path@;
                assert(files@[i].id@ == input_file_id@);
                assert(routes@.contains((route.route@, input_file_id@)));
            }
            Ok(Resolution::Asset { input_file_id, href: link })
        },
        None => {
            assert(names_asset(files@, path@));
            Ok(Resolution::Untouched)
        },
    }
}

/// The SHA-384 digest of `b` (48 bytes).
pub uninterp spec fn sha384_of(b: Seq<u8>) -> Seq<u8>;

/// Standard base64 (with padding) of `b`.
pub uninterp spec fn base64_of(b: Seq<u8>) -> Seq<char>;

/// Relies on `sha2::Sha384`: the digest of the input, 48 bytes.
#[verifier::external_body]
fn sha384(b: &[u8]) -> (r: Vec<u8>)
    ensures
        r@ == sha384_of(b@),
        r@.len() == 48,
{
    Sha384::digest(b).to_vec()
}

/// Relies on `base64ct::Base64::encode_string`: standard padded base64.
#[verifier::external_body]
fn base64_encode(b: &[u8]) -> (r: String)
    ensures
        r@ == base64_of(b@),
{
    Base64::encode_string(b)
}

/// The subresource-integrity value of bytes `b`: `sha384-` and the base64
/// of their SHA-384 digest.
pub open spec fn sri_of(b: Seq<u8>) -> Seq<char> {
    "sha384-"@ + base64_of(sha384_of(b))
}

/// The subresource-integrity value of a file with bytes `contents`.
pub fn sri_hash(contents: &[u8]) -> (r: String)
    ensures
        r@ == sri_of(contents@),
{
    let digest = sha384(contents);
    let encoded = base64_encode(digest.as_slice());
    let prefix = String::from_str("sha384-");
    prefix.concat(encoded.as_str())
}

impl InputFile {
    /// The integrity value of this file: over its inline bytes, or else over
    /// `stored`, the bytes of its content-store file.
    pub fn sri_hash(&self, stored: &[u8]) -> (r: String)
        ensures
            self.contents matches Some(c) ==> r@ == sri_of(c@),
            self.contents is None ==> r@ == sri_of(stored@),
    {
        match &self.contents {
            Some(c) => sri_hash(c.as_slice()),
            None => sri_hash(stored),
        }
    }
}

/// The HTML that Markdown `text` renders to (CommonMark, no extensions).
pub uninterp spec fn markdown_html_of(text: Seq<char>) -> Seq<char>;

/// What the Handlebars template `template` renders to with `content` bound,
/// unescaped, to the variable `content`; `None` where it does not compile or
/// render.
pub uninterp spec fn template_render_of(template: Seq<char>, content: Seq<char>) -> Option<
    Seq<char>,
>;

/// Relies on pulldown-cmark: `Parser::new_ext` with no options and
/// `html::push_html`; depends on the input alone.
#[verifier::external_body]
fn markdown_to_html(text: &str) -> (r: String)
    ensures
        r@ == markdown_html_of(text@),
{
    let mut out = String::new();
    html::push_html(&mut out, Parser::new_ext(text, Options::empty()));
    out
}

/// Relies on handlebars: `render_template` on a registry with `no_escape`
/// as its escape function (the body is HTML already), with a JSON object
/// holding `content`; depends on the inputs alone.
#[verifier::external_body]
fn render_template(template: &str, content: &str) -> (r: Option<String>)
    ensures
        r matches Some(x) ==> template_render_of(template@, content@) == Some(x@),
        r is None ==> template_render_of(template@, content@) is None,
{
    let mut data = serde_json::Map::new();
    data.insert(String::from("content"), serde_json::Value::String(String::from(content)));
    let mut registry = Handlebars::new();
    registry.register_escape_fn(no_escape);
    registry.render_template(template, &serde_json::Value::Object(data)).ok()
}

/// The published HTML of a content page with stored bytes `page`, whose
/// body starts at byte `offset`, through the template with bytes
/// `template`: the body rendered from Markdown and bound as `content`.
pub open spec fn rendered_page_of(page: Seq<u8>, offset: int, template: Seq<u8>) -> Option<
    Seq<char>,
> {
    let body = page.subrange(offset, page.len() as int);
    template_render_of(
        vstd::utf8::decode_utf8(template),
        markdown_html_of(vstd::utf8::decode_utf8(body)),
    )
}

/// Renders a content page (see `rendered_page_of`).
pub fn render_page(page: &[u8], offset: i64, template: &[u8]) -> (r: Result<String, PublishError>)
    ensures
        (offset < 0 || offset > page@.len()) ==> r == Err::<String, PublishError>(
            PublishError::BadOffset,
        ),
        0 <= offset <= page@.len() ==> {
            let body = page@.subrange(offset as int, page@.len() as int);
            if !valid_utf8(template@) || !valid_utf8(body) {
                r == Err::<String, PublishError>(PublishError::NotUtf8)
            } else {
                match rendered_page_of(page@, offset as int, template@) {
                    Some(html) => r matches Ok(x) && x@ == html,
                    None => r == Err::<String, PublishError>(PublishError::Template),
                }
            }
        },
{
    if offset < 0 || offset as u64 > page.len() as u64 {
        return Err(PublishError::BadOffset);
    }
    let start = offset as usize;
    let template = match utf8_text(template) {
        Some(t) => t,
        None => return Err(PublishError::NotUtf8),
    };
    let body = slice_from(page, start);
    let body = match utf8_text(body) {
        Some(b) => b,
        None => return Err(PublishError::NotUtf8),
    };
    let html = markdown_to_html(body);
    match render_template(template, html.as_str()) {
        Some(out) => Ok(out),
        None => Err(PublishError::Template),
    }
}

/// Bytes `start..` of `b`.
fn slice_from(b: &[u8], start: usize) -> (r: &[u8])
    requires
        start <= b@.len(),
    ensures
        r@ == b@.subrange(start as int, b@.len() as int),
{
    vstd::slice::slice_subrange(b, start, b.len())
}

/// What publishing writes for a route.
#[derive(Debug)]
pub enum Output {
    /// A content page: Markdown body through its template, links rewritten.
    RenderPage,
    /// An inline HTML file, links rewritten.
    RewriteHtml,
    /// Inline bytes, written as they are.
    WriteInline,
    /// A copy of the content-store file with this name.
    CopyCached { cache_file_name: String },
    /// Nothing: templates are not served.
    Nothing,
}

/// Whether `r` is what publishing writes for a file at `p`, with inline
/// bytes or not, whose content hash is `hash`.
pub open spec fn output_of(p: Seq<char>, inline: bool, hash: Seq<u8>, r: Result<Output, PublishError>) -> bool {
    if has_prefix(p, "assets/"@) || has_prefix(p, "static/"@) {
        let dir = if has_prefix(p, "assets/"@) { "assets/"@ } else { "static/"@ };
        if !inline {
            r matches Ok(Output::CopyCached { cache_file_name }) && cache_file_name@ == hex_of(hash)
        } else if crate::text::has_extension(below(p, dir), "html"@) {
            r matches Ok(Output::RewriteHtml)
        } else {
            r matches Ok(Output::WriteInline)
        }
    } else if has_prefix(p, "content/"@) {
        if inline {
            r matches Ok(Output::RenderPage)
        } else {
            r == Err::<Output, PublishError>(PublishError::ContentNotInline)
        }
    } else if has_prefix(p, "templates/"@) {
        r matches Ok(Output::Nothing)
    } else {
        r == Err::<Output, PublishError>(PublishError::UnknownFile)
    }
}

/// What publishing writes for a route served by `file`.
pub fn output_for(file: &InputFile) -> (r: Result<Output, PublishError>)
    ensures
        output_of(file.logical_path@, file.contents is Some, file.contents_hash@, r),
{
    proof {
        crate::builder::lemma_dirs_differ();
    }
    let t = file.ty();
    let ghost p = file.logical_path@;
    match t {
        Ty::Content(_) => {
            if file.contents.is_some() {
                Ok(Output::RenderPage)
            } else {
                Err(PublishError::ContentNotInline)
            }
        },
        Ty::Asset(_) | Ty::Static(_) => {
            if file.contents.is_none() {
                return Ok(Output::CopyCached { cache_file_name: hex_string(file.contents_hash.as_slice()) });
            }
            let html = t.is_html();
            proof {
                if let Ty::Asset(rest) = t {
                    assert(below(p, "assets/"@) =~= rest@);
                }
                if let Ty::Static(rest) = t {
                    assert(below(p, "static/"@) =~= rest@);
                }
            }
            if html {
                Ok(Output::RewriteHtml)
            } else {
                Ok(Output::WriteInline)
            }
        },
        Ty::Template(_) => Ok(Output::Nothing),
        Ty::Unknown => Err(PublishError::UnknownFile),
    }
}

/// The logical path of the template named `name`: `templates/<name>`.
pub fn template_path(name: &str) -> (r: String)
    ensures
        r@ == "templates/"@ + name@,
{
    String::from_str("templates/").concat(name)
}

} // verus!
