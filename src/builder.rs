//! Assembling a revision: what each hashed file contributes to it (its
//! recorded bytes, input-file row, content-store name, route and page).
use lightningcss::stylesheet::{MinifyOptions, ParserOptions, PrinterOptions, StyleSheet};
use vstd::prelude::*;
use vstd::string::{StrSliceExecFns, StringExecFns, StringSliceAdditionalSpecFns};
use vstd::utf8::{decode_utf8, encode_utf8, valid_utf8};
use crate::address::{hex_of, hex_string, input_file_id, input_file_id_of};
use crate::asset::{asset_hash, Asset};
use crate::content::{self, front_matter_outcome, parse, Outcome};
use crate::input_file::{is_inline_path, ty, Ty};
use crate::text::{
    extension, extension_is, extension_of, has_extension, has_prefix, has_suffix, strip_suffix,
    substring, utf8_text,
};

verus! {

/// Why an asset cannot be recorded.
#[derive(Debug, Clone, Copy, PartialEq, Eq, Structural)]
pub enum BuildError {
    /// The file lies outside `assets/`, `content/`, `static/` and `templates/`.
    UnknownFile,
    /// A stylesheet or a content page is not valid UTF-8.
    NotUtf8,
    /// A stylesheet could not be parsed or minified.
    Stylesheet,
    /// A content page has malformed front matter.
    FrontMatter(content::Error),
    /// Two files of one revision claim the same route.
    DuplicateRoute,
    /// A content-store file differs in length from the bytes it should hold.
    CacheMismatch,
}

/// The minified form of the stylesheet `css`, or `None` where it does not parse.
pub uninterp spec fn minified_css_of(css: Seq<char>) -> Option<Seq<char>>;

/// Relies on lightningcss: parses a stylesheet, minifies it with default
/// options and prints it; the output depends on the input alone.
#[verifier::external_body]
fn minify_css(css: &str) -> (r: Option<String>)
    ensures
        r matches Some(m) ==> minified_css_of(css@) == Some(m@),
        r is None ==> minified_css_of(css@) is None,
{
    let mut sheet = StyleSheet::parse(css, ParserOptions::default()).ok()?;
    sheet.minify(MinifyOptions::default()).ok()?;
    Some(sheet.to_css(PrinterOptions::default()).ok()?.code)
}

/// The part of `p` below the top-level directory `dir`.
pub open spec fn below(p: Seq<char>, dir: Seq<char>) -> Seq<char> {
    p.subrange(dir.len() as int, p.len() as int)
}

/// The logical path lies under one of the four source directories.
pub open spec fn is_known_path(p: Seq<char>) -> bool {
    has_prefix(p, "assets/"@) || has_prefix(p, "content/"@) || has_prefix(p, "static/"@)
        || has_prefix(p, "templates/"@)
}

/// The logical path names a stylesheet: a `.css` file (any case) under `assets/`.
pub open spec fn is_stylesheet_path(p: Seq<char>) -> bool {
    has_prefix(p, "assets/"@) && has_extension(below(p, "assets/"@), "css"@)
}

/// The logical path names a content page: a `.md` file under `content/`.
pub open spec fn is_page_path(p: Seq<char>) -> bool {
    has_prefix(p, "content/"@) && has_suffix(
        below(p, "content/"@),
        ".md"@,
    )
}

/// Route of a stylesheet at `p` (below `assets/`) whose content hash has hex
/// `hex`: the hash goes between the stem and the extension, which becomes
/// `css` (`dir/site.<hex>.css`).
pub open spec fn css_route_of(p: Seq<char>, hex: Seq<char>) -> Seq<char> {
    p.subrange(0, p.len() - extension_of(p)->Some_0.len()) + hex + ".css"@
}

/// The route of the file at logical path `p` whose content hash has hex
/// `hex`. Assets keep their path below `assets/` (stylesheets get the hash
/// spliced in), content pages `x.md` become `x.html`, static files keep
/// their path below `static/`; templates and other content files get none.
pub open spec fn route_for(p: Seq<char>, hex: Seq<char>) -> Option<Seq<char>> {
    if has_prefix(p, "assets/"@) {
        if is_stylesheet_path(p) {
            Some(css_route_of(below(p, "assets/"@), hex))
        } else {
            Some(below(p, "assets/"@))
        }
    } else if has_prefix(p, "content/"@) {
        let rest = below(p, "content/"@);
        if has_suffix(rest, ".md"@) {
            Some(rest.subrange(0, rest.len() - 3) + ".html"@)
        } else {
            None
        }
    } else if has_prefix(p, "static/"@) {
        Some(below(p, "static/"@))
    } else {
        None
    }
}

/// The bytes that a file is recorded with: a stylesheet minified, every
/// other file unchanged. `None` where a stylesheet cannot be minified.
pub open spec fn recorded_contents(p: Seq<char>, raw: Seq<u8>) -> Option<Seq<u8>> {
    if is_stylesheet_path(p) {
        if valid_utf8(raw) {
            match minified_css_of(decode_utf8(raw)) {
                Some(m) => Some(encode_utf8(m)),
                None => None,
            }
        } else {
            None
        }
    } else {
        Some(raw)
    }
}

/// The front matter and body offset of a content page.
#[derive(Debug, Clone)]
pub struct PageSource {
    pub front_matter: Option<String>,
    pub offset: usize,
}

/// `page` is what the front-matter parser finds in the bytes `c`.
pub open spec fn page_source_of(c: Seq<u8>, page: PageSource) -> bool {
    match front_matter_outcome(c) {
        Outcome::NoFrontMatter => page.front_matter is None && page.offset == 0,
        Outcome::Split { front_matter_start, front_matter_end, contents_start } => {
            &&& (page.front_matter matches Some(f) && encode_utf8(f@) == c.subrange(
                front_matter_start as int,
                front_matter_end as int,
            ))
            &&& page.offset == contents_start
        },
        Outcome::Failed(_) => false,
    }
}

/// What one file contributes to a revision.
#[derive(Debug)]
pub struct FileRecord {
    /// Id of its input-file row: hex of the hash, `,`, logical path.
    pub input_file_id: String,
    pub logical_path: String,
    /// Hash of the logical path and the recorded bytes.
    pub contents_hash: Vec<u8>,
    /// The recorded bytes (a stylesheet minified).
    pub contents: Vec<u8>,
    /// Whether the bytes are kept in the input-file row.
    pub is_inline: bool,
    /// Content-store name for bytes that are not inline.
    pub cache_file_name: Option<String>,
    /// The route that serves the file in this revision.
    pub route: Option<String>,
    /// Front matter of a content page.
    pub page: Option<PageSource>,
}

/// What `record(asset)` returns.
pub open spec fn record_post(asset: Asset, r: Result<FileRecord, BuildError>) -> bool {
    let p = asset.meta.logical_path@;
    if !is_known_path(p) {
        r == Err::<FileRecord, BuildError>(BuildError::UnknownFile)
    } else {
        match recorded_contents(p, asset.contents@) {
            None => r == Err::<FileRecord, BuildError>(
                if valid_utf8(asset.contents@) {
                    BuildError::Stylesheet
                } else {
                    BuildError::NotUtf8
                },
            ),
            Some(c) => {
                if is_page_path(p) && !valid_utf8(c) {
                    r == Err::<FileRecord, BuildError>(BuildError::NotUtf8)
                } else if is_page_path(p) && front_matter_outcome(c) is Failed {
                    r == Err::<FileRecord, BuildError>(
                        BuildError::FrontMatter(front_matter_outcome(c)->Failed_0),
                    )
                } else {
                    let h = asset_hash(p, c);
                    &&& r is Ok
                    &&& r->Ok_0.contents@ == c
                    &&& r->Ok_0.logical_path@ == p
                    &&& r->Ok_0.contents_hash@ == h
                    &&& r->Ok_0.input_file_id@ == input_file_id_of(h, p)
                    &&& r->Ok_0.is_inline == is_inline_path(asset.meta.disk_path@)
                    &&& (r->Ok_0.is_inline ==> r->Ok_0.cache_file_name is None)
                    &&& (!r->Ok_0.is_inline ==> (r->Ok_0.cache_file_name matches Some(n) && n@
                        == hex_of(h)))
                    &&& (route_for(p, hex_of(h)) matches Some(route) ==> (r->Ok_0.route matches Some(
                        q,
                    ) && q@ == route))
                    &&& (route_for(p, hex_of(h)) is None ==> r->Ok_0.route is None)
                    &&& (is_page_path(p) ==> (r->Ok_0.page matches Some(page) && page_source_of(
                        c,
                        page,
                    )))
                    &&& (!is_page_path(p) ==> r->Ok_0.page is None)
                }
            },
        }
    }
}

broadcast use vstd::utf8::encode_utf8_decode_utf8;

/// The four source directories, as path prefixes, exclude one another.
pub(crate) proof fn lemma_dirs_differ()
    ensures
        "assets/"@.len() == 7,
        "content/"@.len() == 8,
        "static/"@.len() == 7,
        "templates/"@.len() == 10,
        ".md"@.len() == 3,
        forall|p: Seq<char>| has_prefix(p, "assets/"@) ==> !has_prefix(p, "content/"@) && !has_prefix(p, "static/"@) && !has_prefix(p, "templates/"@),
        forall|p: Seq<char>| has_prefix(p, "content/"@) ==> !has_prefix(p, "static/"@) && !has_prefix(p, "templates/"@),
        forall|p: Seq<char>| has_prefix(p, "static/"@) ==> !has_prefix(p, "templates/"@),
{
    reveal_strlit("assets/");
    reveal_strlit("content/");
    reveal_strlit("static/");
    reveal_strlit("templates/");
    reveal_strlit(".md");
    assert forall|p: Seq<char>| has_prefix(p, "assets/"@) implies !has_prefix(p, "content/"@) && !has_prefix(p, "static/"@) && !has_prefix(p, "templates/"@) by {
        assert(p.subrange(0, 7)[0] == 'a');
        assert(p.subrange(0, 7)[1] == 's');
    }
    assert forall|p: Seq<char>| has_prefix(p, "content/"@) implies !has_prefix(p, "static/"@) && !has_prefix(p, "templates/"@) by {
        assert(p.subrange(0, 8)[0] == 'c');
    }
    assert forall|p: Seq<char>| has_prefix(p, "static/"@) implies !has_prefix(p, "templates/"@) by {
        assert(p.subrange(0, 7)[0] == 's');
    }
}

/// The route of the file at `p`, classified as `t`.
fn route(t: &Ty, hex: &str) -> (r: Option<String>)
    requires
        exists|p: Seq<char>| crate::input_file::classifies(p, *t),
    ensures
        forall|p: Seq<char>| #[trigger] crate::input_file::classifies(p, *t) ==> (
            route_for(p, hex@) matches Some(q) ==> (r matches Some(x) && x@ == q)),
        forall|p: Seq<char>| #[trigger] crate::input_file::classifies(p, *t) ==> (
            route_for(p, hex@) is None ==> r is None),
{
    proof {
        lemma_dirs_differ();
    }
    match t {
        Ty::Asset(rest) => {
            assert forall|p: Seq<char>| #[trigger] crate::input_file::classifies(p, *t) implies below(p, "assets/"@) == rest@ by {
                assert(below(p, "assets/"@) =~= rest@);
            }
            if extension_is(rest, "css") {
                let e = extension(rest).unwrap();
                proof {
                    crate::text::lemma_extension_shorter(rest@);
                }
                let stem = substring(rest, 0, rest.unicode_len() - e.unicode_len());
                let css = ".css";
                Some(String::from_str(stem).concat(hex).concat(css))
            } else {
                Some(String::from_str(rest))
            }
        },
        Ty::Content(rest) => {
            assert forall|p: Seq<char>| #[trigger] crate::input_file::classifies(p, *t) implies below(p, "content/"@) == rest@ by {
                assert(below(p, "content/"@) =~= rest@);
            }
            match strip_suffix(rest, ".md") {
                Some(stem) => {
                    let html = ".html";
                    assert(stem@ =~= rest@.subrange(0, rest@.len() - 3));
                    Some(String::from_str(stem).concat(html))
                },
                None => None,
            }
        },
        Ty::Static(rest) => {
            assert forall|p: Seq<char>| #[trigger] crate::input_file::classifies(p, *t) implies below(p, "static/"@) == rest@ by {
                assert(below(p, "static/"@) =~= rest@);
            }
            Some(String::from_str(rest))
        },
        _ => None,
    }
}

/// The bytes of `s`.
fn bytes_of(s: &str) -> (r: Vec<u8>)
    ensures
        r@ == s.spec_bytes(),
{
    s.as_bytes_vec()
}

/// The recorded bytes of a file (see `recorded_contents`).
fn recorded(stylesheet: bool, raw: Vec<u8>) -> (r: Result<Vec<u8>, BuildError>)
    ensures
        !stylesheet ==> r == Ok::<Vec<u8>, BuildError>(raw),
        stylesheet ==> match r {
            Ok(c) => valid_utf8(raw@) && (minified_css_of(decode_utf8(raw@)) matches Some(m)
                && c@ == encode_utf8(m)),
            Err(e) => e == if valid_utf8(raw@) {
                BuildError::Stylesheet
            } else {
                BuildError::NotUtf8
            } && (valid_utf8(raw@) ==> minified_css_of(decode_utf8(raw@)) is None),
        },
{
    if !stylesheet {
        return Ok(raw);
    }
    let css = match utf8_text(raw.as_slice()) {
        Some(css) => css,
        None => return Err(BuildError::NotUtf8),
    };
    assert(css@ == decode_utf8(raw@));
    match minify_css(css) {
        Some(m) => Ok(bytes_of(m.as_str())),
        None => Err(BuildError::Stylesheet),
    }
}

/// Parses the front matter of a content page with bytes `c`.
fn page_source(c: &[u8]) -> (r: Result<PageSource, BuildError>)
    ensures
        !valid_utf8(c@) ==> r == Err::<PageSource, BuildError>(BuildError::NotUtf8),
        valid_utf8(c@) ==> match front_matter_outcome(c@) {
            Outcome::Failed(e) => r == Err::<PageSource, BuildError>(BuildError::FrontMatter(e)),
            _ => r matches Ok(page) && page_source_of(c@, page),
        },
{
    let text = match utf8_text(c) {
        Some(text) => text,
        None => return Err(BuildError::NotUtf8),
    };
    match parse(text) {
        Ok((front_matter, offset, _)) => {
            let front_matter = match front_matter {
                Some(f) => Some(String::from_str(f)),
                None => None,
            };
            Ok(PageSource { front_matter, offset })
        },
        Err(e) => Err(BuildError::FrontMatter(e)),
    }
}

/// Prepares what a hashed file contributes to a revision: its recorded
/// bytes (a stylesheet minified and hashed again), input-file id, whether
/// it is inline, its content-store name, its route and, for a content page,
/// its front matter.
pub fn record(asset: Asset) -> (r: Result<FileRecord, BuildError>)
    requires
        asset.wf(),
    ensures
        record_post(asset, r),
{
    let ghost p = asset.meta.logical_path@;
    proof {
        lemma_dirs_differ();
    }
    let is_inline = asset.meta.is_inline();
    let Asset { meta, contents, hash } = asset;
    let t = ty(meta.logical_path.as_str());
    if let Ty::Unknown = t {
        return Err(BuildError::UnknownFile);
    }
    let stylesheet = t.is_stylesheet();
    proof {
        if let Ty::Asset(rest) = t {
            assert(below(p, "assets/"@) =~= rest@);
        }
    }
    assert(stylesheet == is_stylesheet_path(p));
    let contents = match recorded(stylesheet, contents) {
        Ok(c) => c,
        Err(e) => return Err(e),
    };
    let contents_hash = if stylesheet {
        crate::address::content_hash(meta.logical_path.as_str().as_bytes(), contents.as_slice())
    } else {
        hash
    };
    let hex = hex_string(contents_hash.as_slice());
    let is_page = match t {
        Ty::Content(rest) => crate::text::ends_with(rest, ".md"),
        _ => false,
    };
    proof {
        if let Ty::Content(rest) = t {
            assert(below(p, "content/"@) =~= rest@);
        }
    }
    assert(is_page == is_page_path(p));
    let page = if is_page {
        match page_source(contents.as_slice()) {
            Ok(page) => Some(page),
            Err(e) => return Err(e),
        }
    } else {
        None
    };
    let route = route(&t, hex.as_str());
    let input_file_id = input_file_id(contents_hash.as_slice(), meta.logical_path.as_str());
    let cache_file_name = if is_inline {
        None
    } else {
        Some(hex)
    };
    Ok(FileRecord {
        input_file_id,
        logical_path: meta.logical_path,
        contents_hash,
        contents,
        is_inline,
        cache_file_name,
        route,
        page,
    })
}

impl FileRecord {
    /// The input-file row of this record: its bytes inline only where the
    /// file is inline.
    pub fn new_input_file(&self) -> (r: crate::input_file::NewInputFile<'_>)
        ensures
            r.id@ == self.input_file_id@,
            r.logical_path@ == self.logical_path@,
            r.contents_hash@ == self.contents_hash@,
            self.is_inline ==> (r.contents matches Some(c) && c@ == self.contents@),
            !self.is_inline ==> r.contents is None,
    {
        let contents = if self.is_inline {
            Some(self.contents.as_slice())
        } else {
            None
        };
        crate::input_file::NewInputFile::new(
            self.input_file_id.as_str(),
            self.logical_path.as_str(),
            self.contents_hash.as_slice(),
            contents,
        )
    }
}

/// Checks a content-store file that already exists against the bytes that
/// would be written there: same address, so the same length is owed.
pub fn check_cached_length(contents_len: usize, cached_len: u64) -> (r: Result<(), BuildError>)
    ensures
        r is Ok <==> contents_len as int == cached_len as int,
        r is Err ==> r == Err::<(), BuildError>(BuildError::CacheMismatch),
{
    if contents_len as u64 == cached_len {
        Ok(())
    } else {
        Err(BuildError::CacheMismatch)
    }
}

/// Determinism of addressing: two files with the same logical path and the
/// same bytes are recorded alike, under the same input-file id, so the
/// second finds the row of the first and inserts none.
pub proof fn lemma_addressing_deterministic(
    a1: Asset,
    a2: Asset,
    r1: Result<FileRecord, BuildError>,
    r2: Result<FileRecord, BuildError>,
)
    requires
        a1.meta.logical_path@ == a2.meta.logical_path@,
        a1.meta.disk_path@ == a2.meta.disk_path@,
        a1.contents@ == a2.contents@,
        record_post(a1, r1),
        record_post(a2, r2),
    ensures
        r1 is Ok <==> r2 is Ok,
        r1 is Ok ==> {
            &&& r1->Ok_0.input_file_id@ == r2->Ok_0.input_file_id@
            &&& r1->Ok_0.contents_hash@ == r2->Ok_0.contents_hash@
            &&& r1->Ok_0.contents@ == r2->Ok_0.contents@
            &&& r1->Ok_0.is_inline == r2->Ok_0.is_inline
        },
{
}

/// Inline round trip: a recorded `hbs`, `html` or `md` file keeps its bytes
/// in its row and needs no content-store entry; any other file keeps none
/// in its row and is stored under the hex of its hash with exactly its
/// recorded bytes.
pub proof fn lemma_inline_round_trip(asset: Asset, rec: FileRecord)
    requires
        record_post(asset, Ok(rec)),
    ensures
        is_inline_path(asset.meta.disk_path@) ==> rec.is_inline && rec.cache_file_name is None,
        !is_inline_path(asset.meta.disk_path@) ==> !rec.is_inline && (rec.cache_file_name matches Some(
            n,
        ) && n@ == hex_of(rec.contents_hash@)),
{
}

} // verus!
