//! Input files: classification by top-level directory, inlining, and the
//! content-store name of a file.
use vstd::prelude::*;
use crate::address::{hex_of, hex_string};
use crate::text::{extension_is, has_extension, has_prefix, strip_prefix};

verus! {

/// The role of a file, from the top-level directory of its logical path;
/// each variant holds the path below that directory.
#[derive(Debug)]
pub enum Ty<'a> {
    Asset(&'a str),
    Static(&'a str),
    Template(&'a str),
    Content(&'a str),
    Unknown,
}

/// `t` is the classification of the logical path `p`.
pub open spec fn classifies(p: Seq<char>, t: Ty) -> bool {
    if has_prefix(p, "assets/"@) {
        t matches Ty::Asset(rest) && p == "assets/"@ + rest@
    } else if has_prefix(p, "content/"@) {
        t matches Ty::Content(rest) && p == "content/"@ + rest@
    } else if has_prefix(p, "static/"@) {
        t matches Ty::Static(rest) && p == "static/"@ + rest@
    } else if has_prefix(p, "templates/"@) {
        t matches Ty::Template(rest) && p == "templates/"@ + rest@
    } else {
        t is Unknown
    }
}

/// A stylesheet: a `.css` file (any case) under `assets/`.
pub open spec fn is_stylesheet_spec(t: Ty) -> bool {
    t matches Ty::Asset(p) && has_extension(p@, "css"@)
}

/// An HTML page served as is: a `.html` file (any case) under `assets/` or `static/`.
pub open spec fn is_html_spec(t: Ty) -> bool {
    match t {
        Ty::Asset(p) => has_extension(p@, "html"@),
        Ty::Static(p) => has_extension(p@, "html"@),
        _ => false,
    }
}

impl<'a> Ty<'a> {
    pub fn is_stylesheet(&self) -> (r: bool)
        ensures
            r == is_stylesheet_spec(*self),
    {
        match self {
            Ty::Asset(path) => extension_is(path, "css"),
            _ => false,
        }
    }

    pub fn is_html(&self) -> (r: bool)
        ensures
            r == is_html_spec(*self),
    {
        match self {
            Ty::Asset(path) => extension_is(path, "html"),
            Ty::Static(path) => extension_is(path, "html"),
            _ => false,
        }
    }
}

/// Classifies a logical path by its top-level directory.
pub fn ty(logical_path: &str) -> (r: Ty<'_>)
    ensures
        classifies(logical_path@, r),
{
    if let Some(path) = strip_prefix(logical_path, "assets/") {
        return Ty::Asset(path);
    }
    if let Some(path) = strip_prefix(logical_path, "content/") {
        return Ty::Content(path);
    }
    if let Some(path) = strip_prefix(logical_path, "static/") {
        return Ty::Static(path);
    }
    if let Some(path) = strip_prefix(logical_path, "templates/") {
        return Ty::Template(path);
    }
    Ty::Unknown
}

/// A file is stored inline in the metadata store when its extension is
/// `hbs`, `html` or `md` (any case).
pub open spec fn is_inline_path(p: Seq<char>) -> bool {
    has_extension(p, "hbs"@) || has_extension(p, "html"@) || has_extension(p, "md"@)
}

/// Whether a file at path `p` is stored inline.
pub fn path_is_inline(p: &str) -> (r: bool)
    ensures
        r == is_inline_path(p@),
{
    extension_is(p, "hbs") || extension_is(p, "html") || extension_is(p, "md")
}

/// A stored input file.
#[derive(Debug, Clone)]
pub struct InputFile {
    pub id: String,
    pub logical_path: String,
    pub contents_hash: Vec<u8>,
    pub contents: Option<Vec<u8>>,
}

impl InputFile {
    pub fn ty(&self) -> (r: Ty<'_>)
        ensures
            classifies(self.logical_path@, r),
    {
        ty(self.logical_path.as_str())
    }

    /// The name of this file in the content store, or `None` when its bytes
    /// are inline.
    pub fn cache_file_name(&self) -> (r: Option<String>)
        ensures
            self.contents is Some ==> r is None,
            self.contents is None ==> (r matches Some(n) && n@ == hex_of(self.contents_hash@)),
    {
        if self.contents.is_some() {
            return None;
        }
        Some(hex_string(self.contents_hash.as_slice()))
    }
}

/// The id of an input file.
#[derive(Debug, Clone)]
pub struct Id(pub String);

/// The identifying columns of a stored input file.
#[derive(Debug, Clone)]
pub struct InputFileMeta {
    pub id: String,
    pub logical_path: String,
    pub contents_hash: Vec<u8>,
}

/// An input-file row to insert.
#[derive(Debug)]
pub struct NewInputFile<'a> {
    pub id: &'a str,
    pub logical_path: &'a str,
    pub contents_hash: &'a [u8],
    pub contents: Option<&'a [u8]>,
}

impl<'a> NewInputFile<'a> {
    pub fn new(
        id: &'a str,
        logical_path: &'a str,
        contents_hash: &'a [u8],
        contents: Option<&'a [u8]>,
    ) -> (r: Self)
        ensures
            r.id == id,
            r.logical_path == logical_path,
            r.contents_hash == contents_hash,
            r.contents == contents,
    {
        NewInputFile { id, logical_path, contents_hash, contents }
    }
}

} // verus!
