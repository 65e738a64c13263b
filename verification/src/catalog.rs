//! The attribute catalog: the fixed mapping from the logical fields of a
//! place and of a visit to the destination store's attribute keywords, and
//! the order-significant list of visit-type keywords.
//!
//! The original data source carries visit types as 1-indexed integer codes;
//! a code of zero or out of range is clamped to the first kind. That clamp
//! is a defensive policy of the migration, kept as it is.

use vstd::prelude::*;
use vstd::string::StringExecFns;

verus! {

/// The textual form of a keyword: a colon, the namespace, a slash, the name.
pub open spec fn kw_chars(ns: Seq<char>, name: Seq<char>) -> Seq<char> {
    seq![':'] + ns + seq!['/'] + name
}

/// A namespaced attribute keyword of the destination store, rendered into
/// statements as `:namespace/name`.
pub struct Keyword {
    pub ns: String,
    pub name: String,
}

impl View for Keyword {
    type V = Seq<char>;

    open spec fn view(&self) -> Seq<char> {
        kw_chars(self.ns@, self.name@)
    }
}

impl Keyword {
    pub fn new(ns: &str, name: &str) -> (k: Keyword)
        ensures
            k@ == kw_chars(ns@, name@),
    {
        Keyword { ns: ns.to_owned(), name: name.to_owned() }
    }

    /// Appends this keyword's textual form to a string being built.
    pub fn push_onto(&self, out: &mut String)
        ensures
            final(out)@ == old(out)@ + self@,
    {
        proof {
            reveal_strlit(":");
            reveal_strlit("/");
            assert(":"@ =~= seq![':']);
            assert("/"@ =~= seq!['/']);
        }
        out.append(":");
        out.append(self.ns.as_str());
        out.append("/");
        out.append(self.name.as_str());
        proof {
            assert(out@ =~= old(out)@ + self@);
        }
    }
}

/// The nine kinds of visit the source distinguishes, in their source order
/// (the source codes them 1-indexed in this same order).
#[derive(Clone, Copy, PartialEq, Eq, Structural, Debug)]
pub enum VisitType {
    Link,
    Typed,
    Bookmark,
    Embed,
    RedirectPermanent,
    RedirectTemporary,
    Download,
    FramedLink,
    Reload,
}

impl VisitType {
    /// The visit type for a source code, 1-indexed; zero and out-of-range
    /// codes are clamped to the first kind.
    pub open spec fn spec_from_code(code: int) -> VisitType {
        if code == 2 {
            VisitType::Typed
        } else if code == 3 {
            VisitType::Bookmark
        } else if code == 4 {
            VisitType::Embed
        } else if code == 5 {
            VisitType::RedirectPermanent
        } else if code == 6 {
            VisitType::RedirectTemporary
        } else if code == 7 {
            VisitType::Download
        } else if code == 8 {
            VisitType::FramedLink
        } else if code == 9 {
            VisitType::Reload
        } else {
            VisitType::Link
        }
    }

    /// Clamps a raw source code to a visit type.
    pub fn from_code(code: i64) -> (t: VisitType)
        ensures
            t == VisitType::spec_from_code(code as int),
    {
        match code {
            2 => VisitType::Typed,
            3 => VisitType::Bookmark,
            4 => VisitType::Embed,
            5 => VisitType::RedirectPermanent,
            6 => VisitType::RedirectTemporary,
            7 => VisitType::Download,
            8 => VisitType::FramedLink,
            9 => VisitType::Reload,
            _ => VisitType::Link,
        }
    }

    /// The position of this kind in the catalog's visit-type list.
    pub open spec fn spec_index(self) -> int {
        match self {
            VisitType::Link => 0,
            VisitType::Typed => 1,
            VisitType::Bookmark => 2,
            VisitType::Embed => 3,
            VisitType::RedirectPermanent => 4,
            VisitType::RedirectTemporary => 5,
            VisitType::Download => 6,
            VisitType::FramedLink => 7,
            VisitType::Reload => 8,
        }
    }

    /// The kind standing at one position of the visit-type list.
    pub open spec fn spec_at(i: int) -> VisitType {
        if i == 1 {
            VisitType::Typed
        } else if i == 2 {
            VisitType::Bookmark
        } else if i == 3 {
            VisitType::Embed
        } else if i == 4 {
            VisitType::RedirectPermanent
        } else if i == 5 {
            VisitType::RedirectTemporary
        } else if i == 6 {
            VisitType::Download
        } else if i == 7 {
            VisitType::FramedLink
        } else if i == 8 {
            VisitType::Reload
        } else {
            VisitType::Link
        }
    }

    /// The keyword text that this kind renders as in a statement.
    pub open spec fn kw_text(self) -> Seq<char> {
        match self {
            VisitType::Link => kw_chars("visit.type"@, "link"@),
            VisitType::Typed => kw_chars("visit.type"@, "typed"@),
            VisitType::Bookmark => kw_chars("visit.type"@, "bookmark"@),
            VisitType::Embed => kw_chars("visit.type"@, "embed"@),
            VisitType::RedirectPermanent => kw_chars("visit.type"@, "redirect_permanent"@),
            VisitType::RedirectTemporary => kw_chars("visit.type"@, "redirect_temporary"@),
            VisitType::Download => kw_chars("visit.type"@, "download"@),
            VisitType::FramedLink => kw_chars("visit.type"@, "framed_link"@),
            VisitType::Reload => kw_chars("visit.type"@, "reload"@),
        }
    }
}

/// The keyword text of each place attribute.
pub open spec fn place_url_text() -> Seq<char> {
    kw_chars("place"@, "url"@)
}

pub open spec fn place_url_hash_text() -> Seq<char> {
    kw_chars("place"@, "url_hash"@)
}

pub open spec fn place_title_text() -> Seq<char> {
    kw_chars("place"@, "title"@)
}

pub open spec fn place_description_text() -> Seq<char> {
    kw_chars("place"@, "description"@)
}

pub open spec fn place_frecency_text() -> Seq<char> {
    kw_chars("place"@, "frecency"@)
}

/// The keyword text of each visit attribute.
pub open spec fn visit_place_text() -> Seq<char> {
    kw_chars("visit"@, "place"@)
}

pub open spec fn visit_date_text() -> Seq<char> {
    kw_chars("visit"@, "date"@)
}

pub open spec fn visit_type_text() -> Seq<char> {
    kw_chars("visit"@, "type"@)
}

/// The immutable attribute catalog, constructed once at startup and passed
/// explicitly to whatever encodes entities.
pub struct Catalog {
    pub place_url: Keyword,
    pub place_url_hash: Keyword,
    pub place_title: Keyword,
    pub place_description: Keyword,
    pub place_frecency: Keyword,
    pub visit_place: Keyword,
    pub visit_date: Keyword,
    pub visit_type: Keyword,
    pub visit_types: Vec<Keyword>,
}

impl Catalog {
    /// Every keyword of the catalog carries its intended text, and the
    /// visit-type list holds the nine kinds in order.
    pub open spec fn wf(self) -> bool {
        &&& self.place_url@ == place_url_text()
        &&& self.place_url_hash@ == place_url_hash_text()
        &&& self.place_title@ == place_title_text()
        &&& self.place_description@ == place_description_text()
        &&& self.place_frecency@ == place_frecency_text()
        &&& self.visit_place@ == visit_place_text()
        &&& self.visit_date@ == visit_date_text()
        &&& self.visit_type@ == visit_type_text()
        &&& self.visit_types@.len() == 9
        &&& forall|i: int|
            0 <= i < 9 ==> #[trigger] self.visit_types@[i]@ == VisitType::spec_at(i).kw_text()
    }

    pub fn new() -> (c: Catalog)
        ensures
            c.wf(),
    {
        let mut visit_types: Vec<Keyword> = Vec::new();
        visit_types.push(Keyword::new("visit.type", "link"));
        visit_types.push(Keyword::new("visit.type", "typed"));
        visit_types.push(Keyword::new("visit.type", "bookmark"));
        visit_types.push(Keyword::new("visit.type", "embed"));
        visit_types.push(Keyword::new("visit.type", "redirect_permanent"));
        visit_types.push(Keyword::new("visit.type", "redirect_temporary"));
        visit_types.push(Keyword::new("visit.type", "download"));
        visit_types.push(Keyword::new("visit.type", "framed_link"));
        visit_types.push(Keyword::new("visit.type", "reload"));
        Catalog {
            place_url: Keyword::new("place", "url"),
            place_url_hash: Keyword::new("place", "url_hash"),
            place_title: Keyword::new("place", "title"),
            place_description: Keyword::new("place", "description"),
            place_frecency: Keyword::new("place", "frecency"),
            visit_place: Keyword::new("visit", "place"),
            visit_date: Keyword::new("visit", "date"),
            visit_type: Keyword::new("visit", "type"),
            visit_types,
        }
    }

    /// The catalog keyword for a visit type.
    pub fn visit_type_kw(&self, t: VisitType) -> (k: &Keyword)
        requires
            self.wf(),
        ensures
            k@ == t.kw_text(),
    {
        proof {
            assert(VisitType::spec_at(t.spec_index()) == t);
        }
        let i: usize = match t {
            VisitType::Link => 0,
            VisitType::Typed => 1,
            VisitType::Bookmark => 2,
            VisitType::Embed => 3,
            VisitType::RedirectPermanent => 4,
            VisitType::RedirectTemporary => 5,
            VisitType::Download => 6,
            VisitType::FramedLink => 7,
            VisitType::Reload => 8,
        };
        assert(i == t.spec_index());
        &self.visit_types[i]
    }
}

} // verus!
