//! Metadata blocks. A content file may begin with a block delimited by
//! `---` lines (parsed as YAML) or `+++` lines (parsed as TOML) that sets
//! `layout`, `title` and `permalink`; each field falls back to its own
//! default when absent, and a block that fails to parse falls back to all
//! defaults, keeping the text after the block verbatim as the body.

use vstd::prelude::*;
use crate::path_extension::{extension_spec, file_stem_spec, with_extension_spec, file_stem,
    get_extension, with_extension};
use crate::text::{find_sub, matches_at, starts_with, trim_spec, view_opt, find_sub_from,
    has_prefix, str_eq, substring, trim};

verus! {

/// The data format of a metadata block.
#[derive(PartialEq, Eq, Structural)]
pub enum Serializer {
    Yaml,
    Toml,
}

/// The optional fields a metadata block may set.
pub struct FrontMatterDeserializer {
    pub layout: Option<String>,
    pub title: Option<String>,
    pub permalink: Option<String>,
}

/// The view of [`FrontMatterDeserializer`].
#[verifier::ext_equal]
pub ghost struct FieldsV {
    pub layout: Option<Seq<char>>,
    pub title: Option<Seq<char>>,
    pub permalink: Option<Seq<char>>,
}

impl View for FrontMatterDeserializer {
    type V = FieldsV;

    open spec fn view(&self) -> FieldsV {
        FieldsV {
            layout: view_opt(self.layout),
            title: view_opt(self.title),
            permalink: view_opt(self.permalink),
        }
    }
}

/// The view of an optional [`FrontMatterDeserializer`].
pub open spec fn view_opt_fields(o: Option<FrontMatterDeserializer>) -> Option<FieldsV> {
    match o {
        Option::Some(d) => Option::Some(d@),
        Option::None => Option::None,
    }
}

impl Default for FrontMatterDeserializer {
    /// The fields with every entry present and set to its placeholder.
    fn default() -> (d: Self)
        ensures
            d@ == (FieldsV {
                layout: Option::Some("default"@),
                title: Option::Some("undefined"@),
                permalink: Option::Some("/404.html"@),
            }),
    {
        let d = FrontMatterDeserializer {
            title: Some("undefined".to_owned()),
            layout: Some("default".to_owned()),
            permalink: Some("/404.html".to_owned()),
        };
        proof {
            assert(d@ =~= (FieldsV {
                layout: Option::Some("default"@),
                title: Option::Some("undefined"@),
                permalink: Option::Some("/404.html"@),
            }));
        }
        d
    }
}

/// A parsed page: the metadata fields after defaulting, and the body after
/// its transform.
pub struct FrontMatter {
    pub layout: String,
    pub permalink: String,
    pub title: String,
    pub content: String,
}

/// The view of [`FrontMatter`].
#[verifier::ext_equal]
pub ghost struct FrontMatterV {
    pub layout: Seq<char>,
    pub permalink: Seq<char>,
    pub title: Seq<char>,
    pub content: Seq<char>,
}

impl View for FrontMatter {
    type V = FrontMatterV;

    open spec fn view(&self) -> FrontMatterV {
        FrontMatterV {
            layout: self.layout@,
            permalink: self.permalink@,
            title: self.title@,
            content: self.content@,
        }
    }
}

/// What parsing a YAML metadata header yields: the three optional string
/// fields, or nothing when the header is not a YAML mapping with string
/// values for those fields.
pub uninterp spec fn yaml_fields_of(s: Seq<char>) -> Option<FieldsV>;

/// What parsing a TOML metadata header yields, as [`yaml_fields_of`].
pub uninterp spec fn toml_fields_of(s: Seq<char>) -> Option<FieldsV>;

/// What converting a markdown document to markup yields, under the fixed
/// configuration used here, when the conversion succeeds.
pub uninterp spec fn markdown_html_of(s: Seq<char>) -> Option<Seq<char>>;

/// Relies on serde_yaml::from_str: parses the header as YAML and reads the
/// optional string fields `layout`, `title` and `permalink` from the
/// resulting mapping, as deserializing into a struct of three optional
/// strings would; a key set to null counts as absent, and a document that
/// is not a mapping, or holds a non-string, non-null value under one of
/// those keys, is a parse failure. The result depends on the header text
/// alone.
#[verifier::external_body]
fn parse_yaml_fields(s: &str) -> (r: Option<FrontMatterDeserializer>)
    ensures
        view_opt_fields(r) == yaml_fields_of(s@),
{
    let v: serde_yaml::Value = serde_yaml::from_str(s).ok()?;
    if !v.is_mapping() {
        return None;
    }
    let layout = match v.get("layout") { None => None, Some(x) if x.is_null() => None, Some(x) => Some(x.as_str()?.to_string()) };
    let title = match v.get("title") { None => None, Some(x) if x.is_null() => None, Some(x) => Some(x.as_str()?.to_string()) };
    let permalink = match v.get("permalink") { None => None, Some(x) if x.is_null() => None, Some(x) => Some(x.as_str()?.to_string()) };
    Some(FrontMatterDeserializer { layout, title, permalink })
}

/// Relies on toml::from_str: parses the header as a TOML table and reads
/// the optional string fields `layout`, `title` and `permalink` from it; a
/// non-string value under one of those keys is a parse failure. The result
/// depends on the header text alone.
#[verifier::external_body]
fn parse_toml_fields(s: &str) -> (r: Option<FrontMatterDeserializer>)
    ensures
        view_opt_fields(r) == toml_fields_of(s@),
{
    let v: toml::Table = toml::from_str(s).ok()?;
    let layout = match v.get("layout") { None => None, Some(x) => Some(x.as_str()?.to_string()) };
    let title = match v.get("title") { None => None, Some(x) => Some(x.as_str()?.to_string()) };
    let permalink = match v.get("permalink") {
        None => None,
        Some(x) => Some(x.as_str()?.to_string()),
    };
    Some(FrontMatterDeserializer { layout, title, permalink })
}

/// Relies on markdown::to_html_with_options, configured for
/// GitHub-flavored markdown with the frontmatter construct enabled so that
/// an embedded metadata block is consumed by the converter itself. The
/// result depends on the document alone. Per its documentation the
/// conversion can fail only under MDX constructs, which stay off here, so
/// callers' fallback arms are dormant unless the dependency moves.
#[verifier::external_body]
fn markdown_to_html(s: &str) -> (r: Option<String>)
    ensures
        view_opt(r) == markdown_html_of(s@),
{
    let options = markdown::Options {
        parse: markdown::ParseOptions {
            constructs: markdown::Constructs { frontmatter: true, ..markdown::Constructs::gfm() },
            ..markdown::ParseOptions::gfm()
        },
        ..markdown::Options::gfm()
    };
    markdown::to_html_with_options(s, &options).ok()
}

/// The text between a leading delimiter line and the next occurrence of the
/// delimiter, or everything after the leading delimiter when it never
/// recurs.
pub open spec fn header_spec(data: Seq<char>, delim: Seq<char>) -> Seq<char>
    recommends
        starts_with(data, delim),
{
    match find_sub(data, delim, delim.len() as int) {
        Option::Some(j) => data.subrange(delim.len() as int, j),
        Option::None => data.subrange(delim.len() as int, data.len() as int),
    }
}

/// The trimmed metadata header of `data` and its format: behind `---` it is
/// YAML, behind `+++` TOML; a missing or blank header is no block at all.
pub open spec fn get_front_matter_spec(data: Seq<char>) -> Option<(Seq<char>, Serializer)> {
    if starts_with(data, "---"@) {
        let t = trim_spec(header_spec(data, "---"@));
        if t.len() > 0 {
            Option::Some((t, Serializer::Yaml))
        } else {
            Option::None
        }
    } else if starts_with(data, "+++"@) {
        let t = trim_spec(header_spec(data, "+++"@));
        if t.len() > 0 {
            Option::Some((t, Serializer::Toml))
        } else {
            Option::None
        }
    } else {
        Option::None
    }
}

proof fn lemma_find_sub_some(s: Seq<char>, p: Seq<char>, from: int)
    ensures
        match find_sub(s, p, from) {
            Option::Some(i) => from <= i && matches_at(s, p, i),
            Option::None => true,
        },
    decreases s.len() + 1 - from,
{
    if !(from + p.len() > s.len() || from > s.len()) && !matches_at(s, p, from) {
        lemma_find_sub_some(s, p, from + 1);
    }
}

/// Extracts the trimmed header that follows the leading delimiter `delim`.
fn extract_header(s: &str, delim: &str) -> (r: String)
    requires
        starts_with(s@, delim@),
    ensures
        r@ == trim_spec(header_spec(s@, delim@)),
{
    let dl = delim.unicode_len();
    let len = s.unicode_len();
    assert(dl <= len);
    let header = match find_sub_from(s, delim, dl) {
        Some(j) => {
            proof {
                lemma_find_sub_some(s@, delim@, dl as int);
            }
            substring(s, dl, j)
        },
        None => substring(s, dl, len),
    };
    trim(header.as_str())
}

/// Splits off the metadata header of a content file, with the format its
/// delimiter announces.
pub fn get_front_matter_string(data: &String) -> (r: Option<(String, Serializer)>)
    ensures
        match r {
            Option::Some(p) => get_front_matter_spec(data@) == Option::Some((p.0@, p.1)),
            Option::None => get_front_matter_spec(data@) is None,
        },
{
    let s = data.as_str();
    if has_prefix(s, "---") {
        let t = extract_header(s, "---");
        if t.as_str().unicode_len() > 0 {
            Some((t, Serializer::Yaml))
        } else {
            None
        }
    } else if has_prefix(s, "+++") {
        let t = extract_header(s, "+++");
        if t.as_str().unicode_len() > 0 {
            Some((t, Serializer::Toml))
        } else {
            None
        }
    } else {
        None
    }
}

/// The fields a content file's metadata block sets, or nothing when there
/// is no block or it does not parse.
pub open spec fn parse_front_matter_spec(data: Seq<char>) -> Option<FieldsV> {
    match get_front_matter_spec(data) {
        Option::Some(p) => match p.1 {
            Serializer::Yaml => yaml_fields_of(p.0),
            Serializer::Toml => toml_fields_of(p.0),
        },
        Option::None => Option::None,
    }
}

/// Parses a content file's metadata block into its fields.
pub fn parse_front_matter_string(data: &String) -> (r: Option<FrontMatterDeserializer>)
    ensures
        view_opt_fields(r) == parse_front_matter_spec(data@),
{
    match get_front_matter_string(data) {
        Some((header, Serializer::Yaml)) => parse_yaml_fields(header.as_str()),
        Some((header, Serializer::Toml)) => parse_toml_fields(header.as_str()),
        None => None,
    }
}

/// The last of at most three parts of `data` split on `delim`: everything
/// after the second occurrence, after the first when there is only one, or
/// all of `data` when there is none.
pub open spec fn splitn3_last_spec(data: Seq<char>, delim: Seq<char>) -> Seq<char> {
    match find_sub(data, delim, 0) {
        Option::None => data,
        Option::Some(i) => match find_sub(data, delim, i + delim.len()) {
            Option::None => data.subrange(i + delim.len(), data.len() as int),
            Option::Some(j) => data.subrange(j + delim.len(), data.len() as int),
        },
    }
}

/// Returns the last of at most three parts of `data` split on `delim`.
fn splitn3_last(data: &str, delim: &str) -> (r: String)
    ensures
        r@ == splitn3_last_spec(data@, delim@),
{
    let len = data.unicode_len();
    let dl = delim.unicode_len();
    match find_sub_from(data, delim, 0) {
        None => data.to_owned(),
        Some(i) => {
            proof {
                lemma_find_sub_some(data@, delim@, 0);
            }
            match find_sub_from(data, delim, i + dl) {
                None => substring(data, i + dl, len),
                Some(j) => {
                    proof {
                        lemma_find_sub_some(data@, delim@, i + dl);
                    }
                    substring(data, j + dl, len)
                },
            }
        },
    }
}

/// The body of a page after its transform, selected by the file's
/// extension: markdown is converted to markup (left untouched if the
/// converter fails), already-rendered markup has a leading
/// metadata-delimited segment stripped, anything else passes through.
pub open spec fn rendered_spec(path: Seq<char>, data: Seq<char>) -> Seq<char> {
    let e = extension_spec(path);
    if e == Option::Some("md"@) {
        match markdown_html_of(data) {
            Option::Some(h) => h,
            Option::None => data,
        }
    } else if e == Option::Some("html"@) {
        splitn3_last_spec(data, "---"@)
    } else {
        data
    }
}

/// Applies the body transform selected by the extension of `file_path`.
pub fn get_rendered(file_path: &str, data: String) -> (r: String)
    ensures
        r@ == rendered_spec(file_path@, data@),
{
    match get_extension(file_path) {
        Some(e) => {
            if str_eq(e.as_str(), "md") {
                match markdown_to_html(data.as_str()) {
                    Some(h) => h,
                    None => data,
                }
            } else if str_eq(e.as_str(), "html") {
                splitn3_last(data.as_str(), "---")
            } else {
                data
            }
        },
        None => data,
    }
}

/// The delimiter line of a metadata-block format.
pub open spec fn delim_of(s: Serializer) -> Seq<char> {
    match s {
        Serializer::Yaml => "---"@,
        Serializer::Toml => "+++"@,
    }
}

/// The text after a metadata block: everything past the block's closing
/// delimiter, or the whole content when the block never closes.
pub open spec fn block_remainder_spec(data: Seq<char>, delim: Seq<char>) -> Seq<char>
    recommends
        starts_with(data, delim),
{
    match find_sub(data, delim, delim.len() as int) {
        Option::Some(j) => data.subrange(j + delim.len(), data.len() as int),
        Option::None => data,
    }
}

/// Returns the text after the metadata block opened by `delim`.
fn block_remainder(data: &str, delim: &str) -> (r: String)
    ensures
        r@ == block_remainder_spec(data@, delim@),
{
    let len = data.unicode_len();
    let dl = delim.unicode_len();
    match find_sub_from(data, delim, dl) {
        Some(j) => {
            proof {
                lemma_find_sub_some(data@, delim@, dl as int);
            }
            substring(data, j + dl, len)
        },
        None => data.to_owned(),
    }
}

/// The metadata a page falls back to: the `default` layout, the file stem
/// as title, the root-relative source path with extension `.html` as
/// permalink, and the raw content as body.
pub open spec fn default_front_matter_spec(content: Seq<char>, rel: Seq<char>) -> FrontMatterV
    recommends
        file_stem_spec(rel) is Some,
{
    FrontMatterV {
        layout: "default"@,
        title: file_stem_spec(rel).unwrap(),
        permalink: seq!['/'] + with_extension_spec(rel, "html"@),
        content: content,
    }
}

/// The metadata of a page: each field the block sets, with per-field
/// defaulting, and the transformed body. A page without a block gets every
/// default and the transformed body; a block that does not parse gets every
/// default and, verbatim and untransformed, the text after the block (the
/// whole content when the block never closes).
pub open spec fn parse_page_spec(content: Seq<char>, rel: Seq<char>) -> FrontMatterV
    recommends
        file_stem_spec(rel) is Some,
{
    let d = default_front_matter_spec(content, rel);
    match get_front_matter_spec(content) {
        Option::None => FrontMatterV { content: rendered_spec(rel, content), ..d },
        Option::Some(p) => match parse_front_matter_spec(content) {
            Option::None => FrontMatterV {
                content: block_remainder_spec(content, delim_of(p.1)),
                ..d
            },
            Option::Some(f) => FrontMatterV {
                layout: match f.layout {
                    Option::Some(l) => l,
                    Option::None => d.layout,
                },
                title: match f.title {
                    Option::Some(t) => t,
                    Option::None => d.title,
                },
                permalink: match f.permalink {
                    Option::Some(p) => p,
                    Option::None => d.permalink,
                },
                content: rendered_spec(rel, content),
            },
        },
    }
}

/// Parses one page given its raw content and its path relative to the
/// content root.
pub fn parse_page(content: &str, rel_path: &str) -> (fm: FrontMatter)
    requires
        file_stem_spec(rel_path@) is Some,
    ensures
        fm@ == parse_page_spec(content@, rel_path@),
{
    let data = content.to_owned();
    let stem = match file_stem(rel_path) {
        Some(t) => t,
        None => unreached(),
    };
    let mut permalink = "/".to_owned();
    let out_path = with_extension(rel_path, "html");
    permalink.append(out_path.as_str());
    proof {
        reveal_strlit("/");
        assert(permalink@ =~= seq!['/'] + with_extension_spec(rel_path@, "html"@));
    }
    let default_layout = "default".to_owned();
    match get_front_matter_string(&data) {
        Some((header, serializer)) => {
            let parsed = match serializer {
                Serializer::Yaml => parse_yaml_fields(header.as_str()),
                Serializer::Toml => parse_toml_fields(header.as_str()),
            };
            match parsed {
                Some(d) => {
                    let rendered = get_rendered(rel_path, data);
                    let fm = FrontMatter {
                        layout: match d.layout {
                            Some(l) => l,
                            None => default_layout,
                        },
                        title: match d.title {
                            Some(t) => t,
                            None => stem,
                        },
                        permalink: match d.permalink {
                            Some(p) => p,
                            None => permalink,
                        },
                        content: rendered,
                    };
                    proof {
                        assert(fm@ =~= parse_page_spec(content@, rel_path@));
                    }
                    fm
                },
                None => {
                    let delim = match serializer {
                        Serializer::Yaml => "---",
                        Serializer::Toml => "+++",
                    };
                    let body = block_remainder(data.as_str(), delim);
                    let fm = FrontMatter {
                        layout: default_layout,
                        title: stem,
                        permalink: permalink,
                        content: body,
                    };
                    proof {
                        assert(fm@ =~= parse_page_spec(content@, rel_path@));
                    }
                    fm
                },
            }
        },
        None => {
            let rendered = get_rendered(rel_path, data);
            let fm = FrontMatter {
                layout: default_layout,
                title: stem,
                permalink: permalink,
                content: rendered,
            };
            proof {
                assert(fm@ =~= parse_page_spec(content@, rel_path@));
            }
            fm
        },
    }
}

/// A content file without a metadata block falls back to every default:
/// its title is the file stem, its layout is `default`, and its permalink
/// is `/` followed by the root-relative source path with extension `.html`;
/// its body is the raw content.
pub proof fn lemma_no_block_defaults(content: Seq<char>, rel: Seq<char>)
    requires
        file_stem_spec(rel) is Some,
        get_front_matter_spec(content) is None,
    ensures
        parse_page_spec(content, rel).layout == "default"@,
        parse_page_spec(content, rel).title == file_stem_spec(rel).unwrap(),
        parse_page_spec(content, rel).permalink == seq!['/'] + with_extension_spec(rel, "html"@),
        parse_page_spec(content, rel).content == rendered_spec(rel, content),
{
}

/// Defaulting is independent per field: a metadata block that sets only
/// `title` leaves layout and permalink at exactly their defaults.
pub proof fn lemma_independent_defaults(content: Seq<char>, rel: Seq<char>, t: Seq<char>)
    requires
        file_stem_spec(rel) is Some,
        parse_front_matter_spec(content) == Option::Some(
            (FieldsV { layout: Option::None, title: Option::Some(t), permalink: Option::None }),
        ),
    ensures
        parse_page_spec(content, rel).title == t,
        parse_page_spec(content, rel).layout == "default"@,
        parse_page_spec(content, rel).permalink == seq!['/'] + with_extension_spec(rel, "html"@),
{
}

} // verus!
