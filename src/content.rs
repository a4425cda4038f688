//! The polymorphic payload of a content block, and its conversions to and from
//! the text a submission form carries.

use vstd::prelude::*;
use crate::text::{
    chars_of, decimal, eq_ignore_ascii_case, matches_keyword, owned, push_decimal, push_str,
    push_char,
};

verus! {

/// `serde_json::Error`, carried opaquely as the error of the JSON wrappers below.
#[verifier::external_type_specification]
#[verifier::external_body]
pub struct ExJsonError(serde_json::Error);

/// What `serde_json::from_str` reads from `text` as a JSON array of strings
/// (`None` where the text is not one).
pub uninterp spec fn json_string_list(text: Seq<char>) -> Option<Seq<Seq<char>>>;

/// What `serde_json::from_str` reads from `text` as a JSON array of
/// two-element string arrays (`None` where the text is not one).
pub uninterp spec fn json_pair_list(text: Seq<char>) -> Option<Seq<(Seq<char>, Seq<char>)>>;

/// Relies on `serde_json::from_str::<Vec<String>>`; the outcome depends on the text alone.
#[verifier::external_body]
fn parse_string_list(text: &str) -> (r: Result<Vec<String>, serde_json::Error>)
    ensures
        match r {
            Ok(v) => json_string_list(text@) == Some(v.deep_view()),
            Err(_) => json_string_list(text@) is None,
        },
{
    serde_json::from_str(text)
}

/// Relies on `serde_json::from_str::<Vec<(String, String)>>`; the outcome depends on
/// the text alone.
#[verifier::external_body]
fn parse_pair_list(text: &str) -> (r: Result<Vec<(String, String)>, serde_json::Error>)
    ensures
        match r {
            Ok(v) => json_pair_list(text@) == Some(v.deep_view()),
            Err(_) => json_pair_list(text@) is None,
        },
{
    serde_json::from_str(text)
}

/// The text that `serde_json::to_string` writes for a list of strings.
pub uninterp spec fn json_text_of_strings(items: Seq<Seq<char>>) -> Seq<char>;

/// The text that `serde_json::to_string` writes for a list of string pairs.
pub uninterp spec fn json_text_of_pairs(items: Seq<(Seq<char>, Seq<char>)>) -> Seq<char>;

/// Relies on `serde_json::to_string::<Vec<String>>`: a list of strings always
/// serialises (the writer is a `Vec<u8>` and strings go through
/// `format_escaped_str`), and `serde_json::from_str` reads the escaped output back as
/// the same list.
#[verifier::external_body]
fn string_list_json(items: &Vec<String>) -> (r: Result<String, serde_json::Error>)
    ensures
        r is Ok,
        r is Ok ==> r->Ok_0@ == json_text_of_strings(items.deep_view()),
        r is Ok ==> json_string_list(r->Ok_0@) == Some(items.deep_view()),
{
    serde_json::to_string(items)
}

/// Relies on `serde_json::to_string::<Vec<(String, String)>>`: a list of string
/// pairs always serialises (each pair as a two-element array of escaped strings), and
/// `serde_json::from_str` reads the output back as the same list.
#[verifier::external_body]
fn pair_list_json(items: &Vec<(String, String)>) -> (r: Result<String, serde_json::Error>)
    ensures
        r is Ok,
        r is Ok ==> r->Ok_0@ == json_text_of_pairs(items.deep_view()),
        r is Ok ==> json_pair_list(r->Ok_0@) == Some(items.deep_view()),
{
    serde_json::to_string(items)
}

/// The payload of a content block.
#[derive(Debug, Clone, PartialEq)]
pub enum BlockContent {
    /// Raw rich-text markup.
    Text(String),
    /// Image URLs, in display order.
    Gallery(Vec<String>),
    /// One embed URL.
    Video(String),
    /// (url, title) pairs.
    Audio(Vec<(String, String)>),
    /// (url, description) pairs.
    File(Vec<(String, String)>),
}

/// The mathematical value of a `BlockContent`.
pub enum ContentView {
    Text(Seq<char>),
    Gallery(Seq<Seq<char>>),
    Video(Seq<char>),
    Audio(Seq<(Seq<char>, Seq<char>)>),
    File(Seq<(Seq<char>, Seq<char>)>),
}

impl View for BlockContent {
    type V = ContentView;

    open spec fn view(&self) -> ContentView {
        match self {
            BlockContent::Text(s) => ContentView::Text(s@),
            BlockContent::Gallery(v) => ContentView::Gallery(v.deep_view()),
            BlockContent::Video(s) => ContentView::Video(s@),
            BlockContent::Audio(v) => ContentView::Audio(v.deep_view()),
            BlockContent::File(v) => ContentView::File(v.deep_view()),
        }
    }
}

/// The five block types.
#[derive(PartialEq, Eq, Structural, Clone, Copy, Debug)]
pub enum BlockKind {
    Text,
    Gallery,
    Video,
    Audio,
    File,
}

/// The block type that a form's `block_type` names, ignoring ASCII case
/// (`None` for a name that is none of the five). Full Unicode lower-casing would
/// agree: no non-ASCII character lower-cases to a letter of these names.
pub open spec fn kind_of(block_type: Seq<char>) -> Option<BlockKind> {
    if eq_ignore_ascii_case(block_type, "text"@) {
        Some(BlockKind::Text)
    } else if eq_ignore_ascii_case(block_type, "gallery"@) {
        Some(BlockKind::Gallery)
    } else if eq_ignore_ascii_case(block_type, "video"@) {
        Some(BlockKind::Video)
    } else if eq_ignore_ascii_case(block_type, "audio"@) {
        Some(BlockKind::Audio)
    } else if eq_ignore_ascii_case(block_type, "file"@) {
        Some(BlockKind::File)
    } else {
        None
    }
}

/// The payload that a form's `block_type` and content text stand for. List
/// payloads that do not parse become empty lists; an unknown type is text.
pub open spec fn decode_spec(block_type: Seq<char>, text: Seq<char>) -> ContentView {
    assemble_spec(kind_of(block_type), text, json_string_list(text), json_pair_list(text))
}

/// The block type that a payload carries, in its canonical lower-case spelling.
pub open spec fn tag_of(c: ContentView) -> Seq<char> {
    match c {
        ContentView::Text(_) => "text"@,
        ContentView::Gallery(_) => "gallery"@,
        ContentView::Video(_) => "video"@,
        ContentView::Audio(_) => "audio"@,
        ContentView::File(_) => "file"@,
    }
}

/// Holds of every character but `<` and `>`.
pub open spec fn not_angle_bracket() -> spec_fn(char) -> bool {
    |c: char| c != '<' && c != '>'
}

/// `s` with the characters `<` and `>` removed.
pub open spec fn strip_angle_brackets(s: Seq<char>) -> Seq<char> {
    s.filter(not_angle_bracket())
}

/// The maximal length of a text preview.
pub const PREVIEW_LEN: usize = 50;

/// The one-line summary shown in block listings.
pub open spec fn preview_of(c: ContentView) -> Seq<char> {
    match c {
        ContentView::Text(s) => {
            let t = strip_angle_brackets(s);
            if t.len() <= PREVIEW_LEN {
                t
            } else {
                t.take(PREVIEW_LEN as int)
            }
        },
        ContentView::Video(u) => "Video: "@ + u,
        ContentView::Gallery(v) => decimal(v.len()) + " images"@,
        ContentView::Audio(v) => decimal(v.len()) + " audio files"@,
        ContentView::File(v) => decimal(v.len()) + " files"@,
    }
}

/// The canonical spelling of each block type names that type again.
pub proof fn lemma_kind_of_tag(c: ContentView)
    ensures
        kind_of(tag_of(c)) == Some(kind_of_view(c)),
{
    reveal_strlit("text");
    reveal_strlit("gallery");
    reveal_strlit("video");
    reveal_strlit("audio");
    reveal_strlit("file");
    let t = tag_of(c);
    match c {
        ContentView::Text(_) => {},
        ContentView::Gallery(_) => {
            assert(!eq_ignore_ascii_case(t, "text"@));
        },
        ContentView::Video(_) => {
            assert(!eq_ignore_ascii_case(t, "text"@));
            assert(!eq_ignore_ascii_case(t, "gallery"@));
        },
        ContentView::Audio(_) => {
            assert(!eq_ignore_ascii_case(t, "text"@));
            assert(!eq_ignore_ascii_case(t, "gallery"@));
            assert(!crate::text::char_matches_ignore_case(t[0], "video"@[0]));
        },
        ContentView::File(_) => {
            assert(!crate::text::char_matches_ignore_case(t[0], "text"@[0]));
            assert(!eq_ignore_ascii_case(t, "gallery"@));
            assert(!eq_ignore_ascii_case(t, "video"@));
            assert(!eq_ignore_ascii_case(t, "audio"@));
        },
    }
}

/// Malformed list input is never an error: a gallery, audio or file block whose
/// text does not parse decodes to that type with no items.
pub proof fn lemma_malformed_list_decodes_empty(block_type: Seq<char>, text: Seq<char>)
    ensures
        kind_of(block_type) == Some(BlockKind::Gallery) && json_string_list(text) is None
            ==> decode_spec(block_type, text) == ContentView::Gallery(Seq::empty()),
        kind_of(block_type) == Some(BlockKind::Audio) && json_pair_list(text) is None
            ==> decode_spec(block_type, text) == ContentView::Audio(Seq::empty()),
        kind_of(block_type) == Some(BlockKind::File) && json_pair_list(text) is None
            ==> decode_spec(block_type, text) == ContentView::File(Seq::empty()),
{
}

/// A block type that names none of the five decodes to a text block holding the
/// input verbatim.
pub proof fn lemma_unknown_type_decodes_text(block_type: Seq<char>, text: Seq<char>)
    requires
        kind_of(block_type) is None,
    ensures
        decode_spec(block_type, text) == ContentView::Text(text),
{
}

/// The block type of a payload.
pub open spec fn kind_of_view(c: ContentView) -> BlockKind {
    match c {
        ContentView::Text(_) => BlockKind::Text,
        ContentView::Gallery(_) => BlockKind::Gallery,
        ContentView::Video(_) => BlockKind::Video,
        ContentView::Audio(_) => BlockKind::Audio,
        ContentView::File(_) => BlockKind::File,
    }
}

/// A block's payload in the form in which it is stored: the block type, derived
/// from the payload, beside the payload's form text.
#[derive(Debug, Clone, PartialEq)]
pub struct EncodedBlock {
    pub block_type: String,
    pub content: String,
}

impl BlockContent {
    /// The markup of a text block.
    pub fn as_text(&self) -> (r: Option<&str>)
        ensures
            match self@ {
                ContentView::Text(s) => r is Some && r->0@ == s,
                _ => r is None,
            },
    {
        match self {
            BlockContent::Text(s) => Some(s.as_str()),
            _ => None,
        }
    }

    /// The block type of this payload.
    pub fn kind(&self) -> (r: BlockKind)
        ensures
            r == kind_of_view(self@),
    {
        match self {
            BlockContent::Text(_) => BlockKind::Text,
            BlockContent::Gallery(_) => BlockKind::Gallery,
            BlockContent::Video(_) => BlockKind::Video,
            BlockContent::Audio(_) => BlockKind::Audio,
            BlockContent::File(_) => BlockKind::File,
        }
    }

    /// The block type of this payload, in its canonical lower-case spelling.
    pub fn block_type(&self) -> (r: String)
        ensures
            r@ == tag_of(self@),
    {
        match self {
            BlockContent::Text(_) => owned("text"),
            BlockContent::Gallery(_) => owned("gallery"),
            BlockContent::Video(_) => owned("video"),
            BlockContent::Audio(_) => owned("audio"),
            BlockContent::File(_) => owned("file"),
        }
    }

    /// The text that an edit form shows for this payload: the markup or URL of a
    /// text or video block, a JSON array for a list block.
    pub fn form_text(&self) -> (r: String)
        ensures
            match self@ {
                ContentView::Text(s) => r@ == s,
                ContentView::Video(s) => r@ == s,
                ContentView::Gallery(v) => r@ == json_text_of_strings(v) && json_string_list(r@)
                    == Some(v),
                ContentView::Audio(v) => r@ == json_text_of_pairs(v) && json_pair_list(r@) == Some(v),
                ContentView::File(v) => r@ == json_text_of_pairs(v) && json_pair_list(r@) == Some(v),
            },
    {
        match self {
            BlockContent::Text(s) => owned(s.as_str()),
            BlockContent::Video(s) => owned(s.as_str()),
            BlockContent::Gallery(v) => match string_list_json(v) {
                Ok(j) => j,
                Err(_) => String::new(),
            },
            BlockContent::Audio(v) => match pair_list_json(v) {
                Ok(j) => j,
                Err(_) => String::new(),
            },
            BlockContent::File(v) => match pair_list_json(v) {
                Ok(j) => j,
                Err(_) => String::new(),
            },
        }
    }

    /// The stored form of this payload. Decoding it gives the payload back.
    pub fn encode(&self) -> (r: EncodedBlock)
        ensures
            r.block_type@ == tag_of(self@),
            decode_spec(r.block_type@, r.content@) == self@,
    {
        let block_type = self.block_type();
        let content = self.form_text();
        proof {
            lemma_kind_of_tag(self@);
        }
        EncodedBlock { block_type, content }
    }

    /// The one-line summary shown in block listings: the first fifty characters of
    /// a text with `<` and `>` removed, the URL of a video, the number of items of
    /// a list.
    pub fn preview(&self) -> (r: String)
        ensures
            r@ == preview_of(self@),
    {
        let mut out = String::new();
        match self {
            BlockContent::Text(s) => {
                return text_preview(s.as_str());
            },
            BlockContent::Video(u) => {
                push_str(&mut out, "Video: ");
                push_str(&mut out, u.as_str());
            },
            BlockContent::Gallery(v) => {
                push_decimal(&mut out, v.len() as u64);
                push_str(&mut out, " images");
            },
            BlockContent::Audio(v) => {
                push_decimal(&mut out, v.len() as u64);
                push_str(&mut out, " audio files");
            },
            BlockContent::File(v) => {
                push_decimal(&mut out, v.len() as u64);
                push_str(&mut out, " files");
            },
        }
        out
    }
}

/// The first fifty characters of `s` once `<` and `>` are removed.
fn text_preview(s: &str) -> (r: String)
    ensures
        r@ == preview_of(ContentView::Text(s@)),
{
    let cs = chars_of(s);
    let mut out = String::new();
    let mut i: usize = 0;
    let mut n: usize = 0;
    while i < cs.len() && n < PREVIEW_LEN
        invariant
            cs@ == s@,
            i <= cs.len(),
            out@ == strip_angle_brackets(cs@.take(i as int)),
            n == out@.len(),
            n <= PREVIEW_LEN,
        decreases cs.len() - i,
    {
        let c = cs[i];
        proof {
            assert(cs@.take(i + 1).drop_last() == cs@.take(i as int));
            assert(cs@.take(i + 1).last() == c);
            let pre = cs@.take(i as int);
            assert(cs@.take(i + 1) =~= pre + seq![c]);
            Seq::filter_distributes_over_add(pre, seq![c], not_angle_bracket());
            reveal_with_fuel(Seq::filter, 2);
            assert(seq![c].drop_last() =~= Seq::<char>::empty());
            assert(strip_angle_brackets(cs@.take(i + 1)) == if not_angle_bracket()(c) {
                strip_angle_brackets(cs@.take(i as int)).push(c)
            } else {
                strip_angle_brackets(cs@.take(i as int))
            });
        }
        if c != '<' && c != '>' {
            push_char(&mut out, c);
            n = n + 1;
        }
        i = i + 1;
    }
    proof {
        let t = strip_angle_brackets(s@);
        if i == cs.len() {
            assert(cs@.take(i as int) == s@);
        } else {
            let pred = not_angle_bracket();
            assert(s@ == s@.take(i as int) + s@.skip(i as int));
            Seq::filter_distributes_over_add(s@.take(i as int), s@.skip(i as int), pred);
            assert(t == out@ + strip_angle_brackets(s@.skip(i as int)));
            assert(t.take(PREVIEW_LEN as int) == out@);
        }
    }
    out
}

/// The block type that `block_type` names, ignoring ASCII case.
pub fn kind_from_name(block_type: &str) -> (r: Option<BlockKind>)
    ensures
        r == kind_of(block_type@),
{
    if matches_keyword(block_type, "text") {
        Some(BlockKind::Text)
    } else if matches_keyword(block_type, "gallery") {
        Some(BlockKind::Gallery)
    } else if matches_keyword(block_type, "video") {
        Some(BlockKind::Video)
    } else if matches_keyword(block_type, "audio") {
        Some(BlockKind::Audio)
    } else if matches_keyword(block_type, "file") {
        Some(BlockKind::File)
    } else {
        None
    }
}

/// The payload of a block of type `kind` (text where `None`) whose form text is
/// `text`, given what was read from that text as a list of strings and as a list of
/// pairs; a list block whose list was not read has no items.
pub open spec fn assemble_spec(
    kind: Option<BlockKind>,
    text: Seq<char>,
    strings: Option<Seq<Seq<char>>>,
    pairs: Option<Seq<(Seq<char>, Seq<char>)>>,
) -> ContentView {
    match kind {
        Some(BlockKind::Gallery) => ContentView::Gallery(
            match strings {
                Some(v) => v,
                None => Seq::empty(),
            },
        ),
        Some(BlockKind::Audio) => ContentView::Audio(
            match pairs {
                Some(v) => v,
                None => Seq::empty(),
            },
        ),
        Some(BlockKind::File) => ContentView::File(
            match pairs {
                Some(v) => v,
                None => Seq::empty(),
            },
        ),
        Some(BlockKind::Video) => ContentView::Video(text),
        _ => ContentView::Text(text),
    }
}

/// Builds the payload of a block of type `kind` (text where `None`) from its form
/// text and what was read from that text as a list of strings and as a list of
/// pairs. A list block whose list was not read gets no items.
pub fn assemble_block(
    kind: Option<BlockKind>,
    text: String,
    strings: Option<Vec<String>>,
    pairs: Option<Vec<(String, String)>>,
) -> (r: BlockContent)
    ensures
        r@ == assemble_spec(
            kind,
            text@,
            match strings {
                Some(v) => Some(v.deep_view()),
                None => None,
            },
            match pairs {
                Some(v) => Some(v.deep_view()),
                None => None,
            },
        ),
{
    match kind {
        Some(BlockKind::Gallery) => match strings {
            Some(v) => BlockContent::Gallery(v),
            None => {
                let v: Vec<String> = Vec::new();
                assert(v.deep_view() =~= Seq::<Seq<char>>::empty());
                BlockContent::Gallery(v)
            },
        },
        Some(BlockKind::Audio) => match pairs {
            Some(v) => BlockContent::Audio(v),
            None => {
                let v: Vec<(String, String)> = Vec::new();
                assert(v.deep_view() =~= Seq::<(Seq<char>, Seq<char>)>::empty());
                BlockContent::Audio(v)
            },
        },
        Some(BlockKind::File) => match pairs {
            Some(v) => BlockContent::File(v),
            None => {
                let v: Vec<(String, String)> = Vec::new();
                assert(v.deep_view() =~= Seq::<(Seq<char>, Seq<char>)>::empty());
                BlockContent::File(v)
            },
        },
        Some(BlockKind::Video) => BlockContent::Video(text),
        _ => BlockContent::Text(text),
    }
}

/// Builds a payload from a form's block type and content text. The type is matched
/// ignoring ASCII case; the content of a gallery, audio or file block is a JSON
/// array, and one that does not parse gives an empty list; text and video content is
/// taken verbatim; an unknown type gives a text block holding the content.
pub fn form_to_block_content(block_type: &str, content: &str) -> (r: BlockContent)
    ensures
        r@ == decode_spec(block_type@, content@),
{
    let kind = kind_from_name(block_type);
    let strings = match kind {
        Some(BlockKind::Gallery) => match parse_string_list(content) {
            Ok(v) => Some(v),
            Err(_) => None,
        },
        _ => None,
    };
    let pairs = match kind {
        Some(BlockKind::Audio) | Some(BlockKind::File) => match parse_pair_list(content) {
            Ok(v) => Some(v),
            Err(_) => None,
        },
        _ => None,
    };
    assemble_block(kind, owned(content), strings, pairs)
}

} // verus!
