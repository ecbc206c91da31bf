//! One clipboard capture: its payload, kind, fingerprint and capture time.
use vstd::prelude::*;
use vstd::string::{StrSliceExecFns, StringExecFns};
use vstd::utf8::encode_utf8;
use crate::clock::now_timestamp;
use crate::text::{
    collapse_whitespace, collapse_ws, decimal, hex_lower, push_decimal, to_hex_lower,
    same_text, trim_whitespace, trim_ws,
};

verus! {

/// What kind of value an entry holds.
#[derive(Debug, Clone, Copy, PartialEq, Eq, Structural)]
pub enum ContentType {
    Text,
    Link,
    Image,
}

/// The stored tag of each kind.
pub open spec fn type_tag(ct: ContentType) -> Seq<char> {
    match ct {
        ContentType::Text => "text"@,
        ContentType::Link => "link"@,
        ContentType::Image => "image"@,
    }
}

/// The kind whose tag is `s`, if any.
pub open spec fn type_of_tag(s: Seq<char>) -> Option<ContentType> {
    if s == "text"@ {
        Some(ContentType::Text)
    } else if s == "link"@ {
        Some(ContentType::Link)
    } else if s == "image"@ {
        Some(ContentType::Image)
    } else {
        None
    }
}

impl ContentType {
    /// The tag under which this kind is stored.
    pub fn as_str(&self) -> (r: &'static str)
        ensures
            r@ == type_tag(*self),
    {
        match self {
            ContentType::Text => "text",
            ContentType::Link => "link",
            ContentType::Image => "image",
        }
    }

    /// The kind stored under tag `s`; `None` for an unknown tag.
    pub fn parse(s: &str) -> (r: Option<ContentType>)
        ensures
            r == type_of_tag(s@),
    {
        if same_text(s, "text") {
            Some(ContentType::Text)
        } else if same_text(s, "link") {
            Some(ContentType::Link)
        } else if same_text(s, "image") {
            Some(ContentType::Image)
        } else {
            None
        }
    }
}

impl ContentType {
    /// The kind of a stored row with tag `s`. An unknown tag is read as
    /// text, so that one malformed row cannot block reading the others.
    pub fn from_stored_tag(s: &str) -> (r: ContentType)
        ensures
            r == match type_of_tag(s@) {
                Some(ct) => ct,
                None => ContentType::Text,
            },
    {
        match ContentType::parse(s) {
            Some(ct) => ct,
            None => ContentType::Text,
        }
    }
}

/// Reading back the tag of a kind gives that kind.
pub proof fn law_content_type_tag_round_trip(ct: ContentType)
    ensures
        type_of_tag(type_tag(ct)) == Some(ct),
{
    reveal_strlit("text");
    reveal_strlit("link");
    reveal_strlit("image");
    assert("text"@ != "link"@ && "text"@ != "image"@ && "link"@ != "image"@) by {
        assert("text"@[0] != "link"@[0]);
        assert("text"@[0] != "image"@[0]);
        assert("link"@[0] != "image"@[0]);
    }
}

/// Whether the URL parser accepts `s` as an absolute URL.
pub uninterp spec fn url_parses(s: Seq<char>) -> bool;

/// Relies on `url::Url::parse`: whether `s` parses as an absolute URL. The
/// answer depends on the characters of `s` alone.
#[verifier::external_body]
fn parses_as_url(s: &str) -> (r: bool)
    ensures
        r == url_parses(s@),
{
    url::Url::parse(s).is_ok()
}

/// The kind of a captured text: a link when the text without surrounding
/// whitespace parses as a URL, plain text otherwise.
pub open spec fn classify_text(t: Seq<char>) -> ContentType {
    if url_parses(trim_ws(t)) {
        ContentType::Link
    } else {
        ContentType::Text
    }
}

/// Classifies a captured text as `classify_text` states.
pub fn classify(text: &str) -> (r: ContentType)
    ensures
        r == classify_text(text@),
{
    if parses_as_url(trim_whitespace(text)) {
        ContentType::Link
    } else {
        ContentType::Text
    }
}

/// Every text is either plain text or a link, never an image, and the same
/// text always gets the same kind.
pub proof fn law_classify_total(t: Seq<char>, u: Seq<char>)
    ensures
        classify_text(t) == ContentType::Text || classify_text(t) == ContentType::Link,
        classify_text(t) != ContentType::Image,
        t == u ==> classify_text(t) == classify_text(u),
{
}

/// The SHA-256 digest of `b`.
pub uninterp spec fn sha256_of(b: Seq<u8>) -> Seq<u8>;

/// Relies on `sha2::Sha256::digest` (the `Digest` trait): the 32-byte SHA-256
/// digest of `data`, which depends on `data` alone.
#[verifier::external_body]
fn sha256(data: &[u8]) -> (r: Vec<u8>)
    ensures
        r@ == sha256_of(data@),
        r@.len() == 32,
{
    <sha2::Sha256 as sha2::Digest>::digest(data).to_vec()
}

/// The fingerprint of a payload: its SHA-256 digest in lower-case hexadecimal.
pub open spec fn fingerprint(b: Seq<u8>) -> Seq<char> {
    hex_lower(sha256_of(b))
}

/// Computes the fingerprint of `data`.
pub fn hash_content(data: &[u8]) -> (r: String)
    ensures
        r@ == fingerprint(data@),
        r@.len() == 64,
{
    let digest = sha256(data);
    to_hex_lower(digest.as_slice())
}

/// Equal payloads have equal fingerprints.
pub proof fn law_fingerprint_deterministic(a: Seq<u8>, b: Seq<u8>)
    ensures
        a == b ==> fingerprint(a) == fingerprint(b),
{
}


/// One clipboard capture. `id` is 0 until the store assigns one.
#[derive(Debug)]
pub struct Entry {
    pub id: i64,
    pub content_type: ContentType,
    pub content: Option<String>,
    pub image_data: Option<Vec<u8>>,
    pub hash: String,
    pub created_at: i64,
}

/// The value an entry stands for.
pub struct EntryView {
    pub id: int,
    pub content_type: ContentType,
    pub content: Option<Seq<char>>,
    pub image_data: Option<Seq<u8>>,
    pub hash: Seq<char>,
    pub created_at: int,
}

impl View for Entry {
    type V = EntryView;

    open spec fn view(&self) -> EntryView {
        EntryView {
            id: self.id as int,
            content_type: self.content_type,
            content: match self.content {
                Some(c) => Some(c@),
                None => None,
            },
            image_data: match self.image_data {
                Some(d) => Some(d@),
                None => None,
            },
            hash: self.hash@,
            created_at: self.created_at as int,
        }
    }
}

/// The entry that captures text `t` at time `at`, before it is stored.
pub open spec fn text_entry(t: Seq<char>, at: int) -> EntryView {
    EntryView {
        id: 0,
        content_type: classify_text(t),
        content: Some(t),
        image_data: None,
        hash: fingerprint(encode_utf8(t)),
        created_at: at,
    }
}

/// The entry that captures image bytes `d` at time `at`, before it is stored.
pub open spec fn image_entry(d: Seq<u8>, at: int) -> EntryView {
    EntryView {
        id: 0,
        content_type: ContentType::Image,
        content: None,
        image_data: Some(d),
        hash: fingerprint(d),
        created_at: at,
    }
}

impl EntryView {
    /// Exactly one payload is present, it matches the kind, and the fingerprint
    /// is that of the payload's bytes.
    pub open spec fn wf(self) -> bool {
        match self.content_type {
            ContentType::Image => {
                &&& self.content is None
                &&& self.image_data is Some
                &&& self.hash == fingerprint(self.image_data->0)
            },
            _ => {
                &&& self.content is Some
                &&& self.image_data is None
                &&& self.hash == fingerprint(encode_utf8(self.content->0))
            },
        }
    }

    /// The same value with another id.
    pub open spec fn with_id(self, id: int) -> EntryView {
        EntryView { id, ..self }
    }
}

/// The text of a display preview: text and links with their whitespace
/// collapsed, cut to `max_len` characters followed by `...` when longer;
/// images as their size in bytes.
pub open spec fn preview(e: EntryView, max_len: nat) -> Seq<char> {
    match e.content_type {
        ContentType::Image => {
            let size: nat = match e.image_data {
                Some(d) => d.len(),
                None => 0,
            };
            "[Image: "@ + decimal(size) + " bytes]"@
        },
        _ => {
            let c = collapse_ws(
                match e.content {
                    Some(t) => t,
                    None => seq![],
                },
            );
            if c.len() > max_len {
                c.take(max_len as int) + "..."@
            } else {
                c
            }
        },
    }
}

fn copy_text(s: &String) -> (r: String)
    ensures
        r@ == s@,
{
    s.clone()
}

fn copy_bytes(d: &Vec<u8>) -> (r: Vec<u8>)
    ensures
        r@ == d@,
{
    let r = d.clone();
    assert(r@ =~= d@);
    r
}

impl Entry {
    /// Captures text `text` at time `created_at`.
    pub fn new_text_at(text: String, created_at: i64) -> (r: Entry)
        ensures
            r@ == text_entry(text@, created_at as int),
            r@.wf(),
    {
        let content_type = classify(text.as_str());
        let hash = hash_content(text.as_str().as_bytes());
        Entry {
            id: 0,
            content_type,
            content: Some(text),
            image_data: None,
            hash,
            created_at,
        }
    }

    /// Captures text `text` now.
    pub fn new_text(text: String) -> (r: Entry)
        ensures
            r@ == text_entry(text@, r@.created_at),
            r@.wf(),
    {
        Entry::new_text_at(text, now_timestamp())
    }

    /// Captures image bytes `data` at time `created_at`.
    pub fn new_image_at(data: Vec<u8>, created_at: i64) -> (r: Entry)
        ensures
            r@ == image_entry(data@, created_at as int),
            r@.wf(),
    {
        let hash = hash_content(data.as_slice());
        Entry {
            id: 0,
            content_type: ContentType::Image,
            content: None,
            image_data: Some(data),
            hash,
            created_at,
        }
    }

    /// Captures image bytes `data` now.
    pub fn new_image(data: Vec<u8>) -> (r: Entry)
        ensures
            r@ == image_entry(data@, r@.created_at),
            r@.wf(),
    {
        Entry::new_image_at(data, now_timestamp())
    }

    /// A copy with the same value.
    pub fn duplicate(&self) -> (r: Entry)
        ensures
            r@ == self@,
    {
        Entry {
            id: self.id,
            content_type: self.content_type,
            content: match &self.content {
                Some(c) => Some(copy_text(c)),
                None => None,
            },
            image_data: match &self.image_data {
                Some(d) => Some(copy_bytes(d)),
                None => None,
            },
            hash: copy_text(&self.hash),
            created_at: self.created_at,
        }
    }

    /// The one-line preview of this entry, as `preview` states.
    pub fn display_preview(&self, max_len: usize) -> (r: String)
        ensures
            r@ == preview(self@, max_len as nat),
    {
        match self.content_type {
            ContentType::Image => {
                let size: usize = match &self.image_data {
                    Some(d) => d.len(),
                    None => 0,
                };
                let mut out = String::from_str("[Image: ");
                push_decimal(&mut out, size);
                out.append(" bytes]");
                out
            },
            _ => {
                proof {
                    reveal_strlit("");
                }
                let text: &str = match &self.content {
                    Some(c) => c.as_str(),
                    None => "",
                };
                let collapsed = collapse_whitespace(text);
                let n = collapsed.as_str().unicode_len();
                if n > max_len {
                    let mut out = String::from_str(collapsed.as_str().substring_char(0, max_len));
                    out.append("...");
                    out
                } else {
                    collapsed
                }
            },
        }
    }
}

/// A preview is never longer than the limit plus the three-dot marker, and
/// text that fits is shown whole, whitespace collapsed.
pub proof fn law_preview_length(e: EntryView, max_len: nat)
    requires
        e.content_type != ContentType::Image,
    ensures
        preview(e, max_len).len() <= max_len + 3,
        ({
            let c = collapse_ws(
                match e.content {
                    Some(t) => t,
                    None => seq![],
                },
            );
            c.len() <= max_len ==> preview(e, max_len) == c
        }),
{
    reveal_strlit("...");
}

} // verus!
