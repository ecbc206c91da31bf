//! What a clipboard read yields, and what is written back.
use vstd::prelude::*;
use crate::clock::now_timestamp;
use crate::config::MAX_IMAGE_SIZE_BYTES;
use crate::entry::{image_entry, text_entry, ContentType, Entry, EntryView};
use crate::error::StickyError;

verus! {

/// The value on the clipboard.
#[derive(Debug)]
pub enum ClipboardContent {
    Text(String),
    Image(Vec<u8>),
    Empty,
}

/// `d` starts with the PNG signature's first four bytes.
pub open spec fn is_png(d: Seq<u8>) -> bool {
    d.len() >= 4 && d[0] == 0x89u8 && d[1] == 0x50u8 && d[2] == 0x4eu8 && d[3] == 0x47u8
}

/// Accepts `data` as an image payload when it looks like a PNG.
pub fn validate_png(data: &[u8]) -> (r: Result<(), StickyError>)
    ensures
        is_png(data@) ==> r is Ok,
        !is_png(data@) ==> r == Err::<(), StickyError>(StickyError::InvalidImage),
{
    if data.len() < 4 || data[0] != 0x89u8 || data[1] != 0x50u8 || data[2] != 0x4eu8 || data[3]
        != 0x47u8 {
        return Err(StickyError::InvalidImage);
    }
    Ok(())
}

/// Decides what the clipboard holds from what the clipboard tool printed:
/// `image` is its output when asked for a PNG, `text` its output when asked
/// for text, each `None` when the tool failed or the text was not UTF-8. A
/// non-empty image wins over text; an image above the size limit or without
/// the PNG signature is refused.
pub fn read(image: Option<Vec<u8>>, text: Option<String>) -> (r: Result<
    ClipboardContent,
    StickyError,
>)
    ensures
        image is Some && image->0@.len() > 0 ==> {
            let d = image->0;
            &&& d@.len() > MAX_IMAGE_SIZE_BYTES ==> r == Err::<ClipboardContent, StickyError>(
                StickyError::ImageTooLarge { size: d@.len() as usize, max: MAX_IMAGE_SIZE_BYTES },
            )
            &&& d@.len() <= MAX_IMAGE_SIZE_BYTES && !is_png(d@) ==> r == Err::<
                ClipboardContent,
                StickyError,
            >(StickyError::InvalidImage)
            &&& d@.len() <= MAX_IMAGE_SIZE_BYTES && is_png(d@) ==> r == Ok::<
                ClipboardContent,
                StickyError,
            >(ClipboardContent::Image(d))
        },
        !(image is Some && image->0@.len() > 0) && text is Some && text->0@.len() > 0 ==> r
            == Ok::<ClipboardContent, StickyError>(ClipboardContent::Text(text->0)),
        !(image is Some && image->0@.len() > 0) && !(text is Some && text->0@.len() > 0) ==> r
            == Ok::<ClipboardContent, StickyError>(ClipboardContent::Empty),
{
    if let Some(d) = image {
        let size = d.len();
        if size > 0 {
            if size > MAX_IMAGE_SIZE_BYTES {
                return Err(StickyError::ImageTooLarge { size, max: MAX_IMAGE_SIZE_BYTES });
            }
            match validate_png(d.as_slice()) {
                Ok(()) => {},
                Err(e) => {
                    return Err(e);
                },
            }
            return Ok(ClipboardContent::Image(d));
        }
    }
    if let Some(t) = text {
        if !t.as_str().is_empty() {
            return Ok(ClipboardContent::Text(t));
        }
    }
    Ok(ClipboardContent::Empty)
}

/// The entry that a read captures at time `now`: none for an empty clipboard.
pub open spec fn captured(read: Result<ClipboardContent, StickyError>, now: int) -> Option<
    EntryView,
> {
    match read {
        Ok(ClipboardContent::Text(t)) => Some(text_entry(t@, now)),
        Ok(ClipboardContent::Image(d)) => Some(image_entry(d@, now)),
        _ => None,
    }
}

/// The entry that `read` captures at time `now`; a failed read passes its
/// error on.
pub fn read_as_entry_at(read: Result<ClipboardContent, StickyError>, now: i64) -> (r: Result<
    Option<Entry>,
    StickyError,
>)
    ensures
        read is Ok ==> (r matches Ok(o) && match o {
            Some(e) => captured(read, now as int) == Some(e@),
            None => captured(read, now as int) is None,
        }),
        read matches Err(err) ==> r == Err::<Option<Entry>, StickyError>(err),
{
    match read {
        Ok(ClipboardContent::Text(text)) => Ok(Some(Entry::new_text_at(text, now))),
        Ok(ClipboardContent::Image(data)) => Ok(Some(Entry::new_image_at(data, now))),
        Ok(ClipboardContent::Empty) => Ok(None),
        Err(e) => Err(e),
    }
}

/// The entry that `read` captures now; a failed read passes its error on.
pub fn read_as_entry(read: Result<ClipboardContent, StickyError>) -> (r: Result<
    Option<Entry>,
    StickyError,
>)
    ensures
        read is Ok ==> (r matches Ok(o) && match o {
            Some(e) => captured(read, e@.created_at) == Some(e@),
            None => captured(read, 0) is None,
        }),
        read matches Err(err) ==> r == Err::<Option<Entry>, StickyError>(err),
{
    read_as_entry_at(read, now_timestamp())
}

/// What writing `entry` back puts on the clipboard: its text for text and
/// links, its bytes for images, nothing when the payload is missing.
pub fn write_payload(entry: &Entry) -> (r: ClipboardContent)
    ensures
        match r {
            ClipboardContent::Text(t) => entry.content_type != ContentType::Image
                && entry@.content == Some(t@),
            ClipboardContent::Image(d) => entry.content_type == ContentType::Image
                && entry@.image_data == Some(d@),
            ClipboardContent::Empty => if entry.content_type == ContentType::Image {
                entry.image_data is None
            } else {
                entry.content is None
            },
        },
{
    match entry.content_type {
        ContentType::Text | ContentType::Link => match &entry.content {
            Some(text) => ClipboardContent::Text(text.clone()),
            None => ClipboardContent::Empty,
        },
        ContentType::Image => match &entry.image_data {
            Some(data) => {
                let copy = data.clone();
                assert(copy@ =~= data@);
                ClipboardContent::Image(copy)
            },
            None => ClipboardContent::Empty,
        },
    }
}

} // verus!
