//! Turning one clipboard read into at most one history entry.

use vstd::prelude::*;
use vstd::utf8::encode_utf8;
use crate::entry::{drop_empty, opt_view, ClipboardEntry, EntryKind, EntryView};
use crate::history::HistoryStore;
use crate::text::{chars_of, is_blank, is_blank_chars};

verus! {

/// What is known about a capture besides its payload.
pub struct CaptureMeta {
    /// Milliseconds since the Unix epoch.
    pub captured_at: Option<i64>,
    pub device: Option<String>,
    pub user: Option<String>,
}

/// The number of `=` characters that pad the end of base64 text (at most two).
pub open spec fn base64_padding(s: Seq<char>) -> nat {
    if s.len() >= 2 && s[s.len() - 1] == '=' && s[s.len() - 2] == '=' {
        2
    } else if s.len() >= 1 && s[s.len() - 1] == '=' {
        1
    } else {
        0
    }
}

/// The number of bytes that base64 text `s` decodes to.
pub open spec fn base64_decoded_len(s: Seq<char>) -> nat {
    ((s.len() - base64_padding(s)) * 3 / 4) as nat
}

/// The entry that a capture yields: the image when one was read and is not
/// blank, else the text when it is not blank, else nothing.
pub open spec fn normalized(
    image: Option<Seq<char>>,
    text: Option<Seq<char>>,
    captured_at: Option<i64>,
    device: Option<Seq<char>>,
    user: Option<Seq<char>>,
) -> Option<EntryView> {
    if image is Some && !is_blank(image->0) {
        Some(
            EntryView {
                kind: EntryKind::Image,
                content: image->0,
                mime_type: Some("image/png"@),
                captured_at,
                origin_device: drop_empty(device),
                origin_user: drop_empty(user),
                byte_size: Some(base64_decoded_len(image->0) as usize),
            },
        )
    } else if text is Some && !is_blank(text->0) {
        Some(
            EntryView {
                kind: EntryKind::Text,
                content: text->0,
                mime_type: Some("text/plain"@),
                captured_at,
                origin_device: drop_empty(device),
                origin_user: drop_empty(user),
                byte_size: Some(encode_utf8(text->0).len() as usize),
            },
        )
    } else {
        None
    }
}

/// The number of bytes that base64 text `s` decodes to.
pub fn decoded_len(s: &str) -> (r: usize)
    ensures
        r == base64_decoded_len(s@),
{
    let v = chars_of(s);
    let n = v.len();
    let pad: usize = if n >= 2 && v[n - 1] == '=' && v[n - 2] == '=' {
        2
    } else if n >= 1 && v[n - 1] == '=' {
        1
    } else {
        0
    };
    let m = n - pad;
    let q = m / 4;
    let rem = m % 4;
    assert(q * 3 + rem * 3 / 4 == m * 3 / 4) by (nonlinear_arith)
        requires
            q == m / 4,
            rem == m % 4,
    ;
    assert(q * 3 <= m) by (nonlinear_arith)
        requires
            q == m / 4,
    ;
    q * 3 + rem * 3 / 4
}

/// Normalises one capture attempt. `image` and `text` are what the clipboard
/// reads returned, `None` where a read failed.
pub fn normalize_capture(image: Option<String>, text: Option<String>, meta: CaptureMeta) -> (r:
    Option<ClipboardEntry>)
    ensures
        match normalized(
            opt_view(image),
            opt_view(text),
            meta.captured_at,
            opt_view(meta.device),
            opt_view(meta.user),
        ) {
            Some(v) => r matches Some(e) && e@ == v,
            None => r is None,
        },
{
    proof {
        reveal_strlit("image/png");
        reveal_strlit("text/plain");
        reveal_strlit("text/");
        let png = "image/png"@;
        assert(png.subrange(0, 5)[0] != "text/"@[0]);
        assert(!crate::entry::is_text_mime(png));
    }
    if let Some(img) = image {
        let iv = chars_of(img.as_str());
        if !is_blank_chars(&iv) {
            let size = decoded_len(img.as_str());
            let made = ClipboardEntry::new(
                EntryKind::Image,
                img,
                Some(String::from_str("image/png")),
                meta.captured_at,
                meta.device,
                meta.user,
                Some(size),
            );
            return match made {
                Ok(e) => Some(e),
                Err(_) => None,
            };
        }
    }
    if let Some(t) = text {
        let tv = chars_of(t.as_str());
        if !is_blank_chars(&tv) {
            let size = t.as_str().len();
            let made = ClipboardEntry::new(
                EntryKind::Text,
                t,
                Some(String::from_str("text/plain")),
                meta.captured_at,
                meta.device,
                meta.user,
                Some(size),
            );
            return match made {
                Ok(e) => Some(e),
                Err(_) => None,
            };
        }
    }
    None
}

impl HistoryStore {
    /// Normalises one capture attempt and appends the entry it yields, if any.
    /// Returns whether an entry was appended.
    pub fn capture(&mut self, image: Option<String>, text: Option<String>, meta: CaptureMeta) -> (r:
        bool)
        ensures
            match normalized(
                opt_view(image),
                opt_view(text),
                meta.captured_at,
                opt_view(meta.device),
                opt_view(meta.user),
            ) {
                Some(v) => r && final(self)@ == old(self)@.push(v),
                None => !r && final(self)@ == old(self)@,
            },
    {
        match normalize_capture(image, text, meta) {
            Some(e) => {
                self.append(e);
                true
            },
            None => false,
        }
    }
}

/// Blank or empty text never yields an entry: a capture whose text is blank
/// yields nothing unless a non-blank image was read, and then an image entry.
pub proof fn lemma_blank_text_never_stored(
    image: Option<Seq<char>>,
    text: Seq<char>,
    captured_at: Option<i64>,
    device: Option<Seq<char>>,
    user: Option<Seq<char>>,
)
    requires
        is_blank(text),
    ensures
        normalized(image, Some(text), captured_at, device, user) matches Some(e) ==> (e.kind
            == EntryKind::Image && image == Some(e.content) && !is_blank(e.content)),
        (image is None || is_blank(image->0)) ==> normalized(
            image,
            Some(text),
            captured_at,
            device,
            user,
        ) is None,
{
}

} // verus!
