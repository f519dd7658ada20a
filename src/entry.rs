//! One clipboard history entry: what was captured, with its capture metadata.
//! Entries are immutable; the constructor enforces their invariant.

use vstd::prelude::*;
use crate::text::{chars_of, is_blank, is_blank_chars, occurs_at, occurs_at_exec};

verus! {

/// How an entry's content is interpreted.
#[derive(Clone, Copy, Debug, PartialEq, Eq, Structural)]
pub enum EntryKind {
    Text,
    Html,
    Image,
}

/// Why an entry could not be built.
#[derive(Clone, Copy, Debug, PartialEq, Eq, Structural)]
pub enum EntryError {
    /// The content is empty or holds only whitespace.
    BlankContent,
    /// An image entry was given a `text/*` mime type.
    MimeMismatch,
}

/// The mathematical value of an entry.
pub struct EntryView {
    pub kind: EntryKind,
    pub content: Seq<char>,
    pub mime_type: Option<Seq<char>>,
    pub captured_at: Option<i64>,
    pub origin_device: Option<Seq<char>>,
    pub origin_user: Option<Seq<char>>,
    pub byte_size: Option<usize>,
}

pub open spec fn opt_view(o: Option<String>) -> Option<Seq<char>> {
    match o {
        Some(s) => Some(s@),
        None => None,
    }
}

/// An empty name carries no information: it is stored as absent.
pub open spec fn drop_empty(o: Option<Seq<char>>) -> Option<Seq<char>> {
    match o {
        Some(s) => if s.len() == 0 {
            None
        } else {
            Some(s)
        },
        None => None,
    }
}

/// `m` names a textual media type.
pub open spec fn is_text_mime(m: Seq<char>) -> bool {
    occurs_at(m, "text/"@, 0)
}

/// An image entry never carries a `text/*` mime type.
pub open spec fn mime_consistent(kind: EntryKind, mime: Option<Seq<char>>) -> bool {
    kind == EntryKind::Image && mime is Some ==> !is_text_mime(mime->0)
}

/// The mime type used when an entry has none of its own.
pub open spec fn default_mime(kind: EntryKind) -> Seq<char> {
    match kind {
        EntryKind::Text => "text/plain"@,
        EntryKind::Html => "text/html"@,
        EntryKind::Image => "image/png"@,
    }
}

impl EntryView {
    /// What every stored entry satisfies.
    pub open spec fn valid(self) -> bool {
        &&& !is_blank(self.content)
        &&& mime_consistent(self.kind, self.mime_type)
        &&& self.origin_device != Some(Seq::<char>::empty())
        &&& self.origin_user != Some(Seq::<char>::empty())
    }

    /// The mime type of the entry, or its kind's default.
    pub open spec fn effective_mime(self) -> Seq<char> {
        match self.mime_type {
            Some(m) => m,
            None => default_mime(self.kind),
        }
    }
}

/// The result of `ClipboardEntry::new` on the given values.
pub open spec fn entry_result(
    kind: EntryKind,
    content: Seq<char>,
    mime_type: Option<Seq<char>>,
    captured_at: Option<i64>,
    origin_device: Option<Seq<char>>,
    origin_user: Option<Seq<char>>,
    byte_size: Option<usize>,
) -> Result<EntryView, EntryError> {
    if is_blank(content) {
        Err(EntryError::BlankContent)
    } else if !mime_consistent(kind, mime_type) {
        Err(EntryError::MimeMismatch)
    } else {
        Ok(
            EntryView {
                kind,
                content,
                mime_type,
                captured_at,
                origin_device: drop_empty(origin_device),
                origin_user: drop_empty(origin_user),
                byte_size,
            },
        )
    }
}

/// A captured clipboard item.
pub struct ClipboardEntry {
    kind: EntryKind,
    content: String,
    mime_type: Option<String>,
    captured_at: Option<i64>,
    origin_device: Option<String>,
    origin_user: Option<String>,
    byte_size: Option<usize>,
}

impl View for ClipboardEntry {
    type V = EntryView;

    closed spec fn view(&self) -> EntryView {
        EntryView {
            kind: self.kind,
            content: self.content@,
            mime_type: opt_view(self.mime_type),
            captured_at: self.captured_at,
            origin_device: opt_view(self.origin_device),
            origin_user: opt_view(self.origin_user),
            byte_size: self.byte_size,
        }
    }
}

fn clone_opt(o: &Option<String>) -> (r: Option<String>)
    ensures
        r == *o,
{
    match o {
        Some(s) => Some(s.clone()),
        None => None,
    }
}

fn non_empty(o: Option<String>) -> (r: Option<String>)
    ensures
        opt_view(r) == drop_empty(opt_view(o)),
{
    match o {
        Some(s) => if s.as_str().is_empty() {
            None
        } else {
            Some(s)
        },
        None => None,
    }
}

/// Whether `m` starts with `text/`.
pub fn text_mime(m: &str) -> (r: bool)
    ensures
        r == is_text_mime(m@),
{
    let mv = chars_of(m);
    let prefix = chars_of("text/");
    occurs_at_exec(&mv, &prefix, 0)
}

impl ClipboardEntry {
    #[verifier::type_invariant]
    spec fn inv(self) -> bool {
        self@.valid()
    }

    /// Builds an entry. Blank content is refused, and so is an image entry
    /// with a `text/*` mime type; an empty device or user name is stored as absent.
    pub fn new(
        kind: EntryKind,
        content: String,
        mime_type: Option<String>,
        captured_at: Option<i64>,
        origin_device: Option<String>,
        origin_user: Option<String>,
        byte_size: Option<usize>,
    ) -> (r: Result<ClipboardEntry, EntryError>)
        ensures
            r matches Ok(e) ==> e@.valid(),
            match entry_result(
                kind,
                content@,
                opt_view(mime_type),
                captured_at,
                opt_view(origin_device),
                opt_view(origin_user),
                byte_size,
            ) {
                Ok(v) => r matches Ok(e) && e@ == v,
                Err(err) => r == Err::<ClipboardEntry, EntryError>(err),
            },
    {
        let cv = chars_of(content.as_str());
        if is_blank_chars(&cv) {
            return Err(EntryError::BlankContent);
        }
        if let EntryKind::Image = kind {
            if let Some(m) = &mime_type {
                if text_mime(m.as_str()) {
                    return Err(EntryError::MimeMismatch);
                }
            }
        }
        let e = ClipboardEntry {
            kind,
            content,
            mime_type,
            captured_at,
            origin_device: non_empty(origin_device),
            origin_user: non_empty(origin_user),
            byte_size,
        };
        Ok(e)
    }

    /// Every entry satisfies `valid`.
    pub fn check_valid(&self)
        ensures
            self@.valid(),
    {
        proof {
            use_type_invariant(self);
        }
    }

    pub fn kind(&self) -> (r: EntryKind)
        ensures
            r == self@.kind,
    {
        self.kind
    }

    pub fn content(&self) -> (r: &str)
        ensures
            r@ == self@.content,
    {
        self.content.as_str()
    }

    pub fn mime_type(&self) -> (r: Option<&str>)
        ensures
            match r {
                Some(m) => self@.mime_type == Some(m@),
                None => self@.mime_type is None,
            },
    {
        match &self.mime_type {
            Some(m) => Some(m.as_str()),
            None => None,
        }
    }

    /// The entry's mime type, or the default of its kind.
    pub fn effective_mime(&self) -> (r: &str)
        ensures
            r@ == self@.effective_mime(),
    {
        match &self.mime_type {
            Some(m) => m.as_str(),
            None => match self.kind {
                EntryKind::Text => "text/plain",
                EntryKind::Html => "text/html",
                EntryKind::Image => "image/png",
            },
        }
    }

    pub fn captured_at(&self) -> (r: Option<i64>)
        ensures
            r == self@.captured_at,
    {
        self.captured_at
    }

    pub fn origin_device(&self) -> (r: Option<&str>)
        ensures
            match r {
                Some(d) => self@.origin_device == Some(d@),
                None => self@.origin_device is None,
            },
    {
        match &self.origin_device {
            Some(d) => Some(d.as_str()),
            None => None,
        }
    }

    pub fn origin_user(&self) -> (r: Option<&str>)
        ensures
            match r {
                Some(u) => self@.origin_user == Some(u@),
                None => self@.origin_user is None,
            },
    {
        match &self.origin_user {
            Some(u) => Some(u.as_str()),
            None => None,
        }
    }

    pub fn byte_size(&self) -> (r: Option<usize>)
        ensures
            r == self@.byte_size,
    {
        self.byte_size
    }
}

impl Clone for ClipboardEntry {
    fn clone(&self) -> (r: Self)
        ensures
            r@ == self@,
    {
        proof {
            use_type_invariant(self);
        }
        ClipboardEntry {
            kind: self.kind,
            content: self.content.clone(),
            mime_type: clone_opt(&self.mime_type),
            captured_at: self.captured_at,
            origin_device: clone_opt(&self.origin_device),
            origin_user: clone_opt(&self.origin_user),
            byte_size: self.byte_size,
        }
    }
}

} // verus!
