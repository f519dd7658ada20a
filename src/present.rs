//! How an entry is shown: size, kind and time labels, the "looks like code"
//! heuristic that picks a monospace font, and the download file name.

use vstd::prelude::*;
use vstd::utf8::encode_utf8;
use chrono::TimeZone;
use crate::entry::{opt_view, ClipboardEntry, EntryKind, EntryView};
use crate::text::{
    chars_of, contains, push_char, contains_exec, occurs_at, occurs_at_exec, trim, trim_bounds,
};

verus! {

/// Relies on chrono's `Local.timestamp_millis_opt(..).single()` and
/// `DateTime::format`: the instant written as a local date and time by
/// `pattern`. Which text comes back depends on the machine's time zone; chrono
/// represents every instant up to the end of year 9999 (so the result is then
/// present), and either pattern writes at least 15 characters.
#[verifier::external_body]
fn local_time_text(millis: i64, pattern: &str) -> (r: Option<String>)
    requires
        pattern@ == "%Y-%m-%d %H:%M:%S"@ || pattern@ == "%Y%m%d_%H%M%S"@,
    ensures
        0 <= millis <= LAST_SHOWN_MILLIS ==> r is Some,
        r matches Some(t) ==> t@.len() >= 15,
{
    match chrono::Local.timestamp_millis_opt(millis).single() {
        Some(t) => Some(t.format(pattern).to_string()),
        None => None,
    }
}

/// The last millisecond of year 9999, in milliseconds since the Unix epoch.
pub const LAST_SHOWN_MILLIS: i64 = 253_402_300_799_999;

pub open spec fn digit(d: nat) -> char {
    if d == 0 {
        '0'
    } else if d == 1 {
        '1'
    } else if d == 2 {
        '2'
    } else if d == 3 {
        '3'
    } else if d == 4 {
        '4'
    } else if d == 5 {
        '5'
    } else if d == 6 {
        '6'
    } else if d == 7 {
        '7'
    } else if d == 8 {
        '8'
    } else {
        '9'
    }
}

/// The decimal numeral of `n`, without leading zeros.
pub open spec fn decimal(n: nat) -> Seq<char>
    decreases n,
{
    if n < 10 {
        seq![digit(n)]
    } else {
        decimal(n / 10).push(digit(n % 10))
    }
}

/// `num / den` rounded to the nearest integer, ties to even.
pub open spec fn round_half_even(num: nat, den: nat) -> nat
    recommends
        den > 0,
{
    let q = num / den;
    let r = num % den;
    if 2 * r > den || (2 * r == den && q % 2 == 1) {
        q + 1
    } else {
        q
    }
}

/// A count of hundredths written with two decimals.
pub open spec fn fixed2(h: nat) -> Seq<char> {
    decimal(h / 100) + seq!['.', digit(h % 100 / 10), digit(h % 10)]
}

/// A byte count as shown: bytes below 1024, else kilobytes below 1024 * 1024,
/// else megabytes, with two decimals (`n * 100 / 1024` is `n * 25 / 256`).
pub open spec fn size_text(n: nat) -> Seq<char> {
    if n < 1024 {
        decimal(n) + " B"@
    } else if n < 1048576 {
        fixed2(round_half_even(n * 25, 256)) + " KB"@
    } else {
        fixed2(round_half_even(n * 25, 262144)) + " MB"@
    }
}

fn digit_char(d: u128) -> (c: char)
    requires
        d < 10,
    ensures
        c == digit(d as nat),
{
    if d == 0 {
        '0'
    } else if d == 1 {
        '1'
    } else if d == 2 {
        '2'
    } else if d == 3 {
        '3'
    } else if d == 4 {
        '4'
    } else if d == 5 {
        '5'
    } else if d == 6 {
        '6'
    } else if d == 7 {
        '7'
    } else if d == 8 {
        '8'
    } else {
        '9'
    }
}

fn push_decimal(out: &mut String, n: u128)
    ensures
        final(out)@ == old(out)@ + decimal(n as nat),
    decreases n,
{
    if n >= 10 {
        push_decimal(out, n / 10);
    }
    push_char(out, digit_char(n % 10));
    assert(decimal(n as nat) =~= if n < 10 {
        seq![digit(n as nat)]
    } else {
        decimal((n / 10) as nat).push(digit((n % 10) as nat))
    });
}

fn push_fixed2(out: &mut String, h: u128)
    ensures
        final(out)@ == old(out)@ + fixed2(h as nat),
{
    push_decimal(out, h / 100);
    push_char(out, '.');
    push_char(out, digit_char(h % 100 / 10));
    push_char(out, digit_char(h % 10));
    assert(final(out)@ =~= old(out)@ + fixed2(h as nat));
}

fn round_half_even_exec(num: u128, den: u128) -> (r: u128)
    requires
        den > 0,
        num / den < u128::MAX,
    ensures
        r == round_half_even(num as nat, den as nat),
{
    let q = num / den;
    let r = num % den;
    if r > den - r || (r == den - r && q % 2 == 1) {
        q + 1
    } else {
        q
    }
}

/// A byte count as shown, e.g. `500 B`, `2.00 KB`, `5.00 MB`.
pub fn format_size(n: usize) -> (r: String)
    ensures
        r@ == size_text(n as nat),
{
    let mut out = String::new();
    let m = n as u128;
    if m < 1024 {
        push_decimal(&mut out, m);
        out.append(" B");
    } else if m < 1048576 {
        let h = round_half_even_exec(m * 25, 256);
        push_fixed2(&mut out, h);
        out.append(" KB");
    } else {
        assert(m * 25 <= u64::MAX as u128 * 25);
        assert((m * 25) / 262144 < u128::MAX) by (nonlinear_arith)
            requires
                m * 25 <= u64::MAX as u128 * 25,
        ;
        let h = round_half_even_exec(m * 25, 262144);
        push_fixed2(&mut out, h);
        out.append(" MB");
    }
    assert(out@ =~= size_text(n as nat));
    out
}

/// A line starts at index `i` of `s`.
pub open spec fn line_start(s: Seq<char>, i: int) -> bool {
    i == 0 || s[i - 1] == '\n'
}

/// Text that looks like a command or source code: some line holds a shell
/// command word, `$ `, or a source keyword, or starts with `#` or `//`.
pub open spec fn looks_like_code(s: Seq<char>) -> bool {
    ||| contains(s, "cd "@)
    ||| contains(s, "npm "@)
    ||| contains(s, "npx "@)
    ||| contains(s, "git "@)
    ||| contains(s, "sudo "@)
    ||| contains(s, "curl "@)
    ||| contains(s, "wget "@)
    ||| contains(s, "$ "@)
    ||| contains(s, "function "@)
    ||| contains(s, "const "@)
    ||| contains(s, "let "@)
    ||| contains(s, "import "@)
    ||| contains(s, "export "@)
    ||| exists|i: int|
        0 <= i < s.len() && #[trigger] line_start(s, i) && (occurs_at(s, "#"@, i) || occurs_at(s, "//"@, i))
}

fn has_token(s: &Vec<char>, token: &str) -> (r: bool)
    ensures
        r == contains(s@, token@),
{
    let t = chars_of(token);
    contains_exec(s, &t)
}

/// Whether `text` looks like a command or source code.
pub fn is_code_text(text: &str) -> (r: bool)
    ensures
        r == looks_like_code(text@),
{
    let s = chars_of(text);
    if has_token(&s, "cd ") || has_token(&s, "npm ") || has_token(&s, "npx ") || has_token(
        &s,
        "git ",
    ) || has_token(&s, "sudo ") || has_token(&s, "curl ") || has_token(&s, "wget ")
        || has_token(&s, "$ ") || has_token(&s, "function ") || has_token(&s, "const ")
        || has_token(&s, "let ") || has_token(&s, "import ") || has_token(&s, "export ") {
        return true;
    }
    let hash = chars_of("#");
    let slashes = chars_of("//");
    let mut i: usize = 0;
    while i < s.len()
        invariant
            i <= s.len(),
            s@ == text@,
            !contains(s@, "cd "@) && !contains(s@, "npm "@) && !contains(s@, "npx "@) && !contains(
                s@,
                "git "@,
            ) && !contains(s@, "sudo "@) && !contains(s@, "curl "@) && !contains(s@, "wget "@)
                && !contains(s@, "$ "@) && !contains(s@, "function "@) && !contains(s@, "const "@)
                && !contains(s@, "let "@) && !contains(s@, "import "@) && !contains(s@, "export "@),
            hash@ == "#"@,
            slashes@ == "//"@,
            forall|j: int|
                0 <= j < i && #[trigger] line_start(s@, j) ==> !occurs_at(s@, "#"@, j) && !occurs_at(
                    s@,
                    "//"@,
                    j,
                ),
        decreases s.len() - i,
    {
        if i == 0 || s[i - 1] == '\n' {
            if occurs_at_exec(&s, &hash, i) || occurs_at_exec(&s, &slashes, i) {
                assert(0 <= i < s@.len() && line_start(s@, i as int) && (occurs_at(
                    s@,
                    "#"@,
                    i as int,
                ) || occurs_at(s@, "//"@, i as int)));
                return true;
            }
        }
        i = i + 1;
    }
    false
}

/// The label shown for a kind.
pub open spec fn kind_text(kind: EntryKind) -> Seq<char> {
    match kind {
        EntryKind::Text => "Text"@,
        EntryKind::Html => "HTML"@,
        EntryKind::Image => "Image"@,
    }
}

pub fn kind_label(kind: EntryKind) -> (r: &'static str)
    ensures
        r@ == kind_text(kind),
{
    match kind {
        EntryKind::Text => "Text",
        EntryKind::Html => "HTML",
        EntryKind::Image => "Image",
    }
}

/// `c` is replaced by `_` in a file name.
pub open spec fn is_path_hazard(c: char) -> bool {
    c == ' ' || c == '/' || c == '\\'
}

/// `s` with spaces and path separators replaced by `_`.
pub open spec fn sanitize(s: Seq<char>) -> Seq<char> {
    s.map_values(|c: char| if is_path_hazard(c) { '_' } else { c })
}

/// The file extension for an entry of `kind` whose mime type is `mime`.
pub open spec fn extension(kind: EntryKind, mime: Seq<char>) -> Seq<char> {
    match kind {
        EntryKind::Image => if mime == "image/jpeg"@ || mime == "image/jpg"@ {
            "jpg"@
        } else if mime == "image/gif"@ {
            "gif"@
        } else if mime == "image/webp"@ {
            "webp"@
        } else if mime == "image/svg+xml"@ {
            "svg"@
        } else {
            "png"@
        },
        EntryKind::Html => "html"@,
        EntryKind::Text => "txt"@,
    }
}

/// The download file name of `e`, given the compact local time of its capture
/// (`None` where it is not known): `<time>_<device>_<user>.<extension>`.
pub open spec fn file_name(e: EntryView, stamp: Option<Seq<char>>) -> Seq<char> {
    let t = match stamp {
        Some(t) => t,
        None => "unknown_time"@,
    };
    let d = match e.origin_device {
        Some(d) => sanitize(d),
        None => "unknown_device"@,
    };
    let u = match e.origin_user {
        Some(u) => trim(sanitize(u)),
        None => "unknown_user"@,
    };
    t + "_"@ + d + "_"@ + u + "."@ + extension(e.kind, e.effective_mime())
}

fn same_text(a: &str, b: &str) -> (r: bool)
    ensures
        r == (a@ == b@),
{
    let av = chars_of(a);
    let bv = chars_of(b);
    if av.len() != bv.len() {
        return false;
    }
    assert(av@.subrange(0, av@.len() as int) =~= av@);
    occurs_at_exec(&av, &bv, 0)
}

pub fn file_extension(kind: EntryKind, mime: &str) -> (r: &'static str)
    ensures
        r@ == extension(kind, mime@),
{
    match kind {
        EntryKind::Image => if same_text(mime, "image/jpeg") || same_text(mime, "image/jpg") {
            "jpg"
        } else if same_text(mime, "image/gif") {
            "gif"
        } else if same_text(mime, "image/webp") {
            "webp"
        } else if same_text(mime, "image/svg+xml") {
            "svg"
        } else {
            "png"
        },
        EntryKind::Html => "html",
        EntryKind::Text => "txt",
    }
}

fn push_sanitized(out: &mut String, s: &Vec<char>, lo: usize, hi: usize)
    requires
        lo <= hi <= s@.len(),
    ensures
        final(out)@ == old(out)@ + sanitize(s@.subrange(lo as int, hi as int)),
{
    let mut i: usize = lo;
    while i < hi
        invariant
            lo <= i <= hi <= s@.len(),
            out@ == old(out)@ + sanitize(s@.subrange(lo as int, i as int)),
        decreases hi - i,
    {
        let c = s[i];
        if c == ' ' || c == '/' || c == '\\' {
            push_char(out, '_');
        } else {
            push_char(out, c);
        }
        assert(sanitize(s@.subrange(lo as int, i + 1)) =~= sanitize(
            s@.subrange(lo as int, i as int),
        ).push(if is_path_hazard(c) {
            '_'
        } else {
            c
        }));
        i = i + 1;
    }
}

/// The number of line feeds in `s`.
pub open spec fn newline_count(s: Seq<char>) -> nat
    decreases s.len(),
{
    if s.len() == 0 {
        0
    } else {
        newline_count(s.drop_last()) + if s.last() == '\n' {
            1nat
        } else {
            0nat
        }
    }
}

/// The number of lines of `s`, as `str::lines` counts them: a final line
/// feed ends the last line rather than starting a new one.
pub open spec fn line_count(s: Seq<char>) -> nat {
    if s.len() == 0 {
        0
    } else if s.last() == '\n' {
        newline_count(s)
    } else {
        newline_count(s) + 1
    }
}

/// The first `k` lines of `s` joined by line feeds, each line without the
/// carriage return that ends it before its line feed.
pub open spec fn head_lines(s: Seq<char>, k: nat) -> Seq<char>
    decreases s.len(),
{
    if k == 0 || s.len() == 0 {
        Seq::empty()
    } else if s[0] == '\n' {
        if k == 1 {
            Seq::empty()
        } else {
            seq!['\n'] + head_lines(s.drop_first(), (k - 1) as nat)
        }
    } else if s[0] == '\r' && s.len() > 1 && s[1] == '\n' {
        head_lines(s.drop_first(), k)
    } else {
        seq![s[0]] + head_lines(s.drop_first(), k)
    }
}

/// At most this many lines of an entry are shown in the list.
pub const PREVIEW_LINES: usize = 10;

/// Text over this many bytes is cut to this many characters in the list.
pub const PREVIEW_CHARS: usize = 1500;

/// What the list shows of text `s`, and whether that is less than `s`: the
/// first ten lines when there are more, else the first 1500 characters when
/// `s` is over 1500 bytes, else all of `s`.
pub open spec fn preview(s: Seq<char>) -> (Seq<char>, bool) {
    if line_count(s) > 10 {
        (head_lines(s, 10), true)
    } else if encode_utf8(s).len() > 1500 {
        (
            if s.len() > 1500 {
                s.take(1500)
            } else {
                s
            },
            true,
        )
    } else {
        (s, false)
    }
}

proof fn lemma_newline_count_le(s: Seq<char>)
    ensures
        newline_count(s) <= s.len(),
    decreases s.len(),
{
    if s.len() > 0 {
        lemma_newline_count_le(s.drop_last());
    }
}

/// Each character takes one to four bytes in UTF-8.
proof fn lemma_utf8_len_bounds(s: Seq<char>)
    ensures
        s.len() <= encode_utf8(s).len() <= 4 * s.len(),
    decreases s.len(),
{
    if s.len() > 0 {
        lemma_utf8_len_bounds(s.drop_first());
    }
}

fn count_lines(v: &Vec<char>) -> (r: usize)
    ensures
        r == line_count(v@),
{
    let mut n: usize = 0;
    let mut i: usize = 0;
    while i < v.len()
        invariant
            i <= v@.len(),
            n == newline_count(v@.take(i as int)),
            n <= i,
        decreases v.len() - i,
    {
        assert(v@.take(i + 1).drop_last() =~= v@.take(i as int));
        if v[i] == '\n' {
            n = n + 1;
        }
        i = i + 1;
    }
    assert(v@.take(v@.len() as int) =~= v@);
    proof {
        if v@.len() > 0 {
            lemma_newline_count_le(v@.drop_last());
        }
    }
    if v.len() == 0 || v[v.len() - 1] == '\n' {
        n
    } else {
        n + 1
    }
}

/// What the list shows of `text`, and whether that is less than `text`.
pub fn preview_text(text: &str) -> (r: (String, bool))
    ensures
        r.0@ == preview(text@).0,
        r.1 == preview(text@).1,
{
    let v = chars_of(text);
    if count_lines(&v) > PREVIEW_LINES {
        let mut out = String::new();
        let mut k: usize = PREVIEW_LINES;
        let mut i: usize = 0;
        assert(v@.subrange(0, v@.len() as int) =~= v@);
        while i < v.len() && k > 0
            invariant
                i <= v@.len(),
                k <= 10,
                out@ + head_lines(v@.subrange(i as int, v@.len() as int), k as nat) == head_lines(
                    v@,
                    10,
                ),
            decreases v.len() - i,
        {
            let ghost rest = v@.subrange(i as int, v@.len() as int);
            assert(rest.drop_first() =~= v@.subrange(i + 1, v@.len() as int));
            assert(rest[0] == v@[i as int]);
            let c = v[i];
            if c == '\n' {
                if k == 1 {
                    k = 0;
                } else {
                    push_char(&mut out, '\n');
                    k = k - 1;
                }
            } else if c == '\r' && i + 1 < v.len() && v[i + 1] == '\n' {
                assert(rest[1] == v@[i + 1]);
            } else {
                push_char(&mut out, c);
            }
            i = i + 1;
        }
        (out, true)
    } else if v.len() > PREVIEW_CHARS {
        proof {
            lemma_utf8_len_bounds(text@);
        }
        let mut out = String::new();
        let mut i: usize = 0;
        while i < PREVIEW_CHARS
            invariant
                i <= 1500 < v@.len(),
                out@ == v@.take(i as int),
            decreases 1500 - i,
        {
            push_char(&mut out, v[i]);
            assert(v@.take(i + 1) =~= v@.take(i as int).push(v@[i as int]));
            i = i + 1;
        }
        (out, true)
    } else {
        proof {
            lemma_utf8_len_bounds(text@);
        }
        let long = text.len() > PREVIEW_CHARS;
        (String::from_str(text), long)
    }
}

/// The file-type filter offered by the save dialog.
pub struct SaveFilter {
    pub name: &'static str,
    pub extensions: Vec<&'static str>,
}

pub open spec fn filter_name(kind: EntryKind) -> Seq<char> {
    match kind {
        EntryKind::Image => "Images"@,
        EntryKind::Html => "HTML Files"@,
        EntryKind::Text => "Text Files"@,
    }
}

pub open spec fn filter_extensions(kind: EntryKind) -> Seq<Seq<char>> {
    match kind {
        EntryKind::Image => seq!["png"@, "jpg"@, "jpeg"@, "gif"@, "webp"@, "svg"@],
        EntryKind::Html => seq!["html"@],
        EntryKind::Text => seq!["txt"@],
    }
}

/// The save dialog's filter for an entry of `kind`.
pub fn save_filter(kind: EntryKind) -> (r: SaveFilter)
    ensures
        r.name@ == filter_name(kind),
        r.extensions@.map_values(|e: &'static str| e@) == filter_extensions(kind),
{
    let mut extensions: Vec<&'static str> = Vec::new();
    let name = match kind {
        EntryKind::Image => {
            extensions.push("png");
            extensions.push("jpg");
            extensions.push("jpeg");
            extensions.push("gif");
            extensions.push("webp");
            extensions.push("svg");
            "Images"
        },
        EntryKind::Html => {
            extensions.push("html");
            "HTML Files"
        },
        EntryKind::Text => {
            extensions.push("txt");
            "Text Files"
        },
    };
    assert(extensions@.map_values(|e: &'static str| e@) =~= filter_extensions(kind));
    SaveFilter { name, extensions }
}

/// A user action on an entry whose outcome is reported.
#[derive(Clone, Copy, Debug, PartialEq, Eq, Structural)]
pub enum Action {
    /// The entry was written to the clipboard.
    Copy,
    /// The entry was written to a file chosen in the save dialog.
    Save,
}

/// How an action ended.
#[derive(Clone, Copy, Debug, PartialEq, Eq, Structural)]
pub enum Outcome {
    Done,
    /// The user closed the dialog without choosing.
    Cancelled,
    Failed,
}

#[derive(Clone, Copy, Debug, PartialEq, Eq, Structural)]
pub enum NoticeLevel {
    Success,
    Info,
    Error,
}

/// The transient notification that reports an action's outcome.
#[derive(Clone, Copy, Debug, PartialEq, Eq)]
pub struct Notice {
    pub level: NoticeLevel,
    pub title: &'static str,
}

/// The level of the notification for `outcome`: a cancellation is no error.
pub open spec fn notice_level(outcome: Outcome) -> NoticeLevel {
    match outcome {
        Outcome::Done => NoticeLevel::Success,
        Outcome::Cancelled => NoticeLevel::Info,
        Outcome::Failed => NoticeLevel::Error,
    }
}

pub open spec fn notice_title(action: Action, outcome: Outcome) -> Seq<char> {
    match (action, outcome) {
        (Action::Copy, Outcome::Done) => "Copied"@,
        (Action::Copy, Outcome::Cancelled) => "Copy cancelled"@,
        (Action::Copy, Outcome::Failed) => "Copy failed"@,
        (Action::Save, Outcome::Done) => "Saved"@,
        (Action::Save, Outcome::Cancelled) => "Save cancelled"@,
        (Action::Save, Outcome::Failed) => "Save failed"@,
    }
}

/// The notification that reports how `action` ended.
pub fn notice_for(action: Action, outcome: Outcome) -> (r: Notice)
    ensures
        r.level == notice_level(outcome),
        r.title@ == notice_title(action, outcome),
{
    let level = match outcome {
        Outcome::Done => NoticeLevel::Success,
        Outcome::Cancelled => NoticeLevel::Info,
        Outcome::Failed => NoticeLevel::Error,
    };
    let title = match (action, outcome) {
        (Action::Copy, Outcome::Done) => "Copied",
        (Action::Copy, Outcome::Cancelled) => "Copy cancelled",
        (Action::Copy, Outcome::Failed) => "Copy failed",
        (Action::Save, Outcome::Done) => "Saved",
        (Action::Save, Outcome::Cancelled) => "Save cancelled",
        (Action::Save, Outcome::Failed) => "Save failed",
    };
    Notice { level, title }
}

impl ClipboardEntry {
    /// What the list shows of the entry's text, and whether that is less than it.
    pub fn preview(&self) -> (r: (String, bool))
        ensures
            r.0@ == preview(self@.content).0,
            r.1 == preview(self@.content).1,
    {
        preview_text(self.content())
    }

    /// Whether the entry gets a button that shows it whole: always for an
    /// image, and for text or HTML that the list shows only in part.
    pub fn needs_full_view(&self) -> (r: bool)
        ensures
            r == (self@.kind == EntryKind::Image || preview(self@.content).1),
    {
        match self.kind() {
            EntryKind::Image => true,
            _ => preview_text(self.content()).1,
        }
    }

    /// Whether the entry is text that looks like a command or source code.
    pub fn is_code(&self) -> (r: bool)
        ensures
            r == (self@.kind == EntryKind::Text && looks_like_code(self@.content)),
    {
        match self.kind() {
            EntryKind::Text => is_code_text(self.content()),
            _ => false,
        }
    }

    /// The size label, `Unknown` where the size is not known.
    pub fn size_label(&self) -> (r: String)
        ensures
            match self@.byte_size {
                Some(n) => r@ == size_text(n as nat),
                None => r@ == "Unknown"@,
            },
    {
        match self.byte_size() {
            Some(n) => format_size(n),
            None => String::from_str("Unknown"),
        }
    }

    /// The device label, `Unknown` where the device is not known.
    pub fn device_label(&self) -> (r: &str)
        ensures
            match self@.origin_device {
                Some(d) => r@ == d,
                None => r@ == "Unknown"@,
            },
    {
        match self.origin_device() {
            Some(d) => d,
            None => "Unknown",
        }
    }

    /// The user label, `Unknown` where the user is not known.
    pub fn user_label(&self) -> (r: &str)
        ensures
            match self@.origin_user {
                Some(u) => r@ == u,
                None => r@ == "Unknown"@,
            },
    {
        match self.origin_user() {
            Some(u) => u,
            None => "Unknown",
        }
    }

    /// The capture time as a local date and time, `Unknown` where the time is
    /// not known or cannot be shown.
    pub fn time_label(&self) -> (r: String)
        ensures
            self@.captured_at is None ==> r@ == "Unknown"@,
            self@.captured_at matches Some(ms) && 0 <= ms <= LAST_SHOWN_MILLIS ==> r@.len() >= 15,
    {
        match self.captured_at() {
            Some(ms) => {
                proof {
                    reveal_strlit("%Y-%m-%d %H:%M:%S");
                }
                match local_time_text(ms, "%Y-%m-%d %H:%M:%S") {
                    Some(t) => t,
                    None => String::from_str("Unknown"),
                }
            },
            None => String::from_str("Unknown"),
        }
    }

    /// The download file name, given the compact local capture time `stamp`.
    pub fn file_name_with(&self, stamp: Option<String>) -> (r: String)
        ensures
            r@ == file_name(self@, opt_view(stamp)),
    {
        let ghost st = opt_view(stamp);
        let mut out = match stamp {
            Some(t) => t,
            None => String::from_str("unknown_time"),
        };
        out.append("_");
        match self.origin_device() {
            Some(d) => {
                let dv = chars_of(d);
                push_sanitized(&mut out, &dv, 0, dv.len());
                assert(dv@.subrange(0, dv@.len() as int) =~= dv@);
            },
            None => out.append("unknown_device"),
        }
        out.append("_");
        match self.origin_user() {
            Some(u) => {
                let uv = chars_of(u);
                let mut clean: Vec<char> = Vec::new();
                let mut i: usize = 0;
                while i < uv.len()
                    invariant
                        i <= uv@.len(),
                        clean@ == sanitize(uv@.subrange(0, i as int)),
                    decreases uv.len() - i,
                {
                    let c = uv[i];
                    if c == ' ' || c == '/' || c == '\\' {
                        clean.push('_');
                    } else {
                        clean.push(c);
                    }
                    assert(sanitize(uv@.subrange(0, i + 1)) =~= sanitize(
                        uv@.subrange(0, i as int),
                    ).push(
                        if is_path_hazard(c) {
                            '_'
                        } else {
                            c
                        },
                    ));
                    i = i + 1;
                }
                assert(uv@.subrange(0, uv@.len() as int) =~= uv@);
                let (lo, hi) = trim_bounds(&clean);
                let ghost before = out@;
                let mut k: usize = lo;
                while k < hi
                    invariant
                        lo <= k <= hi <= clean@.len(),
                        out@ == before + clean@.subrange(lo as int, k as int),
                    decreases hi - k,
                {
                    push_char(&mut out, clean[k]);
                    assert(clean@.subrange(lo as int, k + 1) =~= clean@.subrange(
                        lo as int,
                        k as int,
                    ).push(clean@[k as int]));
                    k = k + 1;
                }
            },
            None => out.append("unknown_user"),
        }
        out.append(".");
        out.append(file_extension(self.kind(), self.effective_mime()));
        assert(out@ =~= file_name(self@, st));
        out
    }

    /// The download file name, stamped with the capture time in local time.
    pub fn download_file_name(&self) -> (r: String)
        ensures
            self@.captured_at is None ==> r@ == file_name(self@, None),
            exists|st: Option<Seq<char>>| r@ == file_name(self@, st),
            self@.captured_at matches Some(ms) && 0 <= ms <= LAST_SHOWN_MILLIS ==> exists|
                t: Seq<char>,
            | r@ == file_name(self@, Some(t)),
    {
        let stamp = match self.captured_at() {
            Some(ms) => {
                proof {
                    reveal_strlit("%Y%m%d_%H%M%S");
                }
                local_time_text(ms, "%Y%m%d_%H%M%S")
            },
            None => None,
        };
        let ghost st = opt_view(stamp);
        let r = self.file_name_with(stamp);
        assert(r@ == file_name(self@, st));
        r
    }
}

} // verus!
