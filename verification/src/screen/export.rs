//! The export pop-up: an account's `otpauth://` URI and its QR code.
use crate::notification::{note_expired, NoteView, Notification, NotificationKind};
use crate::screen::Key;
use crate::totp::{EntryView, TotpEntry};
use crate::uri::spec_to_uri;
use vstd::prelude::*;

verus! {

/// The pop-up's bottom line: key hints, or a notification.
#[derive(Debug)]
pub enum BottomBarKind {
    Hint,
    Notification(Notification),
}

pub enum ExportBarView {
    Hint,
    Notification(NoteView),
}

/// The account being exported and the pop-up's bottom line.
#[derive(Debug)]
pub struct ExportTotp {
    entry: TotpEntry,
    bottom_bar: BottomBarKind,
}

pub struct ExportView {
    pub entry: EntryView,
    pub bar: ExportBarView,
}

impl View for ExportTotp {
    type V = ExportView;

    closed spec fn view(&self) -> ExportView {
        ExportView {
            entry: self.entry@,
            bar: match self.bottom_bar {
                BottomBarKind::Hint => ExportBarView::Hint,
                BottomBarKind::Notification(n) => ExportBarView::Notification(n@),
            },
        }
    }
}

/// Whether the pop-up stays open after a key.
#[derive(Debug)]
pub enum ExportState {
    Active(ExportTotp),
    Closed,
}

/// The message shown once the URI is on the clipboard, at the clock reading
/// `now_ms`.
pub open spec fn uri_copied_note(now_ms: u64) -> NoteView {
    NoteView {
        msg: "uri copied to the clipboard"@,
        kind: NotificationKind::Success,
        expires_at: crate::notification::expiry(now_ms),
    }
}

/// The pop-up at the clock reading `now_ms`: a notification whose time is
/// over gives way to the key hints; nothing else changes.
pub open spec fn spec_export_cleaned(s: ExportView, now_ms: u64) -> ExportView {
    match s.bar {
        ExportBarView::Notification(n) => if note_expired(n, now_ms) {
            ExportView { bar: ExportBarView::Hint, ..s }
        } else {
            s
        },
        ExportBarView::Hint => s,
    }
}

/// Width, inner width, URI lines and height of the pop-up on a screen of
/// `area_width` by `area_height` cells, for a URI of `uri_len` bytes and a QR
/// drawing of `qr_height` lines: 80% of the width, the URI wrapped inside the
/// border, and the height cut to leave a line above and below.
pub open spec fn spec_popup_size(area_width: u16, area_height: u16, uri_len: usize, qr_height: u16) -> (
    u16,
    u16,
    u16,
    u16,
) {
    let width: int = area_width * 80 / 100;
    let inner: int = if width >= 3 {
        width - 2
    } else {
        1
    };
    let len: int = (uri_len as u16) as int;
    let lines: int = if len == 0 {
        1
    } else {
        (len + inner - 1) / inner
    };
    let ideal: int = 5 + qr_height + (lines as u16);
    let limit: int = if area_height >= 2 {
        area_height - 2
    } else {
        0
    };
    (width as u16, inner as u16, lines as u16, (if ideal <= limit {
        ideal
    } else {
        limit
    }) as u16)
}

impl ExportTotp {
    pub fn new(entry: TotpEntry) -> (r: Self)
        ensures
            r@ == (ExportView { entry: entry@, bar: ExportBarView::Hint }),
    {
        ExportTotp { entry, bottom_bar: BottomBarKind::Hint }
    }

    /// The account shown.
    pub fn entry(&self) -> (r: &TotpEntry)
        ensures
            r@ == self@.entry,
    {
        &self.entry
    }

    /// The notification shown, if any.
    pub fn notification(&self) -> (r: Option<&Notification>)
        ensures
            match self@.bar {
                ExportBarView::Hint => r is None,
                ExportBarView::Notification(n) => r matches Some(x) && x@ == n,
            },
    {
        match &self.bottom_bar {
            BottomBarKind::Hint => None,
            BottomBarKind::Notification(n) => Some(n),
        }
    }

    /// Esc closes the pop-up; `y` asks for the URI to be put on the
    /// clipboard (the text to copy comes back); other keys change nothing.
    pub fn handle_key(self, key: Key) -> (r: (ExportState, Option<String>))
        ensures
            key == Key::Esc ==> r.0 is Closed && r.1 is None,
            key == Key::Char('y') ==> (r.0 matches ExportState::Active(p) && p@ == self@ && (
            r.1 matches Some(u) && u@ == spec_to_uri(self@.entry))),
            key != Key::Esc && key != Key::Char('y') ==> (r.0 matches ExportState::Active(p) && p@
                == self@ && r.1 is None),
    {
        match key {
            Key::Esc => (ExportState::Closed, None),
            Key::Char('y') => {
                let uri = self.entry.to_uri();
                let text = uri.to_string();
                (ExportState::Active(self), Some(text))
            },
            _ => (ExportState::Active(self), None),
        }
    }

    /// Once the URI was put on the clipboard (at the clock reading `now_ms`),
    /// says so; a failed copy changes nothing.
    pub fn copied(&mut self, ok: bool, now_ms: u64)
        ensures
            final(self)@.entry == old(self)@.entry,
            ok ==> final(self)@.bar == ExportBarView::Notification(uri_copied_note(now_ms)),
            !ok ==> final(self)@ == old(self)@,
    {
        if ok {
            self.bottom_bar = BottomBarKind::Notification(
                Notification::success(String::from_str("uri copied to the clipboard"), now_ms),
            );
        }
    }

    /// Takes the notification away where its time is over at the clock
    /// reading `now_ms` (see `spec_export_cleaned`).
    pub fn cleanup(&mut self, now_ms: u64)
        ensures
            final(self)@ == spec_export_cleaned(old(self)@, now_ms),
    {
        let expired = match &self.bottom_bar {
            BottomBarKind::Notification(n) => n.is_expired(now_ms),
            BottomBarKind::Hint => false,
        };
        if expired {
            self.bottom_bar = BottomBarKind::Hint;
        }
    }}

/// The number of lines the URI takes in the pop-up (the third of
/// `spec_popup_size`'s numbers, which depends on the width and the URI alone).
pub fn popup_uri_lines(area_width: u16, uri_len: usize) -> (r: u16)
    ensures
        forall|h: u16, q: u16| r == #[trigger] spec_popup_size(area_width, h, uri_len, q).2,
{
    let w32: u32 = (area_width as u32) * 80 / 100;
    assert(w32 <= 52428);
    let width = w32 as u16;
    let inner: u16 = if width >= 3 {
        width - 2
    } else {
        1
    };
    let len = #[verifier::truncate] (uri_len as u16);
    if len == 0 {
        1
    } else {
        let q = len / inner;
        assert((len + inner - 1) as int / inner as int == if len % inner == 0 {
            len as int / inner as int
        } else {
            len as int / inner as int + 1
        }) by (nonlinear_arith)
            requires
                inner >= 1,
                len >= 1,
        ;
        if len % inner == 0 {
            q
        } else {
            assert(q < 65535) by (nonlinear_arith)
                requires
                    q == len / inner,
                    len % inner != 0,
                    inner >= 1,
                    len <= 65535,
            ;
            q + 1
        }
    }
}

/// The pop-up's layout numbers (see `spec_popup_size`). The height sum must
/// fit in 16 bits.
pub fn popup_size(area_width: u16, area_height: u16, uri_len: usize, qr_height: u16) -> (r: (
    u16,
    u16,
    u16,
    u16,
))
    requires
        5 + qr_height + spec_popup_size(area_width, area_height, uri_len, qr_height).2 <= u16::MAX,
    ensures
        r == spec_popup_size(area_width, area_height, uri_len, qr_height),
{
    let w32: u32 = (area_width as u32) * 80 / 100;
    assert(w32 <= 52428);
    let width = w32 as u16;
    let inner: u16 = if width >= 3 {
        width - 2
    } else {
        1
    };
    let lines = popup_uri_lines(area_width, uri_len);
    assert(lines == spec_popup_size(area_width, area_height, uri_len, qr_height).2);
    let ideal = 5 + qr_height + lines;
    let limit: u16 = if area_height >= 2 {
        area_height - 2
    } else {
        0
    };
    let h = if ideal <= limit {
        ideal
    } else {
        limit
    };
    (width, inner, lines, h)
}

} // verus!
