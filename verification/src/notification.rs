//! Short messages shown at the bottom of a screen for two seconds. Time is a
//! reading of a monotonic clock in milliseconds, handed in by the caller.
use vstd::prelude::*;

verus! {

/// How long a notification is shown, in milliseconds.
pub const SHOWN_MS: u64 = 2000;

/// When a notification made at `now_ms` stops being shown: two seconds later
/// (at the clock's last millisecond where that is past it).
pub open spec fn expiry(now_ms: u64) -> u64 {
    if now_ms <= u64::MAX - SHOWN_MS {
        (now_ms + SHOWN_MS) as u64
    } else {
        u64::MAX
    }
}

/// How a notification is shown: a green check mark, a red exclamation mark,
/// or no mark.
#[derive(Clone, Copy, Debug, PartialEq, Eq, Structural)]
pub enum NotificationKind {
    Success,
    Danger,
    Info,
}

/// A message, its kind, and when it stops being shown: a reading, in
/// milliseconds, of the monotonic clock that the caller hands in.
#[derive(Debug)]
pub struct Notification {
    pub msg: String,
    kind: NotificationKind,
    expires_at: u64,
}

/// A notification: its message, its kind, and the clock reading (in
/// milliseconds) from which it is no longer shown.
pub struct NoteView {
    pub msg: Seq<char>,
    pub kind: NotificationKind,
    pub expires_at: u64,
}

impl View for Notification {
    type V = NoteView;

    closed spec fn view(&self) -> NoteView {
        NoteView { msg: self.msg@, kind: self.kind, expires_at: self.expires_at }
    }
}

/// Whether a notification's time is over at the clock reading `now_ms`.
pub open spec fn note_expired(n: NoteView, now_ms: u64) -> bool {
    now_ms >= n.expires_at
}

impl Notification {
    /// A notification made at the clock reading `now_ms`, shown for two
    /// seconds.
    fn new(msg: String, kind: NotificationKind, now_ms: u64) -> (r: Self)
        ensures
            r@ == (NoteView { msg: msg@, kind: kind, expires_at: expiry(now_ms) }),
    {
        let expires_at = if now_ms <= u64::MAX - SHOWN_MS {
            now_ms + SHOWN_MS
        } else {
            u64::MAX
        };
        Notification { msg, kind, expires_at }
    }

    pub fn success(msg: String, now_ms: u64) -> (r: Self)
        ensures
            r@ == (NoteView { msg: msg@, kind: NotificationKind::Success, expires_at: expiry(now_ms) }),
    {
        Self::new(msg, NotificationKind::Success, now_ms)
    }

    pub fn info(msg: String, now_ms: u64) -> (r: Self)
        ensures
            r@ == (NoteView { msg: msg@, kind: NotificationKind::Info, expires_at: expiry(now_ms) }),
    {
        Self::new(msg, NotificationKind::Info, now_ms)
    }

    pub fn danger(msg: String, now_ms: u64) -> (r: Self)
        ensures
            r@ == (NoteView { msg: msg@, kind: NotificationKind::Danger, expires_at: expiry(now_ms) }),
    {
        Self::new(msg, NotificationKind::Danger, now_ms)
    }

    /// The clock reading from which the notification is no longer shown.
    pub fn expires_at(&self) -> (r: u64)
        ensures
            r == self@.expires_at,
    {
        self.expires_at
    }

    pub fn kind(&self) -> (r: NotificationKind)
        ensures
            r == self@.kind,
    {
        self.kind
    }

    /// The mark and the text shown: `✓ ` or `! ` before the message and a
    /// space after it, or the bare message for information.
    pub fn draw_parts(&self) -> (r: (Option<String>, String))
        ensures
            match self@.kind {
                NotificationKind::Success => r.0 matches Some(p) && p@ == "✓ "@ && r.1@ == self@.msg
                    + " "@,
                NotificationKind::Danger => r.0 matches Some(p) && p@ == "! "@ && r.1@ == self@.msg
                    + " "@,
                NotificationKind::Info => r.0 is None && r.1@ == self@.msg,
            },
    {
        match self.kind {
            NotificationKind::Success => {
                let mut body = self.msg.clone();
                body.append(" ");
                (Some(String::from_str("✓ ")), body)
            },
            NotificationKind::Danger => {
                let mut body = self.msg.clone();
                body.append(" ");
                (Some(String::from_str("! ")), body)
            },
            NotificationKind::Info => (None, self.msg.clone()),
        }
    }

    /// Whether the two seconds are over at the clock reading `now_ms`.
    pub fn is_expired(&self, now_ms: u64) -> (r: bool)
        ensures
            r == note_expired(self@, now_ms),
    {
        now_ms >= self.expires_at
    }
}

} // verus!
