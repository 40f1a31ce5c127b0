//! Modal dialogs and notifications: a priority ordered queue of dialogs, with error
//! deduplication, expiry, keyboard confirmation and mouse dragging of floating windows.
//!
//! Time is given by the caller as milliseconds on a monotonic clock.

use std::collections::HashMap;

use vstd::prelude::*;
use vstd::std_specs::iter::IteratorSpec;

use crate::keyboard::{KeyCode, KeyEvent};
use crate::mouse::{MouseButton, MouseEvent, MouseEventKind};
use crate::text::{
    chars_of, decimal, find_text, first_occurrence, occurs_in, owned, push_decimal, push_str,
    string_from_chars,
};

verus! {

broadcast use vstd::std_specs::hash::group_hash_axioms;

/// How long an error notification stays on screen, in milliseconds.
pub const ERROR_TIMEOUT_MS: u64 = 15000;

/// How long a warning notification stays on screen, in milliseconds.
pub const WARNING_TIMEOUT_MS: u64 = 10000;

/// How long an info notification stays on screen, in milliseconds.
pub const INFO_TIMEOUT_MS: u64 = 5000;

/// The minimum time between two showings of the same error, in milliseconds.
pub const ERROR_COOLDOWN_MS: u64 = 5000;

/// How long an error is remembered after its cooldown, in milliseconds.
pub const ERROR_MEMORY_MS: u64 = 5000;

/// Priority for dialog display. Higher priority dialogs are shown first.
#[derive(Debug, Clone, Copy, PartialEq, Eq, PartialOrd, Ord, Structural)]
pub enum DialogPriority {
    Low,
    Normal,
    High,
}

impl DialogPriority {
    /// The rank of the priority: low 0, normal 1, high 2.
    pub open spec fn rank(self) -> int {
        match self {
            DialogPriority::Low => 0,
            DialogPriority::Normal => 1,
            DialogPriority::High => 2,
        }
    }

    /// The rank of the priority.
    pub fn level(&self) -> (r: u8)
        ensures
            r == self.rank(),
    {
        match self {
            DialogPriority::Low => 0,
            DialogPriority::Normal => 1,
            DialogPriority::High => 2,
        }
    }
}

/// Severity level of a notification.
#[derive(Debug, Clone, Copy, PartialEq, Eq, Structural)]
pub enum Severity {
    Info,
    Warning,
    Error,
}

/// What to do when a confirmation dialog is confirmed.
#[derive(Debug, Clone, Copy, PartialEq, Eq, Structural)]
pub enum ConfirmAction {
    /// Quit the application.
    Quit {},
    /// Call the script callback registered under the given handle.
    Callback(u32),
}

/// Position of a floating window: a percentage of the screen, or absolute cells.
#[derive(Debug, Clone, Copy, PartialEq, Eq, Structural)]
pub enum Position {
    Percent { x: u16, y: u16 },
    Absolute { x: u16, y: u16 },
}

impl Position {
    /// A position as percentages of the screen.
    pub fn percent(x: u16, y: u16) -> (p: Position)
        ensures
            p == (Position::Percent { x, y }),
    {
        Position::Percent { x, y }
    }

    /// A position in cells.
    pub fn absolute(x: u16, y: u16) -> (p: Position)
        ensures
            p == (Position::Absolute { x, y }),
    {
        Position::Absolute { x, y }
    }
}

/// Size of a floating window: a percentage of the screen, or absolute cells.
#[derive(Debug, Clone, Copy, PartialEq, Eq, Structural)]
pub enum Size {
    Percent { width: u16, height: u16 },
    Absolute { width: u16, height: u16 },
}

impl Size {
    /// A size as percentages of the screen.
    pub fn percent(width: u16, height: u16) -> (s: Size)
        ensures
            s == (Size::Percent { width, height }),
    {
        Size::Percent { width, height }
    }

    /// A size in cells.
    pub fn absolute(width: u16, height: u16) -> (s: Size)
        ensures
            s == (Size::Absolute { width, height }),
    {
        Size::Absolute { width, height }
    }
}

/// A floating window showing a buffer, with an optional title.
#[derive(Debug, Clone, PartialEq, Eq)]
pub struct FloatingWindow {
    pub title: Option<String>,
    pub position: Position,
    pub size: Size,
    /// The identifier of the buffer the window shows.
    pub buffer: u32,
}

impl FloatingWindow {
    /// A floating window for a buffer.
    pub fn new(buffer: u32, position: Position, size: Size, title: Option<String>) -> (w:
        FloatingWindow)
        ensures
            w == (FloatingWindow { title, position, size, buffer }),
    {
        FloatingWindow { title, position, size, buffer }
    }
}

/// The kind of a dialog.
#[derive(Debug, Clone, PartialEq, Eq)]
pub enum DialogKind {
    /// Requires a specific key to confirm; any other key cancels.
    Confirmation { message: String, confirm_key: char, action: ConfirmAction },
    /// Dismissed when it expires or, if dismissible, by a character key.
    Notification { message: String, severity: Severity, dismissible: bool, occurrence_count: usize },
    /// A window that can be dragged with the mouse.
    FloatingWindow { window: FloatingWindow, dismissible: bool },
}

/// A modal dialog overlay.
#[derive(Debug, Clone, PartialEq, Eq)]
pub struct Dialog {
    pub id: String,
    pub kind: DialogKind,
    /// When the dialog expires, if it does.
    pub expires_at: Option<u64>,
    pub priority: DialogPriority,
}

/// A message with its occurrence count: a message that already mentions `(occurred` has the
/// count after its first ` (occurred` replaced (and is left as it is if that has no leading
/// space); any other message gets ` (occurred <n> times)` appended.
pub open spec fn counted_message(msg: Seq<char>, n: nat) -> Seq<char> {
    if first_occurrence(msg, "(occurred"@) is Some {
        match first_occurrence(msg, " (occurred"@) {
            Some(i) => msg.take(i) + " (occurred "@ + decimal(n) + " times)"@,
            None => msg,
        }
    } else {
        msg + " (occurred "@ + decimal(n) + " times)"@
    }
}

impl Dialog {
    /// A dialog that does not expire.
    pub fn new(id: String, kind: DialogKind, priority: DialogPriority) -> (d: Dialog)
        ensures
            d == (Dialog { id, kind, expires_at: None, priority }),
    {
        Dialog { id, kind, expires_at: None, priority }
    }

    /// Count one more occurrence of a notification (see [`counted_message`]).
    pub fn increment_count(&mut self)
        requires
            old(self).kind matches DialogKind::Notification { occurrence_count, .. }
                ==> occurrence_count < usize::MAX,
        ensures
            final(self).id == old(self).id,
            final(self).expires_at == old(self).expires_at,
            final(self).priority == old(self).priority,
            match old(self).kind {
                DialogKind::Notification { message, severity, dismissible, occurrence_count } => {
                    &&& final(self).kind matches DialogKind::Notification {
                        message: m2,
                        severity: s2,
                        dismissible: d2,
                        occurrence_count: c2,
                    }
                    &&& m2@ == counted_message(message@, (occurrence_count + 1) as nat)
                    &&& s2 == severity
                    &&& d2 == dismissible
                    &&& c2 == occurrence_count + 1
                },
                _ => final(self).kind == old(self).kind,
            },
    {
        match &mut self.kind {
            DialogKind::Notification { occurrence_count, message, .. } => {
                *occurrence_count = *occurrence_count + 1;
                let m = counted(message.as_str(), *occurrence_count as u64);
                *message = m;
            },
            _ => {},
        }
    }
}

/// The message with its occurrence count (see [`counted_message`]).
fn counted(message: &str, n: u64) -> (m: String)
    ensures
        m@ == counted_message(message@, n as nat),
{
    let v = chars_of(message);
    let bare = chars_of("(occurred");
    let spaced = chars_of(" (occurred");
    if find_text(&v, &bare).is_some() {
        match find_text(&v, &spaced) {
            Some(idx) => {
                let mut base: Vec<char> = Vec::new();
                let mut k: usize = 0;
                while k < idx
                    invariant
                        k <= idx,
                        idx <= v@.len(),
                        base@ == v@.take(k as int),
                    decreases idx - k,
                {
                    base.push(v[k]);
                    k += 1;
                    proof {
                        assert(base@ =~= v@.take(k as int));
                    }
                }
                let mut m = string_from_chars(base.as_slice());
                push_str(&mut m, " (occurred ");
                push_decimal(&mut m, n);
                push_str(&mut m, " times)");
                proof {
                    assert(first_occurrence(message@, "(occurred"@) is Some);
                    assert(first_occurrence(message@, " (occurred"@) == Some(idx as int));
                    assert(base@ == message@.take(idx as int));
                }
                m
            },
            None => {
                proof {
                    assert(first_occurrence(message@, "(occurred"@) is Some);
                    assert(first_occurrence(message@, " (occurred"@) is None);
                }
                owned(message)
            },
        }
    } else {
        let mut m = owned(message);
        push_str(&mut m, " (occurred ");
        push_decimal(&mut m, n);
        push_str(&mut m, " times)");
        m
    }
}

/// The id of the error notification of the message with the given hash: `error_<hash>`.
pub open spec fn error_id(h: u64) -> Seq<char> {
    "error_"@ + decimal(h as nat)
}

/// The id of the warning notification of the message with the given hash: `warning_<hash>`.
pub open spec fn warning_id(h: u64) -> Seq<char> {
    "warning_"@ + decimal(h as nat)
}

/// The id of the info notification of the message with the given hash: `info_<hash>`.
pub open spec fn info_id(h: u64) -> Seq<char> {
    "info_"@ + decimal(h as nat)
}

/// The id of the confirmation dialog of the message with the given hash: `confirm_<hash>`.
pub open spec fn confirm_id(h: u64) -> Seq<char> {
    "confirm_"@ + decimal(h as nat)
}

/// The hash of a message, as `DefaultHasher` computes the hash of a string.
pub uninterp spec fn hash_of(s: Seq<char>) -> u64;

/// `BuildHasher::hash_one` with the default hasher: the hash of a message, named by `hash_of`.
/// The default hasher is created with fixed keys, so the hash is the same for the same text.
#[verifier::external_body]
fn message_hash(s: &str) -> (h: u64)
    ensures
        h == hash_of(s@),
{
    std::hash::BuildHasher::hash_one(
        &std::hash::BuildHasherDefault::<std::collections::hash_map::DefaultHasher>::default(),
        s,
    )
}

/// How often an error was seen recently.
#[derive(Debug, Clone, Copy, PartialEq, Eq, Structural)]
pub struct ErrorTracker {
    pub count: usize,
    pub last_shown: u64,
    pub expires_at: u64,
}

/// A window drag in progress.
#[derive(Debug, Clone, Copy, PartialEq, Eq, Structural)]
pub struct DragState {
    /// Index of the dragged dialog in the queue.
    pub dialog_index: usize,
    /// Mouse position where the drag started.
    pub start_mouse_x: u16,
    pub start_mouse_y: u16,
    /// Window position (absolute) when the drag started.
    pub start_window_x: u16,
    pub start_window_y: u16,
}

/// The screen area a floating window occupies, for hit testing.
#[derive(Debug, Clone, Copy, PartialEq, Eq, Structural)]
pub struct WindowRect {
    /// Index of the dialog in the queue.
    pub index: usize,
    pub x: u16,
    pub y: u16,
    pub width: u16,
    pub height: u16,
}

/// Every dialog comes before the dialogs of lower priority.
pub open spec fn sorted_by_priority(s: Seq<Dialog>) -> bool {
    forall|i: int, j: int| 0 <= i < j < s.len() ==> s[i].priority.rank() >= s[j].priority.rank()
}

/// Where a dialog of priority rank `r` is inserted: before the first dialog of lower priority.
pub open spec fn insert_pos(s: Seq<Dialog>, r: int) -> int
    decreases s.len(),
{
    if s.len() == 0 {
        0
    } else if s[0].priority.rank() < r {
        0
    } else {
        1 + insert_pos(s.drop_first(), r)
    }
}

/// The queue after adding a dialog: inserted by priority, then cut to `max` dialogs from the
/// back.
pub open spec fn queue_with(s: Seq<Dialog>, d: Dialog, max: usize) -> Seq<Dialog> {
    let t = s.insert(insert_pos(s, d.priority.rank()), d);
    if t.len() > max {
        t.take(max as int)
    } else {
        t
    }
}

/// The dialogs that are still current at `now`: those that do not expire or expire no
/// earlier than `now`.
pub open spec fn current_dialogs(s: Seq<Dialog>, now: u64) -> Seq<Dialog>
    decreases s.len(),
{
    if s.len() == 0 {
        s
    } else {
        let r = current_dialogs(s.drop_last(), now);
        match s.last().expires_at {
            Some(t) => if t < now {
                r
            } else {
                r.push(s.last())
            },
            None => r.push(s.last()),
        }
    }
}

/// Time passed from `since` to `now`, zero if `now` is earlier.
pub open spec fn elapsed(now: u64, since: u64) -> int {
    if now >= since {
        now - since
    } else {
        0
    }
}

/// The dialog is the error notification with the given id.
pub open spec fn is_error_dialog(d: Dialog, id: Seq<char>) -> bool {
    &&& d.kind matches DialogKind::Notification { severity, .. }
    &&& severity == Severity::Error
    &&& d.id@ == id
}

/// The index of the first dialog that is the error notification with the given id.
pub open spec fn first_error_dialog(s: Seq<Dialog>, id: Seq<char>) -> Option<int> {
    if exists|i: int| 0 <= i < s.len() && is_error_dialog(s[i], id) {
        Some(
            choose|i: int|
                0 <= i < s.len() && is_error_dialog(s[i], id) && forall|j: int|
                    0 <= j < i ==> !is_error_dialog(s[j], id),
        )
    } else {
        None
    }
}

/// The new position of a dragged window coordinate: the start plus the mouse movement, not
/// below zero, truncated to 16 bits.
pub open spec fn dragged(start_window: u16, start_mouse: u16, mouse: u16) -> u16 {
    let v = start_window + (mouse - start_mouse);
    if v <= 0 {
        0
    } else if v < 0x10000 {
        v as u16
    } else {
        (v - 0x10000) as u16
    }
}

/// The dialog with its floating window moved to `pos`; other dialogs are unchanged.
pub open spec fn with_window_position(d: Dialog, pos: Position) -> Dialog {
    match d.kind {
        DialogKind::FloatingWindow { window, dismissible } => Dialog {
            kind: DialogKind::FloatingWindow {
                window: FloatingWindow { position: pos, ..window },
                dismissible,
            },
            ..d
        },
        _ => d,
    }
}

/// Manages modal dialogs and notifications.
#[derive(Debug)]
pub struct DialogManager {
    /// Active dialogs, sorted by priority (highest first).
    active: Vec<Dialog>,
    /// Recently shown errors, by message hash.
    recent_errors: HashMap<u64, ErrorTracker>,
    /// Minimum time between showings of the same error.
    error_cooldown: u64,
    /// Maximum number of dialogs kept in the queue.
    max_concurrent: usize,
    /// The window drag in progress.
    drag_state: Option<DragState>,
    /// The number the next unnamed floating window is named with.
    next_window: u64,
}

/// `after` is `before` with one more occurrence counted (see [`Dialog::increment_count`]).
pub open spec fn counted_once(before: Dialog, after: Dialog) -> bool {
    &&& after.id == before.id
    &&& after.expires_at == before.expires_at
    &&& after.priority == before.priority
    &&& match before.kind {
        DialogKind::Notification { message, severity, dismissible, occurrence_count } => {
            &&& after.kind matches DialogKind::Notification {
                message: m2,
                severity: s2,
                dismissible: d2,
                occurrence_count: c2,
            }
            &&& m2@ == counted_message(message@, (occurrence_count + 1) as nat)
            &&& s2 == severity
            &&& d2 == dismissible
            &&& c2 == occurrence_count + 1
        },
        _ => after.kind == before.kind,
    }
}

/// `d` is a fresh dismissible notification with the given text, severity, id, expiry and
/// priority, counted once.
pub open spec fn is_notification(
    d: Dialog,
    message: Seq<char>,
    severity: Severity,
    id: Seq<char>,
    expires_at: u64,
    priority: DialogPriority,
) -> bool {
    &&& d.id@ == id
    &&& d.kind matches DialogKind::Notification { message: m, severity: s, dismissible, occurrence_count }
    &&& m@ == message
    &&& s == severity
    &&& dismissible
    &&& occurrence_count == 1
    &&& d.expires_at == Some(expires_at)
    &&& d.priority == priority
}

/// What a key does to the topmost dialog: whether the key is consumed, whether the dialog is
/// closed, and the confirmed action.
///
/// A confirmation is closed by any key: confirmed by its confirm key (a character), cancelled
/// otherwise. A dismissible notification is closed by a character key; other notifications
/// and floating windows leave the key to the application.
pub open spec fn key_outcome(d: Dialog, key: KeyEvent) -> (bool, bool, Option<ConfirmAction>) {
    match d.kind {
        DialogKind::Confirmation { confirm_key, action, .. } => {
            if key.code == KeyCode::Char(confirm_key) {
                (true, true, Some(action))
            } else {
                (true, true, None)
            }
        },
        DialogKind::Notification { dismissible, .. } => {
            if dismissible && key.code is Char {
                (true, true, None)
            } else {
                (false, false, None)
            }
        },
        DialogKind::FloatingWindow { .. } => (false, false, None),
    }
}

/// The mouse is over the rectangle.
pub open spec fn hits(r: WindowRect, mouse: MouseEvent) -> bool {
    &&& mouse.column >= r.x
    &&& mouse.column < r.x + r.width
    &&& mouse.row >= r.y
    &&& mouse.row < r.y + r.height
}

/// A press on the rectangle grabs the floating window it belongs to.
pub open spec fn grabs(r: WindowRect, mouse: MouseEvent, active: Seq<Dialog>) -> bool {
    &&& hits(r, mouse)
    &&& r.index < active.len()
    &&& active[r.index as int].kind is FloatingWindow
}

/// The first rectangle whose window a press grabs.
pub open spec fn first_grab(rects: Seq<WindowRect>, mouse: MouseEvent, active: Seq<Dialog>) -> Option<
    int,
> {
    if exists|k: int| 0 <= k < rects.len() && grabs(rects[k], mouse, active) {
        Some(
            choose|k: int|
                0 <= k < rects.len() && grabs(rects[k], mouse, active) && forall|j: int|
                    0 <= j < k ==> !grabs(rects[j], mouse, active),
        )
    } else {
        None
    }
}

/// Where a grabbed window starts its drag: its absolute position, or the rectangle's corner
/// when it is placed by percentage.
pub open spec fn grab_origin(d: Dialog, r: WindowRect) -> (u16, u16) {
    match d.kind {
        DialogKind::FloatingWindow { window, .. } => match window.position {
            Position::Absolute { x, y } => (x, y),
            Position::Percent { .. } => (r.x, r.y),
        },
        _ => (r.x, r.y),
    }
}

/// The trackers of errors still remembered at `now`.
pub open spec fn remembered(m: Map<u64, ErrorTracker>, now: u64) -> Map<u64, ErrorTracker> {
    Map::new(|k: u64| m.contains_key(k) && m[k].expires_at >= now, |k: u64| m[k])
}

/// The index of the first dialog with the given id.
pub open spec fn first_with_id(s: Seq<Dialog>, id: Seq<char>) -> Option<int> {
    if exists|i: int| 0 <= i < s.len() && s[i].id@ == id {
        Some(
            choose|i: int|
                0 <= i < s.len() && s[i].id@ == id && forall|j: int| 0 <= j < i ==> s[j].id@ != id,
        )
    } else {
        None
    }
}

/// Inserting at [`insert_pos`] keeps the queue sorted: every dialog before the position has
/// at least the new priority, every one after it a lower priority.
pub proof fn lemma_insert_pos(s: Seq<Dialog>, r: int)
    requires
        sorted_by_priority(s),
    ensures
        0 <= insert_pos(s, r) <= s.len(),
        forall|i: int| 0 <= i < insert_pos(s, r) ==> s[i].priority.rank() >= r,
        forall|i: int| insert_pos(s, r) <= i < s.len() ==> s[i].priority.rank() < r,
    decreases s.len(),
{
    if s.len() > 0 && s[0].priority.rank() >= r {
        let t = s.drop_first();
        assert(sorted_by_priority(t));
        lemma_insert_pos(t, r);
        assert forall|i: int| 1 <= i < insert_pos(s, r) implies s[i].priority.rank() >= r by {
            assert(s[i] == t[i - 1]);
        }
        assert forall|i: int| insert_pos(s, r) <= i < s.len() implies s[i].priority.rank() < r by {
            assert(s[i] == t[i - 1]);
        }
    }
}

/// Adding a dialog keeps the queue sorted by priority, highest first.
pub proof fn lemma_queue_sorted(s: Seq<Dialog>, d: Dialog, max: usize)
    requires
        sorted_by_priority(s),
    ensures
        sorted_by_priority(queue_with(s, d, max)),
{
    let r = d.priority.rank();
    lemma_insert_pos(s, r);
    let p = insert_pos(s, r);
    let t = s.insert(p, d);
    assert forall|i: int, j: int| 0 <= i < j < t.len() implies t[i].priority.rank()
        >= t[j].priority.rank() by {
        if j < p {
            assert(t[i] == s[i] && t[j] == s[j]);
        } else if j == p {
            assert(t[i] == s[i]);
        } else if i < p {
            assert(t[i] == s[i] && t[j] == s[j - 1]);
        } else if i == p {
            assert(t[j] == s[j - 1]);
        } else {
            assert(t[i] == s[i - 1] && t[j] == s[j - 1]);
        }
    }
}

/// After a dialog is added the queue holds at most `max` dialogs.
pub proof fn lemma_queue_bounded(s: Seq<Dialog>, d: Dialog, max: usize)
    ensures
        queue_with(s, d, max).len() <= max || queue_with(s, d, max).len() == s.len() + 1 <= max,
        queue_with(s, d, max).len() <= max,
{
}

/// Every current dialog is a dialog of the queue.
proof fn lemma_current_from(s: Seq<Dialog>, now: u64)
    ensures
        forall|k: int|
            #![trigger current_dialogs(s, now)[k]]
            0 <= k < current_dialogs(s, now).len() ==> exists|i: int|
                #![trigger s[i]]
                0 <= i < s.len() && current_dialogs(s, now)[k] == s[i],
        current_dialogs(s, now).len() <= s.len(),
    decreases s.len(),
{
    if s.len() > 0 {
        let t = s.drop_last();
        lemma_current_from(t, now);
        let c = current_dialogs(s, now);
        assert forall|k: int| #![trigger c[k]] 0 <= k < c.len() implies exists|i: int|
            #![trigger s[i]]
            0 <= i < s.len() && c[k] == s[i] by {
            if k < current_dialogs(t, now).len() {
                let i = choose|i: int| 0 <= i < t.len() && current_dialogs(t, now)[k] == t[i];
                assert(t[i] == s[i]);
                assert(c[k] == s[i]);
            } else {
                assert(c[k] == s[s.len() - 1]);
            }
        }
    }
}

/// Dropping expired dialogs keeps the queue sorted.
pub proof fn lemma_current_sorted(s: Seq<Dialog>, now: u64)
    requires
        sorted_by_priority(s),
    ensures
        sorted_by_priority(current_dialogs(s, now)),
    decreases s.len(),
{
    if s.len() > 0 {
        let t = s.drop_last();
        assert(sorted_by_priority(t));
        lemma_current_sorted(t, now);
        lemma_current_from(t, now);
        let c = current_dialogs(t, now);
        assert forall|k: int| 0 <= k < c.len() implies c[k].priority.rank() >= s.last().priority.rank() by {
            let i = choose|i: int| 0 <= i < t.len() && c[k] == t[i];
            assert(c[k] == s[i]);
        }
    }
}

impl DialogManager {
    /// The queue of active dialogs, highest priority first.
    pub closed spec fn spec_active(&self) -> Seq<Dialog> {
        self.active@
    }

    /// The recently shown errors, by message hash.
    pub closed spec fn spec_errors(&self) -> Map<u64, ErrorTracker> {
        self.recent_errors@
    }

    /// The maximum number of dialogs kept in the queue.
    pub closed spec fn spec_max(&self) -> usize {
        self.max_concurrent
    }

    /// The window drag in progress.
    pub closed spec fn spec_drag(&self) -> Option<DragState> {
        self.drag_state
    }

    /// The number the next unnamed floating window is named with.
    pub closed spec fn spec_next_window(&self) -> u64 {
        self.next_window
    }

    /// The manager is well formed: its queue is sorted by priority and errors cool down for the
    /// standard time.
    pub closed spec fn wf(&self) -> bool {
        &&& sorted_by_priority(self.active@)
        &&& self.error_cooldown == ERROR_COOLDOWN_MS
    }

    /// A manager with no dialogs, keeping at most three at a time.
    pub fn new() -> (m: DialogManager)
        ensures
            m.wf(),
            m.spec_active() == Seq::<Dialog>::empty(),
            m.spec_errors() == Map::<u64, ErrorTracker>::empty(),
            m.spec_max() == 3,
            m.spec_drag() is None,
            m.spec_next_window() == 0,
    {
        DialogManager {
            active: Vec::new(),
            recent_errors: HashMap::new(),
            error_cooldown: ERROR_COOLDOWN_MS,
            max_concurrent: 3,
            drag_state: None,
            next_window: 0,
        }
    }

    /// The maximum number of dialogs kept in the queue.
    pub fn max_concurrent(&self) -> (n: usize)
        ensures
            n == self.spec_max(),
    {
        self.max_concurrent
    }

    /// Change the maximum number of dialogs kept in the queue; it applies from the next added
    /// dialog on.
    pub fn set_max_concurrent(&mut self, max: usize)
        ensures
            final(self).spec_max() == max,
            final(self).spec_active() == old(self).spec_active(),
            final(self).spec_errors() == old(self).spec_errors(),
            final(self).spec_drag() == old(self).spec_drag(),
            final(self).spec_next_window() == old(self).spec_next_window(),
            final(self).wf() == old(self).wf(),
    {
        self.max_concurrent = max;
    }

    /// The topmost dialog: the first of the queue.
    pub fn get_active(&self) -> (r: Option<&Dialog>)
        ensures
            match r {
                Some(d) => self.spec_active().len() > 0 && *d == self.spec_active()[0],
                None => self.spec_active().len() == 0,
            },
    {
        if self.active.len() == 0 {
            None
        } else {
            Some(&self.active[0])
        }
    }

    /// All active dialogs, highest priority first.
    pub fn get_all_active(&self) -> (r: &[Dialog])
        ensures
            r@ == self.spec_active(),
    {
        self.active.as_slice()
    }

    /// Add a dialog by priority, then drop dialogs from the back beyond the maximum.
    pub fn add_dialog(&mut self, dialog: Dialog)
        requires
            old(self).wf(),
        ensures
            final(self).wf(),
            final(self).spec_active() == queue_with(old(self).spec_active(), dialog, old(self).spec_max()),
            final(self).spec_errors() == old(self).spec_errors(),
            final(self).spec_max() == old(self).spec_max(),
            final(self).spec_drag() == old(self).spec_drag(),
            final(self).spec_next_window() == old(self).spec_next_window(),
    {
        let ghost s = self.active@;
        let r = dialog.priority.level();
        let mut pos: usize = 0;
        proof {
            assert(s.skip(0) =~= s);
        }
        while pos < self.active.len() && !(self.active[pos].priority.level() < r)
            invariant
                self.active@ == s,
                pos <= s.len(),
                r == dialog.priority.rank(),
                insert_pos(s, r as int) == pos + insert_pos(s.skip(pos as int), r as int),
            decreases s.len() - pos,
        {
            proof {
                assert(s.skip(pos as int).drop_first() =~= s.skip(pos + 1));
            }
            pos += 1;
        }
        proof {
            if pos < s.len() {
                assert(s.skip(pos as int)[0] == s[pos as int]);
            }
        }
        self.active.insert(pos, dialog);
        let ghost t = self.active@;
        let ghost errors = self.recent_errors@;
        let max = self.max_concurrent;
        while self.active.len() > max
            invariant
                max == self.max_concurrent,
                self.active@.len() <= t.len(),
                t.len() > max ==> self.active@ == t.take(self.active@.len() as int)
                    && self.active@.len() >= max,
                t.len() <= max ==> self.active@ == t,
                self.recent_errors@ == errors,
                self.error_cooldown == old(self).error_cooldown,
                self.drag_state == old(self).drag_state,
                self.next_window == old(self).next_window,
            decreases self.active@.len(),
        {
            let ghost before = self.active@;
            self.active.pop();
            proof {
                assert(t.take(before.len() as int).drop_last() =~= t.take(before.len() - 1));
            }
        }
        proof {
            if t.len() > max {
                assert(self.active@ =~= t.take(max as int));
            }
            lemma_queue_sorted(s, dialog, max);
        }
    }

    /// Drop the dialogs that expired before `now`, and forget the errors no longer remembered.
    pub fn tick(&mut self, now: u64)
        requires
            old(self).wf(),
        ensures
            final(self).wf(),
            final(self).spec_active() == current_dialogs(old(self).spec_active(), now),
            final(self).spec_errors() == remembered(old(self).spec_errors(), now),
            final(self).spec_max() == old(self).spec_max(),
            final(self).spec_drag() == old(self).spec_drag(),
            final(self).spec_next_window() == old(self).spec_next_window(),
    {
        let ghost s = self.active@;
        let ghost mut j: int = 0;
        let mut i: usize = 0;
        proof {
            assert(s.take(0) =~= Seq::<Dialog>::empty());
            assert(s.skip(0) =~= s);
            assert(self.active@ =~= current_dialogs(s.take(0), now) + s.skip(0));
        }
        while i < self.active.len()
            invariant
                0 <= j <= s.len(),
                self.active@ == current_dialogs(s.take(j), now) + s.skip(j),
                i == current_dialogs(s.take(j), now).len(),
                self.recent_errors@ == old(self).recent_errors@,
                self.error_cooldown == old(self).error_cooldown,
                self.max_concurrent == old(self).max_concurrent,
                self.drag_state == old(self).drag_state,
                self.next_window == old(self).next_window,
            decreases s.len() - j,
        {
            proof {
                assert(s.take(j + 1).drop_last() =~= s.take(j));
                assert(s.take(j + 1).last() == s[j]);
                assert(self.active@[i as int] == s[j]);
                assert(s.skip(j).drop_first() =~= s.skip(j + 1));
            }
            let expired = match self.active[i].expires_at {
                Some(t) => t < now,
                None => false,
            };
            if expired {
                self.active.remove(i);
                proof {
                    assert(self.active@ =~= current_dialogs(s.take(j + 1), now) + s.skip(j + 1));
                }
            } else {
                i += 1;
                proof {
                    assert(self.active@ =~= current_dialogs(s.take(j + 1), now) + s.skip(j + 1));
                }
            }
            proof {
                j = j + 1;
            }
        }
        proof {
            assert(s.take(j) =~= s) by {
                if j < s.len() {
                    assert(self.active@.len() > i);
                }
            }
            assert(self.active@ =~= current_dialogs(s, now));
            lemma_current_sorted(s, now);
        }
        self.forget_errors(now);
    }

    /// Forget the errors no longer remembered at `now`.
    fn forget_errors(&mut self, now: u64)
        ensures
            final(self).active@ == old(self).active@,
            final(self).error_cooldown == old(self).error_cooldown,
            final(self).spec_errors() == remembered(old(self).spec_errors(), now),
            final(self).spec_max() == old(self).spec_max(),
            final(self).spec_drag() == old(self).spec_drag(),
            final(self).spec_next_window() == old(self).spec_next_window(),
    {
        let ghost m = self.recent_errors@;
        let mut hashes: Vec<u64> = Vec::new();
        let keys = self.recent_errors.keys();
        let ghost all: Seq<&u64> = keys.remaining();
        for k in it: keys
            invariant
                it.seq() == all,
                hashes@ == all.take(it.index() as int).map_values(|r: &u64| *r),
                all.unref().to_set() == m.dom(),
                self.recent_errors@ == m,
                self.active@ == old(self).active@,
                self.error_cooldown == old(self).error_cooldown,
                self.max_concurrent == old(self).max_concurrent,
                self.drag_state == old(self).drag_state,
                self.next_window == old(self).next_window,
        {
            hashes.push(*k);
            proof {
                assert(hashes@ =~= all.take(it.index() + 1).map_values(|r: &u64| *r));
            }
        }
        proof {
            assert(all.take(all.len() as int) =~= all);
            assert(hashes@ =~= all.unref());
        }
        let mut n: usize = 0;
        while n < hashes.len()
            invariant
                n <= hashes@.len(),
                hashes@.to_set() == m.dom(),
                forall|x: u64|
                    #![trigger self.recent_errors@.contains_key(x)]
                    self.recent_errors@.contains_key(x) == (m.contains_key(x) && (
                    hashes@.take(n as int).contains(x) ==> m[x].expires_at >= now)),
                forall|x: u64| #[trigger]
                    self.recent_errors@.contains_key(x) ==> self.recent_errors@[x] == m[x],
                self.active@ == old(self).active@,
                self.error_cooldown == old(self).error_cooldown,
                self.max_concurrent == old(self).max_concurrent,
                self.drag_state == old(self).drag_state,
                self.next_window == old(self).next_window,
            decreases hashes@.len() - n,
        {
            let h = hashes[n];
            let expired = match self.recent_errors.get(&h) {
                Some(t) => t.expires_at < now,
                None => false,
            };
            if expired {
                self.recent_errors.remove(&h);
            }
            proof {
                broadcast use vstd::seq_lib::group_seq_properties;

                assert(hashes@.take(n + 1) =~= hashes@.take(n as int).push(h));
            }
            n += 1;
        }
        proof {
            assert(hashes@.take(n as int) =~= hashes@);
            assert forall|x: u64| m.contains_key(x) implies hashes@.contains(x) by {
                assert(hashes@.to_set().contains(x));
            }
            assert(self.recent_errors@ =~= remembered(m, now));
        }
    }
}

impl DialogManager {
    /// Offer a key to the topmost dialog (see [`key_outcome`]). Returns whether the key was
    /// consumed, and the action of a confirmation the key confirmed.
    pub fn handle_key(&mut self, key: &KeyEvent) -> (r: (bool, Option<ConfirmAction>))
        requires
            old(self).wf(),
        ensures
            final(self).wf(),
            old(self).spec_active().len() == 0 ==> r == (false, None::<ConfirmAction>)
                && final(self).spec_active() == old(self).spec_active(),
            old(self).spec_active().len() > 0 ==> {
                let (consumed, close, action) = key_outcome(old(self).spec_active()[0], *key);
                &&& r == (consumed, action)
                &&& final(self).spec_active() == if close {
                    old(self).spec_active().drop_first()
                } else {
                    old(self).spec_active()
                }
            },
            final(self).spec_errors() == old(self).spec_errors(),
            final(self).spec_max() == old(self).spec_max(),
            final(self).spec_drag() == old(self).spec_drag(),
            final(self).spec_next_window() == old(self).spec_next_window(),
    {
        if self.active.len() == 0 {
            return (false, None);
        }
        let (consumed, close, action) = match &self.active[0].kind {
            DialogKind::Confirmation { confirm_key, action, .. } => {
                let confirmed = match key.code {
                    KeyCode::Char(c) => c == *confirm_key,
                    _ => false,
                };
                if confirmed {
                    (true, true, Some(*action))
                } else {
                    (true, true, None)
                }
            },
            DialogKind::Notification { dismissible, .. } => {
                let is_char = match key.code {
                    KeyCode::Char(_) => true,
                    _ => false,
                };
                if *dismissible && is_char {
                    (true, true, None)
                } else {
                    (false, false, None)
                }
            },
            DialogKind::FloatingWindow { .. } => (false, false, None),
        };
        if close {
            self.active.remove(0);
            proof {
                assert(self.active@ =~= old(self).active@.drop_first());
            }
        }
        (consumed, action)
    }

    /// Drag floating windows with the left mouse button.
    ///
    /// A press on a floating window (the first of `window_rects`, in order, under the mouse
    /// whose dialog is a floating window) starts a drag and pins the window at an absolute
    /// position; moving the mouse during a drag moves the window by the mouse's movement; a
    /// release ends the drag. Returns whether the event was consumed.
    pub fn handle_mouse(&mut self, mouse: &MouseEvent, window_rects: &[WindowRect]) -> (consumed:
        bool)
        requires
            old(self).wf(),
            forall|k: int|
                0 <= k < window_rects@.len() ==> window_rects@[k].x + window_rects@[k].width
                    <= u16::MAX && window_rects@[k].y + window_rects@[k].height <= u16::MAX,
        ensures
            final(self).wf(),
            final(self).spec_errors() == old(self).spec_errors(),
            final(self).spec_max() == old(self).spec_max(),
            final(self).spec_next_window() == old(self).spec_next_window(),
            mouse.kind == MouseEventKind::Down(MouseButton::Left) ==> match first_grab(
                window_rects@,
                *mouse,
                old(self).spec_active(),
            ) {
                Some(k) => {
                    let r = window_rects@[k];
                    let d = old(self).spec_active()[r.index as int];
                    let (x, y) = grab_origin(d, r);
                    &&& consumed
                    &&& final(self).spec_active() == old(self).spec_active().update(
                        r.index as int,
                        with_window_position(d, Position::Absolute { x, y }),
                    )
                    &&& final(self).spec_drag() == Some(
                        DragState {
                            dialog_index: r.index,
                            start_mouse_x: mouse.column,
                            start_mouse_y: mouse.row,
                            start_window_x: x,
                            start_window_y: y,
                        },
                    )
                },
                None => !consumed && final(self).spec_active() == old(self).spec_active()
                    && final(self).spec_drag() == old(self).spec_drag(),
            },
            (mouse.kind == MouseEventKind::Drag(MouseButton::Left) || mouse.kind
                == MouseEventKind::Moved) ==> match old(self).spec_drag() {
                Some(ds) => if ds.dialog_index < old(self).spec_active().len()
                    && old(self).spec_active()[ds.dialog_index as int].kind is FloatingWindow {
                    let d = old(self).spec_active()[ds.dialog_index as int];
                    &&& consumed
                    &&& final(self).spec_active() == old(self).spec_active().update(
                        ds.dialog_index as int,
                        with_window_position(
                            d,
                            Position::Absolute {
                                x: dragged(ds.start_window_x, ds.start_mouse_x, mouse.column),
                                y: dragged(ds.start_window_y, ds.start_mouse_y, mouse.row),
                            },
                        ),
                    )
                    &&& final(self).spec_drag() == old(self).spec_drag()
                } else {
                    !consumed && final(self).spec_active() == old(self).spec_active()
                        && final(self).spec_drag() == old(self).spec_drag()
                },
                None => !consumed && final(self).spec_active() == old(self).spec_active()
                    && final(self).spec_drag() == old(self).spec_drag(),
            },
            mouse.kind == MouseEventKind::Up(MouseButton::Left) ==> {
                &&& consumed == old(self).spec_drag() is Some
                &&& final(self).spec_drag() is None
                &&& final(self).spec_active() == old(self).spec_active()
            },
            !(mouse.kind == MouseEventKind::Down(MouseButton::Left) || mouse.kind
                == MouseEventKind::Drag(MouseButton::Left) || mouse.kind == MouseEventKind::Moved
                || mouse.kind == MouseEventKind::Up(MouseButton::Left)) ==> {
                &&& !consumed
                &&& final(self).spec_active() == old(self).spec_active()
                &&& final(self).spec_drag() == old(self).spec_drag()
            },
    {
        match mouse.kind {
            MouseEventKind::Down(MouseButton::Left) => self.start_drag(mouse, window_rects),
            MouseEventKind::Drag(MouseButton::Left) | MouseEventKind::Moved => {
                self.continue_drag(mouse)
            },
            MouseEventKind::Up(MouseButton::Left) => {
                if self.drag_state.is_some() {
                    self.drag_state = None;
                    true
                } else {
                    false
                }
            },
            _ => false,
        }
    }

    /// Move the floating window of the dialog at `index` to `pos`.
    fn place_window(&mut self, index: usize, pos: Position)
        requires
            index < old(self).active@.len(),
            sorted_by_priority(old(self).active@),
        ensures
            final(self).active@ == old(self).active@.update(
                index as int,
                with_window_position(old(self).active@[index as int], pos),
            ),
            sorted_by_priority(final(self).active@),
            final(self).recent_errors@ == old(self).recent_errors@,
            final(self).error_cooldown == old(self).error_cooldown,
            final(self).max_concurrent == old(self).max_concurrent,
            final(self).drag_state == old(self).drag_state,
            final(self).next_window == old(self).next_window,
    {
        let mut d = self.active.remove(index);
        match &mut d.kind {
            DialogKind::FloatingWindow { window, .. } => {
                window.position = pos;
            },
            _ => {},
        }
        self.active.insert(index, d);
        proof {
            assert(self.active@ =~= old(self).active@.update(
                index as int,
                with_window_position(old(self).active@[index as int], pos),
            ));
            let s = self.active@;
            let o = old(self).active@;
            assert forall|i: int, j: int| 0 <= i < j < s.len() implies s[i].priority.rank()
                >= s[j].priority.rank() by {
                assert(s[i].priority == o[i].priority);
                assert(s[j].priority == o[j].priority);
            }
        }
    }

    /// A left button press: grab the first floating window under the mouse.
    fn start_drag(&mut self, mouse: &MouseEvent, window_rects: &[WindowRect]) -> (consumed: bool)
        requires
            old(self).wf(),
            forall|k: int|
                0 <= k < window_rects@.len() ==> window_rects@[k].x + window_rects@[k].width
                    <= u16::MAX && window_rects@[k].y + window_rects@[k].height <= u16::MAX,
        ensures
            final(self).wf(),
            final(self).spec_errors() == old(self).spec_errors(),
            final(self).spec_max() == old(self).spec_max(),
            final(self).spec_next_window() == old(self).spec_next_window(),
            match first_grab(window_rects@, *mouse, old(self).spec_active()) {
                Some(k) => {
                    let r = window_rects@[k];
                    let d = old(self).spec_active()[r.index as int];
                    let (x, y) = grab_origin(d, r);
                    &&& consumed
                    &&& final(self).spec_active() == old(self).spec_active().update(
                        r.index as int,
                        with_window_position(d, Position::Absolute { x, y }),
                    )
                    &&& final(self).spec_drag() == Some(
                        DragState {
                            dialog_index: r.index,
                            start_mouse_x: mouse.column,
                            start_mouse_y: mouse.row,
                            start_window_x: x,
                            start_window_y: y,
                        },
                    )
                },
                None => !consumed && final(self).spec_active() == old(self).spec_active()
                    && final(self).spec_drag() == old(self).spec_drag(),
            },
    {
        let ghost active = self.active@;
        let mut k: usize = 0;
        while k < window_rects.len()
            invariant
                k <= window_rects@.len(),
                self.active@ == active,
                active == old(self).active@,
                sorted_by_priority(active),
                self.recent_errors@ == old(self).recent_errors@,
                self.error_cooldown == old(self).error_cooldown,
                self.error_cooldown == ERROR_COOLDOWN_MS,
                self.max_concurrent == old(self).max_concurrent,
                self.drag_state == old(self).drag_state,
                self.next_window == old(self).next_window,
                forall|j: int| 0 <= j < k ==> !grabs(window_rects@[j], *mouse, active),
                forall|q: int|
                    0 <= q < window_rects@.len() ==> window_rects@[q].x + window_rects@[q].width
                        <= u16::MAX && window_rects@[q].y + window_rects@[q].height <= u16::MAX,
            decreases window_rects@.len() - k,
        {
            let r = window_rects[k];
            match self.grab_origin_at(r, mouse) {
                Some((x, y)) => {
                    proof {
                        lemma_first_grab(window_rects@, *mouse, active, k as int);
                    }
                    self.place_window(r.index, Position::Absolute { x, y });
                    self.drag_state = Some(
                        DragState {
                            dialog_index: r.index,
                            start_mouse_x: mouse.column,
                            start_mouse_y: mouse.row,
                            start_window_x: x,
                            start_window_y: y,
                        },
                    );
                    return true;
                },
                None => {},
            }
            k += 1;
        }
        proof {
            assert(!(exists|c: int| 0 <= c < window_rects@.len() && grabs(window_rects@[c], *mouse, active)));
        }
        false
    }

    /// Where a press on `r` grabs a floating window, the position its drag starts from.
    fn grab_origin_at(&self, r: WindowRect, mouse: &MouseEvent) -> (o: Option<(u16, u16)>)
        requires
            r.x + r.width <= u16::MAX,
            r.y + r.height <= u16::MAX,
        ensures
            o is Some <==> grabs(r, *mouse, self.active@),
            o matches Some(p) ==> p == grab_origin(self.active@[r.index as int], r),
    {
        if mouse.column >= r.x && mouse.column < r.x + r.width && mouse.row >= r.y && mouse.row
            < r.y + r.height && r.index < self.active.len() {
            match &self.active[r.index].kind {
                DialogKind::FloatingWindow { window, .. } => match window.position {
                    Position::Absolute { x, y } => Some((x, y)),
                    Position::Percent { .. } => Some((r.x, r.y)),
                },
                _ => None,
            }
        } else {
            None
        }
    }

    /// Mouse movement: move the window being dragged.
    fn continue_drag(&mut self, mouse: &MouseEvent) -> (consumed: bool)
        requires
            old(self).wf(),
        ensures
            final(self).wf(),
            final(self).spec_errors() == old(self).spec_errors(),
            final(self).spec_max() == old(self).spec_max(),
            final(self).spec_next_window() == old(self).spec_next_window(),
            final(self).spec_drag() == old(self).spec_drag(),
            match old(self).spec_drag() {
                Some(ds) => if ds.dialog_index < old(self).spec_active().len()
                    && old(self).spec_active()[ds.dialog_index as int].kind is FloatingWindow {
                    let d = old(self).spec_active()[ds.dialog_index as int];
                    &&& consumed
                    &&& final(self).spec_active() == old(self).spec_active().update(
                        ds.dialog_index as int,
                        with_window_position(
                            d,
                            Position::Absolute {
                                x: dragged(ds.start_window_x, ds.start_mouse_x, mouse.column),
                                y: dragged(ds.start_window_y, ds.start_mouse_y, mouse.row),
                            },
                        ),
                    )
                } else {
                    !consumed && final(self).spec_active() == old(self).spec_active()
                },
                None => !consumed && final(self).spec_active() == old(self).spec_active(),
            },
    {
        let ds = match self.drag_state {
            Some(ds) => ds,
            None => return false,
        };
        if ds.dialog_index >= self.active.len() {
            return false;
        }
        let is_window = match &self.active[ds.dialog_index].kind {
            DialogKind::FloatingWindow { .. } => true,
            _ => false,
        };
        if !is_window {
            return false;
        }
        let x = drag_coordinate(ds.start_window_x, ds.start_mouse_x, mouse.column);
        let y = drag_coordinate(ds.start_window_y, ds.start_mouse_y, mouse.row);
        self.place_window(ds.dialog_index, Position::Absolute { x, y });
        true
    }
}

/// The first rectangle that grabs a window is the one found by walking the rectangles in order.
proof fn lemma_first_grab(rects: Seq<WindowRect>, mouse: MouseEvent, active: Seq<Dialog>, k: int)
    requires
        0 <= k < rects.len(),
        grabs(rects[k], mouse, active),
        forall|j: int| 0 <= j < k ==> !grabs(rects[j], mouse, active),
    ensures
        first_grab(rects, mouse, active) == Some(k),
{
    let c = choose|c: int|
        0 <= c < rects.len() && grabs(rects[c], mouse, active) && forall|j: int|
            0 <= j < c ==> !grabs(rects[j], mouse, active);
    assert(c == k) by {
        if c < k {
            assert(!grabs(rects[c], mouse, active));
        }
        if k < c {
            assert(!grabs(rects[k], mouse, active));
        }
    }
}

/// A coordinate of a dragged window (see [`dragged`]).
fn drag_coordinate(start_window: u16, start_mouse: u16, mouse: u16) -> (v: u16)
    ensures
        v == dragged(start_window, start_mouse, mouse),
{
    let delta: i32 = mouse as i32 - start_mouse as i32;
    let w: i32 = start_window as i32 + delta;
    if w <= 0 {
        0
    } else if w < 0x10000 {
        w as u16
    } else {
        (w - 0x10000) as u16
    }
}

/// `prefix` followed by the decimal form of `h`.
fn dialog_id(prefix: &str, h: u64) -> (s: String)
    ensures
        s@ == prefix@ + decimal(h as nat),
{
    let mut s = owned(prefix);
    push_decimal(&mut s, h);
    s
}

/// A dismissible notification counted once.
fn notification(
    id: String,
    message: String,
    severity: Severity,
    expires_at: u64,
    priority: DialogPriority,
) -> (d: Dialog)
    ensures
        is_notification(d, message@, severity, id@, expires_at, priority),
{
    Dialog {
        id,
        kind: DialogKind::Notification { message, severity, dismissible: true, occurrence_count: 1 },
        expires_at: Some(expires_at),
        priority,
    }
}

impl DialogManager {
    /// The error with hash `h` was shown less than the cooldown before `now`.
    pub open spec fn cooling(&self, h: u64, now: u64) -> bool {
        &&& self.spec_errors().contains_key(h)
        &&& elapsed(now, self.spec_errors()[h].last_shown) < ERROR_COOLDOWN_MS
    }

    /// Showing the error `message` now counts one more occurrence on its notification: the
    /// error cools down and its notification is still queued.
    pub open spec fn counts_again(&self, message: Seq<char>, now: u64) -> bool {
        let h = hash_of(message);
        self.cooling(h, now) && first_error_dialog(self.spec_active(), error_id(h)) is Some
    }

    /// Where showing the error counts one more occurrence, both counts have room for it.
    pub open spec fn can_show_error(&self, message: Seq<char>, now: u64) -> bool {
        let h = hash_of(message);
        self.counts_again(message, now) ==> {
            let i = first_error_dialog(self.spec_active(), error_id(h)).unwrap();
            &&& self.spec_errors()[h].count < usize::MAX
            &&& self.spec_active()[i].kind matches DialogKind::Notification { occurrence_count, .. }
                && occurrence_count < usize::MAX
        }
    }

    /// Show an error notification, without repeating it: an error shown less than the cooldown
    /// ago whose notification is still queued has the occurrence count of that notification
    /// raised instead; otherwise a fresh notification is shown and the error's cooldown starts
    /// over. Returns the notification's id, `error_<hash of the message>`.
    pub fn show_error(&mut self, message: String, now: u64) -> (id: String)
        requires
            old(self).wf(),
            now <= u64::MAX - ERROR_TIMEOUT_MS,
            old(self).can_show_error(message@, now),
        ensures
            final(self).wf(),
            id@ == error_id(hash_of(message@)),
            final(self).spec_max() == old(self).spec_max(),
            final(self).spec_drag() == old(self).spec_drag(),
            final(self).spec_next_window() == old(self).spec_next_window(),
            ({
                let h = hash_of(message@);
                old(self).counts_again(message@, now) ==> {
                    let i = first_error_dialog(old(self).spec_active(), error_id(h)).unwrap();
                    let t = old(self).spec_errors()[h];
                    &&& final(self).spec_errors() == old(self).spec_errors().insert(
                        h,
                        ErrorTracker { count: (t.count + 1) as usize, ..t },
                    )
                    &&& final(self).spec_active().len() == old(self).spec_active().len()
                    &&& counted_once(old(self).spec_active()[i], final(self).spec_active()[i])
                    &&& forall|j: int|
                        0 <= j < old(self).spec_active().len() && j != i
                            ==> #[trigger] final(self).spec_active()[j] == old(self).spec_active()[j]
                }
            }),
            ({
                let h = hash_of(message@);
                !old(self).counts_again(message@, now) ==> {
                    &&& exists|d: Dialog|
                        is_notification(
                            d,
                            message@,
                            Severity::Error,
                            error_id(h),
                            (now + ERROR_TIMEOUT_MS) as u64,
                            DialogPriority::Normal,
                        ) && final(self).spec_active() == queue_with(
                            old(self).spec_active(),
                            d,
                            old(self).spec_max(),
                        )
                    &&& final(self).spec_errors() == old(self).spec_errors().insert(
                        h,
                        ErrorTracker {
                            count: 1,
                            last_shown: now,
                            expires_at: (now + ERROR_COOLDOWN_MS + ERROR_MEMORY_MS) as u64,
                        },
                    )
                }
            }),
    {
        let h = message_hash(message.as_str());
        let id = dialog_id("error_", h);
        let cooling = match self.recent_errors.get(&h) {
            Some(t) => {
                let since: u64 = if now >= t.last_shown {
                    now - t.last_shown
                } else {
                    0
                };
                since < self.error_cooldown
            },
            None => false,
        };
        if cooling {
            if self.find_error_dialog_opt(&id).is_some() {
                self.count_again(h, &id);
                return id;
            }
        }
        let d = notification(
            id.clone(),
            message,
            Severity::Error,
            now + ERROR_TIMEOUT_MS,
            DialogPriority::Normal,
        );
        let ghost gd = d;
        self.add_dialog(d);
        assert(is_notification(
            gd,
            message@,
            Severity::Error,
            error_id(hash_of(message@)),
            (now + ERROR_TIMEOUT_MS) as u64,
            DialogPriority::Normal,
        ));
        self.recent_errors.insert(
            h,
            ErrorTracker {
                count: 1,
                last_shown: now,
                expires_at: now + self.error_cooldown + ERROR_MEMORY_MS,
            },
        );
        id
    }

    /// Count one more occurrence of the cooling error with hash `h` and notification id `id`.
    #[verifier::spinoff_prover]
    #[verifier::rlimit(40)]
    fn count_again(&mut self, h: u64, id: &String)
        requires
            old(self).wf(),
            old(self).recent_errors@.contains_key(h),
            old(self).recent_errors@[h].count < usize::MAX,
            first_error_dialog(old(self).active@, id@) matches Some(i) && old(
                self,
            ).active@[i].kind matches DialogKind::Notification { occurrence_count, .. }
                && occurrence_count < usize::MAX,
        ensures
            final(self).wf(),
            ({
                let i = first_error_dialog(old(self).active@, id@).unwrap();
                let t = old(self).recent_errors@[h];
                &&& final(self).recent_errors@ == old(self).recent_errors@.insert(
                    h,
                    ErrorTracker { count: (t.count + 1) as usize, ..t },
                )
                &&& final(self).active@.len() == old(self).active@.len()
                &&& counted_once(old(self).active@[i], final(self).active@[i])
                &&& forall|j: int|
                    0 <= j < old(self).active@.len() && j != i ==> #[trigger] final(self).active@[j]
                        == old(self).active@[j]
            }),
            final(self).max_concurrent == old(self).max_concurrent,
            final(self).drag_state == old(self).drag_state,
            final(self).next_window == old(self).next_window,
    {
        let t = *self.recent_errors.get(&h).unwrap();
        self.recent_errors.insert(h, ErrorTracker { count: t.count + 1, ..t });
        let i = self.find_error_dialog(id);
        let mut d = self.active.remove(i);
        d.increment_count();
        self.active.insert(i, d);
        proof {
            let s = self.active@;
            let o = old(self).active@;
            assert forall|j: int| 0 <= j < o.len() && j != i implies #[trigger] s[j] == o[j] by {}
            assert forall|a: int, b: int| 0 <= a < b < s.len() implies s[a].priority.rank()
                >= s[b].priority.rank() by {
                assert(s[a].priority == o[a].priority);
                assert(s[b].priority == o[b].priority);
            }
        }
    }

    /// Show an error notification (see [`DialogManager::show_error`]) when that can be done:
    /// nothing happens, and nothing is returned, when the error's notification would count
    /// another occurrence but a count is at its largest value.
    pub fn show_error_checked(&mut self, message: String, now: u64) -> (id: Option<String>)
        requires
            old(self).wf(),
            now <= u64::MAX - ERROR_TIMEOUT_MS,
        ensures
            final(self).wf(),
            id is Some <==> old(self).can_show_error(message@, now),
            id is None ==> final(self).spec_active() == old(self).spec_active()
                && final(self).spec_errors() == old(self).spec_errors(),
            id matches Some(i) ==> i@ == error_id(hash_of(message@)),
    {
        let h = message_hash(message.as_str());
        let cooling = match self.recent_errors.get(&h) {
            Some(t) => {
                let since: u64 = if now >= t.last_shown {
                    now - t.last_shown
                } else {
                    0
                };
                since < self.error_cooldown
            },
            None => false,
        };
        if cooling {
            let t = *self.recent_errors.get(&h).unwrap();
            let id = dialog_id("error_", h);
            match self.find_error_dialog_opt(&id) {
                Some(i) => {
                    let count_ok = match &self.active[i].kind {
                        DialogKind::Notification { occurrence_count, .. } => *occurrence_count
                            < usize::MAX,
                        _ => false,
                    };
                    if !(count_ok && t.count < usize::MAX) {
                        return None;
                    }
                },
                None => {},
            }
        }
        Some(self.show_error(message, now))
    }

    /// The index of the first queued error notification with the given id, if any.
    fn find_error_dialog_opt(&self, id: &String) -> (r: Option<usize>)
        ensures
            match first_error_dialog(self.active@, id@) {
                Some(i) => r matches Some(k) && k as int == i,
                None => r is None,
            },
            r matches Some(i) ==> i < self.active@.len(),
    {
        let mut i: usize = 0;
        while i < self.active.len()
            invariant
                i <= self.active@.len(),
                forall|j: int| 0 <= j < i ==> !is_error_dialog(self.active@[j], id@),
            decreases self.active@.len() - i,
        {
            let d = &self.active[i];
            let is_error = match &d.kind {
                DialogKind::Notification { severity, .. } => *severity == Severity::Error,
                _ => false,
            };
            if is_error && d.id == *id {
                proof {
                    let s = self.active@;
                    let c = choose|c: int|
                        0 <= c < s.len() && is_error_dialog(s[c], id@) && forall|j: int|
                            0 <= j < c ==> !is_error_dialog(s[j], id@);
                    assert(is_error_dialog(s[i as int], id@));
                    assert(c == i) by {
                        if c < i {
                            assert(!is_error_dialog(s[c], id@));
                        }
                        if i < c {
                            assert(!is_error_dialog(s[i as int], id@));
                        }
                    }
                }
                return Some(i);
            }
            i += 1;
        }
        None
    }

    /// The index of the first queued error notification with the given id.
    fn find_error_dialog(&self, id: &String) -> (i: usize)
        requires
            first_error_dialog(self.active@, id@) is Some,
        ensures
            first_error_dialog(self.active@, id@) == Some(i as int),
            i < self.active@.len(),
    {
        match self.find_error_dialog_opt(id) {
            Some(i) => i,
            None => 0,
        }
    }

    /// Show a warning notification for ten seconds. Returns its id,
    /// `warning_<hash of the message>`.
    pub fn show_warning(&mut self, message: String, now: u64) -> (id: String)
        requires
            old(self).wf(),
            now <= u64::MAX - WARNING_TIMEOUT_MS,
        ensures
            final(self).wf(),
            id@ == warning_id(hash_of(message@)),
            exists|d: Dialog|
                is_notification(
                    d,
                    message@,
                    Severity::Warning,
                    warning_id(hash_of(message@)),
                    (now + WARNING_TIMEOUT_MS) as u64,
                    DialogPriority::Normal,
                ) && final(self).spec_active() == queue_with(
                    old(self).spec_active(),
                    d,
                    old(self).spec_max(),
                ),
            final(self).spec_errors() == old(self).spec_errors(),
            final(self).spec_max() == old(self).spec_max(),
            final(self).spec_drag() == old(self).spec_drag(),
            final(self).spec_next_window() == old(self).spec_next_window(),
    {
        let h = message_hash(message.as_str());
        let id = dialog_id("warning_", h);
        let d = notification(
            id.clone(),
            message,
            Severity::Warning,
            now + WARNING_TIMEOUT_MS,
            DialogPriority::Normal,
        );
        let ghost gd = d;
        self.add_dialog(d);
        assert(is_notification(
            gd,
            message@,
            Severity::Warning,
            warning_id(hash_of(message@)),
            (now + WARNING_TIMEOUT_MS) as u64,
            DialogPriority::Normal,
        ));
        id
    }

    /// Show an info notification for five seconds, at low priority. Returns its id,
    /// `info_<hash of the message>`.
    pub fn show_info(&mut self, message: String, now: u64) -> (id: String)
        requires
            old(self).wf(),
            now <= u64::MAX - INFO_TIMEOUT_MS,
        ensures
            final(self).wf(),
            id@ == info_id(hash_of(message@)),
            exists|d: Dialog|
                is_notification(
                    d,
                    message@,
                    Severity::Info,
                    info_id(hash_of(message@)),
                    (now + INFO_TIMEOUT_MS) as u64,
                    DialogPriority::Low,
                ) && final(self).spec_active() == queue_with(
                    old(self).spec_active(),
                    d,
                    old(self).spec_max(),
                ),
            final(self).spec_errors() == old(self).spec_errors(),
            final(self).spec_max() == old(self).spec_max(),
            final(self).spec_drag() == old(self).spec_drag(),
            final(self).spec_next_window() == old(self).spec_next_window(),
    {
        let h = message_hash(message.as_str());
        let id = dialog_id("info_", h);
        let d = notification(
            id.clone(),
            message,
            Severity::Info,
            now + INFO_TIMEOUT_MS,
            DialogPriority::Low,
        );
        let ghost gd = d;
        self.add_dialog(d);
        assert(is_notification(
            gd,
            message@,
            Severity::Info,
            info_id(hash_of(message@)),
            (now + INFO_TIMEOUT_MS) as u64,
            DialogPriority::Low,
        ));
        id
    }

    /// Show a confirmation dialog at high priority, expiring after `timeout` milliseconds if
    /// given. Returns its id, `confirm_<hash of the message>`.
    pub fn show_confirmation(
        &mut self,
        message: String,
        confirm_key: char,
        action: ConfirmAction,
        timeout: Option<u64>,
        now: u64,
    ) -> (id: String)
        requires
            old(self).wf(),
            timeout matches Some(t) ==> now + t <= u64::MAX,
        ensures
            final(self).wf(),
            id@ == confirm_id(hash_of(message@)),
            exists|d: Dialog|
                #![trigger queue_with(old(self).spec_active(), d, old(self).spec_max())]
                {
                    &&& d.id@ == id@
                    &&& d.kind matches DialogKind::Confirmation {
                        message: m,
                        confirm_key: k,
                        action: a,
                    }
                    &&& m@ == message@
                    &&& k == confirm_key
                    &&& a == action
                    &&& d.expires_at == match timeout {
                        Some(t) => Some((now + t) as u64),
                        None => None,
                    }
                    &&& d.priority == DialogPriority::High
                    &&& final(self).spec_active() == queue_with(
                        old(self).spec_active(),
                        d,
                        old(self).spec_max(),
                    )
                },
            final(self).spec_errors() == old(self).spec_errors(),
            final(self).spec_max() == old(self).spec_max(),
            final(self).spec_drag() == old(self).spec_drag(),
            final(self).spec_next_window() == old(self).spec_next_window(),
    {
        let h = message_hash(message.as_str());
        let id = dialog_id("confirm_", h);
        let expires_at = match timeout {
            Some(t) => Some(now + t),
            None => None,
        };
        let ghost msg = message@;
        let d = Dialog {
            id: id.clone(),
            kind: DialogKind::Confirmation { message, confirm_key, action },
            expires_at,
            priority: DialogPriority::High,
        };
        let ghost gd = d;
        self.add_dialog(d);
        assert(gd.kind matches DialogKind::Confirmation { message: m, confirm_key: k, action: a }
            && m@ == msg && k == confirm_key && a == action);
        assert(final(self).spec_active() == queue_with(old(self).spec_active(), gd, old(self).spec_max()));
        id
    }

    /// Show a floating window, named `id` or else `floating-window-<n>` with `n` counting the
    /// unnamed windows shown. Returns the dialog's id.
    pub fn show_floating_window(
        &mut self,
        window: FloatingWindow,
        id: Option<String>,
        dismissible: bool,
        priority: DialogPriority,
        timeout: Option<u64>,
        now: u64,
    ) -> (r: String)
        requires
            old(self).wf(),
            timeout matches Some(t) ==> now + t <= u64::MAX,
        ensures
            final(self).wf(),
            r@ == match id {
                Some(i) => i@,
                None => "floating-window-"@ + decimal(old(self).spec_next_window() as nat),
            },
            final(self).spec_next_window() == match id {
                Some(_) => old(self).spec_next_window(),
                None => (if old(self).spec_next_window() == u64::MAX {
                    0
                } else {
                    old(self).spec_next_window() + 1
                }) as u64,
            },
            exists|d: Dialog|
                #![trigger queue_with(old(self).spec_active(), d, old(self).spec_max())]
                {
                    &&& d.id@ == r@
                    &&& d.kind == DialogKind::FloatingWindow { window, dismissible }
                    &&& d.expires_at == match timeout {
                        Some(t) => Some((now + t) as u64),
                        None => None,
                    }
                    &&& d.priority == priority
                    &&& final(self).spec_active() == queue_with(
                        old(self).spec_active(),
                        d,
                        old(self).spec_max(),
                    )
                },
            final(self).spec_errors() == old(self).spec_errors(),
            final(self).spec_max() == old(self).spec_max(),
            final(self).spec_drag() == old(self).spec_drag(),
    {
        let id = match id {
            Some(i) => i,
            None => {
                let n = self.next_window;
                self.next_window = n.wrapping_add(1);
                dialog_id("floating-window-", n)
            },
        };
        let expires_at = match timeout {
            Some(t) => Some(now + t),
            None => None,
        };
        let d = Dialog {
            id: id.clone(),
            kind: DialogKind::FloatingWindow { window, dismissible },
            expires_at,
            priority,
        };
        let ghost gd = d;
        self.add_dialog(d);
        assert(gd.id@ == id@ && gd.kind == DialogKind::FloatingWindow { window, dismissible });
        assert(final(self).spec_active() == queue_with(old(self).spec_active(), gd, old(self).spec_max()));
        id
    }

    /// Dismiss the first dialog with the given id, if any.
    #[verifier::spinoff_prover]
    #[verifier::rlimit(40)]
    pub fn dismiss(&mut self, id: &str)
        requires
            old(self).wf(),
        ensures
            final(self).wf(),
            match first_with_id(old(self).spec_active(), id@) {
                Some(i) => final(self).spec_active() == old(self).spec_active().remove(i),
                None => final(self).spec_active() == old(self).spec_active(),
            },
            final(self).spec_errors() == old(self).spec_errors(),
            final(self).spec_max() == old(self).spec_max(),
            final(self).spec_drag() == old(self).spec_drag(),
            final(self).spec_next_window() == old(self).spec_next_window(),
    {
        let target = owned(id);
        let mut i: usize = 0;
        while i < self.active.len()
            invariant
                i <= self.active@.len(),
                self.active@ == old(self).active@,
                self.recent_errors@ == old(self).recent_errors@,
                self.error_cooldown == old(self).error_cooldown,
                self.max_concurrent == old(self).max_concurrent,
                self.drag_state == old(self).drag_state,
                self.next_window == old(self).next_window,
                target@ == id@,
                sorted_by_priority(self.active@),
                self.error_cooldown == ERROR_COOLDOWN_MS,
                forall|j: int| 0 <= j < i ==> self.active@[j].id@ != id@,
            decreases self.active@.len() - i,
        {
            if self.active[i].id == target {
                proof {
                    let s = self.active@;
                    let c = choose|c: int|
                        0 <= c < s.len() && s[c].id@ == id@ && forall|j: int|
                            0 <= j < c ==> s[j].id@ != id@;
                    assert(c == i) by {
                        if c < i {
                            assert(s[c].id@ != id@);
                        }
                        if i < c {
                            assert(s[i as int].id@ != id@);
                        }
                    }
                }
                self.active.remove(i);
                proof {
                    let s = self.active@;
                    let o = old(self).active@;
                    assert forall|a: int, b: int| 0 <= a < b < s.len() implies s[a].priority.rank()
                        >= s[b].priority.rank() by {
                        let oa = if a < i { a } else { a + 1 };
                        let ob = if b < i { b } else { b + 1 };
                        assert(s[a] == o[oa] && s[b] == o[ob]);
                    }
                }
                return ;
            }
            i += 1;
        }
    }

    /// Remove every dialog.
    pub fn clear(&mut self)
        requires
            old(self).wf(),
        ensures
            final(self).wf(),
            final(self).spec_active() == Seq::<Dialog>::empty(),
            final(self).spec_errors() == old(self).spec_errors(),
            final(self).spec_max() == old(self).spec_max(),
            final(self).spec_drag() == old(self).spec_drag(),
            final(self).spec_next_window() == old(self).spec_next_window(),
    {
        self.active.clear();
    }
}

} // verus!
