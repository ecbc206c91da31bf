//! The decisions of the daemon loop: what each poll, hotkey signal and
//! shutdown request does to the store and what the loop does next.
use vstd::prelude::*;
use crate::clipboard::{captured, read_as_entry_at, ClipboardContent};
use crate::clock::now_timestamp;
use crate::config::{Config, RETENTION_HOURS};
use crate::entry::EntryView;
use crate::error::StickyError;
use crate::storage::{cutoff, inserted, retained, Storage};
use crate::text::{chars_of, trim_whitespace, trim_ws};

verus! {

/// The part of the daemon that polls change: the store and the fingerprint
/// of the last value captured.
pub struct DaemonState {
    pub rows: Seq<EntryView>,
    pub next_id: int,
    pub last_hash: Option<Seq<char>>,
}

/// The state after a poll at time `now` that read `read`. An empty clipboard,
/// a failed read and a value equal to the last one captured change nothing.
/// A new value is stored under the next id, becomes the last one captured,
/// and the entries past retention at `now` are removed. When no id is left
/// nothing changes.
pub open spec fn after_poll(
    s: DaemonState,
    read: Result<ClipboardContent, StickyError>,
    now: int,
) -> DaemonState {
    match captured(read, now) {
        None => s,
        Some(e) => if s.last_hash == Some(e.hash) || s.next_id >= i64::MAX {
            s
        } else {
            DaemonState {
                rows: retained(
                    inserted(s.rows, e.with_id(s.next_id)),
                    cutoff(now, RETENTION_HOURS as int),
                ),
                next_id: s.next_id + 1,
                last_hash: Some(e.hash),
            }
        },
    }
}

/// What a poll that read `read` returns, given the state before it. An
/// oversized image, an empty clipboard and a value equal to the last one
/// captured give `Ok(None)`; any other read failure is passed on; a new value
/// gives the id it is stored under, or `IdsExhausted` when no id is left. The
/// capture time plays no part.
pub open spec fn poll_outcome(s: DaemonState, read: Result<ClipboardContent, StickyError>) -> Result<
    Option<i64>,
    StickyError,
> {
    match read {
        Err(e) => if e is ImageTooLarge {
            Ok(None)
        } else {
            Err(e)
        },
        Ok(_) => match captured(read, 0) {
            None => Ok(None),
            Some(e) => if s.last_hash == Some(e.hash) {
                Ok(None)
            } else if s.next_id >= i64::MAX {
                Err(StickyError::IdsExhausted)
            } else {
                Ok(Some(s.next_id as i64))
            },
        },
    }
}

/// The action the loop takes after a poll that read `read` from state `s`:
/// an oversized image is skipped and noted, otherwise the action follows what
/// the poll returned.
pub open spec fn tick_action(s: DaemonState, read: Result<ClipboardContent, StickyError>) -> DaemonAction {
    match read {
        Err(e) => if e is ImageTooLarge {
            DaemonAction::Skipped(e)
        } else {
            DaemonAction::Report(e)
        },
        Ok(_) => match poll_outcome(s, read) {
            Ok(Some(id)) => DaemonAction::Stored(id),
            Ok(None) => DaemonAction::Idle,
            Err(e) => DaemonAction::Report(e),
        },
    }
}

/// What the daemon loop waits on.
pub enum DaemonEvent {
    /// The poll timer elapsed and the clipboard was read, with this result.
    Tick(Result<ClipboardContent, StickyError>),
    /// The hotkey combo fired.
    Hotkey,
    /// A shutdown was requested.
    Shutdown,
}

/// What the loop does after an event.
#[derive(Debug)]
pub enum DaemonAction {
    /// Nothing; wait for the next event.
    Idle,
    /// A new entry was stored under this id.
    Stored(i64),
    /// A poll failed; report the error and go on.
    Report(StickyError),
    /// The clipboard held an image above the size limit; it was not stored.
    /// Note it and go on.
    Skipped(StickyError),
    /// Open the display surface.
    SpawnPopup,
    /// Remove the liveness marker and leave the loop.
    Stop,
}

/// The daemon: its store, the last fingerprint captured and its configuration.
pub struct Daemon {
    storage: Storage,
    last_hash: Option<String>,
    config: Config,
}

impl Daemon {
    pub closed spec fn state(&self) -> DaemonState {
        DaemonState {
            rows: self.storage.rows(),
            next_id: self.storage.next_id(),
            last_hash: match self.last_hash {
                Some(h) => Some(h@),
                None => None,
            },
        }
    }

    pub closed spec fn wf(&self) -> bool {
        self.storage.wf()
    }

    /// A daemon over `storage`, seeded with the fingerprint of its most
    /// recently captured entry.
    pub fn new(storage: Storage, config: Config) -> (r: Daemon)
        requires
            storage.wf(),
        ensures
            r.wf(),
            r.state().rows == storage.rows(),
            r.state().next_id == storage.next_id(),
            r.configuration() == config,
            r.state().last_hash == if storage.rows().len() == 0 {
                None
            } else {
                Some(storage.rows().last().hash)
            },
    {
        let last_hash = match storage.get_latest_hash() {
            Ok(h) => h,
            Err(_) => None,
        };
        Daemon { storage, last_hash, config }
    }

    /// The store.
    pub fn storage(&self) -> (r: &Storage)
        ensures
            r.rows() == self.state().rows,
            r.next_id() == self.state().next_id,
            self.wf() ==> r.wf(),
    {
        &self.storage
    }

    /// The configuration the daemon was started with.
    pub closed spec fn configuration(&self) -> Config {
        self.config
    }

    /// The configuration.
    pub fn config(&self) -> (r: &Config)
        ensures
            *r == self.configuration(),
    {
        &self.config
    }

    /// The pass made once before the loop starts: removes the entries past
    /// retention at the current time and returns how many.
    pub fn startup(&mut self) -> (r: Result<usize, StickyError>)
        requires
            old(self).wf(),
        ensures
            final(self).wf(),
            final(self).state().last_hash == old(self).state().last_hash,
            final(self).state().next_id == old(self).state().next_id,
            r matches Ok(n) && n == old(self).state().rows.len() - final(self).state().rows.len(),
            exists|now: int|
                final(self).state().rows == retained(
                    old(self).state().rows,
                    #[trigger] cutoff(now, RETENTION_HOURS as int),
                ),
    {
        self.storage.cleanup_old()
    }

    /// One poll at time `now` whose clipboard read gave `read`. Returns the id
    /// of the entry stored, if one was. An oversized image is skipped
    /// silently; any other read failure, and running out of ids, is returned.
    pub fn poll_clipboard_at(
        &mut self,
        read: Result<ClipboardContent, StickyError>,
        now: i64,
    ) -> (r: Result<Option<i64>, StickyError>)
        requires
            old(self).wf(),
        ensures
            final(self).wf(),
            final(self).state() == after_poll(old(self).state(), read, now as int),
            r == poll_outcome(old(self).state(), read),
    {
        let entry = match read_as_entry_at(read, now) {
            Ok(Some(e)) => e,
            Ok(None) => {
                return Ok(None);
            },
            Err(StickyError::ImageTooLarge { .. }) => {
                return Ok(None);
            },
            Err(e) => {
                return Err(e);
            },
        };
        let same = match &self.last_hash {
            Some(h) => h.eq(&entry.hash),
            None => false,
        };
        if same {
            return Ok(None);
        }
        let id = match self.storage.insert(&entry) {
            Ok(id) => id,
            Err(e) => {
                return Err(e);
            },
        };
        self.last_hash = Some(entry.hash);
        self.storage.evict_expired(now, RETENTION_HOURS);
        Ok(Some(id))
    }

    /// One poll whose clipboard read gave `read`, at the current time.
    pub fn poll_clipboard(&mut self, read: Result<ClipboardContent, StickyError>) -> (r: Result<
        Option<i64>,
        StickyError,
    >)
        requires
            old(self).wf(),
        ensures
            final(self).wf(),
            exists|now: int| final(self).state() == #[trigger] after_poll(old(self).state(), read, now),
            r == poll_outcome(old(self).state(), read),
    {
        let now = now_timestamp();
        let ghost read_copy = read;
        let r = self.poll_clipboard_at(read, now);
        assert(final(self).state() == after_poll(old(self).state(), read_copy, now as int));
        r
    }

    /// Handles one event of the loop at time `now`.
    pub fn handle_at(&mut self, event: DaemonEvent, now: i64) -> (r: DaemonAction)
        requires
            old(self).wf(),
        ensures
            final(self).wf(),
            match event {
                DaemonEvent::Tick(read) => {
                    &&& final(self).state() == after_poll(old(self).state(), read, now as int)
                    &&& r == tick_action(old(self).state(), read)
                },
                DaemonEvent::Hotkey => r is SpawnPopup && final(self).state() == old(self).state(),
                DaemonEvent::Shutdown => r is Stop && final(self).state() == old(self).state(),
            },
    {
        match event {
            DaemonEvent::Tick(Err(e)) => {
                if let StickyError::ImageTooLarge { .. } = e {
                    DaemonAction::Skipped(e)
                } else {
                    DaemonAction::Report(e)
                }
            },
            DaemonEvent::Tick(read) => match self.poll_clipboard_at(read, now) {
                Ok(Some(id)) => DaemonAction::Stored(id),
                Ok(None) => DaemonAction::Idle,
                Err(e) => DaemonAction::Report(e),
            },
            DaemonEvent::Hotkey => DaemonAction::SpawnPopup,
            DaemonEvent::Shutdown => DaemonAction::Stop,
        }
    }

    /// Handles one event of the loop at the current time.
    pub fn handle(&mut self, event: DaemonEvent) -> (r: DaemonAction)
        requires
            old(self).wf(),
        ensures
            final(self).wf(),
            match event {
                DaemonEvent::Tick(read) => {
                    &&& exists|now: int|
                        final(self).state() == #[trigger] after_poll(old(self).state(), read, now)
                    &&& r == tick_action(old(self).state(), read)
                },
                DaemonEvent::Hotkey => r is SpawnPopup && final(self).state() == old(self).state(),
                DaemonEvent::Shutdown => r is Stop && final(self).state() == old(self).state(),
            },
    {
        let now = now_timestamp();
        self.handle_at(event, now)
    }
}

/// Two consecutive polls that read the same value store it at most once: the
/// second poll changes nothing, whatever the times, and while ids remain it
/// reports that nothing was stored.
pub proof fn law_repeated_read_stored_once(
    s: DaemonState,
    first: Result<ClipboardContent, StickyError>,
    second: Result<ClipboardContent, StickyError>,
    t1: int,
    t2: int,
)
    requires
        captured(first, t1) is Some,
        captured(second, t2) is Some,
        captured(first, t1)->0.hash == captured(second, t2)->0.hash,
    ensures
        after_poll(after_poll(s, first, t1), second, t2) == after_poll(s, first, t1),
        s.next_id < i64::MAX ==> poll_outcome(after_poll(s, first, t1), second) == Ok::<
            Option<i64>,
            StickyError,
        >(None),
        s.last_hash != Some(captured(first, t1)->0.hash) && s.next_id < i64::MAX ==> after_poll(
            s,
            first,
            t1,
        ).next_id == s.next_id + 1,
{
}

/// `c` is one of the digits 0 to 9.
pub open spec fn is_digit(c: char) -> bool {
    '0' <= c && c <= '9'
}

/// Every character of `s` is a digit.
pub open spec fn all_digits(s: Seq<char>) -> bool {
    forall|i: int| 0 <= i < s.len() ==> is_digit(#[trigger] s[i])
}

/// `t` without one leading `+`.
pub open spec fn unsigned_body(t: Seq<char>) -> Seq<char> {
    if t.len() > 0 && t[0] == '+' {
        t.drop_first()
    } else {
        t
    }
}

/// The number that the decimal digits `s` write.
pub open spec fn digits_value(s: Seq<char>) -> int
    decreases s.len(),
{
    if s.len() == 0 {
        0
    } else {
        digits_value(s.drop_last()) * 10 + (s.last() as u32 - '0' as u32)
    }
}

/// The process id recorded in the text of a liveness marker: decimal digits,
/// possibly after a `+`, with surrounding whitespace ignored, that fit in 32
/// bits.
pub open spec fn recorded_pid(text: Seq<char>) -> Option<u32> {
    let body = unsigned_body(trim_ws(text));
    if body.len() > 0 && all_digits(body) && digits_value(body) <= u32::MAX {
        Some(digits_value(body) as u32)
    } else {
        None
    }
}

proof fn lemma_digits_grow(s: Seq<char>, i: int)
    requires
        0 <= i <= s.len(),
        forall|k: int| 0 <= k < s.len() ==> is_digit(#[trigger] s[k]),
    ensures
        digits_value(s.subrange(0, i)) <= digits_value(s),
        0 <= digits_value(s.subrange(0, i)),
    decreases s.len() - i,
{
    if i < s.len() {
        lemma_digits_grow(s, i + 1);
        assert(s.subrange(0, i + 1).drop_last() =~= s.subrange(0, i));
    } else {
        assert(s.subrange(0, i) =~= s);
        lemma_digits_nonneg(s);
    }
}

proof fn lemma_digits_nonneg(s: Seq<char>)
    requires
        forall|k: int| 0 <= k < s.len() ==> is_digit(#[trigger] s[k]),
    ensures
        0 <= digits_value(s),
    decreases s.len(),
{
    if s.len() > 0 {
        lemma_digits_nonneg(s.drop_last());
    }
}

/// Reads the process id recorded in the text of a liveness marker, as
/// `recorded_pid` states.
pub fn parse_pid(text: &str) -> (r: Option<u32>)
    ensures
        r == recorded_pid(text@),
{
    let t = trim_whitespace(text);
    let c = chars_of(t);
    let start: usize = if c.len() > 0 && c[0] == '+' {
        1
    } else {
        0
    };
    let ghost body = unsigned_body(c@);
    assert(body =~= c@.subrange(start as int, c@.len() as int));
    if start >= c.len() {
        return None;
    }
    let mut value: u64 = 0;
    let mut i: usize = start;
    while i < c.len()
        invariant
            c@ == trim_ws(text@),
            body == c@.subrange(start as int, c@.len() as int),
            body == unsigned_body(c@),
            start <= i <= c@.len(),
            forall|k: int| 0 <= k < i - start ==> is_digit(#[trigger] body[k]),
            value == digits_value(body.subrange(0, i - start)),
            value <= u32::MAX,
        decreases c.len() - i,
    {
        let ch = c[i];
        if ch < '0' || ch > '9' {
            proof {
                assert(!is_digit(body[i - start]));
                assert(!all_digits(body));
            }
            return None;
        }
        let d = (ch as u32 - '0' as u32) as u64;
        let next = value * 10 + d;
        assert(body.subrange(0, i - start + 1).drop_last() =~= body.subrange(0, i - start));
        if next > 0xffff_ffffu64 {
            proof {
                let rest = body.subrange(0, i - start + 1);
                assert forall|k: int| 0 <= k < rest.len() implies is_digit(#[trigger] rest[k]) by {
                    assert(rest[k] == body[k]);
                }
                if all_digits(body) {
                    lemma_digits_grow(body, i - start + 1);
                    assert(digits_value(body) > u32::MAX);
                }
            }
            return None;
        }
        value = next;
        i = i + 1;
    }
    assert(body.subrange(0, body.len() as int) =~= body);
    Some(value as u32)
}

} // verus!
