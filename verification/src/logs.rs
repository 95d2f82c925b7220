//! Log records: which ones are kept, how a line of the log file reads, and
//! the overlay that shows recent records for a while.
use vstd::prelude::*;
use std::sync::{Arc, Mutex, MutexGuard, PoisonError, TryLockError};

verus! {

/// How long an error or a warning stays on the overlay, in milliseconds.
pub const LOG_OVERLAY_ERROR_WARN_LIFETIME_MS: u64 = 5000;

/// How long any other record stays on the overlay, in milliseconds.
pub const LOG_OVERLAY_DEFAULT_LIFETIME_MS: u64 = 2000;

/// The severity of a record, most severe first (`log::Level`).
#[derive(Debug, Clone, Copy, PartialEq, Eq, Structural)]
pub enum LogLevel {
    Error,
    Warn,
    Info,
    Debug,
    Trace,
}

/// The rank of a level: 1 for errors up to 5 for traces (`log::Level as usize`).
pub open spec fn level_rank(l: LogLevel) -> int {
    match l {
        LogLevel::Error => 1,
        LogLevel::Warn => 2,
        LogLevel::Info => 3,
        LogLevel::Debug => 4,
        LogLevel::Trace => 5,
    }
}

fn rank(l: LogLevel) -> (r: u8)
    ensures
        r == level_rank(l),
{
    match l {
        LogLevel::Error => 1,
        LogLevel::Warn => 2,
        LogLevel::Info => 3,
        LogLevel::Debug => 4,
        LogLevel::Trace => 5,
    }
}

/// Whether a record is kept: records of the application itself (whose target
/// starts with the crate's name) up to `app_level`, others only up to
/// warnings.
pub fn level_enabled(target: &str, app_crate: &str, app_level: LogLevel, level: LogLevel) -> (r:
    bool)
    ensures
        r == (level_rank(level) <= if app_crate@.len() <= target@.len() && target@.take(
            app_crate@.len() as int,
        ) == app_crate@ {
            level_rank(app_level)
        } else {
            2
        }),
{
    let filter = if starts_with(target, app_crate) {
        app_level
    } else {
        LogLevel::Warn
    };
    rank(level) <= rank(filter)
}

/// Whether `s` starts with `prefix`.
fn starts_with(s: &str, prefix: &str) -> (r: bool)
    ensures
        r == (prefix@.len() <= s@.len() && s@.take(prefix@.len() as int) == prefix@),
{
    let n = prefix.unicode_len();
    if n > s.unicode_len() {
        return false;
    }
    let mut i: usize = 0;
    while i < n
        invariant
            n == prefix@.len(),
            n <= s@.len(),
            i <= n,
            forall|j: int| 0 <= j < i ==> s@[j] == prefix@[j],
        decreases n - i,
    {
        if s.get_char(i) != prefix.get_char(i) {
            assert(s@.take(n as int)[i as int] != prefix@[i as int]);
            return false;
        }
        i += 1;
    }
    assert(s@.take(n as int) =~= prefix@);
    true
}

/// The index of the first `::` in `s` at or after `from`, or the length of `s`.
pub open spec fn path_separator(s: Seq<char>, from: int) -> int
    decreases s.len() - from,
{
    if from + 1 >= s.len() {
        s.len() as int
    } else if s[from] == ':' && s[from + 1] == ':' {
        from
    } else {
        path_separator(s, from + 1)
    }
}

/// The first segment of a `::` path.
pub open spec fn first_segment(s: Seq<char>) -> Seq<char> {
    s.take(path_separator(s, 0))
}

/// The crate a record comes from: the first segment of its module path, or
/// of its target when it has no module path.
pub fn crate_name_for_record(module: Option<&str>, target: &str) -> (r: String)
    ensures
        r@ == first_segment(
            match module {
                Some(m) => m@,
                None => target@,
            },
        ),
{
    let s = match module {
        Some(m) => m,
        None => target,
    };
    let n = s.unicode_len();
    let mut i: usize = 0;
    while i < n && i + 1 < n && !(s.get_char(i) == ':' && s.get_char(i + 1) == ':')
        invariant
            n == s@.len(),
            i <= n,
            path_separator(s@, 0) == path_separator(s@, i as int),
        decreases n - i,
    {
        i += 1;
    }
    let end = if i < n && i + 1 < n {
        i
    } else {
        n
    };
    s.substring_char(0, end).to_owned()
}

/// The name of a level as the log file writes it (`log::Level`'s `Display`).
pub open spec fn level_name(l: LogLevel) -> Seq<char> {
    match l {
        LogLevel::Error => "ERROR"@,
        LogLevel::Warn => "WARN"@,
        LogLevel::Info => "INFO"@,
        LogLevel::Debug => "DEBUG"@,
        LogLevel::Trace => "TRACE"@,
    }
}

/// A line of the log file: `timestamp [LEVEL] [crate] text`.
pub fn log_line(timestamp: &str, level: LogLevel, crate_name: &str, text: &str) -> (r: String)
    ensures
        r@ == timestamp@ + " ["@ + level_name(level) + "] ["@ + crate_name@ + "] "@ + text@,
{
    let name = match level {
        LogLevel::Error => "ERROR",
        LogLevel::Warn => "WARN",
        LogLevel::Info => "INFO",
        LogLevel::Debug => "DEBUG",
        LogLevel::Trace => "TRACE",
    };
    proof {
        reveal_strlit("ERROR");
        reveal_strlit("WARN");
        reveal_strlit("INFO");
        reveal_strlit("DEBUG");
        reveal_strlit("TRACE");
        reveal_strlit(" [");
        reveal_strlit("] [");
        reveal_strlit("] ");
    }
    let mut s = String::new();
    crate::text::push_str(&mut s, timestamp);
    crate::text::push_str(&mut s, " [");
    crate::text::push_str(&mut s, name);
    crate::text::push_str(&mut s, "] [");
    crate::text::push_str(&mut s, crate_name);
    crate::text::push_str(&mut s, "] ");
    crate::text::push_str(&mut s, text);
    s
}

/// How long a record of the level stays on the overlay, in milliseconds.
pub fn entry_lifetime_ms(level: LogLevel) -> (r: u64)
    ensures
        r == if level == LogLevel::Error || level == LogLevel::Warn {
            LOG_OVERLAY_ERROR_WARN_LIFETIME_MS
        } else {
            LOG_OVERLAY_DEFAULT_LIFETIME_MS
        },
{
    match level {
        LogLevel::Error | LogLevel::Warn => LOG_OVERLAY_ERROR_WARN_LIFETIME_MS,
        _ => LOG_OVERLAY_DEFAULT_LIFETIME_MS,
    }
}

/// A record waiting to be shown, or shown: its level, its text and when it
/// was made, in milliseconds of a monotonic clock.
pub struct LogOverlayEntry {
    level: LogLevel,
    text: String,
    created_at_ms: u64,
}

impl LogOverlayEntry {
    pub fn new(level: LogLevel, text: String, created_at_ms: u64) -> (e: Self)
        ensures
            e.spec_level() == level,
            e.spec_text() == text@,
            e.spec_created_at_ms() == created_at_ms,
    {
        Self { level, text, created_at_ms }
    }

    pub closed spec fn spec_level(&self) -> LogLevel {
        self.level
    }

    pub closed spec fn spec_text(&self) -> Seq<char> {
        self.text@
    }

    pub closed spec fn spec_created_at_ms(&self) -> u64 {
        self.created_at_ms
    }

    pub fn level(&self) -> (r: LogLevel)
        ensures
            r == self.spec_level(),
    {
        self.level
    }

    pub fn text(&self) -> (r: &str)
        ensures
            r@ == self.spec_text(),
    {
        self.text.as_str()
    }

    /// Whether the record is still shown at `now_ms`: younger than the
    /// lifetime of its level (a record from the future counts as new).
    pub open spec fn alive(&self, now_ms: u64) -> bool {
        let age = if now_ms >= self.spec_created_at_ms() {
            now_ms - self.spec_created_at_ms()
        } else {
            0
        };
        age < if self.spec_level() == LogLevel::Error || self.spec_level() == LogLevel::Warn {
            LOG_OVERLAY_ERROR_WARN_LIFETIME_MS
        } else {
            LOG_OVERLAY_DEFAULT_LIFETIME_MS
        }
    }

    pub fn is_alive(&self, now_ms: u64) -> (r: bool)
        ensures
            r == self.alive(now_ms),
    {
        let age = if now_ms >= self.created_at_ms {
            now_ms - self.created_at_ms
        } else {
            0
        };
        age < entry_lifetime_ms(self.level)
    }
}

#[verifier::external_type_specification]
#[verifier::external_body]
#[verifier::reject_recursive_types(T)]
pub struct ExMutex<T: ?Sized>(Mutex<T>);

#[verifier::external_type_specification]
#[verifier::external_body]
#[verifier::reject_recursive_types(T)]
pub struct ExMutexGuard<'a, T: ?Sized + 'a>(MutexGuard<'a, T>);

#[verifier::external_type_specification]
#[verifier::external_body]
#[verifier::reject_recursive_types(T)]
pub struct ExPoisonError<T>(PoisonError<T>);

/// `Mutex::try_lock`, which never blocks: the guard when the lock was free,
/// `Some` of the `PoisonError` when a thread panicked while holding it, and
/// `None` (`TryLockError::WouldBlock`) while the lock is held, by this
/// thread or another. Nothing is claimed of which comes, nor of what the
/// guard holds.
#[verifier::external_body]
fn try_lock_queue(queue: &Mutex<Vec<LogOverlayEntry>>) -> (r: Result<MutexGuard<'_, Vec<LogOverlayEntry>>, Option<PoisonError<MutexGuard<'_, Vec<LogOverlayEntry>>>>>) {
    match queue.try_lock() {
        Ok(guard) => Ok(guard),
        Err(TryLockError::Poisoned(poisoned)) => Err(Some(poisoned)),
        Err(TryLockError::WouldBlock) => Err(None),
    }
}

/// `PoisonError::into_inner`: the guard that a poisoned lock still gives.
#[verifier::external_body]
fn take_over<'a>(poisoned: PoisonError<MutexGuard<'a, Vec<LogOverlayEntry>>>) -> (r: MutexGuard<'a, Vec<LogOverlayEntry>>) {
    poisoned.into_inner()
}

/// `Vec::len` of the queue behind a guard; other threads fill the queue, so
/// nothing is claimed of the length.
#[verifier::external_body]
fn guarded_len(guard: &MutexGuard<'_, Vec<LogOverlayEntry>>) -> (r: usize) {
    guard.len()
}

/// `core::mem::take` of the queue behind a guard: empties it and gives what
/// it held. Other threads fill the queue, so nothing is claimed of it.
#[verifier::external_body]
fn guarded_take(guard: &mut MutexGuard<'_, Vec<LogOverlayEntry>>) -> (r: Vec<LogOverlayEntry>) {
    core::mem::take(&mut **guard)
}

/// The queue behind its lock, or `None` while the lock is held; a poisoned
/// lock is taken over, since only a thread that panicked while holding it
/// poisons it.
fn lock_or_take_over(queue: &Mutex<Vec<LogOverlayEntry>>) -> (r: Option<MutexGuard<'_, Vec<LogOverlayEntry>>>) {
    match try_lock_queue(queue) {
        Ok(guard) => Some(guard),
        Err(Some(poisoned)) => Some(take_over(poisoned)),
        Err(None) => None,
    }
}

/// The number of records waiting in the queue; 0 while the lock is held.
fn queue_len(queue: &Mutex<Vec<LogOverlayEntry>>) -> (r: usize) {
    match lock_or_take_over(queue) {
        Some(guard) => guarded_len(&guard),
        None => 0,
    }
}

/// Empties the queue and gives what it held; nothing while the lock is held.
fn take_queued(queue: &Mutex<Vec<LogOverlayEntry>>) -> (r: Vec<LogOverlayEntry>) {
    match lock_or_take_over(queue) {
        Some(mut guard) => guarded_take(&mut guard),
        None => Vec::new(),
    }
}

/// The records on screen, and the queue through which the logger hands new
/// ones over.
pub struct LogOverlay {
    queue: Arc<Mutex<Vec<LogOverlayEntry>>>,
    entries: Vec<LogOverlayEntry>,
}

impl LogOverlay {
    /// An overlay that shows nothing yet and reads the given queue.
    pub fn new(queue: Arc<Mutex<Vec<LogOverlayEntry>>>) -> (o: Self)
        ensures
            o.spec_entries().len() == 0,
            o.spec_queue() == queue,
    {
        Self { queue, entries: Vec::new() }
    }

    /// The queue the overlay reads.
    pub closed spec fn spec_queue(&self) -> Arc<Mutex<Vec<LogOverlayEntry>>> {
        self.queue
    }

    /// The records on screen, oldest first.
    pub closed spec fn spec_entries(&self) -> Seq<LogOverlayEntry> {
        self.entries@
    }

    /// The number of records waiting in the queue; 0 while the queue's lock
    /// is held elsewhere, as the lock is only tried, never waited for.
    pub fn num_entries(&self) -> usize {
        queue_len(&self.queue)
    }

    /// Moves the queued records onto the screen, after those already there;
    /// while the queue's lock is held elsewhere they wait for the next call.
    pub fn collect(&mut self)
        ensures
            final(self).spec_entries().len() >= old(self).spec_entries().len(),
            final(self).spec_entries().take(old(self).spec_entries().len() as int)
                == old(self).spec_entries(),
            final(self).spec_queue() == old(self).spec_queue(),
    {
        let queued = take_queued(&self.queue);
        self.append_queued(queued);
        assert(self.entries@.take(old(self).entries@.len() as int) =~= old(self).entries@);
    }

    /// Puts the given records on the screen, in their order, after those
    /// already there.
    pub fn append_queued(&mut self, queued: Vec<LogOverlayEntry>)
        ensures
            final(self).spec_entries() == old(self).spec_entries() + queued@,
            final(self).spec_queue() == old(self).spec_queue(),
    {
        let mut queued = queued;
        self.entries.append(&mut queued);
    }

    /// Drops the records that have been shown for their lifetime at `now_ms`,
    /// keeping the others in order.
    pub fn prune(&mut self, now_ms: u64)
        ensures
            final(self).spec_entries() == old(self).spec_entries().filter(
                |e: LogOverlayEntry| e.alive(now_ms),
            ),
    {
        let mut rest: Vec<LogOverlayEntry> = Vec::new();
        core::mem::swap(&mut rest, &mut self.entries);
        let ghost all = rest@;
        let n = rest.len();
        let mut kept: Vec<LogOverlayEntry> = Vec::new();
        let mut i: usize = 0;
        while i < n
            invariant
                0 <= i <= n,
                n == all.len(),
                rest@ == all.skip(i as int),
                kept@ == all.take(i as int).filter(|e: LogOverlayEntry| e.alive(now_ms)),
            decreases n - i,
        {
            assert(rest@[0] == all[i as int]);
            let e = rest.remove(0);
            assert(rest@ =~= all.skip(i + 1));
            assert(all.take(i + 1).drop_last() =~= all.take(i as int));
            assert(all.take(i + 1).last() == e);
            proof {
                reveal(Seq::filter);
            }
            if e.is_alive(now_ms) {
                kept.push(e);
            }
            i += 1;
        }
        assert(all.take(n as int) =~= all);
        self.entries = kept;
    }

    /// The records on screen, oldest first.
    pub fn entries(&self) -> (r: &[LogOverlayEntry])
        ensures
            r@ == self.spec_entries(),
    {
        self.entries.as_slice()
    }
}

} // verus!
