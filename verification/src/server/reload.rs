//! Filesystem-change handling: extension filtering and debouncing.
//!
//! Raw watcher events are accumulated by a debouncer that flushes them as one
//! batch once no event has arrived for a quiet window. On flush, events for
//! directories, extensionless paths and unwatched extensions are dropped; the
//! rest each ask the broadcaster for a reload.

use vstd::prelude::*;
use crate::server::paths::{path_segments, split_path};

verus! {

/// The index of the last `.` in a file name, scanning from the end.
pub open spec fn last_dot(name: Seq<char>) -> Option<int>
    decreases name.len(),
{
    if name.len() == 0 {
        None
    } else if name.last() == '.' {
        Some(name.len() - 1)
    } else {
        last_dot(name.drop_last())
    }
}

/// The extension of a file name: what follows the last dot, none when there
/// is no dot or the name is a dot file.
pub open spec fn name_extension(name: Seq<char>) -> Option<Seq<char>> {
    match last_dot(name) {
        None => None,
        Some(i) => if i == 0 {
            None
        } else {
            Some(name.skip(i + 1))
        },
    }
}

/// The extension of a path's file name.
pub open spec fn extension_of(path: Seq<char>) -> Option<Seq<char>> {
    let segs = path_segments(path);
    if segs.len() == 0 {
        None
    } else {
        name_extension(segs.last())
    }
}

/// Finds the last `.` of a file name.
fn last_dot_exec(name: &str) -> (r: Option<usize>)
    ensures
        r matches Some(i) ==> i < name@.len() && last_dot(name@) == Some(i as int),
        r is None ==> last_dot(name@) is None,
{
    let n = name.unicode_len();
    let mut j = n;
    proof {
        assert(name@.take(n as int) =~= name@);
    }
    while j > 0
        invariant
            j <= n,
            n == name@.len(),
            last_dot(name@) == last_dot(name@.take(j as int)),
        decreases j,
    {
        let c = name.get_char(j - 1);
        proof {
            assert(name@.take(j as int).last() == name@[j - 1]);
        }
        if c == '.' {
            return Some(j - 1);
        }
        proof {
            assert(name@.take(j as int).drop_last() =~= name@.take(j - 1));
        }
        j = j - 1;
    }
    None
}

/// Computes the extension of a file name.
pub fn name_extension_exec(name: &str) -> (r: Option<String>)
    ensures
        r is Some <==> name_extension(name@) is Some,
        r matches Some(e) ==> name_extension(name@) == Some(e@),
{
    match last_dot_exec(name) {
        None => None,
        Some(i) => {
            if i == 0 {
                None
            } else {
                let n = name.unicode_len();
                let ext = name.substring_char(i + 1, n);
                proof {
                    assert(ext@ =~= name@.skip(i + 1));
                }
                Some(ext.to_owned())
            }
        },
    }
}

/// Computes the extension of a path's file name.
pub fn extension_of_exec(path: &str) -> (r: Option<String>)
    ensures
        r is Some <==> extension_of(path@) is Some,
        r matches Some(e) ==> extension_of(path@) == Some(e@),
{
    let parts = split_path(path);
    if parts.len() == 0 {
        None
    } else {
        let last = parts[parts.len() - 1].as_str();
        proof {
            crate::server::paths::lemma_views_index(parts@, parts@.len() - 1);
            assert(path_segments(path@).last() == last@);
        }
        name_extension_exec(last)
    }
}

/// The fixed allow-list of extensions whose changes trigger a reload.
pub open spec fn is_watched_ext(e: Seq<char>) -> bool {
    ||| e == "html"@
    ||| e == "css"@
    ||| e == "js"@
    ||| e == "jinja"@
    ||| e == "md"@
    ||| e == "toml"@
    ||| e == "ts"@
    ||| e == "tsx"@
    ||| e == "j2"@
    ||| e == "heex"@
    ||| e == "sface"@
    ||| e == "eex"@
    ||| e == "leex"@
}

/// Decides membership in the watched-extension set.
pub fn is_watched_ext_exec(e: &str) -> (r: bool)
    ensures
        r == is_watched_ext(e@),
{
    crate::strutil::str_eq(e, "html") || crate::strutil::str_eq(e, "css")
        || crate::strutil::str_eq(e, "js") || crate::strutil::str_eq(e, "jinja")
        || crate::strutil::str_eq(e, "md") || crate::strutil::str_eq(e, "toml")
        || crate::strutil::str_eq(e, "ts") || crate::strutil::str_eq(e, "tsx")
        || crate::strutil::str_eq(e, "j2") || crate::strutil::str_eq(e, "heex")
        || crate::strutil::str_eq(e, "sface") || crate::strutil::str_eq(e, "eex")
        || crate::strutil::str_eq(e, "leex")
}

/// A change to this path should reach the browser: not a directory, and the
/// file's extension is in the watched set.
pub open spec fn qualifies(path: Seq<char>, is_dir: bool) -> bool {
    &&& !is_dir
    &&& match extension_of(path) {
        Some(e) => is_watched_ext(e),
        None => false,
    }
}

/// Decides whether a changed path should trigger a reload.
pub fn should_reload(path: &str, is_dir: bool) -> (r: bool)
    ensures
        r == qualifies(path@, is_dir),
{
    if is_dir {
        return false;
    }
    match extension_of_exec(path) {
        None => false,
        Some(e) => is_watched_ext_exec(e.as_str()),
    }
}

/// What happened to a watched path.
#[derive(Clone, Copy, Debug, PartialEq, Eq, Structural)]
pub enum WatchKind {
    /// The path appeared.
    Create,
    /// The path's contents changed.
    Modify,
    /// The path went away.
    Remove,
}

/// One raw filesystem event, as the shell's watcher reports it.
pub struct WatchEvent {
    /// The changed path.
    pub path: String,
    /// Whether the path is a directory.
    pub is_dir: bool,
    /// The kind of change.
    pub kind: WatchKind,
}

/// A reload is due for this event.
pub open spec fn event_qualifies(e: WatchEvent) -> bool {
    qualifies(e.path@, e.is_dir)
}

/// Filters a flushed batch down to the events that trigger a reload, in
/// order. The shell asks the broadcaster for one reload per survivor.
pub fn handle_reload(events: Vec<WatchEvent>) -> (r: Vec<WatchEvent>)
    ensures
        r@ == events@.filter(|e: WatchEvent| event_qualifies(e)),
{
    let ghost pred = |e: WatchEvent| event_qualifies(e);
    let ghost orig = events@;
    let mut rest = events;
    let mut r: Vec<WatchEvent> = Vec::new();
    let mut i: usize = 0;
    let total = rest.len();
    proof {
        assert(orig.len() == total);
        reveal_with_fuel(Seq::<WatchEvent>::filter, 2);
        assert(orig.take(0) =~= Seq::<WatchEvent>::empty());
        assert(orig.take(0).filter(pred) =~= Seq::<WatchEvent>::empty());
        assert(orig.skip(0) =~= orig);
    }
    while rest.len() > 0
        invariant
            i <= orig.len(),
            orig.len() <= usize::MAX,
            rest@ == orig.skip(i as int),
            r@ == orig.take(i as int).filter(pred),
            pred == (|e: WatchEvent| event_qualifies(e)),
        decreases rest@.len(),
    {
        proof {
            assert(orig.skip(i as int).len() == orig.len() - i);
        }
        let e = rest.remove(0);
        proof {
            assert(orig.skip(i as int)[0] == orig[i as int]);
            assert(orig.skip(i as int).remove(0) =~= orig.skip(i + 1));
        }
        let keep = should_reload(e.path.as_str(), e.is_dir);
        let ghost r_before = r@;
        if keep {
            r.push(e);
        }
        proof {
            reveal_with_fuel(Seq::<WatchEvent>::filter, 2);
            let t = orig.take(i + 1);
            assert(t.drop_last() =~= orig.take(i as int));
            assert(t.last() == orig[i as int]);
            if pred(orig[i as int]) {
                assert(t.filter(pred) == orig.take(i as int).filter(pred).push(orig[i as int]));
            } else {
                assert(t.filter(pred) == orig.take(i as int).filter(pred));
            }
        }
        i = i + 1;
    }
    proof {
        assert(orig.skip(i as int).len() == 0);
        assert(orig.take(i as int) =~= orig);
    }
    r
}

/// The ghost state of the debouncer.
pub struct DebounceModel {
    /// The events accumulated since the last flush.
    pub pending: Seq<WatchEvent>,
    /// When the open window expires, if one is open.
    pub deadline: Option<int>,
}

/// The debouncer at rest: nothing pending, no window open.
pub open spec fn db_init() -> DebounceModel {
    DebounceModel { pending: Seq::empty(), deadline: None }
}

/// An event at time `now` joins the batch and restarts the quiet window.
pub open spec fn db_on_event(s: DebounceModel, now: int, e: WatchEvent, window: int)
    -> DebounceModel {
    DebounceModel { pending: s.pending.push(e), deadline: Some(now + window) }
}

/// A poll at time `now` flushes only once the window has expired.
pub open spec fn db_fires(s: DebounceModel, now: int) -> bool {
    match s.deadline {
        Some(d) => now >= d,
        None => false,
    }
}

/// Coalesces bursts of watcher events into single flushes separated by a
/// quiet window.
pub struct Debouncer {
    /// The quiet window, in milliseconds.
    pub window_ms: u64,
    /// Events accumulated since the last flush.
    pub pending: Vec<WatchEvent>,
    /// The time the open window expires, if one is open.
    pub deadline: Option<u64>,
}

impl Debouncer {
    /// The ghost state.
    pub open spec fn model(&self) -> DebounceModel {
        DebounceModel {
            pending: self.pending@,
            deadline: match self.deadline {
                Some(d) => Some(d as int),
                None => None,
            },
        }
    }

    /// A fresh debouncer with the given quiet window.
    pub fn new(window_ms: u64) -> (r: Debouncer)
        ensures
            r.model() == db_init(),
            r.window_ms == window_ms,
    {
        let r = Debouncer { window_ms, pending: Vec::new(), deadline: None };
        proof {
            assert(r.model().pending =~= db_init().pending);
        }
        r
    }

    /// Accumulates one event and restarts the quiet window.
    pub fn on_event(&mut self, now: u64, e: WatchEvent)
        requires
            now + old(self).window_ms <= u64::MAX,
        ensures
            final(self).model() == db_on_event(
                old(self).model(),
                now as int,
                e,
                old(self).window_ms as int,
            ),
            final(self).window_ms == old(self).window_ms,
    {
        self.pending.push(e);
        self.deadline = Some(now + self.window_ms);
    }

    /// Flushes the batch if the quiet window has expired; otherwise nothing.
    ///
    /// A flush hands back every accumulated event and resets the debouncer,
    /// so events arriving after a flush form a new, separate batch.
    pub fn poll(&mut self, now: u64) -> (r: Option<Vec<WatchEvent>>)
        ensures
            final(self).window_ms == old(self).window_ms,
            db_fires(old(self).model(), now as int) ==> (r matches Some(v) && v@ == old(
                self,
            ).model().pending && final(self).model() == db_init()),
            !db_fires(old(self).model(), now as int) ==> r is None && final(self).model() == old(
                self,
            ).model(),
    {
        let due = match self.deadline {
            Some(d) => now >= d,
            None => false,
        };
        if due {
            let out = self.pending.split_off(0);
            self.deadline = None;
            proof {
                assert(out@ =~= old(self).model().pending);
                assert(self.model().pending =~= db_init().pending);
            }
            Some(out)
        } else {
            None
        }
    }
}

/// Running a sequence of timed events through the debouncer.
pub open spec fn db_run(s: DebounceModel, evs: Seq<(u64, WatchEvent)>, window: int)
    -> DebounceModel
    decreases evs.len(),
{
    if evs.len() == 0 {
        s
    } else {
        db_run(db_on_event(s, evs[0].0 as int, evs[0].1, window), evs.skip(1), window)
    }
}

/// A run over one more event steps the final state once.
proof fn lemma_db_run_snoc(s: DebounceModel, evs: Seq<(u64, WatchEvent)>, te: (u64, WatchEvent),
    window: int)
    ensures
        db_run(s, evs.push(te), window) == db_on_event(
            db_run(s, evs, window),
            te.0 as int,
            te.1,
            window,
        ),
    decreases evs.len(),
{
    if evs.len() == 0 {
        assert(evs.push(te)[0] == te);
        assert(evs.push(te).skip(1) =~= Seq::<(u64, WatchEvent)>::empty());
        let s1 = db_on_event(s, te.0 as int, te.1, window);
        assert(db_run(s, evs.push(te), window) == db_run(s1, evs.push(te).skip(1), window));
        assert(db_run(s1, evs.push(te).skip(1), window) == s1);
        assert(db_run(s, evs, window) == s);
    } else {
        assert(evs.push(te)[0] == evs[0]);
        assert(evs.push(te).skip(1) =~= evs.skip(1).push(te));
        let s0 = db_on_event(s, evs[0].0 as int, evs[0].1, window);
        assert(db_run(s, evs.push(te), window) == db_run(s0, evs.skip(1).push(te), window));
        lemma_db_run_snoc(s0, evs.skip(1), te, window);
        assert(db_run(s, evs, window) == db_run(s0, evs.skip(1), window));
    }
}

/// After `i` events from rest, everything is pending and the window follows
/// the latest event.
proof fn lemma_db_run_prefix(evs: Seq<(u64, WatchEvent)>, window: int, i: int)
    requires
        0 <= i <= evs.len(),
    ensures
        db_run(db_init(), evs.take(i), window).pending == evs.take(i).map_values(
            |p: (u64, WatchEvent)| p.1,
        ),
        i > 0 ==> db_run(db_init(), evs.take(i), window).deadline == Some(
            evs[i - 1].0 + window,
        ),
        i == 0 ==> db_run(db_init(), evs.take(i), window).deadline is None,
    decreases i,
{
    if i == 0 {
        assert(evs.take(0) =~= Seq::<(u64, WatchEvent)>::empty());
        assert(evs.take(0).map_values(|p: (u64, WatchEvent)| p.1) =~= Seq::<WatchEvent>::empty());
    } else {
        lemma_db_run_prefix(evs, window, i - 1);
        assert(evs.take(i) =~= evs.take(i - 1).push(evs[i - 1]));
        lemma_db_run_snoc(db_init(), evs.take(i - 1), evs[i - 1], window);
        assert(evs.take(i).map_values(|p: (u64, WatchEvent)| p.1) =~= evs.take(i - 1).map_values(
            |p: (u64, WatchEvent)| p.1,
        ).push(evs[i - 1].1));
    }
}

/// Debounce coalescing: a burst of events, each arriving within the quiet
/// window of its predecessor, accumulates into a single pending batch; no
/// poll before the last event's window expires flushes anything, and a poll
/// after it flushes all of them at once. A flush resets the debouncer, so a
/// later burst forms a second, separate flush of exactly the same shape.
pub proof fn lemma_debounce_coalesces(evs: Seq<(u64, WatchEvent)>, window: int)
    requires
        evs.len() > 0,
        window > 0,
        forall|i: int|
            0 <= i < evs.len() - 1 ==> (#[trigger] evs[i].0) as int <= evs[i + 1].0 as int
                && (evs[i + 1].0 as int) < evs[i].0 + window,
    ensures
        db_run(db_init(), evs, window).pending == evs.map_values(|p: (u64, WatchEvent)| p.1),
        db_run(db_init(), evs, window).deadline == Some(evs.last().0 + window),
        forall|i: int, t: int|
            1 <= i < evs.len() && t <= evs[i].0 as int ==> !#[trigger] db_fires(
                db_run(db_init(), evs.take(i), window),
                t,
            ),
        forall|t: int|
            t >= evs.last().0 + window ==> db_fires(db_run(db_init(), evs, window), t),
{
    lemma_db_run_prefix(evs, window, evs.len() as int);
    assert(evs.take(evs.len() as int) =~= evs);
    assert forall|i: int, t: int|
        1 <= i < evs.len() && t <= evs[i].0 as int implies !#[trigger] db_fires(
        db_run(db_init(), evs.take(i), window),
        t,
    ) by {
        lemma_db_run_prefix(evs, window, i);
        assert(db_run(db_init(), evs.take(i), window).deadline == Some(evs[i - 1].0 + window));
        assert((evs[i].0 as int) < evs[i - 1].0 + window);
    }
}

} // verus!
