//! When the file system watcher runs, what it watches, and when it ends.

use vstd::prelude::*;

use crate::inotify;
use crate::inotify::from_utf8_lossy;
use crate::text;
use crate::text::{from_chars, to_chars};

verus! {

/// The byte that parts the components of a path.
pub const SLASH: u8 = 0x2f;

/// The path that is watched where none is configured.
pub open spec fn default_target() -> Seq<char> {
    "~/Projects/rust/sensor"@
}

/// `path` without any `~/` at its front.
pub open spec fn without_tilde(path: Seq<char>) -> Seq<char>
    decreases path.len(),
{
    if path.len() >= 2 && path[0] == '~' && path[1] == '/' {
        without_tilde(path.skip(2))
    } else {
        path
    }
}

/// The path `rest` as seen from the directory `base`; an absolute `rest` stands for itself.
pub open spec fn joined(base: Seq<u8>, rest: Seq<u8>) -> Seq<u8> {
    if rest.len() > 0 && rest[0] == SLASH {
        rest
    } else if base.len() > 0 && base.last() != SLASH {
        base.push(SLASH) + rest
    } else {
        base + rest
    }
}

/// A path that begins with `~/`, taken from the home directory; any other path, and every path
/// where no home directory is known, is left as it is. `text` is how the bytes of the path read.
pub open spec fn expanded_text(path: Seq<u8>, text: Seq<char>, home: Option<Seq<u8>>) -> Seq<u8> {
    if text.len() >= 2 && text[0] == '~' && text[1] == '/' && home is Some {
        joined(home->0, vstd::utf8::encode_utf8(without_tilde(text)))
    } else {
        path
    }
}

/// A path with `~/` at its front taken from the home directory.
pub open spec fn expanded(path: Seq<u8>, home: Option<Seq<u8>>) -> Seq<u8> {
    expanded_text(path, inotify::lossy_text(path), home)
}

/// The bytes of an optional list.
pub open spec fn opt_bytes(bytes: Option<Vec<u8>>) -> Option<Seq<u8>> {
    match bytes {
        Some(inner) => Some(inner@),
        None => None,
    }
}

/// Adds the bytes of `more` to the end of `bytes`.
fn append_bytes(bytes: &mut Vec<u8>, more: &[u8])
    ensures
        final(bytes)@ == old(bytes)@ + more@,
{
    let mut i: usize = 0;
    assert(more@.take(0) == Seq::<u8>::empty());
    while i < more.len()
        invariant
            i <= more@.len(),
            bytes@ == old(bytes)@ + more@.take(i as int),
        decreases more@.len() - i,
    {
        bytes.push(more[i]);
        assert(more@.take(i + 1) == more@.take(i as int).push(more@[i as int]));
        i += 1;
    }
    assert(more@.take(i as int) == more@);
}

/// `path` without any `~/` at its front.
fn strip_tilde(path: &str) -> (rest: String)
    ensures
        rest@ == without_tilde(path@),
{
    let chars = to_chars(path);
    let mut start: usize = 0;
    assert(chars@.skip(0) == chars@);
    while chars.len() - start >= 2 && chars[start] == '~' && chars[start + 1] == '/'
        invariant
            start <= chars@.len(),
            without_tilde(chars@.skip(start as int)) == without_tilde(chars@),
        decreases chars@.len() - start,
    {
        assert(chars@.skip(start as int).skip(2) == chars@.skip(start + 2));
        start += 2;
    }
    assert(chars@.subrange(start as int, chars@.len() as int) == chars@.skip(start as int));
    from_chars(&chars, start, chars.len())
}

/// The path `rest` as seen from the directory `base`.
fn join_bytes(base: Vec<u8>, rest: &[u8]) -> (path: Vec<u8>)
    ensures
        path@ == joined(base@, rest@),
{
    if rest.len() > 0 && rest[0] == SLASH {
        let mut path: Vec<u8> = Vec::new();
        append_bytes(&mut path, rest);
        assert(path@ == rest@);
        path
    } else {
        let mut path = base;
        if path.len() > 0 && path[path.len() - 1] != SLASH {
            path.push(SLASH);
        }
        append_bytes(&mut path, rest);
        path
    }
}

/// Takes a path that reads `text` from the home directory, where it begins with `~/`.
pub fn expand_tilde_text(path: Vec<u8>, text: &str, home: Option<Vec<u8>>) -> (target: Vec<u8>)
    ensures
        target@ == expanded_text(path@, text@, opt_bytes(home)),
{
    let chars = to_chars(text);
    if chars.len() < 2 || chars[0] != '~' || chars[1] != '/' {
        return path;
    }
    match home {
        Some(base) => join_bytes(base, strip_tilde(text).as_str().as_bytes()),
        None => path,
    }
}

/// Takes a path from the home directory, where it begins with `~/`.
pub fn expand_tilde(path: Vec<u8>, home: Option<Vec<u8>>) -> (target: Vec<u8>)
    ensures
        target@ == expanded(path@, opt_bytes(home)),
        vstd::utf8::valid_utf8(path@) ==> target@ == expanded_text(
            path@,
            vstd::utf8::decode_utf8(path@),
            opt_bytes(home),
        ),
{
    let text = from_utf8_lossy(path.as_slice());
    expand_tilde_text(path, text.as_str(), home)
}

/// What is watched: the configured path, or the default, taken from the home directory where it
/// begins with `~/`.
pub open spec fn watch_target(configured: Option<Seq<u8>>, home: Option<Seq<u8>>) -> Seq<u8> {
    expanded(
        match configured {
            Some(path) => path,
            None => vstd::utf8::encode_utf8(default_target()),
        },
        home,
    )
}

/// What is watched.
pub fn resolve_fs_watch_target(configured: Option<Vec<u8>>, home: Option<Vec<u8>>) -> (target: Vec<
    u8,
>)
    ensures
        target@ == watch_target(opt_bytes(configured), opt_bytes(home)),
        configured is None && home is Some ==> target@ == joined(
            home->0@,
            vstd::utf8::encode_utf8("Projects/rust/sensor"@),
        ),
        configured matches Some(path) ==> vstd::utf8::valid_utf8(path@) ==> target@
            == expanded_text(path@, vstd::utf8::decode_utf8(path@), opt_bytes(home)),
{
    proof {
        vstd::utf8::encode_utf8_valid_utf8(default_target());
        vstd::utf8::encode_utf8_decode_utf8(default_target());
        reveal_strlit("~/Projects/rust/sensor");
        reveal_strlit("Projects/rust/sensor");
        assert(default_target().skip(2) == "Projects/rust/sensor"@);
        assert(without_tilde(default_target()) == without_tilde("Projects/rust/sensor"@));
    }
    let path = match configured {
        Some(path) => path,
        None => {
            let mut path: Vec<u8> = Vec::new();
            append_bytes(&mut path, "~/Projects/rust/sensor".as_bytes());
            assert(path@ == vstd::utf8::encode_utf8(default_target()));
            path
        },
    };
    expand_tilde(path, home)
}

/// How a target is watched: the directory, and the name of the file in it where it is but one
/// file.
pub struct WatchPlan {
    pub root: Vec<u8>,
    pub filter_name: Option<Vec<u8>>,
}

/// How to watch a target: a directory for itself; anything else by its name, in the directory
/// that holds it, or for itself where it lies in none.
pub fn plan_watch(
    target: Vec<u8>,
    is_dir: bool,
    parent: Option<Vec<u8>>,
    file_name: Option<Vec<u8>>,
) -> (plan: WatchPlan)
    ensures
        is_dir ==> plan.root@ == target@ && plan.filter_name is None,
        !is_dir ==> {
            &&& plan.root@ == (match parent {
                Some(directory) => directory@,
                None => target@,
            })
            &&& opt_bytes(plan.filter_name) == opt_bytes(file_name)
        },
{
    if is_dir {
        WatchPlan { root: target, filter_name: None }
    } else {
        WatchPlan {
            root: match parent {
                Some(directory) => directory,
                None => target,
            },
            filter_name: file_name,
        }
    }
}

/// What a read of the inotify descriptor gave.
#[derive(Debug, Clone, Copy, PartialEq, Eq, Structural)]
pub enum ReadOutcome {
    /// So many bytes; none where nothing was there.
    Bytes(usize),
    /// Nothing is there yet.
    WouldBlock,
    /// The read failed.
    Failed,
}

/// What the watcher does next.
#[derive(Debug, Clone, Copy, PartialEq, Eq, Structural)]
pub enum WatchStep {
    /// Takes in so many bytes of notices.
    TakeIn(usize),
    /// Waits a while and reads again.
    Wait,
    /// Ends, as it was asked to.
    Stop,
    /// Ends, because it cannot read.
    GiveUp,
}

/// What the watcher does after a read: notices come first, a failure ends it, and it is only
/// while nothing is there that it heeds a request to stop.
pub fn next_watch_step(outcome: ReadOutcome, stop_requested: bool) -> (step: WatchStep)
    ensures
        step == (match outcome {
            ReadOutcome::Failed => WatchStep::GiveUp,
            ReadOutcome::Bytes(count) if count > 0 => WatchStep::TakeIn(count),
            _ => if stop_requested {
                WatchStep::Stop
            } else {
                WatchStep::Wait
            },
        }),
{
    match outcome {
        ReadOutcome::Failed => WatchStep::GiveUp,
        ReadOutcome::Bytes(count) => if count > 0 {
            WatchStep::TakeIn(count)
        } else if stop_requested {
            WatchStep::Stop
        } else {
            WatchStep::Wait
        },
        ReadOutcome::WouldBlock => if stop_requested {
            WatchStep::Stop
        } else {
            WatchStep::Wait
        },
    }
}

/// A place for the one watcher that may run.
pub struct WatcherSlot<W> {
    watcher: Option<W>,
}

impl<W> View for WatcherSlot<W> {
    type V = Option<W>;

    closed spec fn view(&self) -> Option<W> {
        self.watcher
    }
}

/// The slot once a watcher was started: the one that ran before stays.
pub open spec fn after_start<W>(slot: Option<W>, watcher: W) -> Option<W> {
    if slot is None {
        Some(watcher)
    } else {
        slot
    }
}

/// The slot once the watcher was stopped.
pub open spec fn after_stop<W>(slot: Option<W>) -> Option<W> {
    None
}

/// What a request to start the watcher asks for.
pub enum StartPlan {
    /// Nothing: a watcher runs already.
    AlreadyRunning,
    /// A watcher for this target.
    Watch(Vec<u8>),
}

impl<W> WatcherSlot<W> {
    /// No watcher runs.
    pub fn new() -> (slot: Self)
        ensures
            slot@ is None,
    {
        WatcherSlot { watcher: None }
    }

    /// What a request to start the watcher asks for: nothing where one runs, else a watcher for
    /// the target that is configured.
    pub fn plan_start(&self, configured: Option<Vec<u8>>, home: Option<Vec<u8>>) -> (plan: StartPlan)
        ensures
            match plan {
                StartPlan::AlreadyRunning => self@ is Some,
                StartPlan::Watch(target) => self@ is None && target@ == watch_target(
                    opt_bytes(configured),
                    opt_bytes(home),
                ),
            },
    {
        if self.watcher.is_some() {
            StartPlan::AlreadyRunning
        } else {
            StartPlan::Watch(resolve_fs_watch_target(configured, home))
        }
    }

    /// Puts a watcher that was started in its place, and answers `true`; where one runs already it
    /// keeps that one and answers `false`.
    pub fn start_fs_watch_thread(&mut self, watcher: W) -> (started: bool)
        ensures
            started == is_heeded(old(self)@ is Some, WatchRequest::Start),
            final(self)@ == after_start(old(self)@, watcher),
    {
        if self.watcher.is_some() {
            false
        } else {
            self.watcher = Some(watcher);
            true
        }
    }

    /// Takes the watcher that runs out of its place, for the caller to end it.
    pub fn stop_fs_watch_thread(&mut self) -> (watcher: Option<W>)
        ensures
            watcher == old(self)@,
            watcher is Some == is_heeded(old(self)@ is Some, WatchRequest::Stop),
            final(self)@ == after_stop(old(self)@),
    {
        self.watcher.take()
    }
}

impl<W> Default for WatcherSlot<W> {
    fn default() -> (slot: Self)
        ensures
            slot@ is None,
    {
        WatcherSlot::new()
    }
}

/// A request to the watcher.
#[derive(Debug, Clone, Copy, PartialEq, Eq, Structural)]
pub enum WatchRequest {
    Start,
    Stop,
}

/// Whether a request changes anything: a start while no watcher runs, a stop while one does.
pub open spec fn is_heeded(running: bool, request: WatchRequest) -> bool {
    match request {
        WatchRequest::Start => !running,
        WatchRequest::Stop => running,
    }
}

/// Whether a watcher runs after a run of requests, when none ran before.
pub open spec fn runs_after(requests: Seq<WatchRequest>) -> bool {
    requests.len() > 0 && requests.last() is Start
}

/// How many watchers were started and not yet stopped in a run of requests, when none ran before.
pub open spec fn running_watchers(requests: Seq<WatchRequest>) -> int
    decreases requests.len(),
{
    if requests.len() == 0 {
        0
    } else {
        let front = requests.drop_last();
        let before = running_watchers(front);
        if !is_heeded(runs_after(front), requests.last()) {
            before
        } else if requests.last() is Start {
            before + 1
        } else {
            before - 1
        }
    }
}

/// Whatever is requested, one watcher at most runs at a time: one after a start, none after a
/// stop.
pub proof fn lemma_one_watcher_at_a_time(requests: Seq<WatchRequest>)
    ensures
        running_watchers(requests) == if runs_after(requests) {
            1int
        } else {
            0int
        },
    decreases requests.len(),
{
    if requests.len() > 0 {
        lemma_one_watcher_at_a_time(requests.drop_last());
    }
}

/// A slot follows the requests that it gets: where it holds a watcher just in case one runs after
/// the requests so far, it does so after one more, be it a start or a stop.
pub proof fn lemma_slot_follows_requests<W>(
    slot: Option<W>,
    requests: Seq<WatchRequest>,
    watcher: W,
)
    requires
        slot is Some == runs_after(requests),
    ensures
        after_start(slot, watcher) is Some == runs_after(requests.push(WatchRequest::Start)),
        after_stop(slot) is Some == runs_after(requests.push(WatchRequest::Stop)),
        slot is Some == (running_watchers(requests) == 1),
        slot is None == (running_watchers(requests) == 0),
{
    lemma_one_watcher_at_a_time(requests);
}

/// A slot after a run of requests; each start brings the watcher of its place in `watchers`.
pub open spec fn slot_after<W>(requests: Seq<WatchRequest>, watchers: Seq<W>) -> Option<W>
    decreases requests.len(),
{
    if requests.len() == 0 {
        None
    } else {
        let before = slot_after(requests.drop_last(), watchers);
        match requests.last() {
            WatchRequest::Start => after_start(before, watchers[requests.len() - 1]),
            WatchRequest::Stop => after_stop(before),
        }
    }
}

/// A slot that starts out empty holds as many watchers as run: one after a start, none after a
/// stop.
pub proof fn lemma_slot_holds_the_watcher<W>(requests: Seq<WatchRequest>, watchers: Seq<W>)
    ensures
        slot_after(requests, watchers) is Some == runs_after(requests),
        running_watchers(requests) == if slot_after(requests, watchers) is Some {
            1int
        } else {
            0int
        },
    decreases requests.len(),
{
    lemma_one_watcher_at_a_time(requests);
    if requests.len() > 0 {
        let front = requests.drop_last();
        lemma_slot_holds_the_watcher(front, watchers);
        lemma_slot_follows_requests(
            slot_after(front, watchers),
            front,
            watchers[requests.len() - 1],
        );
        assert(front.push(requests.last()) == requests);
    }
}

/// The answer to request `i` of a run: whether it changed anything.
pub open spec fn answer(requests: Seq<WatchRequest>, i: int) -> bool {
    is_heeded(runs_after(requests.take(i)), requests[i])
}

/// Request `i` is a start that was answered with yes, and no stop since was.
pub open spec fn is_open_start(requests: Seq<WatchRequest>, i: int) -> bool {
    &&& 0 <= i < requests.len()
    &&& requests[i] is Start
    &&& answer(requests, i)
    &&& forall|j: int| i < j < requests.len() ==> !(requests[j] is Stop && #[trigger] answer(requests, j))
}

/// A stop is answered with yes exactly when some start was and no stop since; a start exactly when
/// there is no such start. Right after a stop another stop is answered with no.
pub proof fn lemma_answers(requests: Seq<WatchRequest>)
    ensures
        is_heeded(runs_after(requests), WatchRequest::Stop) <==> exists|i: int|
            #[trigger] is_open_start(requests, i),
        is_heeded(runs_after(requests), WatchRequest::Start) <==> !exists|i: int|
            #[trigger] is_open_start(requests, i),
        !is_heeded(runs_after(requests.push(WatchRequest::Stop)), WatchRequest::Stop),
    decreases requests.len(),
{
    if requests.len() > 0 {
        let front = requests.drop_last();
        let n = front.len() as int;
        lemma_answers(front);
        assert(requests.take(n) == front);
        assert forall|i: int| 0 <= i < n implies #[trigger] answer(requests, i) == answer(
            front,
            i,
        ) by {
            assert(requests.take(i) == front.take(i));
        }
        if requests.last() is Start {
            if runs_after(front) {
                let i = choose|i: int| #[trigger] is_open_start(front, i);
                assert(answer(requests, i) == answer(front, i));
                assert forall|j: int| i < j < requests.len() implies !(requests[j] is Stop
                    && #[trigger] answer(requests, j)) by {
                    if j < n {
                        assert(answer(requests, j) == answer(front, j));
                    }
                }
                assert(is_open_start(requests, i));
            } else {
                assert(is_open_start(requests, n));
            }
        } else {
            assert forall|i: int| !#[trigger] is_open_start(requests, i) by {
                if is_open_start(requests, i) {
                    assert(!answer(requests, n));
                    assert forall|j: int| i < j < front.len() implies !(front[j] is Stop
                        && #[trigger] answer(front, j)) by {
                        assert(answer(requests, j) == answer(front, j));
                    }
                    assert(answer(requests, i) == answer(front, i));
                    assert(is_open_start(front, i));
                }
            }
        }
    }
}

/// A target that does not begin with `~/` is watched as it is configured, and so is every target
/// where no home directory is known.
pub proof fn lemma_plain_target(path: Seq<u8>, home: Option<Seq<u8>>)
    ensures
        !text::has_prefix(inotify::lossy_text(path), "~/"@) ==> expanded(path, home) == path,
        expanded(path, None) == path,
{
    reveal_strlit("~/");
    let read = inotify::lossy_text(path);
    if read.len() >= 2 && read[0] == '~' && read[1] == '/' {
        assert(read.subrange(0, 2) == "~/"@);
    }
}

} // verus!
