//! Recognizing running processes as applications of the catalog.

use crate::activity::{activity_json, Activity, ActivityModel};
use crate::detectables::{DetectableEntry, DetectableExecutable, Detectables};
use crate::event::{
    counted_seq, events_model, published_seq, EventBus, EventKind, EventModel,
};
use crate::metrics::Metrics;
use crate::json::{str_eq, JsonModel};
use crate::text::{
    decimal_text, file_name, is_substring, path_file_name, rsplit_once_dot, str_contains,
    to_lower, u32_to_text, unicode_lower,
};
use vstd::prelude::*;
use vstd::string::*;

verus! {

/// A running process.
#[derive(Debug, Default, Clone)]
pub struct ProcessInfo {
    pub pid: u32,
    pub exe: String,
    pub cmdline: String,
}

/// Where the list of running processes comes from.
pub trait ProcessBackend {
    /// The processes that run now.
    fn list(&self) -> Vec<ProcessInfo>;
}

/// The backend for Linux. It reports no process yet.
#[derive(Debug, Default, Clone, Copy)]
pub struct LinuxBackend;

impl ProcessBackend for LinuxBackend {
    fn list(&self) -> (r: Vec<ProcessInfo>)
        ensures
            r@.len() == 0,
    {
        Vec::new()
    }
}

/// A name without its extension: the part before the last dot, or all of it
/// where it has no dot.
pub open spec fn strip_ext_spec(s: Seq<char>) -> Seq<char>
    decreases s.len(),
{
    if s.len() == 0 {
        s
    } else if s.last() == '.' {
        s.drop_last()
    } else if !s.contains('.') {
        s
    } else {
        strip_ext_spec(s.drop_last())
    }
}

/// Two names are taken for the same executable if they are equal with or
/// without their extensions.
pub open spec fn names_match_spec(a: Seq<char>, b: Seq<char>) -> bool {
    a == b || strip_ext_spec(a) == b || a == strip_ext_spec(b) || strip_ext_spec(a)
        == strip_ext_spec(b)
}

/// The last component of a path in lower case; the whole path in lower case
/// where it has no last component.
pub open spec fn base_lower_spec(s: Seq<char>) -> Seq<char> {
    unicode_lower(
        match path_file_name(s) {
            Some(name) => name,
            None => s,
        },
    )
}

/// The executables of launchers, which never count as an application.
pub open spec fn is_launcher_name(name: Seq<char>) -> bool {
    name == "steam"@ || name == "steam.exe"@ || name == "steamwebhelper"@ || name == "battle.net"@
        || name == "epicgameslauncher"@ || name == "riotclientservices"@ || name == "launcher"@
}

/// The executables of a Java runtime.
pub open spec fn is_java_name(name: Seq<char>) -> bool {
    name == "java"@ || name == "javaw"@ || name == "java.exe"@ || name == "javaw.exe"@
}

/// The process runs this executable of the catalog.
pub open spec fn exe_matches(exe_base: Seq<char>, e: DetectableExecutable) -> bool {
    !e.is_launcher && names_match_spec(exe_base, base_lower_spec(e.name@))
}

/// The process runs one of the executables of the entry.
pub open spec fn entry_matches_exe(exe_base: Seq<char>, d: DetectableEntry) -> bool {
    exists|k: int| 0 <= k < d.executables@.len() && exe_matches(exe_base, #[trigger] d.executables@[k])
}

/// The command line names this executable of the catalog, with or without its extension.
pub open spec fn exe_in_cmdline(cmd_lower: Seq<char>, e: DetectableExecutable) -> bool {
    !e.is_launcher && (is_substring(base_lower_spec(e.name@), cmd_lower) || is_substring(
        strip_ext_spec(base_lower_spec(e.name@)),
        cmd_lower,
    ))
}

/// The command line names one of the executables of the entry, or the entry itself.
pub open spec fn entry_matches_cmdline(cmd_lower: Seq<char>, d: DetectableEntry) -> bool {
    (exists|k: int|
        0 <= k < d.executables@.len() && exe_in_cmdline(cmd_lower, #[trigger] d.executables@[k]))
        || is_substring(unicode_lower(d.name@), cmd_lower)
}

/// The test whether a process with the given executable runs an entry.
pub open spec fn by_exe(exe_base: Seq<char>) -> spec_fn(DetectableEntry) -> bool {
    |d: DetectableEntry| entry_matches_exe(exe_base, d)
}

/// The test whether the given command line names an entry.
pub open spec fn by_cmdline(cmd_lower: Seq<char>) -> spec_fn(DetectableEntry) -> bool {
    |d: DetectableEntry| entry_matches_cmdline(cmd_lower, d)
}

/// The place of the first entry that satisfies `pred`.
pub open spec fn first_match(list: Seq<DetectableEntry>, pred: spec_fn(DetectableEntry) -> bool) -> Option<
    int,
>
    decreases list.len(),
{
    if list.len() == 0 {
        None
    } else if pred(list[0]) {
        Some(0)
    } else {
        match first_match(list.drop_first(), pred) {
            Some(i) => Some(i + 1),
            None => None,
        }
    }
}

/// The place of the entry that a process is recognized as, given the last
/// component of its executable in lower case and its command line in lower
/// case.
///
/// A launcher is never recognized. Otherwise the first entry counts of which
/// the process runs an executable; and for a Java runtime that runs none, the
/// first entry that its command line names.
pub open spec fn match_named_spec(
    exe_base: Seq<char>,
    cmd_lower: Seq<char>,
    list: Seq<DetectableEntry>,
) -> Option<int> {
    if is_launcher_name(exe_base) {
        None
    } else {
        match first_match(list, by_exe(exe_base)) {
            Some(i) => Some(i),
            None => if is_java_name(exe_base) {
                first_match(list, by_cmdline(cmd_lower))
            } else {
                None
            },
        }
    }
}

/// The place of the entry that a process with the given executable and
/// command line is recognized as.
pub open spec fn match_spec(exe: Seq<char>, cmdline: Seq<char>, list: Seq<DetectableEntry>) -> Option<
    int,
> {
    match_named_spec(base_lower_spec(exe), unicode_lower(cmdline), list)
}

/// The first match is the least place whose entry satisfies the predicate.
pub proof fn lemma_first_match(
    list: Seq<DetectableEntry>,
    pred: spec_fn(DetectableEntry) -> bool,
    until: int,
)
    requires
        0 <= until <= list.len(),
        forall|j: int| 0 <= j < until ==> !pred(#[trigger] list[j]),
    ensures
        until < list.len() && pred(list[until]) ==> first_match(list, pred) == Some(until),
        until == list.len() ==> first_match(list, pred) is None,
        first_match(list, pred) matches Some(i) ==> until <= i < list.len() && pred(list[i]),
    decreases list.len(),
{
    if list.len() > 0 {
        if until > 0 {
            assert(!pred(list[0]));
            assert forall|j: int| 0 <= j < until - 1 implies !pred(#[trigger] list.drop_first()[j]) by {
                assert(list.drop_first()[j] == list[j + 1]);
            }
            lemma_first_match(list.drop_first(), pred, until - 1);
            if until < list.len() {
                assert(list.drop_first()[until - 1] == list[until]);
            }
            match first_match(list.drop_first(), pred) {
                Some(i) => {
                    assert(list.drop_first()[i] == list[i + 1]);
                },
                None => {},
            }
        } else {
            if !pred(list[0]) {
                lemma_first_match(list.drop_first(), pred, 0);
                match first_match(list.drop_first(), pred) {
                    Some(i) => {
                        assert(list.drop_first()[i] == list[i + 1]);
                    },
                    None => {},
                }
            }
        }
    }
}

/// Cutting a name at its last dot gives the name without its extension.
pub proof fn lemma_strip_ext(stem: Seq<char>, ext: Seq<char>)
    requires
        !ext.contains('.'),
    ensures
        strip_ext_spec(stem + seq!['.'] + ext) == stem,
    decreases ext.len(),
{
    let s = stem + seq!['.'] + ext;
    if ext.len() == 0 {
        assert(s.last() == '.');
        assert(s.drop_last() =~= stem);
    } else {
        assert(s.last() == ext.last());
        assert(ext.contains(ext.last()));
        assert(s[stem.len() as int] == '.');
        assert(s.contains('.'));
        assert(!ext.drop_last().contains('.')) by {
            if ext.drop_last().contains('.') {
                let i = choose|i: int| 0 <= i < ext.drop_last().len() && ext.drop_last()[i] == '.';
                assert(ext[i] == '.');
            }
        }
        assert(s.drop_last() =~= stem + seq!['.'] + ext.drop_last());
        lemma_strip_ext(stem, ext.drop_last());
    }
}

/// A name without a dot is its own stem.
pub proof fn lemma_strip_ext_no_dot(s: Seq<char>)
    requires
        !s.contains('.'),
    ensures
        strip_ext_spec(s) == s,
{
    if s.len() > 0 {
        assert(s.contains(s.last()));
    }
}

/// The last component of a path, in lower case.
pub fn base_lower(s: &str) -> (r: String)
    ensures
        r@ == base_lower_spec(s@),
{
    match file_name(s) {
        Some(name) => to_lower(name),
        None => to_lower(s),
    }
}

/// A name without its extension.
pub fn strip_ext(name: &str) -> (r: String)
    ensures
        r@ == strip_ext_spec(name@),
{
    match rsplit_once_dot(name) {
        Some((stem, ext)) => {
            proof {
                lemma_strip_ext(stem@, ext@);
            }
            stem.to_owned()
        },
        None => {
            proof {
                lemma_strip_ext_no_dot(name@);
            }
            name.to_owned()
        },
    }
}

/// Whether two names are taken for the same executable.
pub fn names_match(a: &str, b: &str) -> (r: bool)
    ensures
        r == names_match_spec(a@, b@),
{
    if str_eq(a, b) {
        return true;
    }
    let sa = strip_ext(a);
    if str_eq(sa.as_str(), b) {
        return true;
    }
    let sb = strip_ext(b);
    str_eq(a, sb.as_str()) || str_eq(sa.as_str(), sb.as_str())
}

/// Whether the name is that of a launcher.
fn is_launcher(name: &str) -> (r: bool)
    ensures
        r == is_launcher_name(name@),
{
    str_eq(name, "steam") || str_eq(name, "steam.exe") || str_eq(name, "steamwebhelper") || str_eq(
        name,
        "battle.net",
    ) || str_eq(name, "epicgameslauncher") || str_eq(name, "riotclientservices") || str_eq(
        name,
        "launcher",
    )
}

/// Whether the name is that of a Java runtime.
fn is_java(name: &str) -> (r: bool)
    ensures
        r == is_java_name(name@),
{
    str_eq(name, "java") || str_eq(name, "javaw") || str_eq(name, "java.exe") || str_eq(
        name,
        "javaw.exe",
    )
}

/// Whether the process runs one of the executables of the entry.
fn runs_executable_of(exe_base: &str, d: &DetectableEntry) -> (r: bool)
    ensures
        r == entry_matches_exe(exe_base@, *d),
{
    let mut k: usize = 0;
    while k < d.executables.len()
        invariant
            k <= d.executables.len(),
            forall|j: int| 0 <= j < k ==> !exe_matches(exe_base@, #[trigger] d.executables@[j]),
        decreases d.executables.len() - k,
    {
        let e = &d.executables[k];
        if !e.is_launcher {
            let det_base = base_lower(e.name.as_str());
            if names_match(exe_base, det_base.as_str()) {
                return true;
            }
        }
        k += 1;
    }
    false
}

/// Whether the command line names one of the executables of the entry, or the entry itself.
fn named_in_cmdline(cmd_lower: &str, d: &DetectableEntry) -> (r: bool)
    ensures
        r == entry_matches_cmdline(cmd_lower@, *d),
{
    let mut k: usize = 0;
    while k < d.executables.len()
        invariant
            k <= d.executables.len(),
            forall|j: int| 0 <= j < k ==> !exe_in_cmdline(cmd_lower@, #[trigger] d.executables@[j]),
        decreases d.executables.len() - k,
    {
        let e = &d.executables[k];
        if !e.is_launcher {
            let det_base = base_lower(e.name.as_str());
            if str_contains(cmd_lower, det_base.as_str()) {
                return true;
            }
            let stem = strip_ext(det_base.as_str());
            if str_contains(cmd_lower, stem.as_str()) {
                return true;
            }
        }
        k += 1;
    }
    let dn = to_lower(d.name.as_str());
    str_contains(cmd_lower, dn.as_str())
}

/// The place of the entry that a process is recognized as, given the last
/// component of its executable in lower case and its command line in lower
/// case.
pub fn match_named(exe_base: &str, cmd_lower: &str, list: &[DetectableEntry]) -> (r: Option<usize>)
    ensures
        match r {
            Some(i) => match_named_spec(exe_base@, cmd_lower@, list@) == Some(i as int) && i
                < list@.len(),
            None => match_named_spec(exe_base@, cmd_lower@, list@) is None,
        },
{
    if is_launcher(exe_base) {
        return None;
    }
    let ghost runs = by_exe(exe_base@);
    let ghost names = by_cmdline(cmd_lower@);
    let mut i: usize = 0;
    while i < list.len()
        invariant
            i <= list.len(),
            runs == by_exe(exe_base@),
            !is_launcher_name(exe_base@),
            forall|j: int| 0 <= j < i ==> !runs(#[trigger] list@[j]),
        decreases list.len() - i,
    {
        if runs_executable_of(exe_base, &list[i]) {
            proof {
                lemma_first_match(list@, runs, i as int);
            }
            return Some(i);
        }
        i += 1;
    }
    proof {
        lemma_first_match(list@, runs, list@.len() as int);
    }
    if is_java(exe_base) {
        let mut i: usize = 0;
        while i < list.len()
            invariant
                i <= list.len(),
                names == by_cmdline(cmd_lower@),
                !is_launcher_name(exe_base@),
                is_java_name(exe_base@),
                first_match(list@, by_exe(exe_base@)) is None,
                forall|j: int| 0 <= j < i ==> !names(#[trigger] list@[j]),
            decreases list.len() - i,
        {
            if named_in_cmdline(cmd_lower, &list[i]) {
                proof {
                    lemma_first_match(list@, names, i as int);
                }
                return Some(i);
            }
            i += 1;
        }
        proof {
            lemma_first_match(list@, names, list@.len() as int);
        }
    }
    None
}

/// The place of the entry that a process is recognized as.
pub fn match_index(p: &ProcessInfo, list: &[DetectableEntry]) -> (r: Option<usize>)
    ensures
        match r {
            Some(i) => match_spec(p.exe@, p.cmdline@, list@) == Some(i as int) && i < list@.len(),
            None => match_spec(p.exe@, p.cmdline@, list@) is None,
        },
{
    let exe_base = base_lower(p.exe.as_str());
    let cmd_lower = to_lower(p.cmdline.as_str());
    match_named(exe_base.as_str(), cmd_lower.as_str(), list)
}

/// The entry of the catalog that a process is recognized as.
pub fn match_process<'a>(p: &ProcessInfo, list: &'a [DetectableEntry]) -> (r: Option<
    &'a DetectableEntry,
>)
    ensures
        match r {
            Some(d) => match_spec(p.exe@, p.cmdline@, list@) is Some && *d == list@[match_spec(
                p.exe@,
                p.cmdline@,
                list@,
            )->0],
            None => match_spec(p.exe@, p.cmdline@, list@) is None,
        },
{
    match match_index(p, list) {
        Some(i) => Some(&list[i]),
        None => None,
    }
}


// ---------------------------------------------------------------------------
// The scanner
// ---------------------------------------------------------------------------

/// The id under which the activity of a process goes on the bus.
pub open spec fn proc_socket_id(pid: u32) -> Seq<char> {
    "proc-"@ + decimal_text(pid as nat)
}

/// The activity that is reported for a recognized process: nothing but the
/// name of the application.
pub open spec fn named_activity(name: Seq<char>) -> JsonModel {
    activity_json(
        ActivityModel {
            name,
            state: None,
            details: None,
            timestamps: None,
            assets: None,
            party: None,
            secrets: None,
            buttons: None,
            instance: None,
            flags: None,
            extra: Map::empty(),
        },
    )
}

/// Whether a process with the given pid is among the running ones.
pub open spec fn is_running(procs: Seq<ProcessInfo>, pid: u32) -> bool {
    exists|i: int| 0 <= i < procs.len() && (#[trigger] procs[i]).pid == pid
}

/// A clear for each process that was reported once and runs no more, in the
/// order in which they were first reported.
pub open spec fn gone_events(seen: Seq<u32>, procs: Seq<ProcessInfo>) -> Seq<EventModel>
    decreases seen.len(),
{
    if seen.len() == 0 {
        Seq::empty()
    } else {
        let rest = gone_events(seen.drop_last(), procs);
        if is_running(procs, seen.last()) {
            rest
        } else {
            rest.push(EventModel::Clear { socket_id: proc_socket_id(seen.last()) })
        }
    }
}

/// An update for each running process that is recognized, in the order of the processes.
pub open spec fn found_events(procs: Seq<ProcessInfo>, list: Seq<DetectableEntry>) -> Seq<
    EventModel,
>
    decreases procs.len(),
{
    if procs.len() == 0 {
        Seq::empty()
    } else {
        let rest = found_events(procs.drop_last(), list);
        let p = procs.last();
        match match_spec(p.exe@, p.cmdline@, list) {
            Some(i) => rest.push(
                EventModel::ActivityUpdate {
                    socket_id: proc_socket_id(p.pid),
                    payload: named_activity(list[i].name@),
                },
            ),
            None => rest,
        }
    }
}

/// The pids of the running processes that are recognized, in the order of the processes.
pub open spec fn found_pids(procs: Seq<ProcessInfo>, list: Seq<DetectableEntry>) -> Seq<u32>
    decreases procs.len(),
{
    if procs.len() == 0 {
        Seq::empty()
    } else {
        let rest = found_pids(procs.drop_last(), list);
        let p = procs.last();
        match match_spec(p.exe@, p.cmdline@, list) {
            Some(i) => rest.push(p.pid),
            None => rest,
        }
    }
}

/// The pids that were reported after a scan: those before, then the newly
/// recognized ones that were not among them, each once.
pub open spec fn seen_after(seen: Seq<u32>, found: Seq<u32>) -> Seq<u32>
    decreases found.len(),
{
    if found.len() == 0 {
        seen
    } else {
        let rest = seen_after(seen, found.drop_last());
        if rest.contains(found.last()) {
            rest
        } else {
            rest.push(found.last())
        }
    }
}

/// The id under which the activity of a process goes on the bus.
pub fn proc_socket(pid: u32) -> (r: String)
    ensures
        r@ == proc_socket_id(pid),
{
    let number = u32_to_text(pid);
    let mut r = "proc-".to_owned();
    r.append(number.as_str());
    r
}

/// Whether a process with the given pid is among the running ones.
fn runs(procs: &Vec<ProcessInfo>, pid: u32) -> (r: bool)
    ensures
        r == is_running(procs@, pid),
{
    let mut i: usize = 0;
    while i < procs.len()
        invariant
            i <= procs.len(),
            forall|j: int| 0 <= j < i ==> (#[trigger] procs@[j]).pid != pid,
        decreases procs.len() - i,
    {
        if procs[i].pid == pid {
            return true;
        }
        i += 1;
    }
    false
}

/// Whether the pid is in the list.
fn has_pid(seen: &Vec<u32>, pid: u32) -> (r: bool)
    ensures
        r == seen@.contains(pid),
{
    let mut i: usize = 0;
    while i < seen.len()
        invariant
            i <= seen.len(),
            forall|j: int| 0 <= j < i ==> seen@[j] != pid,
        decreases seen.len() - i,
    {
        if seen[i] == pid {
            return true;
        }
        i += 1;
    }
    false
}

/// What one scan puts on the bus, given the pids that were reported before,
/// the processes that run now and the catalog: first the clears, then the
/// updates. Also gives the pids of the recognized processes.
pub fn scan_events(seen: &Vec<u32>, procs: &Vec<ProcessInfo>, list: &[DetectableEntry]) -> (r: (
    Vec<EventKind>,
    Vec<u32>,
))
    ensures
        events_model(r.0@) == gone_events(seen@, procs@) + found_events(procs@, list@),
        r.1@ == found_pids(procs@, list@),
        r.1@.len() == found_events(procs@, list@).len(),
{
    let mut events: Vec<EventKind> = Vec::new();
    let mut i: usize = 0;
    assert(seen@.take(0) =~= Seq::empty());
    assert(events_model(events@) =~= Seq::empty());
    while i < seen.len()
        invariant
            i <= seen.len(),
            events_model(events@) == gone_events(seen@.take(i as int), procs@),
        decreases seen.len() - i,
    {
        assert(seen@.take(i + 1).drop_last() =~= seen@.take(i as int));
        assert(seen@.take(i + 1).last() == seen@[i as int]);
        if !runs(procs, seen[i]) {
            let ghost before = events_model(events@);
            events.push(EventKind::Clear { socket_id: proc_socket(seen[i]) });
            assert(events_model(events@) =~= before.push(
                EventModel::Clear { socket_id: proc_socket_id(seen@[i as int]) },
            ));
        }
        i += 1;
    }
    assert(seen@.take(seen.len() as int) =~= seen@);
    let ghost gone = events_model(events@);
    let mut found: Vec<u32> = Vec::new();
    let mut k: usize = 0;
    assert(procs@.take(0) =~= Seq::empty());
    assert(gone + Seq::<EventModel>::empty() =~= gone);
    while k < procs.len()
        invariant
            k <= procs.len(),
            gone == gone_events(seen@, procs@),
            events_model(events@) == gone + found_events(procs@.take(k as int), list@),
            found@ == found_pids(procs@.take(k as int), list@),
            found@.len() == found_events(procs@.take(k as int), list@).len(),
        decreases procs.len() - k,
    {
        assert(procs@.take(k + 1).drop_last() =~= procs@.take(k as int));
        assert(procs@.take(k + 1).last() == procs@[k as int]);
        match match_process(&procs[k], list) {
            Some(d) => {
                let ghost before = events_model(events@);
                let mut activity = Activity::default();
                activity.name = d.name.clone();
                let payload = activity.to_json();
                let evt = EventKind::ActivityUpdate { socket_id: proc_socket(procs[k].pid), payload };
                events.push(evt);
                found.push(procs[k].pid);
                assert(events_model(events@) =~= before.push(evt@));
                assert((gone + found_events(procs@.take(k as int), list@)).push(evt@) =~= gone
                    + found_events(procs@.take(k as int), list@).push(evt@));
            },
            None => {},
        }
        k += 1;
    }
    assert(procs@.take(procs.len() as int) =~= procs@);
    (events, found)
}

/// Adds the pids that are not in the list yet.
pub fn remember(seen: &mut Vec<u32>, found: &Vec<u32>)
    ensures
        final(seen)@ == seen_after(old(seen)@, found@),
{
    let mut i: usize = 0;
    assert(found@.take(0) =~= Seq::empty());
    while i < found.len()
        invariant
            i <= found.len(),
            seen@ == seen_after(old(seen)@, found@.take(i as int)),
        decreases found.len() - i,
    {
        assert(found@.take(i + 1).drop_last() =~= found@.take(i as int));
        assert(found@.take(i + 1).last() == found@[i as int]);
        if !has_pid(seen, found[i]) {
            seen.push(found[i]);
        }
        i += 1;
    }
    assert(found@.take(found.len() as int) =~= found@);
}

/// Looks at the running processes from time to time and reports the
/// recognized ones on the bus.
pub struct Scanner<B: ProcessBackend> {
    pub backend: B,
    pub detectables: Detectables,
    /// The pids that were reported once.
    pub seen: Vec<u32>,
}

impl<B: ProcessBackend> Scanner<B> {
    /// A scanner that has reported nothing yet.
    pub fn new(backend: B, detectables: Detectables) -> (r: Scanner<B>)
        ensures
            r.backend == backend,
            r.detectables == detectables,
            r.seen@ == Seq::<u32>::empty(),
    {
        Scanner { backend, detectables, seen: Vec::new() }
    }

    /// Reports on the given processes: puts a clear on the bus for each
    /// process that was reported once and runs no more, then an update for
    /// each process that is recognized, and counts the recognized ones.
    pub fn report(&mut self, procs: &Vec<ProcessInfo>, bus: &mut EventBus)
        ensures
            final(self).detectables == old(self).detectables,
            final(self).seen@ == seen_after(
                old(self).seen@,
                found_pids(procs@, old(self).detectables.inner@),
            ),
            final(bus).queues() == published_seq(
                old(bus).queues(),
                gone_events(old(self).seen@, procs@) + found_events(
                    procs@,
                    old(self).detectables.inner@,
                ),
            ),
            final(bus).counters() == (Metrics {
                processes_detected: counted_seq(
                    old(bus).counters(),
                    gone_events(old(self).seen@, procs@) + found_events(
                        procs@,
                        old(self).detectables.inner@,
                    ),
                ).processes_detected.wrapping_add(
                    found_events(procs@, old(self).detectables.inner@).len() as u64,
                ),
                ..counted_seq(
                    old(bus).counters(),
                    gone_events(old(self).seen@, procs@) + found_events(
                        procs@,
                        old(self).detectables.inner@,
                    ),
                )
            }),
    {
        let (events, found) = scan_events(&self.seen, procs, self.detectables.inner.as_slice());
        bus.publish_all(&events);
        bus.processes_detected(found.len() as u64);
        remember(&mut self.seen, &found);
    }

    /// Asks the backend for the running processes and reports on them:
    /// whatever processes the backend names, the scanner and the bus are
    /// afterwards as a report on those processes leaves them.
    pub fn scan_once(&mut self, bus: &mut EventBus)
        ensures
            final(self).detectables == old(self).detectables,
            final(bus).queues().len() == old(bus).queues().len(),
            exists|procs: Seq<ProcessInfo>|
                #[trigger] reported(
                    procs,
                    old(self).detectables.inner@,
                    old(self).seen@,
                    old(bus).queues(),
                    old(bus).counters(),
                    final(self).seen@,
                    final(bus).queues(),
                    final(bus).counters(),
                ),
    {
        let procs = self.backend.list();
        proof {
            crate::event::lemma_published_seq(
                bus.queues(),
                gone_events(self.seen@, procs@) + found_events(procs@, self.detectables.inner@),
            );
        }
        self.report(&procs, bus);
        assert(reported(
            procs@,
            old(self).detectables.inner@,
            old(self).seen@,
            old(bus).queues(),
            old(bus).counters(),
            self.seen@,
            bus.queues(),
            bus.counters(),
        ));
    }
}

/// What one scan puts on the bus for the given processes: a clear for each
/// process that was reported once and runs no more, then an update for each
/// process that is recognized.
pub open spec fn scan_events_spec(
    procs: Seq<ProcessInfo>,
    list: Seq<DetectableEntry>,
    seen: Seq<u32>,
) -> Seq<EventModel> {
    gone_events(seen, procs) + found_events(procs, list)
}

/// A report on the given processes was made: the recognized ones are
/// remembered, the bus has the events of the scan behind what it had, and
/// each recognized process is counted.
pub open spec fn reported(
    procs: Seq<ProcessInfo>,
    list: Seq<DetectableEntry>,
    seen_before: Seq<u32>,
    queues_before: Seq<Option<Seq<EventModel>>>,
    counters_before: Metrics,
    seen_now: Seq<u32>,
    queues_now: Seq<Option<Seq<EventModel>>>,
    counters_now: Metrics,
) -> bool {
    &&& seen_now == seen_after(seen_before, found_pids(procs, list))
    &&& queues_now == published_seq(queues_before, scan_events_spec(procs, list, seen_before))
    &&& counters_now == (Metrics {
        processes_detected: counted_seq(
            counters_before,
            scan_events_spec(procs, list, seen_before),
        ).processes_detected.wrapping_add(found_events(procs, list).len() as u64),
        ..counted_seq(counters_before, scan_events_spec(procs, list, seen_before))
    })
}

} // verus!
