//! Where the stream transport listens: the candidate paths and the order in
//! which they are tried.

use crate::json::str_eq;
use vstd::prelude::*;
use vstd::string::*;

verus! {

/// `std::io::Error`, of which nothing is seen but that it is there.
#[verifier::external_type_specification]
#[verifier::external_body]
pub struct ExIoError(std::io::Error);

/// Why the stream transport did not come up.
#[derive(Debug)]
pub enum IpcServerError {
    /// The operating system refused.
    Io(std::io::Error),
}

/// The stream transport as it was bound.
#[derive(Debug)]
pub struct IpcServer {
    path: String,
}

impl IpcServer {
    /// The listener that was bound at `path`.
    pub fn bound_at(path: String) -> (r: IpcServer)
        ensures
            r.path_spec() == path@,
    {
        IpcServer { path }
    }

    /// The path of the listener.
    pub closed spec fn path_spec(&self) -> Seq<char> {
        self.path@
    }

    /// The path of the listener.
    pub fn path(&self) -> (r: &str)
        ensures
            r@ == self.path_spec(),
    {
        self.path.as_str()
    }
}

/// How many file names are tried in each directory.
pub const SLOTS_PER_DIR: usize = 10;

/// The directory that is tried after those of the environment.
pub open spec fn fallback_dir() -> Seq<char> {
    "/tmp"@
}

/// `dirs` with the value of a variable at its end, where the variable is set
/// and not empty.
pub open spec fn with_dir(dirs: Seq<Seq<char>>, value: Option<Seq<char>>) -> Seq<Seq<char>> {
    match value {
        Some(v) => if v.len() > 0 {
            dirs.push(v)
        } else {
            dirs
        },
        None => dirs,
    }
}

/// The directories to try, in order: those that `XDG_RUNTIME_DIR`, `TMPDIR`,
/// `TMP` and `TEMP` name, then `/tmp`.
pub open spec fn candidate_dirs_spec(
    xdg_runtime_dir: Option<Seq<char>>,
    tmpdir: Option<Seq<char>>,
    tmp: Option<Seq<char>>,
    temp: Option<Seq<char>>,
) -> Seq<Seq<char>> {
    with_dir(
        with_dir(with_dir(with_dir(Seq::empty(), xdg_runtime_dir), tmpdir), tmp),
        temp,
    ).push(fallback_dir())
}

/// The name of the socket file with the given number.
pub open spec fn slot_name(n: int) -> Seq<char> {
    if n == 0 {
        "discord-ipc-0"@
    } else if n == 1 {
        "discord-ipc-1"@
    } else if n == 2 {
        "discord-ipc-2"@
    } else if n == 3 {
        "discord-ipc-3"@
    } else if n == 4 {
        "discord-ipc-4"@
    } else if n == 5 {
        "discord-ipc-5"@
    } else if n == 6 {
        "discord-ipc-6"@
    } else if n == 7 {
        "discord-ipc-7"@
    } else if n == 8 {
        "discord-ipc-8"@
    } else {
        "discord-ipc-9"@
    }
}

/// The path of the socket file with the given number in a directory.
pub open spec fn slot_path(dir: Seq<char>, n: int) -> Seq<char> {
    dir + "/"@ + slot_name(n)
}

/// The paths to try, in order: for each directory in turn the ten socket
/// files from 0 to 9.
pub open spec fn candidate_paths_spec(dirs: Seq<Seq<char>>) -> Seq<Seq<char>> {
    Seq::new(
        dirs.len() * SLOTS_PER_DIR as nat,
        |i: int| slot_path(dirs[i / SLOTS_PER_DIR as int], i % SLOTS_PER_DIR as int),
    )
}

/// The views of a list of strings.
pub open spec fn strings_model(v: Seq<String>) -> Seq<Seq<char>> {
    Seq::new(v.len(), |i: int| v[i]@)
}

fn push_dir(dirs: &mut Vec<String>, value: Option<&str>)
    ensures
        strings_model(final(dirs)@) == with_dir(
            strings_model(old(dirs)@),
            match value {
                Some(v) => Some(v@),
                None => None,
            },
        ),
{
    proof {
        reveal_strlit("");
    }
    match value {
        Some(v) => {
            if !str_eq(v, "") {
                assert(v@.len() > 0) by {
                    if v@.len() == 0 {
                        assert(v@ =~= ""@);
                    }
                }
                dirs.push(v.to_owned());
                assert(strings_model(dirs@) =~= strings_model(old(dirs)@).push(v@));
            }
        },
        None => {},
    }
}

/// The directories to try, given what the environment holds for
/// `XDG_RUNTIME_DIR`, `TMPDIR`, `TMP` and `TEMP`.
pub fn candidate_dirs(
    xdg_runtime_dir: Option<&str>,
    tmpdir: Option<&str>,
    tmp: Option<&str>,
    temp: Option<&str>,
) -> (r: Vec<String>)
    ensures
        strings_model(r@) == candidate_dirs_spec(
            match xdg_runtime_dir {
                Some(v) => Some(v@),
                None => None,
            },
            match tmpdir {
                Some(v) => Some(v@),
                None => None,
            },
            match tmp {
                Some(v) => Some(v@),
                None => None,
            },
            match temp {
                Some(v) => Some(v@),
                None => None,
            },
        ),
{
    let mut dirs: Vec<String> = Vec::new();
    assert(strings_model(dirs@) =~= Seq::empty());
    push_dir(&mut dirs, xdg_runtime_dir);
    push_dir(&mut dirs, tmpdir);
    push_dir(&mut dirs, tmp);
    push_dir(&mut dirs, temp);
    let ghost before = strings_model(dirs@);
    dirs.push("/tmp".to_owned());
    assert(strings_model(dirs@) =~= before.push(fallback_dir()));
    dirs
}

/// The name of the socket file with the given number.
pub fn slot_file_name(n: usize) -> (r: &'static str)
    requires
        n < SLOTS_PER_DIR,
    ensures
        r@ == slot_name(n as int),
{
    if n == 0 {
        "discord-ipc-0"
    } else if n == 1 {
        "discord-ipc-1"
    } else if n == 2 {
        "discord-ipc-2"
    } else if n == 3 {
        "discord-ipc-3"
    } else if n == 4 {
        "discord-ipc-4"
    } else if n == 5 {
        "discord-ipc-5"
    } else if n == 6 {
        "discord-ipc-6"
    } else if n == 7 {
        "discord-ipc-7"
    } else if n == 8 {
        "discord-ipc-8"
    } else {
        "discord-ipc-9"
    }
}

/// The paths to try, in order.
pub fn candidate_paths(dirs: &Vec<String>) -> (r: Vec<String>)
    ensures
        strings_model(r@) == candidate_paths_spec(strings_model(dirs@)),
{
    let mut out: Vec<String> = Vec::new();
    let mut d: usize = 0;
    while d < dirs.len()
        invariant
            d <= dirs.len(),
            out@.len() == d * SLOTS_PER_DIR,
            forall|i: int|
                0 <= i < out@.len() ==> (#[trigger] out@[i])@ == slot_path(
                    dirs@[i / SLOTS_PER_DIR as int]@,
                    i % SLOTS_PER_DIR as int,
                ),
        decreases dirs.len() - d,
    {
        let mut n: usize = 0;
        while n < SLOTS_PER_DIR
            invariant
                d < dirs.len(),
                n <= SLOTS_PER_DIR,
                out@.len() == d * SLOTS_PER_DIR + n,
                forall|i: int|
                    0 <= i < out@.len() ==> (#[trigger] out@[i])@ == slot_path(
                        dirs@[i / SLOTS_PER_DIR as int]@,
                        i % SLOTS_PER_DIR as int,
                    ),
            decreases SLOTS_PER_DIR - n,
        {
            let mut path = dirs[d].clone();
            path.append("/");
            path.append(slot_file_name(n));
            out.push(path);
            n += 1;
        }
        d += 1;
    }
    assert(strings_model(out@) =~= candidate_paths_spec(strings_model(dirs@)));
    out
}

/// What to do with a candidate path.
#[derive(Debug, Clone, Copy, PartialEq, Eq, Structural)]
pub enum PathDecision {
    /// Something listens there: pass on to the next path.
    Skip,
    /// A stale file is in the way: delete it, then try to bind.
    Reclaim,
    /// Nothing is there: try to bind.
    Bind,
}

/// Decides on a candidate path from whether a file is there and whether a
/// connection to it succeeds.
pub fn decide_path(exists: bool, accepts_connection: bool) -> (r: PathDecision)
    ensures
        r == (if !exists {
            PathDecision::Bind
        } else if accepts_connection {
            PathDecision::Skip
        } else {
            PathDecision::Reclaim
        }),
{
    if !exists {
        PathDecision::Bind
    } else if accepts_connection {
        PathDecision::Skip
    } else {
        PathDecision::Reclaim
    }
}

/// The walk through the candidate paths.
#[derive(Debug)]
pub struct BindScan {
    paths: Vec<String>,
    next: usize,
}

impl BindScan {
    #[verifier::type_invariant]
    spec fn in_range(self) -> bool {
        self.next <= self.paths@.len()
    }

    /// The paths that the walk goes through.
    pub closed spec fn paths(&self) -> Seq<Seq<char>> {
        strings_model(self.paths@)
    }

    /// How many paths were given up.
    pub closed spec fn given_up(&self) -> nat {
        self.next as nat
    }

    /// A walk through the paths of the given directories that starts at the first.
    pub fn new(dirs: &Vec<String>) -> (r: BindScan)
        ensures
            r.paths() == candidate_paths_spec(strings_model(dirs@)),
            r.given_up() == 0,
    {
        BindScan { paths: candidate_paths(dirs), next: 0 }
    }

    /// The path to try now; nothing once every path was given up, which
    /// means that no address is available.
    pub fn current(&self) -> (r: Option<&str>)
        ensures
            match r {
                Some(p) => self.given_up() < self.paths().len() && p@ == self.paths()[self.given_up() as int],
                None => self.given_up() == self.paths().len(),
            },
    {
        proof {
            use_type_invariant(self);
        }
        if self.next < self.paths.len() {
            Some(self.paths[self.next].as_str())
        } else {
            None
        }
    }

    /// Gives up the current path, which was skipped or could not be bound.
    pub fn advance(&mut self)
        ensures
            final(self).paths() == old(self).paths(),
            final(self).given_up() == (if old(self).given_up() < old(self).paths().len() {
                old(self).given_up() + 1
            } else {
                old(self).given_up()
            }),
    {
        proof {
            use_type_invariant(&*self);
        }
        if self.next < self.paths.len() {
            self.next = self.next + 1;
        }
    }
}

} // verus!
