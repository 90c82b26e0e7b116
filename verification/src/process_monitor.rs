//! Which running process is the game: Windows path comparison, the
//! install-folder test and the helpers that never count as the game.
use vstd::prelude::*;
use crate::paths::{file_name, file_name_of};
use crate::text::{
    ascii_lower_seq, ascii_lowercase, chars_to_string, replace, replace_all, same_chars,
    starts_with, str_chars, has_prefix,
};

verus! {

/// A process accepted as the running game.
#[derive(Debug, Clone)]
pub struct TrackedProcess {
    pub pid: u32,
    pub executable: String,
}

/// Process tracking for launched games.
pub struct ProcessMonitor;

/// `p` without trailing backslashes.
pub open spec fn trim_end_backslashes(p: Seq<char>) -> Seq<char>
    decreases p.len(),
{
    if p.len() > 0 && p.last() == '\\' {
        trim_end_backslashes(p.drop_last())
    } else {
        p
    }
}

/// A path as Windows compares it: `/` read as `\`, no trailing `\`, ASCII
/// letters in lower case.
pub open spec fn spec_normalized_path(p: Seq<char>) -> Seq<char> {
    ascii_lower_seq(trim_end_backslashes(replace(p, seq!['/'], seq!['\\'])))
}

/// `path` is `directory` itself or lies below it.
pub open spec fn spec_path_is_inside(path: Seq<char>, directory: Seq<char>) -> bool {
    let p = spec_normalized_path(path);
    let d = spec_normalized_path(directory);
    p == d || starts_with(p, d + seq!['\\'])
}

/// Executables of Steam, its overlay and crash handlers, and installers of
/// redistributables.
pub open spec fn ignored_name(k: int) -> Seq<char> {
    if k == 0 {
        "steam.exe"@
    } else if k == 1 {
        "steamwebhelper.exe"@
    } else if k == 2 {
        "gameoverlayui.exe"@
    } else if k == 3 {
        "crashhandler.exe"@
    } else if k == 4 {
        "crashhandler64.exe"@
    } else if k == 5 {
        "dxsetup.exe"@
    } else if k == 6 {
        "vcredist_x64.exe"@
    } else {
        "vcredist_x86.exe"@
    }
}

pub open spec fn spec_is_ignored_executable(path: Seq<char>) -> bool {
    exists|k: int| 0 <= k < 8 && ascii_lower_seq(file_name(path)) == #[trigger] ignored_name(k)
}

fn ignored_name_at(k: usize) -> (r: &'static str)
    requires
        k < 8,
    ensures
        r@ == ignored_name(k as int),
{
    if k == 0 {
        "steam.exe"
    } else if k == 1 {
        "steamwebhelper.exe"
    } else if k == 2 {
        "gameoverlayui.exe"
    } else if k == 3 {
        "crashhandler.exe"
    } else if k == 4 {
        "crashhandler64.exe"
    } else if k == 5 {
        "dxsetup.exe"
    } else if k == 6 {
        "vcredist_x64.exe"
    } else {
        "vcredist_x86.exe"
    }
}

fn normalized_path(path: &[char]) -> (r: Vec<char>)
    ensures
        r@ == spec_normalized_path(path@),
{
    let slash = ['/'];
    let backslash = ['\\'];
    assert(slash@ == seq!['/']);
    assert(backslash@ == seq!['\\']);
    let replaced = replace_all(path, &slash, &backslash);
    let mut k = replaced.len();
    assert(replaced@.take(k as int) =~= replaced@);
    while k > 0 && replaced[k - 1] == '\\'
        invariant
            k <= replaced.len(),
            trim_end_backslashes(replaced@) == trim_end_backslashes(replaced@.take(k as int)),
        decreases k,
    {
        assert(replaced@.take(k as int).drop_last() =~= replaced@.take(k - 1));
        k -= 1;
    }
    let trimmed = crate::text::slice_prefix(replaced.as_slice(), k);
    ascii_lowercase(trimmed.as_slice())
}

/// Whether two paths name the same file as Windows compares them.
pub fn path_eq(left: &str, right: &str) -> (r: bool)
    ensures
        r == (spec_normalized_path(left@) == spec_normalized_path(right@)),
{
    let l = normalized_path(str_chars(left).as_slice());
    let r = normalized_path(str_chars(right).as_slice());
    same_chars(l.as_slice(), r.as_slice())
}

/// Whether `path` is `directory` or lies inside it.
pub fn path_is_inside(path: &str, directory: &str) -> (r: bool)
    ensures
        r == spec_path_is_inside(path@, directory@),
{
    let p = normalized_path(str_chars(path).as_slice());
    let d = normalized_path(str_chars(directory).as_slice());
    if same_chars(p.as_slice(), d.as_slice()) {
        return true;
    }
    let ghost dv = d@;
    let mut with_sep = d;
    with_sep.push('\\');
    assert(with_sep@ =~= dv + seq!['\\']);
    has_prefix(p.as_slice(), with_sep.as_slice())
}

/// Whether the file name of `path` is one of the helpers that are never the
/// game.
pub fn is_ignored_executable(path: &str) -> (r: bool)
    ensures
        r == spec_is_ignored_executable(path@),
{
    let name = ascii_lowercase(file_name_of(str_chars(path).as_slice()).as_slice());
    let mut k: usize = 0;
    while k < 8
        invariant
            k <= 8,
            name@ == ascii_lower_seq(file_name(path@)),
            forall|j: int| 0 <= j < k ==> name@ != #[trigger] ignored_name(j),
        decreases 8 - k,
    {
        if same_chars(name.as_slice(), str_chars(ignored_name_at(k)).as_slice()) {
            return true;
        }
        k += 1;
    }
    false
}

/// A process qualifies as the game when it was not running before the
/// launch, its executable is known, is not a helper, and lies inside the
/// install folder.
pub open spec fn qualifies(pid: u32, exe: Option<Seq<char>>, directory: Seq<char>, baseline: Seq<u32>) -> bool {
    &&& !baseline.contains(pid)
    &&& exe is Some
    &&& !spec_is_ignored_executable(exe->0)
    &&& spec_path_is_inside(exe->0, directory)
}

pub open spec fn process_view(p: (u32, Option<String>)) -> (u32, Option<Seq<char>>) {
    (
        p.0,
        match p.1 {
            Some(s) => Some(s@),
            None => None,
        },
    )
}

fn contains_pid(baseline: &[u32], pid: u32) -> (r: bool)
    ensures
        r == baseline@.contains(pid),
{
    let mut i: usize = 0;
    while i < baseline.len()
        invariant
            i <= baseline.len(),
            forall|j: int| 0 <= j < i ==> baseline@[j] != pid,
        decreases baseline.len() - i,
    {
        if baseline[i] == pid {
            assert(baseline@[i as int] == pid);
            return true;
        }
        i += 1;
    }
    false
}

impl ProcessMonitor {
    /// Among the running `processes` (pid and executable path, in the order
    /// the system lists them), the first that qualifies as the game.
    pub fn select_new_process(
        processes: &Vec<(u32, Option<String>)>,
        directory: &str,
        baseline: &[u32],
    ) -> (r: Option<TrackedProcess>)
        ensures
            match r {
                Some(t) => exists|i: int|
                    0 <= i < processes@.len() && processes@[i].0 == t.pid && process_view(
                        processes@[i],
                    ).1 == Some(t.executable@) && qualifies(
                        t.pid,
                        Some(t.executable@),
                        directory@,
                        baseline@,
                    ) && forall|j: int|
                        0 <= j < i ==> !#[trigger] qualifies(
                            processes@[j].0,
                            process_view(processes@[j]).1,
                            directory@,
                            baseline@,
                        ),
                None => forall|j: int|
                    0 <= j < processes@.len() ==> !#[trigger] qualifies(
                        processes@[j].0,
                        process_view(processes@[j]).1,
                        directory@,
                        baseline@,
                    ),
            },
    {
        let mut i: usize = 0;
        while i < processes.len()
            invariant
                i <= processes.len(),
                forall|j: int|
                    0 <= j < i ==> !#[trigger] qualifies(
                        processes@[j].0,
                        process_view(processes@[j]).1,
                        directory@,
                        baseline@,
                    ),
            decreases processes.len() - i,
        {
            let pid = processes[i].0;
            if !contains_pid(baseline, pid) {
                match &processes[i].1 {
                    Some(exe) => {
                        if !is_ignored_executable(exe.as_str()) && path_is_inside(
                            exe.as_str(),
                            directory,
                        ) {
                            return Some(TrackedProcess { pid, executable: exe.clone() });
                        }
                    },
                    None => {},
                }
            }
            i += 1;
        }
        None
    }

    /// Whether a process whose executable is `exe` is the expected game
    /// executable (a process whose path is unknown never is).
    pub fn exe_matches(exe: Option<&str>, expected_path: &str) -> (r: bool)
        ensures
            r == match exe {
                Some(e) => spec_normalized_path(e@) == spec_normalized_path(expected_path@),
                None => false,
            },
    {
        match exe {
            Some(e) => path_eq(e, expected_path),
            None => false,
        }
    }
}

/// The executables that are never taken for the game are exactly those
/// whose file name, in ASCII lower case, is one of Steam's own
/// (`steam.exe`, `steamwebhelper.exe`, `gameoverlayui.exe`), its crash
/// handlers (`crashhandler.exe`, `crashhandler64.exe`) or an installer of
/// redistributables (`dxsetup.exe`, `vcredist_x64.exe`, `vcredist_x86.exe`);
/// the folder the file sits in plays no part.
pub proof fn law_ignored_executables(path: Seq<char>)
    ensures
        spec_is_ignored_executable(path) <==> {
            let n = ascii_lower_seq(file_name(path));
            ||| n == "steam.exe"@
            ||| n == "steamwebhelper.exe"@
            ||| n == "gameoverlayui.exe"@
            ||| n == "crashhandler.exe"@
            ||| n == "crashhandler64.exe"@
            ||| n == "dxsetup.exe"@
            ||| n == "vcredist_x64.exe"@
            ||| n == "vcredist_x86.exe"@
        },
{
    let n = ascii_lower_seq(file_name(path));
    if n == "steam.exe"@ {
        assert(n == ignored_name(0));
    } else if n == "steamwebhelper.exe"@ {
        assert(n == ignored_name(1));
    } else if n == "gameoverlayui.exe"@ {
        assert(n == ignored_name(2));
    } else if n == "crashhandler.exe"@ {
        assert(n == ignored_name(3));
    } else if n == "crashhandler64.exe"@ {
        assert(n == ignored_name(4));
    } else if n == "dxsetup.exe"@ {
        assert(n == ignored_name(5));
    } else if n == "vcredist_x64.exe"@ {
        assert(n == ignored_name(6));
    } else if n == "vcredist_x86.exe"@ {
        assert(n == ignored_name(7));
    }
}

} // verus!
