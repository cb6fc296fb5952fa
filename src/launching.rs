//! What to hand Blender when launching a build: the executable, its
//! arguments and its environment.
use vstd::prelude::*;

use std::collections::HashMap;

use crate::records::LocalBuild;
use crate::text::same_text;

verus! {

/// What Blender should open.
#[derive(Clone, Debug, Default, PartialEq, Eq)]
pub enum BlendLaunchTarget {
    /// Nothing in particular.
    #[default]
    Empty,
    /// A blend file, by its path.
    File(String),
    /// The last blend file opened.
    OpenLast,
    /// Custom arguments.
    Custom(Vec<String>),
}

/// The texts of a list of strings.
pub open spec fn texts(v: Seq<String>) -> Seq<Seq<char>> {
    v.map_values(|s: String| s@)
}

/// `--open-last`
pub open spec fn open_last_flag() -> Seq<char> {
    seq!['-', '-', 'o', 'p', 'e', 'n', '-', 'l', 'a', 's', 't']
}

/// The arguments a target adds.
pub open spec fn target_args(t: BlendLaunchTarget) -> Seq<Seq<char>> {
    match t {
        BlendLaunchTarget::Empty => Seq::empty(),
        BlendLaunchTarget::File(p) => seq![p@],
        BlendLaunchTarget::OpenLast => seq![open_last_flag()],
        BlendLaunchTarget::Custom(a) => texts(a@),
    }
}

impl BlendLaunchTarget {
    /// Appends this target's arguments to `args`: the file's path (as given;
    /// making it absolute is the caller's part), `--open-last`, or the custom
    /// arguments.
    pub fn transform(&self, args: &mut Vec<String>)
        ensures
            texts(final(args)@) == texts(old(args)@) + target_args(*self),
    {
        let ghost start = args@;
        match self {
            BlendLaunchTarget::Empty => {
                assert(texts(args@) =~= texts(start) + target_args(*self));
            },
            BlendLaunchTarget::File(p) => {
                args.push(p.clone());
                assert(texts(args@) =~= texts(start) + target_args(*self));
            },
            BlendLaunchTarget::OpenLast => {
                proof {
                    reveal_strlit("--open-last");
                    assert("--open-last"@ =~= open_last_flag());
                }
                args.push(String::from_str("--open-last"));
                assert(texts(args@) =~= texts(start) + target_args(*self));
            },
            BlendLaunchTarget::Custom(new_args) => {
                let mut i: usize = 0;
                while i < new_args.len()
                    invariant
                        i <= new_args@.len(),
                        texts(args@) == texts(start) + texts(new_args@.take(i as int)),
                    decreases new_args@.len() - i,
                {
                    let c = new_args[i].clone();
                    let ghost before = args@;
                    args.push(c);
                    assert(new_args@.take(i + 1) =~= new_args@.take(i as int).push(c));
                    assert(texts(new_args@.take(i + 1)) =~= texts(new_args@.take(i as int)).push(c@));
                    assert(texts(args@) =~= texts(before).push(c@));
                    i = i + 1;
                    assert(texts(args@) =~= texts(start) + texts(new_args@.take(i as int)));
                }
                assert(new_args@.take(i as int) =~= new_args@);
            },
        }
    }
}

/// The operating system to launch on, with its launch settings.
#[derive(Clone, Copy, Debug, PartialEq, Eq, Structural)]
pub enum OSLaunchTarget {
    Linux,
    /// Windows, optionally without a console window.
    Windows { no_console: bool },
    MacOS,
}

/// The executable's name on each system.
pub open spec fn exe_name_spec(t: OSLaunchTarget) -> Seq<char> {
    match t {
        OSLaunchTarget::Linux => seq!['b', 'l', 'e', 'n', 'd', 'e', 'r'],
        OSLaunchTarget::Windows { no_console } => if no_console {
            seq![
                'b',
                'l',
                'e',
                'n',
                'd',
                'e',
                'r',
                '-',
                'l',
                'a',
                'u',
                'n',
                'c',
                'h',
                'e',
                'r',
                '.',
                'e',
                'x',
                'e',
            ]
        } else {
            seq!['b', 'l', 'e', 'n', 'd', 'e', 'r', '.', 'e', 'x', 'e']
        },
        OSLaunchTarget::MacOS => seq![
            'B',
            'l',
            'e',
            'n',
            'd',
            'e',
            'r',
            '/',
            'B',
            'l',
            'e',
            'n',
            'd',
            'e',
            'r',
            '.',
            'a',
            'p',
            'p',
        ],
    }
}

/// The launch target for an operating system named as Rust names it.
pub open spec fn os_target_spec(os: Seq<char>) -> Option<OSLaunchTarget> {
    if os == seq!['w', 'i', 'n', 'd', 'o', 'w', 's'] {
        Some(OSLaunchTarget::Windows { no_console: false })
    } else if os == seq!['l', 'i', 'n', 'u', 'x'] {
        Some(OSLaunchTarget::Linux)
    } else if os == seq!['m', 'a', 'c', 'o', 's'] {
        Some(OSLaunchTarget::MacOS)
    } else {
        None
    }
}

impl OSLaunchTarget {
    /// The executable's name: `blender`, `blender.exe` (or
    /// `blender-launcher.exe` without a console), `Blender/Blender.app`.
    pub fn exe_name(&self) -> (r: &'static str)
        ensures
            r@ == exe_name_spec(*self),
    {
        proof {
            reveal_strlit("blender");
            reveal_strlit("blender-launcher.exe");
            reveal_strlit("blender.exe");
            reveal_strlit("Blender/Blender.app");
        }
        match self {
            OSLaunchTarget::Linux => {
                assert("blender"@ =~= exe_name_spec(*self));
                "blender"
            },
            OSLaunchTarget::Windows { no_console } => if *no_console {
                assert("blender-launcher.exe"@ =~= exe_name_spec(*self));
                "blender-launcher.exe"
            } else {
                assert("blender.exe"@ =~= exe_name_spec(*self));
                "blender.exe"
            },
            OSLaunchTarget::MacOS => {
                assert("Blender/Blender.app"@ =~= exe_name_spec(*self));
                "Blender/Blender.app"
            },
        }
    }

    /// The launch target for the operating system named `os` (as
    /// `std::env::consts::OS` names it): Windows (with a console), Linux or
    /// macOS; none for any other.
    pub fn from_os_name(os: &str) -> (r: Option<OSLaunchTarget>)
        ensures
            r == os_target_spec(os@),
    {
        proof {
            reveal_strlit("windows");
            reveal_strlit("linux");
            reveal_strlit("macos");
            assert("windows"@ =~= seq!['w', 'i', 'n', 'd', 'o', 'w', 's']);
            assert("linux"@ =~= seq!['l', 'i', 'n', 'u', 'x']);
            assert("macos"@ =~= seq!['m', 'a', 'c', 'o', 's']);
        }
        if same_text(os, "windows") {
            Some(OSLaunchTarget::Windows { no_console: false })
        } else if same_text(os, "linux") {
            Some(OSLaunchTarget::Linux)
        } else if same_text(os, "macos") {
            Some(OSLaunchTarget::MacOS)
        } else {
            None
        }
    }
}

/// What launching Blender takes: the executable's path, its arguments and
/// its environment variables.
#[derive(Clone, Debug, PartialEq, Eq, Default)]
pub struct GeneratedParams {
    /// The executable's path.
    pub exe: String,
    /// The command's arguments.
    pub args: Option<Vec<String>>,
    /// The environment variables.
    pub env: Option<HashMap<String, String>>,
}

impl GeneratedParams {
    /// Parameters with only the executable's path.
    pub fn from_exe(pth: &str) -> (r: GeneratedParams)
        ensures
            r.exe@ == pth@,
            r.args is None,
            r.env is None,
    {
        GeneratedParams { exe: pth.to_owned(), args: None, env: None }
    }

    /// Appends `args` to the arguments (which become `args` where there were
    /// none).
    pub fn extend_args(&mut self, args: Vec<String>)
        ensures
            final(self).exe == old(self).exe,
            final(self).env == old(self).env,
            final(self).args matches Some(a) && a@ == match old(self).args {
                Some(o) => o@ + args@,
                None => args@,
            },
    {
        match self.args.take() {
            Some(mut a) => {
                let ghost start = a@;
                let mut i: usize = 0;
                while i < args.len()
                    invariant
                        i <= args@.len(),
                        a@ == start + args@.take(i as int),
                    decreases args@.len() - i,
                {
                    a.push(args[i].clone());
                    i = i + 1;
                    assert(a@ =~= start + args@.take(i as int));
                }
                assert(args@.take(i as int) =~= args@);
                self.args = Some(a);
            },
            None => {
                self.args = Some(args);
            },
        }
    }
}

/// Why launch parameters could not be made. Making them cannot fail yet, so
/// this carries nothing.
#[derive(Clone, Copy, Debug, PartialEq, Eq)]
pub struct ArgGenerationError;

/// How to launch Blender: what to open, on which system, with which extra
/// environment variables.
#[derive(Clone, Debug, PartialEq, Eq)]
pub struct LaunchArguments {
    /// What Blender should open.
    pub file_target: BlendLaunchTarget,
    /// The system and its launch settings.
    pub os_target: OSLaunchTarget,
    /// Extra environment variables.
    pub env: Option<HashMap<String, String>>,
}

impl LaunchArguments {
    /// Launch arguments that open `file` on `os_target`, with no extra
    /// environment.
    pub fn file(file: BlendLaunchTarget, os_target: OSLaunchTarget) -> (r: LaunchArguments)
        ensures
            r.file_target == file,
            r.os_target == os_target,
            r.env is None,
    {
        LaunchArguments { file_target: file, os_target, env: None }
    }
}

/// The path of `name` inside the folder `base`.
pub uninterp spec fn path_join_of(base: Seq<char>, name: Seq<char>) -> Seq<char>;

/// Relies on `Path::join`: the path depends on the two texts alone (joining
/// two UTF-8 texts gives UTF-8, so nothing is lost in the conversion back).
#[verifier::external_body]
pub(crate) fn join_path(base: &str, name: &str) -> (r: String)
    ensures
        r@ == path_join_of(base@, name@),
{
    std::path::Path::new(base).join(name).to_string_lossy().into_owned()
}

/// Relies on `HashMap::extend`: every pair of `more` is inserted, replacing
/// the value of a key that was there.
#[verifier::external_body]
fn merge_env(base: HashMap<String, String>, more: HashMap<String, String>) -> (r: HashMap<
    String,
    String,
>)
    ensures
        r@ == base@.union_prefer_right(more@),
{
    let mut base = base;
    base.extend(more);
    base
}

/// `-W`, `-n`, `--args`, `open`
pub open spec fn flag_w() -> Seq<char> {
    seq!['-', 'W']
}

pub open spec fn flag_n() -> Seq<char> {
    seq!['-', 'n']
}

pub open spec fn flag_args() -> Seq<char> {
    seq!['-', '-', 'a', 'r', 'g', 's']
}

pub open spec fn open_command() -> Seq<char> {
    seq!['o', 'p', 'e', 'n']
}

/// The Blender executable of a local build on a system: the build's own
/// executable where it names one, else the system's, inside its folder.
pub open spec fn blender_path(l: LaunchArguments, lb: LocalBuild) -> Seq<char> {
    path_join_of(
        lb.folder@,
        match lb.info.custom_exe {
            Some(e) => e@,
            None => exe_name_spec(l.os_target),
        },
    )
}

/// The arguments of a launch: on macOS `open -W -n <blender>` (with
/// `--args` before any target arguments), elsewhere the target's arguments.
pub open spec fn launch_args(l: LaunchArguments, lb: LocalBuild) -> Seq<Seq<char>> {
    match l.os_target {
        OSLaunchTarget::MacOS => seq![flag_w(), flag_n(), blender_path(l, lb)] + (match l.file_target {
            BlendLaunchTarget::Empty => Seq::empty(),
            _ => seq![flag_args()],
        }) + target_args(l.file_target),
        _ => target_args(l.file_target),
    }
}

/// The environment of a launch: the build's and the launch's variables,
/// the launch's winning where both set one.
pub open spec fn launch_env(
    build: Option<HashMap<String, String>>,
    extra: Option<HashMap<String, String>>,
) -> Option<Map<String, String>> {
    match (build, extra) {
        (None, None) => None,
        (Some(b), None) => Some(b@),
        (None, Some(e)) => Some(e@),
        (Some(b), Some(e)) => Some(b@.union_prefer_right(e@)),
    }
}

impl LaunchArguments {
    /// The parameters that launch the build `lb`: the executable (`open` on
    /// macOS, else the build's Blender), the arguments (none where there
    /// are none) and the environment.
    pub fn assemble(self, lb: &LocalBuild) -> (r: Result<GeneratedParams, ArgGenerationError>)
        ensures
            r matches Ok(p) && {
                &&& p.exe@ == (if self.os_target == OSLaunchTarget::MacOS {
                    open_command()
                } else {
                    blender_path(self, *lb)
                })
                &&& (if launch_args(self, *lb).len() == 0 {
                    p.args is None
                } else {
                    p.args matches Some(a) && texts(a@) == launch_args(self, *lb)
                })
                &&& match p.env {
                    Some(m) => launch_env(lb.info.custom_env, self.env) == Some(m@),
                    None => launch_env(lb.info.custom_env, self.env) is None,
                }
            },
    {
        let name = match &lb.info.custom_exe {
            Some(e) => e.as_str(),
            None => self.os_target.exe_name(),
        };
        let blender = join_path(lb.folder.as_str(), name);
        let ghost bp = blender@;
        let mut args: Vec<String> = Vec::new();
        let exe = match self.os_target {
            OSLaunchTarget::MacOS => {
                proof {
                    reveal_strlit("-W");
                    reveal_strlit("-n");
                    reveal_strlit("--args");
                    reveal_strlit("open");
                    assert("-W"@ =~= flag_w());
                    assert("-n"@ =~= flag_n());
                    assert("--args"@ =~= flag_args());
                    assert("open"@ =~= open_command());
                }
                args.push(String::from_str("-W"));
                args.push(String::from_str("-n"));
                args.push(blender);
                match self.file_target {
                    BlendLaunchTarget::Empty => {},
                    _ => {
                        args.push(String::from_str("--args"));
                    },
                }
                String::from_str("open")
            },
            _ => blender,
        };
        let ghost before = texts(args@);
        self.file_target.transform(&mut args);
        proof {
            assert(texts(args@) =~= launch_args(self, *lb));
        }
        let env = match (lb.info.custom_env.clone(), self.env) {
            (None, None) => None,
            (None, Some(e)) => Some(e),
            (Some(e), None) => Some(e),
            (Some(b), Some(e)) => Some(merge_env(b, e)),
        };
        let args = if args.len() == 0 {
            None
        } else {
            Some(args)
        };
        Ok(GeneratedParams { exe, args, env })
    }
}

} // verus!
