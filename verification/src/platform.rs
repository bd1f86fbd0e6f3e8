//! What differs between the platforms the launcher runs on, and the paths and
//! command lines that are built from it.

use vstd::prelude::*;

verus! {

/// The family of operating system that the launcher runs on.
#[derive(Clone, Copy, Debug, PartialEq, Eq, Structural)]
pub enum Platform {
    Unix,
    Windows,
}

/// The entry point of the application.
pub const MAIN_CLASS: &'static str = "jgnash.app.jGnash";

/// The option that precedes the class path on the runtime's command line.
pub const CLASS_PATH_OPTION: &'static str = "-classpath";

/// The option that makes a runtime print its version.
pub const VERSION_OPTION: &'static str = "--version";

/// The directory of libraries below the installation directory, between the
/// platform's separators.
pub open spec fn library_directory(platform: Platform) -> Seq<char> {
    match platform {
        Platform::Unix => "/lib/"@,
        Platform::Windows => "\\lib\\"@,
    }
}

/// The runtime's executable below its home directory.
pub open spec fn executable_below_home(platform: Platform) -> Seq<char> {
    match platform {
        Platform::Unix => "/bin/java"@,
        Platform::Windows => "\\bin\\javaw.exe"@,
    }
}

/// The class path for an installation directory: every file in its directory
/// of libraries. The runtime expands the `*`, the launcher does not.
pub open spec fn class_path_of(install_dir: Seq<char>, platform: Platform) -> Seq<char> {
    install_dir + library_directory(platform) + "*"@
}

/// The path of the runtime's executable for a runtime home.
pub open spec fn executable_of(home: Seq<char>, platform: Platform) -> Seq<char> {
    home + executable_below_home(platform)
}

/// The arguments joined into one text, a single space between neighbours.
pub open spec fn joined(arguments: Seq<Seq<char>>) -> Seq<char>
    decreases arguments.len(),
{
    if arguments.len() == 0 {
        Seq::empty()
    } else if arguments.len() == 1 {
        arguments[0]
    } else {
        joined(arguments.drop_last()) + seq![' '] + arguments.last()
    }
}

/// The arguments on a command line: every token but the first, which is the
/// path of the program itself.
pub open spec fn arguments_of(command_line: Seq<Seq<char>>) -> Seq<Seq<char>> {
    if command_line.len() > 0 {
        command_line.skip(1)
    } else {
        command_line
    }
}

/// The arguments that the launcher was started with, in their order, its own
/// path left out. They are handed on to the application.
#[derive(Debug, PartialEq, Eq)]
pub struct LaunchArguments {
    pub tokens: Vec<String>,
}

impl View for LaunchArguments {
    type V = Seq<Seq<char>>;

    open spec fn view(&self) -> Seq<Seq<char>> {
        self.tokens.deep_view()
    }
}

impl Platform {
    /// Whether the platform keeps a registry of installed runtimes.
    pub open spec fn has_registry(self) -> bool {
        self == Platform::Windows
    }

    /// Whether the platform keeps a registry of installed runtimes.
    pub fn keeps_registry(self) -> (b: bool)
        ensures
            b == self.has_registry(),
    {
        match self {
            Platform::Unix => false,
            Platform::Windows => true,
        }
    }
}

/// Builds the class path for an installation directory.
pub fn class_path(install_dir: &str, platform: Platform) -> (path: String)
    ensures
        path@ == class_path_of(install_dir@, platform),
{
    let mut path = String::from_str(install_dir);
    match platform {
        Platform::Unix => path.append("/lib/"),
        Platform::Windows => path.append("\\lib\\"),
    }
    path.append("*");
    path
}

/// Builds the path of the runtime's executable for a runtime home.
pub fn java_executable(home: &str, platform: Platform) -> (path: String)
    ensures
        path@ == executable_of(home@, platform),
{
    let mut path = String::from_str(home);
    match platform {
        Platform::Unix => path.append("/bin/java"),
        Platform::Windows => path.append("\\bin\\javaw.exe"),
    }
    path
}

impl LaunchArguments {
    /// The arguments on a command line: every token but the first.
    pub fn from_command_line(command_line: Vec<String>) -> (arguments: LaunchArguments)
        ensures
            arguments@ == arguments_of(command_line.deep_view()),
    {
        let mut tokens = command_line;
        if tokens.len() > 0 {
            tokens.remove(0);
        }
        LaunchArguments { tokens }
    }

    /// The arguments as one text, a single space between neighbours.
    ///
    /// Where an argument holds a space itself, the text does not show where
    /// one argument ends and the next begins.
    pub fn joined(&self) -> (text: String)
        ensures
            text@ == joined(self@),
    {
        let mut text = String::new();
        let mut i: usize = 0;
        while i < self.tokens.len()
            invariant
                i <= self.tokens.len(),
                text@ == joined(self@.take(i as int)),
            decreases self.tokens.len() - i,
        {
            proof {
                let before = self@.take(i as int);
                let now = self@.take(i + 1);
                assert(now.drop_last() == before);
            }
            if i > 0 {
                text.append(" ");
                proof {
                    reveal_strlit(" ");
                }
            }
            text.append(self.tokens[i].as_str());
            i = i + 1;
        }
        proof {
            assert(self@.take(self.tokens.len() as int) == self@);
        }
        text
    }
}

/// What `std::path::PathBuf::pop` leaves of a path: the path's parent, or
/// the path itself where it has none.
///
/// The method reads nothing but the path: no environment, no disk, no locale.
/// What it takes for a separator, a root or a prefix is fixed with the target
/// that the program is built for, so within one build the same path always has
/// the same parent. Between a build for Unix and one for Windows the parent of
/// a path may differ.
pub uninterp spec fn parent_of(path: Seq<char>) -> Seq<char>;

/// Calls `std::path::PathBuf::pop` on a copy of `path`. That method truncates
/// a path to its parent, and leaves a path that has no parent as it is. So the
/// result, which is what [`parent_of`] names, is a leading part of `path`, or
/// all of it.
#[verifier::external_body]
fn parent_directory(path: &str) -> (parent: String)
    ensures
        parent@ == parent_of(path@),
        parent@.is_prefix_of(path@),
{
    let mut buffer = std::path::PathBuf::from(path);
    buffer.pop();
    buffer.to_string_lossy().into_owned()
}

/// The directory that the launcher was installed into, from the path of its
/// own executable: the parent of that path. Where the path could not be found
/// out, the directory is the empty path.
pub fn install_directory(executable: Option<&str>) -> (directory: String)
    ensures
        match executable {
            Some(path) => directory@ == parent_of(path@) && directory@.is_prefix_of(path@),
            None => directory@.len() == 0,
        },
{
    match executable {
        Some(path) => parent_directory(path),
        None => String::new(),
    }
}

} // verus!
