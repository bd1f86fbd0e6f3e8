use jgnash_launcher::platform::class_path;
use jgnash_launcher::platform::install_directory;
use jgnash_launcher::platform::java_executable;
use jgnash_launcher::platform::LaunchArguments;
use jgnash_launcher::platform::Platform;
use jgnash_launcher::platform::CLASS_PATH_OPTION;
use jgnash_launcher::platform::MAIN_CLASS;
use jgnash_launcher::platform::VERSION_OPTION;

fn arguments(tokens: &[&str]) -> LaunchArguments {
    LaunchArguments { tokens: tokens.iter().map(|t| String::from(*t)).collect() }
}

#[test]
fn class_path_names_every_library_of_the_installation() {
    assert_eq!(class_path("/opt/app", Platform::Unix), "/opt/app/lib/*");
}

#[test]
fn class_path_with_the_separators_of_windows() {
    assert_eq!(class_path("C:\\Program Files\\app", Platform::Windows), "C:\\Program Files\\app\\lib\\*");
}

#[test]
fn class_path_below_the_empty_path() {
    assert_eq!(class_path("", Platform::Unix), "/lib/*");
    assert_eq!(class_path("", Platform::Windows), "\\lib\\*");
}

#[test]
fn class_path_keeps_the_directory_as_it_is() {
    assert_eq!(class_path("/opt/app/", Platform::Unix), "/opt/app//lib/*");
    assert_eq!(class_path("rel ative/\u{e9}", Platform::Unix), "rel ative/\u{e9}/lib/*");
}

#[test]
fn executable_below_the_runtime_home() {
    assert_eq!(java_executable("/usr/lib/jvm/jdk-17", Platform::Unix), "/usr/lib/jvm/jdk-17/bin/java");
    assert_eq!(java_executable("C:\\jdk-17", Platform::Windows), "C:\\jdk-17\\bin\\javaw.exe");
    assert_eq!(java_executable("", Platform::Unix), "/bin/java");
    assert_eq!(java_executable("", Platform::Windows), "\\bin\\javaw.exe");
}

#[test]
fn only_windows_keeps_a_registry() {
    assert!(Platform::Windows.keeps_registry());
    assert!(!Platform::Unix.keeps_registry());
}

#[test]
fn arguments_are_joined_by_single_spaces() {
    let arguments = arguments(&["--file", "books.xml", "-v"]);
    assert_eq!(arguments.joined(), "--file books.xml -v");
}

#[test]
fn joining_keeps_white_space_inside_arguments() {
    let arguments = arguments(&["my books.xml", "", " x "]);
    assert_eq!(arguments.joined(), "my books.xml   x ");
}

#[test]
fn joining_one_argument_or_none() {
    assert_eq!(arguments(&["only"]).joined(), "only");
    assert_eq!(arguments(&[]).joined(), "");
}

#[test]
fn install_directory_is_where_the_executable_lies() {
    assert_eq!(install_directory(Some("/opt/app/launcher")), "/opt/app");
    assert_eq!(install_directory(Some("/opt/my app/bin/jgnash")), "/opt/my app/bin");
}

#[test]
fn install_directory_of_an_unknown_executable_is_empty() {
    assert_eq!(install_directory(None), "");
    assert_eq!(class_path(&install_directory(None), Platform::Unix), "/lib/*");
}

#[test]
fn install_directory_is_a_leading_part_of_the_path() {
    for path in ["/opt/app/launcher", "launcher", "/", "", "a/b/c/", "./x", "/opt/\u{e9}t\u{e9}/l"] {
        let directory = install_directory(Some(path));
        assert!(path.starts_with(&directory), "{:?}", path);
    }
}

#[test]
fn fixed_words_of_the_command_lines() {
    assert_eq!(MAIN_CLASS, "jgnash.app.jGnash");
    assert_eq!(CLASS_PATH_OPTION, "-classpath");
    assert_eq!(VERSION_OPTION, "--version");
}

#[test]
fn own_path_is_no_argument() {
    let command_line = vec![String::from("/opt/app/launcher"), String::from("--file"), String::from("a b")];
    assert_eq!(LaunchArguments::from_command_line(command_line), arguments(&["--file", "a b"]));
    assert_eq!(LaunchArguments::from_command_line(vec![String::from("launcher")]), arguments(&[]));
}

#[test]
fn empty_command_line_has_no_arguments() {
    assert_eq!(LaunchArguments::from_command_line(vec![]), arguments(&[]));
}

#[test]
fn install_directory_of_the_same_path_is_the_same() {
    for path in ["/opt/app/launcher", "/launcher", "bin/launcher", "launcher", "/", ""] {
        assert_eq!(install_directory(Some(path)), install_directory(Some(path)), "{:?}", path);
    }
    assert_eq!(install_directory(Some("/launcher")), "/");
    assert_eq!(install_directory(Some("bin/launcher")), "bin");
    assert_eq!(install_directory(Some("launcher")), "");
    assert_eq!(install_directory(Some("/")), "/");
}
