//! What depends on the system the program runs on: the name of the tool,
//! where it is looked for, how a file is opened, and what the user is told
//! where the tool is missing.

use vstd::prelude::*;
use vstd::string::*;

verus! {

/// The system the program runs on.
#[derive(Clone, Copy, Debug, PartialEq, Eq, Structural)]
pub enum Platform {
    Windows,
    MacOs,
    Linux,
}

/// The name of the tool's binary.
pub open spec fn tool_name(platform: Platform) -> Seq<char> {
    if platform == Platform::Windows {
        "qpdf.exe"@
    } else {
        "qpdf"@
    }
}

/// The name of the tool's binary: `qpdf.exe` on Windows, `qpdf` elsewhere.
pub fn qpdf_filename(platform: Platform) -> (name: &'static str)
    ensures
        name@ == tool_name(platform),
{
    match platform {
        Platform::Windows => "qpdf.exe",
        _ => "qpdf",
    }
}

/// The tool to run: the binary beside the executable if there is one, else
/// the one in the working directory, else the bare name, which the system
/// looks up on its search path. Each of the two options holds the path of
/// that candidate where such a file exists.
pub fn resolve_qpdf_command(
    platform: Platform,
    beside_executable: Option<String>,
    in_working_dir: Option<String>,
) -> (command: String)
    ensures
        command@ == match (beside_executable, in_working_dir) {
            (Some(p), _) => p@,
            (None, Some(p)) => p@,
            (None, None) => tool_name(platform),
        },
{
    match beside_executable {
        Some(p) => p,
        None => match in_working_dir {
            Some(p) => p,
            None => String::from_str(qpdf_filename(platform)),
        },
    }
}

/// The directory the pictures and the font are read from: `assets` in the
/// working directory, else beside the executable, else in the bundle's
/// resources, else the bare name. Each option holds the path of that
/// candidate where such a directory exists.
pub fn resolve_assets_dir(
    in_working_dir: Option<String>,
    beside_executable: Option<String>,
    in_bundle: Option<String>,
) -> (dir: String)
    ensures
        dir@ == match (in_working_dir, beside_executable, in_bundle) {
            (Some(p), _, _) => p@,
            (None, Some(p), _) => p@,
            (None, None, Some(p)) => p@,
            (None, None, None) => "assets"@,
        },
{
    match in_working_dir {
        Some(p) => p,
        None => match beside_executable {
            Some(p) => p,
            None => match in_bundle {
                Some(p) => p,
                None => String::from_str("assets"),
            },
        },
    }
}

/// The program that opens a file with the system's handler.
pub open spec fn opener(platform: Platform) -> Seq<char> {
    match platform {
        Platform::Windows => "cmd"@,
        Platform::MacOs => "open"@,
        Platform::Linux => "xdg-open"@,
    }
}

/// The arguments with which the opener opens `path`.
pub open spec fn opener_arguments(platform: Platform, path: Seq<char>) -> Seq<Seq<char>> {
    if platform == Platform::Windows {
        seq!["/C"@, "start"@, ""@, path]
    } else {
        seq![path]
    }
}

/// The views of some texts.
pub open spec fn texts(list: Seq<String>) -> Seq<Seq<char>> {
    Seq::new(list.len(), |i: int| list[i]@)
}

/// The command that opens `path` with the system's handler for it, as the
/// program and its arguments.
pub fn open_file(path: &str, platform: Platform) -> (command: (&'static str, Vec<String>))
    ensures
        command.0@ == opener(platform),
        texts(command.1@) == opener_arguments(platform, path@),
{
    let mut args: Vec<String> = Vec::new();
    let program = match platform {
        Platform::Windows => {
            args.push(String::from_str("/C"));
            args.push(String::from_str("start"));
            args.push(String::from_str(""));
            "cmd"
        },
        Platform::MacOs => "open",
        Platform::Linux => "xdg-open",
    };
    args.push(String::from_str(path));
    proof {
        assert(texts(args@) =~= opener_arguments(platform, path@));
    }
    (program, args)
}

/// What the user is told where the tool is missing.
pub open spec fn setup_text(platform: Platform, wide: bool) -> Seq<char> {
    match platform {
        Platform::MacOs => "未检测到 qpdf。\n\n请在终端执行：\nbrew install qpdf\n\n安装完成后重启程序。"@,
        Platform::Windows => if wide {
            "未检测到 qpdf。\n\n请前往：\nhttps://github.com/qpdf/qpdf/releases\n\n下载 msvc64 版本（例如 qpdf-<version>-msvc64.zip），\n解压后将 qpdf.exe 放到程序同目录。"@
        } else {
            "未检测到 qpdf。\n\n请前往：\nhttps://github.com/qpdf/qpdf/releases\n\n下载 msvc32 版本（例如 qpdf-<version>-msvc32.zip），\n解压后将 qpdf.exe 放到程序同目录。"@
        },
        Platform::Linux => "未检测到 qpdf，请安装后重启程序。"@,
    }
}

/// The title of the dialog shown where the tool is missing.
pub fn setup_title() -> (title: &'static str)
    ensures
        title@ == "需要安装 qpdf"@,
{
    "需要安装 qpdf"
}

/// What the dialog says where the tool is missing: how to install it on
/// this system. `wide` says that pointers have 64 bits, which decides the
/// download that is named on Windows.
pub fn setup_message(platform: Platform, wide: bool) -> (message: &'static str)
    ensures
        message@ == setup_text(platform, wide),
{
    match platform {
        Platform::MacOs => "未检测到 qpdf。\n\n请在终端执行：\nbrew install qpdf\n\n安装完成后重启程序。",
        Platform::Windows => if wide {
            "未检测到 qpdf。\n\n请前往：\nhttps://github.com/qpdf/qpdf/releases\n\n下载 msvc64 版本（例如 qpdf-<version>-msvc64.zip），\n解压后将 qpdf.exe 放到程序同目录。"
        } else {
            "未检测到 qpdf。\n\n请前往：\nhttps://github.com/qpdf/qpdf/releases\n\n下载 msvc32 版本（例如 qpdf-<version>-msvc32.zip），\n解压后将 qpdf.exe 放到程序同目录。"
        },
        Platform::Linux => "未检测到 qpdf，请安装后重启程序。",
    }
}

} // verus!
