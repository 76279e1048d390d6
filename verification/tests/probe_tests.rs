use crackleaf::platform::{
    open_file, qpdf_filename, resolve_assets_dir, resolve_qpdf_command, setup_message, setup_title,
    Platform,
};
use crackleaf::probe::{
    check_qpdf_ready, classify_encryption, detect_encrypted, parse_qpdf_version, ToolOutput,
};

fn ran(success: bool, stdout: &str, stderr: &str) -> Result<ToolOutput, String> {
    Ok(ToolOutput { success, stdout: String::from(stdout), stderr: String::from(stderr) })
}

#[test]
fn version_is_first_word_with_digit() {
    assert_eq!(
        parse_qpdf_version("qpdf version 11.9.0\nRun qpdf --copyright to see copyright"),
        Some(String::from("11.9.0"))
    );
    assert_eq!(parse_qpdf_version("10.6.3"), Some(String::from("10.6.3")));
    assert_eq!(parse_qpdf_version("  \t 2x  3"), Some(String::from("2x")));
    assert_eq!(parse_qpdf_version("v1 x2 3.0-beta\n"), Some(String::from("3.0-beta")));
}

#[test]
fn version_words_end_at_any_unicode_space() {
    assert_eq!(parse_qpdf_version("qpdf\u{3000}11.9.0\u{a0}x"), Some(String::from("11.9.0")));
    assert_eq!(parse_qpdf_version("qpdf\u{200b}11.9.0 x"), None);
}

#[test]
fn version_missing() {
    assert_eq!(parse_qpdf_version(""), None);
    assert_eq!(parse_qpdf_version("   "), None);
    assert_eq!(parse_qpdf_version("qpdf version unknown"), None);
    assert_eq!(parse_qpdf_version("v11.9.0"), None);
    assert_eq!(parse_qpdf_version("٣ x"), None);
}

#[test]
fn encryption_phrases() {
    assert_eq!(classify_encryption("file is encrypted"), Some(true));
    assert_eq!(classify_encryption("r = 3\nencryption: yes"), Some(true));
    assert_eq!(classify_encryption("user password = "), Some(true));
    assert_eq!(classify_encryption("owner password = x"), Some(true));
    assert_eq!(classify_encryption("file is not encrypted"), Some(false));
    assert_eq!(classify_encryption("a.pdf: not encrypted"), Some(false));
    assert_eq!(classify_encryption("nothing to see"), None);
    assert_eq!(classify_encryption(""), None);
    assert_eq!(classify_encryption("File is encrypted"), None);
    assert_eq!(classify_encryption("file is not encrypted; owner password"), Some(true));
}

#[test]
fn encryption_probe_ignores_case() {
    assert_eq!(detect_encrypted(&ran(true, "File Is Not Encrypted\n", "")), Some(false));
    assert_eq!(detect_encrypted(&ran(true, "R = 4\nUser Password = \nOWNER PASSWORD", "")), Some(true));
    assert_eq!(detect_encrypted(&ran(true, "something else", "")), None);
}

#[test]
fn encryption_probe_failure_is_unknown() {
    assert_eq!(detect_encrypted(&ran(false, "file is encrypted", "")), None);
    assert_eq!(detect_encrypted(&Err(String::from("No such file or directory"))), None);
}

#[test]
fn tool_ok_with_version() {
    let status = check_qpdf_ready(&ran(true, "qpdf version 11.9.0\n", ""));
    assert!(status.ok);
    assert_eq!(status.error, None);
    assert_eq!(status.version, Some(String::from("11.9.0")));
    assert_eq!(status.warning, None);
}

#[test]
fn tool_ok_without_version() {
    let status = check_qpdf_ready(&ran(true, "qpdf\n", "ignored"));
    assert!(status.ok);
    assert_eq!(status.error, None);
    assert_eq!(status.version, None);
    assert_eq!(status.warning, Some(String::from("已检测到 qpdf，但版本无法识别")));
}

#[test]
fn tool_failed_with_stderr() {
    let status = check_qpdf_ready(&ran(false, "1.0", "  libqpdf.so missing \n"));
    assert!(!status.ok);
    assert_eq!(status.error, Some(String::from("qpdf 运行失败：libqpdf.so missing")));
    assert_eq!(status.version, None);
    assert_eq!(status.warning, None);
}

#[test]
fn tool_failed_without_stderr() {
    let status = check_qpdf_ready(&ran(false, "", " \n "));
    assert!(!status.ok);
    assert_eq!(status.error, Some(String::from("qpdf 运行失败（依赖缺失或版本不匹配）")));
}

#[test]
fn tool_not_started() {
    let status = check_qpdf_ready(&Err(String::from("No such file or directory (os error 2)")));
    assert!(!status.ok);
    assert_eq!(
        status.error,
        Some(String::from(
            "qpdf 不可用（请把 qpdf 放在程序同目录）：No such file or directory (os error 2)"
        ))
    );
    assert_eq!(status.version, None);
    assert_eq!(status.warning, None);
}

#[test]
fn tool_name_by_platform() {
    assert_eq!(qpdf_filename(Platform::Windows), "qpdf.exe");
    assert_eq!(qpdf_filename(Platform::Linux), "qpdf");
    assert_eq!(qpdf_filename(Platform::MacOs), "qpdf");
}

#[test]
fn tool_search_order() {
    let a = Some(String::from("/app/qpdf"));
    let b = Some(String::from("/cwd/qpdf"));
    assert_eq!(resolve_qpdf_command(Platform::Linux, a.clone(), b.clone()), "/app/qpdf");
    assert_eq!(resolve_qpdf_command(Platform::Linux, None, b), "/cwd/qpdf");
    assert_eq!(resolve_qpdf_command(Platform::Linux, a, None), "/app/qpdf");
    assert_eq!(resolve_qpdf_command(Platform::Linux, None, None), "qpdf");
    assert_eq!(resolve_qpdf_command(Platform::Windows, None, None), "qpdf.exe");
}

#[test]
fn assets_search_order() {
    let a = Some(String::from("/cwd/assets"));
    let b = Some(String::from("/app/assets"));
    let c = Some(String::from("/app/../Resources/assets"));
    assert_eq!(resolve_assets_dir(a.clone(), b.clone(), c.clone()), "/cwd/assets");
    assert_eq!(resolve_assets_dir(None, b, c.clone()), "/app/assets");
    assert_eq!(resolve_assets_dir(None, None, c), "/app/../Resources/assets");
    assert_eq!(resolve_assets_dir(None, None, None), "assets");
}

#[test]
fn opener_by_platform() {
    assert_eq!(open_file("/x/a.pdf", Platform::Linux), ("xdg-open", vec![String::from("/x/a.pdf")]));
    assert_eq!(open_file("/x/a.pdf", Platform::MacOs), ("open", vec![String::from("/x/a.pdf")]));
    assert_eq!(
        open_file("C:\\a.pdf", Platform::Windows),
        (
            "cmd",
            vec![
                String::from("/C"),
                String::from("start"),
                String::from(""),
                String::from("C:\\a.pdf")
            ]
        )
    );
}

#[test]
fn setup_dialog_texts() {
    assert_eq!(setup_title(), "需要安装 qpdf");
    assert_eq!(setup_message(Platform::Linux, true), "未检测到 qpdf，请安装后重启程序。");
    assert_eq!(
        setup_message(Platform::MacOs, true),
        "未检测到 qpdf。\n\n请在终端执行：\nbrew install qpdf\n\n安装完成后重启程序。"
    );
    assert!(setup_message(Platform::Windows, true).contains("qpdf-<version>-msvc64.zip"));
    assert!(setup_message(Platform::Windows, false).contains("下载 msvc32 版本"));
}
