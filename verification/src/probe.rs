//! What the answers of `qpdf` mean: whether the tool is usable, which version
//! it reports, and whether a file is encrypted.

use vstd::prelude::*;
use vstd::string::*;
use crate::text::{
    chars_of,
    contains,
    contains_text,
    is_whitespace,
    lowercase,
    string_of,
    text_of,
    to_lowercase,
    trim_bounds,
    trimmed,
    unicode_whitespace,
};

verus! {

/// What one finished run of the tool left behind.
#[derive(Clone, Debug, PartialEq, Eq)]
pub struct ToolOutput {
    /// The tool exited with status zero.
    pub success: bool,
    /// What it wrote to standard output.
    pub stdout: String,
    /// What it wrote to standard error.
    pub stderr: String,
}

/// The outcome of the start-up probe of the tool.
#[derive(Clone, Debug, PartialEq, Eq)]
pub struct QpdfStatus {
    /// The tool ran and exited with status zero.
    pub ok: bool,
    /// Why the tool cannot be used; set exactly when `ok` is false.
    pub error: Option<String>,
    /// The version the tool reported, where one was recognised.
    pub version: Option<String>,
    /// A note shown beside normal operation.
    pub warning: Option<String>,
}

/// An ASCII digit.
pub open spec fn is_digit(c: char) -> bool {
    '0' <= c && c <= '9'
}

/// A word starts at `i`: a character that is no whitespace, at the start of
/// the text or behind whitespace.
pub open spec fn word_starts(text: Seq<char>, i: int) -> bool {
    &&& 0 <= i < text.len()
    &&& !unicode_whitespace(text[i])
    &&& (i == 0 || unicode_whitespace(text[i - 1]))
}

/// The end of the word that holds position `i`: the next whitespace, or the
/// end of the text.
pub open spec fn word_end(text: Seq<char>, i: int) -> int
    decreases text.len() - i,
{
    if i < 0 || i >= text.len() || unicode_whitespace(text[i]) {
        i
    } else {
        word_end(text, i + 1)
    }
}

/// The first word at or behind `from` that begins with a digit.
pub open spec fn version_from(text: Seq<char>, from: int) -> Option<Seq<char>>
    decreases text.len() - from,
{
    if from < 0 || from >= text.len() {
        None
    } else if word_starts(text, from) && is_digit(text[from]) {
        Some(text.subrange(from, word_end(text, from)))
    } else {
        version_from(text, from + 1)
    }
}

/// The version in the tool's answer to `--version`: the first
/// whitespace-separated word that begins with an ASCII digit.
pub open spec fn version_in(output: Seq<char>) -> Option<Seq<char>> {
    version_from(output, 0)
}

/// Finds the version in the tool's answer to `--version`: the first
/// whitespace-separated word whose first character is an ASCII digit.
pub fn parse_qpdf_version(output: &str) -> (version: Option<String>)
    ensures
        text_of(version) == version_in(output@),
{
    let text = chars_of(output);
    let n = text.len();
    let mut i: usize = 0;
    let mut after_space = true;
    while i < n
        invariant
            i <= n,
            n == text.len(),
            text@ == output@,
            after_space == (i == 0 || unicode_whitespace(text@[i - 1])),
            version_in(output@) == version_from(text@, i as int),
        decreases n - i,
    {
        let c = text[i];
        let space = is_whitespace(c);
        if after_space && !space && '0' <= c && c <= '9' {
            let mut end: usize = i;
            while end < n && !is_whitespace(text[end])
                invariant
                    i <= end <= n,
                    n == text.len(),
                    word_end(text@, i as int) == word_end(text@, end as int),
                decreases n - end,
            {
                end += 1;
            }
            return Some(string_of(&text, i, end));
        }
        after_space = space;
        i += 1;
    }
    None
}

/// The word a file's encryption report is classified by, where one of the
/// known phrases stands in the lower-cased report: `Some(true)` for an
/// encrypted file, `Some(false)` for one that is not, `None` where the report
/// says neither.
pub open spec fn encryption_in(lowered: Seq<char>) -> Option<bool> {
    if contains(lowered, "file is encrypted"@) || contains(lowered, "encryption: yes"@)
        || contains(lowered, "user password"@) || contains(lowered, "owner password"@) {
        Some(true)
    } else if contains(lowered, "file is not encrypted"@) || contains(lowered, "not encrypted"@) {
        Some(false)
    } else {
        None
    }
}

/// What a run of `--show-encryption` says of the file: nothing where the tool
/// could not be started or failed, else what its lower-cased output holds.
pub open spec fn encryption_of(run: Result<ToolOutput, String>) -> Option<bool> {
    match run {
        Ok(out) => if out.success {
            encryption_in(lowercase(out.stdout@))
        } else {
            None
        },
        Err(_) => None,
    }
}

/// Classifies a lower-cased encryption report by the phrases it holds.
pub fn classify_encryption(lowered: &str) -> (encrypted: Option<bool>)
    ensures
        encrypted == encryption_in(lowered@),
{
    let text = chars_of(lowered);
    if contains_text(&text, &chars_of("file is encrypted")) || contains_text(
        &text,
        &chars_of("encryption: yes"),
    ) || contains_text(&text, &chars_of("user password")) || contains_text(
        &text,
        &chars_of("owner password"),
    ) {
        Some(true)
    } else if contains_text(&text, &chars_of("file is not encrypted")) || contains_text(
        &text,
        &chars_of("not encrypted"),
    ) {
        Some(false)
    } else {
        None
    }
}

/// Classifies one run of the tool with `--show-encryption`: `Some(true)` for
/// an encrypted file, `Some(false)` for one that is not, `None` where the
/// tool could not be started, failed, or said neither.
pub fn detect_encrypted(run: &Result<ToolOutput, String>) -> (encrypted: Option<bool>)
    ensures
        encrypted == encryption_of(*run),
{
    match run {
        Ok(out) => {
            if !out.success {
                return None;
            }
            let lowered = to_lowercase(out.stdout.as_str());
            classify_encryption(lowered.as_str())
        },
        Err(_) => None,
    }
}

/// The message for a tool that ran and failed, given what it wrote to
/// standard error.
pub open spec fn failure_message(stderr: Seq<char>) -> Seq<char> {
    if trimmed(stderr).len() == 0 {
        "qpdf 运行失败（依赖缺失或版本不匹配）"@
    } else {
        "qpdf 运行失败："@ + trimmed(stderr)
    }
}

/// The message for a tool that could not be started.
pub open spec fn missing_message(os_error: Seq<char>) -> Seq<char> {
    "qpdf 不可用（请把 qpdf 放在程序同目录）："@ + os_error
}

/// Whether the probe found the tool usable.
pub open spec fn probe_ok(run: Result<ToolOutput, String>) -> bool {
    run matches Ok(out) && out.success
}

/// The error the probe reports.
pub open spec fn probe_error(run: Result<ToolOutput, String>) -> Option<Seq<char>> {
    match run {
        Ok(out) => if out.success {
            None
        } else {
            Some(failure_message(out.stderr@))
        },
        Err(e) => Some(missing_message(e@)),
    }
}

/// The version the probe reports.
pub open spec fn probe_version(run: Result<ToolOutput, String>) -> Option<Seq<char>> {
    match run {
        Ok(out) => if out.success {
            version_in(out.stdout@)
        } else {
            None
        },
        Err(_) => None,
    }
}

/// The warning the probe reports: the tool answered, but with no version.
pub open spec fn probe_warning(run: Result<ToolOutput, String>) -> Option<Seq<char>> {
    if probe_ok(run) && probe_version(run) is None {
        Some("已检测到 qpdf，但版本无法识别"@)
    } else {
        None
    }
}

/// Classifies the start-up run of the tool with `--version`; `Err` holds the
/// system's error text where the tool could not be started.
pub fn check_qpdf_ready(run: &Result<ToolOutput, String>) -> (status: QpdfStatus)
    ensures
        status.ok == probe_ok(*run),
        text_of(status.error) == probe_error(*run),
        text_of(status.version) == probe_version(*run),
        text_of(status.warning) == probe_warning(*run),
{
    match run {
        Ok(out) => {
            if out.success {
                let version = parse_qpdf_version(out.stdout.as_str());
                let warning = if version.is_none() {
                    Some(String::from_str("已检测到 qpdf，但版本无法识别"))
                } else {
                    None
                };
                QpdfStatus { ok: true, error: None, version, warning }
            } else {
                let text = chars_of(out.stderr.as_str());
                let (from, to) = trim_bounds(&text);
                let msg = if from == to {
                    String::from_str("qpdf 运行失败（依赖缺失或版本不匹配）")
                } else {
                    let mut msg = String::from_str("qpdf 运行失败：");
                    let detail = string_of(&text, from, to);
                    msg.append(detail.as_str());
                    msg
                };
                QpdfStatus { ok: false, error: Some(msg), version: None, warning: None }
            }
        },
        Err(e) => {
            let mut msg = String::from_str("qpdf 不可用（请把 qpdf 放在程序同目录）：");
            msg.append(e.as_str());
            QpdfStatus { ok: false, error: Some(msg), version: None, warning: None }
        },
    }
}

} // verus!
