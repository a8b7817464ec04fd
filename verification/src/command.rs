//! The setup-command endpoint: who may call it, how its form fields are read, which
//! configured script runs, and what the caller is told.

use vstd::prelude::*;
use vstd::string::*;
use crate::placeholders::{expand, replace_placeholders};
use crate::strmap::StrMap;
use crate::text::{same_text, trim, trim_str};

verus! {

/// Why a setup-command call is turned away.
#[derive(Clone, Copy, Debug, PartialEq, Eq, Structural)]
pub enum CommandRejection {
    /// No command token is configured (answered 400).
    TokenNotConfigured,
    /// The caller's token is missing or wrong (answered 401).
    Unauthorized,
    /// A build queue is running (answered 409).
    BuildInProgress,
    /// The uploaded file is larger than the limit (answered 400).
    FileTooLarge,
    /// `is_file` was set but no file came (answered 400).
    ExpectedFile,
    /// No `command` field came (answered 400).
    MissingCommand,
    /// The command names no configured script (answered 400).
    MissingScript,
}

impl CommandRejection {
    /// The HTTP status of the answer.
    pub fn http_status(&self) -> (code: u16)
        ensures
            code == match *self {
                CommandRejection::Unauthorized => 401u16,
                CommandRejection::BuildInProgress => 409u16,
                _ => 400u16,
            },
    {
        match self {
            CommandRejection::Unauthorized => 401,
            CommandRejection::BuildInProgress => 409,
            _ => 400,
        }
    }

    /// The body of the answer.
    pub fn message(&self) -> (m: String)
        ensures
            m@ == rejection_text(*self),
    {
        match self {
            CommandRejection::TokenNotConfigured => "🚫 Command handle token is not configured".to_string(),
            CommandRejection::Unauthorized => "🔒 Unauthorized access".to_string(),
            CommandRejection::BuildInProgress => "🚧 Build is in progress, please be patient".to_string(),
            CommandRejection::FileTooLarge => "File size exceeds 400MB limit".to_string(),
            CommandRejection::ExpectedFile => "📁 Expected file to be uploaded with is_file=true".to_string(),
            CommandRejection::MissingCommand => "⚠️ Missing command field".to_string(),
            CommandRejection::MissingScript => "⚠️ Missing command script".to_string(),
        }
    }
}

/// The body that answers a rejection.
pub open spec fn rejection_text(r: CommandRejection) -> Seq<char> {
    match r {
        CommandRejection::TokenNotConfigured => "🚫 Command handle token is not configured"@,
        CommandRejection::Unauthorized => "🔒 Unauthorized access"@,
        CommandRejection::BuildInProgress => "🚧 Build is in progress, please be patient"@,
        CommandRejection::FileTooLarge => "File size exceeds 400MB limit"@,
        CommandRejection::ExpectedFile => "📁 Expected file to be uploaded with is_file=true"@,
        CommandRejection::MissingCommand => "⚠️ Missing command field"@,
        CommandRejection::MissingScript => "⚠️ Missing command script"@,
    }
}

/// Admits a call: a token must be configured, the caller's `token` header (when it is
/// readable text) must equal it, and no build queue may be running, checked in that order.
pub fn authorize_command(configured_token: &str, header_token: Option<&str>, queue_running: bool) -> (r: Result<(), CommandRejection>)
    ensures
        configured_token@.len() == 0 ==> r == Err::<(), CommandRejection>(CommandRejection::TokenNotConfigured),
        configured_token@.len() > 0 && !(header_token matches Some(t) && t@ == configured_token@)
            ==> r == Err::<(), CommandRejection>(CommandRejection::Unauthorized),
        configured_token@.len() > 0 && (header_token matches Some(t) && t@ == configured_token@) && queue_running
            ==> r == Err::<(), CommandRejection>(CommandRejection::BuildInProgress),
        configured_token@.len() > 0 && (header_token matches Some(t) && t@ == configured_token@) && !queue_running
            ==> r is Ok,
{
    if configured_token.is_empty() {
        return Err(CommandRejection::TokenNotConfigured);
    }
    let valid = match header_token {
        Some(t) => same_text(configured_token, t),
        None => false,
    };
    if !valid {
        return Err(CommandRejection::Unauthorized);
    }
    if queue_running {
        return Err(CommandRejection::BuildInProgress);
    }
    Ok(())
}

/// Whether a form flag is set: after trimming white space it reads "true", "1" or "yes".
pub open spec fn flag_set(value: Seq<char>) -> bool {
    let t = trim(value, false);
    t == "true"@ || t == "1"@ || t == "yes"@
}

/// Reads the `is_file` form field.
pub fn parse_flag(value: &str) -> (r: bool)
    ensures
        r == flag_set(value@),
{
    let t = trim_str(value);
    same_text(t.as_str(), "true") || same_text(t.as_str(), "1") || same_text(t.as_str(), "yes")
}

/// The largest upload accepted, in bytes.
pub const MAX_UPLOAD_BYTES: usize = 419430400;

/// Counts a received chunk of the uploaded file: the new total, or `None` once the total
/// exceeds [`MAX_UPLOAD_BYTES`].
pub fn count_upload_chunk(received: usize, chunk_len: usize) -> (r: Option<usize>)
    requires
        received <= MAX_UPLOAD_BYTES,
    ensures
        received + chunk_len > MAX_UPLOAD_BYTES ==> r is None,
        received + chunk_len <= MAX_UPLOAD_BYTES ==> r == Some((received + chunk_len) as usize),
{
    if chunk_len > MAX_UPLOAD_BYTES - received {
        None
    } else {
        Some(received + chunk_len)
    }
}

/// The form fields of a call, once read.
pub struct CommandForm {
    /// `is_file`, when sent.
    pub is_file: Option<bool>,
    /// Whether a file was received and saved.
    pub file_saved: bool,
    /// `command`, when sent.
    pub command: Option<String>,
    /// `param`, when sent.
    pub param: Option<String>,
}

/// Whether the form passes the checks before its `param` is used.
pub open spec fn form_checks_pass(form: CommandForm, setup_commands: Map<Seq<char>, Seq<char>>) -> bool {
    &&& !(form.is_file == Some(true) && !form.file_saved)
    &&& form.command is Some
    &&& setup_commands.contains_key(form.command->0@)
}

/// Tells whether the form passes the checks before its `param` is used.
pub fn form_passes_checks(form: &CommandForm, setup_commands: &StrMap) -> (r: bool)
    ensures
        r == form_checks_pass(*form, setup_commands@),
{
    if form.is_file == Some(true) && !form.file_saved {
        return false;
    }
    match &form.command {
        Some(c) => setup_commands.contains_key(c.as_str()),
        None => false,
    }
}

/// Chooses the script to run: a file must have come if `is_file` was set, a command must
/// be named and configured; the script's `{param}` placeholders take the `param` field.
pub fn plan_command(form: &CommandForm, setup_commands: &StrMap) -> (r: Result<String, CommandRejection>)
    requires
        form_checks_pass(*form, setup_commands@) ==> form.param is Some,
    ensures
        form.is_file == Some(true) && !form.file_saved ==> r == Err::<String, CommandRejection>(CommandRejection::ExpectedFile),
        !(form.is_file == Some(true) && !form.file_saved) && form.command is None
            ==> r == Err::<String, CommandRejection>(CommandRejection::MissingCommand),
        !(form.is_file == Some(true) && !form.file_saved) && form.command is Some
            && !setup_commands@.contains_key(form.command->0@)
            ==> r == Err::<String, CommandRejection>(CommandRejection::MissingScript),
        form_checks_pass(*form, setup_commands@) ==> (r matches Ok(script) && script@ == expand(
            setup_commands@[form.command->0@],
            map![seq!['p', 'a', 'r', 'a', 'm'] => form.param->0@],
        )),
{
    if form.is_file == Some(true) && !form.file_saved {
        return Err(CommandRejection::ExpectedFile);
    }
    let command = match &form.command {
        Some(c) => c,
        None => return Err(CommandRejection::MissingCommand),
    };
    let script = match setup_commands.get(command.as_str()) {
        Some(s) => s,
        None => return Err(CommandRejection::MissingScript),
    };
    let param = match &form.param {
        Some(p) => p.clone(),
        None => String::new(),
    };
    let mut values = StrMap::new();
    let name = vec!['p', 'a', 'r', 'a', 'm'];
    let name_text = crate::text::string_from_chars(name.as_slice());
    values.insert(name_text, param);
    assert(values@ =~= map![seq!['p', 'a', 'r', 'a', 'm'] => form.param->0@]);
    Ok(replace_placeholders(script.as_str(), &values))
}

/// What std's `String::from_utf8_lossy` gives for some bytes.
pub uninterp spec fn lossy_text(bytes: Seq<u8>) -> Seq<char>;

/// Decodes bytes as UTF-8, replacing malformed sequences (std's `String::from_utf8_lossy`).
/// Trusted: the result is `lossy_text` of the bytes; for well-formed UTF-8 it is the
/// decoded text; it is empty exactly when the bytes are (malformed input becomes U+FFFD
/// replacement characters, never nothing). Which replacements are made is not written out.
#[verifier::external_body]
fn utf8_lossy(bytes: &[u8]) -> (s: String)
    ensures
        s@ == lossy_text(bytes@),
        vstd::utf8::valid_utf8(bytes@) ==> s@ == vstd::utf8::decode_utf8(bytes@),
        s@.len() == 0 <==> bytes@.len() == 0,
{
    String::from_utf8_lossy(bytes).into_owned()
}

/// The report of a finished script: its standard output, then its standard error, each
/// under a heading and only when not empty.
pub open spec fn output_report(stdout: Seq<char>, stderr: Seq<char>) -> Seq<char> {
    (if stdout.len() > 0 { "stdout:\n"@ + stdout + "\n"@ } else { Seq::empty() }) + (if stderr.len() > 0 {
        "stderr:\n"@ + stderr + "\n"@
    } else {
        Seq::empty()
    })
}

/// Words the report of a finished script from its decoded output; see [`output_report`].
pub fn report_output(stdout: &str, stderr: &str) -> (r: String)
    ensures
        r@ == output_report(stdout@, stderr@),
{
    let mut r = String::new();
    if !stdout.is_empty() {
        r.append("stdout:\n");
        r.append(stdout);
        r.append("\n");
    }
    let ghost first = r@;
    if !stderr.is_empty() {
        r.append("stderr:\n");
        r.append(stderr);
        r.append("\n");
    }
    proof {
        let a = if stdout@.len() > 0 { "stdout:\n"@ + stdout@ + "\n"@ } else { Seq::<char>::empty() };
        let b = if stderr@.len() > 0 { "stderr:\n"@ + stderr@ + "\n"@ } else { Seq::<char>::empty() };
        assert(first =~= a);
        assert(r@ =~= a + b);
    }
    r
}

/// The report of a finished script from its output bytes: the standard output section
/// appears exactly when the script wrote to standard output, and likewise for standard
/// error; each holds the decoded text.
pub open spec fn bytes_report(stdout: Seq<u8>, stderr: Seq<u8>) -> Seq<char> {
    (if stdout.len() > 0 { "stdout:\n"@ + lossy_text(stdout) + "\n"@ } else { Seq::empty() }) + (if stderr.len() > 0 {
        "stderr:\n"@ + lossy_text(stderr) + "\n"@
    } else {
        Seq::empty()
    })
}

/// Reports the output of a finished script, decoding its bytes; see [`output_report`].
pub fn combine_output(stdout: &[u8], stderr: &[u8]) -> (r: String)
    ensures
        r@ == output_report(lossy_text(stdout@), lossy_text(stderr@)),
        r@ == bytes_report(stdout@, stderr@),
{
    let out = utf8_lossy(stdout);
    let err = utf8_lossy(stderr);
    report_output(out.as_str(), err.as_str())
}

/// The answer to a script run: a success or failure heading, then the report.
pub open spec fn run_answer(success: bool, report: Seq<char>) -> Seq<char> {
    if success {
        "✅ Command executed successfully:\n"@ + report
    } else {
        "❌ Command execution failed:\n"@ + report
    }
}

/// Words the answer to a script run.
pub fn answer_run(success: bool, report: &str) -> (r: String)
    ensures
        r@ == run_answer(success, report@),
{
    if success {
        "✅ Command executed successfully:\n".to_string().concat(report)
    } else {
        "❌ Command execution failed:\n".to_string().concat(report)
    }
}

} // verus!
