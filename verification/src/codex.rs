//! Running the Codex command line: what it is called with, and what its
//! output means.
use crate::outside::{
    new_uuid, text_from_utf8_lossy, to_lowercase, unicode_lower, utf8_lossy, uuid_form,
};
use crate::text::{
    ascii_lower, contains, contains_text, copy_text, opt_str, present, same_text,
    to_ascii_lower, trim, trim_present, trimmed,
};
use vstd::prelude::*;

verus! {

/// How Codex is run.
#[derive(Clone, Copy, Debug, PartialEq, Eq, Structural)]
pub struct CodexRunner {
    /// How long a run may take, in seconds.
    pub timeout_secs: u64,
}

impl Default for CodexRunner {
    fn default() -> (r: Self)
        ensures
            r.timeout_secs == 600,
    {
        CodexRunner { timeout_secs: 600 }
    }
}

/// What a run of Codex depends on besides the prompt.
pub struct CodexSettings<'a> {
    /// The sandbox to run in, where one is named in the environment.
    pub sandbox: Option<&'a str>,
    /// Whether to run without a sandbox, where the environment says.
    pub bypass_sandbox: Option<&'a str>,
}

#[verifier::ext_equal]
pub struct CodexSettingsView {
    pub sandbox: Option<Seq<char>>,
    pub bypass_sandbox: Option<Seq<char>>,
}

impl<'a> View for CodexSettings<'a> {
    type V = CodexSettingsView;

    open spec fn view(&self) -> CodexSettingsView {
        CodexSettingsView {
            sandbox: opt_str(self.sandbox),
            bypass_sandbox: opt_str(self.bypass_sandbox),
        }
    }
}

/// An argument of a call of Codex.
#[derive(Debug, PartialEq, Eq)]
pub enum CodexArgument {
    /// This text.
    Text(String),
    /// The path of the workspace.
    Workspace,
    /// The path of the file that takes the answer.
    OutputFile,
}

pub enum CodexArgumentView {
    Text(Seq<char>),
    Workspace,
    OutputFile,
}

impl View for CodexArgument {
    type V = CodexArgumentView;

    open spec fn view(&self) -> CodexArgumentView {
        match self {
            CodexArgument::Text(text) => CodexArgumentView::Text(text@),
            CodexArgument::Workspace => CodexArgumentView::Workspace,
            CodexArgument::OutputFile => CodexArgumentView::OutputFile,
        }
    }
}

/// The views of arguments.
pub open spec fn argument_views(list: Seq<CodexArgument>) -> Seq<CodexArgumentView> {
    Seq::new(list.len(), |i: int| list[i]@)
}

/// A call of Codex: its arguments, and the name of the file, in the directory for
/// temporary files, that takes the answer.
#[derive(Debug)]
pub struct CodexCall {
    pub arguments: Vec<CodexArgument>,
    pub output_file: String,
}

/// Why Codex gave no answer.
#[derive(Debug)]
pub enum CodexError {
    /// The workspace is not there.
    MissingWorkspace(String),
    /// Codex ended with a failure; this is what is said of it.
    Failed(String),
    /// The answer is empty.
    EmptyResponse,
}

pub enum CodexErrorView {
    MissingWorkspace(Seq<char>),
    Failed(Seq<char>),
    EmptyResponse,
}

impl View for CodexError {
    type V = CodexErrorView;

    open spec fn view(&self) -> CodexErrorView {
        match self {
            CodexError::MissingWorkspace(w) => CodexErrorView::MissingWorkspace(w@),
            CodexError::Failed(m) => CodexErrorView::Failed(m@),
            CodexError::EmptyResponse => CodexErrorView::EmptyResponse,
        }
    }
}

/// What is said of an error.
pub open spec fn codex_error_text(e: CodexErrorView) -> Seq<char> {
    match e {
        CodexErrorView::MissingWorkspace(w) => "workspace does not exist: "@ + w,
        CodexErrorView::Failed(m) => m,
        CodexErrorView::EmptyResponse => "codex returned an empty response"@,
    }
}

impl CodexError {
    /// What is said of the error.
    pub fn message(&self) -> (r: String)
        ensures
            r@ == codex_error_text(self@),
    {
        match self {
            CodexError::MissingWorkspace(w) => {
                let mut out = copy_text("workspace does not exist: ");
                out.append(w.as_str());
                out
            },
            CodexError::Failed(m) => m.clone(),
            CodexError::EmptyResponse => copy_text("codex returned an empty response"),
        }
    }
}

/// The sandbox to run in.
pub open spec fn sandbox_mode(value: Option<Seq<char>>) -> Seq<char> {
    match present(value) {
        Some(mode) => mode,
        None => "workspace-write"@,
    }
}

/// The sandbox to run in: the one that is named, where one is.
pub fn codex_sandbox_mode(value: Option<&str>) -> (r: String)
    ensures
        r@ == sandbox_mode(opt_str(value)),
{
    match trim_present(value) {
        Some(mode) => copy_text(mode),
        None => copy_text("workspace-write"),
    }
}

/// Whether a switch is on.
pub open spec fn switched_on(value: Option<Seq<char>>) -> bool {
    match value {
        Some(v) => {
            let t = ascii_lower(trimmed(v));
            t == "1"@ || t == "true"@ || t == "yes"@ || t == "on"@
        },
        None => false,
    }
}

/// Whether to run without a sandbox.
pub fn bypass_codex_sandbox(value: Option<&str>) -> (r: bool)
    ensures
        r == switched_on(opt_str(value)),
{
    match value {
        Some(v) => {
            let lower = to_ascii_lower(trim(v));
            let t: &str = lower.as_str();
            same_text(t, "1") || same_text(t, "true") || same_text(t, "yes") || same_text(t, "on")
        },
        None => false,
    }
}

/// An argument that is this text.
pub open spec fn word(text: Seq<char>) -> CodexArgumentView {
    CodexArgumentView::Text(text)
}

/// The arguments of a call of Codex.
pub open spec fn call_arguments(
    prompt: Seq<char>,
    model: Option<Seq<char>>,
    settings: CodexSettingsView,
) -> Seq<CodexArgumentView> {
    seq![word("exec"@), word("--skip-git-repo-check"@)] + (if switched_on(
        settings.bypass_sandbox,
    ) {
        seq![word("--dangerously-bypass-approvals-and-sandbox"@)]
    } else {
        seq![word("--sandbox"@), word(sandbox_mode(settings.sandbox))]
    }) + seq![
        word("--output-last-message"@),
        CodexArgumentView::OutputFile,
        word("--cd"@),
        CodexArgumentView::Workspace,
        word(prompt),
    ] + (match present(model) {
        Some(m) => seq![word("--model"@), word(m)],
        None => seq![],
    })
}

/// The name of the file that takes the answer of a run.
pub open spec fn answer_file(run: Seq<char>) -> Seq<char> {
    "openorchestrator-codex-"@ + run + ".txt"@
}

fn push_argument(list: &mut Vec<CodexArgument>, argument: CodexArgument)
    ensures
        argument_views(final(list)@) == argument_views(old(list)@) + seq![argument@],
{
    let ghost added = argument@;
    list.push(argument);
    assert(argument_views(list@) =~= argument_views(old(list)@) + seq![added]);
}

fn push_word(list: &mut Vec<CodexArgument>, text: &str)
    ensures
        argument_views(final(list)@) == argument_views(old(list)@) + seq![word(text@)],
{
    push_argument(list, CodexArgument::Text(copy_text(text)));
}

impl CodexRunner {
    /// Whether the output of a login status, of a run that was a success or
    /// not, speaks of a login.
    pub fn check_login_status(&self, success: bool, stdout: &[u8]) -> (r: bool)
        ensures
            r == (success && contains_text(unicode_lower(utf8_lossy(stdout@)), "logged in"@)),
    {
        success && speaks_of_login(to_lowercase(text_from_utf8_lossy(stdout).as_str()).as_str())
    }

    /// The call of Codex for a prompt, with `run` in the name of its file; the
    /// workspace is shown as `workspace` where it is not there.
    pub fn run_prompt_as(
        &self,
        workspace: &str,
        workspace_exists: bool,
        prompt: &str,
        model: Option<&str>,
        settings: &CodexSettings,
        run: &str,
    ) -> (r: Result<CodexCall, CodexError>)
        ensures
            match r {
                Ok(call) => workspace_exists && call.output_file@ == answer_file(run@)
                    && argument_views(call.arguments@) == call_arguments(
                    prompt@,
                    opt_str(model),
                    settings@,
                ),
                Err(e) => !workspace_exists && e@ == CodexErrorView::MissingWorkspace(workspace@),
            },
    {
        if !workspace_exists {
            return Err(CodexError::MissingWorkspace(copy_text(workspace)));
        }
        let mut output_file = copy_text("openorchestrator-codex-");
        output_file.append(run);
        output_file.append(".txt");
        let mut list: Vec<CodexArgument> = Vec::new();
        push_word(&mut list, "exec");
        push_word(&mut list, "--skip-git-repo-check");
        if bypass_codex_sandbox(settings.bypass_sandbox) {
            push_word(&mut list, "--dangerously-bypass-approvals-and-sandbox");
        } else {
            push_word(&mut list, "--sandbox");
            push_word(&mut list, codex_sandbox_mode(settings.sandbox).as_str());
        }
        push_word(&mut list, "--output-last-message");
        push_argument(&mut list, CodexArgument::OutputFile);
        push_word(&mut list, "--cd");
        push_argument(&mut list, CodexArgument::Workspace);
        push_word(&mut list, prompt);
        if let Some(m) = trim_present(model) {
            push_word(&mut list, "--model");
            push_word(&mut list, m);
        }
        assert(argument_views(list@) =~= call_arguments(prompt@, opt_str(model), settings@));
        Ok(CodexCall { arguments: list, output_file })
    }

    /// The call of Codex for a prompt, with a file of its own.
    pub fn run_prompt(
        &self,
        workspace: &str,
        workspace_exists: bool,
        prompt: &str,
        model: Option<&str>,
        settings: &CodexSettings,
    ) -> (r: Result<CodexCall, CodexError>)
        ensures
            match r {
                Ok(call) => workspace_exists && exists|run: Seq<char>|
                    uuid_form(run) && call.output_file@ == #[trigger] answer_file(run)
                        && argument_views(call.arguments@) == call_arguments(
                        prompt@,
                        opt_str(model),
                        settings@,
                    ),
                Err(e) => !workspace_exists && e@ == CodexErrorView::MissingWorkspace(workspace@),
            },
    {
        let run = new_uuid();
        self.run_prompt_as(workspace, workspace_exists, prompt, model, settings, run.as_str())
    }
}

/// Whether a text in small letters speaks of a login.
pub fn speaks_of_login(output: &str) -> (r: bool)
    ensures
        r == contains_text(output@, "logged in"@),
{
    contains(output, "logged in")
}

/// What is said of a run that failed.
pub open spec fn failed_run_text(status: Seq<char>, stderr: Seq<char>, stdout: Seq<char>) -> Seq<
    char,
> {
    "codex exec failed (status="@ + status + "): "@ + trimmed(stderr) + " "@ + trimmed(stdout)
}

/// What is said of a run that failed, from what it printed as text.
pub fn describe_failed_run(status: &str, stderr: &str, stdout: &str) -> (r: String)
    ensures
        r@ == failed_run_text(status@, stderr@, stdout@),
{
    let mut out = copy_text("codex exec failed (status=");
    out.append(status);
    out.append("): ");
    out.append(trim(stderr));
    out.append(" ");
    out.append(trim(stdout));
    out
}

/// Whether a run went well, and if not, what is said of it.
pub fn check_run(success: bool, status: &str, stderr: &[u8], stdout: &[u8]) -> (r: Result<
    (),
    CodexError,
>)
    ensures
        match r {
            Ok(_) => success,
            Err(e) => !success && e@ == CodexErrorView::Failed(
                failed_run_text(status@, utf8_lossy(stderr@), utf8_lossy(stdout@)),
            ),
        },
{
    if success {
        return Ok(());
    }
    let err = text_from_utf8_lossy(stderr);
    let out = text_from_utf8_lossy(stdout);
    Err(CodexError::Failed(describe_failed_run(status, err.as_str(), out.as_str())))
}

/// The answer that a run wrote to its file.
pub fn read_response(response: &str) -> (r: Result<String, CodexError>)
    ensures
        match r {
            Ok(answer) => answer@ == trimmed(response@) && answer@.len() > 0,
            Err(e) => trimmed(response@).len() == 0 && e@ == CodexErrorView::EmptyResponse,
        },
{
    let t = trim(response);
    if t.is_empty() {
        Err(CodexError::EmptyResponse)
    } else {
        Ok(copy_text(t))
    }
}

} // verus!
