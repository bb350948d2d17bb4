//! The command line's rules: which options go together and what counts as
//! a task prompt.
use vstd::prelude::*;
use crate::text::{trim, trimmed};

verus! {

/// Why the command line was refused.
#[derive(Debug, Clone, Copy, PartialEq, Eq)]
pub enum CliError {
    /// `--serve` was given together with `--prompt`.
    ServeWithPrompt,
    /// `--prompt` holds nothing but whitespace.
    EmptyPromptArgument,
    /// No `--prompt` and standard input is a terminal.
    NoPromptSource,
    /// Standard input holds nothing but whitespace.
    EmptyInput,
}

/// The message of each refusal.
pub open spec fn cli_error_message(e: CliError) -> Seq<char> {
    match e {
        CliError::ServeWithPrompt => "--serve 运行时不要同时传 --prompt"@,
        CliError::EmptyPromptArgument => "--prompt 不能为空"@,
        CliError::NoPromptSource => "请使用 --prompt 参数，或通过标准输入提供任务"@,
        CliError::EmptyInput => "没有读取到有效指令"@,
    }
}

impl CliError {
    /// The message shown to the user.
    pub fn message(&self) -> (m: String)
        ensures
            m@ == cli_error_message(*self),
    {
        match self {
            CliError::ServeWithPrompt => String::from_str("--serve 运行时不要同时传 --prompt"),
            CliError::EmptyPromptArgument => String::from_str("--prompt 不能为空"),
            CliError::NoPromptSource => String::from_str("请使用 --prompt 参数，或通过标准输入提供任务"),
            CliError::EmptyInput => String::from_str("没有读取到有效指令"),
        }
    }
}

/// Serving the gateway and answering one prompt exclude each other.
pub fn check_serve_options(serve: bool, has_prompt: bool) -> (r: Result<(), CliError>)
    ensures
        r is Err <==> serve && has_prompt,
        r matches Err(e) ==> e == CliError::ServeWithPrompt,
{
    if serve && has_prompt {
        Err(CliError::ServeWithPrompt)
    } else {
        Ok(())
    }
}

/// `text` trimmed, or `missing` when nothing is left.
fn trimmed_or(text: &str, missing: CliError) -> (r: Result<String, CliError>)
    ensures
        match r {
            Ok(p) => trimmed(text@).len() > 0 && p@ == trimmed(text@),
            Err(e) => trimmed(text@).len() == 0 && e == missing,
        },
{
    let t = trim(text);
    if t.is_empty() {
        Err(missing)
    } else {
        Ok(t.to_owned())
    }
}

/// The task given with `--prompt`, trimmed; refused when blank.
pub fn prompt_from_argument(prompt: &str) -> (r: Result<String, CliError>)
    ensures
        match r {
            Ok(p) => trimmed(prompt@).len() > 0 && p@ == trimmed(prompt@),
            Err(e) => trimmed(prompt@).len() == 0 && e == CliError::EmptyPromptArgument,
        },
{
    trimmed_or(prompt, CliError::EmptyPromptArgument)
}

/// The task read from standard input, trimmed; refused when blank.
pub fn prompt_from_input(input: &str) -> (r: Result<String, CliError>)
    ensures
        match r {
            Ok(p) => trimmed(input@).len() > 0 && p@ == trimmed(input@),
            Err(e) => trimmed(input@).len() == 0 && e == CliError::EmptyInput,
        },
{
    trimmed_or(input, CliError::EmptyInput)
}

} // verus!
