use vstd::prelude::*;
use vstd::utf8::{decode_utf8, valid_utf8};

verus! {

/// The programs that typeset what markdown alone cannot.
#[derive(Clone, Copy, Debug, PartialEq, Eq, Structural)]
pub enum Tool {
    Katex,
    Plantuml,
    Pygmentize,
}

/// How to start a tool: the program and its arguments. The text to render
/// goes to its standard input.
#[derive(Clone, Debug)]
pub struct Invocation {
    pub tool: Tool,
    pub program: String,
    pub args: Vec<String>,
}

/// How a run of a tool ended.
#[derive(Debug)]
pub enum ProcessOutcome {
    /// The program did not start, or its streams failed.
    Unavailable,
    /// The program ran to its end.
    Exited { success: bool, stdout: Vec<u8>, stderr: Vec<u8> },
}

/// Why a tool gave no markup.
#[derive(Debug)]
pub enum RenderError {
    /// The program did not start, or its streams failed.
    Unavailable { tool: Tool },
    /// The program ended with a status other than zero; what it wrote is kept
    /// for the diagnostic.
    Failed { tool: Tool, stdout: Vec<u8>, stderr: Vec<u8> },
    /// The program succeeded and its output is not UTF-8.
    Encoding { tool: Tool },
}

/// The text that a run of `tool` produced. A status other than zero is a
/// failure whatever was written.
pub open spec fn rendered_text(tool: Tool, outcome: ProcessOutcome) -> Result<
    Seq<char>,
    RenderError,
> {
    match outcome {
        ProcessOutcome::Unavailable => Err(RenderError::Unavailable { tool }),
        ProcessOutcome::Exited { success, stdout, stderr } => if !success {
            Err(RenderError::Failed { tool, stdout, stderr })
        } else if !valid_utf8(stdout@) {
            Err(RenderError::Encoding { tool })
        } else {
            Ok(decode_utf8(stdout@))
        },
    }
}

/// Whether `r` is `expected`, the text taken by its characters.
pub open spec fn gives(r: Result<String, RenderError>, expected: Result<Seq<char>, RenderError>) -> bool {
    match r {
        Ok(s) => expected == Ok::<Seq<char>, RenderError>(s@),
        Err(e) => expected == Err::<Seq<char>, RenderError>(e),
    }
}

/// `String::from_utf8` of the standard library: the bytes as a string where
/// they are valid UTF-8, and `None` where they are not.
#[verifier::external_body]
fn utf8_text(bytes: Vec<u8>) -> (r: Option<String>)
    ensures
        r is Some <==> valid_utf8(bytes@),
        r matches Some(s) ==> s@ == decode_utf8(bytes@),
{
    String::from_utf8(bytes).ok()
}

/// Reads the text that a run of `tool` produced.
pub fn read_output(tool: Tool, outcome: ProcessOutcome) -> (r: Result<String, RenderError>)
    ensures
        gives(r, rendered_text(tool, outcome)),
{
    match outcome {
        ProcessOutcome::Unavailable => Err(RenderError::Unavailable { tool }),
        ProcessOutcome::Exited { success, stdout, stderr } => {
            if !success {
                Err(RenderError::Failed { tool, stdout, stderr })
            } else {
                match utf8_text(stdout) {
                    Some(text) => Ok(text),
                    None => Err(RenderError::Encoding { tool }),
                }
            }
        },
    }
}

} // verus!
