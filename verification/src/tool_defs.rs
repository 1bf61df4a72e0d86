//! The tools that the agent is offered, as data. The caller writes them
//! out in the form that the model's API asks for.

use crate::text::{string_of, to_chars};
use vstd::prelude::*;

verus! {

/// The kind of value that a parameter takes.
#[derive(Clone, Copy, Debug, PartialEq, Eq, Structural)]
pub enum ParameterKind {
    Text,
    /// A whole number of at least 1.
    Count,
    Flag,
    /// `overwrite` or `append`.
    WriteMode,
    /// One replacement (`old`, `new`, and optionally `replace_all`), or a
    /// list of them.
    Edits,
}

/// A parameter of a tool.
#[derive(Debug)]
pub struct ToolParameter {
    pub name: String,
    pub kind: ParameterKind,
    pub description: String,
    pub required: bool,
}

/// A tool that the agent is offered.
#[derive(Debug)]
pub struct ToolDefinition {
    pub name: String,
    pub description: String,
    pub parameters: Vec<ToolParameter>,
}

/// The mathematical value of a [`ToolParameter`].
pub struct ParameterView {
    pub name: Seq<char>,
    pub kind: ParameterKind,
    pub description: Seq<char>,
    pub required: bool,
}

impl View for ToolParameter {
    type V = ParameterView;

    open spec fn view(&self) -> ParameterView {
        ParameterView {
            name: self.name@,
            kind: self.kind,
            description: self.description@,
            required: self.required,
        }
    }
}

/// The mathematical value of a [`ToolDefinition`].
pub struct DefinitionView {
    pub name: Seq<char>,
    pub description: Seq<char>,
    pub parameters: Seq<ParameterView>,
}

impl View for ToolDefinition {
    type V = DefinitionView;

    open spec fn view(&self) -> DefinitionView {
        DefinitionView {
            name: self.name@,
            description: self.description@,
            parameters: self.parameters@.map_values(|p: ToolParameter| p@),
        }
    }
}

/// A parameter.
pub open spec fn parameter(
    name: Seq<char>,
    kind: ParameterKind,
    description: Seq<char>,
    required: bool,
) -> ParameterView {
    ParameterView { name, kind, description, required }
}

/// The tools, in the order in which they are offered.
pub open spec fn tool_definitions_spec() -> Seq<DefinitionView> {
    seq![
        DefinitionView {
            name: "ReadFile"@,
            description: "Read the contents of a text file from disk."@,
            parameters: seq![
                parameter("path"@, ParameterKind::Text, "File path to read."@, true),
                parameter(
                    "line_offset"@,
                    ParameterKind::Count,
                    "Line number to start from."@,
                    false,
                ),
                parameter("n_lines"@, ParameterKind::Count, "Number of lines to read."@, false),
            ],
        },
        DefinitionView {
            name: "Shell"@,
            description: "Run a shell command in the working directory."@,
            parameters: seq![
                parameter("command"@, ParameterKind::Text, "Shell command to execute."@, true),
                parameter("timeout"@, ParameterKind::Count, "Timeout in seconds."@, false),
            ],
        },
        DefinitionView {
            name: "WriteFile"@,
            description: "Write content to a file (overwrite or append)."@,
            parameters: seq![
                parameter("path"@, ParameterKind::Text, "File path to write."@, true),
                parameter("content"@, ParameterKind::Text, "Content to write."@, true),
                parameter("mode"@, ParameterKind::WriteMode, "Write mode."@, false),
            ],
        },
        DefinitionView {
            name: "StrReplaceFile"@,
            description: "Replace specific strings in a file."@,
            parameters: seq![
                parameter("path"@, ParameterKind::Text, "File path to edit."@, true),
                parameter("edit"@, ParameterKind::Edits, ""@, true),
            ],
        },
        DefinitionView {
            name: "SearchWeb"@,
            description: "Search the web using the configured search service."@,
            parameters: seq![
                parameter("query"@, ParameterKind::Text, "Search query."@, true),
                parameter("limit"@, ParameterKind::Count, "Number of results."@, false),
                parameter(
                    "include_content"@,
                    ParameterKind::Flag,
                    "Include page content in results."@,
                    false,
                ),
            ],
        },
        DefinitionView {
            name: "FetchURL"@,
            description: "Fetch the contents of a URL."@,
            parameters: seq![parameter("url"@, ParameterKind::Text, "URL to fetch."@, true)],
        },
    ]
}

fn param(name: &str, kind: ParameterKind, description: &str, required: bool) -> (r: ToolParameter)
    ensures
        r@ == parameter(name@, kind, description@, required),
{
    ToolParameter {
        name: string_of(&to_chars(name)),
        kind,
        description: string_of(&to_chars(description)),
        required,
    }
}

fn tool(name: &str, description: &str, parameters: Vec<ToolParameter>) -> (r: ToolDefinition)
    ensures
        r@ == (DefinitionView {
            name: name@,
            description: description@,
            parameters: parameters@.map_values(|p: ToolParameter| p@),
        }),
{
    ToolDefinition {
        name: string_of(&to_chars(name)),
        description: string_of(&to_chars(description)),
        parameters,
    }
}

/// The views of a sequence of definitions.
pub open spec fn definition_views(tools: Seq<ToolDefinition>) -> Seq<DefinitionView> {
    tools.map_values(|t: ToolDefinition| t@)
}

/// The tools that the agent is offered.
pub fn tool_definitions() -> (r: Vec<ToolDefinition>)
    ensures
        definition_views(r@) == tool_definitions_spec(),
{
    let mut tools: Vec<ToolDefinition> = Vec::new();
    let mut p: Vec<ToolParameter> = Vec::new();
    p.push(param("path", ParameterKind::Text, "File path to read.", true));
    p.push(param("line_offset", ParameterKind::Count, "Line number to start from.", false));
    p.push(param("n_lines", ParameterKind::Count, "Number of lines to read.", false));
    assert(p@.map_values(|p: ToolParameter| p@) =~= tool_definitions_spec()[0].parameters);
    tools.push(tool("ReadFile", "Read the contents of a text file from disk.", p));
    let mut p: Vec<ToolParameter> = Vec::new();
    p.push(param("command", ParameterKind::Text, "Shell command to execute.", true));
    p.push(param("timeout", ParameterKind::Count, "Timeout in seconds.", false));
    assert(p@.map_values(|p: ToolParameter| p@) =~= tool_definitions_spec()[1].parameters);
    tools.push(tool("Shell", "Run a shell command in the working directory.", p));
    let mut p: Vec<ToolParameter> = Vec::new();
    p.push(param("path", ParameterKind::Text, "File path to write.", true));
    p.push(param("content", ParameterKind::Text, "Content to write.", true));
    p.push(param("mode", ParameterKind::WriteMode, "Write mode.", false));
    assert(p@.map_values(|p: ToolParameter| p@) =~= tool_definitions_spec()[2].parameters);
    tools.push(tool("WriteFile", "Write content to a file (overwrite or append).", p));
    let mut p: Vec<ToolParameter> = Vec::new();
    p.push(param("path", ParameterKind::Text, "File path to edit.", true));
    p.push(param("edit", ParameterKind::Edits, "", true));
    assert(p@.map_values(|p: ToolParameter| p@) =~= tool_definitions_spec()[3].parameters);
    tools.push(tool("StrReplaceFile", "Replace specific strings in a file.", p));
    let mut p: Vec<ToolParameter> = Vec::new();
    p.push(param("query", ParameterKind::Text, "Search query.", true));
    p.push(param("limit", ParameterKind::Count, "Number of results.", false));
    p.push(
        param("include_content", ParameterKind::Flag, "Include page content in results.", false),
    );
    assert(p@.map_values(|p: ToolParameter| p@) =~= tool_definitions_spec()[4].parameters);
    tools.push(tool("SearchWeb", "Search the web using the configured search service.", p));
    let mut p: Vec<ToolParameter> = Vec::new();
    p.push(param("url", ParameterKind::Text, "URL to fetch.", true));
    assert(p@.map_values(|p: ToolParameter| p@) =~= tool_definitions_spec()[5].parameters);
    tools.push(tool("FetchURL", "Fetch the contents of a URL.", p));
    assert(definition_views(tools@) =~= tool_definitions_spec());
    tools
}

} // verus!
