use vstd::prelude::*;
use vstd::string::StringExecFns;
use crate::error::MidnaError;
use crate::json::{JsonValue, JsonView, json_view, json_well_formed, distinct_keys, lemma_items_view, lemma_members_view, members_view, items_view};
use crate::permissions::Risk;
use crate::providers::{ToolFunctionSpec, ToolSpec};
use crate::text::str_eq;

pub mod fs;
pub mod shell;

verus! {

/// The built-in tools that the agent offers to the model.
#[derive(Debug, Clone, Copy, PartialEq, Eq, Structural)]
pub enum ToolKind {
    ReadFile,
    WriteFile,
    ListDir,
    RunShell,
}

/// The name under which the model calls a tool.
pub open spec fn tool_name(k: ToolKind) -> Seq<char> {
    match k {
        ToolKind::ReadFile => "read_file"@,
        ToolKind::WriteFile => "write_file"@,
        ToolKind::ListDir => "list_dir"@,
        ToolKind::RunShell => "run_shell"@,
    }
}

/// What the model is told that a tool does.
pub open spec fn tool_description(k: ToolKind) -> Seq<char> {
    match k {
        ToolKind::ReadFile => "Read a UTF-8 text file and return its content."@,
        ToolKind::WriteFile => "Write content to a file, creating it (and parent directories) if needed, or overwriting it."@,
        ToolKind::ListDir => "List entries in a directory. Directories are suffixed with '/'."@,
        ToolKind::RunShell => "Run a shell command in the current working directory and return stdout, stderr, and the exit code."@,
    }
}

/// How dangerous running a tool is.
pub open spec fn tool_risk(k: ToolKind) -> Risk {
    match k {
        ToolKind::ReadFile => Risk::ReadOnly,
        ToolKind::WriteFile => Risk::Write,
        ToolKind::ListDir => Risk::ReadOnly,
        ToolKind::RunShell => Risk::Execute,
    }
}

/// The schema of one string argument.
pub open spec fn string_argument(description: Seq<char>) -> JsonView {
    JsonView::Object(seq![("type"@, JsonView::Str("string"@)), ("description"@, JsonView::Str(description))])
}

/// The schema of an object with the given properties and, where given, the
/// names of the required ones.
pub open spec fn object_schema(
    properties: Seq<(Seq<char>, JsonView)>,
    required: Option<Seq<Seq<char>>>,
) -> JsonView {
    let head = seq![("type"@, JsonView::Str("object"@)), ("properties"@, JsonView::Object(properties))];
    match required {
        Some(names) => JsonView::Object(head.push(("required"@, JsonView::Array(names.map_values(|n: Seq<char>| JsonView::Str(n)))))),
        None => JsonView::Object(head),
    }
}

/// The JSON schema of a tool's arguments.
pub open spec fn tool_parameters(k: ToolKind) -> JsonView {
    match k {
        ToolKind::ReadFile => object_schema(
            seq![("path"@, string_argument("Path to the file to read"@))],
            Some(seq!["path"@]),
        ),
        ToolKind::WriteFile => object_schema(
            seq![
                ("path"@, string_argument("Path to the file to write"@)),
                ("content"@, string_argument("Full content to write"@)),
            ],
            Some(seq!["path"@, "content"@]),
        ),
        ToolKind::ListDir => object_schema(
            seq![("path"@, string_argument("Directory path (defaults to '.')"@))],
            None,
        ),
        ToolKind::RunShell => object_schema(
            seq![("command"@, string_argument("Shell command to run (passed to `sh -c`)"@))],
            Some(seq!["command"@]),
        ),
    }
}

fn string_argument_schema(description: &str) -> (r: JsonValue)
    ensures
        r@ == string_argument(description@),
{
    let members = vec![
        JsonValue::member("type", JsonValue::string("string")),
        JsonValue::member("description", JsonValue::string(description)),
    ];
    proof {
        lemma_members_view(members@);
        assert(members_view(members@) =~= seq![("type"@, JsonView::Str("string"@)), ("description"@, JsonView::Str(description@))]);
    }
    JsonValue::Object(members)
}

fn object_schema_value(properties: Vec<(String, JsonValue)>, required: Option<Vec<&str>>) -> (r: JsonValue)
    ensures
        r@ == object_schema(
            members_view(properties@),
            match required {
                Some(names) => Some(names@.map_values(|n: &str| n@)),
                None => None,
            },
        ),
{
    let mut members = vec![
        JsonValue::member("type", JsonValue::string("object")),
        JsonValue::member("properties", JsonValue::Object(properties)),
    ];
    let ghost head = seq![("type"@, JsonView::Str("object"@)), ("properties"@, JsonView::Object(members_view(properties@)))];
    proof {
        lemma_members_view(members@);
        assert(members_view(members@) =~= head);
    }
    match required {
        Some(names) => {
            let mut items: Vec<JsonValue> = Vec::new();
            let mut i: usize = 0;
            while i < names.len()
                invariant
                    i <= names@.len(),
                    items@.len() == i,
                    forall|k: int| 0 <= k < i ==> #[trigger] items@[k]@ == JsonView::Str(names@[k]@),
                decreases names.len() - i,
            {
                items.push(JsonValue::string(names[i]));
                i = i + 1;
            }
            proof {
                lemma_items_view(items@);
                assert forall|k: int| 0 <= k < names@.len() implies #[trigger] items_view(items@)[k] == names@.map_values(|n: &str| n@).map_values(|n: Seq<char>| JsonView::Str(n))[k] by {
                    assert(items_view(items@)[k] == json_view(items@[k]));
                    assert(items@[k]@ == JsonView::Str(names@[k]@));
                    assert(names@.map_values(|n: &str| n@)[k] == names@[k]@);
                }
                assert(items_view(items@) =~= names@.map_values(|n: &str| n@).map_values(|n: Seq<char>| JsonView::Str(n)));
            }
            let ghost before = members@;
            members.push(JsonValue::member("required", JsonValue::Array(items)));
            proof {
                lemma_members_view(members@);
                assert(members@.drop_last() =~= before);
                assert(members_view(members@) =~= head.push(("required"@, JsonView::Array(items_view(items@)))));
            }
        },
        None => {},
    }
    JsonValue::Object(members)
}

impl ToolKind {
    pub fn name(&self) -> (r: &'static str)
        ensures
            r@ == tool_name(*self),
    {
        match self {
            ToolKind::ReadFile => "read_file",
            ToolKind::WriteFile => "write_file",
            ToolKind::ListDir => "list_dir",
            ToolKind::RunShell => "run_shell",
        }
    }

    pub fn description(&self) -> (r: &'static str)
        ensures
            r@ == tool_description(*self),
    {
        match self {
            ToolKind::ReadFile => "Read a UTF-8 text file and return its content.",
            ToolKind::WriteFile => "Write content to a file, creating it (and parent directories) if needed, or overwriting it.",
            ToolKind::ListDir => "List entries in a directory. Directories are suffixed with '/'.",
            ToolKind::RunShell => "Run a shell command in the current working directory and return stdout, stderr, and the exit code.",
        }
    }

    /// The JSON schema of the tool's arguments.
    pub fn parameters(&self) -> (r: JsonValue)
        ensures
            r@ == tool_parameters(*self),
            json_well_formed(r@),
    {
        proof {
            law_parameters_well_formed(*self);
        }
        match self {
            ToolKind::ReadFile => {
                let props = vec![JsonValue::member("path", string_argument_schema("Path to the file to read"))];
                proof {
                    lemma_members_view(props@);
                    assert(members_view(props@) =~= seq![("path"@, string_argument("Path to the file to read"@))]);
                }
                let names = vec!["path"];
                proof {
                    assert(names@.map_values(|n: &str| n@) =~= seq!["path"@]);
                }
                let r = object_schema_value(props, Some(names));
                r
            },
            ToolKind::WriteFile => {
                let props = vec![
                    JsonValue::member("path", string_argument_schema("Path to the file to write")),
                    JsonValue::member("content", string_argument_schema("Full content to write")),
                ];
                proof {
                    lemma_members_view(props@);
                    assert(members_view(props@) =~= seq![
                        ("path"@, string_argument("Path to the file to write"@)),
                        ("content"@, string_argument("Full content to write"@)),
                    ]);
                }
                let names = vec!["path", "content"];
                proof {
                    assert(names@.map_values(|n: &str| n@) =~= seq!["path"@, "content"@]);
                }
                let r = object_schema_value(props, Some(names));
                r
            },
            ToolKind::ListDir => {
                let props = vec![JsonValue::member("path", string_argument_schema("Directory path (defaults to '.')"))];
                proof {
                    lemma_members_view(props@);
                    assert(members_view(props@) =~= seq![("path"@, string_argument("Directory path (defaults to '.')"@))]);
                }
                object_schema_value(props, None)
            },
            ToolKind::RunShell => {
                let props = vec![JsonValue::member("command", string_argument_schema("Shell command to run (passed to `sh -c`)"))];
                proof {
                    lemma_members_view(props@);
                    assert(members_view(props@) =~= seq![("command"@, string_argument("Shell command to run (passed to `sh -c`)"@))]);
                }
                let names = vec!["command"];
                proof {
                    assert(names@.map_values(|n: &str| n@) =~= seq!["command"@]);
                }
                let r = object_schema_value(props, Some(names));
                r
            },
        }
    }

    /// How dangerous running the tool is; the input of the permission check.
    pub fn risk(&self) -> (r: Risk)
        ensures
            r == tool_risk(*self),
    {
        match self {
            ToolKind::ReadFile => Risk::ReadOnly,
            ToolKind::WriteFile => Risk::Write,
            ToolKind::ListDir => Risk::ReadOnly,
            ToolKind::RunShell => Risk::Execute,
        }
    }

    /// The description of the tool that the model is told about.
    pub fn spec(&self) -> (r: ToolSpec)
        ensures
            r.kind@ == "function"@,
            r.function.name@ == tool_name(*self),
            r.function.description@ == tool_description(*self),
            r.function.parameters@ == tool_parameters(*self),
    {
        ToolSpec {
            kind: "function",
            function: ToolFunctionSpec {
                name: self.name().to_owned(),
                description: self.description().to_owned(),
                parameters: self.parameters(),
            },
        }
    }
}

/// A tool that the agent offers to the model.
pub trait Tool {
    /// Which of the built-in tools this is.
    spec fn tool_kind(&self) -> ToolKind;

    fn kind(&self) -> (k: ToolKind)
        ensures
            k == self.tool_kind(),
    ;

    fn name(&self) -> (r: &'static str)
        ensures
            r@ == tool_name(self.tool_kind()),
    {
        self.kind().name()
    }

    fn description(&self) -> (r: &'static str)
        ensures
            r@ == tool_description(self.tool_kind()),
    {
        self.kind().description()
    }

    /// The JSON schema of the tool's arguments.
    fn parameters(&self) -> (r: JsonValue)
        ensures
            r@ == tool_parameters(self.tool_kind()),
    {
        self.kind().parameters()
    }

    /// How dangerous running the tool is.
    fn risk(&self) -> (r: Risk)
        ensures
            r == tool_risk(self.tool_kind()),
    {
        self.kind().risk()
    }

    /// The description of the tool that the model is told about.
    fn spec(&self) -> (r: ToolSpec)
        ensures
            r.kind@ == "function"@,
            r.function.name@ == tool_name(self.tool_kind()),
            r.function.description@ == tool_description(self.tool_kind()),
            r.function.parameters@ == tool_parameters(self.tool_kind()),
    {
        self.kind().spec()
    }
}

impl Tool for ToolKind {
    open spec fn tool_kind(&self) -> ToolKind {
        *self
    }

    fn kind(&self) -> (k: ToolKind) {
        *self
    }
}

/// The first tool of `tools` with the given name.
pub open spec fn find_tool(tools: Seq<ToolKind>, name: Seq<char>) -> Option<ToolKind>
    decreases tools.len(),
{
    if tools.len() == 0 {
        None
    } else if tool_name(tools[0]) == name {
        Some(tools[0])
    } else {
        find_tool(tools.drop_first(), name)
    }
}

/// The built-in tools, in the order in which they are offered.
pub open spec fn builtin_tools() -> Seq<ToolKind> {
    seq![ToolKind::ReadFile, ToolKind::WriteFile, ToolKind::ListDir, ToolKind::RunShell]
}

/// The tools that are available, looked up by name.
#[derive(Debug)]
pub struct ToolRegistry {
    tools: Vec<ToolKind>,
}

impl View for ToolRegistry {
    type V = Seq<ToolKind>;

    closed spec fn view(&self) -> Seq<ToolKind> {
        self.tools@
    }
}

impl ToolRegistry {
    /// The registry of the built-in tools.
    pub fn builtin() -> (r: Self)
        ensures
            r@ == builtin_tools(),
    {
        let r = ToolRegistry {
            tools: vec![ToolKind::ReadFile, ToolKind::WriteFile, ToolKind::ListDir, ToolKind::RunShell],
        };
        assert(r@ =~= builtin_tools());
        r
    }

    /// The tool registered under `name`, if any.
    pub fn get(&self, name: &str) -> (r: Option<ToolKind>)
        ensures
            r == find_tool(self@, name@),
    {
        let mut i: usize = 0;
        assert(self.tools@.skip(0) =~= self.tools@);
        while i < self.tools.len()
            invariant
                i <= self.tools@.len(),
                find_tool(self.tools@, name@) == find_tool(self.tools@.skip(i as int), name@),
            decreases self.tools.len() - i,
        {
            let ghost rest = self.tools@.skip(i as int);
            assert(rest[0] == self.tools@[i as int]);
            if str_eq(self.tools[i].name(), name) {
                return Some(self.tools[i]);
            }
            assert(rest.drop_first() =~= self.tools@.skip(i + 1));
            i = i + 1;
        }
        None
    }

    /// The descriptions of all registered tools, in registration order.
    pub fn specs(&self) -> (r: Vec<ToolSpec>)
        ensures
            r@.len() == self@.len(),
            forall|i: int|
                0 <= i < r@.len() ==> {
                    &&& (#[trigger] r@[i]).kind@ == "function"@
                    &&& r@[i].function.name@ == tool_name(self@[i])
                    &&& r@[i].function.description@ == tool_description(self@[i])
                    &&& r@[i].function.parameters@ == tool_parameters(self@[i])
                },
    {
        let mut out: Vec<ToolSpec> = Vec::new();
        let mut i: usize = 0;
        while i < self.tools.len()
            invariant
                i <= self.tools@.len(),
                out@.len() == i,
                forall|k: int|
                    0 <= k < i ==> {
                        &&& (#[trigger] out@[k]).kind@ == "function"@
                        &&& out@[k].function.name@ == tool_name(self.tools@[k])
                        &&& out@[k].function.description@ == tool_description(self.tools@[k])
                        &&& out@[k].function.parameters@ == tool_parameters(self.tools@[k])
                    },
            decreases self.tools.len() - i,
        {
            out.push(self.tools[i].spec());
            i = i + 1;
        }
        out
    }
}

/// The string argument `key` of a tool call, if the arguments hold one.
pub open spec fn string_argument_of(args: JsonView, key: Seq<char>) -> Option<Seq<char>> {
    match args.get(key) {
        Some(v) => v.as_str(),
        None => None,
    }
}

/// The text of the error for a missing string argument.
pub open spec fn missing_argument_text(key: Seq<char>) -> Seq<char> {
    "missing required string argument `"@ + key + "`"@
}

/// The required string argument `key` of a tool call; an error for a call
/// that lacks it or gives it as something other than a string.
pub fn required_str<'a>(args: &'a JsonValue, key: &str) -> (r: Result<&'a str, MidnaError>)
    ensures
        match r {
            Ok(s) => string_argument_of(args@, key@) == Some(s@),
            Err(e) => string_argument_of(args@, key@) is None && (e matches MidnaError::Tool(m)
                && m@ == missing_argument_text(key@)),
        },
{
    match args.get(key) {
        Some(v) => match v.as_str() {
            Some(s) => {
                return Ok(s);
            },
            None => {},
        },
        None => {},
    }
    let mut m = "missing required string argument `".to_owned();
    m.append(key);
    m.append("`");
    Err(MidnaError::Tool(m))
}

/// The built-in tools have four different names, so each of them is found
/// under its own name, and a name that none of them has finds nothing.
pub proof fn law_builtin_tools_resolve_by_name(name: Seq<char>)
    ensures
        forall|k: ToolKind| #[trigger] find_tool(builtin_tools(), tool_name(k)) == Some(k),
        (forall|k: ToolKind| tool_name(k) != name) ==> find_tool(builtin_tools(), name) is None,
{
    reveal_strlit("read_file");
    reveal_strlit("write_file");
    reveal_strlit("list_dir");
    reveal_strlit("run_shell");
    reveal_with_fuel(find_tool, 5);
    let t = builtin_tools();
    assert(t.drop_first() =~= seq![ToolKind::WriteFile, ToolKind::ListDir, ToolKind::RunShell]);
    assert(t.drop_first().drop_first() =~= seq![ToolKind::ListDir, ToolKind::RunShell]);
    assert(t.drop_first().drop_first().drop_first() =~= seq![ToolKind::RunShell]);
    assert(t.drop_first().drop_first().drop_first().drop_first() =~= Seq::<ToolKind>::empty());
    assert("read_file"@.len() == 9 && "write_file"@.len() == 10 && "list_dir"@.len() == 8 && "run_shell"@.len() == 9);
    assert("read_file"@[1] == 'e' && "run_shell"@[1] == 'u');
    assert("read_file"@ != "write_file"@ && "read_file"@ != "list_dir"@ && "read_file"@ != "run_shell"@);
    assert("write_file"@ != "list_dir"@ && "write_file"@ != "run_shell"@);
    assert("list_dir"@ != "run_shell"@);
    assert forall|k: ToolKind| #[trigger] find_tool(builtin_tools(), tool_name(k)) == Some(k) by {
        match k {
            ToolKind::ReadFile => {},
            ToolKind::WriteFile => {},
            ToolKind::ListDir => {},
            ToolKind::RunShell => {},
        }
    }
    if forall|k: ToolKind| tool_name(k) != name {
        assert(tool_name(ToolKind::ReadFile) != name);
        assert(tool_name(ToolKind::WriteFile) != name);
        assert(tool_name(ToolKind::ListDir) != name);
        assert(tool_name(ToolKind::RunShell) != name);
    }
}

/// The arguments of every tool are described as a JSON object: the schema's
/// `type` member is `"object"`.
pub proof fn law_parameters_are_objects(k: ToolKind)
    ensures
        tool_parameters(k).get("type"@) == Some(JsonView::Str("object"@)),
{
}

/// Every schema names each member of each of its objects once.
pub proof fn law_parameters_well_formed(k: ToolKind)
    ensures
        json_well_formed(tool_parameters(k)),
{
    reveal_strlit("type");
    reveal_strlit("properties");
    reveal_strlit("required");
    reveal_strlit("description");
    reveal_strlit("path");
    reveal_strlit("content");
    assert("type"@.len() == 4 && "properties"@.len() == 10 && "required"@.len() == 8);
    assert("description"@.len() == 11 && "path"@.len() == 4 && "content"@.len() == 7);
    assert forall|d: Seq<char>| #[trigger] json_well_formed(string_argument(d)) by {
        let m = seq![("type"@, JsonView::Str("string"@)), ("description"@, JsonView::Str(d))];
        assert(distinct_keys(m));
        assert(json_well_formed(m[0].1) && json_well_formed(m[1].1));
    }
    let props = match k {
        ToolKind::ReadFile => seq![("path"@, string_argument("Path to the file to read"@))],
        ToolKind::WriteFile => seq![
            ("path"@, string_argument("Path to the file to write"@)),
            ("content"@, string_argument("Full content to write"@)),
        ],
        ToolKind::ListDir => seq![("path"@, string_argument("Directory path (defaults to '.')"@))],
        ToolKind::RunShell => seq![("command"@, string_argument("Shell command to run (passed to `sh -c`)"@))],
    };
    assert(distinct_keys(props));
    assert(forall|i: int| 0 <= i < props.len() ==> json_well_formed(#[trigger] props[i].1));
    assert(json_well_formed(JsonView::Object(props)));
    let required: Option<Seq<Seq<char>>> = match k {
        ToolKind::ReadFile => Some(seq!["path"@]),
        ToolKind::WriteFile => Some(seq!["path"@, "content"@]),
        ToolKind::ListDir => None,
        ToolKind::RunShell => Some(seq!["command"@]),
    };
    assert(tool_parameters(k) == object_schema(props, required));
    let head = seq![("type"@, JsonView::Str("object"@)), ("properties"@, JsonView::Object(props))];
    match required {
        Some(names) => {
            let items = names.map_values(|n: Seq<char>| JsonView::Str(n));
            let arr = JsonView::Array(items);
            assert forall|i: int| 0 <= i < items.len() implies json_well_formed(#[trigger] items[i]) by {
                assert(items[i] == JsonView::Str(names[i]));
            }
            assert(json_well_formed(arr));
            let m = head.push(("required"@, arr));
            assert(distinct_keys(m));
            assert(json_well_formed(m[0].1) && json_well_formed(m[1].1) && json_well_formed(m[2].1));
        },
        None => {
            assert(distinct_keys(head));
            assert(json_well_formed(head[0].1) && json_well_formed(head[1].1));
        },
    }
}

/// The work that a tool call asks for, with its arguments read.
#[derive(Debug)]
pub enum ToolRequest {
    ReadFile { path: String },
    WriteFile { path: String, content: String },
    ListDir { path: String },
    RunShell { command: String },
}

/// The work that a call of tool `k` with arguments `args` asks for, or the
/// text of the error for its first missing argument.
pub open spec fn requested_work(k: ToolKind, args: JsonView) -> Result<ToolRequestView, Seq<char>> {
    match k {
        ToolKind::ReadFile => match string_argument_of(args, "path"@) {
            Some(p) => Ok(ToolRequestView::ReadFile(p)),
            None => Err(missing_argument_text("path"@)),
        },
        ToolKind::WriteFile => match string_argument_of(args, "path"@) {
            Some(p) => match string_argument_of(args, "content"@) {
                Some(c) => Ok(ToolRequestView::WriteFile(p, c)),
                None => Err(missing_argument_text("content"@)),
            },
            None => Err(missing_argument_text("path"@)),
        },
        ToolKind::ListDir => match string_argument_of(args, "path"@) {
            Some(p) => Ok(ToolRequestView::ListDir(p)),
            None => Ok(ToolRequestView::ListDir("."@)),
        },
        ToolKind::RunShell => match string_argument_of(args, "command"@) {
            Some(c) => Ok(ToolRequestView::RunShell(c)),
            None => Err(missing_argument_text("command"@)),
        },
    }
}

/// A tool request as a mathematical value.
pub enum ToolRequestView {
    ReadFile(Seq<char>),
    WriteFile(Seq<char>, Seq<char>),
    ListDir(Seq<char>),
    RunShell(Seq<char>),
}

impl View for ToolRequest {
    type V = ToolRequestView;

    open spec fn view(&self) -> ToolRequestView {
        match self {
            ToolRequest::ReadFile { path } => ToolRequestView::ReadFile(path@),
            ToolRequest::WriteFile { path, content } => ToolRequestView::WriteFile(path@, content@),
            ToolRequest::ListDir { path } => ToolRequestView::ListDir(path@),
            ToolRequest::RunShell { command } => ToolRequestView::RunShell(command@),
        }
    }
}

impl ToolKind {
    /// Reads the arguments of a call of this tool: the work it asks for, or a
    /// tool error for the first required argument that is missing. A directory
    /// listing without a path lists the current directory.
    pub fn request(&self, args: &JsonValue) -> (r: Result<ToolRequest, MidnaError>)
        ensures
            match r {
                Ok(req) => requested_work(*self, args@) == Ok::<ToolRequestView, Seq<char>>(req@),
                Err(e) => requested_work(*self, args@) is Err && (e matches MidnaError::Tool(m)
                    && Err::<ToolRequestView, Seq<char>>(m@) == requested_work(*self, args@)),
            },
    {
        match self {
            ToolKind::ReadFile => {
                let path = required_str(args, "path")?;
                Ok(ToolRequest::ReadFile { path: path.to_owned() })
            },
            ToolKind::WriteFile => {
                let path = required_str(args, "path")?;
                let content = required_str(args, "content")?;
                Ok(ToolRequest::WriteFile { path: path.to_owned(), content: content.to_owned() })
            },
            ToolKind::ListDir => {
                let path = match args.get("path") {
                    Some(v) => match v.as_str() {
                        Some(p) => p,
                        None => ".",
                    },
                    None => ".",
                };
                Ok(ToolRequest::ListDir { path: path.to_owned() })
            },
            ToolKind::RunShell => {
                let command = required_str(args, "command")?;
                Ok(ToolRequest::RunShell { command: command.to_owned() })
            },
        }
    }
}

/// The names that a schema lists under `required`.
pub open spec fn required_names(schema: JsonView) -> Seq<Seq<char>> {
    match schema.get("required"@) {
        Some(JsonView::Array(items)) => items.map_values(
            |v: JsonView|
                match v {
                    JsonView::Str(name) => name,
                    _ => Seq::empty(),
                },
        ),
        _ => Seq::empty(),
    }
}

/// The names of the arguments that a schema describes under `properties`, in order.
pub open spec fn property_names(schema: JsonView) -> Seq<Seq<char>> {
    match schema.get("properties"@) {
        Some(JsonView::Object(members)) => members.map_values(|m: (Seq<char>, JsonView)| m.0),
        _ => Seq::empty(),
    }
}

/// The tool that a request is for.
pub open spec fn request_tool(req: ToolRequestView) -> ToolKind {
    match req {
        ToolRequestView::ReadFile(_) => ToolKind::ReadFile,
        ToolRequestView::WriteFile(_, _) => ToolKind::WriteFile,
        ToolRequestView::ListDir(_) => ToolKind::ListDir,
        ToolRequestView::RunShell(_) => ToolKind::RunShell,
    }
}

/// The argument values that a request carries, in the order of its fields.
pub open spec fn request_arguments(req: ToolRequestView) -> Seq<Seq<char>> {
    match req {
        ToolRequestView::ReadFile(p) => seq![p],
        ToolRequestView::WriteFile(p, c) => seq![p, c],
        ToolRequestView::ListDir(p) => seq![p],
        ToolRequestView::RunShell(c) => seq![c],
    }
}

proof fn lemma_schema_names(k: ToolKind)
    ensures
        required_names(tool_parameters(k)) == match k {
            ToolKind::ReadFile => seq!["path"@],
            ToolKind::WriteFile => seq!["path"@, "content"@],
            ToolKind::ListDir => Seq::<Seq<char>>::empty(),
            ToolKind::RunShell => seq!["command"@],
        },
        property_names(tool_parameters(k)) == match k {
            ToolKind::ReadFile => seq!["path"@],
            ToolKind::WriteFile => seq!["path"@, "content"@],
            ToolKind::ListDir => seq!["path"@],
            ToolKind::RunShell => seq!["command"@],
        },
{
    reveal_strlit("type");
    reveal_strlit("properties");
    reveal_strlit("required");
    assert("type"@.len() == 4 && "properties"@.len() == 10 && "required"@.len() == 8);
    reveal_with_fuel(crate::json::lookup, 4);
    let props = match k {
        ToolKind::ReadFile => seq![("path"@, string_argument("Path to the file to read"@))],
        ToolKind::WriteFile => seq![
            ("path"@, string_argument("Path to the file to write"@)),
            ("content"@, string_argument("Full content to write"@)),
        ],
        ToolKind::ListDir => seq![("path"@, string_argument("Directory path (defaults to '.')"@))],
        ToolKind::RunShell => seq![("command"@, string_argument("Shell command to run (passed to `sh -c`)"@))],
    };
    assert(property_names(tool_parameters(k)) =~= props.map_values(|m: (Seq<char>, JsonView)| m.0));
    match k {
        ToolKind::ReadFile => {
            let names = seq!["path"@];
            assert(required_names(tool_parameters(k)) =~= names.map_values(|n: Seq<char>| JsonView::Str(n)).map_values(
                |v: JsonView| match v { JsonView::Str(name) => name, _ => Seq::empty() },
            ));
        },
        ToolKind::WriteFile => {
            let names = seq!["path"@, "content"@];
            assert(required_names(tool_parameters(k)) =~= names.map_values(|n: Seq<char>| JsonView::Str(n)).map_values(
                |v: JsonView| match v { JsonView::Str(name) => name, _ => Seq::empty() },
            ));
        },
        ToolKind::ListDir => {},
        ToolKind::RunShell => {
            let names = seq!["command"@];
            assert(required_names(tool_parameters(k)) =~= names.map_values(|n: Seq<char>| JsonView::Str(n)).map_values(
                |v: JsonView| match v { JsonView::Str(name) => name, _ => Seq::empty() },
            ));
        },
    }
    assert(property_names(tool_parameters(k)) =~= match k {
        ToolKind::ReadFile => seq!["path"@],
        ToolKind::WriteFile => seq!["path"@, "content"@],
        ToolKind::ListDir => seq!["path"@],
        ToolKind::RunShell => seq!["command"@],
    });
}

/// A call of a tool goes through exactly when it gives, as a string, every
/// argument that the tool's own schema lists as required; when it does not,
/// the error names a required argument that is missing.
pub proof fn law_request_needs_exactly_the_required_arguments(k: ToolKind, args: JsonView)
    ensures
        requested_work(k, args) is Ok <==> forall|i: int|
            0 <= i < required_names(tool_parameters(k)).len() ==> string_argument_of(
                args,
                #[trigger] required_names(tool_parameters(k))[i],
            ) is Some,
        requested_work(k, args) matches Err(m) ==> exists|i: int|
            0 <= i < required_names(tool_parameters(k)).len() && string_argument_of(
                args,
                #[trigger] required_names(tool_parameters(k))[i],
            ) is None && m == missing_argument_text(required_names(tool_parameters(k))[i]),
{
    lemma_schema_names(k);
    let req = required_names(tool_parameters(k));
    match k {
        ToolKind::ReadFile => {
            assert(req[0] == "path"@);
        },
        ToolKind::WriteFile => {
            assert(req[0] == "path"@ && req[1] == "content"@);
        },
        ToolKind::ListDir => {},
        ToolKind::RunShell => {
            assert(req[0] == "command"@);
        },
    }
}

/// A request that goes through is for the tool that was called, and carries
/// the arguments under the names that the tool's schema describes, in the
/// schema's order: wherever the call gives an advertised argument as a string,
/// the request holds that string.
pub proof fn law_request_carries_the_advertised_arguments(k: ToolKind, args: JsonView)
    ensures
        requested_work(k, args) matches Ok(req) ==> {
            &&& request_tool(req) == k
            &&& request_arguments(req).len() == property_names(tool_parameters(k)).len()
            &&& forall|j: int|
                0 <= j < property_names(tool_parameters(k)).len() && string_argument_of(
                    args,
                    #[trigger] property_names(tool_parameters(k))[j],
                ) is Some ==> request_arguments(req)[j] == string_argument_of(
                    args,
                    property_names(tool_parameters(k))[j],
                ).unwrap()
        },
{
    lemma_schema_names(k);
}

/// Every argument that a schema requires is one that it describes.
pub proof fn law_required_arguments_are_described(k: ToolKind)
    ensures
        forall|i: int|
            0 <= i < required_names(tool_parameters(k)).len() ==> property_names(
                tool_parameters(k),
            ).contains(#[trigger] required_names(tool_parameters(k))[i]),
{
    lemma_schema_names(k);
    let props = property_names(tool_parameters(k));
    match k {
        ToolKind::WriteFile => {
            assert(props[0] == "path"@ && props[1] == "content"@);
        },
        _ => {
            assert(props.len() > 0 ==> props[0] == props[0]);
        },
    }
    assert forall|i: int| 0 <= i < required_names(tool_parameters(k)).len() implies props.contains(
        #[trigger] required_names(tool_parameters(k))[i],
    ) by {
        assert(props[i] == required_names(tool_parameters(k))[i]);
    }
}

} // verus!
