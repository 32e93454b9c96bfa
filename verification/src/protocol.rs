//! The JSON-RPC side of the tool protocol: method routing, error codes and
//! messages, and the catalogue of tools that both `tools/list` and
//! `tools/call` are answered from. Reading and writing JSON is done by the
//! engine side; this module decides what goes into it.
use crate::text::{prefixed, same_text};
use vstd::prelude::*;

verus! {

/// JSON-RPC version string of every response.
pub const JSONRPC_VERSION: &'static str = "2.0";

/// Protocol version announced on `initialize`.
pub const PROTOCOL_VERSION: &'static str = "2024-11-05";

/// Server name announced on `initialize`.
pub const SERVER_NAME: &'static str = "ai-native-engine";

/// Server version announced on `initialize`.
pub const SERVER_VERSION: &'static str = "0.1.0";

/// Error code of a request line that is not valid JSON-RPC.
pub const PARSE_ERROR: i32 = -32700;

/// Error code of an unknown method.
pub const METHOD_NOT_FOUND: i32 = -32601;

/// Error code of a call to an unknown tool.
pub const INVALID_PARAMS: i32 = -32602;

/// Error code of a failure to reach the engine.
pub const INTERNAL_ERROR: i32 = -32603;

/// Message of an internal error when the command could not be handed to the engine.
pub const SEND_FAILED_MESSAGE: &'static str = "Failed to send command to engine";

/// Message of an internal error when the engine did not answer.
pub const RECEIVE_FAILED_MESSAGE: &'static str = "Failed to receive response from engine";

/// What a request method asks for.
#[derive(PartialEq, Eq, Structural, Clone, Copy, Debug)]
pub enum RpcRoute {
    Initialize,
    ListTools,
    CallTool,
    Unknown,
}

/// The route of a method name.
pub open spec fn route_for(method: Seq<char>) -> RpcRoute {
    if method == "initialize"@ {
        RpcRoute::Initialize
    } else if method == "tools/list"@ {
        RpcRoute::ListTools
    } else if method == "tools/call"@ {
        RpcRoute::CallTool
    } else {
        RpcRoute::Unknown
    }
}

/// Route a request by its method name.
pub fn route_method(method: &str) -> (r: RpcRoute)
    ensures
        r == route_for(method@),
{
    if same_text(method, "initialize") {
        RpcRoute::Initialize
    } else if same_text(method, "tools/list") {
        RpcRoute::ListTools
    } else if same_text(method, "tools/call") {
        RpcRoute::CallTool
    } else {
        RpcRoute::Unknown
    }
}

/// Message of the error answered to an unknown method.
pub fn method_not_found_message(method: &str) -> (r: String)
    ensures
        r@ == "Method not found: "@ + method@,
{
    prefixed("Method not found: ", method)
}

/// Message of the error answered to a call of an unknown tool.
pub fn unknown_tool_message(tool: &str) -> (r: String)
    ensures
        r@ == "Unknown tool: "@ + tool@,
{
    prefixed("Unknown tool: ", tool)
}

/// Message of the error answered to a line that does not parse, given the
/// parser's description of the problem.
pub fn parse_error_message(detail: &str) -> (r: String)
    ensures
        r@ == "Parse error: "@ + detail@,
{
    prefixed("Parse error: ", detail)
}

/// Why a request is answered with an error.
#[derive(PartialEq, Eq, Structural, Clone, Copy, Debug)]
pub enum RpcFailure {
    /// The line is not a valid request; the detail is the parser's description.
    Unparsable,
    /// The method is unknown; the detail is the method.
    UnknownMethod,
    /// The called tool is unknown; the detail is the tool name.
    UnknownTool,
    /// The command could not be handed to the engine.
    SendFailed,
    /// The engine did not answer.
    ReceiveFailed,
}

/// Code and message of an error answer.
pub struct RpcErrorReply {
    pub code: i32,
    pub message: String,
}

/// The error answer for a failure, given its detail (unused where the message is fixed).
pub fn error_reply(failure: RpcFailure, detail: &str) -> (r: RpcErrorReply)
    ensures
        match failure {
            RpcFailure::Unparsable => r.code == PARSE_ERROR && r.message@ == "Parse error: "@ + detail@,
            RpcFailure::UnknownMethod => r.code == METHOD_NOT_FOUND && r.message@ == "Method not found: "@
                + detail@,
            RpcFailure::UnknownTool => r.code == INVALID_PARAMS && r.message@ == "Unknown tool: "@ + detail@,
            RpcFailure::SendFailed => r.code == INTERNAL_ERROR && r.message@ == SEND_FAILED_MESSAGE@,
            RpcFailure::ReceiveFailed => r.code == INTERNAL_ERROR && r.message@ == RECEIVE_FAILED_MESSAGE@,
        },
{
    match failure {
        RpcFailure::Unparsable => RpcErrorReply { code: PARSE_ERROR, message: parse_error_message(detail) },
        RpcFailure::UnknownMethod => RpcErrorReply {
            code: METHOD_NOT_FOUND,
            message: method_not_found_message(detail),
        },
        RpcFailure::UnknownTool => RpcErrorReply { code: INVALID_PARAMS, message: unknown_tool_message(detail) },
        RpcFailure::SendFailed => RpcErrorReply {
            code: INTERNAL_ERROR,
            message: String::from_str(SEND_FAILED_MESSAGE),
        },
        RpcFailure::ReceiveFailed => RpcErrorReply {
            code: INTERNAL_ERROR,
            message: String::from_str(RECEIVE_FAILED_MESSAGE),
        },
    }
}

/// How a tool argument is read from the call's arguments.
pub enum ArgKind {
    /// A string, with the text used when it is missing.
    Text(&'static str),
    /// A number, with the value used when it is missing.
    Number(u32),
}

/// One argument of a tool.
pub struct ToolArg {
    pub key: &'static str,
    pub kind: ArgKind,
}

/// A tool that the engine offers. Its command has the tool's name.
pub struct ToolSpec {
    pub name: &'static str,
    pub description: &'static str,
    pub args: Vec<ToolArg>,
}

/// Abstract shape of an argument: its key, and its default text or number.
pub enum ArgShape {
    Text(Seq<char>, Seq<char>),
    Number(Seq<char>, u32),
}

/// Abstract shape of a tool: name, description and arguments.
pub struct ToolShape {
    pub name: Seq<char>,
    pub description: Seq<char>,
    pub args: Seq<ArgShape>,
}

/// The shape of an argument.
pub open spec fn arg_shape(a: ToolArg) -> ArgShape {
    match a.kind {
        ArgKind::Text(d) => ArgShape::Text(a.key@, d@),
        ArgKind::Number(n) => ArgShape::Number(a.key@, n),
    }
}

/// The shape of a tool.
pub open spec fn tool_shape(t: ToolSpec) -> ToolShape {
    ToolShape { name: t.name@, description: t.description@, args: t.args@.map_values(|a: ToolArg| arg_shape(a)) }
}

/// A text argument that defaults to the empty text.
pub open spec fn text_arg(key: Seq<char>) -> ArgShape {
    ArgShape::Text(key, ""@)
}

/// A numeric argument.
pub open spec fn number_arg(key: Seq<char>, default: u32) -> ArgShape {
    ArgShape::Number(key, default)
}

/// A name and a position, each coordinate defaulting to `d`.
pub open spec fn name_and_xyz(d: u32) -> Seq<ArgShape> {
    seq![text_arg("name"@), number_arg("x"@, d), number_arg("y"@, d), number_arg("z"@, d)]
}

/// The tools, in the order in which they are listed.
pub open spec fn catalog() -> Seq<ToolShape> {
    seq![
        ToolShape {
            name: "create_entity"@,
            description: "Create a named empty entity at the origin"@,
            args: seq![text_arg("name"@)],
        },
        ToolShape {
            name: "delete_entity"@,
            description: "Delete an entity by name"@,
            args: seq![text_arg("name"@)],
        },
        ToolShape {
            name: "set_transform"@,
            description: "Move an entity to a new position"@,
            args: name_and_xyz(0),
        },
        ToolShape {
            name: "rotate_entity"@,
            description: "Rotate an entity (degrees)"@,
            args: name_and_xyz(0),
        },
        ToolShape { name: "scale_entity"@, description: "Scale an entity"@, args: name_and_xyz(1) },
        ToolShape {
            name: "create_cube"@,
            description: "Create a colored cube at a position"@,
            args: name_and_xyz(0).push(ArgShape::Text("color"@, "gray"@)),
        },
        ToolShape {
            name: "create_light"@,
            description: "Create a point light at a position"@,
            args: name_and_xyz(0).push(number_arg("intensity"@, 1000000)),
        },
        ToolShape {
            name: "create_camera"@,
            description: "Create a camera at a position"@,
            args: name_and_xyz(0),
        },
        ToolShape {
            name: "list_entities"@,
            description: "List all entities in the scene"@,
            args: Seq::empty(),
        },
        ToolShape {
            name: "screenshot"@,
            description: "Capture the current rendered frame"@,
            args: Seq::empty(),
        },
    ]
}

fn text(key: &'static str) -> (r: ToolArg)
    ensures
        arg_shape(r) == text_arg(key@),
{
    ToolArg { key, kind: ArgKind::Text("") }
}

fn number(key: &'static str, default: u32) -> (r: ToolArg)
    ensures
        arg_shape(r) == number_arg(key@, default),
{
    ToolArg { key, kind: ArgKind::Number(default) }
}

fn name_xyz(d: u32) -> (r: Vec<ToolArg>)
    ensures
        r@.map_values(|a: ToolArg| arg_shape(a)) == name_and_xyz(d),
{
    let r = vec![text("name"), number("x", d), number("y", d), number("z", d)];
    assert(r@.map_values(|a: ToolArg| arg_shape(a)) =~= name_and_xyz(d));
    r
}

fn tool(name: &'static str, description: &'static str, args: Vec<ToolArg>) -> (r: ToolSpec)
    ensures
        r.name == name,
        r.description == description,
        r.args == args,
{
    ToolSpec { name, description, args }
}

/// Every tool the engine offers, in listing order.
pub fn tool_catalog() -> (r: Vec<ToolSpec>)
    ensures
        r@.map_values(|t: ToolSpec| tool_shape(t)) == catalog(),
{
    let mut cube = name_xyz(0);
    cube.push(ToolArg { key: "color", kind: ArgKind::Text("gray") });
    let mut light = name_xyz(0);
    light.push(number("intensity", 1000000));
    let r = vec![
        tool("create_entity", "Create a named empty entity at the origin", vec![text("name")]),
        tool("delete_entity", "Delete an entity by name", vec![text("name")]),
        tool("set_transform", "Move an entity to a new position", name_xyz(0)),
        tool("rotate_entity", "Rotate an entity (degrees)", name_xyz(0)),
        tool("scale_entity", "Scale an entity", name_xyz(1)),
        tool("create_cube", "Create a colored cube at a position", cube),
        tool("create_light", "Create a point light at a position", light),
        tool("create_camera", "Create a camera at a position", name_xyz(0)),
        tool("list_entities", "List all entities in the scene", Vec::new()),
        tool("screenshot", "Capture the current rendered frame", Vec::new()),
    ];
    proof {
        let got = r@.map_values(|t: ToolSpec| tool_shape(t));
        let want = catalog();
        assert(got.len() == want.len());
        assert forall|i: int| 0 <= i < want.len() implies #[trigger] got[i] == want[i] by {
            assert(r@[i].args@.map_values(|a: ToolArg| arg_shape(a)) =~= want[i].args);
        }
        assert(got =~= want);
    }
    r
}

/// The tool called `name`, if there is one.
pub fn find_tool(name: &str) -> (r: Option<ToolSpec>)
    ensures
        match r {
            Some(t) => exists|i: int| 0 <= i < catalog().len() && catalog()[i].name == name@
                && #[trigger] tool_shape(t) == catalog()[i],
            None => forall|i: int| 0 <= i < catalog().len() ==> #[trigger] catalog()[i].name != name@,
        },
{
    let mut tools = tool_catalog();
    let ghost all = tools@;
    let mut i: usize = 0;
    while i < tools.len()
        invariant
            i <= tools.len(),
            tools@ == all,
            all.map_values(|t: ToolSpec| tool_shape(t)) == catalog(),
            forall|j: int| 0 <= j < i ==> #[trigger] catalog()[j].name != name@,
        decreases tools.len() - i,
    {
        if same_text(tools[i].name, name) {
            assert(tool_shape(all[i as int]) == catalog()[i as int]);
            let t = tools.swap_remove(i);
            return Some(t);
        }
        assert(tool_shape(all[i as int]) == catalog()[i as int]);
        i = i + 1;
    }
    None
}

/// The catalogue lists ten tools, no two with the same name, so a call names at
/// most one of them.
pub proof fn law_catalog_names_distinct()
    ensures
        catalog().len() == 10,
        forall|i: int, j: int|
            0 <= i < catalog().len() && 0 <= j < catalog().len() && i != j ==> #[trigger] catalog()[i].name
                != #[trigger] catalog()[j].name,
{
    reveal_strlit("create_entity");
    reveal_strlit("delete_entity");
    reveal_strlit("set_transform");
    reveal_strlit("rotate_entity");
    reveal_strlit("scale_entity");
    reveal_strlit("create_cube");
    reveal_strlit("create_light");
    reveal_strlit("create_camera");
    reveal_strlit("list_entities");
    reveal_strlit("screenshot");
    let c = catalog();
    assert forall|i: int, j: int|
        0 <= i < c.len() && 0 <= j < c.len() && i != j implies #[trigger] c[i].name != #[trigger] c[j].name by {
        if c[i].name == c[j].name {
            assert(c[i].name.len() == c[j].name.len());
            assert(c[i].name[0] == c[j].name[0]);
            assert(c[i].name[1] == c[j].name[1]);
            assert(c[i].name[7] == c[j].name[7]);
        }
    }
}

} // verus!
