//! Tools of MCP servers, reached through the editor's MCP hub: the tools it
//! lists, what is sent to run one, and how a failure is reported.
use vstd::prelude::*;

use crate::text::push_char;

verus! {

broadcast use vstd::string::group_string_axioms;

/// The script that runs a tool, up to the arguments.
pub const SCRIPT_HEAD: &'static str = "\nlocal mcphub = require('mcphub').get_hub_instance()\nif not mcphub then\n    resolve({error = \"MCPHub instance not available\"})\n    return\nend\nlocal args = vim.fn.json_decode(\"";

/// The script, from the arguments to the server's name.
pub const SCRIPT_BEFORE_SERVER: &'static str = "\")\nlocal shared = require(\"mcphub.extensions.shared\")\nlocal params = shared.parse_params({server_name = \"";

/// The script, from the server's name to the tool's name.
pub const SCRIPT_BEFORE_TOOL: &'static str = "\", tool_name = \"";

/// The script, after the tool's name.
pub const SCRIPT_TAIL: &'static str = "\", tool_input = args}, \"use_mcp_tool\")\nif not params.is_auto_approved_in_server then\n    local args_str = vim.fn.json_encode(params.arguments)\n    local choice = vim.fn.confirm(\"Run \" .. params.server_name .. \".\" .. params.tool_name .. \"?\\nArgs: \" .. args_str, \"&Yes\\n&No\", 1)\n    if choice ~= 1 then\n        resolve({error = \"User denied the tool run\"})\n        return\n    end\nend\n\nlocal opts = {parse_response = true, callback = function(response, err)\n    if err and err ~= \"\" then\n        resolve({error = err})\n        return\n    end\n    resolve({response = response})\nend}\nmcphub:call_tool(params.server_name, params.tool_name, params.arguments, opts)\n";

/// A tool of an MCP server, as the hub lists it.
#[derive(Debug)]
pub struct McpHubCaller {
    server_name: String,
    tool_name: String,
    description: String,
    input_schema: serde_json::Value,
}

/// A tool as the hub's listing describes it: each field, when it is there
/// (and, but for the schema, a string).
#[derive(Debug)]
pub struct McpToolEntry {
    pub server_name: Option<String>,
    pub name: Option<String>,
    pub description: Option<String>,
    pub input_schema: Option<serde_json::Value>,
}

/// Why an entry of the listing cannot be used, if it cannot: the first
/// missing field among the server's name, the tool's name and the schema.
pub open spec fn entry_error(e: McpToolEntry) -> Option<Seq<char>> {
    if e.server_name is None {
        Some("Missing server_name"@)
    } else if e.name is None {
        Some("Missing name"@)
    } else if e.input_schema is None {
        Some("Missing inputSchema"@)
    } else {
        None
    }
}

/// The error of the first entry among `es` that cannot be used.
pub open spec fn first_entry_error(es: Seq<McpToolEntry>) -> Option<Seq<char>>
    decreases es.len(),
{
    if es.len() == 0 {
        None
    } else {
        match first_entry_error(es.drop_last()) {
            Some(m) => Some(m),
            None => entry_error(es.last()),
        }
    }
}

/// Whether `c` is the tool that entry `e` lists.
pub open spec fn caller_of(c: McpHubCaller, e: McpToolEntry) -> bool {
    &&& e.server_name matches Some(s) && c.server() == s@
    &&& e.name matches Some(n) && c.tool() == n@
    &&& c.description() == match e.description {
        Some(d) => d@,
        None => Seq::<char>::empty(),
    }
    &&& e.input_schema matches Some(v) && c.input_schema() == v
}

/// A character as it stands inside a double-quoted Lua string: `\` and `"`
/// behind a backslash.
pub open spec fn lua_escape_char(c: char) -> Seq<char> {
    if c == '\\' {
        seq!['\\', '\\']
    } else if c == '"' {
        seq!['\\', '"']
    } else {
        seq![c]
    }
}

/// Text as it stands inside a double-quoted Lua string.
pub open spec fn lua_escaped(s: Seq<char>) -> Seq<char>
    decreases s.len(),
{
    if s.len() == 0 {
        seq![]
    } else {
        lua_escaped(s.drop_last()) + lua_escape_char(s.last())
    }
}

/// `s` escaped for a double-quoted Lua string: each `\` doubled, then each
/// `"` behind a backslash.
pub fn lua_escape(s: &str) -> (r: String)
    ensures
        r@ == lua_escaped(s@),
{
    let chars = crate::text::to_chars(s);
    let mut out = String::new();
    let mut i: usize = 0;
    while i < chars.len()
        invariant
            i <= chars@.len(),
            chars@ == s@,
            out@ == lua_escaped(s@.take(i as int)),
        decreases chars@.len() - i,
    {
        let c = chars[i];
        if c == '\\' {
            push_char(&mut out, '\\');
            push_char(&mut out, '\\');
        } else if c == '"' {
            push_char(&mut out, '\\');
            push_char(&mut out, '"');
        } else {
            push_char(&mut out, c);
        }
        assert(s@.take(i + 1).drop_last() =~= s@.take(i as int));
        i += 1;
        assert(out@ =~= lua_escaped(s@.take(i as int)));
    }
    assert(s@.take(chars@.len() as int) =~= s@);
    out
}

impl McpHubCaller {
    /// The server's name.
    pub closed spec fn server(&self) -> Seq<char> {
        self.server_name@
    }

    /// The tool's name on its server.
    pub closed spec fn tool(&self) -> Seq<char> {
        self.tool_name@
    }

    /// What the tool does.
    pub closed spec fn description(&self) -> Seq<char> {
        self.description@
    }

    /// The JSON schema of its arguments.
    pub closed spec fn input_schema(&self) -> serde_json::Value {
        self.input_schema
    }

    /// The tool named `tool_name` of server `server_name`.
    pub fn new(
        server_name: String,
        tool_name: String,
        description: String,
        input_schema: serde_json::Value,
    ) -> (r: McpHubCaller)
        ensures
            r.server() == server_name@,
            r.tool() == tool_name@,
            r.description() == description@,
            r.input_schema() == input_schema,
    {
        McpHubCaller { server_name, tool_name, description, input_schema }
    }

    /// The tools of the hub's listing, in order (`None` when the listing is
    /// not a list); the first entry that cannot be used makes it an error.
    pub fn from_mcp_tools(entries: Option<Vec<McpToolEntry>>) -> (r: Result<Vec<McpHubCaller>, String>)
        ensures
            match entries {
                None => r matches Err(m) && m@ == "Tools is not an array"@,
                Some(es) => match first_entry_error(es@) {
                    Some(m) => r matches Err(x) && x@ == m,
                    None => r matches Ok(v) && v@.len() == es@.len() && forall|k: int|
                        0 <= k < v@.len() ==> #[trigger] caller_of(v@[k], es@[k]),
                },
            },
    {
        let mut rest = match entries {
            None => {
                return Err("Tools is not an array".to_string());
            },
            Some(es) => es,
        };
        let total = rest.len();
        let ghost all = rest@;
        assert(all.len() == total);
        let mut out: Vec<McpHubCaller> = Vec::new();
        let mut i: usize = 0;
        while rest.len() > 0
            invariant
                entries matches Some(es) && es@ == all,
                all.len() <= usize::MAX,
                i + rest@.len() == all.len(),
                rest@ == all.skip(i as int),
                first_entry_error(all.take(i as int)) is None,
                out@.len() == i,
                forall|k: int| 0 <= k < i ==> #[trigger] caller_of(out@[k], all[k]),
            decreases rest@.len(),
        {
            let e = rest.remove(0);
            assert(e == all[i as int]);
            assert(all.take(i + 1).drop_last() =~= all.take(i as int));
            let server_name = match e.server_name {
                Some(s) => s,
                None => {
                    proof {
                        lemma_first_error_extends(all, i as int);
                    }
                    return Err("Missing server_name".to_string());
                },
            };
            let tool_name = match e.name {
                Some(n) => n,
                None => {
                    proof {
                        lemma_first_error_extends(all, i as int);
                    }
                    return Err("Missing name".to_string());
                },
            };
            let description = match e.description {
                Some(d) => d,
                None => String::new(),
            };
            let input_schema = match e.input_schema {
                Some(v) => v,
                None => {
                    proof {
                        lemma_first_error_extends(all, i as int);
                    }
                    return Err("Missing inputSchema".to_string());
                },
            };
            out.push(McpHubCaller::new(server_name, tool_name, description, input_schema));
            assert(rest@ =~= all.skip(i + 1));
            i += 1;
        }
        assert(all.take(all.len() as int) =~= all);
        Ok(out)
    }

    /// The tool's name for the model: `server.tool`.
    pub fn name(&self) -> (r: String)
        ensures
            r@ == self.server() + "."@ + self.tool(),
    {
        let mut s = self.server_name.clone();
        s.append(".");
        s.append(self.tool_name.as_str());
        s
    }

    /// The script that runs the tool on the hub with the arguments given as
    /// JSON text: they are decoded there, the user confirms unless the
    /// server approves the tool, and the response or the error is resolved.
    pub fn call_script(&self, args_json: &str) -> (r: String)
        ensures
            r@ == SCRIPT_HEAD@ + lua_escaped(args_json@) + SCRIPT_BEFORE_SERVER@ + self.server()
                + SCRIPT_BEFORE_TOOL@ + self.tool() + SCRIPT_TAIL@,
    {
        let mut s = SCRIPT_HEAD.to_string();
        s.append(lua_escape(args_json).as_str());
        s.append(SCRIPT_BEFORE_SERVER);
        s.append(self.server_name.as_str());
        s.append(SCRIPT_BEFORE_TOOL);
        s.append(self.tool_name.as_str());
        s.append(SCRIPT_TAIL);
        s
    }

    /// The error reported when the hub answers with `error`.
    pub fn failure_message(&self, error: &str) -> (r: String)
        ensures
            r@ == "MCP tool "@ + self.server() + ":"@ + self.tool() + " failed: "@ + error@,
    {
        let mut s = "MCP tool ".to_string();
        s.append(self.server_name.as_str());
        s.append(":");
        s.append(self.tool_name.as_str());
        s.append(" failed: ");
        s.append(error);
        s
    }
}

/// When entry `i` cannot be used and the ones before it can, it is the
/// first error of the listing.
proof fn lemma_first_error_extends(all: Seq<McpToolEntry>, i: int)
    requires
        0 <= i < all.len(),
        first_entry_error(all.take(i)) is None,
        entry_error(all[i]) is Some,
    ensures
        first_entry_error(all) == entry_error(all[i]),
    decreases all.len() - i,
{
    lemma_first_error_prefix(all, i + 1);
    assert(all.take(i + 1).drop_last() =~= all.take(i));
}

/// The first error of a listing is that of its first `n` entries once they
/// have one.
proof fn lemma_first_error_prefix(all: Seq<McpToolEntry>, n: int)
    requires
        0 <= n <= all.len(),
        first_entry_error(all.take(n)) is Some,
    ensures
        first_entry_error(all) == first_entry_error(all.take(n)),
    decreases all.len() - n,
{
    if n == all.len() {
        assert(all.take(n) =~= all);
    } else {
        assert(all.take(n + 1).drop_last() =~= all.take(n));
        lemma_first_error_prefix(all, n + 1);
    }
}

} // verus!
