//! The Model Context Protocol server: its message types, its registries of tools, resources
//! and prompts, and how it answers a request.
//!
//! The server decides; running a tool is left to the caller, which holds the tool handlers:
//! a `tools/call` request for a known tool is answered with `McpOutcome::RunTool`, and the
//! handler's result is turned into the reply by `tool_call_result`.
use vstd::prelude::*;
use crate::assoc::{find, index_of, lemma_index_of, lemma_index_of_is, lemma_index_of_none, position_of, string_keyed};
use crate::auto_takeover::{debug_str, str_debug_text};
use crate::text::{owned, pairs_view, push_str, string_of, str_eq};

verus! {

#[verifier::external_type_specification]
#[verifier::external_body]
pub struct ExJsonValue(serde_json::Value);

/// The protocol version this server speaks.
pub const MCP_VERSION: &'static str = "2025-11-25";

/// A tool the server offers.
pub struct McpTool {
    pub name: String,
    pub description: String,
    pub input_schema: serde_json::Value,
}

/// A resource the server offers.
pub struct McpResource {
    pub uri: String,
    pub name: String,
    pub description: String,
    pub mime_type: String,
}

/// A prompt template the server offers.
pub struct McpPrompt {
    pub name: String,
    pub description: String,
    pub arguments: Vec<McpPromptArgument>,
}

/// An argument of a prompt template.
pub struct McpPromptArgument {
    pub name: String,
    pub description: String,
    pub required: bool,
}

/// Who is connecting.
pub struct ClientInfo {
    pub name: String,
    pub version: String,
}

/// A request to the server.
pub enum McpRequest {
    Initialize { protocol_version: String, capabilities: serde_json::Value, client_info: ClientInfo },
    ToolsList,
    ToolsCall { name: String, arguments: Option<serde_json::Value> },
    ResourcesList,
    ResourcesRead { uri: String },
    PromptsList,
    PromptsGet { name: String, arguments: Option<Vec<(String, String)>> },
}

/// What the server can do.
pub struct ServerCapabilities {
    pub tools: Option<ToolsCapability>,
    pub resources: Option<ResourcesCapability>,
    pub prompts: Option<PromptsCapability>,
}

/// Tool capabilities.
pub struct ToolsCapability {
    pub list_changed: Option<bool>,
}

/// Resource capabilities.
pub struct ResourcesCapability {
    pub subscribe: Option<bool>,
    pub list_changed: Option<bool>,
}

/// Prompt capabilities.
pub struct PromptsCapability {
    pub list_changed: Option<bool>,
}

/// The server's name and version.
pub struct ServerInfo {
    pub name: String,
    pub version: String,
}

/// A piece of tool output.
pub struct ToolContent {
    pub content_type: String,
    pub text: String,
}

/// The contents of a resource.
pub struct ResourceContent {
    pub uri: String,
    pub mime_type: String,
    pub text: Option<String>,
    /// Base64 encoded.
    pub blob: Option<String>,
}

/// A message of a prompt.
pub struct PromptMessage {
    pub role: String,
    pub content: PromptContent,
}

/// The content of a prompt message.
pub struct PromptContent {
    pub content_type: String,
    pub text: String,
}

/// A reply of the server.
pub enum McpResponse {
    Initialize { protocol_version: String, capabilities: ServerCapabilities, server_info: ServerInfo },
    ToolsList { tools: Vec<McpTool> },
    ToolsCallResult { content: Vec<ToolContent>, is_error: Option<bool> },
    ResourcesList { resources: Vec<McpResource> },
    ResourcesRead { contents: Vec<ResourceContent> },
    PromptsList { prompts: Vec<McpPrompt> },
    PromptsGet { description: String, messages: Vec<PromptMessage> },
}

/// What the server makes of a request: a reply, or a tool for the caller to run.
pub enum McpOutcome {
    Respond(McpResponse),
    RunTool { name: String, arguments: Option<serde_json::Value> },
}

// ---------------------------------------------------------------- views

/// The view of a tool: its name, description and input schema.
pub open spec fn tool_view(t: McpTool) -> (Seq<char>, Seq<char>, serde_json::Value) {
    (t.name@, t.description@, t.input_schema)
}

/// The view of a resource: uri, name, description, mime type.
pub open spec fn resource_view(r: McpResource) -> (Seq<char>, Seq<char>, Seq<char>, Seq<char>) {
    (r.uri@, r.name@, r.description@, r.mime_type@)
}

/// The view of a prompt argument.
pub open spec fn argument_view(a: McpPromptArgument) -> (Seq<char>, Seq<char>, bool) {
    (a.name@, a.description@, a.required)
}

/// The view of a prompt: name, description, arguments.
pub open spec fn prompt_view(p: McpPrompt) -> (Seq<char>, Seq<char>, Seq<(Seq<char>, Seq<char>, bool)>) {
    (p.name@, p.description@, Seq::new(p.arguments@.len(), |i: int| argument_view(p.arguments@[i])))
}

/// The views of tools.
pub open spec fn tools_view(ts: Seq<McpTool>) -> Seq<(Seq<char>, Seq<char>, serde_json::Value)> {
    Seq::new(ts.len(), |i: int| tool_view(ts[i]))
}

/// The views of resources.
pub open spec fn resources_view(rs: Seq<McpResource>) -> Seq<(Seq<char>, Seq<char>, Seq<char>, Seq<char>)> {
    Seq::new(rs.len(), |i: int| resource_view(rs[i]))
}

/// The views of prompts.
pub open spec fn prompts_view(ps: Seq<McpPrompt>) -> Seq<(Seq<char>, Seq<char>, Seq<(Seq<char>, Seq<char>, bool)>)> {
    Seq::new(ps.len(), |i: int| prompt_view(ps[i]))
}

/// A sequence of keys tagged for lookup by first match (see `assoc`).
pub open spec fn keyed(keys: Seq<Seq<char>>) -> Seq<(Seq<char>, ())> {
    Seq::new(keys.len(), |i: int| (keys[i], ()))
}

/// The names of tools, the uris of resources and the names of prompts.
pub open spec fn tool_keys(ts: Seq<(Seq<char>, Seq<char>, serde_json::Value)>) -> Seq<Seq<char>> {
    Seq::new(ts.len(), |i: int| ts[i].0)
}

pub open spec fn resource_keys(rs: Seq<(Seq<char>, Seq<char>, Seq<char>, Seq<char>)>) -> Seq<Seq<char>> {
    Seq::new(rs.len(), |i: int| rs[i].0)
}

pub open spec fn prompt_keys(ps: Seq<(Seq<char>, Seq<char>, Seq<(Seq<char>, Seq<char>, bool)>)>) -> Seq<Seq<char>> {
    Seq::new(ps.len(), |i: int| ps[i].0)
}

/// The registry after registering `item` under `key`: the entry with that key is replaced, or
/// the item comes last.
pub open spec fn registered<T>(entries: Seq<T>, keys: Seq<Seq<char>>, key: Seq<char>, item: T) -> Seq<T> {
    match index_of(keyed(keys), key) {
        Some(i) => entries.update(i, item),
        None => entries.push(item),
    }
}

/// The capabilities this server announces.
pub open spec fn announced_capabilities(c: ServerCapabilities) -> bool {
    &&& c.tools == Some(ToolsCapability { list_changed: Some(true) })
    &&& c.resources == Some(ResourcesCapability { subscribe: Some(false), list_changed: Some(true) })
    &&& c.prompts == Some(PromptsCapability { list_changed: Some(true) })
}

/// The reply to a request, given the server state (`RunTool` for a tool call).
pub open spec fn answers(s: McpView, request: McpRequest, r: Result<McpOutcome, String>) -> bool {
    match request {
        McpRequest::Initialize { .. } => (r matches Ok(McpOutcome::Respond(McpResponse::Initialize { protocol_version, capabilities, server_info }))
            && protocol_version@ == MCP_VERSION@ && announced_capabilities(capabilities) && (server_info.name@, server_info.version@) == s.info),
        McpRequest::ToolsList => (r matches Ok(McpOutcome::Respond(McpResponse::ToolsList { tools })) && tools_view(tools@) == s.tools),
        McpRequest::ToolsCall { name, arguments } => match index_of(keyed(tool_keys(s.tools)), name@) {
            Some(_) => (r matches Ok(McpOutcome::RunTool { name: n, arguments: a }) && n@ == name@ && a == arguments),
            None => (r matches Err(e) && e@ == "Tool not found: "@ + name@),
        },
        McpRequest::ResourcesList => (r matches Ok(McpOutcome::Respond(McpResponse::ResourcesList { resources })) && resources_view(resources@)
            == s.resources),
        McpRequest::ResourcesRead { uri } => match index_of(keyed(resource_keys(s.resources)), uri@) {
            Some(i) => (r matches Ok(McpOutcome::Respond(McpResponse::ResourcesRead { contents })) && contents@.len() == 1
                && contents@[0].uri@ == uri@ && contents@[0].mime_type@ == s.resources[i].3 && (contents@[0].text matches Some(t)
                && t@ == "Content of "@ + uri@) && contents@[0].blob is None),
            None => (r matches Err(e) && e@ == "Resource not found: "@ + uri@),
        },
        McpRequest::PromptsList => (r matches Ok(McpOutcome::Respond(McpResponse::PromptsList { prompts })) && prompts_view(prompts@)
            == s.prompts),
        McpRequest::PromptsGet { name, arguments } => match index_of(keyed(prompt_keys(s.prompts)), name@) {
            Some(i) => (r matches Ok(McpOutcome::Respond(McpResponse::PromptsGet { description, messages }))
                && description@ == s.prompts[i].1 && messages@.len() == 1 && messages@[0].role@ == "user"@
                && messages@[0].content.content_type@ == "text"@ && messages@[0].content.text@ == "Prompt: "@ + name@
                + " with args: "@ + arguments_text(
                match arguments {
                    Some(v) => Some(pairs_view(v@)),
                    None => None,
                },
            )),
            None => (r matches Err(e) && e@ == "Prompt not found: "@ + name@),
        },
    }
}

/// The reply to a tool call, given what the tool gave.
pub open spec fn tool_reply(result: Result<Vec<ToolContent>, String>, r: McpResponse) -> bool {
    match result {
        Ok(c) => r == McpResponse::ToolsCallResult { content: c, is_error: Some(false) },
        Err(e) => (r matches McpResponse::ToolsCallResult { content, is_error: Some(true) } && content@.len() == 1
            && content@[0].content_type@ == "text"@ && content@[0].text@ == "Error: "@ + e@),
    }
}

/// After registering under `key`, looking `key` up finds the registered position.
proof fn lemma_registered_keys(keys: Seq<Seq<char>>, key: Seq<char>)
    ensures
        ({
            let after = match index_of(keyed(keys), key) {
                Some(i) => keys.update(i, key),
                None => keys.push(key),
            };
            let at = match index_of(keyed(keys), key) {
                Some(i) => i,
                None => keys.len() as int,
            };
            &&& 0 <= at < after.len()
            &&& index_of(keyed(after), key) == Some(at)
        }),
{
    lemma_index_of(keyed(keys), key);
    match index_of(keyed(keys), key) {
        Some(i) => {
            let after = keys.update(i, key);
            assert(keyed(after) =~= keyed(keys));
        },
        None => {
            let after = keys.push(key);
            assert forall|m: int| 0 <= m < keys.len() implies keyed(after)[m].0 != key by {
                assert(keyed(after)[m] == keyed(keys)[m]);
            }
            lemma_index_of_is(keyed(after), key, keys.len() as int);
        },
    }
}

/// A resource just registered is what reading its uri finds: `resources/read` then succeeds
/// with its mime type.
pub proof fn law_register_then_read(rs: Seq<(Seq<char>, Seq<char>, Seq<char>, Seq<char>)>, r: (Seq<char>, Seq<char>, Seq<char>, Seq<char>))
    ensures
        index_of(keyed(resource_keys(registered(rs, resource_keys(rs), r.0, r))), r.0) matches Some(i) && registered(
            rs,
            resource_keys(rs),
            r.0,
            r,
        )[i] == r,
{
    lemma_registered_keys(resource_keys(rs), r.0);
    lemma_index_of(keyed(resource_keys(rs)), r.0);
    let after = registered(rs, resource_keys(rs), r.0, r);
    match index_of(keyed(resource_keys(rs)), r.0) {
        Some(i) => {
            assert(resource_keys(after) =~= resource_keys(rs).update(i, r.0));
        },
        None => {
            assert(resource_keys(after) =~= resource_keys(rs).push(r.0));
        },
    }
}

/// A tool just registered can be called: its name is found among the tools.
pub proof fn law_register_then_call(ts: Seq<(Seq<char>, Seq<char>, serde_json::Value)>, t: (Seq<char>, Seq<char>, serde_json::Value))
    ensures
        index_of(keyed(tool_keys(registered(ts, tool_keys(ts), t.0, t))), t.0) matches Some(i) && registered(
            ts,
            tool_keys(ts),
            t.0,
            t,
        )[i] == t,
{
    lemma_registered_keys(tool_keys(ts), t.0);
    lemma_index_of(keyed(tool_keys(ts)), t.0);
    let after = registered(ts, tool_keys(ts), t.0, t);
    match index_of(keyed(tool_keys(ts)), t.0) {
        Some(i) => {
            assert(tool_keys(after) =~= tool_keys(ts).update(i, t.0));
        },
        None => {
            assert(tool_keys(after) =~= tool_keys(ts).push(t.0));
        },
    }
}

// ---------------------------------------------------------------- copies

/// A copy of a JSON value (`serde_json::Value::clone`).
///
/// Claims that the copy is the same value: `Value`'s `Clone` is derived, a deep copy.
#[verifier::external_body]
pub(crate) fn clone_value(v: &serde_json::Value) -> (r: serde_json::Value)
    ensures
        r == *v,
{
    v.clone()
}

fn copy_tool(t: &McpTool) -> (r: McpTool)
    ensures
        tool_view(r) == tool_view(*t),
{
    McpTool { name: t.name.clone(), description: t.description.clone(), input_schema: clone_value(&t.input_schema) }
}

fn copy_resource(r: &McpResource) -> (c: McpResource)
    ensures
        resource_view(c) == resource_view(*r),
{
    McpResource {
        uri: r.uri.clone(),
        name: r.name.clone(),
        description: r.description.clone(),
        mime_type: r.mime_type.clone(),
    }
}

fn copy_prompt(p: &McpPrompt) -> (c: McpPrompt)
    ensures
        prompt_view(c) == prompt_view(*p),
{
    let n = p.arguments.len();
    let mut args: Vec<McpPromptArgument> = Vec::new();
    let mut i: usize = 0;
    while i < n
        invariant
            i <= n,
            n == p.arguments@.len(),
            args@.len() == i,
            forall|k: int| 0 <= k < i ==> argument_view(#[trigger] args@[k]) == argument_view(p.arguments@[k]),
        decreases n - i,
    {
        let a = &p.arguments[i];
        args.push(McpPromptArgument { name: a.name.clone(), description: a.description.clone(), required: a.required });
        i = i + 1;
    }
    let c = McpPrompt { name: p.name.clone(), description: p.description.clone(), arguments: args };
    assert(prompt_view(c).2 =~= prompt_view(*p).2);
    c
}

/// `"prefix" + s`.
fn prefixed(prefix: &str, s: &str) -> (r: String)
    ensures
        r@ == prefix@ + s@,
{
    let mut v: Vec<char> = Vec::new();
    push_str(&mut v, prefix);
    push_str(&mut v, s);
    string_of(&v)
}

/// How one argument prints in a map's debug text: `"name": "value"`.
pub open spec fn argument_entry_text(p: (Seq<char>, Seq<char>)) -> Seq<char> {
    debug_str(p.0) + ": "@ + debug_str(p.1)
}

/// The entries of an argument map's debug text, separated by `, `.
pub open spec fn argument_entries_text(args: Seq<(Seq<char>, Seq<char>)>) -> Seq<char>
    decreases args.len(),
{
    if args.len() == 0 {
        Seq::empty()
    } else if args.len() == 1 {
        argument_entry_text(args[0])
    } else {
        argument_entries_text(args.drop_last()) + ", "@ + argument_entry_text(args.last())
    }
}

/// How the arguments of a prompt request print (`format!("{:?}", arguments)` of an optional
/// map): `None`, or `Some({"name": "value", ...})` with the entries in the order given.
pub open spec fn arguments_text(args: Option<Seq<(Seq<char>, Seq<char>)>>) -> Seq<char> {
    match args {
        None => "None"@,
        Some(a) => "Some({"@ + argument_entries_text(a) + "})"@,
    }
}

/// The debug text of prompt arguments (see `arguments_text`).
fn debug_text(args: &Option<Vec<(String, String)>>) -> (r: String)
    ensures
        r@ == arguments_text(
            match args {
                Some(v) => Some(pairs_view(v@)),
                None => None,
            },
        ),
{
    match args {
        None => owned("None"),
        Some(v) => {
            let mut t: Vec<char> = Vec::new();
            push_str(&mut t, "Some({");
            let mut i: usize = 0;
            while i < v.len()
                invariant
                    i <= v@.len(),
                    t@ == "Some({"@ + argument_entries_text(pairs_view(v@).subrange(0, i as int)),
                decreases v@.len() - i,
            {
                let ghost before = t@;
                let ghost done = pairs_view(v@).subrange(0, i as int);
                let ghost next = pairs_view(v@).subrange(0, i + 1);
                if i > 0 {
                    push_str(&mut t, ", ");
                }
                let k = str_debug_text(v[i].0.as_str());
                push_str(&mut t, k.as_str());
                push_str(&mut t, ": ");
                let d = str_debug_text(v[i].1.as_str());
                push_str(&mut t, d.as_str());
                proof {
                    assert(next.drop_last() =~= done);
                    assert(next.last() == pairs_view(v@)[i as int]);
                    if i == 0 {
                        assert(t@ =~= before + argument_entry_text(next[0]));
                    } else {
                        assert(t@ =~= before + ", "@ + argument_entry_text(next.last()));
                    }
                }
                i = i + 1;
            }
            push_str(&mut t, "})");
            proof {
                assert(pairs_view(v@).subrange(0, v@.len() as int) =~= pairs_view(v@));
            }
            string_of(&t)
        }
    }
}

// ---------------------------------------------------------------- the server

/// The abstract state of the server.
pub struct McpView {
    pub info: (Seq<char>, Seq<char>),
    pub tools: Seq<(Seq<char>, Seq<char>, serde_json::Value)>,
    pub resources: Seq<(Seq<char>, Seq<char>, Seq<char>, Seq<char>)>,
    pub prompts: Seq<(Seq<char>, Seq<char>, Seq<(Seq<char>, Seq<char>, bool)>)>,
}

/// The server: its identity and what it has registered.
pub struct AcsaMcpServer {
    server_info: ServerInfo,
    tools: Vec<McpTool>,
    resources: Vec<McpResource>,
    prompts: Vec<McpPrompt>,
}

impl View for AcsaMcpServer {
    type V = McpView;

    closed spec fn view(&self) -> McpView {
        McpView {
            info: (self.server_info.name@, self.server_info.version@),
            tools: tools_view(self.tools@),
            resources: resources_view(self.resources@),
            prompts: prompts_view(self.prompts@),
        }
    }
}

/// The position of the first key equal to `key`.
fn find_key(keys: &Vec<&str>, key: &str) -> (r: Option<usize>)
    ensures
        match r {
            Some(k) => index_of(keyed(Seq::new(keys@.len(), |i: int| keys@[i]@)), key@) == Some(k as int),
            None => index_of(keyed(Seq::new(keys@.len(), |i: int| keys@[i]@)), key@) is None,
        },
        r matches Some(i) ==> i < keys@.len(),
{
    let ghost ks = keyed(Seq::new(keys@.len(), |i: int| keys@[i]@));
    let n = keys.len();
    let mut i: usize = 0;
    while i < n
        invariant
            i <= n,
            n == keys@.len(),
            ks == keyed(Seq::new(keys@.len(), |i: int| keys@[i]@)),
            forall|j: int| 0 <= j < i ==> ks[j].0 != key@,
        decreases n - i,
    {
        if str_eq(keys[i], key) {
            assert(ks[i as int].0 == key@);
            proof {
                lemma_index_of_is(ks, key@, i as int);
            }
            return Some(i);
        }
        i = i + 1;
    }
    proof {
        lemma_index_of_none(ks, key@);
    }
    None
}

impl AcsaMcpServer {
    /// A server with nothing registered.
    pub fn new(name: String, version: String) -> (r: Self)
        ensures
            r@.info == (name@, version@),
            r@.tools.len() == 0,
            r@.resources.len() == 0,
            r@.prompts.len() == 0,
    {
        let s = AcsaMcpServer { server_info: ServerInfo { name, version }, tools: Vec::new(), resources: Vec::new(), prompts: Vec::new() };
        assert(s@.tools =~= seq![]);
        assert(s@.resources =~= seq![]);
        assert(s@.prompts =~= seq![]);
        s
    }

    /// Registers a tool; a tool of the same name is replaced.
    pub fn register_tool(&mut self, tool: McpTool)
        ensures
            final(self)@.tools == registered(old(self)@.tools, tool_keys(old(self)@.tools), tool.name@, tool_view(tool)),
            final(self)@.resources == old(self)@.resources,
            final(self)@.prompts == old(self)@.prompts,
            final(self)@.info == old(self)@.info,
    {
        let ghost tv = tool_view(tool);
        let ghost pos = index_of(keyed(tool_keys(self@.tools)), tool.name@);
        let ghost expected = registered(self@.tools, tool_keys(self@.tools), tool.name@, tv);
        match self.tool_position(tool.name.as_str()) {
            Some(i) => {
                self.tools.set(i, tool);
                assert(tools_view(self.tools@) =~= tools_view(old(self).tools@).update(i as int, tv));
                assert(pos == Some(i as int));
                assert(self@.tools == expected);
            },
            None => {
                self.tools.push(tool);
                assert(tools_view(self.tools@) =~= tools_view(old(self).tools@).push(tv));
                assert(pos is None);
                assert(self@.tools == expected);
            },
        }
    }

    /// Registers a resource; a resource of the same uri is replaced.
    pub fn register_resource(&mut self, resource: McpResource)
        ensures
            final(self)@.resources == registered(
                old(self)@.resources,
                resource_keys(old(self)@.resources),
                resource.uri@,
                resource_view(resource),
            ),
            final(self)@.tools == old(self)@.tools,
            final(self)@.prompts == old(self)@.prompts,
            final(self)@.info == old(self)@.info,
    {
        let ghost rv = resource_view(resource);
        let ghost pos = index_of(keyed(resource_keys(self@.resources)), resource.uri@);
        let ghost expected = registered(self@.resources, resource_keys(self@.resources), resource.uri@, rv);
        match self.resource_position(resource.uri.as_str()) {
            Some(i) => {
                self.resources.set(i, resource);
                assert(resources_view(self.resources@) =~= resources_view(old(self).resources@).update(i as int, rv));
                assert(pos == Some(i as int));
                assert(self@.resources == expected);
            },
            None => {
                self.resources.push(resource);
                assert(resources_view(self.resources@) =~= resources_view(old(self).resources@).push(rv));
                assert(pos is None);
                assert(self@.resources == expected);
            },
        }
    }

    /// Registers a prompt template; a prompt of the same name is replaced.
    pub fn register_prompt(&mut self, prompt: McpPrompt)
        ensures
            final(self)@.prompts == registered(old(self)@.prompts, prompt_keys(old(self)@.prompts), prompt.name@, prompt_view(prompt)),
            final(self)@.tools == old(self)@.tools,
            final(self)@.resources == old(self)@.resources,
            final(self)@.info == old(self)@.info,
    {
        let ghost pv = prompt_view(prompt);
        let ghost pos = index_of(keyed(prompt_keys(self@.prompts)), prompt.name@);
        let ghost expected = registered(self@.prompts, prompt_keys(self@.prompts), prompt.name@, pv);
        match self.prompt_position(prompt.name.as_str()) {
            Some(i) => {
                self.prompts.set(i, prompt);
                assert(prompts_view(self.prompts@) =~= prompts_view(old(self).prompts@).update(i as int, pv));
                assert(pos == Some(i as int));
                assert(self@.prompts == expected);
            },
            None => {
                self.prompts.push(prompt);
                assert(prompts_view(self.prompts@) =~= prompts_view(old(self).prompts@).push(pv));
                assert(pos is None);
                assert(self@.prompts == expected);
            },
        }
    }

    /// Answers a request (see `answers`); a call of a known tool is handed back to be run.
    pub fn handle_request(&self, request: McpRequest) -> (r: Result<McpOutcome, String>)
        ensures
            answers(self@, request, r),
    {
        match request {
            McpRequest::Initialize { protocol_version: _, capabilities: _, client_info: _ } => {
                Ok(McpOutcome::Respond(McpResponse::Initialize {
                    protocol_version: owned(MCP_VERSION),
                    capabilities: ServerCapabilities {
                        tools: Some(ToolsCapability { list_changed: Some(true) }),
                        resources: Some(ResourcesCapability { subscribe: Some(false), list_changed: Some(true) }),
                        prompts: Some(PromptsCapability { list_changed: Some(true) }),
                    },
                    server_info: ServerInfo { name: self.server_info.name.clone(), version: self.server_info.version.clone() },
                }))
            },
            McpRequest::ToolsList => {
                let n = self.tools.len();
                let mut out: Vec<McpTool> = Vec::new();
                let mut i: usize = 0;
                while i < n
                    invariant
                        i <= n,
                        n == self.tools@.len(),
                        out@.len() == i,
                        forall|k: int| 0 <= k < i ==> tool_view(#[trigger] out@[k]) == tool_view(self.tools@[k]),
                    decreases n - i,
                {
                    out.push(copy_tool(&self.tools[i]));
                    i = i + 1;
                }
                assert(tools_view(out@) =~= self@.tools);
                Ok(McpOutcome::Respond(McpResponse::ToolsList { tools: out }))
            },
            McpRequest::ToolsCall { name, arguments } => {
                match self.tool_position(name.as_str()) {
                    Some(_) => Ok(McpOutcome::RunTool { name, arguments }),
                    None => Err(prefixed("Tool not found: ", name.as_str())),
                }
            },
            McpRequest::ResourcesList => {
                let n = self.resources.len();
                let mut out: Vec<McpResource> = Vec::new();
                let mut i: usize = 0;
                while i < n
                    invariant
                        i <= n,
                        n == self.resources@.len(),
                        out@.len() == i,
                        forall|k: int| 0 <= k < i ==> resource_view(#[trigger] out@[k]) == resource_view(self.resources@[k]),
                    decreases n - i,
                {
                    out.push(copy_resource(&self.resources[i]));
                    i = i + 1;
                }
                assert(resources_view(out@) =~= self@.resources);
                Ok(McpOutcome::Respond(McpResponse::ResourcesList { resources: out }))
            },
            McpRequest::ResourcesRead { uri } => {
                match self.resource_position(uri.as_str()) {
                    Some(i) => {
                        let content = ResourceContent {
                            uri: uri.clone(),
                            mime_type: self.resources[i].mime_type.clone(),
                            text: Some(prefixed("Content of ", uri.as_str())),
                            blob: None,
                        };
                        let contents = vec![content];
                        Ok(McpOutcome::Respond(McpResponse::ResourcesRead { contents }))
                    },
                    None => Err(prefixed("Resource not found: ", uri.as_str())),
                }
            },
            McpRequest::PromptsList => {
                let n = self.prompts.len();
                let mut out: Vec<McpPrompt> = Vec::new();
                let mut i: usize = 0;
                while i < n
                    invariant
                        i <= n,
                        n == self.prompts@.len(),
                        out@.len() == i,
                        forall|k: int| 0 <= k < i ==> prompt_view(#[trigger] out@[k]) == prompt_view(self.prompts@[k]),
                    decreases n - i,
                {
                    out.push(copy_prompt(&self.prompts[i]));
                    i = i + 1;
                }
                assert(prompts_view(out@) =~= self@.prompts);
                Ok(McpOutcome::Respond(McpResponse::PromptsList { prompts: out }))
            },
            McpRequest::PromptsGet { name, arguments } => {
                match self.prompt_position(name.as_str()) {
                    Some(i) => {
                        let mut t: Vec<char> = Vec::new();
                        push_str(&mut t, "Prompt: ");
                        push_str(&mut t, name.as_str());
                        push_str(&mut t, " with args: ");
                        let args = debug_text(&arguments);
                        push_str(&mut t, args.as_str());
                        let message = PromptMessage {
                            role: owned("user"),
                            content: PromptContent { content_type: owned("text"), text: string_of(&t) },
                        };
                        let messages = vec![message];
                        Ok(McpOutcome::Respond(McpResponse::PromptsGet { description: self.prompts[i].description.clone(), messages }))
                    },
                    None => Err(prefixed("Prompt not found: ", name.as_str())),
                }
            },
        }
    }

    fn tool_position(&self, name: &str) -> (r: Option<usize>)
        ensures
            match r {
                Some(k) => index_of(keyed(tool_keys(self@.tools)), name@) == Some(k as int),
                None => index_of(keyed(tool_keys(self@.tools)), name@) is None,
            },
            r matches Some(i) ==> i < self.tools@.len(),
    {
        let mut keys: Vec<&str> = Vec::new();
        let n = self.tools.len();
        let mut i: usize = 0;
        while i < n
            invariant
                i <= n,
                n == self.tools@.len(),
                keys@.len() == i,
                forall|k: int| 0 <= k < i ==> (#[trigger] keys@[k])@ == self.tools@[k].name@,
            decreases n - i,
        {
            keys.push(self.tools[i].name.as_str());
            i = i + 1;
        }
        assert(Seq::new(keys@.len(), |i: int| keys@[i]@) =~= tool_keys(self@.tools));
        find_key(&keys, name)
    }

    fn resource_position(&self, uri: &str) -> (r: Option<usize>)
        ensures
            match r {
                Some(k) => index_of(keyed(resource_keys(self@.resources)), uri@) == Some(k as int),
                None => index_of(keyed(resource_keys(self@.resources)), uri@) is None,
            },
            r matches Some(i) ==> i < self.resources@.len(),
    {
        let mut keys: Vec<&str> = Vec::new();
        let n = self.resources.len();
        let mut i: usize = 0;
        while i < n
            invariant
                i <= n,
                n == self.resources@.len(),
                keys@.len() == i,
                forall|k: int| 0 <= k < i ==> (#[trigger] keys@[k])@ == self.resources@[k].uri@,
            decreases n - i,
        {
            keys.push(self.resources[i].uri.as_str());
            i = i + 1;
        }
        assert(Seq::new(keys@.len(), |i: int| keys@[i]@) =~= resource_keys(self@.resources));
        find_key(&keys, uri)
    }

    fn prompt_position(&self, name: &str) -> (r: Option<usize>)
        ensures
            match r {
                Some(k) => index_of(keyed(prompt_keys(self@.prompts)), name@) == Some(k as int),
                None => index_of(keyed(prompt_keys(self@.prompts)), name@) is None,
            },
            r matches Some(i) ==> i < self.prompts@.len(),
    {
        let mut keys: Vec<&str> = Vec::new();
        let n = self.prompts.len();
        let mut i: usize = 0;
        while i < n
            invariant
                i <= n,
                n == self.prompts@.len(),
                keys@.len() == i,
                forall|k: int| 0 <= k < i ==> (#[trigger] keys@[k])@ == self.prompts@[k].name@,
            decreases n - i,
        {
            keys.push(self.prompts[i].name.as_str());
            i = i + 1;
        }
        assert(Seq::new(keys@.len(), |i: int| keys@[i]@) =~= prompt_keys(self@.prompts));
        find_key(&keys, name)
    }
}

/// The reply to a tool call, given what the tool gave (see `tool_reply`).
pub fn tool_call_result(result: Result<Vec<ToolContent>, String>) -> (r: McpResponse)
    ensures
        tool_reply(result, r),
{
    match result {
        Ok(content) => McpResponse::ToolsCallResult { content, is_error: Some(false) },
        Err(e) => {
            let item = ToolContent { content_type: owned("text"), text: prefixed("Error: ", e.as_str()) };
            McpResponse::ToolsCallResult { content: vec![item], is_error: Some(true) }
        },
    }
}

// ---------------------------------------------------------------- the built-in tools

/// The tool that switches protocols.
pub struct AcsaProtocolSwitchHandler;

/// The tool that manages the task tracker.
pub struct AcsaTaskTrackerHandler;

/// The tool that reports behaviour analysis.
pub struct AcsaBehaviorAnalysisHandler;

/// The string argument `key` among the string fields of a tool call's arguments: none without
/// arguments or without such a field.
pub open spec fn string_field(arguments: Option<Vec<(String, String)>>, key: Seq<char>) -> Option<Seq<char>> {
    match arguments {
        Some(v) => match find(string_keyed(v@), key) {
            Some(s) => Some(s@),
            None => None,
        },
        None => None,
    }
}

/// The string argument `key` (see `string_field`).
fn lookup_field(arguments: &Option<Vec<(String, String)>>, key: &str) -> (r: Option<String>)
    ensures
        match r {
            Some(s) => string_field(*arguments, key@) == Some(s@),
            None => string_field(*arguments, key@) is None,
        },
{
    match arguments {
        Some(v) => match position_of(v, key) {
            Some(i) => Some(v[i].1.clone()),
            None => None,
        },
        None => None,
    }
}

/// One text item.
fn text_item(text: String) -> (r: Vec<ToolContent>)
    ensures
        r@.len() == 1,
        r@[0].content_type@ == "text"@,
        r@[0].text@ == text@,
{
    vec![ToolContent { content_type: owned("text"), text }]
}

/// What a tool call gives: one text item, or an error.
pub open spec fn one_text(r: Result<Vec<ToolContent>, String>, text: Seq<char>) -> bool {
    r matches Ok(c) && c@.len() == 1 && c@[0].content_type@ == "text"@ && c@[0].text@ == text
}

/// The reply of the task tracker to an action.
pub open spec fn tracker_text(action: Seq<char>) -> Seq<char> {
    if action == "list"@ {
        "📋 Current tasks:\n  - Task 1: In Progress\n  - Task 2: Pending"@
    } else if action == "add"@ {
        "✅ Task added to tracker"@
    } else if action == "complete"@ {
        "✅ Task marked as completed"@
    } else {
        "❌ Unknown action"@
    }
}

impl AcsaProtocolSwitchHandler {
    /// Runs the tool on the string fields of its arguments: the `protocol` field is handed to
    /// `reply`.
    pub fn handle(&self, arguments: Option<Vec<(String, String)>>) -> (r: Result<Vec<ToolContent>, String>)
        ensures
            match string_field(arguments, "protocol"@) {
                Some(p) => one_text(r, "✅ Switched to protocol: "@ + p),
                None => (r matches Err(e) && e@ == "Missing protocol argument"@),
            },
    {
        let protocol = lookup_field(&arguments, "protocol");
        self.reply(protocol)
    }

    /// The reply for a given `protocol` argument.
    pub fn reply(&self, protocol: Option<String>) -> (r: Result<Vec<ToolContent>, String>)
        ensures
            match protocol {
                Some(p) => one_text(r, "✅ Switched to protocol: "@ + p@),
                None => (r matches Err(e) && e@ == "Missing protocol argument"@),
            },
    {
        match protocol {
            Some(p) => Ok(text_item(prefixed("✅ Switched to protocol: ", p.as_str()))),
            None => Err(owned("Missing protocol argument")),
        }
    }
}

impl AcsaTaskTrackerHandler {
    /// Runs the tool on the string fields of its arguments: the `action` field is handed to
    /// `reply`.
    pub fn handle(&self, arguments: Option<Vec<(String, String)>>) -> (r: Result<Vec<ToolContent>, String>)
        ensures
            match string_field(arguments, "action"@) {
                Some(a) => one_text(r, tracker_text(a)),
                None => (r matches Err(e) && e@ == "Missing action argument"@),
            },
    {
        let action = lookup_field(&arguments, "action");
        self.reply(action)
    }

    /// The reply for a given `action` argument.
    pub fn reply(&self, action: Option<String>) -> (r: Result<Vec<ToolContent>, String>)
        ensures
            match action {
                Some(a) => one_text(r, tracker_text(a@)),
                None => (r matches Err(e) && e@ == "Missing action argument"@),
            },
    {
        match action {
            Some(a) => {
                let s = a.as_str();
                let text = if str_eq(s, "list") {
                    "📋 Current tasks:\n  - Task 1: In Progress\n  - Task 2: Pending"
                } else if str_eq(s, "add") {
                    "✅ Task added to tracker"
                } else if str_eq(s, "complete") {
                    "✅ Task marked as completed"
                } else {
                    "❌ Unknown action"
                };
                Ok(text_item(owned(text)))
            },
            None => Err(owned("Missing action argument")),
        }
    }
}

impl AcsaBehaviorAnalysisHandler {
    /// Runs the tool: a fixed analysis report, whatever the arguments.
    pub fn handle(&self, arguments: Option<serde_json::Value>) -> (r: Result<Vec<ToolContent>, String>)
        ensures
            one_text(r, "📊 Behavior Analysis:\n  - Patterns detected: 5\n  - Confidence: 85%\n  - Auto-takeover ready: Yes"@),
    {
        Ok(text_item(owned("📊 Behavior Analysis:\n  - Patterns detected: 5\n  - Confidence: 85%\n  - Auto-takeover ready: Yes")))
    }
}


// ---------------------------------------------------------------- the built-in registry

/// What the ACSA server offers out of the box: three tools (with the given input schemas), two
/// resources and the code review prompt, in that order.
pub open spec fn acsa_default_view(
    switch_schema: serde_json::Value,
    tracker_schema: serde_json::Value,
    behavior_schema: serde_json::Value,
) -> McpView {
    McpView {
        info: ("ACSA"@, "0.1.0"@),
        tools: seq![
            ("acsa_switch_protocol"@, "Switch ACSA to a different protocol mode (ARCHITECT/AEGIS/PREDATOR/etc.)"@, switch_schema),
            ("acsa_task_tracker"@, "Manage ACSA task tracker (list/add/complete tasks)"@, tracker_schema),
            ("acsa_behavior_analysis"@, "Get user behavior analysis and pattern detection results"@, behavior_schema),
        ],
        resources: seq![
            ("acsa://protocols"@, "ACSA Protocols"@, "List of available ACSA protocols and their configurations"@, "application/json"@),
            ("acsa://behavior-patterns"@, "Behavior Patterns"@, "Detected user behavior patterns"@, "application/json"@),
        ],
        prompts: seq![
            (
                "acsa_code_review"@,
                "Generate code review with ACSA's multi-agent system"@,
                seq![("code"@, "Code to review"@, true), ("protocol"@, "Protocol to use (default: REVIEWER_2)"@, false)],
            ),
        ],
    }
}

/// The ACSA server with its built-in tools (taking their input schemas), resources and prompt.
pub fn create_acsa_mcp_server(
    switch_schema: serde_json::Value,
    tracker_schema: serde_json::Value,
    behavior_schema: serde_json::Value,
) -> (r: AcsaMcpServer)
    ensures
        r@ == acsa_default_view(switch_schema, tracker_schema, behavior_schema),
{
    let mut server = AcsaMcpServer::new(owned("ACSA"), owned("0.1.0"));
    let ghost t0 = server@.tools;
    proof {
        lemma_index_of_none(keyed(tool_keys(t0)), "acsa_switch_protocol"@);
    }
    server.register_tool(McpTool {
        name: owned("acsa_switch_protocol"),
        description: owned("Switch ACSA to a different protocol mode (ARCHITECT/AEGIS/PREDATOR/etc.)"),
        input_schema: switch_schema,
    });
    let ghost t1 = server@.tools;
    proof {
        reveal_strlit("acsa_switch_protocol");
        reveal_strlit("acsa_task_tracker");
        reveal_strlit("acsa_behavior_analysis");
        assert("acsa_switch_protocol"@.len() != "acsa_task_tracker"@.len());
        lemma_index_of_none(keyed(tool_keys(t1)), "acsa_task_tracker"@);
    }
    server.register_tool(McpTool {
        name: owned("acsa_task_tracker"),
        description: owned("Manage ACSA task tracker (list/add/complete tasks)"),
        input_schema: tracker_schema,
    });
    let ghost t2 = server@.tools;
    proof {
        assert("acsa_switch_protocol"@.len() != "acsa_behavior_analysis"@.len());
        assert("acsa_task_tracker"@.len() != "acsa_behavior_analysis"@.len());
        assert(keyed(tool_keys(t2))[0].0 == "acsa_switch_protocol"@);
        assert(keyed(tool_keys(t2))[1].0 == "acsa_task_tracker"@);
        lemma_index_of_none(keyed(tool_keys(t2)), "acsa_behavior_analysis"@);
    }
    server.register_tool(McpTool {
        name: owned("acsa_behavior_analysis"),
        description: owned("Get user behavior analysis and pattern detection results"),
        input_schema: behavior_schema,
    });
    let ghost r0 = server@.resources;
    proof {
        lemma_index_of_none(keyed(resource_keys(r0)), "acsa://protocols"@);
    }
    server.register_resource(McpResource {
        uri: owned("acsa://protocols"),
        name: owned("ACSA Protocols"),
        description: owned("List of available ACSA protocols and their configurations"),
        mime_type: owned("application/json"),
    });
    let ghost r1 = server@.resources;
    proof {
        reveal_strlit("acsa://protocols");
        reveal_strlit("acsa://behavior-patterns");
        assert("acsa://protocols"@.len() != "acsa://behavior-patterns"@.len());
        lemma_index_of_none(keyed(resource_keys(r1)), "acsa://behavior-patterns"@);
    }
    server.register_resource(McpResource {
        uri: owned("acsa://behavior-patterns"),
        name: owned("Behavior Patterns"),
        description: owned("Detected user behavior patterns"),
        mime_type: owned("application/json"),
    });
    let ghost p0 = server@.prompts;
    proof {
        lemma_index_of_none(keyed(prompt_keys(p0)), "acsa_code_review"@);
    }
    let arguments = vec![
        McpPromptArgument { name: owned("code"), description: owned("Code to review"), required: true },
        McpPromptArgument {
            name: owned("protocol"),
            description: owned("Protocol to use (default: REVIEWER_2)"),
            required: false,
        },
    ];
    let prompt = McpPrompt {
        name: owned("acsa_code_review"),
        description: owned("Generate code review with ACSA's multi-agent system"),
        arguments,
    };
    assert(prompt_view(prompt).2 =~= seq![
        ("code"@, "Code to review"@, true),
        ("protocol"@, "Protocol to use (default: REVIEWER_2)"@, false),
    ]);
    server.register_prompt(prompt);
    assert(server@.tools =~= acsa_default_view(switch_schema, tracker_schema, behavior_schema).tools);
    assert(server@.resources =~= acsa_default_view(switch_schema, tracker_schema, behavior_schema).resources);
    assert(server@.prompts =~= acsa_default_view(switch_schema, tracker_schema, behavior_schema).prompts);
    server
}

} // verus!
