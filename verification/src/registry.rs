//! Qualified tool names: a system's tools are offered to the provider as
//! `<system>__<tool>`, and a call is routed back to its system by splitting
//! the name on the first such separator.

use vstd::prelude::*;
use crate::tool::{Tool, ToolSpec};
use crate::providers::DuplicateToolNameError;
use crate::json::str_eq;
use crate::errors::AgentError;

verus! {

/// The two-underscore separator stands at position `i` of `s`.
pub open spec fn is_sep_at(s: Seq<char>, i: int) -> bool {
    0 <= i && i + 2 <= s.len() && s[i] == '_' && s[i + 1] == '_'
}

/// A tool name qualified by its system's name.
pub fn qualify_name(system: &str, tool: &str) -> (r: String)
    ensures
        r@ == system@ + "__"@ + tool@,
{
    let mut out = system.to_owned();
    out.append("__");
    out.append(tool);
    out
}

/// The system and unqualified tool a qualified name routes to: the parts
/// before and after the first separator. `None` where the name holds no
/// separator, which the dispatcher reports as an unknown tool.
pub fn split_qualified(name: &str) -> (r: Option<(String, String)>)
    ensures
        match r {
            Some(parts) => exists|i: int|
                {
                    &&& #[trigger] is_sep_at(name@, i)
                    &&& forall|j: int| 0 <= j < i ==> !is_sep_at(name@, j)
                    &&& parts.0@ == name@.subrange(0, i)
                    &&& parts.1@ == name@.subrange(i + 2, name@.len() as int)
                },
            None => forall|j: int| !is_sep_at(name@, j),
        },
{
    let n = name.unicode_len();
    if n < 2 {
        return None;
    }
    let mut i: usize = 0;
    while i < n - 1
        invariant
            i <= n - 1,
            n >= 2,
            n == name@.len(),
            forall|j: int| 0 <= j < i ==> !is_sep_at(name@, j),
        decreases n - i,
    {
        if name.get_char(i) == '_' && name.get_char(i + 1) == '_' {
            let system = name.substring_char(0, i);
            let tool = name.substring_char(i + 2, n);
            proof {
                let k = i as int;
                assert(is_sep_at(name@, k) && (forall|j: int| 0 <= j < k ==> !is_sep_at(name@, j))
                    && system@ == name@.subrange(0, k) && tool@ == name@.subrange(
                    k + 2,
                    name@.len() as int,
                ));
            }
            return Some((system.to_owned(), tool.to_owned()));
        }
        i += 1;
    }
    None
}

/// Splitting a qualified name gives the system and tool back, for any
/// system name that holds no separator of its own and does not end in an
/// underscore that would merge with the separator.
pub proof fn lemma_qualified_name_round_trip(system: Seq<char>, tool: Seq<char>)
    requires
        forall|j: int| !is_sep_at(system, j),
        system.len() > 0 ==> system.last() != '_',
    ensures
        ({
            let q = system + "__"@ + tool;
            &&& is_sep_at(q, system.len() as int)
            &&& forall|j: int| 0 <= j < system.len() ==> !is_sep_at(q, j)
            &&& q.subrange(0, system.len() as int) == system
            &&& q.subrange(system.len() as int + 2, q.len() as int) == tool
        }),
{
    reveal_strlit("__");
    let q = system + "__"@ + tool;
    let len = system.len() as int;
    assert("__"@.len() == 2 && "__"@[0] == '_' && "__"@[1] == '_');
    assert(q[len] == '_' && q[len + 1] == '_');
    assert(is_sep_at(q, len));
    assert forall|j: int| 0 <= j < len implies !is_sep_at(q, j) by {
        if j + 1 < len {
            assert(!is_sep_at(system, j));
            assert(q[j] == system[j] && q[j + 1] == system[j + 1]);
        } else {
            assert(j == len - 1);
            assert(q[j] == system[j] && system[j] == system.last());
        }
    }
    assert(q.subrange(0, len) =~= system);
    assert(q.subrange(len + 2, q.len() as int) =~= tool);
}


/// A registered system: its name, what the prompt says of it, its current
/// status snapshot, and the tools it contributes under unqualified names.
#[derive(Debug, PartialEq)]
pub struct SystemEntry {
    pub name: String,
    pub description: String,
    pub status: String,
    pub tools: Vec<Tool>,
}

/// The mathematical shape of a registered system.
#[verifier::ext_equal]
pub struct SystemEntrySpec {
    pub name: Seq<char>,
    pub description: Seq<char>,
    pub status: Seq<char>,
    pub tools: Seq<ToolSpec>,
}

impl DeepView for SystemEntry {
    type V = SystemEntrySpec;

    open spec fn deep_view(&self) -> SystemEntrySpec {
        SystemEntrySpec {
            name: self.name@,
            description: self.description@,
            status: self.status@,
            tools: self.tools.deep_view(),
        }
    }
}

/// One system's tools under their qualified names, in order.
pub open spec fn qualified_system_tools(name: Seq<char>, tools: Seq<ToolSpec>) -> Seq<ToolSpec>
    decreases tools.len(),
{
    if tools.len() == 0 {
        Seq::empty()
    } else {
        qualified_system_tools(name, tools.drop_last()).push(
            ToolSpec {
                name: name + "__"@ + tools.last().name,
                description: tools.last().description,
                input_schema: tools.last().input_schema,
            },
        )
    }
}

/// Every system's qualified tools, in registration order.
pub open spec fn qualified_tools_spec(systems: Seq<SystemEntrySpec>) -> Seq<ToolSpec>
    decreases systems.len(),
{
    if systems.len() == 0 {
        Seq::empty()
    } else {
        qualified_tools_spec(systems.drop_last()) + qualified_system_tools(
            systems.last().name,
            systems.last().tools,
        )
    }
}

/// The union of every system's tools, each name qualified by its system.
pub fn get_qualified_tools(systems: &[SystemEntry]) -> (r: Vec<Tool>)
    ensures
        r.deep_view() == qualified_tools_spec(systems.deep_view()),
{
    let ghost ss = systems.deep_view();
    let mut out: Vec<Tool> = Vec::new();
    let n = systems.len();
    let mut i: usize = 0;
    proof {
        assert(out.deep_view() =~= qualified_tools_spec(ss.take(0)));
    }
    while i < n
        invariant
            i <= n,
            n == systems@.len(),
            ss == systems.deep_view(),
            ss.len() == n,
            out.deep_view() == qualified_tools_spec(ss.take(i as int)),
        decreases n - i,
    {
        proof {
            assert(ss.take(i as int + 1).drop_last() =~= ss.take(i as int));
            assert(ss.take(i as int + 1).last() == ss[i as int]);
            assert(systems@[i as int].deep_view() == ss[i as int]);
        }
        let system = &systems[i];
        let ghost base = out.deep_view();
        let ghost ts = system.deep_view().tools;
        let m = system.tools.len();
        let mut k: usize = 0;
        while k < m
            invariant
                k <= m,
                m == system.tools@.len(),
                ts == system.deep_view().tools,
                ts.len() == m,
                out.deep_view() == base + qualified_system_tools(
                    system.deep_view().name,
                    ts.take(k as int),
                ),
            decreases m - k,
        {
            proof {
                assert(ts.take(k as int + 1).drop_last() =~= ts.take(k as int));
                assert(ts.take(k as int + 1).last() == ts[k as int]);
                assert(system.tools@[k as int].deep_view() == ts[k as int]);
            }
            let tool = &system.tools[k];
            let ghost before = out.deep_view();
            let qualified = Tool {
                name: qualify_name(system.name.as_str(), tool.name.as_str()),
                description: tool.description.clone(),
                input_schema: tool.input_schema.duplicate(),
            };
            let ghost g = qualified.deep_view();
            out.push(qualified);
            proof {
                assert(out.deep_view() =~= before.push(g));
            }
            k += 1;
        }
        proof {
            assert(ts.take(m as int) =~= ts);
        }
        i += 1;
    }
    proof {
        assert(ss.take(n as int) =~= ss);
    }
    out
}

/// No two tools in the list share a name.
pub open spec fn names_unique(ts: Seq<ToolSpec>) -> bool {
    forall|i: int, j: int| 0 <= i < j < ts.len() ==> ts[i].name != ts[j].name
}

/// The registry's guarantee on its tool list: succeeds exactly when every
/// qualified name is unique, else reports the first name that repeats.
pub fn check_unique_tool_names(tools: &[Tool]) -> (r: Result<(), DuplicateToolNameError>)
    ensures
        r is Ok <==> names_unique(tools.deep_view()),
        r matches Err(e) ==> exists|i: int, j: int|
            0 <= i < j < tools.deep_view().len()
                && (#[trigger] tools.deep_view()[i]).name == (#[trigger] tools.deep_view()[j]).name
                && e.name@ == tools.deep_view()[j].name,
{
    let ghost ts = tools.deep_view();
    let mut seen: Vec<String> = Vec::new();
    let n = tools.len();
    let mut i: usize = 0;
    while i < n
        invariant
            i <= n,
            n == tools@.len(),
            ts == tools.deep_view(),
            ts.len() == n,
            seen@.len() == i,
            forall|k: int| 0 <= k < i ==> (#[trigger] seen@[k])@ == ts[k].name,
            forall|a: int, b: int| 0 <= a < b < i ==> ts[a].name != ts[b].name,
        decreases n - i,
    {
        proof {
            assert(tools@[i as int].deep_view() == ts[i as int]);
        }
        let mut k: usize = 0;
        while k < i
            invariant
                k <= i,
                i < n,
                n == tools@.len(),
                ts == tools.deep_view(),
                ts.len() == n,
                seen@.len() == i,
                forall|t: int| 0 <= t < i ==> (#[trigger] seen@[t])@ == ts[t].name,
                forall|j: int| 0 <= j < k ==> (#[trigger] seen@[j])@ != tools@[i as int].name@,
            decreases i - k,
        {
            if str_eq(seen[k].as_str(), tools[i].name.as_str()) {
                proof {
                    assert(ts[k as int].name == ts[i as int].name);
                    assert(tools@[i as int].deep_view() == ts[i as int]);
                }
                return Err(DuplicateToolNameError { name: tools[i].name.clone() });
            }
            k += 1;
        }
        proof {
            assert forall|a: int| 0 <= a < i implies ts[a].name != ts[i as int].name by {
                assert(seen@[a]@ == ts[a].name);
                assert(seen@[a]@ != tools@[i as int].name@);
            }
        }
        seen.push(tools[i].name.clone());
        i += 1;
    }
    Ok(())
}

/// What each system adds to the prompt: its description, then its current
/// status, each on a line of its own, in registration order.
pub open spec fn prompt_text(systems: Seq<SystemEntrySpec>) -> Seq<char>
    decreases systems.len(),
{
    if systems.len() == 0 {
        Seq::empty()
    } else {
        prompt_text(systems.drop_last()) + systems.last().description + "\n"@
            + systems.last().status + "\n"@
    }
}

/// The system prompt assembled from every registered system.
pub fn get_prompt(systems: &[SystemEntry]) -> (r: String)
    ensures
        r@ == prompt_text(systems.deep_view()),
{
    let ghost ss = systems.deep_view();
    let mut out = String::new();
    let n = systems.len();
    let mut i: usize = 0;
    while i < n
        invariant
            i <= n,
            n == systems@.len(),
            ss == systems.deep_view(),
            ss.len() == n,
            out@ == prompt_text(ss.take(i as int)),
        decreases n - i,
    {
        proof {
            assert(ss.take(i as int + 1).drop_last() =~= ss.take(i as int));
            assert(ss.take(i as int + 1).last() == ss[i as int]);
            assert(systems@[i as int].deep_view() == ss[i as int]);
        }
        out.append(systems[i].description.as_str());
        out.append("\n");
        out.append(systems[i].status.as_str());
        out.append("\n");
        i += 1;
    }
    proof {
        assert(ss.take(n as int) =~= ss);
    }
    out
}


/// Where a qualified tool call is routed: the position of the owning
/// system and the unqualified tool name handed to it. A name without a
/// separator, or naming a system nobody registered, is an unknown tool.
pub fn route_tool_call(systems: &[SystemEntry], name: &str) -> (r: Result<
    (usize, String),
    AgentError,
>)
    ensures
        match r {
            Ok(routed) => exists|i: int|
                {
                    &&& #[trigger] is_sep_at(name@, i)
                    &&& forall|j: int| 0 <= j < i ==> !is_sep_at(name@, j)
                    &&& routed.0 < systems.deep_view().len()
                    &&& systems.deep_view()[routed.0 as int].name == name@.subrange(0, i)
                    &&& forall|k: int|
                        0 <= k < routed.0 ==> (#[trigger] systems.deep_view()[k]).name
                            != name@.subrange(0, i)
                    &&& routed.1@ == name@.subrange(i + 2, name@.len() as int)
                },
            Err(e) => {
                &&& e.deep_view() == crate::errors::AgentErrorSpec::ToolNotFound(name@)
                &&& ((forall|j: int| !is_sep_at(name@, j)) || (exists|i: int|
                    {
                        &&& #[trigger] is_sep_at(name@, i)
                        &&& forall|j: int| 0 <= j < i ==> !is_sep_at(name@, j)
                        &&& forall|k: int|
                            0 <= k < systems.deep_view().len() ==> (
                            #[trigger] systems.deep_view()[k]).name != name@.subrange(0, i)
                    }))
            },
        },
{
    let split = split_qualified(name);
    let (system_name, tool_name) = match split {
        Some(parts) => parts,
        None => {
            return Err(AgentError::ToolNotFound(name.to_owned()));
        },
    };
    let n = systems.len();
    let mut k: usize = 0;
    while k < n
        invariant
            k <= n,
            n == systems@.len(),
            systems.deep_view().len() == n,
            forall|t: int|
                0 <= t < n ==> (#[trigger] systems.deep_view()[t]).name == systems@[t].name@,
            forall|t: int| 0 <= t < k ==> (#[trigger] systems@[t]).name@ != system_name@,
            exists|i: int|
                {
                    &&& #[trigger] is_sep_at(name@, i)
                    &&& forall|j: int| 0 <= j < i ==> !is_sep_at(name@, j)
                    &&& system_name@ == name@.subrange(0, i)
                    &&& tool_name@ == name@.subrange(i + 2, name@.len() as int)
                },
        decreases n - k,
    {
        if str_eq(systems[k].name.as_str(), system_name.as_str()) {
            return Ok((k, tool_name));
        }
        k += 1;
    }
    Err(AgentError::ToolNotFound(name.to_owned()))
}

} // verus!
