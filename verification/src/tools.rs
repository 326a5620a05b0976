//! The tools the agent offers for a project: built in, advertised by
//! package READMEs, or marked in sources with `@agent-tool:`.
use vstd::prelude::*;
use crate::text::{chars_of, contains_str, lines_chars, lines_of, push_str, seq_contains, str_eq, string_from_chars};

verus! {

/// The kind of value a tool parameter takes.
#[derive(Debug, Clone)]
pub enum ParamKind {
    Boolean,
    Text,
    /// A string restricted to these values.
    Choice(Vec<String>),
}

/// One parameter of a tool.
#[derive(Debug, Clone)]
pub struct ToolParam {
    pub name: String,
    pub kind: ParamKind,
    pub description: Option<String>,
}

/// A tool the agent can call.
#[derive(Debug, Clone)]
pub struct ToolSpec {
    pub name: String,
    pub description: String,
    pub params: Vec<ToolParam>,
    /// The names of the parameters that must be given.
    pub required: Vec<String>,
}

/// The name and description of a tool.
pub open spec fn tool_view(t: ToolSpec) -> (Seq<char>, Seq<char>) {
    (t.name@, t.description@)
}

/// Names and descriptions of a list of tools.
pub open spec fn tools_view(ts: Seq<ToolSpec>) -> Seq<(Seq<char>, Seq<char>)> {
    ts.map_values(|t: ToolSpec| tool_view(t))
}

/// The kind of a parameter, with a choice's allowed values as text.
pub enum KindView {
    Boolean,
    Text,
    Choice(Seq<Seq<char>>),
}

/// The texts of a list of strings.
pub open spec fn texts_view(v: Seq<String>) -> Seq<Seq<char>> {
    v.map_values(|s: String| s@)
}

/// The kind of a parameter kind.
pub open spec fn kind_view(k: ParamKind) -> KindView {
    match k {
        ParamKind::Boolean => KindView::Boolean,
        ParamKind::Text => KindView::Text,
        ParamKind::Choice(v) => KindView::Choice(texts_view(v@)),
    }
}

/// A parameter as its name, kind and description.
pub open spec fn param_view(p: ToolParam) -> (Seq<char>, KindView, Option<Seq<char>>) {
    (
        p.name@,
        kind_view(p.kind),
        match p.description {
            Some(d) => Some(d@),
            None => None,
        },
    )
}

/// A list of parameters, each by `param_view`.
pub open spec fn params_view(ps: Seq<ToolParam>) -> Seq<(Seq<char>, KindView, Option<Seq<char>>)> {
    ps.map_values(|p: ToolParam| param_view(p))
}

/// The inputs of a tool: its parameters and the names of those required.
pub open spec fn inputs_view(t: ToolSpec) -> (Seq<(Seq<char>, KindView, Option<Seq<char>>)>, Seq<Seq<char>>) {
    (params_view(t.params@), texts_view(t.required@))
}

/// The inputs of a tool without parameters.
pub open spec fn no_inputs() -> (Seq<(Seq<char>, KindView, Option<Seq<char>>)>, Seq<Seq<char>>) {
    (Seq::empty(), Seq::empty())
}

/// Whether one of `tools` is called `name`.
pub open spec fn has_tool_named(tools: Seq<(Seq<char>, Seq<char>)>, name: Seq<char>) -> bool {
    exists|i: int| 0 <= i < tools.len() && tools[i].0 == name
}

fn param(name: &str, kind: ParamKind, description: Option<&str>) -> (p: ToolParam)
    ensures
        p.name@ == name@,
        p.kind == kind,
        match description {
            Some(d) => p.description matches Some(x) && x@ == d@,
            None => p.description is None,
        },
        param_view(p) == (name@, kind_view(kind), match description {
            Some(d) => Some(d@),
            None => None::<Seq<char>>,
        }),
{
    ToolParam {
        name: name.to_owned(),
        kind,
        description: match description {
            Some(d) => Some(d.to_owned()),
            None => None,
        },
    }
}

fn tool(name: &str, description: &str, params: Vec<ToolParam>, required: Vec<String>) -> (t: ToolSpec)
    ensures
        t.name@ == name@,
        t.description@ == description@,
        t.params == params,
        t.required == required,
{
    ToolSpec { name: name.to_owned(), description: description.to_owned(), params, required }
}

/// The tools every project offers: build, spec, fmt, sketch and expand.
pub open spec fn base_tools_view() -> Seq<(Seq<char>, Seq<char>)> {
    seq![
        ("montrs_build"@, "Builds the MontRS project."@),
        ("montrs_spec"@, "Generates a project specification."@),
        ("montrs_fmt"@, "Formats the project's Rust and view! code."@),
        ("montrs_sketch"@, "Generates a single-file 'sketch' of a MontRS component."@),
        ("montrs_expand"@, "Expands a sketch file into a full MontRS workspace structure."@),
    ]
}

/// The inputs of the built-in tools, in the order of `base_tools_view`.
pub open spec fn base_tool_inputs() -> Seq<(Seq<(Seq<char>, KindView, Option<Seq<char>>)>, Seq<Seq<char>>)> {
    seq![
        (seq![("release"@, KindView::Boolean, Some("Build in release mode"@))], seq![]),
        (seq![("format"@, KindView::Choice(seq!["json"@, "yaml"@, "txt"@]), None)], seq![]),
        (
            seq![
                ("check"@, KindView::Boolean, Some("Check if files are formatted without modifying them"@)),
                ("path"@, KindView::Text, Some("Path to format (default: .)"@)),
            ],
            seq![],
        ),
        (
            seq![
                ("name"@, KindView::Text, Some("Name of the sketch file"@)),
                ("kind"@, KindView::Choice(seq!["plate"@, "route"@, "app"@]), Some("Component type"@)),
            ],
            seq!["name"@],
        ),
        (seq![("path"@, KindView::Text, Some("Path to the sketch file"@))], seq!["path"@]),
    ]
}

/// The text values `vals` as owned strings.
fn owned_texts(vals: &[&str]) -> (v: Vec<String>)
    ensures
        v@.len() == vals@.len(),
        forall|i: int| 0 <= i < vals@.len() ==> #[trigger] v@[i]@ == vals@[i]@,
{
    let mut v: Vec<String> = Vec::new();
    let mut i: usize = 0;
    while i < vals.len()
        invariant
            i <= vals@.len(),
            v@.len() == i,
            forall|k: int| 0 <= k < i ==> #[trigger] v@[k]@ == vals@[k]@,
        decreases vals.len() - i,
    {
        v.push(vals[i].to_owned());
        i = i + 1;
    }
    v
}

/// The built-in tools, with their parameters.
pub fn base_tools() -> (tools: Vec<ToolSpec>)
    ensures
        tools_view(tools@) == base_tools_view(),
        tools@.map_values(|t: ToolSpec| inputs_view(t)) == base_tool_inputs(),
{
    let build = tool(
        "montrs_build",
        "Builds the MontRS project.",
        vec![param("release", ParamKind::Boolean, Some("Build in release mode"))],
        Vec::new(),
    );
    let formats = owned_texts(&["json", "yaml", "txt"]);
    let spec = tool(
        "montrs_spec",
        "Generates a project specification.",
        vec![param("format", ParamKind::Choice(formats), None)],
        Vec::new(),
    );
    let fmt = tool(
        "montrs_fmt",
        "Formats the project's Rust and view! code.",
        vec![
            param("check", ParamKind::Boolean, Some("Check if files are formatted without modifying them")),
            param("path", ParamKind::Text, Some("Path to format (default: .)")),
        ],
        Vec::new(),
    );
    let kinds = owned_texts(&["plate", "route", "app"]);
    let sketch = tool(
        "montrs_sketch",
        "Generates a single-file 'sketch' of a MontRS component.",
        vec![
            param("name", ParamKind::Text, Some("Name of the sketch file")),
            param("kind", ParamKind::Choice(kinds), Some("Component type")),
        ],
        owned_texts(&["name"]),
    );
    let expand = tool(
        "montrs_expand",
        "Expands a sketch file into a full MontRS workspace structure.",
        vec![param("path", ParamKind::Text, Some("Path to the sketch file"))],
        owned_texts(&["path"]),
    );
    let tools = vec![build, spec, fmt, sketch, expand];
    assert(tools_view(tools@) =~= base_tools_view());
    assert(texts_view(formats@) =~= seq!["json"@, "yaml"@, "txt"@]);
    assert(texts_view(kinds@) =~= seq!["plate"@, "route"@, "app"@]);
    assert(inputs_view(build) =~~= base_tool_inputs()[0]);
    assert(inputs_view(spec) =~~= base_tool_inputs()[1]);
    assert(inputs_view(fmt) =~~= base_tool_inputs()[2]);
    assert(inputs_view(sketch) =~~= base_tool_inputs()[3]);
    assert(inputs_view(expand) =~~= base_tool_inputs()[4]);
    assert(tools@.map_values(|t: ToolSpec| inputs_view(t)) =~= base_tool_inputs());
    tools
}

/// Whether a README advertises capabilities for agents.
pub open spec fn advertises_capability(readme: Seq<char>) -> bool {
    ||| seq_contains(readme, "Agent Usage Guide"@)
    ||| seq_contains(readme, "Key Features"@)
    ||| seq_contains(readme, "Key Components"@)
    ||| seq_contains(readme, "Agent"@)
}

/// Whether the README text `readme` advertises capabilities for agents.
pub fn readme_advertises_capability(readme: &str) -> (b: bool)
    ensures
        b == advertises_capability(readme@),
{
    contains_str(readme, "Agent Usage Guide") || contains_str(readme, "Key Features")
        || contains_str(readme, "Key Components") || contains_str(readme, "Agent")
}

/// The tool that stands for the package `pkg`.
pub open spec fn package_tool_view(pkg: Seq<char>) -> (Seq<char>, Seq<char>) {
    (
        "montrs_pkg_"@ + pkg,
        "Capability provided by package "@ + pkg + ". Refer to its README for details."@,
    )
}

/// The tool that stands for the package `pkg`, without parameters.
pub fn package_tool(pkg: &str) -> (t: ToolSpec)
    ensures
        tool_view(t) == package_tool_view(pkg@),
        t.params@.len() == 0,
        t.required@.len() == 0,
{
    let mut name = "montrs_pkg_".to_owned();
    push_str(&mut name, pkg);
    let mut description = "Capability provided by package ".to_owned();
    push_str(&mut description, pkg);
    push_str(&mut description, ". Refer to its README for details.");
    ToolSpec { name, description, params: Vec::new(), required: Vec::new() }
}

/// What the first match of `pattern` in `haystack` captured under the
/// groups named `first` and `second`; `None` where the pattern does not
/// compile, does not match, or leaves either group out.
pub uninterp spec fn regex_named_pair(
    pattern: Seq<char>,
    haystack: Seq<char>,
    first: Seq<char>,
    second: Seq<char>,
) -> Option<(Seq<char>, Seq<char>)>;

/// `regex::Regex::new(pattern)`, then `captures(haystack)` and the texts of
/// the groups `first` and `second` of that match. The result is named, not
/// stated: it is `regex_named_pair` of the arguments.
#[verifier::external_body]
fn first_named_pair(pattern: &str, haystack: &str, first: &str, second: &str) -> (r: Option<(String, String)>)
    ensures
        match r {
            Some(p) => regex_named_pair(pattern@, haystack@, first@, second@) == Some((p.0@, p.1@)),
            None => regex_named_pair(pattern@, haystack@, first@, second@) is None,
        },
{
    let re = match regex::Regex::new(pattern) {
        Ok(re) => re,
        Err(_) => return None,
    };
    let caps = re.captures(haystack)?;
    let a = caps.name(first)?;
    let b = caps.name(second)?;
    Some((a.as_str().to_string(), b.as_str().to_string()))
}

/// The texts that group `group` captured in each successive
/// non-overlapping match of `pattern` in `haystack` (`None` for a match in
/// which the group took no part); no matches where the pattern does not
/// compile.
pub uninterp spec fn regex_group_matches(pattern: Seq<char>, haystack: Seq<char>, group: nat) -> Seq<Option<Seq<char>>>;

/// `regex::Regex::new(pattern)`, then `captures_iter(haystack)` and group
/// `group` of each match. The result is named, not stated: it is
/// `regex_group_matches` of the arguments.
#[verifier::external_body]
pub(crate) fn all_group_matches(pattern: &str, haystack: &str, group: usize) -> (r: Vec<Option<String>>)
    ensures
        r@.len() == regex_group_matches(pattern@, haystack@, group as nat).len(),
        forall|i: int| 0 <= i < r@.len() ==> (match #[trigger] r@[i] {
            Some(s) => regex_group_matches(pattern@, haystack@, group as nat)[i] == Some(s@),
            None => regex_group_matches(pattern@, haystack@, group as nat)[i] is None,
        }),
{
    let re = match regex::Regex::new(pattern) {
        Ok(re) => re,
        Err(_) => return Vec::new(),
    };
    re.captures_iter(haystack).map(|c| c.get(group).map(|m| m.as_str().to_string())).collect()
}

/// The pattern of an agent tool marker:
/// `@agent-tool: name="<name>" desc="<description>"`.
pub const AGENT_TOOL_PATTERN: &'static str = "@agent-tool:\\s+name=\"(?P<name>[^\"]+)\"\\s+desc=\"(?P<desc>[^\"]+)\"";

/// The marker fields of `line`: its tool name and description.
pub open spec fn marker_fields(line: Seq<char>) -> Option<(Seq<char>, Seq<char>)> {
    regex_named_pair(AGENT_TOOL_PATTERN@, line, "name"@, "desc"@)
}

/// The tool that marker fields describe: the name and description found,
/// and no parameters.
pub fn tool_from_marker(fields: Option<(String, String)>) -> (t: Option<ToolSpec>)
    ensures
        match fields {
            Some(f) => t matches Some(x) && tool_view(x) == (f.0@, f.1@) && x.params@.len() == 0
                && x.required@.len() == 0,
            None => t is None,
        },
{
    match fields {
        Some((name, description)) => Some(ToolSpec { name, description, params: Vec::new(), required: Vec::new() }),
        None => None,
    }
}

/// The tool a marker line declares, if it holds one.
pub fn parse_agent_tool_marker(line: &str) -> (t: Option<ToolSpec>)
    ensures
        match marker_fields(line@) {
            Some(f) => t matches Some(x) && tool_view(x) == f && x.params@.len() == 0 && x.required@.len() == 0,
            None => t is None,
        },
{
    let fields = first_named_pair(AGENT_TOOL_PATTERN, line, "name", "desc");
    tool_from_marker(fields)
}

/// The tools after scanning one source line: a line that mentions
/// `@agent-tool:` and holds a marker adds its tool unless one of that name
/// is already listed.
pub open spec fn scan_line(tools: Seq<(Seq<char>, Seq<char>)>, line: Seq<char>) -> Seq<(Seq<char>, Seq<char>)> {
    if seq_contains(line, "@agent-tool:"@) {
        match marker_fields(line) {
            Some(f) => if has_tool_named(tools, f.0) { tools } else { tools.push(f) },
            None => tools,
        }
    } else {
        tools
    }
}

/// The tools after scanning `lines` in order.
pub open spec fn scan_lines(tools: Seq<(Seq<char>, Seq<char>)>, lines: Seq<Seq<char>>) -> Seq<(Seq<char>, Seq<char>)>
    decreases lines.len(),
{
    if lines.len() == 0 {
        tools
    } else {
        scan_line(scan_lines(tools, lines.drop_last()), lines.last())
    }
}

/// Whether the name `name` is among `tools`.
fn has_tool(tools: &Vec<ToolSpec>, name: &str) -> (b: bool)
    ensures
        b == has_tool_named(tools_view(tools@), name@),
{
    let mut i: usize = 0;
    while i < tools.len()
        invariant
            i <= tools@.len(),
            forall|j: int| 0 <= j < i ==> tools@[j].name@ != name@,
        decreases tools.len() - i,
    {
        if str_eq(tools[i].name.as_str(), name) {
            assert(tools_view(tools@)[i as int].0 == name@);
            return true;
        }
        i = i + 1;
    }
    assert forall|j: int| 0 <= j < tools_view(tools@).len() implies tools_view(tools@)[j].0 != name@ by {
        assert(tools_view(tools@)[j] == tool_view(tools@[j]));
    }
    false
}

/// Adds to `tools` the tools marked in the source text `content`, line by
/// line; tools already listed keep their place.
pub fn scan_source_for_tools(tools: &mut Vec<ToolSpec>, content: &str)
    ensures
        tools_view(final(tools)@) == scan_lines(tools_view(old(tools)@), lines_of(content@)),
        final(tools)@.len() >= old(tools)@.len(),
        forall|i: int| 0 <= i < old(tools)@.len() ==> #[trigger] final(tools)@[i] == old(tools)@[i],
        forall|i: int| old(tools)@.len() <= i < final(tools)@.len() ==> #[trigger] inputs_view(final(tools)@[i]) == no_inputs(),
{
    let cs = chars_of(content);
    let lines = lines_chars(cs.as_slice());
    let ghost all = lines_of(content@);
    let mut i: usize = 0;
    while i < lines.len()
        invariant
            i <= lines@.len(),
            lines@.len() == all.len(),
            all == lines_of(content@),
            forall|k: int| 0 <= k < lines@.len() ==> (#[trigger] lines@[k])@ == all[k],
            tools_view(tools@) == scan_lines(tools_view(old(tools)@), all.take(i as int)),
            tools@.len() >= old(tools)@.len(),
            forall|k: int| 0 <= k < old(tools)@.len() ==> #[trigger] tools@[k] == old(tools)@[k],
            forall|k: int| old(tools)@.len() <= k < tools@.len() ==> #[trigger] inputs_view(tools@[k]) == no_inputs(),
        decreases lines.len() - i,
    {
        let line = string_from_chars(lines[i].as_slice());
        assert(line@ == all[i as int]);
        assert(all.take(i + 1).drop_last() =~= all.take(i as int));
        assert(all.take(i + 1).last() == all[i as int]);
        if contains_str(line.as_str(), "@agent-tool:") {
            if let Some(t) = parse_agent_tool_marker(line.as_str()) {
                if !has_tool(tools, t.name.as_str()) {
                    let ghost before = tools@;
                    assert(params_view(t.params@) =~= Seq::empty());
                    assert(texts_view(t.required@) =~= Seq::empty());
                    tools.push(t);
                    assert(tools_view(tools@) =~= tools_view(before).push(tool_view(t)));
                }
            }
        }
        i = i + 1;
    }
    assert(all.take(lines@.len() as int) =~= all);
}

/// The sources of one package, as read from disk.
#[derive(Debug, Clone)]
pub struct PackageSources {
    /// The package folder's name.
    pub name: String,
    /// Its README, if there is one that could be read.
    pub readme: Option<String>,
    /// The Rust sources under its `src`, in walk order.
    pub sources: Vec<String>,
}

/// Where tools are looked for.
#[derive(Debug, Clone)]
pub enum ToolSources {
    /// A workspace with a `packages` folder: the packages in listing order.
    Packages(Vec<PackageSources>),
    /// A single crate: the Rust sources under `src`, in walk order.
    Flat(Vec<String>),
}

/// The tools after scanning the sources `srcs` in order.
pub open spec fn scan_sources(tools: Seq<(Seq<char>, Seq<char>)>, srcs: Seq<String>) -> Seq<(Seq<char>, Seq<char>)>
    decreases srcs.len(),
{
    if srcs.len() == 0 {
        tools
    } else {
        scan_lines(scan_sources(tools, srcs.drop_last()), lines_of(srcs.last()@))
    }
}

/// The tools after one package: its README tool if the README advertises
/// capabilities, then the tools marked in its sources.
pub open spec fn scan_package(tools: Seq<(Seq<char>, Seq<char>)>, p: PackageSources) -> Seq<(Seq<char>, Seq<char>)> {
    let with_readme = match p.readme {
        Some(r) => if advertises_capability(r@) { tools.push(package_tool_view(p.name@)) } else { tools },
        None => tools,
    };
    scan_sources(with_readme, p.sources@)
}

/// The tools after the packages `ps` in order.
pub open spec fn scan_packages(tools: Seq<(Seq<char>, Seq<char>)>, ps: Seq<PackageSources>) -> Seq<(Seq<char>, Seq<char>)>
    decreases ps.len(),
{
    if ps.len() == 0 {
        tools
    } else {
        scan_package(scan_packages(tools, ps.drop_last()), ps.last())
    }
}

/// The tools of a project: the built-in ones, then what its sources add.
pub open spec fn project_tools(src: ToolSources) -> Seq<(Seq<char>, Seq<char>)> {
    match src {
        ToolSources::Packages(ps) => scan_packages(base_tools_view(), ps@),
        ToolSources::Flat(srcs) => scan_sources(base_tools_view(), srcs@),
    }
}

/// The inputs of the tools of a project: the built-in tools' inputs, then
/// none for each tool that the sources add.
pub open spec fn project_tool_inputs(src: ToolSources) -> Seq<(Seq<(Seq<char>, KindView, Option<Seq<char>>)>, Seq<Seq<char>>)> {
    Seq::new(
        project_tools(src).len(),
        |i: int| if i < base_tool_inputs().len() { base_tool_inputs()[i] } else { no_inputs() },
    )
}

/// Whether the inputs of `tools` are those of the built-in tools first and
/// none after them.
pub open spec fn inputs_from_base(tools: Seq<ToolSpec>) -> bool {
    &&& tools.len() >= base_tool_inputs().len()
    &&& forall|i: int| 0 <= i < tools.len() ==> #[trigger] inputs_view(tools[i]) == (if i
        < base_tool_inputs().len() { base_tool_inputs()[i] } else { no_inputs() })
}

fn scan_all_sources(tools: &mut Vec<ToolSpec>, srcs: &Vec<String>)
    ensures
        tools_view(final(tools)@) == scan_sources(tools_view(old(tools)@), srcs@),
        final(tools)@.len() >= old(tools)@.len(),
        forall|i: int| 0 <= i < old(tools)@.len() ==> #[trigger] final(tools)@[i] == old(tools)@[i],
        forall|i: int| old(tools)@.len() <= i < final(tools)@.len() ==> #[trigger] inputs_view(final(tools)@[i]) == no_inputs(),
{
    let mut i: usize = 0;
    while i < srcs.len()
        invariant
            i <= srcs@.len(),
            tools_view(tools@) == scan_sources(tools_view(old(tools)@), srcs@.take(i as int)),
            tools@.len() >= old(tools)@.len(),
            forall|k: int| 0 <= k < old(tools)@.len() ==> #[trigger] tools@[k] == old(tools)@[k],
            forall|k: int| old(tools)@.len() <= k < tools@.len() ==> #[trigger] inputs_view(tools@[k]) == no_inputs(),
        decreases srcs.len() - i,
    {
        let ghost mid = tools@;
        scan_source_for_tools(tools, srcs[i].as_str());
        assert forall|k: int| old(tools)@.len() <= k < tools@.len() implies #[trigger] inputs_view(tools@[k]) == no_inputs() by {
            if k < mid.len() {
                assert(tools@[k] == mid[k]);
            }
        }
        assert(srcs@.take(i + 1).drop_last() =~= srcs@.take(i as int));
        i = i + 1;
    }
    assert(srcs@.take(srcs@.len() as int) =~= srcs@);
}

/// The tools the agent offers for a project whose sources are `src`.
pub fn generate_tools_spec(src: &ToolSources) -> (tools: Vec<ToolSpec>)
    ensures
        tools_view(tools@) == project_tools(*src),
        tools@.map_values(|t: ToolSpec| inputs_view(t)) == project_tool_inputs(*src),
{
    let mut tools = base_tools();
    assert(inputs_from_base(tools@)) by {
        assert forall|i: int| 0 <= i < tools@.len() implies #[trigger] inputs_view(tools@[i]) == (if i
            < base_tool_inputs().len() { base_tool_inputs()[i] } else { no_inputs() }) by {
            assert(tools@.map_values(|t: ToolSpec| inputs_view(t))[i] == inputs_view(tools@[i]));
        }
    }
    match src {
        ToolSources::Packages(ps) => {
            let mut i: usize = 0;
            while i < ps.len()
                invariant
                    i <= ps@.len(),
                    tools_view(tools@) == scan_packages(base_tools_view(), ps@.take(i as int)),
                    inputs_from_base(tools@),
                decreases ps.len() - i,
            {
                let p = &ps[i];
                if let Some(readme) = &p.readme {
                    if readme_advertises_capability(readme.as_str()) {
                        let ghost before = tools@;
                        let t = package_tool(p.name.as_str());
                        assert(params_view(t.params@) =~= Seq::empty());
                        assert(texts_view(t.required@) =~= Seq::empty());
                        tools.push(t);
                        assert(inputs_from_base(tools@)) by {
                            assert forall|k: int| 0 <= k < tools@.len() implies #[trigger] inputs_view(tools@[k]) == (if k
                                < base_tool_inputs().len() { base_tool_inputs()[k] } else { no_inputs() }) by {
                                if k < before.len() {
                                    assert(tools@[k] == before[k]);
                                }
                            }
                        }
                        assert(tools_view(tools@) =~= tools_view(before).push(package_tool_view(p.name@)));
                    }
                }
                let ghost mid = tools@;
                scan_all_sources(&mut tools, &p.sources);
                assert(inputs_from_base(tools@)) by {
                    assert forall|k: int| 0 <= k < tools@.len() implies #[trigger] inputs_view(tools@[k]) == (if k
                        < base_tool_inputs().len() { base_tool_inputs()[k] } else { no_inputs() }) by {
                        if k < mid.len() {
                            assert(tools@[k] == mid[k]);
                        }
                    }
                }
                assert(ps@.take(i + 1).drop_last() =~= ps@.take(i as int));
                i = i + 1;
            }
            assert(ps@.take(ps@.len() as int) =~= ps@);
        },
        ToolSources::Flat(srcs) => {
            let ghost mid = tools@;
            scan_all_sources(&mut tools, srcs);
            assert(inputs_from_base(tools@)) by {
                assert forall|k: int| 0 <= k < tools@.len() implies #[trigger] inputs_view(tools@[k]) == (if k
                    < base_tool_inputs().len() { base_tool_inputs()[k] } else { no_inputs() }) by {
                    if k < mid.len() {
                        assert(tools@[k] == mid[k]);
                    }
                }
            }
        },
    }
    assert(tools_view(tools@).len() == tools@.len());
    assert(tools@.map_values(|t: ToolSpec| inputs_view(t)) =~= project_tool_inputs(*src));
    tools
}

/// Whether the package has a README that advertises capabilities.
pub open spec fn readme_advertises(p: PackageSources) -> bool {
    match p.readme {
        Some(r) => advertises_capability(r@),
        None => false,
    }
}

/// Whether `b` begins with the tools `a`.
pub open spec fn keeps_tools(a: Seq<(Seq<char>, Seq<char>)>, b: Seq<(Seq<char>, Seq<char>)>) -> bool {
    a.len() <= b.len() && forall|i: int| 0 <= i < a.len() ==> #[trigger] b[i] == a[i]
}

proof fn lemma_keeps_trans(
    a: Seq<(Seq<char>, Seq<char>)>,
    b: Seq<(Seq<char>, Seq<char>)>,
    c: Seq<(Seq<char>, Seq<char>)>,
)
    requires
        keeps_tools(a, b),
        keeps_tools(b, c),
    ensures
        keeps_tools(a, c),
{
    assert forall|i: int| 0 <= i < a.len() implies #[trigger] c[i] == a[i] by {
        assert(c[i] == b[i]);
    }
}

proof fn lemma_scan_lines_keeps(tools: Seq<(Seq<char>, Seq<char>)>, lines: Seq<Seq<char>>)
    ensures
        keeps_tools(tools, scan_lines(tools, lines)),
    decreases lines.len(),
{
    if lines.len() > 0 {
        lemma_scan_lines_keeps(tools, lines.drop_last());
        let before = scan_lines(tools, lines.drop_last());
        assert(keeps_tools(before, scan_line(before, lines.last())));
        lemma_keeps_trans(tools, before, scan_lines(tools, lines));
    }
}

proof fn lemma_scan_sources_keeps(tools: Seq<(Seq<char>, Seq<char>)>, srcs: Seq<String>)
    ensures
        keeps_tools(tools, scan_sources(tools, srcs)),
    decreases srcs.len(),
{
    if srcs.len() > 0 {
        lemma_scan_sources_keeps(tools, srcs.drop_last());
        let before = scan_sources(tools, srcs.drop_last());
        lemma_scan_lines_keeps(before, lines_of(srcs.last()@));
        lemma_keeps_trans(tools, before, scan_sources(tools, srcs));
    }
}

proof fn lemma_scan_package_keeps(tools: Seq<(Seq<char>, Seq<char>)>, p: PackageSources)
    ensures
        keeps_tools(tools, scan_package(tools, p)),
        readme_advertises(p) ==> scan_package(tools, p)[tools.len() as int] == package_tool_view(p.name@)
            && scan_package(tools, p).len() > tools.len(),
{
    let with_readme = match p.readme {
        Some(r) => if advertises_capability(r@) { tools.push(package_tool_view(p.name@)) } else { tools },
        None => tools,
    };
    assert(keeps_tools(tools, with_readme));
    lemma_scan_sources_keeps(with_readme, p.sources@);
    lemma_keeps_trans(tools, with_readme, scan_package(tools, p));
    if readme_advertises(p) {
        assert(with_readme[tools.len() as int] == package_tool_view(p.name@));
    }
}

proof fn lemma_scan_packages_keeps(tools: Seq<(Seq<char>, Seq<char>)>, ps: Seq<PackageSources>)
    ensures
        keeps_tools(tools, scan_packages(tools, ps)),
    decreases ps.len(),
{
    if ps.len() > 0 {
        lemma_scan_packages_keeps(tools, ps.drop_last());
        let before = scan_packages(tools, ps.drop_last());
        lemma_scan_package_keeps(before, ps.last());
        lemma_keeps_trans(tools, before, scan_packages(tools, ps));
    }
}

/// Every package is scanned: the tools of a workspace begin with the
/// built-in tools, and each package whose README advertises capabilities,
/// wherever it stands in the list, has its `montrs_pkg_<name>` tool among
/// them.
pub proof fn law_every_advertising_package_listed(src: ToolSources, k: int)
    requires
        src is Packages,
        0 <= k < src->Packages_0@.len(),
        readme_advertises(src->Packages_0@[k]),
    ensures
        keeps_tools(base_tools_view(), project_tools(src)),
        exists|i: int| 0 <= i < project_tools(src).len() && #[trigger] project_tools(src)[i] == package_tool_view(
            src->Packages_0@[k].name@,
        ),
{
    let ps = src->Packages_0@;
    assert(project_tools(src) == scan_packages(base_tools_view(), ps));
    lemma_scan_packages_keeps(base_tools_view(), ps);
    lemma_package_listed(base_tools_view(), ps, k);
    let i = choose|i: int| 0 <= i < scan_packages(base_tools_view(), ps).len()
        && #[trigger] scan_packages(base_tools_view(), ps)[i] == package_tool_view(ps[k].name@);
    assert(project_tools(src)[i] == package_tool_view(ps[k].name@));
}

proof fn lemma_package_listed(tools: Seq<(Seq<char>, Seq<char>)>, ps: Seq<PackageSources>, k: int)
    requires
        0 <= k < ps.len(),
        readme_advertises(ps[k]),
    ensures
        exists|i: int| 0 <= i < scan_packages(tools, ps).len() && #[trigger] scan_packages(tools, ps)[i]
            == package_tool_view(ps[k].name@),
    decreases ps.len(),
{
    let rest = ps.drop_last();
    let before = scan_packages(tools, rest);
    let after = scan_packages(tools, ps);
    lemma_scan_package_keeps(before, ps.last());
    if k == ps.len() - 1 {
        assert(after[before.len() as int] == package_tool_view(ps[k].name@));
    } else {
        assert(rest[k] == ps[k]);
        lemma_package_listed(tools, rest, k);
        let i = choose|i: int| 0 <= i < before.len() && #[trigger] before[i] == package_tool_view(rest[k].name@);
        assert(after[i] == before[i]);
    }
}

/// No tool name is listed twice by scanning, if none was before.
pub open spec fn names_distinct(tools: Seq<(Seq<char>, Seq<char>)>) -> bool {
    forall|i: int, j: int| 0 <= i < j < tools.len() ==> tools[i].0 != tools[j].0
}

/// Scanning source lines never lists a tool name twice: a marked tool whose
/// name is already listed is left out.
pub proof fn law_scan_keeps_names_distinct(tools: Seq<(Seq<char>, Seq<char>)>, lines: Seq<Seq<char>>)
    requires
        names_distinct(tools),
    ensures
        names_distinct(scan_lines(tools, lines)),
        scan_lines(tools, lines).len() >= tools.len(),
        forall|i: int| 0 <= i < tools.len() ==> #[trigger] scan_lines(tools, lines)[i] == tools[i],
    decreases lines.len(),
{
    if lines.len() > 0 {
        law_scan_keeps_names_distinct(tools, lines.drop_last());
        let before = scan_lines(tools, lines.drop_last());
        let line = lines.last();
        if seq_contains(line, "@agent-tool:"@) {
            if let Some(f) = marker_fields(line) {
                if !has_tool_named(before, f.0) {
                    let after = before.push(f);
                    assert forall|i: int, j: int| 0 <= i < j < after.len() implies after[i].0 != after[j].0 by {
                        if j == before.len() {
                            assert(after[i] == before[i]);
                        }
                    }
                }
            }
        }
    }
}

} // verus!
