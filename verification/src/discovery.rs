//! The project snapshot an agent reads: the files of the project with the
//! doc line of each Rust source, and the plates and routes found by looking
//! for their trait impls.
use vstd::prelude::*;
use crate::agent::Timestamp;
use crate::text::{
    chars_of, lines_chars, lines_of, push_str, seq_starts_with, str_eq, string_from_chars, trim_chars,
    trim_spec, trim_start_matches_chars, trim_start_matches_spec,
};
use crate::tools::{regex_group_matches};

verus! {

/// What a single line tells about its file: a `//!` or `///` comment line
/// gives its text, trimmed, unless that is empty.
pub open spec fn line_description(line: Seq<char>) -> Option<Seq<char>> {
    let t = trim_spec(line);
    if seq_starts_with(t, "//!"@) || seq_starts_with(t, "///"@) {
        let d = trim_spec(trim_start_matches_spec(trim_start_matches_spec(t, "//!"@), "///"@));
        if d.len() > 0 { Some(d) } else { None }
    } else {
        None
    }
}

/// The first description among `lines`.
pub open spec fn first_description(lines: Seq<Seq<char>>) -> Option<Seq<char>>
    decreases lines.len(),
{
    if lines.len() == 0 {
        None
    } else {
        match line_description(lines[0]) {
            Some(d) => Some(d),
            None => first_description(lines.drop_first()),
        }
    }
}

/// The description of a source file: its first non-empty doc comment line.
pub open spec fn file_description(content: Seq<char>) -> Option<Seq<char>> {
    first_description(lines_of(content))
}

fn describe_line(line: &Vec<char>) -> (d: Option<Vec<char>>)
    ensures
        match line_description(line@) {
            Some(x) => d matches Some(v) && v@ == x,
            None => d is None,
        },
{
    let t = trim_chars(line.as_slice());
    let bang = chars_of("//!");
    let slash = chars_of("///");
    proof {
        reveal_strlit("//!");
        reveal_strlit("///");
    }
    if crate::text::matches_at(t.as_slice(), bang.as_slice(), 0)
        || crate::text::matches_at(t.as_slice(), slash.as_slice(), 0) {
        let a = trim_start_matches_chars(t.as_slice(), bang.as_slice());
        let b = trim_start_matches_chars(a.as_slice(), slash.as_slice());
        let d = trim_chars(b.as_slice());
        if d.len() > 0 {
            Some(d)
        } else {
            None
        }
    } else {
        None
    }
}

/// The description of the source text `content`: the first `//!` or `///`
/// comment line whose text is not empty, trimmed.
pub fn get_file_description(content: &str) -> (d: Option<String>)
    ensures
        match file_description(content@) {
            Some(x) => d matches Some(s) && s@ == x,
            None => d is None,
        },
{
    let cs = chars_of(content);
    let lines = lines_chars(cs.as_slice());
    let ghost all = lines_of(content@);
    assert(all.subrange(0, all.len() as int) =~= all);
    let mut i: usize = 0;
    while i < lines.len()
        invariant
            i <= lines@.len(),
            lines@.len() == all.len(),
            all == lines_of(content@),
            forall|k: int| 0 <= k < lines@.len() ==> (#[trigger] lines@[k])@ == all[k],
            first_description(all) == first_description(all.subrange(i as int, all.len() as int)),
        decreases lines.len() - i,
    {
        let ghost rest = all.subrange(i as int, all.len() as int);
        assert(rest[0] == lines@[i as int]@);
        assert(rest.drop_first() =~= all.subrange(i + 1, all.len() as int));
        match describe_line(&lines[i]) {
            Some(d) => {
                return Some(string_from_chars(d.as_slice()));
            },
            None => {},
        }
        i = i + 1;
    }
    assert(all.subrange(i as int, all.len() as int) =~= Seq::<Seq<char>>::empty());
    None
}

/// A file of the project, by its path relative to the root.
#[derive(Debug, Clone)]
pub struct FileEntry {
    pub path: String,
    pub description: Option<String>,
}

/// A plate found in the project.
#[derive(Debug, Clone)]
pub struct PlateSummary {
    pub name: String,
    pub description: String,
    pub metadata: Vec<(String, String)>,
}

/// A route found in the project. Schemas are JSON texts.
#[derive(Debug, Clone)]
pub struct RouteSummary {
    pub path: String,
    pub description: String,
    pub params_schema: Option<String>,
    pub loader_output_schema: Option<String>,
    pub action_input_schema: Option<String>,
    pub action_output_schema: Option<String>,
    pub metadata: Vec<(String, String)>,
}

/// What a project snapshot holds.
#[derive(Debug, Clone)]
pub struct AgentSnapshot {
    pub project_name: String,
    pub timestamp: Timestamp,
    pub framework_version: String,
    pub structure: Vec<FileEntry>,
    pub plates: Vec<PlateSummary>,
    pub routes: Vec<RouteSummary>,
    pub documentation_snippets: Vec<(String, String)>,
}

/// A `Plate` impl: `impl Plate for Name` (generic arguments allowed).
pub const PLATE_IMPL_PATTERN: &'static str = "impl\\s+Plate(?:<[^>]+>)?\\s+for\\s+(\\w+)";

/// A `Route` impl: `impl Route for Name` (generic arguments allowed).
pub const ROUTE_IMPL_PATTERN: &'static str = "impl\\s+Route(?:<[^>]+>)?\\s+for\\s+(\\w+)";

/// The names that the impls matched by `pattern` in `content` are for, in
/// order (matches whose group took no part are skipped).
pub open spec fn impl_names(pattern: Seq<char>, content: Seq<char>) -> Seq<Seq<char>> {
    present_names(regex_group_matches(pattern, content, 1))
}

/// The present entries of `ms`, in order.
pub open spec fn present_names(ms: Seq<Option<Seq<char>>>) -> Seq<Seq<char>>
    decreases ms.len(),
{
    if ms.len() == 0 {
        Seq::empty()
    } else {
        let rest = present_names(ms.drop_last());
        match ms.last() {
            Some(n) => rest.push(n),
            None => rest,
        }
    }
}

/// The names of the impls matched by `pattern` in `content`.
fn impl_names_exec(pattern: &str, content: &str) -> (names: Vec<String>)
    ensures
        names@.len() == impl_names(pattern@, content@).len(),
        forall|i: int| 0 <= i < names@.len() ==> (#[trigger] names@[i])@ == impl_names(pattern@, content@)[i],
{
    let ms = crate::tools::all_group_matches(pattern, content, 1);
    let ghost spec_ms = regex_group_matches(pattern@, content@, 1);
    let mut names: Vec<String> = Vec::new();
    let mut i: usize = 0;
    while i < ms.len()
        invariant
            i <= ms@.len(),
            ms@.len() == spec_ms.len(),
            spec_ms == regex_group_matches(pattern@, content@, 1),
            forall|k: int| 0 <= k < ms@.len() ==> (match #[trigger] ms@[k] {
                Some(s) => spec_ms[k] == Some(s@),
                None => spec_ms[k] is None,
            }),
            names@.len() == present_names(spec_ms.take(i as int)).len(),
            forall|k: int| 0 <= k < names@.len() ==> (#[trigger] names@[k])@ == present_names(spec_ms.take(i as int))[k],
        decreases ms.len() - i,
    {
        assert(spec_ms.take(i + 1).drop_last() =~= spec_ms.take(i as int));
        assert(spec_ms.take(i + 1).last() == spec_ms[i as int]);
        match &ms[i] {
            Some(n) => {
                names.push(n.clone());
            },
            None => {},
        }
        i = i + 1;
    }
    assert(spec_ms.take(ms@.len() as int) =~= spec_ms);
    names
}

/// Plate names and descriptions, and route names, found so far.
pub open spec fn plate_view(p: PlateSummary) -> (Seq<char>, Seq<char>) {
    (p.name@, p.description@)
}

/// The plates after adding those of one file: each plate name not yet
/// listed is added with the file's description (or "Discovered plate").
pub open spec fn add_plates(plates: Seq<(Seq<char>, Seq<char>)>, names: Seq<Seq<char>>, desc: Seq<char>) -> Seq<(Seq<char>, Seq<char>)>
    decreases names.len(),
{
    if names.len() == 0 {
        plates
    } else {
        let before = add_plates(plates, names.drop_last(), desc);
        if exists|i: int| 0 <= i < before.len() && before[i].0 == names.last() {
            before
        } else {
            before.push((names.last(), desc))
        }
    }
}

/// The description plates of a file get.
pub open spec fn plate_description(content: Seq<char>) -> Seq<char> {
    match file_description(content) {
        Some(d) => d,
        None => "Discovered plate"@,
    }
}

/// The plates found in `files`, in order.
pub open spec fn plates_in(files: Seq<String>) -> Seq<(Seq<char>, Seq<char>)>
    decreases files.len(),
{
    if files.len() == 0 {
        Seq::empty()
    } else {
        add_plates(
            plates_in(files.drop_last()),
            impl_names(PLATE_IMPL_PATTERN@, files.last()@),
            plate_description(files.last()@),
        )
    }
}

/// The route names found in `files`, in order, repeats included.
pub open spec fn route_names_in(files: Seq<String>) -> Seq<Seq<char>>
    decreases files.len(),
{
    if files.len() == 0 {
        Seq::empty()
    } else {
        route_names_in(files.drop_last()) + impl_names(ROUTE_IMPL_PATTERN@, files.last()@)
    }
}

/// The route entry for an impl found for `name`.
pub open spec fn route_view(r: RouteSummary) -> (Seq<char>, Seq<char>) {
    (r.path@, r.description@)
}

/// Whether a found route carries no schemas and no metadata.
pub open spec fn bare_route(r: RouteSummary) -> bool {
    &&& r.params_schema is None
    &&& r.loader_output_schema is None
    &&& r.action_input_schema is None
    &&& r.action_output_schema is None
    &&& r.metadata@.len() == 0
}

/// What a route found for `name` is listed as.
pub open spec fn discovered_route(name: Seq<char>) -> (Seq<char>, Seq<char>) {
    ("(impl) "@ + name, "Heuristically discovered Route: "@ + name)
}

fn route_for(name: &str) -> (r: RouteSummary)
    ensures
        route_view(r) == discovered_route(name@),
        bare_route(r),
{
    let mut path = "(impl) ".to_owned();
    push_str(&mut path, name);
    let mut description = "Heuristically discovered Route: ".to_owned();
    push_str(&mut description, name);
    RouteSummary {
        path,
        description,
        params_schema: None,
        loader_output_schema: None,
        action_input_schema: None,
        action_output_schema: None,
        metadata: Vec::new(),
    }
}

fn plate_listed(plates: &Vec<PlateSummary>, name: &str) -> (b: bool)
    ensures
        b == exists|i: int| 0 <= i < plates@.len() && plates@[i].name@ == name@,
{
    let mut i: usize = 0;
    while i < plates.len()
        invariant
            i <= plates@.len(),
            forall|j: int| 0 <= j < i ==> plates@[j].name@ != name@,
        decreases plates.len() - i,
    {
        if str_eq(plates[i].name.as_str(), name) {
            return true;
        }
        i = i + 1;
    }
    false
}

/// Finds plates and routes in the Rust sources `files` by their
/// `impl Plate for ..` and `impl Route for ..` lines: each plate once, with
/// the description of the first file it is found in; each route impl as
/// found.
pub fn discover_plates_heuristically(files: &Vec<String>) -> (found: (Vec<PlateSummary>, Vec<RouteSummary>))
    ensures
        found.0@.map_values(|p: PlateSummary| plate_view(p)) == plates_in(files@),
        found.1@.map_values(|r: RouteSummary| route_view(r)) == route_names_in(files@).map_values(
            |n: Seq<char>| discovered_route(n),
        ),
        forall|i: int| 0 <= i < found.0@.len() ==> (#[trigger] found.0@[i]).metadata@.len() == 0,
        forall|i: int| 0 <= i < found.1@.len() ==> bare_route(#[trigger] found.1@[i]),
{
    let mut plates: Vec<PlateSummary> = Vec::new();
    let mut routes: Vec<RouteSummary> = Vec::new();
    let mut f: usize = 0;
    while f < files.len()
        invariant
            f <= files@.len(),
            plates@.map_values(|p: PlateSummary| plate_view(p)) == plates_in(files@.take(f as int)),
            routes@.map_values(|r: RouteSummary| route_view(r)) == route_names_in(files@.take(f as int)).map_values(
                |n: Seq<char>| discovered_route(n),
            ),
            forall|i: int| 0 <= i < plates@.len() ==> (#[trigger] plates@[i]).metadata@.len() == 0,
            forall|i: int| 0 <= i < routes@.len() ==> bare_route(#[trigger] routes@[i]),
        decreases files.len() - f,
    {
        let content = files[f].as_str();
        assert(files@.take(f + 1).drop_last() =~= files@.take(f as int));
        assert(files@.take(f + 1).last() == files@[f as int]);
        let plate_names = impl_names_exec(PLATE_IMPL_PATTERN, content);
        let ghost spec_names = impl_names(PLATE_IMPL_PATTERN@, content@);
        let desc = match get_file_description(content) {
            Some(d) => d,
            None => "Discovered plate".to_owned(),
        };
        assert(desc@ == plate_description(content@));
        let ghost base = plates@.map_values(|p: PlateSummary| plate_view(p));
        let mut k: usize = 0;
        while k < plate_names.len()
            invariant
                k <= plate_names@.len(),
                plate_names@.len() == spec_names.len(),
                forall|j: int| 0 <= j < plate_names@.len() ==> (#[trigger] plate_names@[j])@ == spec_names[j],
                plates@.map_values(|p: PlateSummary| plate_view(p)) == add_plates(base, spec_names.take(k as int), desc@),
                forall|i: int| 0 <= i < plates@.len() ==> (#[trigger] plates@[i]).metadata@.len() == 0,
            decreases plate_names.len() - k,
        {
            let name = plate_names[k].as_str();
            assert(spec_names.take(k + 1).drop_last() =~= spec_names.take(k as int));
            assert(spec_names.take(k + 1).last() == name@);
            let ghost before = plates@.map_values(|p: PlateSummary| plate_view(p));
            if !plate_listed(&plates, name) {
                assert(!exists|i: int| 0 <= i < before.len() && before[i].0 == name@) by {
                    if exists|i: int| 0 <= i < before.len() && before[i].0 == name@ {
                        let i = choose|i: int| 0 <= i < before.len() && before[i].0 == name@;
                        assert(plates@[i].name@ == name@);
                    }
                }
                let p = PlateSummary { name: name.to_owned(), description: desc.clone(), metadata: Vec::new() };
                let ghost prev = plates@;
                plates.push(p);
                assert(plates@.map_values(|p: PlateSummary| plate_view(p)) =~= before.push((name@, desc@)));
            } else {
                assert(exists|i: int| 0 <= i < before.len() && before[i].0 == name@) by {
                    let i = choose|i: int| 0 <= i < plates@.len() && plates@[i].name@ == name@;
                    assert(before[i] == plate_view(plates@[i]));
                }
            }
            k = k + 1;
        }
        assert(spec_names.take(plate_names@.len() as int) =~= spec_names);
        let route_names = impl_names_exec(ROUTE_IMPL_PATTERN, content);
        let ghost rnames = impl_names(ROUTE_IMPL_PATTERN@, content@);
        let ghost rbase = route_names_in(files@.take(f as int));
        let mut k: usize = 0;
        while k < route_names.len()
            invariant
                k <= route_names@.len(),
                route_names@.len() == rnames.len(),
                forall|j: int| 0 <= j < route_names@.len() ==> (#[trigger] route_names@[j])@ == rnames[j],
                routes@.map_values(|r: RouteSummary| route_view(r)) == (rbase + rnames.take(k as int)).map_values(
                    |n: Seq<char>| discovered_route(n),
                ),
                forall|i: int| 0 <= i < routes@.len() ==> bare_route(#[trigger] routes@[i]),
            decreases route_names.len() - k,
        {
            let ghost before = routes@;
            assert(route_names@[k as int]@ == rnames[k as int]);
            let r = route_for(route_names[k].as_str());
            routes.push(r);
            assert(routes@.map_values(|r: RouteSummary| route_view(r)) =~= before.map_values(
                |r: RouteSummary| route_view(r),
            ).push(route_view(r)));
            assert(rbase + rnames.take(k + 1) =~= (rbase + rnames.take(k as int)).push(rnames[k as int]));
            assert(routes@.map_values(|r: RouteSummary| route_view(r)) =~= (rbase + rnames.take(k + 1)).map_values(
                |n: Seq<char>| discovered_route(n),
            ));
            k = k + 1;
        }
        assert(rnames.take(route_names@.len() as int) =~= rnames);
        f = f + 1;
    }
    assert(files@.take(files@.len() as int) =~= files@);
    (plates, routes)
}

/// Whether the walk of the project descends into an entry called `name`:
/// not into `.git`, `target` or `.agent`.
pub fn is_walkable_entry(name: &str) -> (b: bool)
    ensures
        b == (name@ != ".git"@ && name@ != "target"@ && name@ != ".agent"@),
{
    !str_eq(name, ".git") && !str_eq(name, "target") && !str_eq(name, ".agent")
}

/// The extension of the last component of `path`, as `Path::extension`
/// finds it: the text after the last `.` of the file name, unless that dot
/// starts the name.
pub open spec fn path_extension(path: Seq<char>) -> Option<Seq<char>> {
    let start = last_slash_end(path, path.len() as int);
    let name = path.subrange(start, path.len() as int);
    let dot = last_dot(name, name.len() as int);
    if dot <= 0 {
        None
    } else {
        Some(name.subrange(dot + 1, name.len() as int))
    }
}

/// The index just after the last `/` before `end` (0 when there is none).
pub open spec fn last_slash_end(path: Seq<char>, end: int) -> int
    decreases end,
{
    if end <= 0 {
        0
    } else if path[end - 1] == '/' {
        end
    } else {
        last_slash_end(path, end - 1)
    }
}

/// The index of the last `.` before `end` (-1 when there is none).
pub open spec fn last_dot(name: Seq<char>, end: int) -> int
    decreases end,
{
    if end <= 0 {
        -1
    } else if name[end - 1] == '.' {
        end - 1
    } else {
        last_dot(name, end - 1)
    }
}

/// Whether `path` names a Rust source: its extension is `rs`.
pub fn is_rust_source(path: &str) -> (b: bool)
    ensures
        b == (path_extension(path@) == Some("rs"@)),
{
    let cs = chars_of(path);
    let n = cs.len();
    let mut start: usize = n;
    while start > 0 && cs[start - 1] != '/'
        invariant
            start <= n,
            n == cs@.len(),
            last_slash_end(cs@, n as int) == last_slash_end(cs@, start as int),
        decreases start,
    {
        start = start - 1;
    }
    let ghost name = cs@.subrange(start as int, n as int);
    let mut d: usize = n;
    while d > start && cs[d - 1] != '.'
        invariant
            start <= d <= n,
            n == cs@.len(),
            name == cs@.subrange(start as int, n as int),
            last_dot(name, name.len() as int) == last_dot(name, d - start),
        decreases d,
    {
        assert(name[d - start - 1] == cs@[d - 1]);
        d = d - 1;
    }
    if d == start {
        assert(last_dot(name, 0) == -1);
        return false;
    }
    assert(name[d - start - 1] == cs@[d - 1]);
    let dot = d - 1;
    if dot == start {
        return false;
    }
    proof {
        reveal_strlit("rs");
    }
    let ext_ok = n - d == 2 && cs[d] == 'r' && cs[d + 1] == 's';
    proof {
        let ext = name.subrange(d - start, name.len() as int);
        assert(ext =~= cs@.subrange(d as int, n as int));
        if ext_ok {
            assert(ext =~= "rs"@);
        } else if ext == "rs"@ {
            assert(ext.len() == 2);
            assert(ext[0] == cs@[d as int]);
            assert(ext[1] == cs@[d + 1]);
        }
    }
    ext_ok
}

/// A file met by the walk of the project.
#[derive(Debug, Clone)]
pub struct WalkedFile {
    /// The path relative to the project root.
    pub path: String,
    /// The text of the file, for a Rust source that could be read.
    pub content: Option<String>,
}

/// The entry a walked file gets: Rust sources carry their description.
pub open spec fn entry_description(f: WalkedFile) -> Option<Seq<char>> {
    if path_extension(f.path@) == Some("rs"@) {
        match f.content {
            Some(c) => file_description(c@),
            None => None,
        }
    } else {
        None
    }
}

/// The version of the framework a snapshot describes.
pub const FRAMEWORK_VERSION: &'static str = "0.1.0";

/// The architecture guide embedded in every snapshot.
pub const ARCHITECTURE_GUIDE: &'static str = r#"
# MontRS Architecture Guide
MontRS is a trait-driven, deterministic web framework built on Leptos 0.8.

## Core Concepts
- **AppSpec**: The single source of truth for the application blueprint.
- **Plate**: A unit of composition (Auth, Blog, etc.) that registers unified routes.
- **Unified Route**: A single struct implementing `Route` that unifies Params, Loader, Action, and View.
- **Loaders**: Read-only, idempotent data fetching.
- **Actions**: State-changing mutations.

## How to build a plate
1. Implement the `Plate` trait.
2. Define explicit dependencies using the `dependencies()` method if your plate requires other plates to be initialized first.
3. Define your `Route` implementation (which includes its `Loader`, `Action`, and `View`).
4. Register the route in `register_routes` using `router.register(MyRoute)`.
"#;

/// The debugging guide embedded in every snapshot.
pub const DEBUGGING_GUIDE: &'static str = r#"
# Debugging MontRS
MontRS provides an `errorfile.json` in the `.agent/errorfiles` folder when a build or test fails.
Agents should use these files to understand the context of the error and propose fixes.
"#;


/// A snapshot of the project `project_name` taken at `now`: the walked
/// files in order, each Rust source with its description, the plates and
/// routes found in `sources`, and the architecture and debugging guides.
pub fn generate_snapshot(
    project_name: String,
    now: Timestamp,
    files: &Vec<WalkedFile>,
    sources: &Vec<String>,
) -> (snap: AgentSnapshot)
    ensures
        snap.project_name == project_name,
        snap.timestamp == now,
        snap.framework_version@ == FRAMEWORK_VERSION@,
        snap.structure@.len() == files@.len(),
        forall|i: int| 0 <= i < files@.len() ==> {
            &&& (#[trigger] snap.structure@[i]).path@ == files@[i].path@
            &&& match entry_description(files@[i]) {
                Some(d) => snap.structure@[i].description matches Some(x) && x@ == d,
                None => snap.structure@[i].description is None,
            }
        },
        snap.plates@.map_values(|p: PlateSummary| plate_view(p)) == plates_in(sources@),
        snap.routes@.map_values(|r: RouteSummary| route_view(r)) == route_names_in(sources@).map_values(
            |n: Seq<char>| discovered_route(n),
        ),
        forall|i: int| 0 <= i < snap.plates@.len() ==> (#[trigger] snap.plates@[i]).metadata@.len() == 0,
        forall|i: int| 0 <= i < snap.routes@.len() ==> bare_route(#[trigger] snap.routes@[i]),
        snap.documentation_snippets@.len() == 2,
        snap.documentation_snippets@[0].0@ == "architecture"@,
        snap.documentation_snippets@[0].1@ == ARCHITECTURE_GUIDE@,
        snap.documentation_snippets@[1].0@ == "debugging"@,
        snap.documentation_snippets@[1].1@ == DEBUGGING_GUIDE@,
{
    let mut structure: Vec<FileEntry> = Vec::new();
    let mut i: usize = 0;
    while i < files.len()
        invariant
            i <= files@.len(),
            structure@.len() == i,
            forall|k: int| 0 <= k < i ==> {
                &&& (#[trigger] structure@[k]).path@ == files@[k].path@
                &&& match entry_description(files@[k]) {
                    Some(d) => structure@[k].description matches Some(x) && x@ == d,
                    None => structure@[k].description is None,
                }
            },
        decreases files.len() - i,
    {
        let f = &files[i];
        let description = if is_rust_source(f.path.as_str()) {
            match &f.content {
                Some(c) => get_file_description(c.as_str()),
                None => None,
            }
        } else {
            None
        };
        structure.push(FileEntry { path: f.path.clone(), description });
        i = i + 1;
    }
    let (plates, routes) = discover_plates_heuristically(sources);
    let documentation_snippets = vec![
        ("architecture".to_owned(), ARCHITECTURE_GUIDE.to_owned()),
        ("debugging".to_owned(), DEBUGGING_GUIDE.to_owned()),
    ];
    AgentSnapshot {
        project_name,
        timestamp: now,
        framework_version: FRAMEWORK_VERSION.to_owned(),
        structure,
        plates,
        routes,
        documentation_snippets,
    }
}

/// The file extension a snapshot written in `format` gets: `yaml` and
/// `txt` as asked, `json` for anything else.
pub fn snapshot_extension(format: &str) -> (ext: &'static str)
    ensures
        ext@ == (if format@ == "yaml"@ { "yaml"@ } else if format@ == "txt"@ { "txt"@ } else { "json"@ }),
{
    if str_eq(format, "yaml") {
        "yaml"
    } else if str_eq(format, "txt") {
        "txt"
    } else {
        "json"
    }
}

/// What `git diff HEAD` gave, as the diff of a fix: its output when it
/// succeeded with a non-empty output, else nothing.
pub fn diff_from_output(success: bool, output: String) -> (d: Option<String>)
    ensures
        d == (if success && output@.len() > 0 { Some(output) } else { None::<String> }),
{
    if success && !output.as_str().is_empty() {
        Some(output)
    } else {
        None
    }
}

/// Whether the plate names of a listing are distinct.
pub open spec fn plate_names_distinct(plates: Seq<(Seq<char>, Seq<char>)>) -> bool {
    forall|i: int, j: int| 0 <= i < j < plates.len() ==> plates[i].0 != plates[j].0
}

proof fn lemma_add_plates_distinct(plates: Seq<(Seq<char>, Seq<char>)>, names: Seq<Seq<char>>, desc: Seq<char>)
    requires
        plate_names_distinct(plates),
    ensures
        plate_names_distinct(add_plates(plates, names, desc)),
    decreases names.len(),
{
    if names.len() > 0 {
        lemma_add_plates_distinct(plates, names.drop_last(), desc);
        let before = add_plates(plates, names.drop_last(), desc);
        if !(exists|i: int| 0 <= i < before.len() && before[i].0 == names.last()) {
            let after = before.push((names.last(), desc));
            assert forall|i: int, j: int| 0 <= i < j < after.len() implies after[i].0 != after[j].0 by {
                if j == before.len() {
                    assert(after[i] == before[i]);
                }
            }
        }
    }
}

/// Each plate is listed once, however many files or impls name it: the
/// plate names found are distinct.
pub proof fn law_plates_listed_once(files: Seq<String>)
    ensures
        plate_names_distinct(plates_in(files)),
    decreases files.len(),
{
    if files.len() > 0 {
        law_plates_listed_once(files.drop_last());
        lemma_add_plates_distinct(
            plates_in(files.drop_last()),
            impl_names(PLATE_IMPL_PATTERN@, files.last()@),
            plate_description(files.last()@),
        );
    }
}

} // verus!
