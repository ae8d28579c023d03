//! Example snippets for the generated library: its source text is scanned
//! for modules and components, and each module gets a function that lists a
//! use of every component in it.

use crate::casing::{cased, to_case, Case};
use crate::error::GenerateError;
use crate::text::{from_chars, texts, to_chars};
use crate::pattern::{capture, captured};
use vstd::prelude::*;
use vstd::string::{StringExecFns, StringSliceAdditionalSpecFns};

verus! {

/// The components found in one module.
#[derive(Debug, PartialEq, Eq)]
pub struct Group {
    /// The module's path inside the library, its levels joined by `::`.
    pub module: String,
    /// One use of each component, in the order in which they were found.
    pub components: Vec<String>,
}

/// What a `Group` holds.
pub struct GroupModel {
    pub module: Seq<char>,
    pub components: Seq<Seq<char>>,
}

impl View for Group {
    type V = GroupModel;

    open spec fn view(&self) -> GroupModel {
        GroupModel { module: self.module@, components: texts(self.components@) }
    }
}

/// The views of a list of groups.
pub open spec fn group_models(v: Seq<Group>) -> Seq<GroupModel> {
    v.map_values(|g: Group| g@)
}

/// The levels of `path` joined by `::`.
pub open spec fn joined(path: Seq<Seq<char>>) -> Seq<char>
    decreases path.len(),
{
    if path.len() == 0 {
        Seq::empty()
    } else if path.len() == 1 {
        path[0]
    } else {
        joined(path.drop_last()) + seq![':', ':'] + path.last()
    }
}

/// `path` without its last level, if it has one.
pub open spec fn popped(path: Seq<Seq<char>>) -> Seq<Seq<char>> {
    if path.len() > 0 {
        path.drop_last()
    } else {
        path
    }
}

/// The module path after the head of the module `name` was met at the indent
/// `line_indent`, the last head having stood at `indent`: a head at the same
/// indent closes the last module, one further left closes its parent too.
pub open spec fn entered(
    path: Seq<Seq<char>>,
    indent: nat,
    line_indent: nat,
    name: Seq<char>,
) -> Seq<Seq<char>> {
    let outer = if line_indent == indent {
        popped(path)
    } else if line_indent < indent {
        popped(popped(path))
    } else {
        path
    };
    outer.push(name)
}

/// One use of the component `name`, as an item of a list of views.
pub open spec fn example_of(name: Seq<char>) -> Seq<char> {
    "view! { <"@ + name + " /> },"@
}

/// The place of the first group for `module`, or -1 where there is none.
pub open spec fn group_index(groups: Seq<GroupModel>, module: Seq<char>) -> int
    decreases groups.len(),
{
    if groups.len() == 0 {
        -1
    } else if group_index(groups.drop_last(), module) >= 0 {
        group_index(groups.drop_last(), module)
    } else if groups.last().module == module {
        groups.len() - 1
    } else {
        -1
    }
}

/// The groups after `component` was found in `module`: it joins the
/// module's group, or opens a new one behind the others.
pub open spec fn recorded(
    groups: Seq<GroupModel>,
    module: Seq<char>,
    component: Seq<char>,
) -> Seq<GroupModel> {
    let i = group_index(groups, module);
    if i >= 0 {
        groups.update(
            i,
            GroupModel { module: module, components: groups[i].components.push(component) },
        )
    } else {
        groups.push(GroupModel { module: module, components: seq![component] })
    }
}

/// A first group for `module` among the first `k` groups is the first among
/// all.
pub proof fn lemma_group_index_stable(groups: Seq<GroupModel>, module: Seq<char>, k: int)
    requires
        0 <= k <= groups.len(),
        group_index(groups.take(k), module) >= 0,
    ensures
        group_index(groups, module) == group_index(groups.take(k), module),
    decreases groups.len() - k,
{
    if k == groups.len() {
        assert(groups.take(k) =~= groups);
    } else {
        assert(groups.take(k + 1).drop_last() =~= groups.take(k));
        lemma_group_index_stable(groups, module, k + 1);
    }
}

/// The index of a group is in range and the group there has the module.
pub proof fn lemma_group_index_found(groups: Seq<GroupModel>, module: Seq<char>)
    ensures
        -1 <= group_index(groups, module) < groups.len(),
        group_index(groups, module) >= 0 ==> groups[group_index(groups, module)].module == module,
        group_index(groups, module) < 0 ==> forall|i: int|
            0 <= i < groups.len() ==> (#[trigger] groups[i]).module != module,
    decreases groups.len(),
{
    if groups.len() > 0 {
        lemma_group_index_found(groups.drop_last(), module);
        if group_index(groups, module) < 0 {
            assert forall|i: int| 0 <= i < groups.len() implies (#[trigger] groups[i]).module
                != module by {
                if i < groups.len() - 1 {
                    assert(groups.drop_last()[i] == groups[i]);
                }
            }
        } else if group_index(groups.drop_last(), module) >= 0 {
            assert(groups.drop_last()[group_index(groups, module)] == groups[group_index(
                groups,
                module,
            )]);
        }
    }
}

/// Whether no two groups are for the same module.
pub open spec fn distinct_modules(groups: Seq<GroupModel>) -> bool {
    forall|i: int, j: int|
        0 <= i < j < groups.len() ==> (#[trigger] groups[i]).module != (#[trigger] groups[j]).module
}

/// Recording a component never gives a module a second group, and loses no
/// group: the modules stay in the order in which they were first met.
pub proof fn lemma_recorded_keeps_modules_distinct(
    groups: Seq<GroupModel>,
    module: Seq<char>,
    component: Seq<char>,
)
    requires
        distinct_modules(groups),
    ensures
        distinct_modules(recorded(groups, module, component)),
        forall|i: int|
            0 <= i < groups.len() ==> (#[trigger] recorded(groups, module, component)[i]).module
                == groups[i].module,
        groups.len() <= recorded(groups, module, component).len() <= groups.len() + 1,
{
    lemma_group_index_found(groups, module);
}

/// The state of a scan of the library's source text.
#[derive(Debug, PartialEq, Eq)]
pub struct Scanner {
    /// The length of the indent at which the last module head stood.
    pub indent: usize,
    /// The modules that the scan is inside of, outermost first.
    pub path: Vec<String>,
    /// The components found so far, by module, in the order in which the
    /// modules were first met.
    pub groups: Vec<Group>,
}

/// What a `Scanner` holds.
pub struct ScannerModel {
    pub indent: nat,
    pub path: Seq<Seq<char>>,
    pub groups: Seq<GroupModel>,
}

impl View for Scanner {
    type V = ScannerModel;

    open spec fn view(&self) -> ScannerModel {
        ScannerModel {
            indent: self.indent as nat,
            path: texts(self.path@),
            groups: group_models(self.groups@),
        }
    }
}

/// The state before the first line.
pub open spec fn initial() -> ScannerModel {
    ScannerModel { indent: 0, path: Seq::empty(), groups: Seq::empty() }
}

/// The state after the head of the module `name` was met at `line_indent`.
pub open spec fn after_module(state: ScannerModel, line_indent: nat, name: Seq<char>) -> ScannerModel {
    ScannerModel {
        indent: line_indent,
        path: entered(state.path, state.indent, line_indent, name),
        groups: state.groups,
    }
}

/// The state after the component `name` was met.
pub open spec fn after_component(state: ScannerModel, name: Seq<char>) -> ScannerModel {
    ScannerModel {
        indent: state.indent,
        path: state.path,
        groups: recorded(state.groups, joined(state.path), example_of(name)),
    }
}

/// Joins the levels of `path` by `::`.
pub fn join_path(path: &Vec<String>) -> (out: String)
    ensures
        out@ == joined(texts(path@)),
{
    let mut out = String::new();
    let mut i: usize = 0;
    assert(texts(path@).take(0) =~= Seq::<Seq<char>>::empty());
    while i < path.len()
        invariant
            i <= path.len(),
            out@ == joined(texts(path@).take(i as int)),
        decreases path.len() - i,
    {
        let ghost before = texts(path@).take(i as int);
        let ghost after = texts(path@).take(i + 1);
        assert(after.drop_last() =~= before);
        assert(after.last() == path@[i as int]@);
        if i > 0 {
            out.append("::");
            proof {
                reveal_strlit("::");
                assert("::"@ =~= seq![':', ':']);
            }
        }
        out.append(path[i].as_str());
        assert(out@ =~= joined(after));
        i = i + 1;
    }
    assert(texts(path@).take(path.len() as int) =~= texts(path@));
    out
}

impl Scanner {
    /// Whether the scan holds at most one group for each module.
    pub open spec fn wf(&self) -> bool {
        distinct_modules(self@.groups)
    }

    /// A scan that has seen nothing yet.
    pub fn new() -> (scanner: Scanner)
        ensures
            scanner@ == initial(),
            scanner.wf(),
    {
        let scanner = Scanner { indent: 0, path: Vec::new(), groups: Vec::new() };
        assert(scanner@.path =~= Seq::<Seq<char>>::empty());
        assert(scanner@.groups =~= Seq::<GroupModel>::empty());
        scanner
    }

    /// Takes note of the head of the module `name`, met at an indent of the
    /// length `line_indent`.
    pub fn enter_module(&mut self, line_indent: usize, name: String)
        ensures
            final(self)@ == after_module(old(self)@, line_indent as nat, name@),
            old(self).wf() ==> final(self).wf(),
    {
        if line_indent == self.indent {
            self.path.pop();
        } else if line_indent < self.indent {
            self.path.pop();
            self.path.pop();
        }
        let ghost outer = texts(self.path@);
        assert(outer =~= if line_indent == old(self).indent {
            popped(old(self)@.path)
        } else if line_indent < old(self).indent {
            popped(popped(old(self)@.path))
        } else {
            old(self)@.path
        });
        self.path.push(name);
        self.indent = line_indent;
        assert(texts(self.path@) =~= outer.push(name@));
    }

    /// Takes note of the component `name`, met inside the modules that the
    /// scan is in.
    pub fn add_component(&mut self, name: &str)
        ensures
            final(self)@ == after_component(old(self)@, name@),
            old(self).wf() ==> final(self).wf(),
    {
        proof {
            if old(self).wf() {
                lemma_recorded_keeps_modules_distinct(
                    old(self)@.groups,
                    joined(old(self)@.path),
                    example_of(name@),
                );
            }
        }
        let module = join_path(&self.path);
        let mut component = String::new();
        component.append("view! { <");
        component.append(name);
        component.append(" /> },");
        assert(component@ =~= example_of(name@));
        let ghost models = group_models(self.groups@);
        let n = self.groups.len();
        let mut i: usize = 0;
        assert(models.take(0) =~= Seq::<GroupModel>::empty());
        while i < n && !(self.groups[i].module == module)
            invariant
                i <= n == self.groups.len(),
                models == group_models(self.groups@),
                *self == *old(self),
                group_index(models.take(i as int), module@) < 0,
            decreases n - i,
        {
            assert(models.take(i + 1).drop_last() =~= models.take(i as int));
            assert(models.take(i + 1).last() == self.groups@[i as int]@);
            i = i + 1;
        }
        if i < n {
            proof {
                assert(models.take(i + 1).drop_last() =~= models.take(i as int));
                assert(models.take(i + 1).last() == self.groups@[i as int]@);
                lemma_group_index_stable(models, module@, i + 1);
            }
            assert(group_index(models, module@) == i);
            let mut group = self.groups.remove(i);
            let ghost found = group@;
            assert(found == models[i as int]);
            group.components.push(component);
            assert(group@.components =~= found.components.push(component@));
            self.groups.insert(i, group);
            assert(group_models(self.groups@) =~~= recorded(models, module@, component@));
        } else {
            proof {
                assert(models.take(n as int) =~= models);
            }
            let mut components: Vec<String> = Vec::new();
            components.push(component);
            assert(texts(components@) =~= seq![component@]);
            self.groups.push(Group { module, components });
            assert(group_index(models, module@) < 0);
            assert(group_models(self.groups@) =~~= recorded(models, module@, component@));
        }
    }
}

/// The head of a module: its indent, the words `pub mod`, its name and an
/// opening brace.
pub const MODULE_PATTERN: &'static str = "(?<indent>\\s*)pub mod (?<module_name>\\w+) \\{";

/// The head of a component function: the words `pub fn`, its name and an
/// opening parenthesis.
pub const COMPONENT_PATTERN: &'static str = "pub fn (?<component_name>\\w+)\\(";

/// The module head on `line`, if it has one: the length of its indent in
/// bytes, and the module's name. `None` where the pattern is refused.
pub open spec fn module_head(line: Seq<char>) -> Option<Option<(nat, Seq<char>)>> {
    match (
        captured(MODULE_PATTERN@, line, "indent"@),
        captured(MODULE_PATTERN@, line, "module_name"@),
    ) {
        (Some(Some(indent)), Some(Some(name))) => Some(
            Some((vstd::utf8::encode_utf8(indent).len(), name)),
        ),
        (Some(_), Some(_)) => Some(None),
        _ => None,
    }
}

/// The name of the component whose head is on `line`, if it has one. `None`
/// where the pattern is refused.
pub open spec fn component_head(line: Seq<char>) -> Option<Option<Seq<char>>> {
    captured(COMPONENT_PATTERN@, line, "component_name"@)
}

/// The state after what `module` and `component` say of a line: a module
/// head is taken note of before a component on the same line.
pub open spec fn after_heads(
    state: ScannerModel,
    module: Option<(nat, Seq<char>)>,
    component: Option<Seq<char>>,
) -> ScannerModel {
    let inside = match module {
        Some(head) => after_module(state, head.0, head.1),
        None => state,
    };
    match component {
        Some(name) => after_component(inside, name),
        None => inside,
    }
}

/// The state after `line`, or `None` where a pattern is refused.
pub open spec fn after_line(state: ScannerModel, line: Seq<char>) -> Option<ScannerModel> {
    match (module_head(line), component_head(line)) {
        (Some(module), Some(component)) => Some(after_heads(state, module, component)),
        _ => None,
    }
}

/// The state after all of `lines`, or `None` where a pattern is refused.
pub open spec fn after_lines(lines: Seq<Seq<char>>) -> Option<ScannerModel>
    decreases lines.len(),
{
    if lines.len() == 0 {
        Some(initial())
    } else {
        match after_lines(lines.drop_last()) {
            Some(state) => after_line(state, lines.last()),
            None => None,
        }
    }
}

/// Once a line has failed, the lines behind it change nothing.
pub proof fn lemma_scan_stops_at_failure(lines: Seq<Seq<char>>, k: int)
    requires
        0 <= k <= lines.len(),
        after_lines(lines.take(k)) is None,
    ensures
        after_lines(lines) is None,
    decreases lines.len() - k,
{
    if k == lines.len() {
        assert(lines.take(k) =~= lines);
    } else {
        assert(lines.take(k + 1).drop_last() =~= lines.take(k));
        lemma_scan_stops_at_failure(lines, k + 1);
    }
}

/// However the lines read, a scan ends with at most one group for each
/// module.
pub proof fn lemma_scan_keeps_modules_distinct(lines: Seq<Seq<char>>)
    ensures
        after_lines(lines) matches Some(state) ==> distinct_modules(state.groups),
    decreases lines.len(),
{
    if lines.len() > 0 {
        lemma_scan_keeps_modules_distinct(lines.drop_last());
        if let Some(before) = after_lines(lines.drop_last()) {
            if let (Some(module), Some(component)) = (
                module_head(lines.last()),
                component_head(lines.last()),
            ) {
                let inside = match module {
                    Some(head) => after_module(before, head.0, head.1),
                    None => before,
                };
                if let Some(name) = component {
                    lemma_recorded_keeps_modules_distinct(
                        inside.groups,
                        joined(inside.path),
                        example_of(name),
                    );
                }
            }
        }
    }
}

impl Scanner {
    /// Takes note of what was found on one line: the head of a module, given
    /// by the length of its indent and its name, and the name of a
    /// component.
    pub fn note_heads(&mut self, module: Option<(usize, String)>, component: Option<String>)
        ensures
            final(self)@ == after_heads(
                old(self)@,
                match module {
                    Some(head) => Some((head.0 as nat, head.1@)),
                    None => None,
                },
                match component {
                    Some(name) => Some(name@),
                    None => None,
                },
            ),
            old(self).wf() ==> final(self).wf(),
    {
        match module {
            Some(head) => {
                self.enter_module(head.0, head.1);
            },
            None => {},
        }
        match component {
            Some(name) => {
                self.add_component(name.as_str());
            },
            None => {},
        }
    }

    /// Scans one line of the library's source text.
    pub fn scan_line(&mut self, line: &str) -> (r: Result<(), GenerateError>)
        ensures
            match after_line(old(self)@, line@) {
                Some(state) => r is Ok && final(self)@ == state,
                None => *final(self) == *old(self) && r == Err::<(), GenerateError>(
                    GenerateError::InvalidPattern,
                ),
            },
            old(self).wf() ==> final(self).wf(),
    {
        let indent = match capture(MODULE_PATTERN, line, "indent") {
            Ok(found) => found,
            Err(_) => { return Err(GenerateError::InvalidPattern); },
        };
        let module_name = match capture(MODULE_PATTERN, line, "module_name") {
            Ok(found) => found,
            Err(_) => { return Err(GenerateError::InvalidPattern); },
        };
        let component = match capture(COMPONENT_PATTERN, line, "component_name") {
            Ok(found) => found,
            Err(_) => { return Err(GenerateError::InvalidPattern); },
        };
        let module = match (indent, module_name) {
            (Some(indent), Some(name)) => Some((indent.as_str().as_bytes().len(), name)),
            _ => None,
        };
        self.note_heads(module, component);
        Ok(())
    }
}

/// Scans the lines of the library's source text from the first to the last.
pub fn scan_lines(lines: &Vec<String>) -> (r: Result<Scanner, GenerateError>)
    ensures
        match after_lines(texts(lines@)) {
            Some(state) => r matches Ok(scanner) && scanner@ == state && scanner.wf(),
            None => r matches Err(e) && e == GenerateError::InvalidPattern,
        },
{
    let mut scanner = Scanner::new();
    let mut i: usize = 0;
    assert(texts(lines@).take(0) =~= Seq::<Seq<char>>::empty());
    while i < lines.len()
        invariant
            i <= lines.len(),
            after_lines(texts(lines@).take(i as int)) == Some(scanner@),
            scanner.wf(),
        decreases lines.len() - i,
    {
        proof {
            assert(texts(lines@).take(i + 1).drop_last() =~= texts(lines@).take(i as int));
            assert(texts(lines@).take(i + 1).last() == lines@[i as int]@);
        }
        match scanner.scan_line(lines[i].as_str()) {
            Ok(_) => {},
            Err(e) => {
                proof {
                    lemma_scan_stops_at_failure(texts(lines@), i + 1);
                }
                return Err(e);
            },
        }
        i = i + 1;
    }
    assert(texts(lines@).take(lines.len() as int) =~= texts(lines@));
    Ok(scanner)
}

/// `s` with every `::` turned into `_`, from left to right.
pub open spec fn underscored(s: Seq<char>) -> Seq<char>
    decreases s.len(),
{
    if s.len() == 0 {
        Seq::empty()
    } else if s.len() >= 2 && s[0] == ':' && s[1] == ':' {
        seq!['_'] + underscored(s.skip(2))
    } else {
        seq![s[0]] + underscored(s.skip(1))
    }
}

/// The name of the function that lists the examples of `module`: the
/// module's path with `_` between its levels, in snake case.
pub open spec fn function_name(module: Seq<char>) -> Seq<char> {
    cased(underscored(module), Case::Snake)
}

/// The items of a list of views, one to a line.
pub open spec fn listed(components: Seq<Seq<char>>) -> Seq<char>
    decreases components.len(),
{
    if components.len() == 0 {
        Seq::empty()
    } else {
        listed(components.drop_last()) + "        "@ + components.last() + "\n"@
    }
}

/// The function named `function` that lists `components`, found in
/// `module`, and the empty line behind it.
pub open spec fn group_text(
    function: Seq<char>,
    module: Seq<char>,
    components: Seq<Seq<char>>,
) -> Seq<char> {
    "pub fn "@ + function + "() -> Vec<impl IntoView> {\n    use leptos_heroicons::"@ + module
        + "::*;\n\n    vec![\n"@ + listed(components) + "    ]\n}\n\n"@
}

/// The functions for `groups`, one after the other.
pub open spec fn groups_text(groups: Seq<GroupModel>) -> Seq<char>
    decreases groups.len(),
{
    if groups.len() == 0 {
        Seq::empty()
    } else {
        groups_text(groups.drop_last()) + group_text(
            function_name(groups.last().module),
            groups.last().module,
            groups.last().components,
        )
    }
}

/// The examples module for `groups`.
pub open spec fn examples_text(groups: Seq<GroupModel>) -> Seq<char> {
    "use leptos::prelude::*;\n\n"@ + groups_text(groups)
}

/// Turns every `::` of `s` into `_`.
pub fn underscore(s: &str) -> (out: String)
    ensures
        out@ == underscored(s@),
{
    let v = to_chars(s);
    let n = v.len();
    let mut out: Vec<char> = Vec::new();
    let mut i: usize = 0;
    assert(v@.skip(0) =~= v@);
    while i < n
        invariant
            i <= n == v.len(),
            v@ == s@,
            out@ + underscored(v@.skip(i as int)) == underscored(v@),
        decreases n - i,
    {
        let ghost rest = v@.skip(i as int);
        if v[i] == ':' && i + 1 < n && v[i + 1] == ':' {
            out.push('_');
            assert(rest.skip(2) =~= v@.skip(i + 2));
            assert(out@ + underscored(v@.skip(i + 2)) =~= out@.drop_last() + underscored(rest));
            i = i + 2;
        } else {
            out.push(v[i]);
            assert(rest.skip(1) =~= v@.skip(i + 1));
            assert(out@ + underscored(v@.skip(i + 1)) =~= out@.drop_last() + underscored(rest));
            i = i + 1;
        }
    }
    assert(out@ + underscored(v@.skip(n as int)) =~= out@);
    from_chars(&out)
}

/// Writes the function named `function` that lists `components`, found in
/// `module`.
pub fn render_group(function: &str, module: &str, components: &Vec<String>) -> (out: String)
    ensures
        out@ == group_text(function@, module@, texts(components@)),
{
    let mut list = String::new();
    let mut i: usize = 0;
    assert(texts(components@).take(0) =~= Seq::<Seq<char>>::empty());
    while i < components.len()
        invariant
            i <= components.len(),
            list@ == listed(texts(components@).take(i as int)),
        decreases components.len() - i,
    {
        proof {
            let after = texts(components@).take(i + 1);
            assert(after.drop_last() =~= texts(components@).take(i as int));
            assert(after.last() == components@[i as int]@);
        }
        list.append("        ");
        list.append(components[i].as_str());
        list.append("\n");
        i = i + 1;
        assert(list@ =~= listed(texts(components@).take(i as int)));
    }
    assert(texts(components@).take(components.len() as int) =~= texts(components@));
    let mut out = String::new();
    out.append("pub fn ");
    out.append(function);
    out.append("() -> Vec<impl IntoView> {\n    use leptos_heroicons::");
    out.append(module);
    out.append("::*;\n\n    vec![\n");
    out.append(list.as_str());
    out.append("    ]\n}\n\n");
    assert(out@ =~= group_text(function@, module@, texts(components@)));
    out
}

/// Writes the examples module for `groups`: a function for each group, in
/// their order.
pub fn render_examples(groups: &Vec<Group>) -> (out: String)
    ensures
        out@ == examples_text(group_models(groups@)),
{
    let mut body = String::new();
    let mut i: usize = 0;
    assert(group_models(groups@).take(0) =~= Seq::<GroupModel>::empty());
    while i < groups.len()
        invariant
            i <= groups.len(),
            body@ == groups_text(group_models(groups@).take(i as int)),
        decreases groups.len() - i,
    {
        proof {
            let after = group_models(groups@).take(i + 1);
            assert(after.drop_last() =~= group_models(groups@).take(i as int));
            assert(after.last() == groups@[i as int]@);
        }
        let group = &groups[i];
        let function = to_case(underscore(group.module.as_str()).as_str(), Case::Snake);
        let text = render_group(function.as_str(), group.module.as_str(), &group.components);
        body.append(text.as_str());
        i = i + 1;
    }
    assert(group_models(groups@).take(groups.len() as int) =~= group_models(groups@));
    let mut out = String::new();
    out.append("use leptos::prelude::*;\n\n");
    out.append(body.as_str());
    assert(out@ =~= examples_text(group_models(groups@)));
    out
}

/// Generates the examples module from the lines of the library's source
/// text.
pub fn generate_examples(lines: &Vec<String>) -> (r: Result<String, GenerateError>)
    ensures
        match after_lines(texts(lines@)) {
            Some(state) => r matches Ok(text) && text@ == examples_text(state.groups),
            None => r matches Err(e) && e == GenerateError::InvalidPattern,
        },
{
    match scan_lines(lines) {
        Ok(scanner) => Ok(render_examples(&scanner.groups)),
        Err(e) => Err(e),
    }
}

} // verus!
