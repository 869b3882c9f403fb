//! The shader source preprocessor. A line whose trimmed text starts with the
//! inclusion marker (see `include_directive`) is replaced by the expanded text
//! of the file it names, resolved against the directory of the including file;
//! every other line is kept, and each line of the result ends with a newline.
//! A file that includes itself, directly or through other files, is an error.
//!
//! Reading files is left to the caller: expansion runs against a table of the
//! sources read so far and, when it needs one that is not there, says which.

use vstd::prelude::*;
use crate::paths::{joined_path, parent_path, same_path, join_paths, path_parent, paths_equal};
use crate::sources::SourceTable;
use crate::text::{lines_of, trim, chars_of, split_lines, trim_bounds, push_char, push_chars};

verus! {

/// Why a source could not be expanded, as values.
pub enum LoadFailure {
    /// The included path at which a file would have included itself.
    Cycle(Seq<char>),
    /// A resolved path that could not be read, and why.
    Read(Seq<char>, Seq<char>),
    /// Includes nest deeper than the loader follows.
    TooDeep,
}

/// Why a source could not be expanded.
pub enum LoadError {
    /// `path` is the included path at which a file would have included itself.
    Cycle { path: String },
    /// The file at the resolved `path` could not be read, for `reason`.
    Read { path: String, reason: String },
    /// Includes nest deeper than the loader follows.
    TooDeep,
}

impl View for LoadError {
    type V = LoadFailure;

    open spec fn view(&self) -> LoadFailure {
        match self {
            LoadError::Cycle { path } => LoadFailure::Cycle(path@),
            LoadError::Read { path, reason } => LoadFailure::Read(path@, reason@),
            LoadError::TooDeep => LoadFailure::TooDeep,
        }
    }
}

/// Where an expansion stands, as values.
pub enum LoadOutcome {
    /// The expansion finished, with the expanded text or why it failed.
    Done(Result<Seq<char>, LoadFailure>),
    /// The expansion needs the source at this resolved path, which the table lacks.
    NeedSource(Seq<char>),
}

/// Where an expansion stands.
pub enum LoadStep {
    /// The expansion finished, with the expanded text or why it failed.
    Done(Result<String, LoadError>),
    /// The expansion needs the source at this resolved path, which the table lacks.
    NeedSource(String),
}

impl View for LoadStep {
    type V = LoadOutcome;

    open spec fn view(&self) -> LoadOutcome {
        match self {
            LoadStep::Done(Ok(text)) => LoadOutcome::Done(Ok(text@)),
            LoadStep::Done(Err(e)) => LoadOutcome::Done(Err(e@)),
            LoadStep::NeedSource(path) => LoadOutcome::NeedSource(path@),
        }
    }
}

/// The marker that starts an directive line.
pub open spec fn include_directive() -> Seq<char> {
    seq!['/', '/', ' ', '@', 'i', 'n', 'c', 'l', 'u', 'd', 'e', ' ']
}

/// The path that `line` includes, if it is an directive line: its trimmed text
/// minus the marker.
pub open spec fn include_target(line: Seq<char>) -> Option<Seq<char>> {
    let t = trim(line);
    let d = include_directive();
    if d.len() <= t.len() && t.take(d.len() as int) == d {
        Some(t.skip(d.len() as int))
    } else {
        None
    }
}

/// The directory that includes in the file at `path` are resolved against.
pub open spec fn include_base(path: Seq<char>) -> Seq<char> {
    match parent_path(path) {
        Some(p) => p,
        None => seq![],
    }
}

/// Whether `path` names, component by component, a file on the stack of files being expanded.
pub open spec fn on_stack(stack: Seq<Seq<char>>, path: Seq<char>) -> bool {
    exists|i: int| 0 <= i < stack.len() && same_path(#[trigger] stack[i], path)
}

/// The stack of files being expanded held as strings, as values.
pub open spec fn stack_view(v: Seq<String>) -> Seq<Seq<char>> {
    v.map_values(|p: String| p@)
}

/// Expanding the file at `path` (relative to `root`) against `sources`, with the
/// files in `stack` being expanded around it and `depth` levels of nesting left.
pub open spec fn expand_source(
    root: Seq<char>,
    sources: Map<Seq<char>, Result<Seq<char>, Seq<char>>>,
    path: Seq<char>,
    stack: Seq<Seq<char>>,
    depth: nat,
) -> LoadOutcome
    decreases depth, 1nat, 0nat,
{
    if depth == 0 {
        LoadOutcome::Done(Err(LoadFailure::TooDeep))
    } else if on_stack(stack, path) {
        LoadOutcome::Done(Err(LoadFailure::Cycle(path)))
    } else {
        let resolved = joined_path(root, path);
        if !sources.contains_key(resolved) {
            LoadOutcome::NeedSource(resolved)
        } else {
            match sources[resolved] {
                Err(reason) => LoadOutcome::Done(Err(LoadFailure::Read(resolved, reason))),
                Ok(text) => expand_lines(
                    root,
                    sources,
                    lines_of(text),
                    0,
                    seq![],
                    stack.push(path),
                    include_base(path),
                    depth,
                ),
            }
        }
    }
}

/// Expanding `lines` from index `i` on, after `acc` has been produced for the
/// lines before it; includes are resolved against `base`.
pub open spec fn expand_lines(
    root: Seq<char>,
    sources: Map<Seq<char>, Result<Seq<char>, Seq<char>>>,
    lines: Seq<Seq<char>>,
    i: int,
    acc: Seq<char>,
    stack: Seq<Seq<char>>,
    base: Seq<char>,
    depth: nat,
) -> LoadOutcome
    decreases depth, 0nat, lines.len() - i,
{
    if depth == 0 {
        LoadOutcome::Done(Err(LoadFailure::TooDeep))
    } else if i < 0 || i >= lines.len() {
        LoadOutcome::Done(Ok(acc))
    } else {
        match include_target(lines[i]) {
            Some(target) => match expand_source(
                root,
                sources,
                joined_path(base, target),
                stack,
                (depth - 1) as nat,
            ) {
                LoadOutcome::Done(Ok(text)) => expand_lines(
                    root,
                    sources,
                    lines,
                    i + 1,
                    acc + text + seq!['\n'],
                    stack,
                    base,
                    depth,
                ),
                other => other,
            },
            None => expand_lines(
                root,
                sources,
                lines,
                i + 1,
                acc + lines[i] + seq!['\n'],
                stack,
                base,
                depth,
            ),
        }
    }
}

/// The path that `line` includes, if it is an directive line.
pub fn include_target_of(line: &[char]) -> (r: Option<String>)
    ensures
        match r {
            Some(t) => include_target(line@) == Some(t@),
            None => include_target(line@) is None,
        },
{
    let (a, b) = trim_bounds(line);
    let ghost t = trim(line@);
    let directive: Vec<char> = vec!['/', '/', ' ', '@', 'i', 'n', 'c', 'l', 'u', 'd', 'e', ' '];
    assert(directive@ == include_directive());
    let d = directive.len();
    if b - a < d {
        return None;
    }
    let mut k: usize = 0;
    while k < d
        invariant
            k <= d == 12,
            a + d <= b <= line@.len(),
            directive@ == include_directive(),
            t == trim(line@),
            t == line@.subrange(a as int, b as int),
            forall|j: int| 0 <= j < k ==> t[j] == directive@[j],
        decreases d - k,
    {
        if line[a + k] != directive[k] {
            assert(t.take(d as int)[k as int] != include_directive()[k as int]);
            return None;
        }
        k = k + 1;
    }
    assert(t.take(d as int) =~= include_directive());
    let mut out = String::new();
    push_chars(&mut out, line, a + d, b);
    assert(out@ =~= t.skip(d as int));
    Some(out)
}

/// Compiles shader sources found under a root directory.
pub struct ShaderCompiler {
    root: String,
}

impl ShaderCompiler {
    /// The directory that shader paths are relative to.
    pub closed spec fn root_path(&self) -> Seq<char> {
        self.root@
    }

    /// A compiler for the shaders under `root`.
    pub fn new(root: String) -> (r: ShaderCompiler)
        ensures
            r.root_path() == root@,
    {
        ShaderCompiler { root }
    }

    /// Expands the shader at `relative_path` against `sources`: its text with
    /// every directive line replaced, or the error, or the source it needs next.
    pub fn load(&self, relative_path: &str, sources: &SourceTable) -> (r: LoadStep)
        ensures
            r@ == expand_source(self.root_path(), sources@, relative_path@, seq![], usize::MAX as nat),
    {
        let mut visited: Vec<String> = Vec::new();
        assert(stack_view(visited@) =~= seq![]);
        self.load_recursive(relative_path, &mut visited, sources, usize::MAX)
    }

    /// Expands the file at `relative_path` while the files in `visited` are
    /// being expanded around it; `visited` is as it was when this returns.
    pub fn load_recursive(
        &self,
        relative_path: &str,
        visited: &mut Vec<String>,
        sources: &SourceTable,
        depth: usize,
    ) -> (r: LoadStep)
        ensures
            r@ == expand_source(
                self.root_path(),
                sources@,
                relative_path@,
                stack_view(old(visited)@),
                depth as nat,
            ),
            final(visited)@ == old(visited)@,
            depth > 0 && (exists|k: int|
                0 <= k < old(visited)@.len() && same_path(#[trigger] old(visited)@[k]@, relative_path@))
                ==> r@ == LoadOutcome::Done(Err::<Seq<char>, LoadFailure>(LoadFailure::Cycle(relative_path@))),
        decreases depth,
    {
        if depth == 0 {
            return LoadStep::Done(Err(LoadError::TooDeep));
        }
        proof {
            if exists|k: int|
                0 <= k < old(visited)@.len() && same_path(#[trigger] old(visited)@[k]@, relative_path@) {
                let k = choose|k: int|
                    0 <= k < old(visited)@.len() && same_path(#[trigger] old(visited)@[k]@, relative_path@);
                assert(stack_view(old(visited)@)[k] == old(visited)@[k]@);
                lemma_cycle_is_reported(
                    self.root_path(),
                    sources@,
                    relative_path@,
                    stack_view(old(visited)@),
                    depth as nat,
                    k,
                );
            }
        }
        let ghost stack = stack_view(visited@);
        let n = visited.len();
        let mut i: usize = 0;
        while i < n
            invariant
                i <= n == visited@.len(),
                0 < depth,
                visited@ == old(visited)@,
                stack == stack_view(visited@),
                forall|j: int| 0 <= j < i ==> !same_path(#[trigger] stack[j], relative_path@),
            decreases n - i,
        {
            if paths_equal(visited[i].as_str(), relative_path) {
                assert(same_path(stack[i as int], relative_path@));
                assert(on_stack(stack_view(old(visited)@), relative_path@));
                let path = String::from_str(relative_path);
                assert(path@ == relative_path@);
                return LoadStep::Done(Err(LoadError::Cycle { path }));
            }
            i = i + 1;
        }
        assert(!on_stack(stack, relative_path@));
        assert forall|k: int| 0 <= k < old(visited)@.len() implies !same_path(
            #[trigger] old(visited)@[k]@,
            relative_path@,
        ) by {
            assert(stack[k] == old(visited)@[k]@);
        }
        let resolved = join_paths(self.root.as_str(), relative_path);
        let text = match sources.lookup(resolved.as_str()) {
            None => {
                return LoadStep::NeedSource(resolved);
            },
            Some(Err(reason)) => {
                return LoadStep::Done(Err(LoadError::Read { path: resolved, reason }));
            },
            Some(Ok(text)) => text,
        };
        let chars = chars_of(text.as_str());
        let lines = split_lines(chars.as_slice());
        let ghost lines_v = lines_of(text@);
        let base = match path_parent(relative_path) {
            Some(p) => p,
            None => String::new(),
        };
        let ghost outer = visited@;
        let owned = String::from_str(relative_path);
        let ghost pushed = owned;
        visited.push(owned);
        let ghost inner_stack = stack.push(relative_path@);
        assert(stack_view(visited@) =~= inner_stack);
        let ghost whole = expand_lines(
            self.root_path(),
            sources@,
            lines_v,
            0,
            seq![],
            inner_stack,
            base@,
            depth as nat,
        );
        assert(whole == expand_source(
            self.root_path(),
            sources@,
            relative_path@,
            stack_view(old(visited)@),
            depth as nat,
        ));
        let mut output = String::new();
        let count = lines.len();
        let mut k: usize = 0;
        while k < count
            invariant
                0 < depth,
                k <= count == lines_v.len(),
                lines.deep_view() == lines_v,
                base@ == include_base(relative_path@),
                visited@ == outer.push(pushed),
                stack_view(visited@) == inner_stack,
                outer == old(visited)@,
                forall|k: int| 0 <= k < old(visited)@.len() ==> !same_path(
                    #[trigger] old(visited)@[k]@,
                    relative_path@,
                ),
                whole == expand_source(
                    self.root_path(),
                    sources@,
                    relative_path@,
                    stack_view(old(visited)@),
                    depth as nat,
                ),
                whole == expand_lines(
                    self.root_path(),
                    sources@,
                    lines_v,
                    k as int,
                    output@,
                    inner_stack,
                    base@,
                    depth as nat,
                ),
            decreases count - k,
        {
            let line = &lines[k];
            assert(line@ == lines_v[k as int]) by {
                assert(lines.deep_view()[k as int] == lines@[k as int].deep_view());
                assert(lines@[k as int].deep_view() =~= lines@[k as int]@);
            }
            match include_target_of(line.as_slice()) {
                Some(target) => {
                    let included = join_paths(base.as_str(), target.as_str());
                    let step = self.load_recursive(included.as_str(), visited, sources, depth - 1);
                    assert(step@ == expand_source(
                        self.root_path(),
                        sources@,
                        joined_path(base@, target@),
                        inner_stack,
                        (depth - 1) as nat,
                    ));
                    match step {
                        LoadStep::Done(Ok(expanded)) => {
                            let ghost before = output@;
                            output.append(expanded.as_str());
                            push_char(&mut output, '\n');
                            assert(output@ == before + expanded@ + seq!['\n']);
                        },
                        other => {
                            visited.pop();
                            assert(visited@ =~= outer);
                            return other;
                        },
                    }
                },
                None => {
                    let len = line.len();
                    let ghost before = output@;
                    push_chars(&mut output, line.as_slice(), 0, len);
                    assert(line@.subrange(0, len as int) =~= line@);
                    push_char(&mut output, '\n');
                    assert(output@ == before + lines_v[k as int] + seq!['\n']);
                },
            }
            k = k + 1;
        }
        visited.pop();
        assert(visited@ =~= outer);
        LoadStep::Done(Ok(output))
    }
}

/// A file that is already being expanded, at any depth of the stack, cannot be
/// expanded again: naming it is a cycle, reported at the path that names it.
pub proof fn lemma_cycle_is_reported(
    root: Seq<char>,
    sources: Map<Seq<char>, Result<Seq<char>, Seq<char>>>,
    path: Seq<char>,
    stack: Seq<Seq<char>>,
    depth: nat,
    k: int,
)
    requires
        depth > 0,
        0 <= k < stack.len(),
        same_path(stack[k], path),
    ensures
        expand_source(root, sources, path, stack, depth) == LoadOutcome::Done(
            Err::<Seq<char>, LoadFailure>(LoadFailure::Cycle(path)),
        ),
{
    assert(on_stack(stack, path));
}

/// A successful expansion of a file names no file on the stack, read the file,
/// and succeeded on every file that the file's directive lines name, each
/// expanded with the file pushed on the stack: no failure below is dropped.
pub proof fn lemma_success_needs_every_part(
    root: Seq<char>,
    sources: Map<Seq<char>, Result<Seq<char>, Seq<char>>>,
    path: Seq<char>,
    stack: Seq<Seq<char>>,
    depth: nat,
)
    requires
        expand_source(root, sources, path, stack, depth) is Done,
        expand_source(root, sources, path, stack, depth)->Done_0 is Ok,
    ensures
        depth > 0,
        forall|k: int| 0 <= k < stack.len() ==> !same_path(#[trigger] stack[k], path),
        sources.contains_key(joined_path(root, path)),
        sources[joined_path(root, path)] is Ok,
        forall|k: int|
            #![trigger lines_of(sources[joined_path(root, path)]->Ok_0)[k]]
            0 <= k < lines_of(sources[joined_path(root, path)]->Ok_0).len() && include_target(
                lines_of(sources[joined_path(root, path)]->Ok_0)[k],
            ) is Some ==> {
                let r = expand_source(
                    root,
                    sources,
                    joined_path(
                        include_base(path),
                        include_target(lines_of(sources[joined_path(root, path)]->Ok_0)[k])->Some_0,
                    ),
                    stack.push(path),
                    (depth - 1) as nat,
                );
                r is Done && r->Done_0 is Ok
            },
{
    if depth > 0 {
        assert forall|k: int| 0 <= k < stack.len() implies !same_path(#[trigger] stack[k], path) by {
            if same_path(stack[k], path) {
                assert(on_stack(stack, path));
            }
        }
        let text = sources[joined_path(root, path)]->Ok_0;
        lemma_lines_success_needs_every_part(
            root,
            sources,
            lines_of(text),
            0,
            seq![],
            stack.push(path),
            include_base(path),
            depth,
        );
    }
}

/// The part of the law above that covers the lines of one file: if the lines
/// from `i` on expand successfully, every directive line among them named a
/// file that expanded successfully.
pub proof fn lemma_lines_success_needs_every_part(
    root: Seq<char>,
    sources: Map<Seq<char>, Result<Seq<char>, Seq<char>>>,
    lines: Seq<Seq<char>>,
    i: int,
    acc: Seq<char>,
    stack: Seq<Seq<char>>,
    base: Seq<char>,
    depth: nat,
)
    requires
        0 <= i,
        expand_lines(root, sources, lines, i, acc, stack, base, depth) is Done,
        expand_lines(root, sources, lines, i, acc, stack, base, depth)->Done_0 is Ok,
    ensures
        depth > 0,
        forall|k: int|
            #![trigger lines[k]]
            i <= k < lines.len() && include_target(lines[k]) is Some ==> {
                let r = expand_source(
                    root,
                    sources,
                    joined_path(base, include_target(lines[k])->Some_0),
                    stack,
                    (depth - 1) as nat,
                );
                r is Done && r->Done_0 is Ok
            },
    decreases lines.len() - i,
{
    if i < lines.len() {
        let next_acc = match include_target(lines[i]) {
            Some(target) => match expand_source(
                root,
                sources,
                joined_path(base, target),
                stack,
                (depth - 1) as nat,
            ) {
                LoadOutcome::Done(Ok(text)) => acc + text + seq!['\n'],
                _ => acc,
            },
            None => acc + lines[i] + seq!['\n'],
        };
        lemma_lines_success_needs_every_part(root, sources, lines, i + 1, next_acc, stack, base, depth);
    }
}

/// Lines joined back into text, each followed by `'\n'`.
pub open spec fn join_lines(lines: Seq<Seq<char>>) -> Seq<char>
    decreases lines.len(),
{
    if lines.len() == 0 {
        seq![]
    } else {
        join_lines(lines.drop_last()) + lines.last() + seq!['\n']
    }
}

/// Sources read later do not change an expansion that already finished: if the
/// table `small` is part of `large`, a finished expansion against `small` is the
/// expansion against `large`.
pub proof fn lemma_finished_expansion_is_stable(
    root: Seq<char>,
    small: Map<Seq<char>, Result<Seq<char>, Seq<char>>>,
    large: Map<Seq<char>, Result<Seq<char>, Seq<char>>>,
    path: Seq<char>,
    stack: Seq<Seq<char>>,
    depth: nat,
)
    requires
        small.submap_of(large),
        expand_source(root, small, path, stack, depth) is Done,
    ensures
        expand_source(root, large, path, stack, depth) == expand_source(root, small, path, stack, depth),
    decreases depth, 1nat, 0nat,
{
    if depth > 0 && !on_stack(stack, path) {
        let resolved = joined_path(root, path);
        assert(large.contains_key(resolved) && large[resolved] == small[resolved]);
        match small[resolved] {
            Err(_) => {},
            Ok(text) => {
                lemma_finished_lines_are_stable(
                    root,
                    small,
                    large,
                    lines_of(text),
                    0,
                    seq![],
                    stack.push(path),
                    include_base(path),
                    depth,
                );
            },
        }
    }
}

/// The part of the stability law that covers the lines of one file.
pub proof fn lemma_finished_lines_are_stable(
    root: Seq<char>,
    small: Map<Seq<char>, Result<Seq<char>, Seq<char>>>,
    large: Map<Seq<char>, Result<Seq<char>, Seq<char>>>,
    lines: Seq<Seq<char>>,
    i: int,
    acc: Seq<char>,
    stack: Seq<Seq<char>>,
    base: Seq<char>,
    depth: nat,
)
    requires
        small.submap_of(large),
        expand_lines(root, small, lines, i, acc, stack, base, depth) is Done,
    ensures
        expand_lines(root, large, lines, i, acc, stack, base, depth) == expand_lines(
            root,
            small,
            lines,
            i,
            acc,
            stack,
            base,
            depth,
        ),
    decreases depth, 0nat, lines.len() - i,
{
    if depth > 0 && 0 <= i < lines.len() {
        match include_target(lines[i]) {
            Some(target) => {
                let inner = joined_path(base, target);
                let r = expand_source(root, small, inner, stack, (depth - 1) as nat);
                lemma_finished_expansion_is_stable(root, small, large, inner, stack, (depth - 1) as nat);
                if let LoadOutcome::Done(Ok(text)) = r {
                    lemma_finished_lines_are_stable(
                        root,
                        small,
                        large,
                        lines,
                        i + 1,
                        acc + text + seq!['\n'],
                        stack,
                        base,
                        depth,
                    );
                }
            },
            None => {
                lemma_finished_lines_are_stable(
                    root,
                    small,
                    large,
                    lines,
                    i + 1,
                    acc + lines[i] + seq!['\n'],
                    stack,
                    base,
                    depth,
                );
            },
        }
    }
}

/// An expansion asks only for a source that the table does not hold.
pub proof fn lemma_needed_source_is_missing(
    root: Seq<char>,
    sources: Map<Seq<char>, Result<Seq<char>, Seq<char>>>,
    path: Seq<char>,
    stack: Seq<Seq<char>>,
    depth: nat,
)
    ensures
        expand_source(root, sources, path, stack, depth) matches LoadOutcome::NeedSource(p)
            ==> !sources.contains_key(p),
    decreases depth, 1nat, 0nat,
{
    if depth > 0 && !on_stack(stack, path) {
        let resolved = joined_path(root, path);
        if sources.contains_key(resolved) {
            if let Ok(text) = sources[resolved] {
                lemma_needed_lines_source_is_missing(
                    root,
                    sources,
                    lines_of(text),
                    0,
                    seq![],
                    stack.push(path),
                    include_base(path),
                    depth,
                );
            }
        }
    }
}

/// The part of the missing-source law that covers the lines of one file.
pub proof fn lemma_needed_lines_source_is_missing(
    root: Seq<char>,
    sources: Map<Seq<char>, Result<Seq<char>, Seq<char>>>,
    lines: Seq<Seq<char>>,
    i: int,
    acc: Seq<char>,
    stack: Seq<Seq<char>>,
    base: Seq<char>,
    depth: nat,
)
    ensures
        expand_lines(root, sources, lines, i, acc, stack, base, depth) matches LoadOutcome::NeedSource(p)
            ==> !sources.contains_key(p),
    decreases depth, 0nat, lines.len() - i,
{
    if depth > 0 && 0 <= i < lines.len() {
        match include_target(lines[i]) {
            Some(target) => {
                let inner = joined_path(base, target);
                let r = expand_source(root, sources, inner, stack, (depth - 1) as nat);
                lemma_needed_source_is_missing(root, sources, inner, stack, (depth - 1) as nat);
                if let LoadOutcome::Done(Ok(text)) = r {
                    lemma_needed_lines_source_is_missing(
                        root,
                        sources,
                        lines,
                        i + 1,
                        acc + text + seq!['\n'],
                        stack,
                        base,
                        depth,
                    );
                }
            },
            None => {
                lemma_needed_lines_source_is_missing(
                    root,
                    sources,
                    lines,
                    i + 1,
                    acc + lines[i] + seq!['\n'],
                    stack,
                    base,
                    depth,
                );
            },
        }
    }
}

/// Lines without a directive are copied, each followed by `'\n'`.
proof fn lemma_plain_lines(
    root: Seq<char>,
    sources: Map<Seq<char>, Result<Seq<char>, Seq<char>>>,
    lines: Seq<Seq<char>>,
    i: int,
    stack: Seq<Seq<char>>,
    base: Seq<char>,
    depth: nat,
)
    requires
        depth > 0,
        0 <= i <= lines.len(),
        forall|j: int| 0 <= j < lines.len() ==> include_target(#[trigger] lines[j]) is None,
    ensures
        expand_lines(root, sources, lines, i, join_lines(lines.take(i)), stack, base, depth)
            == LoadOutcome::Done(Ok::<Seq<char>, LoadFailure>(join_lines(lines))),
    decreases lines.len() - i,
{
    if i < lines.len() {
        assert(lines.take(i + 1).drop_last() =~= lines.take(i));
        assert(include_target(lines[i]) is None);
        lemma_plain_lines(root, sources, lines, i + 1, stack, base, depth);
    } else {
        assert(lines.take(i) =~= lines);
    }
}

/// Without carriage returns, the finished lines and the line in progress give
/// back the text scanned.
proof fn lemma_scan_rejoins(t: Seq<char>)
    requires
        forall|j: int| 0 <= j < t.len() ==> t[j] != '\r',
    ensures
        join_lines(crate::text::scan_lines(t).0) + crate::text::scan_lines(t).1 == t,
    decreases t.len(),
{
    if t.len() > 0 {
        let p = t.drop_last();
        lemma_scan_rejoins(p);
        let (done, cur) = crate::text::scan_lines(p);
        if cur.len() > 0 {
            assert(cur.last() == (join_lines(done) + cur).last());
        }
        assert(crate::text::without_cr(cur) == cur);
        if t.last() == '\n' {
            assert(done.push(cur).drop_last() =~= done);
        }
        assert(t =~= p.push(t.last()));
    }
}

/// A source without carriage returns and without directive lines, that is empty
/// or ends with a newline, expands to itself.
pub proof fn lemma_plain_source_is_unchanged(
    root: Seq<char>,
    sources: Map<Seq<char>, Result<Seq<char>, Seq<char>>>,
    path: Seq<char>,
    stack: Seq<Seq<char>>,
    depth: nat,
    text: Seq<char>,
)
    requires
        depth > 0,
        !on_stack(stack, path),
        sources.contains_key(joined_path(root, path)),
        sources[joined_path(root, path)] == Ok::<Seq<char>, Seq<char>>(text),
        text.len() == 0 || text.last() == '\n',
        forall|j: int| 0 <= j < text.len() ==> text[j] != '\r',
        forall|j: int|
            0 <= j < lines_of(text).len() ==> include_target(#[trigger] lines_of(text)[j]) is None,
    ensures
        expand_source(root, sources, path, stack, depth) == LoadOutcome::Done(
            Ok::<Seq<char>, LoadFailure>(text),
        ),
{
    let lines = lines_of(text);
    lemma_scan_rejoins(text);
    if text.len() > 0 {
        assert(crate::text::scan_lines(text).1 == Seq::<char>::empty());
    }
    assert(join_lines(lines) == text);
    assert(lines.take(0) =~= Seq::<Seq<char>>::empty());
    lemma_plain_lines(root, sources, lines, 0, stack.push(path), include_base(path), depth);
}

} // verus!
