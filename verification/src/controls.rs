//! Keyboard and mouse decisions of the playground window: quitting, switching
//! scenes (step by step or by searching their names), the split comparison view
//! and the frame counter. The window itself, and all geometry, stay outside.

use vstd::prelude::*;
use crate::scene::{SceneType, scene_name, scene_order, scene_index};
use crate::text::{chars_of, push_chars};

verus! {

/// The code of `c` with ASCII capitals folded to lower case.
pub open spec fn fold_case(c: char) -> int {
    if 'A' <= c && c <= 'Z' {
        c as int + 32
    } else {
        c as int
    }
}

/// The code of `c` with ASCII capitals folded to lower case.
pub fn fold_case_code(c: char) -> (r: u32)
    ensures
        r == fold_case(c),
{
    if 'A' <= c && c <= 'Z' {
        (c as u32) + 32
    } else {
        c as u32
    }
}

/// `query` occurs in `name` at `start`, ignoring ASCII case.
pub open spec fn matches_at(name: Seq<char>, query: Seq<char>, start: int) -> bool {
    &&& 0 <= start
    &&& start + query.len() <= name.len()
    &&& forall|j: int| 0 <= j < query.len() ==> fold_case(#[trigger] name[start + j]) == fold_case(query[j])
}

/// `query` occurs somewhere in `name`, ignoring ASCII case.
pub open spec fn name_matches(name: Seq<char>, query: Seq<char>) -> bool {
    exists|start: int| matches_at(name, query, start)
}

/// The scenes of `scenes` whose names match `query`, in order.
pub open spec fn matching_in(scenes: Seq<SceneType>, query: Seq<char>) -> Seq<SceneType>
    decreases scenes.len(),
{
    if scenes.len() == 0 {
        seq![]
    } else {
        let rest = matching_in(scenes.drop_last(), query);
        if name_matches(scene_name(scenes.last()), query) {
            rest.push(scenes.last())
        } else {
            rest
        }
    }
}

/// The scenes whose names match `query`, in catalogue order.
pub open spec fn matching_scenes(query: Seq<char>) -> Seq<SceneType> {
    matching_in(scene_order(), query)
}

/// Whether `query` occurs in `name`, ignoring ASCII case.
pub fn contains_ignoring_case(name: &[char], query: &[char]) -> (r: bool)
    ensures
        r == name_matches(name@, query@),
{
    let n = name.len();
    let q = query.len();
    if q > n {
        assert forall|start: int| !matches_at(name@, query@, start) by {}
        return false;
    }
    let mut start: usize = 0;
    while start <= n - q
        invariant
            q <= n == name@.len(),
            q == query@.len(),
            forall|s: int| 0 <= s < start ==> !matches_at(name@, query@, s),
        decreases n - q + 1 - start,
    {
        let mut j: usize = 0;
        let mut same = true;
        while j < q
            invariant
                j <= q,
                start + q <= n == name@.len(),
                q == query@.len(),
                same ==> forall|k: int| 0 <= k < j ==> fold_case(#[trigger] name@[start + k]) == fold_case(
                    query@[k],
                ),
                !same ==> !matches_at(name@, query@, start as int),
            decreases q - j,
        {
            if same && fold_case_code(name[start + j]) != fold_case_code(query[j]) {
                same = false;
                assert(fold_case(name@[start + j]) != fold_case(query@[j as int]));
            }
            j = j + 1;
        }
        if same {
            assert(matches_at(name@, query@, start as int));
            return true;
        }
        start = start + 1;
    }
    assert forall|s: int| !matches_at(name@, query@, s) by {}
    false
}

/// The state of the scene search: whether it is open, and what has been typed.
pub struct SearchState {
    pub active: bool,
    pub query: String,
}

impl Default for SearchState {
    fn default() -> (r: SearchState)
        ensures
            !r.active,
            r.query@ == Seq::<char>::empty(),
    {
        SearchState { active: false, query: String::new() }
    }
}

impl SearchState {
    /// A closed search with nothing typed.
    pub fn new() -> (r: SearchState)
        ensures
            !r.active,
            r.query@ == Seq::<char>::empty(),
    {
        SearchState { active: false, query: String::new() }
    }

    /// Opens the search with nothing typed.
    pub fn begin(&mut self)
        ensures
            final(self).active,
            final(self).query@ == Seq::<char>::empty(),
    {
        self.active = true;
        self.query = String::new();
    }

    /// Closes the search and forgets what was typed.
    pub fn cancel(&mut self)
        ensures
            !final(self).active,
            final(self).query@ == Seq::<char>::empty(),
    {
        self.active = false;
        self.query = String::new();
    }

    /// Adds `text` to the query.
    pub fn type_text(&mut self, text: &str)
        ensures
            final(self).active == old(self).active,
            final(self).query@ == old(self).query@ + text@,
    {
        self.query.append(text);
    }

    /// Removes the last character of the query, if there is one.
    pub fn backspace(&mut self)
        ensures
            final(self).active == old(self).active,
            final(self).query@ == (if old(self).query@.len() > 0 {
                old(self).query@.drop_last()
            } else {
                old(self).query@
            }),
    {
        let chars = chars_of(self.query.as_str());
        let n = chars.len();
        if n > 0 {
            let mut shorter = String::new();
            push_chars(&mut shorter, chars.as_slice(), 0, n - 1);
            assert(shorter@ =~= old(self).query@.drop_last());
            self.query = shorter;
        }
    }

    /// Whether the name of `scene` matches the query.
    pub fn matches(&self, scene: SceneType) -> (r: bool)
        ensures
            r == name_matches(scene_name(scene), self.query@),
    {
        let name = chars_of(scene.name());
        let query = chars_of(self.query.as_str());
        contains_ignoring_case(name.as_slice(), query.as_slice())
    }

    /// The scenes whose names match the query, in catalogue order.
    pub fn candidates(&self) -> (r: Vec<SceneType>)
        ensures
            r@ == matching_scenes(self.query@),
    {
        let all = SceneType::all();
        let mut out: Vec<SceneType> = Vec::new();
        let mut i: usize = 0;
        while i < all.len()
            invariant
                i <= all@.len(),
                all@ == scene_order(),
                out@ == matching_in(scene_order().take(i as int), self.query@),
            decreases all@.len() - i,
        {
            assert(scene_order().take(i + 1).drop_last() =~= scene_order().take(i as int));
            let scene = all[i];
            if self.matches(scene) {
                out.push(scene);
            }
            i = i + 1;
        }
        assert(scene_order().take(3) =~= scene_order());
        out
    }

    /// Closes the search and gives the first scene that matches the query, if any.
    pub fn submit(&mut self) -> (r: Option<SceneType>)
        ensures
            !final(self).active,
            final(self).query@ == Seq::<char>::empty(),
            r == (if matching_scenes(old(self).query@).len() > 0 {
                Some(matching_scenes(old(self).query@)[0])
            } else {
                None
            }),
    {
        let found = self.candidates();
        self.cancel();
        if found.len() > 0 {
            Some(found[0])
        } else {
            None
        }
    }
}

/// The scene after `s` in the catalogue, wrapping around.
pub open spec fn next_scene(s: SceneType) -> SceneType {
    scene_order()[(scene_index(s) + 1) % 3]
}

/// The scene before `s` in the catalogue, wrapping around.
pub open spec fn previous_scene(s: SceneType) -> SceneType {
    scene_order()[(scene_index(s) + 2) % 3]
}

/// A key press, as the window reports it.
pub enum Key {
    Escape,
    Enter,
    ArrowLeft,
    ArrowRight,
    Backspace,
    /// A key that produces text.
    Text(String),
    Other,
}

/// A key press, as a value.
pub enum KeyView {
    Escape,
    Enter,
    ArrowLeft,
    ArrowRight,
    Backspace,
    Text(Seq<char>),
    Other,
}

impl View for Key {
    type V = KeyView;

    open spec fn view(&self) -> KeyView {
        match self {
            Key::Escape => KeyView::Escape,
            Key::Enter => KeyView::Enter,
            Key::ArrowLeft => KeyView::ArrowLeft,
            Key::ArrowRight => KeyView::ArrowRight,
            Key::Backspace => KeyView::Backspace,
            Key::Text(t) => KeyView::Text(t@),
            Key::Other => KeyView::Other,
        }
    }
}

/// What the window should do after an input.
#[derive(Debug, Clone, Copy, PartialEq, Eq, Structural)]
pub enum ControlAction {
    /// Keep running as before.
    Continue,
    /// Close the window and quit.
    Exit,
    /// Replace the scene on screen with this one.
    SwitchScene(SceneType),
}

/// The per-frame values the shaders receive that come from the controls.
pub struct FrameCounters {
    pub frame_index: u32,
    /// 1 when the split comparison is shown, else 0.
    pub compare_enabled: u32,
}

/// The controls' state, as values.
pub struct ControlsView {
    pub scene: SceneType,
    pub compare_enabled: bool,
    pub drag_compare: bool,
    pub searching: bool,
    pub query: Seq<char>,
    pub frame_index: u32,
}

/// The input state of the playground that is not geometry.
pub struct LabControls {
    /// The scene on screen.
    pub scene: SceneType,
    /// Whether the split comparison is shown.
    pub compare_enabled: bool,
    /// Whether the left button is held, so that the split follows the cursor.
    pub drag_compare: bool,
    /// The scene search.
    pub search: SearchState,
    /// The index of the next frame.
    pub frame_index: u32,
}

impl View for LabControls {
    type V = ControlsView;

    open spec fn view(&self) -> ControlsView {
        ControlsView {
            scene: self.scene,
            compare_enabled: self.compare_enabled,
            drag_compare: self.drag_compare,
            searching: self.search.active,
            query: self.search.query@,
            frame_index: self.frame_index,
        }
    }
}

/// Whether typed `text` is the key that toggles the comparison: `c` in either case.
pub open spec fn is_compare_key(text: Seq<char>) -> bool {
    text.len() == 1 && fold_case(text[0]) == fold_case('c')
}

/// Whether typed `text` is the key that opens the search.
pub open spec fn is_search_key(text: Seq<char>) -> bool {
    text == seq!['/']
}

/// The state and action after pressing `key` in state `v`.
pub open spec fn after_key(v: ControlsView, key: KeyView) -> (ControlsView, ControlAction) {
    if v.searching {
        match key {
            KeyView::Escape => (ControlsView { searching: false, query: seq![], ..v }, ControlAction::Continue),
            KeyView::Enter => {
                let found = matching_scenes(v.query);
                let closed = ControlsView { searching: false, query: seq![], ..v };
                if found.len() > 0 {
                    (ControlsView { scene: found[0], ..closed }, ControlAction::SwitchScene(found[0]))
                } else {
                    (closed, ControlAction::Continue)
                }
            },
            KeyView::Backspace => (
                ControlsView {
                    query: if v.query.len() > 0 {
                        v.query.drop_last()
                    } else {
                        v.query
                    },
                    ..v
                },
                ControlAction::Continue,
            ),
            KeyView::Text(t) => (ControlsView { query: v.query + t, ..v }, ControlAction::Continue),
            _ => (v, ControlAction::Continue),
        }
    } else {
        match key {
            KeyView::Escape => (v, ControlAction::Exit),
            KeyView::Text(t) => if is_search_key(t) {
                (ControlsView { searching: true, query: seq![], ..v }, ControlAction::Continue)
            } else if is_compare_key(t) {
                (ControlsView { compare_enabled: !v.compare_enabled, ..v }, ControlAction::Continue)
            } else {
                (v, ControlAction::Continue)
            },
            KeyView::ArrowRight => (
                ControlsView { scene: next_scene(v.scene), ..v },
                ControlAction::SwitchScene(next_scene(v.scene)),
            ),
            KeyView::ArrowLeft => (
                ControlsView { scene: previous_scene(v.scene), ..v },
                ControlAction::SwitchScene(previous_scene(v.scene)),
            ),
            _ => (v, ControlAction::Continue),
        }
    }
}

/// Whether typed `text` is `c` in either case.
fn is_compare_text(text: &str) -> (r: bool)
    ensures
        r == is_compare_key(text@),
{
    let chars = chars_of(text);
    chars.len() == 1 && fold_case_code(chars[0]) == fold_case_code('c')
}

/// Whether typed `text` is `/`.
fn is_search_text(text: &str) -> (r: bool)
    ensures
        r == is_search_key(text@),
{
    let chars = chars_of(text);
    let r = chars.len() == 1 && chars[0] == '/';
    if r {
        assert(chars@ =~= seq!['/']);
    }
    r
}

/// Whether a window of this size can be drawn to; other sizes are ignored.
pub fn accepts_size(width: u32, height: u32) -> (r: bool)
    ensures
        r == (width > 0 && height > 0),
{
    width > 0 && height > 0
}

impl LabControls {
    /// The controls at start: showing `scene`, comparison on, nothing held,
    /// search closed, at the first frame.
    pub fn new(scene: SceneType) -> (r: LabControls)
        ensures
            r@ == (ControlsView {
                scene,
                compare_enabled: true,
                drag_compare: false,
                searching: false,
                query: seq![],
                frame_index: 0,
            }),
    {
        LabControls {
            scene,
            compare_enabled: true,
            drag_compare: false,
            search: SearchState::new(),
            frame_index: 0,
        }
    }

    /// Handles a key press.
    pub fn key_pressed(&mut self, key: Key) -> (r: ControlAction)
        ensures
            (final(self)@, r) == after_key(old(self)@, key@),
    {
        if self.search.active {
            match key {
                Key::Escape => {
                    self.search.cancel();
                    ControlAction::Continue
                },
                Key::Enter => match self.search.submit() {
                    Some(scene) => {
                        self.scene = scene;
                        ControlAction::SwitchScene(scene)
                    },
                    None => ControlAction::Continue,
                },
                Key::Backspace => {
                    self.search.backspace();
                    ControlAction::Continue
                },
                Key::Text(t) => {
                    self.search.type_text(t.as_str());
                    ControlAction::Continue
                },
                _ => ControlAction::Continue,
            }
        } else {
            match key {
                Key::Escape => ControlAction::Exit,
                Key::Text(t) => {
                    if is_search_text(t.as_str()) {
                        self.search.begin();
                    } else if is_compare_text(t.as_str()) {
                        self.compare_enabled = !self.compare_enabled;
                    }
                    ControlAction::Continue
                },
                Key::ArrowRight => {
                    self.scene = self.scene.next();
                    ControlAction::SwitchScene(self.scene)
                },
                Key::ArrowLeft => {
                    self.scene = self.scene.previous();
                    ControlAction::SwitchScene(self.scene)
                },
                _ => ControlAction::Continue,
            }
        }
    }

    /// Handles a press or release of a mouse button; gives whether the split
    /// should now follow the cursor.
    pub fn mouse_button(&mut self, left: bool, pressed: bool) -> (r: bool)
        ensures
            final(self)@ == (if left {
                ControlsView { drag_compare: pressed, ..old(self)@ }
            } else {
                old(self)@
            }),
            r == (left && pressed),
    {
        if left {
            self.drag_compare = pressed;
        }
        left && pressed
    }

    /// Whether the split follows the cursor when it moves.
    pub fn follows_cursor(&self) -> (r: bool)
        ensures
            r == self.drag_compare,
    {
        self.drag_compare
    }

    /// The counters for the frame about to be drawn; the frame index then
    /// advances, wrapping to 0 after `u32::MAX`.
    pub fn begin_frame(&mut self) -> (r: FrameCounters)
        ensures
            r.frame_index == old(self).frame_index,
            r.compare_enabled == (if old(self).compare_enabled { 1u32 } else { 0u32 }),
            final(self)@ == (ControlsView {
                frame_index: if old(self).frame_index == u32::MAX {
                    0
                } else {
                    (old(self).frame_index + 1) as u32
                },
                ..old(self)@
            }),
    {
        let counters = FrameCounters {
            frame_index: self.frame_index,
            compare_enabled: if self.compare_enabled { 1 } else { 0 },
        };
        self.frame_index = self.frame_index.wrapping_add(1);
        counters
    }
}

/// Why the window surface gave no texture to draw to.
#[derive(Debug, Clone, Copy, PartialEq, Eq, Structural)]
pub enum SurfaceProblem {
    Lost,
    Outdated,
    OutOfMemory,
    Timeout,
    Other,
}

/// What to do about a surface that gave no texture.
#[derive(Debug, Clone, Copy, PartialEq, Eq, Structural)]
pub enum Recovery {
    /// Configure the surface again for the current size and redraw.
    Reconfigure,
    /// Stop: the application cannot go on.
    Exit,
    /// Report it and carry on with the next frame.
    Skip,
}

/// The recovery for each surface problem: a lost or outdated surface is set up
/// again, running out of memory ends the application, anything else skips the frame.
pub open spec fn recovery_for(p: SurfaceProblem) -> Recovery {
    match p {
        SurfaceProblem::Lost | SurfaceProblem::Outdated => Recovery::Reconfigure,
        SurfaceProblem::OutOfMemory => Recovery::Exit,
        SurfaceProblem::Timeout | SurfaceProblem::Other => Recovery::Skip,
    }
}

/// How to recover from `problem`.
pub fn surface_recovery(problem: SurfaceProblem) -> (r: Recovery)
    ensures
        r == recovery_for(problem),
{
    match problem {
        SurfaceProblem::Lost | SurfaceProblem::Outdated => Recovery::Reconfigure,
        SurfaceProblem::OutOfMemory => Recovery::Exit,
        SurfaceProblem::Timeout | SurfaceProblem::Other => Recovery::Skip,
    }
}

/// Folding case identifies exactly a character with itself and an ASCII
/// letter with the same letter in the other case.
pub proof fn lemma_fold_case_identifies_cases(c: char, d: char)
    ensures
        fold_case(c) == fold_case(d) <==> (c == d || ('A' <= c && c <= 'Z' && d as int == c as int + 32)
            || ('A' <= d && d <= 'Z' && c as int == d as int + 32)),
{
}

/// `t` with ASCII case folded away, as codes.
pub open spec fn folded(t: Seq<char>) -> Seq<int> {
    t.map_values(|c: char| fold_case(c))
}

/// The candidates of a search are exactly the scenes whose whole name holds
/// the query somewhere, ignoring ASCII case, each once, in catalogue order.
pub proof fn lemma_candidates_are_matching_names(q: Seq<char>)
    ensures
        forall|s: SceneType| #[trigger]
            matching_scenes(q).contains(s) <==> exists|start: int|
                #![trigger scene_name(s).skip(start)]
                0 <= start && start + q.len() <= scene_name(s).len() && scene_name(s).skip(start).take(q.len() as int).map_values(
                    |c: char| fold_case(c),
                ) == q.map_values(|c: char| fold_case(c)),
        forall|i: int, j: int|
            0 <= i < j < matching_scenes(q).len() ==> scene_index(#[trigger] matching_scenes(q)[i])
                < scene_index(#[trigger] matching_scenes(q)[j]),
{
    let o = scene_order();
    let m1 = matching_in(o.take(1), q);
    let m2 = matching_in(o.take(2), q);
    let m3 = matching_in(o.take(3), q);
    assert(o.take(3) =~= o);
    assert(o.take(3).drop_last() =~= o.take(2));
    assert(o.take(2).drop_last() =~= o.take(1));
    assert(o.take(1).drop_last() =~= o.take(0));
    assert(matching_in(o.take(0), q) == Seq::<SceneType>::empty());
    let f = |s: SceneType| name_matches(scene_name(s), q);
    assert(m1 =~= (if f(SceneType::NoiseBlur) { seq![SceneType::NoiseBlur] } else { seq![] }));
    assert(m2 =~= (if f(SceneType::Sobel) { m1.push(SceneType::Sobel) } else { m1 }));
    assert(m3 =~= (if f(SceneType::Voronoi) { m2.push(SceneType::Voronoi) } else { m2 }));
    assert(matching_scenes(q) == m3);
    assert forall|s: SceneType| #[trigger] matching_scenes(q).contains(s) <==> f(s) by {
        if f(s) {
            match s {
                SceneType::NoiseBlur => {
                    assert(m1[0] == s);
                    assert(m3[0] == s);
                },
                SceneType::Sobel => {
                    assert(m2[m2.len() - 1] == s);
                    assert(m3[m2.len() - 1] == s);
                },
                SceneType::Voronoi => {
                    assert(m3[m3.len() - 1] == s);
                },
            }
        }
    }
    assert forall|s: SceneType| #[trigger] f(s) <==> exists|start: int|
        #![trigger scene_name(s).skip(start)]
        0 <= start && start + q.len() <= scene_name(s).len() && folded(
            scene_name(s).skip(start).take(q.len() as int),
        ) == folded(q) by {
        let n = scene_name(s);
        if f(s) {
            let start = choose|start: int| matches_at(n, q, start);
            assert(matches_at(n, q, start));
            assert(folded(n.skip(start).take(q.len() as int)) =~= folded(q)) by {
                assert forall|j: int| 0 <= j < q.len() implies folded(
                    n.skip(start).take(q.len() as int),
                )[j] == folded(q)[j] by {
                    assert(n.skip(start).take(q.len() as int)[j] == n[start + j]);
                }
            }
            assert(n.skip(start) == n.skip(start));
        }
        if exists|start: int|
            #![trigger n.skip(start)]
            0 <= start && start + q.len() <= n.len() && folded(n.skip(start).take(q.len() as int))
                == folded(q) {
            let start = choose|start: int|
                #![trigger n.skip(start)]
                0 <= start && start + q.len() <= n.len() && folded(
                    n.skip(start).take(q.len() as int),
                ) == folded(q);
            assert forall|j: int| 0 <= j < q.len() implies fold_case(#[trigger] n[start + j]) == fold_case(
                q[j],
            ) by {
                assert(n.skip(start).take(q.len() as int)[j] == n[start + j]);
                assert(folded(n.skip(start).take(q.len() as int))[j] == folded(q)[j]);
            }
            assert(matches_at(n, q, start));
        }
    }
}

/// The comparison key is the letter `c` typed alone, in either case.
pub proof fn lemma_compare_key_is_c(t: Seq<char>)
    ensures
        is_compare_key(t) <==> (t == seq!['c'] || t == seq!['C']),
{
    if is_compare_key(t) {
        lemma_fold_case_identifies_cases(t[0], 'c');
        if t[0] == 'c' {
            assert(t =~= seq!['c']);
        } else {
            assert(t =~= seq!['C']);
        }
    }
}

/// A key press changes whether the comparison is shown exactly when the search
/// is closed and the key typed `c` or `C`.
pub proof fn lemma_only_c_toggles_comparison(v: ControlsView, key: KeyView)
    ensures
        after_key(v, key).0.compare_enabled != v.compare_enabled <==> (!v.searching && (key
            == KeyView::Text(seq!['c']) || key == KeyView::Text(seq!['C']))),
{
    if let KeyView::Text(t) = key {
        lemma_compare_key_is_c(t);
        if t == seq!['c'] || t == seq!['C'] {
            assert(!is_search_key(t)) by {
                assert(t[0] != seq!['/'][0]);
            }
        }
    }
}

/// While the search is closed its query stays empty: every key keeps it so.
pub proof fn lemma_closed_search_has_no_query(v: ControlsView, key: KeyView)
    requires
        !v.searching ==> v.query == Seq::<char>::empty(),
    ensures
        !after_key(v, key).0.searching ==> after_key(v, key).0.query == Seq::<char>::empty(),
{
}

/// Escape quits only when the search is closed; while searching it closes the
/// search and leaves the scene and the comparison as they were.
pub proof fn lemma_escape_closes_search_first(v: ControlsView)
    ensures
        v.searching ==> after_key(v, KeyView::Escape).1 == ControlAction::Continue,
        v.searching ==> !after_key(v, KeyView::Escape).0.searching,
        v.searching ==> after_key(v, KeyView::Escape).0.scene == v.scene,
        v.searching ==> after_key(v, KeyView::Escape).0.compare_enabled == v.compare_enabled,
        !v.searching ==> after_key(v, KeyView::Escape) == (v, ControlAction::Exit),
{
}

/// Opening the search and cancelling it with Escape changes nothing.
pub proof fn lemma_cancelled_search_changes_nothing(v: ControlsView)
    requires
        !v.searching,
        v.query == Seq::<char>::empty(),
    ensures
        after_key(after_key(v, KeyView::Text(seq!['/'])).0, KeyView::Escape).0 == v,
{
    let opened = after_key(v, KeyView::Text(seq!['/'])).0;
    assert(opened.searching);
}

/// Pressing `c` twice with the search closed leaves the comparison as it was.
pub proof fn lemma_compare_toggle_twice(v: ControlsView)
    requires
        !v.searching,
    ensures
        after_key(after_key(v, KeyView::Text(seq!['c'])).0, KeyView::Text(seq!['c'])).0 == v,
{
    assert(!is_search_key(seq!['c'])) by {
        assert(seq!['c'][0] != seq!['/'][0]);
    }
}

/// With the search closed, the right arrow and then the left arrow come back to
/// the same scene, and so do left and then right.
pub proof fn lemma_arrows_are_inverse(v: ControlsView)
    requires
        !v.searching,
    ensures
        after_key(after_key(v, KeyView::ArrowRight).0, KeyView::ArrowLeft).0 == v,
        after_key(after_key(v, KeyView::ArrowLeft).0, KeyView::ArrowRight).0 == v,
{
}

/// A scene switch always names the scene that is then on screen.
pub proof fn lemma_switch_names_current_scene(v: ControlsView, key: KeyView)
    ensures
        after_key(v, key).1 matches ControlAction::SwitchScene(s) ==> after_key(v, key).0.scene == s,
{
}

} // verus!
