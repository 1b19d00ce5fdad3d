//! Window/pane templates and the command builder: a template is a named,
//! reusable window blueprint, and the builder turns an ordered window list
//! plus an optional working directory into the ordered sequence of abstract
//! multiplexer operations that materializes it.
use vstd::prelude::*;

verus! {

/// One window of a session blueprint: an optional display name, an optional
/// layout to select once the panes exist, and the ordered shell commands of
/// its panes.
#[derive(Debug, PartialEq, Eq, Clone)]
pub struct Window {
    pub name: Option<String>,
    pub layout: Option<String>,
    pub panes: Vec<String>,
}

/// The mathematical shadow of `Window`.
pub struct WindowView {
    pub name: Option<Seq<char>>,
    pub layout: Option<Seq<char>>,
    pub panes: Seq<Seq<char>>,
}

impl DeepView for Window {
    type V = WindowView;

    open spec fn deep_view(&self) -> WindowView {
        WindowView {
            name: self.name.deep_view(),
            layout: self.layout.deep_view(),
            panes: self.panes.deep_view(),
        }
    }
}

/// A named window blueprint; `hidden` templates are left out of listings
/// unless all templates are asked for.
#[derive(Debug, PartialEq, Eq)]
pub struct Template {
    pub name: String,
    pub hidden: Option<bool>,
    pub windows: Vec<Window>,
}

/// The mathematical shadow of `Template`.
pub struct TemplateView {
    pub name: Seq<char>,
    pub hidden: Option<bool>,
    pub windows: Seq<WindowView>,
}

impl DeepView for Template {
    type V = TemplateView;

    open spec fn deep_view(&self) -> TemplateView {
        TemplateView {
            name: self.name.deep_view(),
            hidden: self.hidden.deep_view(),
            windows: self.windows.deep_view(),
        }
    }
}

/// Index of the first template of `templates` whose name is `name`, or
/// `None` when no template of that name exists.
pub fn find_template(name: &String, templates: &Vec<Template>) -> (r: Option<usize>)
    ensures
        match r {
            Some(i) => i < templates@.len() && templates.deep_view()[i as int].name == name@
                && forall|j: int| 0 <= j < i ==> templates.deep_view()[j].name != name@,
            None => forall|j: int|
                0 <= j < templates@.len() ==> templates.deep_view()[j].name != name@,
        },
{
    let mut i: usize = 0;
    while i < templates.len()
        invariant
            0 <= i <= templates@.len(),
            templates.deep_view().len() == templates@.len(),
            forall|j: int| 0 <= j < i ==> templates.deep_view()[j].name != name@,
        decreases templates@.len() - i,
    {
        if templates[i].name == *name {
            return Some(i);
        }
        i = i + 1;
    }
    None
}

/// One abstract multiplexer operation.  The launcher hands an ordered batch
/// of these to the multiplexer; nothing here executes them.
#[derive(Debug, PartialEq, Eq)]
pub enum TmuxOp {
    /// Rename the implicit first window of a fresh session.
    RenameWindow { name: String },
    /// Open a further window, in `start_dir` when the session has one.
    NewWindow { name: Option<String>, start_dir: Option<String> },
    /// Split the current window for a further pane.
    SplitWindow { start_dir: Option<String> },
    /// Type `keys` into the current pane.
    SendKeys { keys: String },
    /// Apply a named layout to the current window.
    SelectLayout { layout: String },
}

/// The mathematical shadow of `TmuxOp`.
pub enum OpView {
    RenameWindow { name: Seq<char> },
    NewWindow { name: Option<Seq<char>>, start_dir: Option<Seq<char>> },
    SplitWindow { start_dir: Option<Seq<char>> },
    SendKeys { keys: Seq<char> },
    SelectLayout { layout: Seq<char> },
}

impl DeepView for TmuxOp {
    type V = OpView;

    open spec fn deep_view(&self) -> OpView {
        match self {
            TmuxOp::RenameWindow { name } => OpView::RenameWindow { name: name.deep_view() },
            TmuxOp::NewWindow { name, start_dir } => OpView::NewWindow {
                name: name.deep_view(),
                start_dir: start_dir.deep_view(),
            },
            TmuxOp::SplitWindow { start_dir } => OpView::SplitWindow {
                start_dir: start_dir.deep_view(),
            },
            TmuxOp::SendKeys { keys } => OpView::SendKeys { keys: keys.deep_view() },
            TmuxOp::SelectLayout { layout } => OpView::SelectLayout { layout: layout.deep_view() },
        }
    }
}

/// The operation, if any, that brings window number `idx` into existence:
/// the first window already exists implicitly, so it is at most renamed;
/// every later window is opened with the session's working directory.
pub open spec fn window_create_ops(idx: int, w: WindowView, dir: Option<Seq<char>>) -> Seq<
    OpView,
> {
    if idx == 0 {
        match w.name {
            Some(n) => seq![OpView::RenameWindow { name: n }],
            None => Seq::empty(),
        }
    } else {
        seq![OpView::NewWindow { name: w.name, start_dir: dir }]
    }
}

/// The operations for pane number `idx` of a window: the first pane exists
/// implicitly and is only typed into; every later pane is split off first.
pub open spec fn pane_step_ops(idx: int, cmd: Seq<char>, dir: Option<Seq<char>>) -> Seq<OpView> {
    let send = OpView::SendKeys { keys: cmd + "\r"@ };
    if idx == 0 {
        seq![send]
    } else {
        seq![OpView::SplitWindow { start_dir: dir }, send]
    }
}

/// The operations for all panes of one window, in pane order.
pub open spec fn pane_ops(panes: Seq<Seq<char>>, dir: Option<Seq<char>>) -> Seq<OpView>
    decreases panes.len(),
{
    if panes.len() == 0 {
        Seq::empty()
    } else {
        pane_ops(panes.drop_last(), dir) + pane_step_ops(panes.len() - 1, panes.last(), dir)
    }
}

/// The operation, if any, that applies a window's layout once its panes
/// exist.
pub open spec fn layout_ops(layout: Option<Seq<char>>) -> Seq<OpView> {
    match layout {
        Some(l) => seq![OpView::SelectLayout { layout: l }],
        None => Seq::empty(),
    }
}

/// All operations for window number `idx`: creation, panes, then layout.
pub open spec fn window_ops(idx: int, w: WindowView, dir: Option<Seq<char>>) -> Seq<OpView> {
    window_create_ops(idx, w, dir) + pane_ops(w.panes, dir) + layout_ops(w.layout)
}

/// All operations for a window list, windows processed in order.
pub open spec fn windows_ops(ws: Seq<WindowView>, dir: Option<Seq<char>>) -> Seq<OpView>
    decreases ws.len(),
{
    if ws.len() == 0 {
        Seq::empty()
    } else {
        windows_ops(ws.drop_last(), dir) + window_ops(ws.len() - 1, ws.last(), dir)
    }
}

/// The `SendKeys` operations of `ops`, in order.
pub open spec fn send_keys_of(ops: Seq<OpView>) -> Seq<OpView> {
    ops.filter(|op: OpView| op is SendKeys)
}

/// The `SelectLayout` operations of `ops`, in order.
pub open spec fn layouts_of(ops: Seq<OpView>) -> Seq<OpView> {
    ops.filter(|op: OpView| op is SelectLayout)
}

/// The `SendKeys` operations a pane list is owed: one per pane, in pane
/// order, each the pane's command verbatim with a carriage return appended.
pub open spec fn send_keys_expected(panes: Seq<Seq<char>>) -> Seq<OpView> {
    panes.map_values(|cmd: Seq<char>| OpView::SendKeys { keys: cmd + "\r"@ })
}

/// One `SendKeys` per pane: among the operations a window's pane list
/// emits, the `SendKeys` operations are exactly the panes in order, each
/// carrying the pane's command verbatim — no trimming, no rewriting — with
/// a carriage return appended.
pub proof fn lemma_pane_ops_send_keys(panes: Seq<Seq<char>>, dir: Option<Seq<char>>)
    ensures
        send_keys_of(pane_ops(panes, dir)) == send_keys_expected(panes),
    decreases panes.len(),
{
    reveal(Seq::<OpView>::filter);
    broadcast use vstd::seq_lib::group_filter_ensures;

    if panes.len() == 0 {
        assert(pane_ops(panes, dir) =~= Seq::<OpView>::empty());
        assert(send_keys_of(pane_ops(panes, dir)) =~= Seq::<OpView>::empty());
        assert(send_keys_expected(panes) =~= Seq::<OpView>::empty());
    } else {
        lemma_pane_ops_send_keys(panes.drop_last(), dir);
        let head = pane_ops(panes.drop_last(), dir);
        let step = pane_step_ops(panes.len() - 1, panes.last(), dir);
        let send = OpView::SendKeys { keys: panes.last() + "\r"@ };
        assert(send_keys_of(head + step) == send_keys_of(head) + send_keys_of(step));
        assert(seq![send].drop_last() =~= Seq::<OpView>::empty());
        assert(send_keys_of(seq![send]) =~= seq![send]);
        if panes.len() - 1 == 0 {
            assert(step == seq![send]);
        } else {
            let split = OpView::SplitWindow { start_dir: dir };
            assert(step == seq![split, send]);
            assert(seq![split, send].drop_last() =~= seq![split]);
            assert(seq![split].drop_last() =~= Seq::<OpView>::empty());
            assert(send_keys_of(seq![split]) =~= Seq::<OpView>::empty());
            assert(send_keys_of(seq![split, send]) =~= seq![send]);
        }
        assert(send_keys_expected(panes) =~= send_keys_expected(panes.drop_last()).push(send));
        assert(send_keys_of(pane_ops(panes, dir)) =~= send_keys_expected(panes));
    }
}

/// A pane list only splits and types: it emits no layout operation.
pub proof fn lemma_pane_ops_no_layout(panes: Seq<Seq<char>>, dir: Option<Seq<char>>)
    ensures
        layouts_of(pane_ops(panes, dir)) == Seq::<OpView>::empty(),
    decreases panes.len(),
{
    reveal(Seq::<OpView>::filter);
    broadcast use vstd::seq_lib::group_filter_ensures;

    if panes.len() == 0 {
        assert(pane_ops(panes, dir) =~= Seq::<OpView>::empty());
        assert(layouts_of(pane_ops(panes, dir)) =~= Seq::<OpView>::empty());
    } else {
        lemma_pane_ops_no_layout(panes.drop_last(), dir);
        let head = pane_ops(panes.drop_last(), dir);
        let step = pane_step_ops(panes.len() - 1, panes.last(), dir);
        let send = OpView::SendKeys { keys: panes.last() + "\r"@ };
        assert(layouts_of(head + step) == layouts_of(head) + layouts_of(step));
        assert(seq![send].drop_last() =~= Seq::<OpView>::empty());
        assert(layouts_of(seq![send]) =~= Seq::<OpView>::empty());
        if panes.len() - 1 == 0 {
            assert(step == seq![send]);
        } else {
            let split = OpView::SplitWindow { start_dir: dir };
            assert(step == seq![split, send]);
            assert(seq![split, send].drop_last() =~= seq![split]);
            assert(seq![split].drop_last() =~= Seq::<OpView>::empty());
            assert(layouts_of(seq![split]) =~= Seq::<OpView>::empty());
            assert(layouts_of(seq![split, send]) =~= Seq::<OpView>::empty());
        }
        assert(layouts_of(pane_ops(panes, dir)) =~= Seq::<OpView>::empty());
    }
}

/// Layout placement: the operations of the first `i + 1` windows are those
/// of the first `i` followed by window `i`'s own — its creation operations,
/// then all of its pane operations, then, exactly when its layout is set,
/// one `SelectLayout` as its last operation.  A window's layout operation
/// therefore stands after that window's last pane operation and before any
/// operation of the next window, and a window without a layout emits none.
pub proof fn lemma_window_layout_placement(ws: Seq<WindowView>, dir: Option<Seq<char>>, i: int)
    requires
        0 <= i < ws.len(),
    ensures
        windows_ops(ws.take(i + 1), dir) == windows_ops(ws.take(i), dir) + window_create_ops(
            i,
            ws[i],
            dir,
        ) + pane_ops(ws[i].panes, dir) + layout_ops(ws[i].layout),
{
    assert(ws.take(i + 1).drop_last() =~= ws.take(i));
    assert(ws.take(i + 1).last() == ws[i]);
}

/// A sequence holding the one operation of `o`, or nothing.
pub open spec fn opt_op_seq(o: Option<OpView>) -> Seq<OpView> {
    match o {
        Some(v) => seq![v],
        None => Seq::empty(),
    }
}

/// A copy of an optional borrowed string.
pub fn clone_opt_string(o: Option<&String>) -> (r: Option<String>)
    ensures
        r.deep_view() == o.deep_view(),
{
    match o {
        Some(s) => Some(s.clone()),
        None => None,
    }
}

/// The operation, if any, that brings window number `window_idx` into
/// existence; the executable counterpart of `window_create_ops`.
pub fn build_tmux_command(window_idx: usize, window: &Window, dir: Option<&String>) -> (r: Option<
    TmuxOp,
>)
    ensures
        opt_op_seq(r.deep_view()) == window_create_ops(
            window_idx as int,
            window.deep_view(),
            dir.deep_view(),
        ),
{
    if window_idx == 0 {
        match &window.name {
            Some(n) => Some(TmuxOp::RenameWindow { name: n.clone() }),
            None => None,
        }
    } else {
        Some(TmuxOp::NewWindow { name: clone_opt_string(window.name.as_ref()), start_dir: clone_opt_string(dir) })
    }
}

/// Appends the pane operations of one window to `tmux`, panes processed in
/// order; the executable counterpart of `pane_ops`.
pub fn add_panes_to_tmux(tmux: Vec<TmuxOp>, panes: &Vec<String>, dir: Option<&String>) -> (r: Vec<
    TmuxOp,
>)
    ensures
        r.deep_view() == tmux.deep_view() + pane_ops(panes.deep_view(), dir.deep_view()),
{
    let mut ops = tmux;
    let ghost base = ops.deep_view();
    let ghost pv = panes.deep_view();
    let ghost dv = dir.deep_view();
    let mut j: usize = 0;
    proof {
        assert(pv.take(0) =~= Seq::<Seq<char>>::empty());
        assert(base + pane_ops(pv.take(0), dv) =~= base);
    }
    while j < panes.len()
        invariant
            0 <= j <= panes@.len(),
            pv == panes.deep_view(),
            pv.len() == panes@.len(),
            dv == dir.deep_view(),
            ops.deep_view() == base + pane_ops(pv.take(j as int), dv),
        decreases panes@.len() - j,
    {
        let ghost before = ops.deep_view();
        if j > 0 {
            ops.push(TmuxOp::SplitWindow { start_dir: clone_opt_string(dir) });
        }
        ops.push(TmuxOp::SendKeys { keys: panes[j].clone().concat("\r") });
        proof {
            assert(pv.take(j + 1).drop_last() =~= pv.take(j as int));
            assert(pv.take(j + 1).last() == pv[j as int]);
            if j > 0 {
                assert(ops.deep_view() =~= before + pane_step_ops(j as int, pv[j as int], dv));
            } else {
                assert(ops.deep_view() =~= before + pane_step_ops(0, pv[j as int], dv));
            }
            assert(base + pane_ops(pv.take(j as int), dv) + pane_step_ops(
                j as int,
                pv[j as int],
                dv,
            ) =~= base + pane_ops(pv.take(j + 1), dv));
        }
        j = j + 1;
    }
    proof {
        assert(pv.take(pv.len() as int) =~= pv);
    }
    ops
}

/// Appends the full operation sequence for `windows` to `tmux`: for each
/// window in order, its creation, its panes, then its layout; the
/// executable counterpart of `windows_ops` and the core of the command
/// builder.
pub fn apply_windows(tmux: Vec<TmuxOp>, windows: &Vec<Window>, dir: Option<&String>) -> (r: Vec<
    TmuxOp,
>)
    ensures
        r.deep_view() == tmux.deep_view() + windows_ops(windows.deep_view(), dir.deep_view()),
{
    let mut ops = tmux;
    let ghost base = ops.deep_view();
    let ghost wv = windows.deep_view();
    let ghost dv = dir.deep_view();
    let mut i: usize = 0;
    proof {
        assert(wv.take(0) =~= Seq::<WindowView>::empty());
        assert(base + windows_ops(wv.take(0), dv) =~= base);
    }
    while i < windows.len()
        invariant
            0 <= i <= windows@.len(),
            wv == windows.deep_view(),
            wv.len() == windows@.len(),
            dv == dir.deep_view(),
            ops.deep_view() == base + windows_ops(wv.take(i as int), dv),
        decreases windows@.len() - i,
    {
        let ghost at_start = ops.deep_view();
        let w = &windows[i];
        match build_tmux_command(i, w, dir) {
            Some(op) => {
                ops.push(op);
            },
            None => {},
        }
        proof {
            assert(ops.deep_view() =~= at_start + window_create_ops(i as int, wv[i as int], dv));
        }
        ops = add_panes_to_tmux(ops, &w.panes, dir);
        match &w.layout {
            Some(l) => {
                ops.push(TmuxOp::SelectLayout { layout: l.clone() });
            },
            None => {},
        }
        proof {
            assert(ops.deep_view() =~= at_start + window_create_ops(i as int, wv[i as int], dv)
                + pane_ops(wv[i as int].panes, dv) + layout_ops(wv[i as int].layout));
            assert(wv.take(i + 1).drop_last() =~= wv.take(i as int));
            assert(wv.take(i + 1).last() == wv[i as int]);
            assert(at_start + window_ops(i as int, wv[i as int], dv) =~= base + windows_ops(
                wv.take(i + 1),
                dv,
            ));
        }
        i = i + 1;
    }
    proof {
        assert(wv.take(wv.len() as int) =~= wv);
    }
    ops
}

} // verus!
