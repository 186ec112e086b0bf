//! The resolution pass as a machine of single steps. The machine walks the
//! tree with a stack of tasks; when it meets a directive it asks its driver
//! for the content of the source, and the driver hands that content back.
//! Whatever the driver does between steps (reading, fetching, running a
//! command), each step is decided here.
use vstd::prelude::*;
use crate::directive::{classify, route_of, unknown_message, Source};
use crate::document::{
    entry_replaced, entry_value, entry_value_at, node_at, node_ref, payload, payload_of,
    replace_entry, Document,
};
use crate::error::YincError;

verus! {

/// A unit of pending work, as mathematics.
pub enum TaskView {
    Visit(Seq<usize>),
    Scan(Seq<usize>, usize),
}

/// A unit of pending work: visit the node at a path, or look at one entry
/// of the mapping at a path for a directive.
#[derive(Debug)]
pub enum Task {
    Visit(Vec<usize>),
    Scan(Vec<usize>, usize),
}

impl View for Task {
    type V = TaskView;

    open spec fn view(&self) -> TaskView {
        match self {
            Task::Visit(p) => TaskView::Visit(p@),
            Task::Scan(p, i) => TaskView::Scan(p@, *i),
        }
    }
}

/// The tasks of a stack, as mathematics; the last one is done first.
pub open spec fn task_views(ts: Seq<Task>) -> Seq<TaskView> {
    ts.map_values(|t: Task| t@)
}

/// Visits of the `n` children of the node at `p`, pushed so that the first
/// child is visited first.
pub open spec fn visits_rev(p: Seq<usize>, n: nat) -> Seq<TaskView> {
    Seq::new(n, |j: int| TaskView::Visit(p.push((n - 1 - j) as usize)))
}

/// Scans of the `n` entries of the mapping at `p`, pushed so that the first
/// entry is looked at first.
pub open spec fn scans_rev(p: Seq<usize>, n: nat) -> Seq<TaskView> {
    Seq::new(n, |j: int| TaskView::Scan(p, (n - 1 - j) as usize))
}

/// What visiting a node adds to the stack. At a mapping, every entry is
/// looked at for a directive before any child is visited; at a sequence,
/// each element is visited in order; any other node ends the walk there.
pub open spec fn expansion(t: TaskView, d: Document) -> Seq<TaskView> {
    match t {
        TaskView::Visit(p) => match node_at(d, p) {
            Some(Document::Mapping(es)) => visits_rev(p, es@.len()) + scans_rev(p, es@.len()),
            Some(Document::Sequence(xs)) => visits_rev(p, xs@.len()),
            _ => Seq::empty(),
        },
        TaskView::Scan(_, _) => Seq::empty(),
    }
}

/// The text of the directive that entry `i` of the mapping at `p` holds.
pub open spec fn directive_at(d: Document, p: Seq<usize>, i: int, tag: Seq<char>) -> Option<Seq<char>> {
    match entry_value_at(d, p, i) {
        Some(v) => payload_of(v, tag),
        None => None,
    }
}

/// The document holds a directive as the value of some mapping entry.
pub open spec fn has_directive(d: Document, tag: Seq<char>) -> bool {
    exists|p: Seq<usize>, i: int| #[trigger] directive_at(d, p, i, tag) is Some
}

/// Visiting a mapping schedules a look at each of its entries and, below
/// them on the stack, a visit of each of its children: the lower half of
/// what is pushed visits the children (the first child nearest the top), the
/// upper half looks at the entries (the first entry on top). So content that
/// replaced a directive is itself visited afterwards, which resolves its own
/// directives in turn.
pub proof fn lemma_replaced_content_is_visited(d: Document, p: Seq<usize>)
    requires
        node_at(d, p) matches Some(Document::Mapping(_)),
    ensures
        ({
            let n = node_at(d, p)->Some_0->Mapping_0@.len();
            let e = expansion(TaskView::Visit(p), d);
            &&& e.len() == 2 * n
            &&& forall|k: int| 0 <= k < n ==> #[trigger] e[k] == TaskView::Visit(p.push((n - 1 - k) as usize))
            &&& forall|k: int| n <= k < 2 * n ==> #[trigger] e[k] == TaskView::Scan(p, (2 * n - 1 - k) as usize)
        }),
{
}

/// What the driver is to do after a step.
#[derive(Debug)]
pub enum Step {
    /// Nothing: take the next step.
    Continue,
    /// Produce the document that the source holds and hand it back.
    Fetch(Source),
    /// Stop: the pass fails with this error.
    Fail(YincError),
    /// Stop: the document is resolved.
    Done,
}

/// The state of one resolution pass.
pub struct Resolution {
    /// The document, as resolved so far.
    pub doc: Document,
    /// Work still to do; the last task is done first.
    pub tasks: Vec<Task>,
    /// The tag that marks a directive.
    pub include_tag: String,
    /// The directory that every relative path of the pass is read against.
    pub base_dir: String,
    /// The mapping entry whose directive awaits its content.
    pub pending: Option<(Vec<usize>, usize)>,
}

/// The position awaiting content, as mathematics.
pub open spec fn pending_view(p: Option<(Vec<usize>, usize)>) -> Option<(Seq<usize>, usize)> {
    match p {
        Some((path, i)) => Some((path@, i)),
        None => None,
    }
}

fn copy_path(p: &Vec<usize>) -> (r: Vec<usize>)
    ensures
        r@ == p@,
{
    let mut r: Vec<usize> = Vec::new();
    let mut k: usize = 0;
    while k < p.len()
        invariant
            k <= p@.len(),
            r@ == p@.subrange(0, k as int),
        decreases p@.len() - k,
    {
        r.push(p[k]);
        k = k + 1;
        assert(r@ =~= p@.subrange(0, k as int));
    }
    assert(p@.subrange(0, k as int) =~= p@);
    r
}

impl Resolution {
    /// A pass over `doc` that starts by visiting its root. Relative paths
    /// of the whole pass are read against `base_dir`.
    pub fn new(doc: Document, include_tag: String, base_dir: String) -> (r: Resolution)
        ensures
            r.doc == doc,
            r.include_tag == include_tag,
            r.base_dir == base_dir,
            task_views(r.tasks@) == seq![TaskView::Visit(Seq::<usize>::empty())],
            r.pending is None,
    {
        let mut tasks: Vec<Task> = Vec::new();
        tasks.push(Task::Visit(Vec::new()));
        assert(task_views(tasks@) =~= seq![TaskView::Visit(Seq::<usize>::empty())]);
        Resolution { doc, tasks, include_tag, base_dir, pending: None }
    }

    fn push_visits(&mut self, p: &Vec<usize>, n: usize)
        ensures
            final(self).doc == old(self).doc,
            final(self).include_tag == old(self).include_tag,
            final(self).base_dir == old(self).base_dir,
            final(self).pending == old(self).pending,
            task_views(final(self).tasks@) == task_views(old(self).tasks@) + visits_rev(p@, n as nat),
    {
        let ghost start = task_views(self.tasks@);
        let mut j: usize = 0;
        while j < n
            invariant
                j <= n,
                self.doc == old(self).doc,
                self.include_tag == old(self).include_tag,
                self.base_dir == old(self).base_dir,
                self.pending == old(self).pending,
                start == task_views(old(self).tasks@),
                task_views(self.tasks@) == start + visits_rev(p@, n as nat).take(j as int),
            decreases n - j,
        {
            let mut q = copy_path(p);
            q.push(n - 1 - j);
            let ghost before = self.tasks@;
            self.tasks.push(Task::Visit(q));
            assert(task_views(self.tasks@) =~= task_views(before).push(TaskView::Visit(p@.push((n - 1 - j) as usize))));
            j = j + 1;
            assert(task_views(self.tasks@) =~= start + visits_rev(p@, n as nat).take(j as int));
        }
        assert(visits_rev(p@, n as nat).take(n as int) =~= visits_rev(p@, n as nat));
    }

    fn push_scans(&mut self, p: &Vec<usize>, n: usize)
        ensures
            final(self).doc == old(self).doc,
            final(self).include_tag == old(self).include_tag,
            final(self).base_dir == old(self).base_dir,
            final(self).pending == old(self).pending,
            task_views(final(self).tasks@) == task_views(old(self).tasks@) + scans_rev(p@, n as nat),
    {
        let ghost start = task_views(self.tasks@);
        let mut j: usize = 0;
        while j < n
            invariant
                j <= n,
                self.doc == old(self).doc,
                self.include_tag == old(self).include_tag,
                self.base_dir == old(self).base_dir,
                self.pending == old(self).pending,
                start == task_views(old(self).tasks@),
                task_views(self.tasks@) == start + scans_rev(p@, n as nat).take(j as int),
            decreases n - j,
        {
            let q = copy_path(p);
            let ghost before = self.tasks@;
            self.tasks.push(Task::Scan(q, n - 1 - j));
            assert(task_views(self.tasks@) =~= task_views(before).push(TaskView::Scan(p@, (n - 1 - j) as usize)));
            j = j + 1;
            assert(task_views(self.tasks@) =~= start + scans_rev(p@, n as nat).take(j as int));
        }
        assert(scans_rev(p@, n as nat).take(n as int) =~= scans_rev(p@, n as nat));
    }

    /// Does the task on top of the stack. Visiting a node pushes its work
    /// (see `expansion`); looking at an entry that holds a directive asks
    /// for the content of the directive's source, or fails the pass on an
    /// unknown `$(...)` form. The document is never changed by a step.
    pub fn step(&mut self) -> (r: Step)
        ensures
            final(self).doc == old(self).doc,
            final(self).include_tag == old(self).include_tag,
            final(self).base_dir == old(self).base_dir,
            old(self).tasks@.len() == 0 ==> r is Done && final(self).tasks@.len() == 0
                && final(self).pending == old(self).pending,
            old(self).tasks@.len() > 0 ==> task_views(final(self).tasks@)
                == task_views(old(self).tasks@.drop_last()) + expansion(old(self).tasks@.last()@, old(self).doc),
            old(self).tasks@.len() > 0 ==> match old(self).tasks@.last()@ {
                TaskView::Visit(_) => r is Continue && final(self).pending == old(self).pending,
                TaskView::Scan(p, i) => match directive_at(old(self).doc, p, i as int, old(self).include_tag@) {
                    None => r is Continue && final(self).pending == old(self).pending,
                    Some(s) => match route_of(s) {
                        Some(rt) => (r matches Step::Fetch(src) && src@ == rt)
                            && pending_view(final(self).pending) == Some((p, i)),
                        None => (r matches Step::Fail(YincError::Parse(m)) && m@ == unknown_message(s))
                            && final(self).pending == old(self).pending,
                    },
                },
            },
            !has_directive(old(self).doc, old(self).include_tag@) ==> !(r is Fetch),
    {
        let ghost old_tasks = self.tasks@;
        match self.tasks.pop() {
            None => Step::Done,
            Some(Task::Visit(p)) => {
                assert(task_views(self.tasks@) =~= task_views(old_tasks.drop_last()));
                let shape: (usize, bool) = match node_ref(&self.doc, &p) {
                    Some(Document::Mapping(es)) => (es.len(), true),
                    Some(Document::Sequence(xs)) => (xs.len(), false),
                    _ => (0, false),
                };
                let (n, is_map) = shape;
                self.push_visits(&p, n);
                if is_map {
                    self.push_scans(&p, n);
                }
                assert(visits_rev(p@, 0) =~= Seq::<TaskView>::empty());
                assert(task_views(old_tasks.drop_last()) + Seq::<TaskView>::empty() =~= task_views(old_tasks.drop_last()));
                assert(task_views(self.tasks@) =~= task_views(old_tasks.drop_last()) + expansion(old_tasks.last()@, self.doc));
                Step::Continue
            },
            Some(Task::Scan(p, i)) => {
                assert(task_views(self.tasks@) =~= task_views(old_tasks.drop_last()) + Seq::<TaskView>::empty());
                let found: Option<String> = match entry_value(&self.doc, &p, i) {
                    Some(v) => payload(v, &self.include_tag),
                    None => None,
                };
                match found {
                    None => Step::Continue,
                    Some(s) => {
                        assert(directive_at(self.doc, p@, i as int, self.include_tag@) is Some);
                        match classify(s.as_str()) {
                            Ok(src) => {
                                self.pending = Some((p, i));
                                Step::Fetch(src)
                            },
                            Err(e) => Step::Fail(e),
                        }
                    },
                }
            },
        }
    }

    /// Hands over the content of the source that the last `Fetch` asked
    /// for: it becomes the value of the entry that held the directive. With
    /// nothing awaiting content, the state is left as it is.
    pub fn supply(&mut self, content: Document)
        ensures
            final(self).include_tag == old(self).include_tag,
            final(self).base_dir == old(self).base_dir,
            final(self).tasks == old(self).tasks,
            final(self).pending is None,
            match pending_view(old(self).pending) {
                Some((p, i)) => if entry_value_at(old(self).doc, p, i as int) is Some {
                    entry_replaced(old(self).doc, final(self).doc, p, i as int, content)
                } else {
                    final(self).doc == old(self).doc
                },
                None => final(self).doc == old(self).doc,
            },
    {
        let target: Option<(Vec<usize>, usize)> = match &self.pending {
            Some((p, i)) => Some((copy_path(p), *i)),
            None => None,
        };
        self.pending = None;
        if let Some((p, i)) = target {
            if entry_value(&self.doc, &p, i).is_some() {
                let mut d = Document::Null;
                std::mem::swap(&mut self.doc, &mut d);
                assert(p@.skip(0) =~= p@);
                self.doc = replace_entry(d, &p, 0, i, content);
            }
        }
    }
}

} // verus!
