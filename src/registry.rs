use vstd::prelude::*;

use crate::label_map::LabelMap;

verus! {

/// The view of an optional path.
pub open spec fn opt_view(o: Option<String>) -> Option<Seq<char>> {
    match o {
        Some(s) => Some(s@),
        None => None,
    }
}

/// The path that window `id` is bound to in the session map `m`: none when the
/// window is unregistered or registered as untitled.
pub open spec fn bound_path(m: Map<Seq<char>, Option<Seq<char>>>, id: Seq<char>) -> Option<
    Seq<char>,
> {
    if m.contains_key(id) {
        m[id]
    } else {
        None
    }
}

/// Which file each window is bound to: `None` for a window whose document was
/// never saved, `Some(path)` for the last file it was saved to or opened from.
pub struct SessionRegistry {
    paths: LabelMap<Option<String>>,
}

impl View for SessionRegistry {
    type V = Map<Seq<char>, Option<Seq<char>>>;

    closed spec fn view(&self) -> Map<Seq<char>, Option<Seq<char>>> {
        self.paths@.map_values(|p: Option<String>| opt_view(p))
    }
}

impl SessionRegistry {
    pub closed spec fn wf(&self) -> bool {
        self.paths.wf()
    }

    /// A registry with no windows.
    pub fn new() -> (r: Self)
        ensures
            r.wf(),
            r@ == Map::<Seq<char>, Option<Seq<char>>>::empty(),
    {
        let r = SessionRegistry { paths: LabelMap::new() };
        assert(r@ =~= Map::<Seq<char>, Option<Seq<char>>>::empty());
        r
    }

    /// Records window `id` with `path`, replacing what was recorded for it.
    pub fn register(&mut self, id: String, path: Option<String>)
        requires
            old(self).wf(),
        ensures
            final(self).wf(),
            final(self)@ == old(self)@.insert(id@, opt_view(path)),
    {
        let ghost k = id@;
        let ghost v = opt_view(path);
        self.paths.insert(id, path);
        assert(self@ =~= old(self)@.insert(k, v));
    }

    /// Binds window `id` to `path`, as after a successful save or open.
    pub fn set_path(&mut self, id: String, path: String)
        requires
            old(self).wf(),
        ensures
            final(self).wf(),
            final(self)@ == old(self)@.insert(id@, Some(path@)),
    {
        self.register(id, Some(path));
    }

    /// The file window `id` is bound to, if any.
    pub fn get_path(&self, id: &String) -> (r: Option<String>)
        requires
            self.wf(),
        ensures
            opt_view(r) == bound_path(self@, id@),
    {
        match self.paths.get(id) {
            Some(Some(p)) => Some(p.clone()),
            _ => None,
        }
    }

    /// Whether window `id` is registered at all.
    pub fn is_registered(&self, id: &String) -> (r: bool)
        requires
            self.wf(),
        ensures
            r == self@.contains_key(id@),
    {
        self.paths.contains(id)
    }

    /// How many windows are registered.
    pub fn count(&self) -> (r: usize)
        requires
            self.wf(),
        ensures
            r == self@.dom().len(),
    {
        assert(self@.dom() =~= self.paths@.dom());
        self.paths.len()
    }

    /// Forgets window `id`, as when it is closed.
    pub fn unregister(&mut self, id: &String)
        requires
            old(self).wf(),
        ensures
            final(self).wf(),
            final(self)@ == old(self)@.remove(id@),
    {
        let _ = self.paths.remove(id);
        assert(self@ =~= old(self)@.remove(id@));
    }
}

/// The session map after applying, in order, each `(window, path)` record of
/// `ops`, as `register` and `set_path` apply them.
pub open spec fn apply_records(
    m: Map<Seq<char>, Option<Seq<char>>>,
    ops: Seq<(Seq<char>, Option<Seq<char>>)>,
) -> Map<Seq<char>, Option<Seq<char>>>
    decreases ops.len(),
{
    if ops.len() == 0 {
        m
    } else {
        apply_records(m.insert(ops[0].0, ops[0].1), ops.drop_first())
    }
}

/// Key isolation: however many windows are registered or rebound, a window
/// that none of those calls names keeps the path it had.
pub proof fn lemma_key_isolation(
    m: Map<Seq<char>, Option<Seq<char>>>,
    ops: Seq<(Seq<char>, Option<Seq<char>>)>,
    other: Seq<char>,
)
    requires
        forall|i: int| 0 <= i < ops.len() ==> #[trigger] ops[i].0 != other,
    ensures
        bound_path(apply_records(m, ops), other) == bound_path(m, other),
        apply_records(m, ops).contains_key(other) == m.contains_key(other),
    decreases ops.len(),
{
    if ops.len() > 0 {
        let rest = ops.drop_first();
        assert(ops[0].0 != other);
        assert forall|i: int| 0 <= i < rest.len() implies #[trigger] rest[i].0 != other by {
            assert(rest[i] == ops[i + 1]);
        }
        lemma_key_isolation(m.insert(ops[0].0, ops[0].1), rest, other);
    }
}

} // verus!
