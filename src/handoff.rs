use vstd::prelude::*;

use crate::label_map::LabelMap;

verus! {

/// File content waiting for the window that was opened to show it.
pub struct PendingFileData {
    pub content: String,
    pub file_name: String,
}

/// The view of a pending payload: its content and its display name.
pub open spec fn payload_view(d: PendingFileData) -> (Seq<char>, Seq<char>) {
    (d.content@, d.file_name@)
}

/// The payload `take(id)` hands out from the handoff map `m`.
pub open spec fn take_result(m: Map<Seq<char>, (Seq<char>, Seq<char>)>, id: Seq<char>) -> Option<
    (Seq<char>, Seq<char>),
> {
    if m.contains_key(id) {
        Some(m[id])
    } else {
        None
    }
}

/// At most one payload per window, each delivered at most once.
pub struct HandoffStore {
    pending: LabelMap<PendingFileData>,
}

impl View for HandoffStore {
    type V = Map<Seq<char>, (Seq<char>, Seq<char>)>;

    closed spec fn view(&self) -> Map<Seq<char>, (Seq<char>, Seq<char>)> {
        self.pending@.map_values(|d: PendingFileData| payload_view(d))
    }
}

impl HandoffStore {
    pub closed spec fn wf(&self) -> bool {
        self.pending.wf()
    }

    /// A store with nothing pending.
    pub fn new() -> (r: Self)
        ensures
            r.wf(),
            r@ == Map::<Seq<char>, (Seq<char>, Seq<char>)>::empty(),
    {
        let r = HandoffStore { pending: LabelMap::new() };
        assert(r@ =~= Map::<Seq<char>, (Seq<char>, Seq<char>)>::empty());
        r
    }

    /// Leaves `data` for window `id`; a payload already waiting there is
    /// replaced.
    pub fn deposit(&mut self, id: String, data: PendingFileData)
        requires
            old(self).wf(),
        ensures
            final(self).wf(),
            final(self)@ == old(self)@.insert(id@, payload_view(data)),
    {
        let ghost k = id@;
        let ghost v = payload_view(data);
        self.pending.insert(id, data);
        assert(self@ =~= old(self)@.insert(k, v));
    }

    /// Removes and returns what is waiting for window `id`.
    pub fn take(&mut self, id: &String) -> (r: Option<PendingFileData>)
        requires
            old(self).wf(),
        ensures
            final(self).wf(),
            final(self)@ == old(self)@.remove(id@),
            match r {
                Some(d) => take_result(old(self)@, id@) == Some(payload_view(d)),
                None => take_result(old(self)@, id@) is None,
            },
    {
        let r = self.pending.remove(id);
        assert(self@ =~= old(self)@.remove(id@));
        r
    }

    /// Takes the payload of window `id` as a pair of content and display name.
    pub fn get_pending_file_data(&mut self, id: &String) -> (r: Option<(String, String)>)
        requires
            old(self).wf(),
        ensures
            final(self).wf(),
            final(self)@ == old(self)@.remove(id@),
            match r {
                Some(p) => take_result(old(self)@, id@) == Some((p.0@, p.1@)),
                None => take_result(old(self)@, id@) is None,
            },
    {
        match self.take(id) {
            Some(d) => Some((d.content, d.file_name)),
            None => None,
        }
    }
}

/// A payload is delivered once: after a deposit, the first take returns it
/// and a second take right after returns nothing.
pub proof fn lemma_take_once(
    m: Map<Seq<char>, (Seq<char>, Seq<char>)>,
    id: Seq<char>,
    p: (Seq<char>, Seq<char>),
)
    ensures
        take_result(m.insert(id, p), id) == Some(p),
        take_result(m.insert(id, p).remove(id), id) is None,
{
}

/// A second deposit before any take replaces the first: only the later
/// payload comes out, and nothing after it.
pub proof fn lemma_deposit_overwrites(
    m: Map<Seq<char>, (Seq<char>, Seq<char>)>,
    id: Seq<char>,
    first: (Seq<char>, Seq<char>),
    second: (Seq<char>, Seq<char>),
)
    ensures
        take_result(m.insert(id, first).insert(id, second), id) == Some(second),
        take_result(m.insert(id, first).insert(id, second).remove(id), id) is None,
{
}

} // verus!
