//! The library store: an in-memory, append-only sequence of records, the
//! mutation operations over it, and the decision logic of loading and saving
//! snapshots. The actual reading and writing of the backing resource is the
//! caller's: the store only interprets what was read and produces the bytes
//! to write.

use vstd::prelude::*;

use crate::codec::{decode_library, dec_lib, enc_lib, encode_library, lib_encodable,
    lemma_library_round_trip};
use crate::media::{Media, MediaView, State};
use crate::search::{self, Filter, query_pred, views};

verus! {

/// The authoritative in-memory collection of records, in insertion order.
/// It is append-only: positions never shift, so a position is a stable
/// identity for a record.
pub struct Library {
    records: Vec<Media>,
}

impl View for Library {
    type V = Seq<MediaView>;

    closed spec fn view(&self) -> Seq<MediaView> {
        views(self.records@)
    }
}

/// The view of `m` with its consumption state replaced.
pub open spec fn with_state(m: MediaView, st: State) -> MediaView {
    MediaView { state: st, ..m }
}

impl Library {
    /// The empty library.
    pub fn new() -> (r: Library)
        ensures
            r@ == Seq::<MediaView>::empty(),
    {
        let r = Library { records: Vec::new() };
        proof {
            assert(r@ =~= Seq::<MediaView>::empty());
        }
        r
    }

    /// A library holding exactly `records`, in their order.
    pub fn from_records(records: Vec<Media>) -> (r: Library)
        ensures
            r@ == views(records@),
    {
        Library { records }
    }

    /// The number of records.
    pub fn len(&self) -> (n: usize)
        ensures
            n == self@.len(),
    {
        self.records.len()
    }

    /// The record at `index`.
    pub fn get(&self, index: usize) -> (m: &Media)
        requires
            index < self@.len(),
        ensures
            m@ == self@[index as int],
    {
        &self.records[index]
    }

    /// Appends `m` at the end; every earlier record keeps its position.
    pub fn add(&mut self, m: Media)
        ensures
            final(self)@ == old(self)@.push(m@),
    {
        self.records.push(m);
        proof {
            assert(final(self)@ =~= old(self)@.push(final(self).records@.last()@));
        }
    }

    /// Replaces the consumption state of the record at `index`, leaving every
    /// other field and every other record unchanged.
    pub fn set_state(&mut self, index: usize, st: State)
        requires
            index < old(self)@.len(),
        ensures
            final(self)@ == old(self)@.update(index as int, with_state(old(self)@[index as int], st)),
    {
        let mut m = self.records[index].clone();
        m.state = st;
        self.records[index] = m;
        proof {
            assert(final(self)@ =~= old(self)@.update(
                index as int,
                with_state(old(self)@[index as int], st),
            ));
        }
    }

    /// Searches the store: exactly the records matching `query` under
    /// `filter`, in store order, as fresh copies.
    pub fn search(&self, query: &String, filter: &Filter) -> (r: Vec<Media>)
        ensures
            views(r@) == self@.filter(query_pred(query@, *filter)),
    {
        search::search(&self.records, query, filter)
    }

    /// The store positions of the records matching `query` under `filter`,
    /// in increasing order; these address records for mutation.
    pub fn search_indices(&self, query: &String, filter: &Filter) -> (r: Vec<usize>)
        ensures
            forall|k: int|
                0 <= k < r@.len() ==> #[trigger] r@[k] < self@.len() && crate::search::query_matches(
                    self@[r@[k] as int],
                    query@,
                    *filter,
                ),
            forall|k1: int, k2: int| 0 <= k1 < k2 < r@.len() ==> r@[k1] < r@[k2],
            forall|i: int|
                0 <= i < self@.len() && crate::search::query_matches(
                    #[trigger] self@[i],
                    query@,
                    *filter,
                ) ==> r@.contains(i as usize),
    {
        search::search_indices(&self.records, query, filter)
    }

    /// The serialization step of a save: the snapshot bytes that stand for
    /// the whole current record sequence.
    pub fn snapshot(&self) -> (b: Vec<u8>)
        ensures
            b@ == enc_lib(self@),
            lib_encodable(self@),
            dec_lib(b@) == Some(self@),
    {
        let b = encode_library(&self.records);
        proof {
            lemma_library_round_trip(self@);
        }
        b
    }
}

/// What the load port handed back: the snapshot bytes, or word that the
/// backing resource does not exist, or word that reading it failed.
pub enum LoadInput {
    Found(Vec<u8>),
    Missing,
    Failed,
}

/// What loading decided. `Created` carries the empty library together with
/// the empty snapshot that must be written to establish the resource;
/// `Fatal` surfaces a read failure to the caller.
pub enum LoadOutcome {
    Loaded(Library),
    Created(Library, Vec<u8>),
    Fatal,
}

/// The decision logic of a load. Well-formed bytes become the library they
/// encode; malformed bytes become the empty library (lenient recovery, by
/// design); a missing resource becomes the empty library plus the empty
/// snapshot to persist; a read failure is surfaced, never swallowed.
pub fn load(input: LoadInput) -> (r: LoadOutcome)
    ensures
        (match input {
            LoadInput::Found(b) => match dec_lib(b@) {
                Some(vs) => r matches LoadOutcome::Loaded(lib) && lib@ == vs,
                None => r matches LoadOutcome::Loaded(lib) && lib@ == Seq::<MediaView>::empty(),
            },
            LoadInput::Missing => r matches LoadOutcome::Created(lib, snap) && lib@ == Seq::<
                MediaView,
            >::empty() && snap@ == enc_lib(Seq::<MediaView>::empty()) && dec_lib(snap@) == Some(
                Seq::<MediaView>::empty(),
            ),
            LoadInput::Failed => r is Fatal,
        }),
{
    match input {
        LoadInput::Found(b) => {
            match decode_library(&b) {
                Some(records) => LoadOutcome::Loaded(Library::from_records(records)),
                None => LoadOutcome::Loaded(Library::new()),
            }
        },
        LoadInput::Missing => {
            let lib = Library::new();
            let snap = lib.snapshot();
            LoadOutcome::Created(lib, snap)
        },
        LoadInput::Failed => LoadOutcome::Fatal,
    }
}

/// Law: bootstrapping a missing resource closes the loop. The snapshot that
/// `load` asks to be written for a missing resource decodes to the empty
/// library, so a subsequent load of those bytes yields an empty sequence.
pub proof fn lemma_bootstrap_round_trip()
    ensures
        dec_lib(enc_lib(Seq::<MediaView>::empty())) == Some(Seq::<MediaView>::empty()),
{
    lemma_library_round_trip(Seq::<MediaView>::empty());
}

} // verus!
