//! The signal bus: one control cell per active transfer, through which
//! callers pause, resume and cancel it.

use vstd::prelude::*;
use crate::error::TransferError;

verus! {

/// What the caller currently asks of a transfer.
#[derive(Clone, Copy, Debug, PartialEq, Eq, Structural)]
pub enum UploadSignal {
    Running,
    Paused,
    Cancelled,
}

/// The control cell of one transfer.
pub struct SignalCell {
    pub id: String,
    pub signal: UploadSignal,
}

/// The mapping that a list of cells stands for. Cells are read from the
/// front, so of two cells with one id the later would win; a bus never
/// holds two.
pub open spec fn cells_map(cells: Seq<SignalCell>) -> Map<Seq<char>, UploadSignal>
    decreases cells.len(),
{
    if cells.len() == 0 {
        Map::empty()
    } else {
        cells_map(cells.drop_last()).insert(cells.last().id@, cells.last().signal)
    }
}

/// No two cells carry the same id.
pub open spec fn distinct_ids(cells: Seq<SignalCell>) -> bool {
    forall|i: int, j: int|
        0 <= i < cells.len() && 0 <= j < cells.len() && i != j ==> cells[i].id@ != cells[j].id@
}

/// A key is in the map exactly if some cell carries it, and then the map
/// gives that cell's signal.
pub proof fn lemma_cells_map(cells: Seq<SignalCell>)
    requires
        distinct_ids(cells),
    ensures
        forall|k: Seq<char>| #[trigger]
            cells_map(cells).contains_key(k) <==> exists|i: int|
                0 <= i < cells.len() && cells[i].id@ == k,
        forall|i: int|
            0 <= i < cells.len() ==> cells_map(cells).contains_key(#[trigger] cells[i].id@)
                && cells_map(cells)[cells[i].id@] == cells[i].signal,
    decreases cells.len(),
{
    if cells.len() > 0 {
        let front = cells.drop_last();
        lemma_cells_map(front);
        assert forall|k: Seq<char>| #[trigger]
            cells_map(cells).contains_key(k) <==> exists|i: int|
                0 <= i < cells.len() && cells[i].id@ == k by {
            if cells_map(cells).contains_key(k) {
                if k == cells.last().id@ {
                    assert(cells[cells.len() - 1].id@ == k);
                } else {
                    assert(cells_map(front).contains_key(k));
                    let i = choose|i: int| 0 <= i < front.len() && front[i].id@ == k;
                    assert(cells[i].id@ == k);
                }
            }
            if exists|i: int| 0 <= i < cells.len() && cells[i].id@ == k {
                let i = choose|i: int| 0 <= i < cells.len() && cells[i].id@ == k;
                if i < cells.len() - 1 {
                    assert(front[i].id@ == k);
                }
            }
        }
        assert forall|i: int| 0 <= i < cells.len() implies cells_map(cells).contains_key(
            #[trigger] cells[i].id@,
        ) && cells_map(cells)[cells[i].id@] == cells[i].signal by {
            if i < cells.len() - 1 {
                assert(front[i] == cells[i]);
                assert(cells[i].id@ != cells[cells.len() - 1].id@);
            }
        }
    }
}

/// Replacing the signal of one cell writes that signal into the map.
pub proof fn lemma_cells_map_update(cells: Seq<SignalCell>, at: int, cell: SignalCell)
    requires
        0 <= at < cells.len(),
        cell.id@ == cells[at].id@,
        distinct_ids(cells),
    ensures
        cells_map(cells.update(at, cell)) == cells_map(cells).insert(cell.id@, cell.signal),
        distinct_ids(cells.update(at, cell)),
    decreases cells.len(),
{
    let after = cells.update(at, cell);
    if at == cells.len() - 1 {
        assert(after.drop_last() == cells.drop_last());
        assert(cells_map(after) =~= cells_map(cells).insert(cell.id@, cell.signal));
    } else {
        let front = cells.drop_last();
        assert(distinct_ids(front));
        lemma_cells_map_update(front, at, cell);
        assert(after.drop_last() == front.update(at, cell));
        assert(after.last() == cells.last());
        assert(cells[cells.len() - 1].id@ != cells[at].id@);
        assert(cells_map(after) =~= cells_map(cells).insert(cell.id@, cell.signal));
    }
}

/// Taking one cell out takes its id out of the map.
pub proof fn lemma_cells_map_remove(cells: Seq<SignalCell>, at: int)
    requires
        0 <= at < cells.len(),
        distinct_ids(cells),
    ensures
        cells_map(cells.remove(at)) == cells_map(cells).remove(cells[at].id@),
        distinct_ids(cells.remove(at)),
    decreases cells.len(),
{
    let after = cells.remove(at);
    let front = cells.drop_last();
    if at == cells.len() - 1 {
        assert(after == front);
        lemma_cells_map(front);
        assert(!cells_map(front).contains_key(cells[at].id@)) by {
            if cells_map(front).contains_key(cells[at].id@) {
                let i = choose|i: int| 0 <= i < front.len() && front[i].id@ == cells[at].id@;
                assert(cells[i].id@ == cells[at].id@);
            }
        }
        assert(cells_map(after) =~= cells_map(cells).remove(cells[at].id@));
    } else {
        assert(distinct_ids(front));
        lemma_cells_map_remove(front, at);
        assert(after.drop_last() == front.remove(at));
        assert(after.last() == cells.last());
        assert(cells[cells.len() - 1].id@ != cells[at].id@);
        assert(cells_map(after) =~= cells_map(cells).remove(cells[at].id@));
    }
}

/// The control cells of all active transfers, keyed by transfer id.
pub struct SignalBus {
    cells: Vec<SignalCell>,
}

impl View for SignalBus {
    type V = Map<Seq<char>, UploadSignal>;

    closed spec fn view(&self) -> Map<Seq<char>, UploadSignal> {
        cells_map(self.cells@)
    }
}

impl SignalBus {
    /// The bus holds at most one cell for each id.
    pub closed spec fn wf(&self) -> bool {
        distinct_ids(self.cells@)
    }

    /// A bus with no transfer registered.
    pub fn new() -> (bus: SignalBus)
        ensures
            bus.wf(),
            bus@ == Map::<Seq<char>, UploadSignal>::empty(),
    {
        SignalBus { cells: Vec::new() }
    }

    /// Position of the cell of `id`, if it has one.
    fn position(&self, id: &String) -> (at: Option<usize>)
        requires
            self.wf(),
        ensures
            at.is_some() == self@.contains_key(id@),
            at matches Some(i) ==> i < self.cells@.len() && self.cells@[i as int].id@ == id@,
    {
        let mut i: usize = 0;
        while i < self.cells.len()
            invariant
                self.wf(),
                i <= self.cells@.len(),
                forall|j: int| 0 <= j < i ==> self.cells@[j].id@ != id@,
            decreases self.cells@.len() - i,
        {
            if self.cells[i].id == *id {
                proof {
                    lemma_cells_map(self.cells@);
                    assert(self.cells@[i as int].id@ == id@);
                }
                return Some(i);
            }
            i = i + 1;
        }
        proof {
            lemma_cells_map(self.cells@);
        }
        None
    }

    /// Creates the cell of a new transfer, in state `Running`. Fails with
    /// `DuplicateTransfer`, leaving the bus as it was, if the id is taken.
    pub fn register(&mut self, transfer_id: &str) -> (result: Result<(), TransferError>)
        requires
            old(self).wf(),
        ensures
            final(self).wf(),
            old(self)@.contains_key(transfer_id@) ==> result == Err::<(), TransferError>(
                TransferError::DuplicateTransfer,
            ) && final(self)@ == old(self)@,
            !old(self)@.contains_key(transfer_id@) ==> result.is_ok() && final(self)@ == old(
                self,
            )@.insert(transfer_id@, UploadSignal::Running),
    {
        let id: String = transfer_id.to_owned();
        match self.position(&id) {
            Some(_) => Err(TransferError::DuplicateTransfer),
            None => {
                proof {
                    lemma_cells_map(self.cells@);
                }
                let ghost before = self.cells@;
                let cell = SignalCell { id, signal: UploadSignal::Running };
                self.cells.push(cell);
                proof {
                    assert(self.cells@.drop_last() == before);
                    assert(distinct_ids(self.cells@)) by {
                        assert forall|i: int, j: int|
                            0 <= i < self.cells@.len() && 0 <= j < self.cells@.len() && i
                                != j implies self.cells@[i].id@ != self.cells@[j].id@ by {
                            if i < before.len() {
                                assert(before[i] == self.cells@[i]);
                            }
                            if j < before.len() {
                                assert(before[j] == self.cells@[j]);
                            }
                        }
                    }
                }
                Ok(())
            },
        }
    }

    /// Writes `signal` into the cell of a transfer, without waiting for the
    /// transfer to notice. Fails with `UnknownTransfer`, leaving the bus as it
    /// was, if the id is not registered.
    pub fn set(&mut self, transfer_id: &str, signal: UploadSignal) -> (result: Result<
        (),
        TransferError,
    >)
        requires
            old(self).wf(),
        ensures
            final(self).wf(),
            !old(self)@.contains_key(transfer_id@) ==> result == Err::<(), TransferError>(
                TransferError::UnknownTransfer,
            ) && final(self)@ == old(self)@,
            old(self)@.contains_key(transfer_id@) ==> result.is_ok() && final(self)@ == old(
                self,
            )@.insert(transfer_id@, signal),
    {
        let id: String = transfer_id.to_owned();
        match self.position(&id) {
            None => Err(TransferError::UnknownTransfer),
            Some(i) => {
                let cell = SignalCell { id, signal };
                proof {
                    lemma_cells_map_update(self.cells@, i as int, cell);
                }
                self.cells[i] = cell;
                Ok(())
            },
        }
    }

    /// Removes the cell of a transfer when its upload call returns. Says
    /// whether there was one.
    pub fn unregister(&mut self, transfer_id: &str) -> (removed: bool)
        requires
            old(self).wf(),
        ensures
            final(self).wf(),
            removed == old(self)@.contains_key(transfer_id@),
            final(self)@ == old(self)@.remove(transfer_id@),
    {
        let id: String = transfer_id.to_owned();
        match self.position(&id) {
            None => {
                proof {
                    assert(self@.remove(transfer_id@) == self@);
                }
                false
            },
            Some(i) => {
                proof {
                    lemma_cells_map_remove(self.cells@, i as int);
                }
                let _ = self.cells.remove(i);
                true
            },
        }
    }

    /// The signal currently in the cell of a transfer: the snapshot that the
    /// transfer takes before each part.
    pub fn get(&self, transfer_id: &str) -> (signal: Option<UploadSignal>)
        requires
            self.wf(),
        ensures
            signal.is_some() == self@.contains_key(transfer_id@),
            signal matches Some(s) ==> s == self@[transfer_id@],
    {
        let id: String = transfer_id.to_owned();
        match self.position(&id) {
            None => None,
            Some(i) => {
                proof {
                    lemma_cells_map(self.cells@);
                }
                Some(self.cells[i].signal)
            },
        }
    }

    /// Number of transfers registered.
    pub fn len(&self) -> (n: usize)
        requires
            self.wf(),
        ensures
            n == self@.dom().len(),
            self@.dom().finite(),
    {
        proof {
            lemma_cells_count(self.cells@);
        }
        self.cells.len()
    }
}

/// A list of cells with distinct ids stands for a map with as many keys.
pub proof fn lemma_cells_count(cells: Seq<SignalCell>)
    requires
        distinct_ids(cells),
    ensures
        cells_map(cells).dom().finite(),
        cells_map(cells).dom().len() == cells.len(),
    decreases cells.len(),
{
    if cells.len() > 0 {
        let front = cells.drop_last();
        lemma_cells_count(front);
        lemma_cells_map(front);
        assert(!cells_map(front).contains_key(cells.last().id@)) by {
            if cells_map(front).contains_key(cells.last().id@) {
                let i = choose|i: int| 0 <= i < front.len() && front[i].id@ == cells.last().id@;
                assert(cells[i].id@ == cells[cells.len() - 1].id@);
            }
        }
        assert(cells_map(cells).dom() == cells_map(front).dom().insert(cells.last().id@));
    }
}

/// Asks the transfer `upload_id` to pause before its next part.
pub fn pause_upload(bus: &mut SignalBus, upload_id: &str) -> (result: Result<(), TransferError>)
    requires
        old(bus).wf(),
    ensures
        final(bus).wf(),
        !old(bus)@.contains_key(upload_id@) ==> result == Err::<(), TransferError>(
            TransferError::UnknownTransfer,
        ) && final(bus)@ == old(bus)@,
        old(bus)@.contains_key(upload_id@) ==> result.is_ok() && final(bus)@ == old(bus)@.insert(
            upload_id@,
            UploadSignal::Paused,
        ),
{
    bus.set(upload_id, UploadSignal::Paused)
}

/// Asks the transfer `upload_id` to go on.
pub fn resume_upload(bus: &mut SignalBus, upload_id: &str) -> (result: Result<(), TransferError>)
    requires
        old(bus).wf(),
    ensures
        final(bus).wf(),
        !old(bus)@.contains_key(upload_id@) ==> result == Err::<(), TransferError>(
            TransferError::UnknownTransfer,
        ) && final(bus)@ == old(bus)@,
        old(bus)@.contains_key(upload_id@) ==> result.is_ok() && final(bus)@ == old(bus)@.insert(
            upload_id@,
            UploadSignal::Running,
        ),
{
    bus.set(upload_id, UploadSignal::Running)
}

/// Asks the transfer `upload_id` to stop for good.
pub fn cancel_upload(bus: &mut SignalBus, upload_id: &str) -> (result: Result<(), TransferError>)
    requires
        old(bus).wf(),
    ensures
        final(bus).wf(),
        !old(bus)@.contains_key(upload_id@) ==> result == Err::<(), TransferError>(
            TransferError::UnknownTransfer,
        ) && final(bus)@ == old(bus)@,
        old(bus)@.contains_key(upload_id@) ==> result.is_ok() && final(bus)@ == old(bus)@.insert(
            upload_id@,
            UploadSignal::Cancelled,
        ),
{
    bus.set(upload_id, UploadSignal::Cancelled)
}

} // verus!
