//! The host's record of loaded libraries and of the handlers obtained from
//! them.
//!
//! Loading a library changes the process as a whole, so one [`Host`] keeps
//! the record for all of them. Each library takes one slot, and the slot's
//! [`Stage`] says how far it has come. The calls into the system loader and
//! into the plugin are made by the caller, who reports what came of them; the
//! host decides what that means and what may happen next.
//!
//! A plugin is checked by the name of its export only. Whether the function
//! behind the name has the expected signature cannot be seen from outside,
//! and [`Probe::Resolved`] claims no more than that the name was found.

use vstd::prelude::*;

verus! {

/// Why a library was not loaded.
#[derive(Clone, Copy, PartialEq, Eq, Debug, Structural)]
pub enum LoadError {
    /// No readable file is at the path.
    NotFound,
    /// The library was opened, but the mandatory export was not found in it.
    IncompatibleAbi,
    /// The system loader refused the file for another reason.
    OsLoaderFailure,
}

/// Why no handler was obtained from a loaded library.
#[derive(Clone, Copy, PartialEq, Eq, Debug, Structural)]
pub enum InvocationError {
    /// The plugin's entry point returned a null handle.
    PluginConstructionFailed,
}

/// What came of asking the system loader for a library and for the
/// mandatory export in it.
#[derive(Clone, Copy, PartialEq, Eq, Debug, Structural)]
pub enum Probe {
    /// The library was opened and the export was found by its name.
    Resolved,
    /// The library was opened; the export was not found, or is null.
    Unresolved,
    /// The library was not opened.
    Unopened {
        /// Whether a readable file is at the path.
        file_readable: bool,
    },
}

/// How far a library has come.
#[derive(Clone, Copy, PartialEq, Eq, Debug, Structural)]
pub enum Stage {
    /// Loaded and checked; its entry point has not been called.
    Loaded,
    /// Its entry point has returned a handler, which the host holds.
    Serving,
    /// Its entry point has been called, and no handler of it is held: none
    /// was returned, or the one returned has been released.
    Spent,
    /// No longer loaded.
    Unloaded,
}

/// The error that `probe` amounts to, if it amounts to one.
pub open spec fn fault(probe: Probe) -> Option<LoadError> {
    match probe {
        Probe::Resolved => None,
        Probe::Unresolved => Some(LoadError::IncompatibleAbi),
        Probe::Unopened { file_readable } => if file_readable {
            Some(LoadError::OsLoaderFailure)
        } else {
            Some(LoadError::NotFound)
        },
    }
}

/// Whether the library in `slot` is loaded.
pub open spec fn mapped(stages: Seq<Stage>, slot: nat) -> bool {
    slot < stages.len() && stages[slot as int] != Stage::Unloaded
}

/// Whether the entry point of the library in `slot` may be called: the
/// library is loaded and the entry point has not been called yet.
pub open spec fn awaiting(stages: Seq<Stage>, slot: nat) -> bool {
    slot < stages.len() && stages[slot as int] == Stage::Loaded
}

/// Whether the handler of the library in `slot` is held and valid.
pub open spec fn serving(stages: Seq<Stage>, slot: nat) -> bool {
    slot < stages.len() && stages[slot as int] == Stage::Serving
}

/// How many of the libraries in `stages` are loaded.
pub open spec fn loaded_count(stages: Seq<Stage>) -> nat
    decreases stages.len(),
{
    if stages.len() == 0 {
        0
    } else if stages.last() != Stage::Unloaded {
        loaded_count(stages.drop_last()) + 1
    } else {
        loaded_count(stages.drop_last())
    }
}

/// The record after an attempt to load that ended as `probe` says.
pub open spec fn after_load(stages: Seq<Stage>, probe: Probe) -> Seq<Stage> {
    if fault(probe) is None {
        stages.push(Stage::Loaded)
    } else {
        stages
    }
}

/// What an attempt to load returns: the new library's slot, or the error.
pub open spec fn load_outcome(stages: Seq<Stage>, probe: Probe) -> Result<nat, LoadError> {
    match fault(probe) {
        None => Ok(stages.len()),
        Some(error) => Err(error),
    }
}

/// The record after the entry point of the library in `slot` was called.
pub open spec fn after_entry(stages: Seq<Stage>, slot: nat, non_null: bool) -> Seq<Stage> {
    if awaiting(stages, slot) {
        stages.update(
            slot as int,
            if non_null {
                Stage::Serving
            } else {
                Stage::Spent
            },
        )
    } else {
        stages
    }
}

/// What a call of the entry point of the library in `slot` comes to: the slot
/// of the handler, or the error.
pub open spec fn entry_outcome(slot: nat, non_null: bool) -> Result<nat, InvocationError> {
    if non_null {
        Ok(slot)
    } else {
        Err(InvocationError::PluginConstructionFailed)
    }
}

/// The record after the handler of the library in `slot` was given back.
pub open spec fn after_release(stages: Seq<Stage>, slot: nat) -> Seq<Stage> {
    if serving(stages, slot) {
        stages.update(slot as int, Stage::Spent)
    } else {
        stages
    }
}

/// The record after the library in `slot` was unloaded.
pub open spec fn after_unload(stages: Seq<Stage>, slot: nat) -> Seq<Stage> {
    if mapped(stages, slot) {
        stages.update(slot as int, Stage::Unloaded)
    } else {
        stages
    }
}

/// The host's claim to one loaded library.
#[derive(PartialEq, Eq, Debug)]
pub struct LibraryHandle {
    slot: usize,
}

impl LibraryHandle {
    /// The slot of the library.
    pub closed spec fn slot(&self) -> nat {
        self.slot as nat
    }
}

/// The host's claim to the handler that one library's entry point returned.
#[derive(PartialEq, Eq, Debug)]
pub struct HandlerCapability {
    slot: usize,
}

impl HandlerCapability {
    /// The slot of the library that the handler came from.
    pub closed spec fn slot(&self) -> nat {
        self.slot as nat
    }
}

/// The record of all libraries that were loaded, in the order of loading.
pub struct Host {
    stages: Vec<Stage>,
}

impl View for Host {
    type V = Seq<Stage>;

    closed spec fn view(&self) -> Seq<Stage> {
        self.stages@
    }
}

/// Decides [`fault`].
pub fn classify(probe: Probe) -> (r: Result<(), LoadError>)
    ensures
        r == (match fault(probe) {
            None => Ok::<(), LoadError>(()),
            Some(error) => Err(error),
        }),
{
    match probe {
        Probe::Resolved => Ok(()),
        Probe::Unresolved => Err(LoadError::IncompatibleAbi),
        Probe::Unopened { file_readable } => if file_readable {
            Err(LoadError::OsLoaderFailure)
        } else {
            Err(LoadError::NotFound)
        },
    }
}

impl Host {
    /// A host with nothing loaded.
    pub fn new() -> (host: Host)
        ensures
            host@ == Seq::<Stage>::empty(),
    {
        Host { stages: Vec::new() }
    }

    /// Takes note of an attempt to load a library that ended as `probe` says.
    /// A library that was opened with its export found gets the next free
    /// slot; on any other outcome nothing is recorded, and the error says
    /// which it was.
    pub fn load(&mut self, probe: Probe) -> (r: Result<LibraryHandle, LoadError>)
        ensures
            final(self)@ == after_load(old(self)@, probe),
            (match load_outcome(old(self)@, probe) {
                Ok(slot) => r matches Ok(library) && library.slot() == slot,
                Err(error) => r == Err::<LibraryHandle, LoadError>(error),
            }),
    {
        match classify(probe) {
            Ok(()) => {
                let slot: usize = self.stages.len();
                self.stages.push(Stage::Loaded);
                Ok(LibraryHandle { slot })
            },
            Err(error) => Err(error),
        }
    }

    /// Whether the entry point of `library` may be called.
    pub fn awaits_entry(&self, library: &LibraryHandle) -> (b: bool)
        ensures
            b == awaiting(self@, library.slot()),
    {
        library.slot < self.stages.len() && self.stages[library.slot] == Stage::Loaded
    }

    /// Whether `library` is loaded.
    pub fn is_mapped(&self, library: &LibraryHandle) -> (b: bool)
        ensures
            b == mapped(self@, library.slot()),
    {
        library.slot < self.stages.len() && self.stages[library.slot] != Stage::Unloaded
    }

    /// Whether `handler` is valid: it has not been released, and its library
    /// is loaded.
    pub fn is_live(&self, handler: &HandlerCapability) -> (b: bool)
        ensures
            b == serving(self@, handler.slot()),
    {
        handler.slot < self.stages.len() && self.stages[handler.slot] == Stage::Serving
    }

    /// How many libraries are loaded.
    pub fn loaded(&self) -> (count: usize)
        ensures
            count == loaded_count(self@),
    {
        let mut count: usize = 0;
        let mut i: usize = 0;
        while i < self.stages.len()
            invariant
                i <= self.stages@.len(),
                count <= i,
                count == loaded_count(self.stages@.take(i as int)),
            decreases self.stages@.len() - i,
        {
            assert(self.stages@.take(i + 1).drop_last() =~= self.stages@.take(i as int));
            if self.stages[i] != Stage::Unloaded {
                count = count + 1;
            }
            i = i + 1;
        }
        assert(self.stages@.take(i as int) =~= self.stages@);
        count
    }

    /// Takes note of the one call of the entry point of `library`. `non_null`
    /// says whether the handle that came back was other than null. If so
    /// the host owns the handler from now on; if not, the plugin has failed
    /// to make one.
    pub fn obtain_handler(&mut self, library: &LibraryHandle, non_null: bool) -> (r: Result<
        HandlerCapability,
        InvocationError,
    >)
        requires
            awaiting(old(self)@, library.slot()),
        ensures
            final(self)@ == after_entry(old(self)@, library.slot(), non_null),
            (match entry_outcome(library.slot(), non_null) {
                Ok(slot) => r matches Ok(handler) && handler.slot() == slot,
                Err(error) => r == Err::<HandlerCapability, InvocationError>(error),
            }),
    {
        if non_null {
            self.stages.set(library.slot, Stage::Serving);
            Ok(HandlerCapability { slot: library.slot })
        } else {
            self.stages.set(library.slot, Stage::Spent);
            Err(InvocationError::PluginConstructionFailed)
        }
    }

    /// Gives `handler` back. Returns whether it was valid, and so whether
    /// the caller has to destroy what it stands for.
    pub fn release_handler(&mut self, handler: HandlerCapability) -> (released: bool)
        ensures
            released == serving(old(self)@, handler.slot()),
            final(self)@ == after_release(old(self)@, handler.slot()),
    {
        if self.is_live(&handler) {
            self.stages.set(handler.slot, Stage::Spent);
            true
        } else {
            false
        }
    }

    /// Unloads `library`. A handler that came from it is no longer valid
    /// afterwards. Returns whether the library was loaded.
    pub fn unload(&mut self, library: LibraryHandle) -> (unloaded: bool)
        ensures
            unloaded == mapped(old(self)@, library.slot()),
            final(self)@ == after_unload(old(self)@, library.slot()),
    {
        if self.is_mapped(&library) {
            self.stages.set(library.slot, Stage::Unloaded);
            true
        } else {
            false
        }
    }
}

/// A conforming plugin always yields a handler: when the library was opened
/// with its export found, loading succeeds, the entry point may then be
/// called, and if what it returns is not null the host holds a valid handler
/// of a library that is loaded.
pub proof fn law_conforming_plugin_serves(stages: Seq<Stage>)
    ensures
        ({
            let slot = stages.len();
            let loaded = after_load(stages, Probe::Resolved);
            let entered = after_entry(loaded, slot, true);
            &&& load_outcome(stages, Probe::Resolved) == Ok::<nat, LoadError>(slot)
            &&& awaiting(loaded, slot)
            &&& entry_outcome(slot, true) == Ok::<nat, InvocationError>(slot)
            &&& serving(entered, slot)
            &&& mapped(entered, slot)
        }),
{
}

/// A path with no readable file behind it gives `NotFound`, and the record
/// is as it was: no library was added to it.
pub proof fn law_missing_file_is_not_found(stages: Seq<Stage>)
    ensures
        load_outcome(stages, (Probe::Unopened { file_readable: false })) == Err::<nat, LoadError>(
            LoadError::NotFound,
        ),
        after_load(stages, (Probe::Unopened { file_readable: false })) == stages,
        loaded_count(after_load(stages, (Probe::Unopened { file_readable: false })))
            == loaded_count(stages),
{
}

/// A library without the mandatory export gives `IncompatibleAbi`, and the
/// record is as it was: no entry point may be called that might not have been
/// called before.
pub proof fn law_missing_export_is_incompatible(stages: Seq<Stage>, slot: nat)
    ensures
        load_outcome(stages, Probe::Unresolved) == Err::<nat, LoadError>(
            LoadError::IncompatibleAbi,
        ),
        after_load(stages, Probe::Unresolved) == stages,
        awaiting(after_load(stages, Probe::Unresolved), slot) == awaiting(stages, slot),
{
}

/// Loading succeeds on one outcome only, that the library was opened with
/// its export found, and adds a library to the record only then.
pub proof fn law_load_is_all_or_nothing(stages: Seq<Stage>, probe: Probe)
    ensures
        load_outcome(stages, probe) is Ok <==> probe == Probe::Resolved,
        load_outcome(stages, probe) is Ok ==> after_load(stages, probe) == stages.push(
            Stage::Loaded,
        ),
        load_outcome(stages, probe) is Err ==> after_load(stages, probe) == stages,
{
}

/// No handler outlives its library: a valid handler's library is loaded,
/// and unloading a library leaves neither it nor a handler of it valid,
/// whatever stage it was in.
pub proof fn law_handler_within_library(stages: Seq<Stage>, slot: nat)
    ensures
        serving(stages, slot) ==> mapped(stages, slot),
        awaiting(stages, slot) ==> mapped(stages, slot),
        !mapped(after_unload(stages, slot), slot),
        !serving(after_unload(stages, slot), slot),
        !awaiting(after_unload(stages, slot), slot),
{
}

/// An entry point is called once at most: after the call it may not be
/// called again, and nothing that happens later changes that.
pub proof fn law_entry_called_once(
    stages: Seq<Stage>,
    slot: nat,
    non_null: bool,
    probe: Probe,
    other: nat,
    flag: bool,
)
    requires
        awaiting(stages, slot),
    ensures
        ({
            let entered = after_entry(stages, slot, non_null);
            &&& !awaiting(entered, slot)
            &&& !awaiting(after_load(entered, probe), slot)
            &&& !awaiting(after_entry(entered, other, flag), slot)
            &&& !awaiting(after_release(entered, other), slot)
            &&& !awaiting(after_unload(entered, other), slot)
        }),
{
}

/// What happens to one library leaves the others as they were.
pub proof fn law_slots_are_independent(
    stages: Seq<Stage>,
    slot: nat,
    other: nat,
    non_null: bool,
    probe: Probe,
)
    requires
        other < stages.len(),
        other != slot,
    ensures
        after_load(stages, probe)[other as int] == stages[other as int],
        after_entry(stages, slot, non_null)[other as int] == stages[other as int],
        after_release(stages, slot)[other as int] == stages[other as int],
        after_unload(stages, slot)[other as int] == stages[other as int],
{
}

proof fn lemma_count_after_update(stages: Seq<Stage>, slot: int, stage: Stage)
    requires
        0 <= slot < stages.len(),
    ensures
        loaded_count(stages.update(slot, stage)) + (if stages[slot] != Stage::Unloaded {
            1nat
        } else {
            0nat
        }) == loaded_count(stages) + (if stage != Stage::Unloaded {
            1nat
        } else {
            0nat
        }),
    decreases stages.len(),
{
    let changed = stages.update(slot, stage);
    if slot == stages.len() - 1 {
        assert(changed.drop_last() =~= stages.drop_last());
    } else {
        assert(changed.drop_last() =~= stages.drop_last().update(slot, stage));
        lemma_count_after_update(stages.drop_last(), slot, stage);
    }
}

/// The number of loaded libraries is zero at first, grows by one with each
/// library that is loaded, falls by one with each that is unloaded, and does
/// not change otherwise.
pub proof fn law_loaded_count(stages: Seq<Stage>, probe: Probe, slot: nat, non_null: bool)
    ensures
        loaded_count(Seq::<Stage>::empty()) == 0,
        loaded_count(after_load(stages, probe)) == loaded_count(stages) + (if fault(probe) is None {
            1nat
        } else {
            0nat
        }),
        loaded_count(after_entry(stages, slot, non_null)) == loaded_count(stages),
        loaded_count(after_release(stages, slot)) == loaded_count(stages),
        loaded_count(after_unload(stages, slot)) + (if mapped(stages, slot) {
            1nat
        } else {
            0nat
        }) == loaded_count(stages),
{
    assert(stages.push(Stage::Loaded).drop_last() =~= stages);
    if awaiting(stages, slot) {
        lemma_count_after_update(stages, slot as int, Stage::Serving);
        lemma_count_after_update(stages, slot as int, Stage::Spent);
    }
    if serving(stages, slot) {
        lemma_count_after_update(stages, slot as int, Stage::Spent);
    }
    if mapped(stages, slot) {
        lemma_count_after_update(stages, slot as int, Stage::Unloaded);
    }
}

} // verus!
