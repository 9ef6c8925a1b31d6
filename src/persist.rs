use vstd::prelude::*;

use crate::identity::{persist_instructions, process_interfaces};
use crate::link::{persist_all, persist_spec, with_created, FolderView, LinkFolder};
use crate::model::{
    candidates_of, has_static_config, instructions_view, InterfaceRecord, RebindingInstruction,
};
use crate::text::{ends_with, is_prefix, is_suffix, starts_with};

verus! {

/// The mode of a pinning pass.
#[derive(PartialEq, Eq, Structural, Clone, Copy, Debug)]
pub enum PersistAction {
    /// Write the binding files, then the stamp.
    Save,
    /// Report what `Save` would write; write nothing.
    DryRun,
    /// Report the persisted state; write nothing.
    Inspect,
}

/// What the inspect mode reports.
pub struct InspectReport {
    /// Whether the persist stamp is present.
    pub stamp_present: bool,
    /// The binding files of the folder, in folder order; empty without stamp.
    pub persisted_files: Vec<String>,
    /// The interfaces that would be pinned; empty without stamp.
    pub candidates: Vec<RebindingInstruction>,
}

/// The result of a pinning pass.
pub enum PersistOutcome {
    /// The stamp was present: the pass had already run.
    AlreadyDone,
    /// Dry run: the instructions that `Save` would carry out.
    WouldPersist(Vec<RebindingInstruction>),
    /// Saved: whether any binding file was created.
    Persisted(bool),
    /// The inspect report.
    Inspected(InspectReport),
}

/// The stamp whose presence means that the persist pass has run.
pub open spec fn persist_stamp() -> Seq<char> {
    ".nmstate-persist.stamp"@
}

/// The stamp whose presence means that the pin pass has run.
pub open spec fn pinned_stamp() -> Seq<char> {
    ".nmstate-pinned.stamp"@
}

/// Whether `name` is a binding file written by this library.
pub open spec fn is_binding_file_name(name: Seq<char>) -> bool {
    is_prefix("98-nmstate"@, name) && is_suffix(".link"@, name)
}

/// The binding file names among `names`, in order.
pub open spec fn binding_files_of(names: Seq<Seq<char>>) -> Seq<Seq<char>>
    decreases names.len(),
{
    if names.len() == 0 {
        seq![]
    } else {
        let prev = binding_files_of(names.drop_last());
        if is_binding_file_name(names.last()) {
            prev.push(names.last())
        } else {
            prev
        }
    }
}

/// The save pass: unless `stamp` is present, bind each candidate of `ifaces`
/// to its current name, then create the (empty) stamp. The flag says whether
/// a binding file was created.
pub open spec fn save_spec(
    f: FolderView,
    ifaces: Seq<InterfaceRecord>,
    require_static: bool,
    stamp: Seq<char>,
) -> (FolderView, bool) {
    if f.names.contains(stamp) {
        (f, false)
    } else {
        let p = persist_all(f, candidates_of(ifaces, require_static));
        (with_created(p.0, stamp, Seq::empty()), p.1)
    }
}

/// Whether `rep` is the inspect report of folder `f` and snapshot `ifaces`.
pub open spec fn inspect_ok(rep: InspectReport, f: FolderView, ifaces: Seq<InterfaceRecord>) -> bool {
    &&& rep.stamp_present == f.names.contains(persist_stamp())
    &&& rep.persisted_files@.map_values(|s: String| s@) == if rep.stamp_present {
        binding_files_of(f.names)
    } else {
        Seq::empty()
    }
    &&& instructions_view(rep.candidates@) == if rep.stamp_present {
        candidates_of(ifaces, true)
    } else {
        Seq::empty()
    }
}

/// Whether `r` and `after` are the outcome of a pass in mode `action` on
/// folder `f` and snapshot `ifaces`, with stamp `stamp`.
pub open spec fn pass_ok(
    r: PersistOutcome,
    after: FolderView,
    f: FolderView,
    action: PersistAction,
    ifaces: Seq<InterfaceRecord>,
    require_static: bool,
    stamp: Seq<char>,
) -> bool {
    if f.names.contains(stamp) {
        after == f && r is AlreadyDone
    } else if action == PersistAction::DryRun {
        after == f && r is WouldPersist && instructions_view(r->WouldPersist_0@) == candidates_of(
            ifaces,
            require_static,
        )
    } else {
        r is Persisted && (after, r->Persisted_0) == save_spec(f, ifaces, require_static, stamp)
    }
}

/// Whether a pass in mode `action` on folder `f` needs the current snapshot:
/// `Save` and `DryRun` while the stamp is absent, `Inspect` while it is
/// present.
pub open spec fn needs_snapshot_spec(f: FolderView, action: PersistAction) -> bool {
    if action == PersistAction::Inspect {
        f.names.contains(persist_stamp())
    } else {
        !f.names.contains(persist_stamp())
    }
}

/// A second save pass right after a first one writes nothing and reports
/// no change, whatever the network state: the first left its stamp.
pub proof fn lemma_save_idempotent(
    f: FolderView,
    first: Seq<InterfaceRecord>,
    second: Seq<InterfaceRecord>,
    require_static: bool,
    stamp: Seq<char>,
)
    ensures
        save_spec(save_spec(f, first, require_static, stamp).0, second, require_static, stamp) == (
            save_spec(f, first, require_static, stamp).0,
            false,
        ),
{
    let f1 = save_spec(f, first, require_static, stamp).0;
    if !f.names.contains(stamp) {
        let p = persist_all(f, candidates_of(first, require_static)).0;
        assert(f1.names[p.names.len() as int] == stamp);
    }
    assert(f1.names.contains(stamp));
}

/// An interface whose addressing is automatic on both IPv4 and IPv6 (or
/// absent) is never a candidate of the persist and inspect passes: adding it
/// to a snapshot leaves their candidate list as it was.
pub proof fn lemma_automatic_addressing_skipped(s: Seq<InterfaceRecord>, r: InterfaceRecord)
    requires
        !has_static_config(r.ipv4),
        !has_static_config(r.ipv6),
    ensures
        candidates_of(s.push(r), true) == candidates_of(s, true),
{
    assert(s.push(r).drop_last() =~= s);
}

/// Whether the persist pass in mode `action` reads the current network state;
/// where it does not, the snapshot handed to it is not read.
pub fn needs_snapshot(folder: &LinkFolder, action: PersistAction) -> (r: bool)
    ensures
        r == needs_snapshot_spec(folder@, action),
{
    let stamp = String::from_str(".nmstate-persist.stamp");
    let present = folder.has_file(&stamp);
    match action {
        PersistAction::Inspect => present,
        _ => !present,
    }
}

/// Whether the pin pass reads the current network state: only while its
/// stamp is absent.
pub fn pin_needs_snapshot(folder: &LinkFolder) -> (r: bool)
    ensures
        r == !folder@.names.contains(pinned_stamp()),
{
    let stamp = String::from_str(".nmstate-pinned.stamp");
    !folder.has_file(&stamp)
}

/// The binding file names among `names`, in order.
fn binding_files(names: &Vec<String>) -> (r: Vec<String>)
    ensures
        r@.map_values(|s: String| s@) == binding_files_of(names@.map_values(|s: String| s@)),
{
    let ghost nv = names@.map_values(|s: String| s@);
    let mut out: Vec<String> = Vec::new();
    let mut i: usize = 0;
    while i < names.len()
        invariant
            i <= names@.len(),
            nv == names@.map_values(|s: String| s@),
            out@.map_values(|s: String| s@) == binding_files_of(nv.subrange(0, i as int)),
        decreases names.len() - i,
    {
        let ghost before = out@.map_values(|s: String| s@);
        assert(nv.subrange(0, i + 1).drop_last() =~= nv.subrange(0, i as int));
        assert(nv.subrange(0, i + 1).last() == names@[i as int]@);
        let n = names[i].as_str();
        if starts_with(n, "98-nmstate") && ends_with(n, ".link") {
            out.push(names[i].clone());
            assert(out@.map_values(|s: String| s@) =~= before.push(names@[i as int]@));
        }
        i = i + 1;
    }
    assert(nv.subrange(0, nv.len() as int) =~= nv);
    out
}

/// The inspect mode: whether the persist stamp is present and, if it is, the
/// binding files of the folder and the interfaces of `ifaces` that would be
/// pinned. Writes nothing.
pub fn inspect(folder: &LinkFolder, ifaces: &Vec<InterfaceRecord>) -> (r: InspectReport)
    ensures
        inspect_ok(r, folder@, ifaces@),
{
    let stamp = String::from_str(".nmstate-persist.stamp");
    if !folder.has_file(&stamp) {
        let r = InspectReport {
            stamp_present: false,
            persisted_files: Vec::new(),
            candidates: Vec::new(),
        };
        assert(r.persisted_files@.map_values(|s: String| s@) =~= Seq::<Seq<char>>::empty());
        assert(instructions_view(r.candidates@) =~= Seq::<(Seq<char>, Seq<char>)>::empty());
        return r;
    }
    let persisted_files = binding_files(&folder.names);
    let candidates = process_interfaces(ifaces, true);
    InspectReport { stamp_present: true, persisted_files, candidates }
}

/// One pinning pass with stamp `stamp`, in mode `Save` or `DryRun`.
fn persist_pass(
    folder: &mut LinkFolder,
    action: PersistAction,
    ifaces: &Vec<InterfaceRecord>,
    require_static: bool,
    stamp: &str,
) -> (r: PersistOutcome)
    requires
        action != PersistAction::Inspect,
    ensures
        pass_ok(r, final(folder)@, old(folder)@, action, ifaces@, require_static, stamp@),
{
    let stamp = String::from_str(stamp);
    if folder.has_file(&stamp) {
        return PersistOutcome::AlreadyDone;
    }
    let instrs = process_interfaces(ifaces, require_static);
    if action == PersistAction::DryRun {
        return PersistOutcome::WouldPersist(instrs);
    }
    let changed = persist_instructions(folder, &instrs);
    let empty = String::new();
    folder.create(stamp, empty);
    PersistOutcome::Persisted(changed)
}

/// The persist pass. `Inspect` reports as `inspect` does. Otherwise, where
/// the persist stamp is present nothing is done; else `DryRun` reports the
/// interfaces that would be pinned (Ethernet, known hardware address, static
/// addressing), and `Save` binds each to its current name, leaving binding
/// files already present untouched, then creates the stamp even when no file
/// was created.
pub fn run_persist_immediately(
    folder: &mut LinkFolder,
    action: PersistAction,
    ifaces: &Vec<InterfaceRecord>,
) -> (r: PersistOutcome)
    ensures
        action == PersistAction::Inspect ==> final(folder)@ == old(folder)@ && r is Inspected
            && inspect_ok(r->Inspected_0, old(folder)@, ifaces@),
        action != PersistAction::Inspect ==> pass_ok(
            r,
            final(folder)@,
            old(folder)@,
            action,
            ifaces@,
            true,
            persist_stamp(),
        ),
{
    if action == PersistAction::Inspect {
        return PersistOutcome::Inspected(inspect(folder, ifaces));
    }
    persist_pass(folder, action, ifaces, true, ".nmstate-persist.stamp")
}

/// The pin pass: as the persist pass in mode `Save` (or `DryRun` where
/// `dry_run` holds), with its own stamp, and for every Ethernet interface
/// with a known hardware address whatever its addressing.
pub fn ncl_pin_nic_names(folder: &mut LinkFolder, dry_run: bool, ifaces: &Vec<InterfaceRecord>) -> (r:
    PersistOutcome)
    ensures
        pass_ok(
            r,
            final(folder)@,
            old(folder)@,
            if dry_run {
                PersistAction::DryRun
            } else {
                PersistAction::Save
            },
            ifaces@,
            false,
            pinned_stamp(),
        ),
{
    let action = if dry_run {
        PersistAction::DryRun
    } else {
        PersistAction::Save
    };
    persist_pass(folder, action, ifaces, false, ".nmstate-pinned.stamp")
}

} // verus!
