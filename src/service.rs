use vstd::prelude::*;

use crate::text::{ends_with, is_suffix};

verus! {

/// Whether a folder entry named `name` is a queued configuration file: its
/// extension (what follows its last dot, where something precedes that dot)
/// is `yml`.
pub open spec fn is_config_file_name(name: Seq<char>) -> bool {
    name.len() > 4 && is_suffix(".yml"@, name)
}

/// The configuration file names among `names`, in order.
pub open spec fn config_names_of(names: Seq<Seq<char>>) -> Seq<Seq<char>>
    decreases names.len(),
{
    if names.len() == 0 {
        seq![]
    } else {
        let prev = config_names_of(names.drop_last());
        if is_config_file_name(names.last()) {
            prev.push(names.last())
        } else {
            prev
        }
    }
}

/// Lexicographic order of character sequences, by code point.
pub open spec fn chars_le(a: Seq<char>, b: Seq<char>) -> bool
    decreases a.len(),
{
    if a.len() == 0 {
        true
    } else if b.len() == 0 {
        false
    } else if a[0] != b[0] {
        (a[0] as u32) < (b[0] as u32)
    } else {
        chars_le(a.drop_first(), b.drop_first())
    }
}

/// Whether `s` is in lexicographic order.
pub open spec fn is_sorted(s: Seq<Seq<char>>) -> bool {
    forall|i: int, j: int| 0 <= i < j < s.len() ==> chars_le(#[trigger] s[i], #[trigger] s[j])
}

pub open spec fn names_view(v: Seq<String>) -> Seq<Seq<char>> {
    v.map_values(|s: String| s@)
}

/// Relies on `slice::sort_unstable` on `String`s: it permutes the items into
/// ascending order, and `String` orders lexicographically by bytes, which for
/// UTF-8 text is lexicographic order by code point.
#[verifier::external_body]
fn sort_names(v: &mut Vec<String>)
    ensures
        names_view(final(v)@).to_multiset() == names_view(old(v)@).to_multiset(),
        is_sorted(names_view(final(v)@)),
{
    v.sort_unstable();
}

/// The queued configuration files among the folder entries `entries`, in
/// lexicographic order.
pub fn get_config_files(entries: Vec<String>) -> (r: Vec<String>)
    ensures
        names_view(r@).to_multiset() == config_names_of(names_view(entries@)).to_multiset(),
        is_sorted(names_view(r@)),
{
    let ghost ev = names_view(entries@);
    let mut out: Vec<String> = Vec::new();
    let mut i: usize = 0;
    while i < entries.len()
        invariant
            i <= entries@.len(),
            ev == names_view(entries@),
            names_view(out@) == config_names_of(ev.subrange(0, i as int)),
        decreases entries.len() - i,
    {
        let ghost before = names_view(out@);
        assert(ev.subrange(0, i + 1).drop_last() =~= ev.subrange(0, i as int));
        assert(ev.subrange(0, i + 1).last() == entries@[i as int]@);
        let n = entries[i].as_str();
        if n.unicode_len() > 4 && ends_with(n, ".yml") {
            out.push(entries[i].clone());
            assert(names_view(out@) =~= before.push(entries@[i as int]@));
        }
        i = i + 1;
    }
    assert(ev.subrange(0, ev.len() as int) =~= ev);
    sort_names(&mut out);
    out
}

/// Where a queued file stands.
#[derive(PartialEq, Eq, Structural, Clone, Copy, Debug)]
pub enum QueuedState {
    /// Not attempted yet.
    Pending,
    /// Applied; the file is renamed to its applied form.
    Applied,
    /// Could not be opened or applied; the file stays for a later run.
    Failed,
}

/// What came of one apply attempt.
#[derive(PartialEq, Eq, Structural, Clone, Copy, Debug)]
pub enum ApplyOutcome {
    Applied,
    ApplyFailed,
    OpenFailed,
}

/// The state a file reaches on outcome `o`.
pub open spec fn state_after(o: ApplyOutcome) -> QueuedState {
    match o {
        ApplyOutcome::Applied => QueuedState::Applied,
        _ => QueuedState::Failed,
    }
}

/// A queued configuration file and where it stands.
pub struct QueuedConfig {
    pub file_name: String,
    pub state: QueuedState,
}

/// The queued configuration files of one run, in the order they are applied.
pub struct ConfigQueue {
    pub items: Vec<QueuedConfig>,
}

pub open spec fn states_of(items: Seq<QueuedConfig>) -> Seq<QueuedState> {
    items.map_values(|q: QueuedConfig| q.state)
}

pub open spec fn files_of(items: Seq<QueuedConfig>) -> Seq<Seq<char>> {
    items.map_values(|q: QueuedConfig| q.file_name@)
}

/// The states after outcome `o` of the attempt on item `i`.
pub open spec fn record_spec(s: Seq<QueuedState>, i: int, o: ApplyOutcome) -> Seq<QueuedState> {
    s.update(i, state_after(o))
}

/// The states after the outcomes `outcomes` of the attempts on the first
/// items, in order.
pub open spec fn record_in_order(s: Seq<QueuedState>, outcomes: Seq<ApplyOutcome>) -> Seq<
    QueuedState,
>
    decreases outcomes.len(),
{
    if outcomes.len() == 0 {
        s
    } else {
        record_spec(
            record_in_order(s, outcomes.drop_last()),
            outcomes.len() - 1,
            outcomes.last(),
        )
    }
}

impl ConfigQueue {
    /// The queue of a run: the configuration files among the folder entries
    /// `entries`, in lexicographic order, all pending.
    pub fn discover(entries: Vec<String>) -> (r: ConfigQueue)
        ensures
            files_of(r.items@).to_multiset() == config_names_of(names_view(entries@)).to_multiset(),
            is_sorted(files_of(r.items@)),
            forall|i: int| 0 <= i < r.items@.len() ==> #[trigger] r.items@[i].state == QueuedState::Pending,
    {
        let files = get_config_files(entries);
        let mut items: Vec<QueuedConfig> = Vec::new();
        let mut i: usize = 0;
        while i < files.len()
            invariant
                i <= files@.len(),
                files_of(items@) == names_view(files@).subrange(0, i as int),
                forall|k: int| 0 <= k < items@.len() ==> #[trigger] items@[k].state == QueuedState::Pending,
            decreases files.len() - i,
        {
            let ghost before = files_of(items@);
            items.push(QueuedConfig { file_name: files[i].clone(), state: QueuedState::Pending });
            assert(files_of(items@) =~= before.push(files@[i as int]@));
            assert(files_of(items@) =~= names_view(files@).subrange(0, i + 1));
            i = i + 1;
        }
        assert(names_view(files@).subrange(0, files@.len() as int) =~= names_view(files@));
        ConfigQueue { items }
    }

    /// Whether the settling delay is due: only where some file is queued.
    pub fn needs_settle_delay(&self) -> (r: bool)
        ensures
            r == (self.items@.len() > 0),
    {
        self.items.len() > 0
    }

    /// Records outcome `o` of the attempt on item `i`. Returns whether the
    /// file is to be renamed to its applied form: only where it was applied.
    pub fn record_outcome(&mut self, i: usize, o: ApplyOutcome) -> (relocate: bool)
        requires
            i < old(self).items@.len(),
        ensures
            relocate == (o == ApplyOutcome::Applied),
            final(self).items@.len() == old(self).items@.len(),
            files_of(final(self).items@) == files_of(old(self).items@),
            states_of(final(self).items@) == record_spec(states_of(old(self).items@), i as int, o),
    {
        let file_name = self.items[i].file_name.clone();
        let state = match o {
            ApplyOutcome::Applied => QueuedState::Applied,
            _ => QueuedState::Failed,
        };
        self.items.set(i, QueuedConfig { file_name, state });
        assert(files_of(self.items@) =~= files_of(old(self).items@));
        assert(states_of(self.items@) =~= record_spec(states_of(old(self).items@), i as int, o));
        o == ApplyOutcome::Applied
    }
}

/// A run attempts every queued file whatever came of the others: after the
/// outcomes of all attempts are recorded in order, each file stands as its
/// own outcome left it, applied (and renamed) exactly where it was applied,
/// failed (and left in place) everywhere else.
pub proof fn lemma_batch_resilience(s: Seq<QueuedState>, outcomes: Seq<ApplyOutcome>)
    requires
        outcomes.len() == s.len(),
    ensures
        record_in_order(s, outcomes).len() == s.len(),
        forall|i: int|
            0 <= i < s.len() ==> #[trigger] record_in_order(s, outcomes)[i] == state_after(
                outcomes[i],
            ),
{
    lemma_record_prefix(s, outcomes);
}

/// After the first `outcomes.len()` attempts, the attempted items stand as
/// their outcomes left them and the others as they were.
proof fn lemma_record_prefix(s: Seq<QueuedState>, outcomes: Seq<ApplyOutcome>)
    requires
        outcomes.len() <= s.len(),
    ensures
        record_in_order(s, outcomes).len() == s.len(),
        forall|i: int|
            0 <= i < s.len() ==> #[trigger] record_in_order(s, outcomes)[i] == if i
                < outcomes.len() {
                state_after(outcomes[i])
            } else {
                s[i]
            },
    decreases outcomes.len(),
{
    if outcomes.len() > 0 {
        let prev = outcomes.drop_last();
        lemma_record_prefix(s, prev);
        assert forall|i: int| 0 <= i < s.len() implies #[trigger] record_in_order(s, outcomes)[i]
            == if i < outcomes.len() {
            state_after(outcomes[i])
        } else {
            s[i]
        } by {
            if i < prev.len() {
                assert(prev[i] == outcomes[i]);
            }
        }
    }
}

} // verus!
