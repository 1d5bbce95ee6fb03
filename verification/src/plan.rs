//! The plan contract: a deterministic, serializable description of the
//! file mutations that install a component, together with detected
//! conflicts, provenance actions and content checksums.

use vstd::prelude::*;

verus! {

/// The operation being planned. Only `Add` is generated today; `Update`
/// and `Remove` are declared for forward compatibility.
#[derive(Debug, Clone, Copy, PartialEq, Eq, Structural)]
pub enum Operation {
    /// Install a new component.
    Add,
    /// Update an installed component to a new version.
    Update,
    /// Remove an installed component.
    Remove,
}

impl DeepView for Operation {
    type V = Operation;

    open spec fn deep_view(&self) -> Operation {
        *self
    }
}

/// The action to perform on a single file.
#[derive(Debug, Clone, Copy, PartialEq, Eq, Structural)]
pub enum FileAction {
    /// Create a new file.
    Create,
    /// Modify an existing file.
    Modify,
    /// Delete an existing file.
    Delete,
}

impl DeepView for FileAction {
    type V = FileAction;

    open spec fn deep_view(&self) -> FileAction {
        *self
    }
}

/// How a mutation is carried out. `Create`/`Delete` pair with
/// `WriteFile`/`DeleteFile`; `Modify` selects among the rest.
#[derive(Debug, Clone, Copy, PartialEq, Eq, Structural)]
pub enum MutationStrategy {
    /// Write the full file contents.
    WriteFile,
    /// Append an export line to a module file.
    AppendExport,
    /// Insert an import line at the top of a file.
    InsertUse,
    /// Replace a marked section.
    ReplaceSection,
    /// Remove the whole file.
    DeleteFile,
}

impl DeepView for MutationStrategy {
    type V = MutationStrategy;

    open spec fn deep_view(&self) -> MutationStrategy {
        *self
    }
}

/// A single file mutation in the plan.
#[derive(Debug, Clone)]
pub struct FileMutation {
    /// The action to perform.
    pub action: FileAction,
    /// Target file path.
    pub file_path: String,
    /// How to apply the mutation.
    pub strategy: MutationStrategy,
    /// The content to write; empty for deletions.
    pub content: String,
    /// Human-readable description of what this mutation does.
    pub description: String,
}

/// Mathematical model of a file mutation.
#[verifier::ext_equal]
pub struct MutationModel {
    pub action: FileAction,
    pub file_path: Seq<char>,
    pub strategy: MutationStrategy,
    pub content: Seq<char>,
    pub description: Seq<char>,
}

impl DeepView for FileMutation {
    type V = MutationModel;

    open spec fn deep_view(&self) -> MutationModel {
        MutationModel {
            action: self.action,
            file_path: self.file_path@,
            strategy: self.strategy,
            content: self.content@,
            description: self.description@,
        }
    }
}

/// A detected conflict with an existing file. Advisory only: it never
/// blocks plan generation.
#[derive(Debug, Clone)]
pub struct Conflict {
    /// The file that conflicts.
    pub file_path: String,
    /// Why it conflicts.
    pub reason: String,
}

/// Mathematical model of a conflict.
#[verifier::ext_equal]
pub struct ConflictModel {
    pub file_path: Seq<char>,
    pub reason: Seq<char>,
}

impl DeepView for Conflict {
    type V = ConflictModel;

    open spec fn deep_view(&self) -> ConflictModel {
        ConflictModel { file_path: self.file_path@, reason: self.reason@ }
    }
}

/// Attribution metadata to be persisted alongside one installed file.
#[derive(Debug, Clone)]
pub struct ProvenanceAction {
    /// The installed file that needs provenance metadata.
    pub file_path: String,
    /// Source repository or upstream reference.
    pub source: String,
    /// License identifier.
    pub license: String,
    /// Description of local modifications.
    pub modifications: String,
}

/// Mathematical model of a provenance action.
#[verifier::ext_equal]
pub struct ProvenanceModel {
    pub file_path: Seq<char>,
    pub source: Seq<char>,
    pub license: Seq<char>,
    pub modifications: Seq<char>,
}

impl DeepView for ProvenanceAction {
    type V = ProvenanceModel;

    open spec fn deep_view(&self) -> ProvenanceModel {
        ProvenanceModel {
            file_path: self.file_path@,
            source: self.source@,
            license: self.license@,
            modifications: self.modifications@,
        }
    }
}

/// The full plan contract: the ordered mutations to apply, the detected
/// conflicts, the provenance actions, and a checksum per created file.
/// Generation is a pure function of its inputs, so a plan can be
/// reviewed, diffed or regenerated before it is trusted.
#[derive(Debug, Clone)]
pub struct PlanContract {
    /// The operation being planned.
    pub operation: Operation,
    /// Target component name.
    pub component_name: String,
    /// Target component version.
    pub component_version: String,
    /// Ordered list of file mutations to apply.
    pub mutations: Vec<FileMutation>,
    /// Detected conflicts (empty if none).
    pub conflicts: Vec<Conflict>,
    /// Files requiring provenance attribution.
    pub provenance_actions: Vec<ProvenanceAction>,
    /// Content checksum per created file path, in first-creation order;
    /// a later creation of the same path replaces the recorded checksum.
    pub file_checksums: Vec<(String, String)>,
    /// Name of the target layout used for this plan.
    pub target_layout: String,
}

/// Mathematical model of a plan contract.
#[verifier::ext_equal]
pub struct PlanModel {
    pub operation: Operation,
    pub component_name: Seq<char>,
    pub component_version: Seq<char>,
    pub mutations: Seq<MutationModel>,
    pub conflicts: Seq<ConflictModel>,
    pub provenance_actions: Seq<ProvenanceModel>,
    pub file_checksums: Seq<(Seq<char>, Seq<char>)>,
    pub target_layout: Seq<char>,
}

impl DeepView for PlanContract {
    type V = PlanModel;

    open spec fn deep_view(&self) -> PlanModel {
        PlanModel {
            operation: self.operation,
            component_name: self.component_name@,
            component_version: self.component_version@,
            mutations: self.mutations.deep_view(),
            conflicts: self.conflicts.deep_view(),
            provenance_actions: self.provenance_actions.deep_view(),
            file_checksums: self.file_checksums.deep_view(),
            target_layout: self.target_layout@,
        }
    }
}

/// The checksum recorded for a path, if any: the first entry with that
/// key, in recording order.
pub open spec fn checksum_lookup(
    checksums: Seq<(Seq<char>, Seq<char>)>,
    path: Seq<char>,
) -> Option<Seq<char>>
    decreases checksums.len(),
{
    if checksums.len() == 0 {
        None
    } else if checksums[0].0 == path {
        Some(checksums[0].1)
    } else {
        checksum_lookup(checksums.drop_first(), path)
    }
}

/// The index of the first checksum entry with the given key, or -1.
pub open spec fn find_sum(checksums: Seq<(Seq<char>, Seq<char>)>, key: Seq<char>) -> int
    decreases checksums.len(),
{
    if checksums.len() == 0 {
        -1
    } else if checksums[0].0 == key {
        0
    } else {
        let rest = find_sum(checksums.drop_first(), key);
        if rest == -1 {
            -1
        } else {
            rest + 1
        }
    }
}

/// A checksum list with one entry recorded for the key: the existing
/// entry for that key is replaced in place, or a new one is appended.
pub open spec fn sum_upsert(
    checksums: Seq<(Seq<char>, Seq<char>)>,
    key: Seq<char>,
    val: Seq<char>,
) -> Seq<(Seq<char>, Seq<char>)> {
    let at = find_sum(checksums, key);
    if at == -1 {
        checksums.push((key, val))
    } else {
        checksums.update(at, (key, val))
    }
}

/// `find_sum` returns -1 or a valid index, and a found entry has the
/// key.
pub proof fn lemma_find_sum_bounds(checksums: Seq<(Seq<char>, Seq<char>)>, key: Seq<char>)
    ensures
        find_sum(checksums, key) == -1 || (0 <= find_sum(checksums, key) < checksums.len()
            && checksums[find_sum(checksums, key)].0 == key),
    decreases checksums.len(),
{
    if checksums.len() > 0 && checksums[0].0 != key {
        lemma_find_sum_bounds(checksums.drop_first(), key);
    }
}

/// After recording a key, looking that key up yields the new value.
pub proof fn lemma_lookup_after_upsert(
    checksums: Seq<(Seq<char>, Seq<char>)>,
    key: Seq<char>,
    val: Seq<char>,
)
    ensures
        checksum_lookup(sum_upsert(checksums, key, val), key) == Some(val),
    decreases checksums.len(),
{
    lemma_find_sum_bounds(checksums, key);
    let r = sum_upsert(checksums, key, val);
    if checksums.len() == 0 {
        assert(r[0] == (key, val));
    } else if checksums[0].0 == key {
        assert(r[0] == (key, val));
    } else {
        let rest = checksums.drop_first();
        lemma_find_sum_bounds(rest, key);
        lemma_lookup_after_upsert(rest, key, val);
        if find_sum(checksums, key) == -1 {
            assert(r == checksums.push((key, val)));
            assert(r[0] == checksums[0]);
            assert(r.drop_first() =~= rest.push((key, val)));
            assert(r.drop_first() =~= sum_upsert(rest, key, val));
        } else {
            let at = find_sum(checksums, key);
            assert(at == find_sum(rest, key) + 1);
            assert(r == checksums.update(at, (key, val)));
            assert(r[0] == checksums[0]);
            assert(r.drop_first() =~= rest.update(at - 1, (key, val)));
            assert(r.drop_first() =~= sum_upsert(rest, key, val));
        }
    }
}

/// Recording one key keeps every other recorded key present.
pub proof fn lemma_lookup_preserved_by_upsert(
    checksums: Seq<(Seq<char>, Seq<char>)>,
    key: Seq<char>,
    val: Seq<char>,
    other: Seq<char>,
)
    requires
        checksum_lookup(checksums, other) is Some,
    ensures
        checksum_lookup(sum_upsert(checksums, key, val), other) is Some,
    decreases checksums.len(),
{
    lemma_find_sum_bounds(checksums, key);
    let r = sum_upsert(checksums, key, val);
    if checksums.len() == 0 {
    } else if other == key {
        lemma_lookup_after_upsert(checksums, key, val);
    } else if checksums[0].0 == key {
        assert(r == checksums.update(0, (key, val)));
        assert(checksums[0].0 != other);
        assert(r[0].0 == key);
        assert(r.drop_first() =~= checksums.drop_first());
    } else if checksums[0].0 == other {
        if find_sum(checksums, key) == -1 {
            assert(r == checksums.push((key, val)));
            assert(r[0] == checksums[0]);
        } else {
            let at = find_sum(checksums, key);
            assert(r == checksums.update(at, (key, val)));
            assert(at > 0);
            assert(r[0] == checksums[0]);
        }
    } else {
        let rest = checksums.drop_first();
        lemma_find_sum_bounds(rest, key);
        lemma_lookup_preserved_by_upsert(rest, key, val, other);
        if find_sum(checksums, key) == -1 {
            assert(r == checksums.push((key, val)));
            assert(r[0] == checksums[0]);
            assert(r.drop_first() =~= rest.push((key, val)));
            assert(r.drop_first() =~= sum_upsert(rest, key, val));
        } else {
            let at = find_sum(checksums, key);
            assert(at == find_sum(rest, key) + 1);
            assert(r == checksums.update(at, (key, val)));
            assert(r[0] == checksums[0]);
            assert(r.drop_first() =~= rest.update(at - 1, (key, val)));
            assert(r.drop_first() =~= sum_upsert(rest, key, val));
        }
    }
}

/// Records a checksum for a path: replaces the entry already recorded
/// for that path, or appends a new one.
pub fn checksum_upsert(checksums: &mut Vec<(String, String)>, key: String, val: String)
    ensures
        final(checksums).deep_view() == sum_upsert(old(checksums).deep_view(), key@, val@),
{
    let ghost cs = checksums.deep_view();
    proof {
        assert(cs.subrange(0, cs.len() as int) =~= cs);
    }
    let mut i: usize = 0;
    while i < checksums.len()
        invariant
            cs == checksums.deep_view(),
            cs == old(checksums).deep_view(),
            i <= cs.len(),
            cs.len() == checksums@.len(),
            find_sum(cs, key@) == if find_sum(cs.subrange(i as int, cs.len() as int), key@)
                == -1 {
                -1int
            } else {
                find_sum(cs.subrange(i as int, cs.len() as int), key@) + i
            },
        decreases cs.len() - i,
    {
        let ghost tail = cs.subrange(i as int, cs.len() as int);
        assert(tail[0] == cs[i as int]);
        if crate::strutil::str_eq(checksums[i].0.as_str(), key.as_str()) {
            assert(tail[0].0 == key@);
            assert(find_sum(tail, key@) == 0);
            assert(find_sum(cs, key@) == i as int);
            let ghost km = key@;
            let ghost vm = val@;
            checksums[i] = (key, val);
            proof {
                assert(checksums.deep_view() =~= cs.update(i as int, (km, vm)));
                assert(sum_upsert(cs, km, vm) == cs.update(i as int, (km, vm)));
                assert(checksums.deep_view() == sum_upsert(cs, km, vm));
            }
            return ;
        }
        proof {
            assert(tail.drop_first() =~= cs.subrange(i + 1, cs.len() as int));
            assert(tail[0].0 != key@);
            lemma_find_sum_bounds(cs.subrange(i + 1, cs.len() as int), key@);
            let rest = find_sum(cs.subrange(i + 1, cs.len() as int), key@);
            assert(find_sum(tail, key@) == if rest == -1 {
                -1int
            } else {
                rest + 1
            });
        }
        i = i + 1;
    }
    proof {
        assert(cs.subrange(cs.len() as int, cs.len() as int) =~= Seq::<(Seq<char>, Seq<char>)>::empty());
    }
    let ghost before = checksums.deep_view();
    checksums.push((key, val));
    proof {
        assert(checksums.deep_view() =~= before.push((key@, val@)));
    }
}

impl PlanContract {
    /// Whether this plan has any conflicts.
    pub fn has_conflicts(&self) -> (r: bool)
        ensures
            r == (self.conflicts@.len() > 0),
    {
        self.conflicts.len() > 0
    }

    /// Total number of file mutations.
    pub fn mutation_count(&self) -> (r: usize)
        ensures
            r == self.mutations@.len(),
    {
        self.mutations.len()
    }

    /// The checksum recorded for a target path, if any.
    pub fn checksum_for(&self, path: &str) -> (r: Option<&String>)
        ensures
            match r {
                Some(c) => checksum_lookup(self.deep_view().file_checksums, path@) == Some(c@),
                None => checksum_lookup(self.deep_view().file_checksums, path@) is None,
            },
    {
        let ghost cs = self.deep_view().file_checksums;
        proof {
            assert(cs.subrange(0, cs.len() as int) =~= cs);
        }
        let mut i: usize = 0;
        while i < self.file_checksums.len()
            invariant
                i <= self.file_checksums@.len(),
                cs == self.deep_view().file_checksums,
                cs.len() == self.file_checksums@.len(),
                checksum_lookup(cs, path@) == checksum_lookup(
                    cs.subrange(i as int, cs.len() as int),
                    path@,
                ),
            decreases self.file_checksums@.len() - i,
        {
            let ghost tail = cs.subrange(i as int, cs.len() as int);
            assert(tail[0] == cs[i as int]);
            let hit = crate::strutil::str_eq(self.file_checksums[i].0.as_str(), path);
            if hit {
                assert(checksum_lookup(tail, path@) == Some(cs[i as int].1));
                return Some(&self.file_checksums[i].1);
            }
            proof {
                assert(tail.drop_first() =~= cs.subrange(i + 1, cs.len() as int));
            }
            i = i + 1;
        }
        assert(checksum_lookup(cs.subrange(cs.len() as int, cs.len() as int), path@) is None);
        None
    }
}

/// Post-failure report: the plan, where it halted, and the split between
/// mutations already committed and mutations never attempted.
#[derive(Debug, Clone)]
pub struct ApplyFailureReport {
    /// The plan that was being applied.
    pub plan: PlanContract,
    /// Index of the mutation that failed (0-based).
    pub failed_at_index: usize,
    /// Description of the failure.
    pub error: String,
    /// Mutations that were applied before the failure.
    pub completed_mutations: Vec<FileMutation>,
    /// Mutations that were not applied.
    pub remaining_mutations: Vec<FileMutation>,
}

/// Mathematical model of a failure report.
#[verifier::ext_equal]
pub struct FailureReportModel {
    pub plan: PlanModel,
    pub failed_at_index: nat,
    pub error: Seq<char>,
    pub completed_mutations: Seq<MutationModel>,
    pub remaining_mutations: Seq<MutationModel>,
}

impl DeepView for ApplyFailureReport {
    type V = FailureReportModel;

    open spec fn deep_view(&self) -> FailureReportModel {
        FailureReportModel {
            plan: self.plan.deep_view(),
            failed_at_index: self.failed_at_index as nat,
            error: self.error@,
            completed_mutations: self.completed_mutations.deep_view(),
            remaining_mutations: self.remaining_mutations.deep_view(),
        }
    }
}

} // verus!
