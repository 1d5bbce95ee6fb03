//! The plan executor's merge semantics, as pure functions: what one
//! mutation does to a file's content, modelled over an abstract
//! file-system map, and the proof that applying a plan twice leaves the
//! same state as applying it once. The caller performs the actual reads
//! and writes; everything here only computes.

use vstd::prelude::*;

use crate::plan::{FileAction, FileMutation, MutationModel, MutationStrategy, PlanContract};
use crate::strutil::{contains_sub, is_substring, matches_at, push_char};

verus! {

/// The content of an append-export merge when the export line is not
/// yet present: appended with exactly one separating newline, keeping a
/// final newline.
pub open spec fn appended_export(cur: Seq<char>, c: Seq<char>) -> Seq<char> {
    if cur.len() == 0 {
        c + "\n"@
    } else if cur.last() == '\n' {
        cur + c + "\n"@
    } else {
        cur + "\n"@ + c + "\n"@
    }
}

/// The content of an insert-use merge when the line is not yet present:
/// prepended, with a newline before the existing text.
pub open spec fn inserted_use(cur: Seq<char>, c: Seq<char>) -> Seq<char> {
    c + "\n"@ + cur
}

/// What a mutation asks the caller to do to its target file.
#[derive(Debug, Clone)]
pub enum MutationOutcome {
    /// Write this full content to the target path.
    Write(String),
    /// Remove the target file (no-op if absent).
    Remove,
    /// Leave the file exactly as it is.
    Keep,
    /// The target file must exist but does not; the apply halts here.
    MissingTarget,
}

/// Spec-level mutation outcome.
pub enum EffectModel {
    Write(Seq<char>),
    Remove,
    Keep,
    MissingTarget,
}

impl DeepView for MutationOutcome {
    type V = EffectModel;

    open spec fn deep_view(&self) -> EffectModel {
        match self {
            MutationOutcome::Write(c) => EffectModel::Write(c@),
            MutationOutcome::Remove => EffectModel::Remove,
            MutationOutcome::Keep => EffectModel::Keep,
            MutationOutcome::MissingTarget => EffectModel::MissingTarget,
        }
    }
}

/// What a mutation does, given the target file's current content
/// (`None` when the file does not exist):
/// a creation overwrites unconditionally; an append-export appends once
/// (treating a missing file as empty) and is a no-op when the line is
/// already present; an insert-use prepends once and requires the file
/// to exist; the remaining modify strategies overwrite; a deletion
/// removes.
pub open spec fn spec_mutation_effect(m: MutationModel, e: Option<Seq<char>>) -> EffectModel {
    match m.action {
        FileAction::Create => EffectModel::Write(m.content),
        FileAction::Modify => match m.strategy {
            MutationStrategy::AppendExport => {
                let cur = match e {
                    Some(t) => t,
                    None => Seq::empty(),
                };
                if is_substring(cur, m.content) {
                    EffectModel::Keep
                } else {
                    EffectModel::Write(appended_export(cur, m.content))
                }
            },
            MutationStrategy::InsertUse => match e {
                None => EffectModel::MissingTarget,
                Some(t) => if is_substring(t, m.content) {
                    EffectModel::Keep
                } else {
                    EffectModel::Write(inserted_use(t, m.content))
                },
            },
            _ => EffectModel::Write(m.content),
        },
        FileAction::Delete => EffectModel::Remove,
    }
}

/// Computes what a mutation does to its target file, given the file's
/// current content (`None` when it does not exist).
pub fn mutation_effect(m: &FileMutation, existing: Option<&String>) -> (r: MutationOutcome)
    ensures
        r.deep_view() == spec_mutation_effect(
            m.deep_view(),
            match existing {
                Some(t) => Some(t@),
                None => None,
            },
        ),
{
    match m.action {
        FileAction::Create => MutationOutcome::Write(m.content.clone()),
        FileAction::Modify => match m.strategy {
            MutationStrategy::AppendExport => {
                let empty = String::new();
                let cur: &String = match existing {
                    Some(t) => t,
                    None => &empty,
                };
                if contains_sub(cur.as_str(), m.content.as_str()) {
                    MutationOutcome::Keep
                } else {
                    proof {
                        reveal_strlit("\n");
                    }
                    let mut out = cur.clone();
                    if cur.as_str().unicode_len() == 0 {
                        let mut w = m.content.clone();
                        push_char(&mut w, '\n');
                        assert(w@ =~= appended_export(cur@, m.content@));
                        return MutationOutcome::Write(w);
                    }
                    let last = cur.as_str().get_char(cur.as_str().unicode_len() - 1);
                    if last != '\n' {
                        push_char(&mut out, '\n');
                    }
                    out.append(m.content.as_str());
                    push_char(&mut out, '\n');
                    assert(out@ =~= appended_export(cur@, m.content@));
                    MutationOutcome::Write(out)
                }
            },
            MutationStrategy::InsertUse => match existing {
                None => MutationOutcome::MissingTarget,
                Some(t) => {
                    if contains_sub(t.as_str(), m.content.as_str()) {
                        MutationOutcome::Keep
                    } else {
                        proof {
                            reveal_strlit("\n");
                        }
                        let mut out = m.content.clone();
                        push_char(&mut out, '\n');
                        out.append(t.as_str());
                        assert(out@ =~= inserted_use(t@, m.content@));
                        MutationOutcome::Write(out)
                    }
                },
            },
            _ => MutationOutcome::Write(m.content.clone()),
        },
        FileAction::Delete => MutationOutcome::Remove,
    }
}

/// An abstract file system: path to content.
pub type FsModel = Map<Seq<char>, Seq<char>>;

/// The content at a path, `None` when absent.
pub open spec fn fs_lookup(fs: FsModel, path: Seq<char>) -> Option<Seq<char>> {
    if fs.contains_key(path) {
        Some(fs[path])
    } else {
        None
    }
}

/// The file system after one mutation's outcome is carried out.
pub open spec fn apply_effect(fs: FsModel, path: Seq<char>, eff: EffectModel) -> FsModel {
    match eff {
        EffectModel::Write(c) => fs.insert(path, c),
        EffectModel::Remove => fs.remove(path),
        EffectModel::Keep => fs,
        EffectModel::MissingTarget => fs,
    }
}

/// The file system after one mutation.
pub open spec fn apply_mutation_fs(fs: FsModel, m: MutationModel) -> FsModel {
    apply_effect(fs, m.file_path, spec_mutation_effect(m, fs_lookup(fs, m.file_path)))
}

/// The file system after a whole mutation list, applied in order.
/// This models the effect of an apply that ran to completion.
pub open spec fn apply_plan_fs(fs: FsModel, ms: Seq<MutationModel>) -> FsModel
    decreases ms.len(),
{
    if ms.len() == 0 {
        fs
    } else {
        apply_plan_fs(apply_mutation_fs(fs, ms[0]), ms.drop_first())
    }
}

/// A mutation whose effect is an insert-use modification.
pub open spec fn is_insert_use(m: MutationModel) -> bool {
    m.action == FileAction::Modify && m.strategy == MutationStrategy::InsertUse
}

/// A mutation whose effect does not depend on the file's prior content.
pub open spec fn is_reset(m: MutationModel) -> bool {
    match m.action {
        FileAction::Create => true,
        FileAction::Delete => true,
        FileAction::Modify => m.strategy != MutationStrategy::AppendExport && m.strategy
            != MutationStrategy::InsertUse,
    }
}

/// One mutation's transition on a single file's content.
pub open spec fn step_file(e: Option<Seq<char>>, m: MutationModel) -> Option<Seq<char>> {
    match spec_mutation_effect(m, e) {
        EffectModel::Write(c) => Some(c),
        EffectModel::Remove => None,
        EffectModel::Keep => e,
        EffectModel::MissingTarget => e,
    }
}

/// A mutation list's transition on a single file's content.
pub open spec fn fold_file(e: Option<Seq<char>>, ms: Seq<MutationModel>) -> Option<Seq<char>>
    decreases ms.len(),
{
    if ms.len() == 0 {
        e
    } else {
        fold_file(step_file(e, ms[0]), ms.drop_first())
    }
}

/// The mutations of a list that target one path, in order.
pub open spec fn on_path(ms: Seq<MutationModel>, p: Seq<char>) -> Seq<MutationModel>
    decreases ms.len(),
{
    if ms.len() == 0 {
        Seq::empty()
    } else {
        (if ms[0].file_path == p {
            seq![ms[0]]
        } else {
            Seq::empty()
        }) + on_path(ms.drop_first(), p)
    }
}

/// One mutation only changes its own path, and changes it by its
/// single-file transition.
proof fn lemma_apply_mutation_per_path(fs: FsModel, m: MutationModel, p: Seq<char>)
    ensures
        fs_lookup(apply_mutation_fs(fs, m), p) == if p == m.file_path {
            step_file(fs_lookup(fs, p), m)
        } else {
            fs_lookup(fs, p)
        },
{
}

/// The whole-plan transition projects to the per-file fold of the
/// mutations on each path.
proof fn lemma_apply_plan_per_path(fs: FsModel, ms: Seq<MutationModel>, p: Seq<char>)
    ensures
        fs_lookup(apply_plan_fs(fs, ms), p) == fold_file(fs_lookup(fs, p), on_path(ms, p)),
    decreases ms.len(),
{
    if ms.len() > 0 {
        let fs1 = apply_mutation_fs(fs, ms[0]);
        lemma_apply_mutation_per_path(fs, ms[0], p);
        lemma_apply_plan_per_path(fs1, ms.drop_first(), p);
        if ms[0].file_path == p {
            let rest = on_path(ms.drop_first(), p);
            assert(on_path(ms, p) =~= seq![ms[0]] + rest);
            assert((seq![ms[0]] + rest).drop_first() =~= rest);
            assert(fold_file(fs_lookup(fs, p), on_path(ms, p)) == fold_file(
                step_file(fs_lookup(fs, p), ms[0]),
                rest,
            ));
        } else {
            assert(on_path(ms, p) =~= on_path(ms.drop_first(), p));
        }
    }
}

/// A substring of a text is still a substring after text is appended.
proof fn lemma_substring_extend(t: Seq<char>, x: Seq<char>, c: Seq<char>)
    requires
        is_substring(t, c),
    ensures
        is_substring(t + x, c),
{
    let i = choose|i: int| matches_at(t, i, c);
    assert((t + x).subrange(i, i + c.len()) =~= t.subrange(i, i + c.len()));
    assert(matches_at(t + x, i, c));
}

/// Appending an export makes the export line a substring.
proof fn lemma_appended_contains(cur: Seq<char>, c: Seq<char>)
    ensures
        is_substring(appended_export(cur, c), c),
{
    reveal_strlit("\n");
    let r = appended_export(cur, c);
    if cur.len() == 0 {
        assert(r.subrange(0, c.len() as int) =~= c);
        assert(matches_at(r, 0, c));
    } else if cur.last() == '\n' {
        assert(r.subrange(cur.len() as int, cur.len() as int + c.len()) =~= c);
        assert(matches_at(r, cur.len() as int, c));
    } else {
        assert(r.subrange(cur.len() as int + 1, cur.len() as int + 1 + c.len()) =~= c);
        assert(matches_at(r, cur.len() as int + 1, c));
    }
}

/// Whether a content line is already carried by a file state: present
/// in the text, or trivially empty when the file is absent.
pub open spec fn carried(e: Option<Seq<char>>, c: Seq<char>) -> bool {
    match e {
        Some(t) => is_substring(t, c),
        None => c.len() == 0,
    }
}

/// An append-only step preserves everything already carried.
proof fn lemma_step_preserves_carried(e: Option<Seq<char>>, m: MutationModel, c: Seq<char>)
    requires
        !is_reset(m),
        !is_insert_use(m),
        carried(e, c),
    ensures
        carried(step_file(e, m), c),
{
    match e {
        Some(t) => {
            if !is_substring(t, m.content) {
                lemma_substring_extend(t, m.content + "\n"@, c);
                if t.last() != '\n' {
                    assert(t + "\n"@ + m.content + "\n"@ =~= t + ("\n"@ + m.content + "\n"@));
                    lemma_substring_extend(t, "\n"@ + m.content + "\n"@, c);
                } else {
                    assert(t + m.content + "\n"@ =~= t + (m.content + "\n"@));
                }
            }
        },
        None => {
            assert(c.len() == 0);
            match step_file(e, m) {
                Some(t2) => {
                    assert(t2.subrange(0, 0) =~= c);
                    assert(matches_at(t2, 0, c));
                },
                None => {},
            }
        },
    }
}

/// An append-only step leaves its own content carried.
proof fn lemma_step_carries_own(e: Option<Seq<char>>, m: MutationModel)
    requires
        !is_reset(m),
        !is_insert_use(m),
    ensures
        carried(step_file(e, m), m.content),
{
    let cur = match e {
        Some(t) => t,
        None => Seq::<char>::empty(),
    };
    if is_substring(cur, m.content) {
        match e {
            Some(t) => {},
            None => {
                let i = choose|i: int| matches_at(cur, i, m.content);
                assert(m.content.len() == 0);
            },
        }
    } else {
        lemma_appended_contains(cur, m.content);
    }
}

/// An append-only fold preserves everything already carried.
proof fn lemma_fold_preserves_carried(e: Option<Seq<char>>, ms: Seq<MutationModel>, c: Seq<char>)
    requires
        forall|k: int| 0 <= k < ms.len() ==> !is_reset(#[trigger] ms[k]) && !is_insert_use(ms[k]),
        carried(e, c),
    ensures
        carried(fold_file(e, ms), c),
    decreases ms.len(),
{
    if ms.len() > 0 {
        lemma_step_preserves_carried(e, ms[0], c);
        assert(forall|k: int|
            0 <= k < ms.drop_first().len() ==> !is_reset(#[trigger] ms.drop_first()[k])
                && !is_insert_use(ms.drop_first()[k]));
        lemma_fold_preserves_carried(step_file(e, ms[0]), ms.drop_first(), c);
    }
}

/// After an append-only fold, every mutation's content is carried.
proof fn lemma_fold_carries_all(e: Option<Seq<char>>, ms: Seq<MutationModel>)
    requires
        forall|k: int| 0 <= k < ms.len() ==> !is_reset(#[trigger] ms[k]) && !is_insert_use(ms[k]),
    ensures
        forall|k: int|
            0 <= k < ms.len() ==> carried(fold_file(e, ms), #[trigger] ms[k].content),
    decreases ms.len(),
{
    if ms.len() > 0 {
        let e1 = step_file(e, ms[0]);
        lemma_step_carries_own(e, ms[0]);
        assert(forall|k: int|
            0 <= k < ms.drop_first().len() ==> !is_reset(#[trigger] ms.drop_first()[k])
                && !is_insert_use(ms.drop_first()[k]));
        lemma_fold_preserves_carried(e1, ms.drop_first(), ms[0].content);
        lemma_fold_carries_all(e1, ms.drop_first());
        assert(fold_file(e, ms) == fold_file(e1, ms.drop_first()));
        assert forall|k: int|
            0 <= k < ms.len() implies carried(fold_file(e, ms), #[trigger] ms[k].content) by {
            if k > 0 {
                assert(ms.drop_first()[k - 1] == ms[k]);
            }
        }
    }
}

/// A fold whose every content is already carried changes nothing.
proof fn lemma_fold_noop(e: Option<Seq<char>>, ms: Seq<MutationModel>)
    requires
        forall|k: int| 0 <= k < ms.len() ==> !is_reset(#[trigger] ms[k]) && !is_insert_use(ms[k]),
        forall|k: int| 0 <= k < ms.len() ==> carried(e, #[trigger] ms[k].content),
    ensures
        fold_file(e, ms) == e,
    decreases ms.len(),
{
    if ms.len() > 0 {
        assert(carried(e, ms[0].content));
        match e {
            Some(t) => {
                assert(step_file(e, ms[0]) == e);
            },
            None => {
                assert(ms[0].content.len() == 0);
                let cur = Seq::<char>::empty();
                assert(cur.subrange(0, 0) =~= ms[0].content);
                assert(matches_at(cur, 0, ms[0].content));
                assert(step_file(e, ms[0]) == e);
            },
        }
        assert(forall|k: int|
            0 <= k < ms.drop_first().len() ==> !is_reset(#[trigger] ms.drop_first()[k])
                && !is_insert_use(ms.drop_first()[k]));
        assert(forall|k: int|
            0 <= k < ms.drop_first().len() ==> carried(e, #[trigger] ms.drop_first()[k].content));
        lemma_fold_noop(e, ms.drop_first());
    }
}

/// A fold over a list with a reset does not depend on the start state.
proof fn lemma_fold_reset_forgets(
    e1: Option<Seq<char>>,
    e2: Option<Seq<char>>,
    ms: Seq<MutationModel>,
)
    requires
        exists|k: int| 0 <= k < ms.len() && is_reset(#[trigger] ms[k]),
        forall|k: int| 0 <= k < ms.len() ==> !is_insert_use(#[trigger] ms[k]),
    ensures
        fold_file(e1, ms) == fold_file(e2, ms),
    decreases ms.len(),
{
    let k = choose|k: int| 0 <= k < ms.len() && is_reset(#[trigger] ms[k]);
    if is_reset(ms[0]) {
        assert(step_file(e1, ms[0]) == step_file(e2, ms[0]));
    } else {
        assert(ms.drop_first()[k - 1] == ms[k]);
        assert(forall|t: int|
            0 <= t < ms.drop_first().len() ==> !is_insert_use(#[trigger] ms.drop_first()[t]));
        lemma_fold_reset_forgets(step_file(e1, ms[0]), step_file(e2, ms[0]), ms.drop_first());
    }
}

/// Folding a mutation list over one file twice equals folding it once,
/// for lists without insert-use mutations.
proof fn lemma_fold_file_idempotent(e: Option<Seq<char>>, ms: Seq<MutationModel>)
    requires
        forall|k: int| 0 <= k < ms.len() ==> !is_insert_use(#[trigger] ms[k]),
    ensures
        fold_file(fold_file(e, ms), ms) == fold_file(e, ms),
{
    if exists|k: int| 0 <= k < ms.len() && is_reset(#[trigger] ms[k]) {
        lemma_fold_reset_forgets(fold_file(e, ms), e, ms);
    } else {
        assert(forall|k: int|
            0 <= k < ms.len() ==> !is_reset(#[trigger] ms[k]) && !is_insert_use(ms[k]));
        lemma_fold_carries_all(e, ms);
        lemma_fold_noop(fold_file(e, ms), ms);
    }
}

/// Idempotent apply: for a plan without insert-use mutations, applying
/// its mutation list twice to a file system leaves exactly the state
/// that one application produces — created files keep their content,
/// and each appended export line appears only once, because a second
/// pass finds it already present.
pub proof fn lemma_apply_plan_idempotent(fs: FsModel, ms: Seq<MutationModel>)
    requires
        forall|k: int| 0 <= k < ms.len() ==> !is_insert_use(#[trigger] ms[k]),
    ensures
        apply_plan_fs(apply_plan_fs(fs, ms), ms) == apply_plan_fs(fs, ms),
{
    let once = apply_plan_fs(fs, ms);
    let twice = apply_plan_fs(once, ms);
    assert forall|p: Seq<char>| #[trigger] twice.contains_key(p) implies once.contains_key(p)
        && twice[p] == once[p] by {
        lemma_apply_plan_per_path(fs, ms, p);
        lemma_apply_plan_per_path(once, ms, p);
        lemma_on_path_no_insert_use(ms, p);
        lemma_fold_file_idempotent(fs_lookup(fs, p), on_path(ms, p));
    }
    assert forall|p: Seq<char>| #[trigger] once.contains_key(p) implies twice.contains_key(
        p,
    ) by {
        lemma_apply_plan_per_path(fs, ms, p);
        lemma_apply_plan_per_path(once, ms, p);
        lemma_on_path_no_insert_use(ms, p);
        lemma_fold_file_idempotent(fs_lookup(fs, p), on_path(ms, p));
    }
    assert(twice =~= once);
}

/// Path projection keeps the absence of insert-use mutations.
proof fn lemma_on_path_no_insert_use(ms: Seq<MutationModel>, p: Seq<char>)
    requires
        forall|k: int| 0 <= k < ms.len() ==> !is_insert_use(#[trigger] ms[k]),
    ensures
        forall|k: int| 0 <= k < on_path(ms, p).len() ==> !is_insert_use(#[trigger] on_path(ms, p)[k]),
    decreases ms.len(),
{
    if ms.len() > 0 {
        assert(forall|t: int|
            0 <= t < ms.drop_first().len() ==> !is_insert_use(#[trigger] ms.drop_first()[t]));
        lemma_on_path_no_insert_use(ms.drop_first(), p);
        let tail = on_path(ms.drop_first(), p);
        assert forall|k: int|
            0 <= k < on_path(ms, p).len() implies !is_insert_use(
            #[trigger] on_path(ms, p)[k],
        ) by {
            if ms[0].file_path == p {
                assert(on_path(ms, p) == seq![ms[0]] + tail);
                if k == 0 {
                    assert(on_path(ms, p)[0] == ms[0]);
                } else {
                    assert(on_path(ms, p)[k] == tail[k - 1]);
                }
            } else {
                assert(on_path(ms, p) == Seq::<MutationModel>::empty() + tail);
                assert(on_path(ms, p)[k] == tail[k]);
            }
        }
    }
}

/// Splits a plan's mutations at the index where an apply halted: the
/// report carries the plan, the mutations already committed, and the
/// mutations never attempted.
pub fn build_failure_report(plan: PlanContract, failed_at_index: usize, error: String) -> (r:
    crate::plan::ApplyFailureReport)
    requires
        failed_at_index <= plan.mutations@.len(),
    ensures
        r.deep_view().plan == plan.deep_view(),
        r.deep_view().failed_at_index == failed_at_index as nat,
        r.deep_view().error == error@,
        r.deep_view().completed_mutations == plan.deep_view().mutations.subrange(
            0,
            failed_at_index as int,
        ),
        r.deep_view().remaining_mutations == plan.deep_view().mutations.subrange(
            failed_at_index as int,
            plan.deep_view().mutations.len() as int,
        ),
{
    let mut completed: Vec<FileMutation> = Vec::new();
    let mut remaining: Vec<FileMutation> = Vec::new();
    let mut i: usize = 0;
    while i < plan.mutations.len()
        invariant
            i <= plan.mutations@.len(),
            failed_at_index <= plan.mutations@.len(),
            completed.deep_view() =~= plan.deep_view().mutations.subrange(
                0,
                if i < failed_at_index {
                    i as int
                } else {
                    failed_at_index as int
                },
            ),
            remaining.deep_view() =~= plan.deep_view().mutations.subrange(
                failed_at_index as int,
                if i < failed_at_index {
                    failed_at_index as int
                } else {
                    i as int
                },
            ),
        decreases plan.mutations@.len() - i,
    {
        let m = &plan.mutations[i];
        let copy = FileMutation {
            action: m.action,
            file_path: m.file_path.clone(),
            strategy: m.strategy,
            content: m.content.clone(),
            description: m.description.clone(),
        };
        assert(copy.deep_view() =~= plan.deep_view().mutations[i as int]);
        let ghost cb = completed.deep_view();
        let ghost rb = remaining.deep_view();
        let ghost cm = copy.deep_view();
        if i < failed_at_index {
            completed.push(copy);
            assert(completed.deep_view() =~= cb.push(cm));
        } else {
            remaining.push(copy);
            assert(remaining.deep_view() =~= rb.push(cm));
        }
        i = i + 1;
        assert(completed.deep_view() =~= plan.deep_view().mutations.subrange(
            0,
            if i < failed_at_index {
                i as int
            } else {
                failed_at_index as int
            },
        ));
        assert(remaining.deep_view() =~= plan.deep_view().mutations.subrange(
            failed_at_index as int,
            if i < failed_at_index {
                failed_at_index as int
            } else {
                i as int
            },
        ));
    }
    crate::plan::ApplyFailureReport {
        plan,
        failed_at_index,
        error,
        completed_mutations: completed,
        remaining_mutations: remaining,
    }
}

} // verus!
