//! Plan generation: the pure, deterministic heart of the installer.
//! Given a registry entry, a target layout and a snapshot of existing
//! files, it produces the ordered mutations, advisory conflicts,
//! provenance actions and content checksums that install the component.
//! Nothing here touches a file system.

use vstd::prelude::*;

use crate::checksum::{simple_checksum, spec_checksum};
use crate::layout::TemplateAdapter;
use crate::plan::{
    Conflict, ConflictModel, FileAction, FileMutation, MutationModel, MutationStrategy, Operation,
    PlanContract, PlanModel, ProvenanceAction, ProvenanceModel,
};
use crate::registry::{EntryModel, RegistryEntry};
use crate::strutil::{contains_string, lower_seq, lowercase, push_char, str_chars, str_eq};

verus! {

/// The suffix of a path after its last `/` separator; the whole path
/// when it has none, and empty when it ends with a separator.
pub open spec fn after_last_slash(p: Seq<char>) -> Seq<char>
    decreases p.len(),
{
    if p.len() == 0 {
        p
    } else if p.last() == '/' {
        Seq::empty()
    } else {
        after_last_slash(p.drop_last()).push(p.last())
    }
}

/// The file name a source path installs as: the part after the last
/// separator, or `fallback` when that part is empty or a `..` segment.
pub open spec fn source_basename(path: Seq<char>, fallback: Seq<char>) -> Seq<char> {
    let b = after_last_slash(path);
    if b.len() == 0 || b == ".."@ {
        fallback
    } else {
        b
    }
}

/// `after_last_slash` is the suffix that starts right after the last
/// separator.
proof fn lemma_after_last_slash(p: Seq<char>, i: int)
    requires
        0 <= i <= p.len(),
        forall|j: int| i <= j < p.len() ==> p[j] != '/',
        i == 0 || p[i - 1] == '/',
    ensures
        after_last_slash(p) == p.subrange(i, p.len() as int),
    decreases p.len(),
{
    if p.len() == i {
        if i == 0 {
            assert(after_last_slash(p) =~= p.subrange(0, 0));
        } else {
            assert(p.last() == p[i - 1]);
            assert(after_last_slash(p) =~= p.subrange(i, p.len() as int));
        }
    } else {
        assert(p.last() == p[p.len() - 1]);
        assert(p[p.len() - 1] != '/');
        lemma_after_last_slash(p.drop_last(), i);
        assert(p.drop_last().subrange(i, p.len() - 1) =~= p.subrange(i, p.len() - 1));
        assert(p.subrange(i, p.len() - 1).push(p.last()) =~= p.subrange(i, p.len() as int));
    }
}

/// Computes the file name a source path installs as.
fn basename_of(path: &str, fallback: &str) -> (r: String)
    ensures
        r@ == source_basename(path@, fallback@),
{
    let chars = str_chars(path);
    let n = chars.len();
    // Find the position right after the last separator.
    let mut cut: usize = 0;
    let mut k: usize = 0;
    while k < n
        invariant
            chars@ == path@,
            n == chars@.len(),
            k <= n,
            cut <= k,
            cut == 0 || path@[cut - 1] == '/',
            forall|j: int| cut <= j < k ==> path@[j] != '/',
        decreases n - k,
    {
        if chars[k] == '/' {
            cut = k + 1;
        }
        k = k + 1;
    }
    proof {
        lemma_after_last_slash(path@, cut as int);
    }
    let mut b = String::new();
    let mut t: usize = cut;
    while t < n
        invariant
            chars@ == path@,
            n == chars@.len(),
            cut <= t <= n,
            b@ == path@.subrange(cut as int, t as int),
        decreases n - t,
    {
        push_char(&mut b, chars[t]);
        t = t + 1;
        assert(b@ =~= path@.subrange(cut as int, t as int));
    }
    assert(b@ == after_last_slash(path@));
    let empty = b.as_str().unicode_len() == 0;
    let dots = str_eq(b.as_str(), "..");
    if empty || dots {
        fallback.to_owned()
    } else {
        b
    }
}

/// The synthesized re-export stub installed for one source file.
pub open spec fn stub_content(
    name: Seq<char>,
    version: Seq<char>,
    source: Seq<char>,
    lower: Seq<char>,
) -> Seq<char> {
    "// Component: "@ + name + " v"@ + version + "\n// Source: "@ + source
        + "\n// This file was installed by `workbench add "@ + lower + "`\n\npub use "@ + lower
        + "::*;\n"@
}

/// The content of the component's own module file.
pub open spec fn mod_content(name: Seq<char>, lower: Seq<char>) -> Seq<char> {
    "//! "@ + name + " component module.\n\nmod "@ + lower + ";\npub use "@ + lower + "::*;\n"@
}

/// The description attached to a source-file creation.
pub open spec fn desc_install(name: Seq<char>) -> Seq<char> {
    "Install "@ + name + " component source"@
}

/// The description attached to the module-file creation.
pub open spec fn desc_mod(name: Seq<char>) -> Seq<char> {
    "Create "@ + name + " module file"@
}

/// The description attached to the export-line mutation.
pub open spec fn desc_export(name: Seq<char>) -> Seq<char> {
    "Add "@ + name + " export to shared UI module"@
}

/// The conflict reason for an already existing source file.
pub open spec fn reason_overwrite(filename: Seq<char>) -> Seq<char> {
    "File already exists at target path; would overwrite existing "@ + filename
}

/// The conflict reason for an already existing module file.
pub open spec fn reason_mod() -> Seq<char> {
    "Component mod.rs already exists; would overwrite"@
}

/// The license recorded in provenance actions.
pub open spec fn provenance_license() -> Seq<char> {
    "Apache-2.0 OR MIT"@
}

/// The modification note recorded in provenance actions.
pub open spec fn provenance_note(lower: Seq<char>) -> Seq<char> {
    "Installed via workbench add "@ + lower
}

/// The target path of the stub installed for a source file.
pub open spec fn target_path(dir: Seq<char>, source: Seq<char>, lower: Seq<char>) -> Seq<char> {
    dir + "/"@ + source_basename(source, lower + ".rs"@)
}

/// The creation mutation for one source file.
pub open spec fn file_mutation(entry: EntryModel, dir: Seq<char>, source: Seq<char>) -> MutationModel {
    let lower = lower_seq(entry.name);
    MutationModel {
        action: FileAction::Create,
        file_path: target_path(dir, source, lower),
        strategy: MutationStrategy::WriteFile,
        content: stub_content(entry.name, entry.version, source, lower),
        description: desc_install(entry.name),
    }
}

/// The creation mutations for the source files before index `i`.
pub open spec fn file_mutations_upto(entry: EntryModel, dir: Seq<char>, i: int) -> Seq<
    MutationModel,
>
    decreases i,
{
    if i <= 0 {
        Seq::empty()
    } else {
        file_mutations_upto(entry, dir, i - 1) + seq![
            file_mutation(entry, dir, entry.required_files[i - 1]),
        ]
    }
}

/// The conflicts detected for the source files before index `i`.
pub open spec fn file_conflicts_upto(
    entry: EntryModel,
    dir: Seq<char>,
    existing: Seq<Seq<char>>,
    i: int,
) -> Seq<ConflictModel>
    decreases i,
{
    if i <= 0 {
        Seq::empty()
    } else {
        let lower = lower_seq(entry.name);
        let source = entry.required_files[i - 1];
        file_conflicts_upto(entry, dir, existing, i - 1) + if existing.contains(
            target_path(dir, source, lower),
        ) {
            seq![
                ConflictModel {
                    file_path: target_path(dir, source, lower),
                    reason: reason_overwrite(source_basename(source, lower + ".rs"@)),
                },
            ]
        } else {
            Seq::empty()
        }
    }
}

/// The checksums recorded for the source files before index `i`: one
/// entry per target path, a later file with the same target replacing
/// the earlier record.
pub open spec fn file_checksums_upto(entry: EntryModel, dir: Seq<char>, i: int) -> Seq<
    (Seq<char>, Seq<char>),
>
    decreases i,
{
    if i <= 0 {
        Seq::empty()
    } else {
        let lower = lower_seq(entry.name);
        let source = entry.required_files[i - 1];
        crate::plan::sum_upsert(
            file_checksums_upto(entry, dir, i - 1),
            target_path(dir, source, lower),
            spec_checksum(stub_content(entry.name, entry.version, source, lower)),
        )
    }
}

/// The provenance actions for the source files before index `i`.
pub open spec fn provenance_upto(entry: EntryModel, dir: Seq<char>, i: int) -> Seq<ProvenanceModel>
    decreases i,
{
    if i <= 0 {
        Seq::empty()
    } else {
        let lower = lower_seq(entry.name);
        let source = entry.required_files[i - 1];
        provenance_upto(entry, dir, i - 1) + seq![
            ProvenanceModel {
                file_path: dir + "/"@ + source_basename(source, Seq::empty()),
                source: source,
                license: provenance_license(),
                modifications: provenance_note(lower),
            },
        ]
    }
}

/// The full plan generated for an entry: one creation per required
/// source file (in declared order), the component's module file, and
/// the export-line modification, with conflicts, checksums and
/// provenance derived in the same pass.
pub open spec fn spec_generate_plan(
    entry: EntryModel,
    dir: Seq<char>,
    module_file: Seq<char>,
    export_line: Seq<char>,
    layout_name: Seq<char>,
    existing: Seq<Seq<char>>,
) -> PlanModel {
    let lower = lower_seq(entry.name);
    let n = entry.required_files.len() as int;
    let mod_path = dir + "/mod.rs"@;
    let modc = mod_content(entry.name, lower);
    PlanModel {
        operation: Operation::Add,
        component_name: entry.name,
        component_version: entry.version,
        mutations: file_mutations_upto(entry, dir, n) + seq![
            MutationModel {
                action: FileAction::Create,
                file_path: mod_path,
                strategy: MutationStrategy::WriteFile,
                content: modc,
                description: desc_mod(entry.name),
            },
            MutationModel {
                action: FileAction::Modify,
                file_path: module_file,
                strategy: MutationStrategy::AppendExport,
                content: export_line,
                description: desc_export(entry.name),
            },
        ],
        conflicts: file_conflicts_upto(entry, dir, existing, n) + if existing.contains(mod_path) {
            seq![ConflictModel { file_path: mod_path, reason: reason_mod() }]
        } else {
            Seq::empty()
        },
        provenance_actions: provenance_upto(entry, dir, n),
        file_checksums: crate::plan::sum_upsert(
            file_checksums_upto(entry, dir, n),
            mod_path,
            spec_checksum(modc),
        ),
        target_layout: layout_name,
    }
}

/// One unfolding step of each per-file accumulator.
proof fn lemma_upto_step(em: EntryModel, dirs: Seq<char>, ex: Seq<Seq<char>>, i: int)
    requires
        0 < i,
    ensures
        file_mutations_upto(em, dirs, i) == file_mutations_upto(em, dirs, i - 1) + seq![
            file_mutation(em, dirs, em.required_files[i - 1]),
        ],
        file_checksums_upto(em, dirs, i) == crate::plan::sum_upsert(
            file_checksums_upto(em, dirs, i - 1),
            target_path(dirs, em.required_files[i - 1], lower_seq(em.name)),
            spec_checksum(
                stub_content(em.name, em.version, em.required_files[i - 1], lower_seq(em.name)),
            ),
        ),
        file_conflicts_upto(em, dirs, ex, i) == file_conflicts_upto(em, dirs, ex, i - 1) + if ex
            .contains(target_path(dirs, em.required_files[i - 1], lower_seq(em.name))) {
            seq![
                ConflictModel {
                    file_path: target_path(dirs, em.required_files[i - 1], lower_seq(em.name)),
                    reason: reason_overwrite(
                        source_basename(em.required_files[i - 1], lower_seq(em.name) + ".rs"@),
                    ),
                },
            ]
        } else {
            Seq::empty()
        },
        provenance_upto(em, dirs, i) == provenance_upto(em, dirs, i - 1) + seq![
            ProvenanceModel {
                file_path: dirs + "/"@ + source_basename(em.required_files[i - 1], Seq::empty()),
                source: em.required_files[i - 1],
                license: provenance_license(),
                modifications: provenance_note(lower_seq(em.name)),
            },
        ],
{
}

/// Builds the stub content installed for one source file.
fn build_stub_content(name: &str, version: &str, source: &str, lower: &str) -> (r: String)
    ensures
        r@ == stub_content(name@, version@, source@, lower@),
{
    let mut c = String::from_str("// Component: ");
    c.append(name);
    c.append(" v");
    c.append(version);
    c.append("\n// Source: ");
    c.append(source);
    c.append("\n// This file was installed by `workbench add ");
    c.append(lower);
    c.append("`\n\npub use ");
    c.append(lower);
    c.append("::*;\n");
    assert(c@ =~= stub_content(name@, version@, source@, lower@));
    c
}

/// Builds the component's module-file content.
fn build_mod_content(name: &str, lower: &str) -> (r: String)
    ensures
        r@ == mod_content(name@, lower@),
{
    let mut c = String::from_str("//! ");
    c.append(name);
    c.append(" component module.\n\nmod ");
    c.append(lower);
    c.append(";\npub use ");
    c.append(lower);
    c.append("::*;\n");
    assert(c@ =~= mod_content(name@, lower@));
    c
}

/// Concatenates two strings into a new one.
fn concat2(a: &str, b: &str) -> (r: String)
    ensures
        r@ == a@ + b@,
{
    let mut out = a.to_owned();
    out.append(b);
    out
}

/// Generates the installation plan for a component.
///
/// Deterministic and side-effect free: the result is a pure function of
/// the entry, the layout's answers, and the snapshot of existing files.
/// Conflicts never abort generation; they are advisory.
#[verifier::rlimit(100)]
#[verifier::spinoff_prover]
pub fn generate_plan<L: TemplateAdapter>(
    entry: &RegistryEntry,
    layout: &L,
    existing_files: &Vec<String>,
) -> (plan: PlanContract)
    ensures
        plan.deep_view() == spec_generate_plan(
            entry.deep_view(),
            layout.spec_component_dir(entry.name@),
            layout.spec_module_file(),
            layout.spec_export_line(entry.name@),
            layout.spec_name(),
            existing_files.deep_view(),
        ),
{
    let ghost em = entry.deep_view();
    let ghost dirs = layout.spec_component_dir(entry.name@);
    let ghost ex = existing_files.deep_view();
    let component_dir = layout.component_dir(entry.name.as_str());
    let lower = lowercase(entry.name.as_str());
    let ghost lw = lower_seq(em.name);

    let mut mutations: Vec<FileMutation> = Vec::new();
    let mut conflicts: Vec<Conflict> = Vec::new();
    let mut checksums: Vec<(String, String)> = Vec::new();

    let mut fallback = lower.clone();
    fallback.append(".rs");
    assert(fallback@ == lw + ".rs"@);

    let mut i: usize = 0;
    while i < entry.required_files.len()
        invariant
            em == entry.deep_view(),
            dirs == component_dir@,
            lw == lower@,
            lw == lower_seq(em.name),
            fallback@ == lw + ".rs"@,
            em.required_files.len() == entry.required_files@.len(),
            i <= em.required_files.len(),
            mutations.deep_view() =~= file_mutations_upto(em, dirs, i as int),
            conflicts.deep_view() =~= file_conflicts_upto(em, dirs, ex, i as int),
            checksums.deep_view() =~= file_checksums_upto(em, dirs, i as int),
            ex == existing_files.deep_view(),
        decreases em.required_files.len() - i,
    {
        let source = &entry.required_files[i];
        let ghost sm = em.required_files[i as int];
        assert(sm == source@);
        let filename = basename_of(source.as_str(), fallback.as_str());
        assert(filename@ == source_basename(sm, lw + ".rs"@));
        let mut target = component_dir.clone();
        target.append("/");
        target.append(filename.as_str());
        assert(target@ =~= target_path(dirs, sm, lw));

        let ghost muts0 = mutations.deep_view();
        let ghost confs0 = conflicts.deep_view();
        let ghost sums0 = checksums.deep_view();

        if contains_string(existing_files, target.as_str()) {
            let mut reason = String::from_str(
                "File already exists at target path; would overwrite existing ",
            );
            reason.append(filename.as_str());
            assert(reason@ =~= reason_overwrite(source_basename(sm, lw + ".rs"@)));
            let c = Conflict { file_path: target.clone(), reason };
            let ghost cmdl = c.deep_view();
            conflicts.push(c);
            assert(conflicts.deep_view() =~= confs0.push(cmdl));
        }

        let content = build_stub_content(
            entry.name.as_str(),
            entry.version.as_str(),
            source.as_str(),
            lower.as_str(),
        );
        assert(content@ == stub_content(em.name, em.version, sm, lw));
        let sum = simple_checksum(content.as_str());
        crate::plan::checksum_upsert(&mut checksums, target.clone(), sum);
        assert(checksums.deep_view() == crate::plan::sum_upsert(
            sums0,
            target_path(dirs, sm, lw),
            spec_checksum(stub_content(em.name, em.version, sm, lw)),
        ));

        let mut desc = String::from_str("Install ");
        desc.append(entry.name.as_str());
        desc.append(" component source");
        assert(desc@ =~= desc_install(em.name));

        let m = FileMutation {
            action: FileAction::Create,
            file_path: target,
            strategy: MutationStrategy::WriteFile,
            content,
            description: desc,
        };
        let ghost mmdl = m.deep_view();
        mutations.push(m);
        assert(mutations.deep_view() =~= muts0.push(mmdl));

        i = i + 1;
        proof {
            lemma_upto_step(em, dirs, ex, i as int);
            assert(mmdl =~= file_mutation(em, dirs, sm));
            assert(mutations.deep_view() =~= file_mutations_upto(em, dirs, i as int));
            assert(checksums.deep_view() =~= file_checksums_upto(em, dirs, i as int));
            assert(conflicts.deep_view() =~= file_conflicts_upto(em, dirs, ex, i as int));
        }
    }

    // The component's own module file.
    let mut mod_path = component_dir.clone();
    mod_path.append("/mod.rs");
    assert(mod_path@ =~= dirs + "/mod.rs"@);
    let modc = build_mod_content(entry.name.as_str(), lower.as_str());
    let mod_sum = simple_checksum(modc.as_str());
    let ghost sums1 = checksums.deep_view();
    crate::plan::checksum_upsert(&mut checksums, mod_path.clone(), mod_sum);
    assert(checksums.deep_view() == crate::plan::sum_upsert(
        sums1,
        dirs + "/mod.rs"@,
        spec_checksum(mod_content(em.name, lw)),
    ));

    let ghost confs1 = conflicts.deep_view();
    if contains_string(existing_files, mod_path.as_str()) {
        let c = Conflict {
            file_path: mod_path.clone(),
            reason: String::from_str("Component mod.rs already exists; would overwrite"),
        };
        let ghost cmdl = c.deep_view();
        conflicts.push(c);
        assert(conflicts.deep_view() =~= confs1.push(cmdl));
    }

    let mut mdesc = String::from_str("Create ");
    mdesc.append(entry.name.as_str());
    mdesc.append(" module file");
    assert(mdesc@ =~= desc_mod(em.name));
    let ghost muts1 = mutations.deep_view();
    let m1 = FileMutation {
        action: FileAction::Create,
        file_path: mod_path,
        strategy: MutationStrategy::WriteFile,
        content: modc,
        description: mdesc,
    };
    let ghost m1mdl = m1.deep_view();
    mutations.push(m1);
    assert(mutations.deep_view() =~= muts1.push(m1mdl));

    // The export line in the shared module file.
    let parent_mod = layout.module_file();
    let export_line = layout.export_line(entry.name.as_str());
    let mut edesc = String::from_str("Add ");
    edesc.append(entry.name.as_str());
    edesc.append(" export to shared UI module");
    assert(edesc@ =~= desc_export(em.name));
    let ghost muts2 = mutations.deep_view();
    let m2 = FileMutation {
        action: FileAction::Modify,
        file_path: parent_mod,
        strategy: MutationStrategy::AppendExport,
        content: export_line,
        description: edesc,
    };
    let ghost m2mdl = m2.deep_view();
    mutations.push(m2);
    assert(mutations.deep_view() =~= muts2.push(m2mdl));

    // Provenance actions, one per required source file.
    let mut provenance_actions: Vec<ProvenanceAction> = Vec::new();
    let mut j: usize = 0;
    while j < entry.required_files.len()
        invariant
            em == entry.deep_view(),
            dirs == component_dir@,
            lw == lower@,
            lw == lower_seq(em.name),
            em.required_files.len() == entry.required_files@.len(),
            j <= em.required_files.len(),
            provenance_actions.deep_view() =~= provenance_upto(em, dirs, j as int),
        decreases em.required_files.len() - j,
    {
        let source = &entry.required_files[j];
        let ghost sm = em.required_files[j as int];
        assert(sm == source@);
        let filename = basename_of(source.as_str(), "");
        proof {
            reveal_strlit("");
            assert(filename@ == source_basename(sm, Seq::empty()));
        }
        let mut target = component_dir.clone();
        target.append("/");
        target.append(filename.as_str());
        assert(target@ =~= dirs + "/"@ + source_basename(sm, Seq::empty()));
        let mut note = String::from_str("Installed via workbench add ");
        note.append(lower.as_str());
        assert(note@ =~= provenance_note(lw));
        let ghost provs0 = provenance_actions.deep_view();
        let pa = ProvenanceAction {
            file_path: target,
            source: source.clone(),
            license: String::from_str("Apache-2.0 OR MIT"),
            modifications: note,
        };
        let ghost pamdl = pa.deep_view();
        provenance_actions.push(pa);
        j = j + 1;
        proof {
            lemma_upto_step(em, dirs, ex, j as int);
            assert(pamdl =~= (ProvenanceModel {
                file_path: dirs + "/"@ + source_basename(sm, Seq::empty()),
                source: sm,
                license: provenance_license(),
                modifications: provenance_note(lw),
            }));
            assert(provenance_actions.deep_view() =~= provs0.push(pamdl));
            assert(provenance_actions.deep_view() =~= provenance_upto(em, dirs, j as int));
        }
    }

    let layout_name = layout.name();
    let plan = PlanContract {
        operation: Operation::Add,
        component_name: entry.name.clone(),
        component_version: entry.version.clone(),
        mutations,
        conflicts,
        provenance_actions,
        file_checksums: checksums,
        target_layout: layout_name,
    };
    proof {
        let s = spec_generate_plan(
            em,
            dirs,
            layout.spec_module_file(),
            layout.spec_export_line(entry.name@),
            layout.spec_name(),
            ex,
        );
        let n = em.required_files.len() as int;
        assert(plan.deep_view().mutations =~= s.mutations);
        assert(plan.deep_view().conflicts =~= s.conflicts);
        assert(plan.deep_view().provenance_actions =~= s.provenance_actions);
        assert(plan.deep_view().file_checksums =~= s.file_checksums);
        assert(plan.deep_view() =~= s);
    }
    plan
}

/// Lengths and elements of the per-file accumulators.
proof fn lemma_upto_index(em: EntryModel, dirs: Seq<char>, ex: Seq<Seq<char>>, i: int)
    requires
        0 <= i,
    ensures
        file_mutations_upto(em, dirs, i).len() == i,
        forall|k: int|
            0 <= k < i ==> #[trigger] file_mutations_upto(em, dirs, i)[k] == file_mutation(
                em,
                dirs,
                em.required_files[k],
            ),
    decreases i,
{
    if i > 0 {
        lemma_upto_index(em, dirs, ex, i - 1);
    }
}

/// Every target path before index `i` has a recorded checksum.
proof fn lemma_checksums_upto_present(em: EntryModel, dirs: Seq<char>, i: int)
    requires
        0 <= i,
    ensures
        forall|k: int|
            0 <= k < i ==> crate::plan::checksum_lookup(
                file_checksums_upto(em, dirs, i),
                #[trigger] target_path(dirs, em.required_files[k], lower_seq(em.name)),
            ) is Some,
    decreases i,
{
    if i > 0 {
        lemma_checksums_upto_present(em, dirs, i - 1);
        let prev = file_checksums_upto(em, dirs, i - 1);
        let tp = target_path(dirs, em.required_files[i - 1], lower_seq(em.name));
        let v = spec_checksum(
            stub_content(em.name, em.version, em.required_files[i - 1], lower_seq(em.name)),
        );
        crate::plan::lemma_lookup_after_upsert(prev, tp, v);
        assert forall|k: int|
            0 <= k < i implies crate::plan::checksum_lookup(
            file_checksums_upto(em, dirs, i),
            #[trigger] target_path(dirs, em.required_files[k], lower_seq(em.name)),
        ) is Some by {
            if k < i - 1 {
                crate::plan::lemma_lookup_preserved_by_upsert(
                    prev,
                    tp,
                    v,
                    target_path(dirs, em.required_files[k], lower_seq(em.name)),
                );
            }
        }
    }
}

/// With no pre-existing files there are no conflicts.
proof fn lemma_conflicts_upto_empty(em: EntryModel, dirs: Seq<char>, ex: Seq<Seq<char>>, i: int)
    requires
        ex.len() == 0,
    ensures
        file_conflicts_upto(em, dirs, ex, i).len() == 0,
    decreases i,
{
    if i > 0 {
        lemma_conflicts_upto_empty(em, dirs, ex, i - 1);
    }
}

/// Every pre-existing create target before index `i` has a conflict
/// recorded for it.
proof fn lemma_conflicts_upto_cover(em: EntryModel, dirs: Seq<char>, ex: Seq<Seq<char>>, i: int)
    requires
        0 <= i,
    ensures
        forall|k: int|
            0 <= k < i && ex.contains(
                #[trigger] target_path(dirs, em.required_files[k], lower_seq(em.name)),
            ) ==> exists|j: int|
                0 <= j < file_conflicts_upto(em, dirs, ex, i).len()
                    && #[trigger] file_conflicts_upto(em, dirs, ex, i)[j].file_path == target_path(
                    dirs,
                    em.required_files[k],
                    lower_seq(em.name),
                ),
    decreases i,
{
    if i > 0 {
        lemma_conflicts_upto_cover(em, dirs, ex, i - 1);
        let prev = file_conflicts_upto(em, dirs, ex, i - 1);
        let here = file_conflicts_upto(em, dirs, ex, i);
        assert forall|k: int|
            0 <= k < i && ex.contains(
                #[trigger] target_path(dirs, em.required_files[k], lower_seq(em.name)),
            ) implies exists|j: int|
                0 <= j < here.len() && #[trigger] here[j].file_path == target_path(
                dirs,
                em.required_files[k],
                lower_seq(em.name),
            ) by {
            let tp = target_path(dirs, em.required_files[k], lower_seq(em.name));
            if k < i - 1 {
                let j = choose|j: int| 0 <= j < prev.len() && #[trigger] prev[j].file_path == tp;
                assert(here[j].file_path == tp);
            } else {
                assert(here[prev.len() as int].file_path == tp);
            }
        }
    }
}

/// A key that occurs in a checksum list can be looked up.
proof fn lemma_lookup_present(cs: Seq<(Seq<char>, Seq<char>)>, x: Seq<char>)
    requires
        exists|j: int| 0 <= j < cs.len() && #[trigger] cs[j].0 == x,
    ensures
        crate::plan::checksum_lookup(cs, x) is Some,
    decreases cs.len(),
{
    if cs[0].0 != x {
        let j = choose|j: int| 0 <= j < cs.len() && #[trigger] cs[j].0 == x;
        assert(cs.drop_first()[j - 1].0 == x);
        lemma_lookup_present(cs.drop_first(), x);
    }
}

/// Determinism: plan generation is a pure function, so two generations
/// from the same entry, layout answers and file snapshot yield the same
/// plan model — and hence byte-identical serialized documents.
pub proof fn lemma_generate_plan_deterministic(
    p1: crate::plan::PlanModel,
    p2: crate::plan::PlanModel,
    entry: EntryModel,
    dir: Seq<char>,
    module_file: Seq<char>,
    export_line: Seq<char>,
    layout_name: Seq<char>,
    existing: Seq<Seq<char>>,
)
    requires
        p1 == spec_generate_plan(entry, dir, module_file, export_line, layout_name, existing),
        p2 == spec_generate_plan(entry, dir, module_file, export_line, layout_name, existing),
    ensures
        p1 == p2,
        crate::json::print_plan(p1) == crate::json::print_plan(p2),
{
}

/// Conflict detection: a generated plan records a conflict for every
/// create target that already exists in the file snapshot, and records
/// none at all when the snapshot is empty.
pub proof fn lemma_conflict_detection(
    entry: EntryModel,
    dir: Seq<char>,
    module_file: Seq<char>,
    export_line: Seq<char>,
    layout_name: Seq<char>,
    existing: Seq<Seq<char>>,
    plan: crate::plan::PlanModel,
)
    requires
        plan == spec_generate_plan(entry, dir, module_file, export_line, layout_name, existing),
    ensures
        existing.len() == 0 ==> plan.conflicts.len() == 0,
        forall|k: int|
            0 <= k < plan.mutations.len() && (#[trigger] plan.mutations[k]).action
                == FileAction::Create && existing.contains(plan.mutations[k].file_path)
                ==> exists|j: int|
                0 <= j < plan.conflicts.len() && (#[trigger] plan.conflicts[j]).file_path
                    == plan.mutations[k].file_path,
{
    let n = entry.required_files.len() as int;
    lemma_upto_index(entry, dir, existing, n);
    if existing.len() == 0 {
        lemma_conflicts_upto_empty(entry, dir, existing, n);
    }
    lemma_conflicts_upto_cover(entry, dir, existing, n);
    let confs_front = file_conflicts_upto(entry, dir, existing, n);
    let mod_path = dir + "/mod.rs"@;
    assert forall|k: int|
        0 <= k < plan.mutations.len() && (#[trigger] plan.mutations[k]).action
            == FileAction::Create && existing.contains(plan.mutations[k].file_path) implies exists|
        j: int,
    |
        0 <= j < plan.conflicts.len() && (#[trigger] plan.conflicts[j]).file_path
            == plan.mutations[k].file_path by {
        if k < n {
            assert(plan.mutations[k] == file_mutation(entry, dir, entry.required_files[k]));
            let tp = target_path(dir, entry.required_files[k], lower_seq(entry.name));
            let j = choose|j: int|
                0 <= j < confs_front.len() && #[trigger] confs_front[j].file_path == tp;
            assert(plan.conflicts[j].file_path == tp);
        } else if k == n {
            assert(plan.mutations[k].file_path == mod_path);
            assert(plan.conflicts[confs_front.len() as int].file_path == mod_path);
        } else {
            assert(plan.mutations[k].action == FileAction::Modify);
        }
    }
}

/// Checksum coverage: every create mutation's target path has an entry
/// in the generated plan's checksum list.
pub proof fn lemma_checksum_coverage(
    entry: EntryModel,
    dir: Seq<char>,
    module_file: Seq<char>,
    export_line: Seq<char>,
    layout_name: Seq<char>,
    existing: Seq<Seq<char>>,
    plan: crate::plan::PlanModel,
)
    requires
        plan == spec_generate_plan(entry, dir, module_file, export_line, layout_name, existing),
    ensures
        forall|k: int|
            0 <= k < plan.mutations.len() && (#[trigger] plan.mutations[k]).action
                == FileAction::Create ==> crate::plan::checksum_lookup(
                plan.file_checksums,
                plan.mutations[k].file_path,
            ) is Some,
{
    let n = entry.required_files.len() as int;
    lemma_upto_index(entry, dir, existing, n);
    lemma_checksums_upto_present(entry, dir, n);
    let sums_front = file_checksums_upto(entry, dir, n);
    let mod_path = dir + "/mod.rs"@;
    let mod_sum = spec_checksum(mod_content(entry.name, lower_seq(entry.name)));
    crate::plan::lemma_lookup_after_upsert(sums_front, mod_path, mod_sum);
    assert forall|k: int|
        0 <= k < plan.mutations.len() && (#[trigger] plan.mutations[k]).action
            == FileAction::Create implies crate::plan::checksum_lookup(
        plan.file_checksums,
        plan.mutations[k].file_path,
    ) is Some by {
        if k < n {
            assert(plan.mutations[k] == file_mutation(entry, dir, entry.required_files[k]));
            let tp = target_path(dir, entry.required_files[k], lower_seq(entry.name));
            crate::plan::lemma_lookup_preserved_by_upsert(sums_front, mod_path, mod_sum, tp);
        } else if k == n {
            assert(plan.mutations[k].file_path == mod_path);
        } else {
            assert(plan.mutations[k].action == FileAction::Modify);
        }
    }
}

} // verus!
