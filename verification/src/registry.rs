//! The component registry: a name-keyed catalog of installable
//! components, built from component contracts. Lookup is
//! case-insensitive; at most one entry exists per lowercase name, and
//! the latest registration wins.

use vstd::prelude::*;
use vstd::multiset::Multiset;

use crate::contracts::{ComponentContract, ComponentState, ContractModel, Disposition, PropDef, TokenRef};
use crate::contracts::{PropModel, TokenRefModel};
use crate::strutil::{lex_lt, lower_seq, lowercase, str_eq, str_lt};

verus! {

/// A registry entry: the flattened, installable summary of one
/// component's contract.
#[derive(Debug, Clone)]
pub struct RegistryEntry {
    /// Component name, as declared.
    pub name: String,
    /// Semver version string.
    pub version: String,
    /// Sourcing disposition.
    pub disposition: Disposition,
    /// Named visual variants.
    pub variants: Vec<String>,
    /// Interactive and visual states the component supports.
    pub states: Vec<ComponentState>,
    /// Prop definitions.
    pub props: Vec<PropDef>,
    /// Design-token dependencies.
    pub token_dependencies: Vec<TokenRef>,
    /// File paths required for installation.
    pub required_files: Vec<String>,
}

/// Mathematical model of a registry entry.
#[verifier::ext_equal]
pub struct EntryModel {
    pub name: Seq<char>,
    pub version: Seq<char>,
    pub disposition: Disposition,
    pub variants: Seq<Seq<char>>,
    pub states: Seq<ComponentState>,
    pub props: Seq<PropModel>,
    pub token_dependencies: Seq<TokenRefModel>,
    pub required_files: Seq<Seq<char>>,
}

impl DeepView for RegistryEntry {
    type V = EntryModel;

    open spec fn deep_view(&self) -> EntryModel {
        EntryModel {
            name: self.name@,
            version: self.version@,
            disposition: self.disposition,
            variants: self.variants.deep_view(),
            states: self.states.deep_view(),
            props: self.props.deep_view(),
            token_dependencies: self.token_dependencies.deep_view(),
            required_files: self.required_files.deep_view(),
        }
    }
}

/// The entry a contract flattens to.
pub open spec fn spec_entry_of(c: ContractModel) -> EntryModel {
    EntryModel {
        name: c.name,
        version: c.version,
        disposition: c.disposition,
        variants: c.variants,
        states: c.states,
        props: c.props,
        token_dependencies: c.token_dependencies,
        required_files: c.required_files,
    }
}

impl RegistryEntry {
    /// Flattens a component contract into a registry entry.
    pub fn from_contract(contract: &ComponentContract) -> (r: Self)
        ensures
            r.deep_view() == spec_entry_of(contract.deep_view()),
    {
        RegistryEntry {
            name: contract.name.clone(),
            version: contract.version.clone(),
            disposition: contract.disposition,
            variants: crate::strutil::clone_strings(&contract.variants),
            states: crate::contracts::clone_states(&contract.states),
            props: crate::contracts::clone_props(&contract.props),
            token_dependencies: crate::contracts::clone_tokens(&contract.token_dependencies),
            required_files: crate::strutil::clone_strings(&contract.required_files),
        }
    }
}

/// The index of the first entry whose lowercased name is `key`, or -1.
pub open spec fn find_entry(entries: Seq<EntryModel>, key: Seq<char>) -> int
    decreases entries.len(),
{
    if entries.len() == 0 {
        -1
    } else if lower_seq(entries[0].name) == key {
        0
    } else {
        let rest = find_entry(entries.drop_first(), key);
        if rest == -1 {
            -1
        } else {
            rest + 1
        }
    }
}

/// The component registry, indexing installable components by their
/// lowercased name.
#[derive(Debug, Clone)]
pub struct RegistryIndex {
    entries: Vec<RegistryEntry>,
}

impl RegistryIndex {
    /// Well-formedness: at most one entry per lowercase name.
    pub closed spec fn wf(&self) -> bool {
        forall|i: int, j: int|
            0 <= i < j < self.entries.deep_view().len() ==> lower_seq(
                self.entries.deep_view()[i].name,
            ) != lower_seq(self.entries.deep_view()[j].name)
    }

    /// The entries, in registration order.
    pub closed spec fn view_entries(&self) -> Seq<EntryModel> {
        self.entries.deep_view()
    }

    /// An empty registry index.
    pub fn new() -> (r: Self)
        ensures
            r.wf(),
            r.view_entries().len() == 0,
    {
        RegistryIndex { entries: Vec::new() }
    }

    /// Number of registered components.
    pub fn len(&self) -> (r: usize)
        ensures
            r == self.view_entries().len(),
    {
        self.entries.len()
    }

    /// Whether the registry is empty.
    pub fn is_empty(&self) -> (r: bool)
        ensures
            r == (self.view_entries().len() == 0),
    {
        self.entries.len() == 0
    }

    /// The position of the entry registered under the lowercased `name`,
    /// if any.
    fn position_of(&self, name: &str) -> (r: Option<usize>)
        ensures
            match r {
                Some(i) => 0 <= i < self.view_entries().len() && find_entry(
                    self.view_entries(),
                    lower_seq(name@),
                ) == i as int,
                None => find_entry(self.view_entries(), lower_seq(name@)) == -1,
            },
    {
        let key = lowercase(name);
        let ghost es = self.view_entries();
        proof {
            assert(es.subrange(0, es.len() as int) =~= es);
        }
        let mut i: usize = 0;
        while i < self.entries.len()
            invariant
                es == self.view_entries(),
                key@ == lower_seq(name@),
                i <= es.len(),
                es.len() == self.entries@.len(),
                find_entry(es, key@) == if find_entry(
                    es.subrange(i as int, es.len() as int),
                    key@,
                ) == -1 {
                    -1int
                } else {
                    find_entry(es.subrange(i as int, es.len() as int), key@) + i
                },
            decreases es.len() - i,
        {
            let ghost tail = es.subrange(i as int, es.len() as int);
            assert(tail[0] == es[i as int]);
            let lname = lowercase(self.entries[i].name.as_str());
            if str_eq(lname.as_str(), key.as_str()) {
                assert(find_entry(tail, key@) == 0);
                return Some(i);
            }
            proof {
                assert(tail.drop_first() =~= es.subrange(i + 1, es.len() as int));
                assert(lower_seq(tail[0].name) != key@);
                lemma_find_entry_bounds(es.subrange(i + 1, es.len() as int), key@);
                let rest = find_entry(es.subrange(i + 1, es.len() as int), key@);
                assert(find_entry(tail, key@) == if rest == -1 {
                    -1int
                } else {
                    rest + 1
                });
            }
            i = i + 1;
        }
        proof {
            assert(es.subrange(es.len() as int, es.len() as int) =~= Seq::<EntryModel>::empty());
        }
        None
    }

    /// Registers a component from its contract, indexed by lowercased
    /// name. Re-registering a name replaces the earlier entry in place
    /// (latest wins).
    pub fn register(&mut self, contract: &ComponentContract)
        requires
            old(self).wf(),
        ensures
            final(self).wf(),
            ({
                let key = lower_seq(contract.deep_view().name);
                let entry = spec_entry_of(contract.deep_view());
                let at = find_entry(old(self).view_entries(), key);
                if at == -1 {
                    final(self).view_entries() == old(self).view_entries().push(entry)
                } else {
                    final(self).view_entries() == old(self).view_entries().update(at, entry)
                }
            }),
    {
        let entry = RegistryEntry::from_contract(contract);
        let ghost key = lower_seq(contract.deep_view().name);
        let ghost before = self.view_entries();
        let pos = self.position_of(entry.name.as_str());
        match pos {
            Some(i) => {
                self.entries[i] = entry;
                proof {
                    assert(self.view_entries() =~= before.update(
                        i as int,
                        spec_entry_of(contract.deep_view()),
                    ));
                    lemma_find_entry_bounds(before, key);
                    assert forall|a: int, b: int|
                        0 <= a < b < self.view_entries().len() implies lower_seq(
                        self.view_entries()[a].name,
                    ) != lower_seq(self.view_entries()[b].name) by {
                        lemma_find_entry_found(before, key);
                        assert(lower_seq(before[a].name) != lower_seq(before[b].name));
                    }
                }
            },
            None => {
                self.entries.push(entry);
                proof {
                    assert(self.view_entries() =~= before.push(
                        spec_entry_of(contract.deep_view()),
                    ));
                    assert forall|a: int, b: int|
                        0 <= a < b < self.view_entries().len() implies lower_seq(
                        self.view_entries()[a].name,
                    ) != lower_seq(self.view_entries()[b].name) by {
                        if b == before.len() {
                            lemma_find_entry_none(before, key);
                        } else {
                            assert(lower_seq(before[a].name) != lower_seq(before[b].name));
                        }
                    }
                }
            },
        }
    }

    /// Looks up a component by name, case-insensitively.
    pub fn get(&self, name: &str) -> (r: Option<&RegistryEntry>)
        ensures
            match r {
                Some(e) => {
                    let at = find_entry(self.view_entries(), lower_seq(name@));
                    at != -1 && e.deep_view() == self.view_entries()[at]
                },
                None => find_entry(self.view_entries(), lower_seq(name@)) == -1,
            },
    {
        match self.position_of(name) {
            Some(i) => Some(&self.entries[i]),
            None => None,
        }
    }

    /// Removes a component by name, case-insensitively; returns the
    /// removed entry, if one was registered.
    pub fn remove(&mut self, name: &str) -> (r: Option<RegistryEntry>)
        requires
            old(self).wf(),
        ensures
            final(self).wf(),
            ({
                let at = find_entry(old(self).view_entries(), lower_seq(name@));
                let now = final(self).view_entries();
                match r {
                    Some(e) => at != -1 && e.deep_view() == old(self).view_entries()[at] && now
                        == old(self).view_entries().remove(at),
                    None => at == -1 && now == old(self).view_entries(),
                }
            }),
    {
        let ghost before = self.view_entries();
        match self.position_of(name) {
            Some(i) => {
                let e = self.entries.remove(i);
                proof {
                    assert(self.view_entries() =~= before.remove(i as int));
                    assert forall|a: int, b: int|
                        0 <= a < b < self.view_entries().len() implies lower_seq(
                        self.view_entries()[a].name,
                    ) != lower_seq(self.view_entries()[b].name) by {
                        let ra = if a < i as int {
                            a
                        } else {
                            a + 1
                        };
                        let rb = if b < i as int {
                            b
                        } else {
                            b + 1
                        };
                        assert(self.view_entries()[a] == before[ra]);
                        assert(self.view_entries()[b] == before[rb]);
                        assert(lower_seq(before[ra].name) != lower_seq(before[rb].name));
                    }
                }
                Some(e)
            },
            None => None,
        }
    }
}

/// A well-formed registry's entries have pairwise distinct lowercased
/// names.
pub proof fn lemma_wf_names_distinct(idx: &RegistryIndex)
    requires
        idx.wf(),
    ensures
        forall|i: int, j: int|
            0 <= i < j < idx.view_entries().len() ==> lower_seq(idx.view_entries()[i].name)
                != lower_seq(idx.view_entries()[j].name),
{
}

/// When no entry carries the key, `find_entry` finds nothing.
pub proof fn lemma_find_entry_absent(entries: Seq<EntryModel>, key: Seq<char>)
    requires
        forall|i: int| 0 <= i < entries.len() ==> lower_seq(entries[i].name) != key,
    ensures
        find_entry(entries, key) == -1,
    decreases entries.len(),
{
    if entries.len() > 0 {
        assert forall|i: int|
            0 <= i < entries.drop_first().len() implies lower_seq(
            entries.drop_first()[i].name,
        ) != key by {
            assert(entries.drop_first()[i] == entries[i + 1]);
        }
        lemma_find_entry_absent(entries.drop_first(), key);
    }
}

/// `find_entry` returns -1 or a valid index.
pub proof fn lemma_find_entry_bounds(entries: Seq<EntryModel>, key: Seq<char>)
    ensures
        find_entry(entries, key) == -1 || (0 <= find_entry(entries, key) < entries.len()),
    decreases entries.len(),
{
    if entries.len() > 0 && lower_seq(entries[0].name) != key {
        lemma_find_entry_bounds(entries.drop_first(), key);
    }
}

/// When `find_entry` finds an index, that entry has the key as its
/// lowercased name.
pub proof fn lemma_find_entry_found(entries: Seq<EntryModel>, key: Seq<char>)
    requires
        find_entry(entries, key) != -1,
    ensures
        0 <= find_entry(entries, key) < entries.len(),
        lower_seq(entries[find_entry(entries, key)].name) == key,
    decreases entries.len(),
{
    if entries.len() > 0 && lower_seq(entries[0].name) != key {
        lemma_find_entry_bounds(entries.drop_first(), key);
        lemma_find_entry_found(entries.drop_first(), key);
    }
}

/// When `find_entry` finds nothing, no entry has the key as its
/// lowercased name.
pub proof fn lemma_find_entry_none(entries: Seq<EntryModel>, key: Seq<char>)
    requires
        find_entry(entries, key) == -1,
    ensures
        forall|i: int| 0 <= i < entries.len() ==> lower_seq(entries[i].name) != key,
    decreases entries.len(),
{
    if entries.len() > 0 {
        if lower_seq(entries[0].name) != key {
            lemma_find_entry_bounds(entries.drop_first(), key);
            lemma_find_entry_none(entries.drop_first(), key);
            assert forall|i: int| 0 <= i < entries.len() implies lower_seq(entries[i].name)
                != key by {
                if i > 0 {
                    assert(entries.drop_first()[i - 1] == entries[i]);
                }
            }
        }
    }
}

/// The label used for a component state in summaries.
pub open spec fn state_label(s: ComponentState) -> Seq<char> {
    match s {
        ComponentState::Hover => "hover"@,
        ComponentState::Active => "active"@,
        ComponentState::Focused => "focused"@,
        ComponentState::Disabled => "disabled"@,
        ComponentState::Error => "error"@,
        ComponentState::Open => "open"@,
        ComponentState::Selected => "selected"@,
        ComponentState::Readonly => "readonly"@,
    }
}

/// The label used for a disposition in summaries.
pub open spec fn disposition_label(d: Disposition) -> Seq<char> {
    match d {
        Disposition::Reuse => "Reuse"@,
        Disposition::Fork => "Fork"@,
        Disposition::Rewrite => "Rewrite"@,
    }
}

/// The state labels joined with ", ".
pub open spec fn join_state_labels(states: Seq<ComponentState>) -> Seq<char>
    decreases states.len(),
{
    if states.len() == 0 {
        Seq::empty()
    } else if states.len() == 1 {
        state_label(states[0])
    } else {
        state_label(states[0]) + ", "@ + join_state_labels(states.drop_first())
    }
}

/// The one-line summary of an entry.
pub open spec fn spec_summary(e: EntryModel) -> Seq<char> {
    e.name + " v"@ + e.version + " ("@ + disposition_label(e.disposition) + ") -- "@
        + crate::strutil::dec_str(e.props.len()) + " props, "@ + crate::strutil::dec_str(
        e.states.len(),
    ) + " states ["@ + join_state_labels(e.states) + "], "@ + crate::strutil::dec_str(
        e.required_files.len(),
    ) + " files"@
}

/// Appends a state label.
fn append_state_label(out: &mut String, s: ComponentState)
    ensures
        final(out)@ == old(out)@ + state_label(s),
{
    match s {
        ComponentState::Hover => out.append("hover"),
        ComponentState::Active => out.append("active"),
        ComponentState::Focused => out.append("focused"),
        ComponentState::Disabled => out.append("disabled"),
        ComponentState::Error => out.append("error"),
        ComponentState::Open => out.append("open"),
        ComponentState::Selected => out.append("selected"),
        ComponentState::Readonly => out.append("readonly"),
    }
}

/// Appends the joined state labels from index `i` on.
fn append_state_labels(out: &mut String, v: &Vec<ComponentState>, i: usize)
    requires
        i < v@.len(),
    ensures
        final(out)@ == old(out)@ + join_state_labels(v@.skip(i as int)),
    decreases v@.len() - i,
{
    let ghost s = v@.skip(i as int);
    proof {
        assert(s[0] == v@[i as int]);
        assert(s.drop_first() =~= v@.skip(i + 1));
    }
    append_state_label(out, v[i]);
    if i < v.len() - 1 {
        out.append(", ");
        append_state_labels(out, v, i + 1);
        assert(out@ =~= old(out)@ + join_state_labels(s));
    } else {
        assert(s.len() == 1);
        assert(out@ =~= old(out)@ + join_state_labels(s));
    }
}

impl RegistryEntry {
    /// A short human-readable summary line for listing output.
    pub fn summary(&self) -> (r: String)
        ensures
            r@ == spec_summary(self.deep_view()),
    {
        let mut out = self.name.clone();
        out.append(" v");
        out.append(self.version.as_str());
        out.append(" (");
        match self.disposition {
            Disposition::Reuse => out.append("Reuse"),
            Disposition::Fork => out.append("Fork"),
            Disposition::Rewrite => out.append("Rewrite"),
        }
        out.append(") -- ");
        let np = crate::strutil::usize_to_string(self.props.len());
        out.append(np.as_str());
        out.append(" props, ");
        let ns = crate::strutil::usize_to_string(self.states.len());
        out.append(ns.as_str());
        out.append(" states [");
        proof {
            assert(self.states.deep_view() =~= self.states@);
        }
        if self.states.len() > 0 {
            append_state_labels(&mut out, &self.states, 0);
            proof {
                assert(self.states@.skip(0) =~= self.states@);
            }
        }
        out.append("], ");
        let nf = crate::strutil::usize_to_string(self.required_files.len());
        out.append(nf.as_str());
        out.append(" files");
        assert(out@ =~= spec_summary(self.deep_view()));
        out
    }

    /// A field-by-field copy of the entry.
    pub fn duplicate(&self) -> (r: Self)
        ensures
            r.deep_view() == self.deep_view(),
    {
        RegistryEntry {
            name: self.name.clone(),
            version: self.version.clone(),
            disposition: self.disposition,
            variants: crate::strutil::clone_strings(&self.variants),
            states: crate::contracts::clone_states(&self.states),
            props: crate::contracts::clone_props(&self.props),
            token_dependencies: crate::contracts::clone_tokens(&self.token_dependencies),
            required_files: crate::strutil::clone_strings(&self.required_files),
        }
    }
}

/// Lexicographic order is irreflexive.
proof fn lemma_lex_irrefl(a: Seq<char>)
    ensures
        !lex_lt(a, a),
    decreases a.len(),
{
    if a.len() > 0 {
        lemma_lex_irrefl(a.drop_first());
    }
}

/// Lexicographic order is transitive.
proof fn lemma_lex_trans(a: Seq<char>, b: Seq<char>, c: Seq<char>)
    requires
        lex_lt(a, b),
        lex_lt(b, c),
    ensures
        lex_lt(a, c),
    decreases a.len() + b.len() + c.len(),
{
    if a.len() > 0 && b.len() > 0 && (a[0] as u32) == (b[0] as u32) && c.len() > 0 && (b[0] as u32)
        == (c[0] as u32) {
        lemma_lex_trans(a.drop_first(), b.drop_first(), c.drop_first());
    }
}

/// No later entry's name is lexicographically below an earlier one's.
pub open spec fn sorted_by_name(s: Seq<EntryModel>) -> bool {
    forall|i: int, j: int| 0 <= i < j < s.len() ==> !lex_lt(s[j].name, s[i].name)
}

/// No later string is lexicographically below an earlier one.
pub open spec fn sorted_strings(s: Seq<Seq<char>>) -> bool {
    forall|i: int, j: int| 0 <= i < j < s.len() ==> !lex_lt(s[j], s[i])
}

impl RegistryIndex {
    /// All registered entries, sorted lexicographically by name: the
    /// result is a name-ordered permutation of the registered entries.
    pub fn list(&self) -> (r: Vec<RegistryEntry>)
        ensures
            sorted_by_name(r.deep_view()),
            r.deep_view().to_multiset() == self.view_entries().to_multiset(),
    {
        let mut work: Vec<RegistryEntry> = Vec::new();
        proof {
            assert(work.deep_view() =~= self.view_entries().subrange(0, 0));
        }
        let mut i: usize = 0;
        while i < self.entries.len()
            invariant
                i <= self.entries@.len(),
                work.deep_view() =~= self.view_entries().subrange(0, i as int),
            decreases self.entries@.len() - i,
        {
            let ghost wb = work.deep_view();
            let d = self.entries[i].duplicate();
            let ghost dm = d.deep_view();
            work.push(d);
            proof {
                assert(work.deep_view() =~= wb.push(dm));
            }
            i = i + 1;
            assert(work.deep_view() =~= self.view_entries().subrange(0, i as int));
        }
        assert(work.deep_view() =~= self.view_entries());
        let ghost all = self.view_entries();
        let mut out: Vec<RegistryEntry> = Vec::new();
        proof {
            out.deep_view().to_multiset_ensures();
            work.deep_view().to_multiset_ensures();
            assert(out.deep_view().to_multiset().add(work.deep_view().to_multiset()) =~= all.to_multiset());
        }
        while work.len() > 0
            invariant
                sorted_by_name(out.deep_view()),
                out.deep_view().to_multiset().add(work.deep_view().to_multiset())
                    == all.to_multiset(),
                forall|a: int, b: int|
                    0 <= a < out.deep_view().len() && 0 <= b < work.deep_view().len() ==> !lex_lt(
                        work.deep_view()[b].name,
                        out.deep_view()[a].name,
                    ),
            decreases work@.len(),
        {
            let mut m: usize = 0;
            let mut k: usize = 1;
            proof {
                lemma_lex_irrefl(work.deep_view()[0].name);
            }
            while k < work.len()
                invariant
                    m < work@.len(),
                    k <= work@.len(),
                    forall|j: int|
                        0 <= j < k ==> !lex_lt(
                            work.deep_view()[j].name,
                            work.deep_view()[m as int].name,
                        ),
                decreases work@.len() - k,
            {
                let kw = str_lt(work[k].name.as_str(), work[m].name.as_str());
                proof {
                    if kw {
                        assert forall|j: int|
                            0 <= j < k + 1 implies !lex_lt(
                            work.deep_view()[j].name,
                            work.deep_view()[k as int].name,
                        ) by {
                            lemma_lex_irrefl(work.deep_view()[k as int].name);
                            if j < k {
                                if lex_lt(work.deep_view()[j].name, work.deep_view()[k as int].name) {
                                    lemma_lex_trans(
                                        work.deep_view()[j].name,
                                        work.deep_view()[k as int].name,
                                        work.deep_view()[m as int].name,
                                    );
                                }
                            }
                        }
                    }
                }
                if kw {
                    m = k;
                }
                k = k + 1;
            }
            let ghost outb = out.deep_view();
            let ghost workb = work.deep_view();
            let x = work.remove(m);
            let ghost xm = x.deep_view();
            out.push(x);
            proof {
                assert(out.deep_view() =~= outb.push(xm));
                assert(work.deep_view() =~= workb.remove(m as int));
                outb.to_multiset_ensures();
                workb.to_multiset_ensures();
                assert(outb.push(xm).to_multiset() =~= outb.to_multiset().insert(xm));
                assert(workb.remove(m as int).to_multiset() =~= workb.to_multiset().remove(xm));
                assert(outb.to_multiset().insert(xm).add(workb.to_multiset().remove(xm))
                    =~= outb.to_multiset().add(workb.to_multiset()));
                assert forall|a: int, b: int|
                    0 <= a < out.deep_view().len() && 0 <= b < work.deep_view().len()
                        implies !lex_lt(
                        work.deep_view()[b].name,
                        out.deep_view()[a].name,
                    ) by {
                    let wb = if b < m as int {
                        b
                    } else {
                        b + 1
                    };
                    assert(work.deep_view()[b] == workb[wb]);
                    if a < outb.len() {
                        assert(out.deep_view()[a] == outb[a]);
                    } else {
                        assert(out.deep_view()[a] == xm);
                        assert(!lex_lt(workb[wb].name, xm.name));
                    }
                }
                assert forall|a: int, b: int|
                    0 <= a < b < out.deep_view().len() implies !lex_lt(
                    out.deep_view()[b].name,
                    out.deep_view()[a].name,
                ) by {
                    if b < outb.len() {
                        assert(out.deep_view()[a] == outb[a] && out.deep_view()[b] == outb[b]);
                    } else {
                        assert(out.deep_view()[b] == xm);
                        assert(out.deep_view()[a] == outb[a]);
                        assert(!lex_lt(workb[m as int].name, outb[a].name));
                    }
                }
            }
        }
        proof {
            work.deep_view().to_multiset_ensures();
            assert(work.deep_view() =~= Seq::<EntryModel>::empty());
            assert(work.deep_view().to_multiset() =~= Multiset::<EntryModel>::empty());
            assert(out.deep_view().to_multiset() =~= all.to_multiset());
        }
        out
    }

    /// All registered component names, sorted lexicographically: the
    /// result is an ordered permutation of the registered names.
    pub fn names(&self) -> (r: Vec<String>)
        ensures
            sorted_strings(r.deep_view()),
            r.deep_view().to_multiset() == self.view_entries().map_values(
                |e: EntryModel| e.name,
            ).to_multiset(),
    {
        let sorted = self.list();
        let ghost sm = sorted.deep_view();
        let mut r: Vec<String> = Vec::new();
        proof {
            assert(r.deep_view() =~= sm.subrange(0, 0).map_values(|e: EntryModel| e.name));
        }
        let mut i: usize = 0;
        while i < sorted.len()
            invariant
                sm == sorted.deep_view(),
                i <= sm.len(),
                r.deep_view() =~= sm.subrange(0, i as int).map_values(|e: EntryModel| e.name),
            decreases sm.len() - i,
        {
            let ghost rb = r.deep_view();
            r.push(sorted[i].name.clone());
            proof {
                assert(r.deep_view() =~= rb.push(sm[i as int].name));
            }
            i = i + 1;
            assert(r.deep_view() =~= sm.subrange(0, i as int).map_values(
                |e: EntryModel| e.name,
            ));
        }
        assert(sm.subrange(0, sm.len() as int) =~= sm);
        assert(r.deep_view() =~= sm.map_values(|e: EntryModel| e.name));
        proof {
            lemma_map_values_multiset(sm, self.view_entries());
        }
        r
    }
}

/// Mapping a permutation yields a permutation of the mapped values.
proof fn lemma_map_values_multiset(s1: Seq<EntryModel>, s2: Seq<EntryModel>)
    requires
        s1.to_multiset() == s2.to_multiset(),
    ensures
        s1.map_values(|e: EntryModel| e.name).to_multiset() == s2.map_values(
            |e: EntryModel| e.name,
        ).to_multiset(),
    decreases s1.len(),
{
    s1.to_multiset_ensures();
    s2.to_multiset_ensures();
    if s1.len() == 0 {
        assert(s2.to_multiset().len() == 0);
        assert(s2.len() == 0);
        assert(s1.map_values(|e: EntryModel| e.name) =~= s2.map_values(|e: EntryModel| e.name));
    } else {
        let x = s1[0];
        assert(s1.to_multiset().contains(x)) by {
            assert(s1.contains(x));
        }
        assert(s2.to_multiset().contains(x));
        assert(s2.contains(x));
        let j = choose|j: int| 0 <= j < s2.len() && s2[j] == x;
        let s1r = s1.remove(0);
        let s2r = s2.remove(j);
        assert(s1r.to_multiset() =~= s1.to_multiset().remove(x));
        assert(s2r.to_multiset() =~= s2.to_multiset().remove(x));
        lemma_map_values_multiset(s1r, s2r);
        let f = |e: EntryModel| e.name;
        assert(s1.map_values(f).remove(0) =~= s1r.map_values(f));
        assert(s2.map_values(f).remove(j) =~= s2r.map_values(f));
        s1.map_values(f).to_multiset_ensures();
        s2.map_values(f).to_multiset_ensures();
        assert(s1r.map_values(f).to_multiset() =~= s1.map_values(f).to_multiset().remove(x.name));
        assert(s2r.map_values(f).to_multiset() =~= s2.map_values(f).to_multiset().remove(x.name));
        assert(s1.map_values(f).to_multiset().contains(x.name)) by {
            assert(s1.map_values(f)[0] == x.name);
            assert(s1.map_values(f).contains(x.name));
        }
        assert(s2.map_values(f).to_multiset().contains(x.name)) by {
            assert(s2.map_values(f)[j] == x.name);
            assert(s2.map_values(f).contains(x.name));
        }
        assert(s1.map_values(f).to_multiset() =~= s2.map_values(f).to_multiset()) by {
            let m1 = s1.map_values(f).to_multiset();
            let m2 = s2.map_values(f).to_multiset();
            assert(m1.remove(x.name) =~= m2.remove(x.name));
            assert forall|y: Seq<char>| m1.count(y) == m2.count(y) by {
                if y == x.name {
                    assert(m1.remove(x.name).count(y) == m1.count(y) - 1);
                    assert(m2.remove(x.name).count(y) == m2.count(y) - 1);
                } else {
                    assert(m1.remove(x.name).count(y) == m1.count(y));
                    assert(m2.remove(x.name).count(y) == m2.count(y));
                }
            }
        }
    }
}

/// The registry contents after registering one more entry: replace the
/// earlier entry with the same lowercase name, or append.
pub open spec fn register_step(acc: Seq<EntryModel>, e: EntryModel) -> Seq<EntryModel> {
    let at = find_entry(acc, lower_seq(e.name));
    if at == -1 {
        acc.push(e)
    } else {
        acc.update(at, e)
    }
}

/// The registry contents after registering a list of entries in order.
pub open spec fn spec_fold_entries(acc: Seq<EntryModel>, es: Seq<EntryModel>) -> Seq<EntryModel>
    decreases es.len(),
{
    if es.len() == 0 {
        acc
    } else {
        spec_fold_entries(register_step(acc, es[0]), es.drop_first())
    }
}

impl RegistryIndex {
    /// Registers a ready-made entry under its lowercased name; the
    /// latest registration wins.
    pub fn register_entry(&mut self, entry: RegistryEntry)
        requires
            old(self).wf(),
        ensures
            final(self).wf(),
            final(self).view_entries() == register_step(
                old(self).view_entries(),
                entry.deep_view(),
            ),
    {
        let ghost em = entry.deep_view();
        let ghost key = lower_seq(em.name);
        let ghost before = self.view_entries();
        let pos = self.position_of(entry.name.as_str());
        match pos {
            Some(i) => {
                self.entries[i] = entry;
                proof {
                    assert(self.view_entries() =~= before.update(i as int, em));
                    lemma_find_entry_bounds(before, key);
                    assert forall|a: int, b: int|
                        0 <= a < b < self.view_entries().len() implies lower_seq(
                        self.view_entries()[a].name,
                    ) != lower_seq(self.view_entries()[b].name) by {
                        lemma_find_entry_found(before, key);
                        assert(lower_seq(before[a].name) != lower_seq(before[b].name));
                    }
                }
            },
            None => {
                self.entries.push(entry);
                proof {
                    assert(self.view_entries() =~= before.push(em));
                    assert forall|a: int, b: int|
                        0 <= a < b < self.view_entries().len() implies lower_seq(
                        self.view_entries()[a].name,
                    ) != lower_seq(self.view_entries()[b].name) by {
                        if b == before.len() {
                            lemma_find_entry_none(before, key);
                        } else {
                            assert(lower_seq(before[a].name) != lower_seq(before[b].name));
                        }
                    }
                }
            },
        }
    }

    /// Builds a registry from a list of entries, registering them in
    /// order (the latest entry per lowercase name wins).
    pub fn from_entries(entries: Vec<RegistryEntry>) -> (r: Self)
        ensures
            r.wf(),
            r.view_entries() == spec_fold_entries(Seq::empty(), entries.deep_view()),
    {
        let ghost es = entries.deep_view();
        let mut idx = RegistryIndex::new();
        let mut entries = entries;
        let mut i: usize = 0;
        proof {
            assert(idx.view_entries() =~= Seq::<EntryModel>::empty());
            assert(es.skip(0) =~= es);
        }
        while i < entries.len()
            invariant
                es == entries.deep_view(),
                i <= es.len(),
                es.len() == entries@.len(),
                idx.wf(),
                spec_fold_entries(Seq::empty(), es) == spec_fold_entries(
                    idx.view_entries(),
                    es.skip(i as int),
                ),
            decreases es.len() - i,
        {
            let ghost before = idx.view_entries();
            let ghost tail = es.skip(i as int);
            let e = entries[i].duplicate();
            assert(e.deep_view() == es[i as int]);
            assert(tail[0] == es[i as int]);
            idx.register_entry(e);
            proof {
                assert(tail.drop_first() =~= es.skip(i + 1));
                assert(spec_fold_entries(before, tail) == spec_fold_entries(
                    register_step(before, es[i as int]),
                    es.skip(i + 1),
                ));
            }
            i = i + 1;
        }
        proof {
            assert(es.skip(es.len() as int) =~= Seq::<EntryModel>::empty());
        }
        idx
    }

    /// A copy of the registered entries, in registration order.
    pub fn snapshot(&self) -> (r: Vec<RegistryEntry>)
        ensures
            r.deep_view() == self.view_entries(),
    {
        let mut out: Vec<RegistryEntry> = Vec::new();
        proof {
            assert(out.deep_view() =~= self.view_entries().subrange(0, 0));
        }
        let mut i: usize = 0;
        while i < self.entries.len()
            invariant
                i <= self.entries@.len(),
                out.deep_view() =~= self.view_entries().subrange(0, i as int),
            decreases self.entries@.len() - i,
        {
            let ghost ob = out.deep_view();
            let d = self.entries[i].duplicate();
            let ghost dm = d.deep_view();
            out.push(d);
            proof {
                assert(out.deep_view() =~= ob.push(dm));
            }
            i = i + 1;
            assert(out.deep_view() =~= self.view_entries().subrange(0, i as int));
        }
        proof {
            assert(out.deep_view() =~= self.view_entries());
        }
        out
    }
}

} // verus!
