//! Bounded multi-step abstraction and reuse.
//!
//! Deterministic, offline and shadow-only. Concrete chain programs are
//! synthesized by exhaustive enumeration of the bindings of a task's
//! vocabulary; validated examples are factored through a frozen four-schema
//! meta-grammar; and an admitted abstraction must be proof-bound before it
//! can be reused on a new task.
use vstd::prelude::*;
use crate::atom::{
    atoms_contains, atoms_distinct, atoms_equal, atoms_view, bindings_view, copy_atoms, Atom,
};
use crate::combinatorics::{
    catalan, catalan_spec, factorial, factorial_spec, lemma_catalan_mono, lemma_factorial_mono,
    lemma_perms_len, lemma_perms_unique, occ, perm_blocks, perms, prepend_all, sat_mul,
    sat_mul_spec, is_arrangement_of,
};
use crate::digest::{hash_text, hash_text_spec, mix64, mix64_spec, rotl, rotl_spec};

verus! {

broadcast use vstd::string::group_string_axioms;

/// Everything that can refuse a task, a proof, a certificate or an admission.
#[derive(Debug, Clone, PartialEq, Eq)]
pub enum AbstractionReuseError {
    EmptyTask,
    ArityTooSmall,
    VocabularyMismatch,
    PositiveCountMismatch,
    ConcreteProofMismatch,
    ConcreteExactCount { expected: usize, actual: usize },
    NoConcreteSolution,
    ParentValidation(String),
    WrongParentKind,
    ParentLineageMismatch,
    ParentRegistryMismatch,
    WrongExampleCount,
    WrongExampleSupport,
    DuplicateExampleRoot,
    NoAbstraction,
    AbstractionProofMismatch,
    AbstractionGate(&'static str),
    ForeignAbstractionCertificate,
    WrongAbstractionKind,
    DuplicateAbstractionAdmission,
    RawSchemaInjection,
    AbstractionNotAdmitted,
    ReuseProofMismatch,
    ReuseGate(&'static str),
    NoReuseSolution,
    ForeignReuseCertificate,
    AbstractionRegistryMismatch,
    DuplicateReuseAdmission,
    BudgetInvariant,
    InvariantViolation(String),
}

/// One labeled history of a chain task.
#[derive(Debug, Clone, PartialEq, Eq)]
pub struct LabeledChainHistory {
    pub history_id: u64,
    pub events: Vec<Atom>,
    pub positive: bool,
}

/// A chain task: discovery histories for one root.
#[derive(Debug, Clone, PartialEq, Eq)]
pub struct ChainTask {
    pub root_id: u64,
    pub discovery: Vec<LabeledChainHistory>,
}

/// The texts of a history's events.
pub open spec fn events_of(h: LabeledChainHistory) -> Seq<Seq<char>> {
    atoms_view(h.events@)
}

/// How many histories are labeled positive.
pub open spec fn positive_count(d: Seq<LabeledChainHistory>) -> nat
    decreases d.len(),
{
    if d.len() == 0 {
        0
    } else {
        positive_count(d.drop_last()) + if d.last().positive {
            1nat
        } else {
            0nat
        }
    }
}

/// `h` uses exactly the vocabulary `v`, as many events as `v` has.
pub open spec fn same_vocabulary(h: Seq<Seq<char>>, v: Seq<Seq<char>>) -> bool {
    h.len() == v.len() && h.to_set() == v.to_set()
}

/// Why a task is refused, if it is: no histories; a first history shorter
/// than three; repeated events in the first history; not exactly one
/// positive history; or a history whose events differ from the first's as a
/// set or in number.
pub open spec fn task_error(task: ChainTask) -> Option<AbstractionReuseError> {
    let d = task.discovery@;
    if d.len() == 0 {
        Some(AbstractionReuseError::EmptyTask)
    } else if d[0].events@.len() < 3 {
        Some(AbstractionReuseError::ArityTooSmall)
    } else if !events_of(d[0]).no_duplicates() {
        Some(AbstractionReuseError::VocabularyMismatch)
    } else if positive_count(d) != 1 {
        Some(AbstractionReuseError::PositiveCountMismatch)
    } else if exists|i: int|
        0 <= i < d.len() && !same_vocabulary(events_of(#[trigger] d[i]), events_of(d[0])) {
        Some(AbstractionReuseError::VocabularyMismatch)
    } else {
        None
    }
}

/// Whether `h` uses exactly the vocabulary `v`.
fn same_vocabulary_exec(h: &[Atom], v: &[Atom]) -> (b: bool)
    ensures
        b == same_vocabulary(atoms_view(h@), atoms_view(v@)),
{
    let hv = Ghost(atoms_view(h@));
    let vv = Ghost(atoms_view(v@));
    if h.len() != v.len() {
        return false;
    }
    let mut i: usize = 0;
    while i < h.len()
        invariant
            i <= h@.len(),
            hv@ == atoms_view(h@),
            vv@ == atoms_view(v@),
            forall|j: int| 0 <= j < i ==> vv@.contains(#[trigger] hv@[j]),
        decreases h@.len() - i,
    {
        if !atoms_contains(v, &h[i]) {
            assert(hv@.to_set().contains(hv@[i as int]));
            assert(!vv@.to_set().contains(hv@[i as int]));
            return false;
        }
        i = i + 1;
    }
    let mut k: usize = 0;
    while k < v.len()
        invariant
            k <= v@.len(),
            hv@ == atoms_view(h@),
            vv@ == atoms_view(v@),
            forall|j: int| 0 <= j < hv@.len() ==> vv@.contains(#[trigger] hv@[j]),
            forall|j: int| 0 <= j < k ==> hv@.contains(#[trigger] vv@[j]),
        decreases v@.len() - k,
    {
        if !atoms_contains(h, &v[k]) {
            assert(vv@.to_set().contains(vv@[k as int]));
            assert(!hv@.to_set().contains(vv@[k as int]));
            return false;
        }
        k = k + 1;
    }
    assert(hv@.to_set() =~= vv@.to_set()) by {
        assert forall|x: Seq<char>| hv@.to_set().contains(x) implies vv@.to_set().contains(x) by {
            let j = choose|j: int| 0 <= j < hv@.len() && hv@[j] == x;
            assert(vv@.contains(hv@[j]));
        }
        assert forall|x: Seq<char>| vv@.to_set().contains(x) implies hv@.to_set().contains(x) by {
            let j = choose|j: int| 0 <= j < vv@.len() && vv@[j] == x;
            assert(hv@.contains(vv@[j]));
        }
    }
    true
}

/// Checks a task and returns its vocabulary: the events of its first history.
fn validate_task(task: &ChainTask) -> (r: Result<Vec<Atom>, AbstractionReuseError>)
    ensures
        match r {
            Ok(v) => task_error(*task) is None && atoms_view(v@) == events_of(task.discovery@[0]),
            Err(e) => task_error(*task) == Some(e),
        },
{
    let d = &task.discovery;
    if d.len() == 0 {
        return Err(AbstractionReuseError::EmptyTask);
    }
    let first = &d[0];
    if first.events.len() < 3 {
        return Err(AbstractionReuseError::ArityTooSmall);
    }
    if !atoms_distinct(first.events.as_slice()) {
        return Err(AbstractionReuseError::VocabularyMismatch);
    }
    let mut positives: usize = 0;
    let mut i: usize = 0;
    while i < d.len()
        invariant
            i <= d@.len(),
            positives == positive_count(d@.subrange(0, i as int)),
            positives <= i,
        decreases d@.len() - i,
    {
        assert(d@.subrange(0, i as int + 1).drop_last() =~= d@.subrange(0, i as int));
        if d[i].positive {
            positives = positives + 1;
        }
        i = i + 1;
    }
    assert(d@.subrange(0, d@.len() as int) =~= d@);
    if positives != 1 {
        return Err(AbstractionReuseError::PositiveCountMismatch);
    }
    let mut k: usize = 0;
    while k < d.len()
        invariant
            k <= d@.len(),
            d@ == task.discovery@,
            d@.len() > 0,
            *first == d@[0],
            d@[0].events@.len() >= 3,
            events_of(d@[0]).no_duplicates(),
            positive_count(d@) == 1,
            forall|j: int|
                0 <= j < k ==> same_vocabulary(events_of(#[trigger] d@[j]), events_of(d@[0])),
        decreases d@.len() - k,
    {
        if !same_vocabulary_exec(d[k].events.as_slice(), first.events.as_slice()) {
            assert(!same_vocabulary(events_of(d@[k as int]), events_of(d@[0])));
            return Err(AbstractionReuseError::VocabularyMismatch);
        }
        k = k + 1;
    }
    Ok(copy_atoms(first.events.as_slice()))
}

/// `"chain("`, the texts joined by commas, `")"`.
pub open spec fn canonical_spec(b: Seq<Seq<char>>) -> Seq<char> {
    "chain("@ + join_commas(b) + ")"@
}

/// The texts joined by commas.
pub open spec fn join_commas(s: Seq<Seq<char>>) -> Seq<char>
    decreases s.len(),
{
    if s.len() == 0 {
        Seq::empty()
    } else if s.len() == 1 {
        s[0]
    } else {
        join_commas(s.drop_last()) + ","@ + s.last()
    }
}

/// The consecutive pairs of a binding.
pub open spec fn edges_spec(b: Seq<Seq<char>>) -> Seq<(Seq<char>, Seq<char>)> {
    Seq::new((b.len() - 1) as nat, |i: int| (b[i], b[i + 1]))
}

/// The texts of a sequence of atom pairs.
pub open spec fn pairs_view(s: Seq<(Atom, Atom)>) -> Seq<(Seq<char>, Seq<char>)> {
    s.map_values(|p: (Atom, Atom)| (p.0@, p.1@))
}

/// A concrete chain program: the atoms it binds, in order.
#[derive(Debug, Clone, PartialEq, Eq, PartialOrd, Ord)]
pub struct BoundChainProgram {
    binding: Vec<Atom>,
}

impl View for BoundChainProgram {
    type V = Seq<Seq<char>>;

    closed spec fn view(&self) -> Seq<Seq<char>> {
        atoms_view(self.binding@)
    }
}

impl BoundChainProgram {
    /// The bound atoms, in order.
    pub fn binding(&self) -> (b: &[Atom])
        ensures
            atoms_view(b@) == self@,
    {
        self.binding.as_slice()
    }

    /// How many atoms the program binds.
    pub fn arity(&self) -> (n: usize)
        ensures
            n == self@.len(),
    {
        self.binding.len()
    }

    /// Whether a history is exactly the bound chain.
    pub fn execute(&self, events: &[Atom]) -> (b: bool)
        ensures
            b == (atoms_view(events@) == self@),
    {
        atoms_equal(events, self.binding.as_slice())
    }

    /// `chain(a,b,...)`.
    pub fn canonical_string(&self) -> (s: String)
        ensures
            s@ == canonical_spec(self@),
    {
        let b = Ghost(self@);
        let mut s = String::new();
        s.append("chain(");
        let mut i: usize = 0;
        while i < self.binding.len()
            invariant
                b@ == atoms_view(self.binding@),
                i <= b@.len(),
                s@ == "chain("@ + join_commas(b@.subrange(0, i as int)),
            decreases b@.len() - i,
        {
            let ghost prev = b@.subrange(0, i as int);
            let ghost next = b@.subrange(0, i as int + 1);
            assert(next.drop_last() =~= prev);
            if i > 0 {
                s.append(",");
            } else {
                assert(prev =~= Seq::<Seq<char>>::empty());
            }
            s.append(self.binding[i].as_str());
            i = i + 1;
        }
        s.append(")");
        assert(b@.subrange(0, b@.len() as int) =~= b@);
        s
    }

    /// The consecutive pairs of the binding.
    fn edge_signature(&self) -> (r: Vec<(Atom, Atom)>)
        requires
            self@.len() >= 1,
        ensures
            pairs_view(r@) == edges_spec(self@),
    {
        let mut r: Vec<(Atom, Atom)> = Vec::new();
        let mut i: usize = 0;
        let last = self.binding.len() - 1;
        while i < last
            invariant
                self@.len() >= 1,
                last == self@.len() - 1,
                self@.len() == self.binding@.len(),
                i <= last,
                r@.len() == i,
                forall|k: int|
                    0 <= k < i ==> (#[trigger] r@[k]).0@ == self@[k] && r@[k].1@ == self@[k + 1],
            decreases last - i,
        {
            let pair = (self.binding[i].duplicate(), self.binding[i + 1].duplicate());
            r.push(pair);
            i = i + 1;
        }
        assert(pairs_view(r@) =~= edges_spec(self@));
        r
    }

    /// A program binding copies of the given atoms.
    fn from_atoms(atoms: &[Atom]) -> (p: BoundChainProgram)
        ensures
            p@ == atoms_view(atoms@),
    {
        BoundChainProgram { binding: copy_atoms(atoms) }
    }

    /// A copy of the program.
    pub fn duplicate(&self) -> (p: BoundChainProgram)
        ensures
            p@ == self@,
    {
        BoundChainProgram { binding: copy_atoms(self.binding.as_slice()) }
    }
}

/// Appends to `out`, in enumeration order, `prefix` followed by each
/// permutation of `remaining`.
fn visit(prefix: &mut Vec<Atom>, remaining: &mut Vec<Atom>, out: &mut Vec<Vec<Atom>>)
    ensures
        final(prefix)@ == old(prefix)@,
        final(remaining)@ == old(remaining)@,
        bindings_view(final(out)@) == bindings_view(old(out)@) + perms(
            atoms_view(old(remaining)@),
        ).map_values(|p: Seq<Seq<char>>| atoms_view(old(prefix)@) + p),
    decreases old(remaining)@.len(),
{
    let ghost r0 = atoms_view(remaining@);
    let ghost p0 = atoms_view(prefix@);
    let ghost out0 = bindings_view(out@);
    if remaining.len() == 0 {
        let copy = copy_atoms(prefix.as_slice());
        out.push(copy);
        proof {
            assert(r0 =~= Seq::<Seq<char>>::empty());
            assert(p0 + Seq::<Seq<char>>::empty() =~= p0);
            assert(bindings_view(out@) =~= out0 + perms(r0).map_values(
                |p: Seq<Seq<char>>| p0 + p,
            ));
        }
        return;
    }
    let n = remaining.len();
    let mut index: usize = 0;
    while index < n
        invariant
            n == remaining@.len(),
            n == r0.len(),
            n > 0,
            index <= n,
            atoms_view(remaining@) == r0,
            remaining@ == old(remaining)@,
            prefix@ == old(prefix)@,
            atoms_view(prefix@) == p0,
            bindings_view(out@) == out0 + perm_blocks(r0, index as nat).map_values(
                |p: Seq<Seq<char>>| p0 + p,
            ),
        decreases n - index,
    {
        let ghost out_before = bindings_view(out@);
        let value = remaining.remove(index);
        let dup = value.duplicate();
        prefix.push(dup);
        proof {
            assert(atoms_view(remaining@) =~= r0.remove(index as int));
            assert(atoms_view(prefix@) =~= p0.push(r0[index as int]));
        }
        visit(prefix, remaining, out);
        prefix.pop();
        remaining.insert(index, value);
        proof {
            assert(prefix@ =~= old(prefix)@);
            assert(remaining@ =~= old(remaining)@);
            let f = |p: Seq<Seq<char>>| p0 + p;
            let g = |p: Seq<Seq<char>>| p0.push(r0[index as int]) + p;
            let rest = perms(r0.remove(index as int));
            let block = prepend_all(r0[index as int], rest);
            assert(block.map_values(f) =~= rest.map_values(g)) by {
                assert forall|k: int| 0 <= k < rest.len() implies #[trigger] block.map_values(
                    f,
                )[k] == rest.map_values(g)[k] by {
                    assert(p0 + (seq![r0[index as int]] + rest[k]) =~= p0.push(r0[index as int])
                        + rest[k]);
                }
            }
            assert(perm_blocks(r0, (index + 1) as nat) == perm_blocks(r0, index as nat) + block);
            assert(perm_blocks(r0, (index + 1) as nat).map_values(f) =~= perm_blocks(
                r0,
                index as nat,
            ).map_values(f) + block.map_values(f));
            assert(bindings_view(out@) =~= out0 + perm_blocks(r0, (index + 1) as nat).map_values(
                f,
            ));
        }
        index = index + 1;
    }
}

/// Every binding of the given atoms, in enumeration order.
fn permutations(values: &[Atom]) -> (out: Vec<Vec<Atom>>)
    ensures
        bindings_view(out@) == perms(atoms_view(values@)),
{
    let mut out: Vec<Vec<Atom>> = Vec::new();
    let mut prefix: Vec<Atom> = Vec::new();
    let mut remaining = copy_atoms(values);
    visit(&mut prefix, &mut remaining, &mut out);
    proof {
        let ps = perms(atoms_view(values@));
        assert(atoms_view(prefix@) =~= Seq::<Seq<char>>::empty());
        assert(bindings_view(Seq::<Vec<Atom>>::empty()) =~= Seq::<Seq<Seq<char>>>::empty());
        let f = |p: Seq<Seq<char>>| Seq::<Seq<char>>::empty() + p;
        let m = ps.map_values(f);
        assert(m =~= ps) by {
            assert forall|k: int| 0 <= k < ps.len() implies #[trigger] m[k] == ps[k] by {
                assert(Seq::<Seq<char>>::empty() + ps[k] =~= ps[k]);
            }
        }
    }
    out
}

/// Counters of the work concrete synthesis did.
#[derive(Debug, Clone, PartialEq, Eq)]
pub struct ConcreteSynthesisBudget {
    pub tasks: usize,
    pub candidate_programs: usize,
    pub program_history_evaluations: usize,
}

impl Default for ConcreteSynthesisBudget {
    fn default() -> (b: Self)
        ensures
            b.tasks == 0,
            b.candidate_programs == 0,
            b.program_history_evaluations == 0,
    {
        ConcreteSynthesisBudget { tasks: 0, candidate_programs: 0, program_history_evaluations: 0 }
    }
}

/// The proof that a concrete chain program solves a task.
#[derive(Debug, Clone, PartialEq, Eq)]
pub struct ConcreteChainProof {
    pub proof_id: u64,
    pub root_id: u64,
    pub problem_digest: u64,
    pub arity: usize,
    pub candidate_programs: usize,
    pub program_history_evaluations: usize,
    pub exact_candidates: usize,
    pub tree_shape_rank: usize,
    pub node_cost: usize,
    pub program: BoundChainProgram,
}

/// `a + k`, or `usize::MAX` where the sum does not fit.
pub open spec fn sat_add_spec(a: int, k: int) -> int {
    if a + k > usize::MAX {
        usize::MAX as int
    } else {
        a + k
    }
}

/// The events of the history labeled positive.
pub open spec fn positive_events(d: Seq<LabeledChainHistory>) -> Seq<Seq<char>> {
    events_of(d[choose|i: int| 0 <= i < d.len() && d[i].positive])
}

/// Some negative history has exactly the positive history's events.
pub open spec fn negative_repeats(d: Seq<LabeledChainHistory>) -> bool {
    exists|i: int|
        0 <= i < d.len() && !d[i].positive && events_of(#[trigger] d[i]) == positive_events(d)
}

/// A binding is exact when it matches every positive history and no negative one.
pub open spec fn exact_spec(d: Seq<LabeledChainHistory>, b: Seq<Seq<char>>) -> bool {
    forall|i: int| 0 <= i < d.len() ==> ((events_of(#[trigger] d[i]) == b) == d[i].positive)
}

proof fn lemma_no_positive(d: Seq<LabeledChainHistory>)
    requires
        positive_count(d) == 0,
    ensures
        forall|i: int| 0 <= i < d.len() ==> !(#[trigger] d[i]).positive,
    decreases d.len(),
{
    if d.len() > 0 {
        lemma_no_positive(d.drop_last());
        assert forall|i: int| 0 <= i < d.len() implies !(#[trigger] d[i]).positive by {
            if i < d.len() - 1 {
                assert(d.drop_last()[i] == d[i]);
            }
        }
    }
}

/// With exactly one positive history, there is one index that holds it.
proof fn lemma_single_positive(d: Seq<LabeledChainHistory>) -> (p: int)
    requires
        positive_count(d) == 1,
    ensures
        0 <= p < d.len(),
        d[p].positive,
        forall|i: int| 0 <= i < d.len() && (#[trigger] d[i]).positive ==> i == p,
    decreases d.len(),
{
    let last = d.len() - 1;
    if d.last().positive {
        lemma_no_positive(d.drop_last());
        assert forall|i: int| 0 <= i < d.len() && (#[trigger] d[i]).positive implies i == last by {
            if i < last {
                assert(d.drop_last()[i] == d[i]);
            }
        }
        last
    } else {
        let p = lemma_single_positive(d.drop_last());
        assert(d[p] == d.drop_last()[p]);
        assert forall|i: int| 0 <= i < d.len() && (#[trigger] d[i]).positive implies i == p by {
            if i < last {
                assert(d.drop_last()[i] == d[i]);
            }
        }
        p
    }
}

/// A binding is exact exactly when it is the positive history's events and no
/// negative history repeats them.
proof fn lemma_exact_iff(d: Seq<LabeledChainHistory>, b: Seq<Seq<char>>)
    requires
        positive_count(d) == 1,
    ensures
        exact_spec(d, b) == (b == positive_events(d) && !negative_repeats(d)),
{
    let p = lemma_single_positive(d);
    assert(positive_events(d) == events_of(d[p]));
    if exact_spec(d, b) {
        assert((events_of(d[p]) == b) == d[p].positive);
        assert(!negative_repeats(d));
    }
    if b == positive_events(d) && !negative_repeats(d) {
        assert forall|i: int| 0 <= i < d.len() implies ((events_of(#[trigger] d[i]) == b)
            == d[i].positive) by {
            if d[i].positive {
                assert(i == p);
            }
        }
    }
}

/// The positive history arranges the vocabulary of a valid task.
proof fn lemma_positive_is_arrangement(task: ChainTask)
    requires
        task_error(task) is None,
    ensures
        is_arrangement_of(positive_events(task.discovery@), events_of(task.discovery@[0])),
{
    let d = task.discovery@;
    let p = lemma_single_positive(d);
    let v = events_of(d[0]);
    let x = events_of(d[p]);
    assert(positive_events(d) == x);
    assert(same_vocabulary(events_of(d[p]), v));
    v.unique_seq_to_set();
    assert(x.to_set().len() == x.len());
    x.lemma_no_dup_set_cardinality();
    assert forall|i: int| 0 <= i < x.len() implies v.contains(#[trigger] x[i]) by {
        assert(x.to_set().contains(x[i]));
    }
}

/// The digest of a sequence of atom texts, continued from `h`.
pub open spec fn digest_atoms(h: u64, atoms: Seq<Seq<char>>) -> u64
    decreases atoms.len(),
{
    if atoms.len() == 0 {
        h
    } else {
        mix64_spec(digest_atoms(h, atoms.drop_last()) ^ hash_text_spec(atoms.last()))
    }
}

/// The digest of a sequence of histories, continued from `h`.
pub open spec fn digest_histories(h: u64, d: Seq<LabeledChainHistory>) -> u64
    decreases d.len(),
{
    if d.len() == 0 {
        h
    } else {
        let last = d.last();
        digest_atoms(
            mix64_spec(
                digest_histories(h, d.drop_last()) ^ last.history_id ^ if last.positive {
                    1u64
                } else {
                    0u64
                },
            ),
            events_of(last),
        )
    }
}

/// The digest of a task: its root, then each history and its events.
pub open spec fn digest_task_spec(task: ChainTask) -> u64 {
    digest_histories(mix64_spec(task.root_id ^ 0x0a63_1001u64), task.discovery@)
}

fn digest_task(task: &ChainTask) -> (r: u64)
    ensures
        r == digest_task_spec(*task),
{
    let d = &task.discovery;
    let mut hash = mix64(task.root_id ^ 0x0a63_1001u64);
    let mut i: usize = 0;
    while i < d.len()
        invariant
            i <= d@.len(),
            d@ == task.discovery@,
            hash == digest_histories(mix64_spec(task.root_id ^ 0x0a63_1001u64), d@.subrange(0, i as int)),
        decreases d@.len() - i,
    {
        let ghost before = hash;
        assert(d@.subrange(0, i as int + 1).drop_last() =~= d@.subrange(0, i as int));
        let bit: u64 = if d[i].positive { 1 } else { 0 };
        hash = mix64(hash ^ d[i].history_id ^ bit);
        let ghost start = hash;
        let events = &d[i].events;
        let mut k: usize = 0;
        while k < events.len()
            invariant
                k <= events@.len(),
                hash == digest_atoms(start, atoms_view(events@).subrange(0, k as int)),
            decreases events@.len() - k,
        {
            assert(atoms_view(events@).subrange(0, k as int + 1).drop_last() =~= atoms_view(
                events@,
            ).subrange(0, k as int));
            hash = mix64(hash ^ hash_text(events[k].as_str()));
            k = k + 1;
        }
        assert(atoms_view(events@).subrange(0, events@.len() as int) =~= atoms_view(events@));
        i = i + 1;
    }
    assert(d@.subrange(0, d@.len() as int) =~= d@);
    hash
}

/// The identifier of a concrete proof.
pub open spec fn concrete_proof_id_spec(
    digest: u64,
    root_id: u64,
    arity: u64,
    canonical: Seq<char>,
) -> u64 {
    mix64_spec(digest ^ rotl_spec(root_id, 7) ^ rotl_spec(arity, 19) ^ hash_text_spec(canonical))
}

/// How many candidate programs concrete synthesis tries for arity `n`:
/// every binding, under every tree shape.
pub open spec fn concrete_candidates_spec(n: nat) -> int {
    sat_mul_spec(factorial_spec(n) as int, catalan_spec((n - 3) as nat) as int)
}

/// The arity of a task: the length of its first history.
pub open spec fn task_arity(task: ChainTask) -> nat {
    task.discovery@[0].events@.len()
}

/// Why concrete synthesis refuses a task, if it does: the task is invalid, or
/// a negative history repeats the positive one, so no candidate is exact.
pub open spec fn concrete_failure(task: ChainTask) -> Option<AbstractionReuseError> {
    match task_error(task) {
        Some(e) => Some(e),
        None => if negative_repeats(task.discovery@) {
            Some(
                AbstractionReuseError::ConcreteExactCount {
                    expected: catalan_spec((task_arity(task) - 3) as nat) as usize,
                    actual: 0,
                },
            )
        } else {
            None
        },
    }
}

/// `p` is the concrete proof for `task`: the positive history is the program,
/// under the first of its tree shapes.
pub open spec fn is_concrete_proof_of(task: ChainTask, p: ConcreteChainProof) -> bool {
    let d = task.discovery@;
    let n = task_arity(task);
    &&& p.root_id == task.root_id
    &&& p.arity == n
    &&& p.candidate_programs == concrete_candidates_spec(n)
    &&& p.program_history_evaluations == sat_mul_spec(p.candidate_programs as int, d.len() as int)
    &&& p.exact_candidates == catalan_spec((n - 3) as nat)
    &&& p.tree_shape_rank == 0
    &&& p.node_cost == 2 * n - 5
    &&& p.program@ == positive_events(d)
    &&& p.problem_digest == digest_task_spec(task)
    &&& p.proof_id == concrete_proof_id_spec(
        p.problem_digest,
        task.root_id,
        n as u64,
        canonical_spec(positive_events(d)),
    )
}

/// What a concrete search adds to its budget.
pub open spec fn concrete_budget_after(
    task: ChainTask,
    before: ConcreteSynthesisBudget,
    after: ConcreteSynthesisBudget,
) -> bool {
    let n = task_arity(task);
    let tried = factorial_spec(n) * catalan_spec((n - 3) as nat);
    if task_error(task) is Some {
        after == before
    } else {
        &&& after.tasks == sat_add_spec(before.tasks as int, 1)
        &&& after.candidate_programs == sat_add_spec(before.candidate_programs as int, tried as int)
        &&& after.program_history_evaluations == sat_add_spec(
            before.program_history_evaluations as int,
            (tried * task.discovery@.len()) as int,
        )
    }
}

/// The inputs on which concrete search completes: a valid task whose
/// factorial and Catalan counts fit in a machine word.
pub open spec fn concrete_search_fits(task: ChainTask) -> bool {
    task_error(task) is None ==> {
        &&& factorial_spec(task_arity(task)) <= usize::MAX
        &&& catalan_spec((task_arity(task) - 3) as nat) <= usize::MAX
    }
}

/// Whether `(a, ra)` comes before `(b, rb)`: first by text, then by rank.
fn key_less(a: &str, ra: usize, b: &str, rb: usize) -> (r: bool)
    ensures
        r == (crate::text::seq_lt(a@, b@) || (a@ == b@ && ra < rb)),
{
    if crate::text::str_lt(a, b) {
        return true;
    }
    let ac = crate::text::chars_of(a);
    let bc = crate::text::chars_of(b);
    crate::text::chars_equal(ac.as_slice(), bc.as_slice()) && ra < rb
}

/// Saturating additions compose.
proof fn lemma_sat_add_assoc(a: int, x: int, y: int)
    requires
        0 <= a <= usize::MAX,
        x >= 0,
        y >= 0,
    ensures
        sat_add_spec(sat_add_spec(a, x), y) == sat_add_spec(a, x + y),
{
}

/// The counters of a finished search cover the counts it expects.
proof fn lemma_budget_covers(c0: int, e0: int, f: int, s: int, l: int)
    requires
        c0 >= 0,
        e0 >= 0,
        f >= 1,
        s >= 1,
        l >= 1,
    ensures
        sat_add_spec(c0, f * s) >= sat_mul_spec(f, s),
        sat_add_spec(e0, f * s * l) >= sat_mul_spec(sat_mul_spec(f, s), l),
{
    let t = f * s;
    assert(t >= 1) by (nonlinear_arith)
        requires
            t == f * s,
            f >= 1,
            s >= 1,
    ;
    assert(t * l >= t) by (nonlinear_arith)
        requires
            t >= 1,
            l >= 1,
    ;
    assert(f * s * l == t * l);
    if t > usize::MAX {
        assert(usize::MAX * l >= usize::MAX) by (nonlinear_arith)
            requires
                l >= 1,
        ;
    }
}

/// Runs one program against every history, counting each run; whether it is exact.
fn run_histories(
    program: &BoundChainProgram,
    d: &Vec<LabeledChainHistory>,
    evaluations: &mut usize,
) -> (exact: bool)
    ensures
        exact == exact_spec(d@, program@),
        *final(evaluations) == sat_add_spec(*old(evaluations) as int, d@.len() as int),
{
    let mut exact = true;
    let mut h: usize = 0;
    while h < d.len()
        invariant
            h <= d@.len(),
            *evaluations == sat_add_spec(*old(evaluations) as int, h as int),
            exact == (forall|i: int|
                0 <= i < h ==> ((events_of(#[trigger] d@[i]) == program@) == d@[i].positive)),
        decreases d@.len() - h,
    {
        *evaluations = (*evaluations).saturating_add(1);
        if program.execute(d[h].events.as_slice()) != d[h].positive {
            exact = false;
        }
        h = h + 1;
    }
    exact
}

/// Tries one binding under each of `shapes` tree shapes, keeping the exact
/// candidate with the smallest key `(canonical text, shape rank)`.
fn try_shapes(
    program: &BoundChainProgram,
    d: &Vec<LabeledChainHistory>,
    shapes: usize,
    budget: &mut ConcreteSynthesisBudget,
    exact_candidates: &mut usize,
    winner: &mut Option<(BoundChainProgram, usize)>,
)
    requires
        shapes >= 1,
        exact_spec(d@, program@) ==> *old(exact_candidates) == 0 && (*old(winner)) is None,
    ensures
        final(budget).tasks == old(budget).tasks,
        final(budget).candidate_programs == sat_add_spec(
            old(budget).candidate_programs as int,
            shapes as int,
        ),
        final(budget).program_history_evaluations == sat_add_spec(
            old(budget).program_history_evaluations as int,
            shapes * d@.len(),
        ),
        !exact_spec(d@, program@) ==> *final(exact_candidates) == *old(exact_candidates)
            && *final(winner) == *old(winner),
        exact_spec(d@, program@) ==> *final(exact_candidates) == shapes,
        exact_spec(d@, program@) ==> (*final(winner) matches Some(w) && w.0@ == program@ && w.1
            == 0),
{
    let ghost is_exact = exact_spec(d@, program@);
    let ghost c0 = old(budget).candidate_programs as int;
    let ghost e0 = old(budget).program_history_evaluations as int;
    let ghost len = d@.len() as int;
    let mut shape_rank: usize = 0;
    while shape_rank < shapes
        invariant
            is_exact == exact_spec(d@, program@),
            len == d@.len(),
            shape_rank <= shapes,
            budget.tasks == old(budget).tasks,
            budget.candidate_programs == sat_add_spec(c0, shape_rank as int),
            budget.program_history_evaluations == sat_add_spec(e0, shape_rank * len),
            0 <= c0 <= usize::MAX,
            0 <= e0 <= usize::MAX,
            !is_exact ==> *exact_candidates == *old(exact_candidates) && *winner == *old(winner),
            is_exact ==> *exact_candidates == shape_rank,
            is_exact && shape_rank == 0 ==> *winner is None,
            is_exact && shape_rank > 0 ==> (*winner matches Some(w) && w.0@ == program@ && w.1
                == 0),
        decreases shapes - shape_rank,
    {
        proof {
            lemma_sat_add_assoc(c0, shape_rank as int, 1);
            lemma_sat_add_assoc(e0, shape_rank * len, len);
            assert(shape_rank * len + len == (shape_rank + 1) * len) by (nonlinear_arith);
            assert(shape_rank * len >= 0) by (nonlinear_arith)
                requires
                    len >= 0,
            ;
        }
        budget.candidate_programs = budget.candidate_programs.saturating_add(1);
        let exact = run_histories(program, d, &mut budget.program_history_evaluations);
        if exact {
            *exact_candidates = *exact_candidates + 1;
            let canon = program.canonical_string();
            let replace = match &*winner {
                None => true,
                Some(w) => {
                    let current = w.0.canonical_string();
                    proof {
                        crate::text::lemma_seq_lt_irreflexive(canon@);
                    }
                    key_less(canon.as_str(), shape_rank, current.as_str(), w.1)
                },
            };
            if replace {
                *winner = Some((program.duplicate(), shape_rank));
            }
        }
        shape_rank = shape_rank + 1;
    }
}

/// Tries every enumerated binding under every tree shape.
fn enumerate_bindings(
    all: &Vec<Vec<Atom>>,
    d: &Vec<LabeledChainHistory>,
    shapes: usize,
    budget: &mut ConcreteSynthesisBudget,
) -> (r: (usize, Option<(BoundChainProgram, usize)>))
    requires
        shapes >= 1,
        d@.len() >= 1,
        positive_count(d@) == 1,
        occ(bindings_view(all@), positive_events(d@)) == 1,
    ensures
        r.0 == if negative_repeats(d@) {
            0
        } else {
            shapes as int
        },
        negative_repeats(d@) ==> r.1 is None,
        !negative_repeats(d@) ==> (r.1 matches Some(w) && w.0@ == positive_events(d@) && w.1 == 0),
        final(budget).tasks == old(budget).tasks,
        final(budget).candidate_programs == sat_add_spec(
            old(budget).candidate_programs as int,
            all@.len() * shapes,
        ),
        final(budget).program_history_evaluations == sat_add_spec(
            old(budget).program_history_evaluations as int,
            all@.len() * shapes * d@.len(),
        ),
{
    let ghost dv = d@;
    let ghost ps = bindings_view(all@);
    let ghost pos = positive_events(dv);
    let ghost neg = negative_repeats(dv);
    let ghost c0 = old(budget).candidate_programs as int;
    let ghost e0 = old(budget).program_history_evaluations as int;
    let ghost len = dv.len() as int;
    let mut exact_candidates: usize = 0;
    let mut winner: Option<(BoundChainProgram, usize)> = None;
    proof {
        assert(ps.subrange(0, 0) =~= Seq::<Seq<Seq<char>>>::empty());
        assert(shapes * 0 == 0) by (nonlinear_arith);
        assert(0 * shapes * len == 0) by (nonlinear_arith);
        assert(0 * shapes == 0) by (nonlinear_arith);
    }
    let mut j: usize = 0;
    while j < all.len()
        invariant
            dv == d@,
            len == dv.len(),
            len >= 1,
            positive_count(dv) == 1,
            neg == negative_repeats(dv),
            pos == positive_events(dv),
            ps == bindings_view(all@),
            occ(ps, pos) == 1,
            shapes >= 1,
            j <= all@.len(),
            budget.tasks == old(budget).tasks,
            budget.candidate_programs == sat_add_spec(c0, j * shapes),
            budget.program_history_evaluations == sat_add_spec(e0, j * shapes * len),
            0 <= c0 <= usize::MAX,
            0 <= e0 <= usize::MAX,
            exact_candidates == (if neg {
                0
            } else {
                shapes * occ(ps.subrange(0, j as int), pos)
            }),
            occ(ps.subrange(0, j as int), pos) <= 1,
            winner is None <==> exact_candidates == 0,
            winner matches Some(w) ==> w.0@ == pos && w.1 == 0,
        decreases all@.len() - j,
    {
        let program = BoundChainProgram::from_atoms(all[j].as_slice());
        let ghost is_exact = exact_spec(dv, program@);
        let ghost o = occ(ps.subrange(0, j as int), pos);
        proof {
            assert(program@ == ps[j as int]);
            lemma_exact_iff(dv, program@);
            crate::combinatorics::lemma_occ_concat(
                ps.subrange(0, j as int + 1),
                ps.subrange(j as int + 1, ps.len() as int),
                pos,
            );
            assert(ps =~= ps.subrange(0, j as int + 1) + ps.subrange(j as int + 1, ps.len() as int));
            assert(ps.subrange(0, j as int + 1).drop_last() =~= ps.subrange(0, j as int));
            if is_exact {
                assert(o == 0);
                assert(shapes * 0 == 0) by (nonlinear_arith);
            }
            lemma_sat_add_assoc(c0, j * shapes, shapes as int);
            lemma_sat_add_assoc(e0, j * shapes * len, shapes * len);
            assert(j * shapes + shapes == (j + 1) * shapes) by (nonlinear_arith);
            assert(j * shapes * len + shapes * len == (j + 1) * shapes * len) by (nonlinear_arith);
            assert(j * shapes >= 0 && j * shapes * len >= 0 && shapes * len >= 0)
                by (nonlinear_arith)
                requires
                    len >= 0,
            ;
            assert(shapes * (o + 1) == shapes * o + shapes) by (nonlinear_arith);
        }
        try_shapes(&program, d, shapes, budget, &mut exact_candidates, &mut winner);
        j = j + 1;
    }
    proof {
        assert(ps.subrange(0, ps.len() as int) =~= ps);
        assert(shapes * 1 == shapes) by (nonlinear_arith);
    }
    (exact_candidates, winner)
}

/// The exhaustive concrete search: every binding of the vocabulary, under
/// every tree shape, run against every history.
#[verifier::rlimit(60)]
fn search_concrete_chain(
    task: &ChainTask,
    budget: &mut ConcreteSynthesisBudget,
) -> (r: Result<ConcreteChainProof, AbstractionReuseError>)
    requires
        concrete_search_fits(*task),
    ensures
        match r {
            Ok(p) => concrete_failure(*task) is None && is_concrete_proof_of(*task, p),
            Err(e) => concrete_failure(*task) == Some(e),
        },
        concrete_budget_after(*task, *old(budget), *final(budget)),
{
    let vocabulary = match validate_task(task) {
        Ok(v) => v,
        Err(e) => return Err(e),
    };
    let d = &task.discovery;
    let ghost voc = atoms_view(vocabulary@);
    let arity = vocabulary.len();
    let shapes = catalan(arity - 3);
    let fact = factorial(arity);
    let expected_candidates = sat_mul(fact, shapes);
    let expected_evaluations = sat_mul(expected_candidates, d.len());
    budget.tasks = budget.tasks.saturating_add(1);
    let all = permutations(vocabulary.as_slice());
    proof {
        lemma_catalan_mono(0, (arity - 3) as nat);
        lemma_factorial_mono(0, arity as nat);
        lemma_perms_len(voc);
        lemma_positive_is_arrangement(*task);
        lemma_perms_unique(voc, positive_events(d@));
        crate::combinatorics::lemma_factorial_ge_double(arity as nat);
    }
    let (exact_candidates, winner) = enumerate_bindings(&all, d, shapes, budget);
    proof {
        lemma_budget_covers(
            old(budget).candidate_programs as int,
            old(budget).program_history_evaluations as int,
            fact as int,
            shapes as int,
            d@.len() as int,
        );
    }
    if budget.candidate_programs < expected_candidates
        || budget.program_history_evaluations < expected_evaluations {
        return Err(AbstractionReuseError::BudgetInvariant);
    }
    if exact_candidates != shapes {
        return Err(
            AbstractionReuseError::ConcreteExactCount {
                expected: shapes,
                actual: exact_candidates,
            },
        );
    }
    let (program, tree_shape_rank) = match winner {
        Some(w) => w,
        None => return Err(AbstractionReuseError::NoConcreteSolution),
    };
    Ok(
        finish_concrete_proof(
            task,
            program,
            arity,
            expected_candidates,
            expected_evaluations,
            exact_candidates,
            tree_shape_rank,
        ),
    )
}

/// Assembles the proof once the search has found its program.
fn finish_concrete_proof(
    task: &ChainTask,
    program: BoundChainProgram,
    arity: usize,
    candidate_programs: usize,
    program_history_evaluations: usize,
    exact_candidates: usize,
    tree_shape_rank: usize,
) -> (p: ConcreteChainProof)
    requires
        arity >= 3,
        2 * arity <= usize::MAX,
    ensures
        p.root_id == task.root_id,
        p.arity == arity,
        p.candidate_programs == candidate_programs,
        p.program_history_evaluations == program_history_evaluations,
        p.exact_candidates == exact_candidates,
        p.tree_shape_rank == tree_shape_rank,
        p.node_cost == 2 * arity - 5,
        p.program@ == program@,
        p.problem_digest == digest_task_spec(*task),
        p.proof_id == concrete_proof_id_spec(
            p.problem_digest,
            task.root_id,
            arity as u64,
            canonical_spec(program@),
        ),
{
    let problem_digest = digest_task(task);
    let node_cost = sat_mul(arity, 2).saturating_sub(5);
    let canon = program.canonical_string();
    let proof_id = mix64(
        problem_digest ^ rotl(task.root_id, 7) ^ rotl(arity as u64, 19) ^ hash_text(
            canon.as_str(),
        ),
    );
    ConcreteChainProof {
        proof_id,
        root_id: task.root_id,
        problem_digest,
        arity,
        candidate_programs,
        program_history_evaluations,
        exact_candidates,
        tree_shape_rank,
        node_cost,
        program,
    }
}

/// Whether two concrete proofs agree field for field.
pub open spec fn concrete_proof_eq(a: ConcreteChainProof, b: ConcreteChainProof) -> bool {
    &&& a.proof_id == b.proof_id
    &&& a.root_id == b.root_id
    &&& a.problem_digest == b.problem_digest
    &&& a.arity == b.arity
    &&& a.candidate_programs == b.candidate_programs
    &&& a.program_history_evaluations == b.program_history_evaluations
    &&& a.exact_candidates == b.exact_candidates
    &&& a.tree_shape_rank == b.tree_shape_rank
    &&& a.node_cost == b.node_cost
    &&& a.program@ == b.program@
}

fn same_concrete_proof(a: &ConcreteChainProof, b: &ConcreteChainProof) -> (r: bool)
    ensures
        r == concrete_proof_eq(*a, *b),
{
    a.proof_id == b.proof_id && a.root_id == b.root_id && a.problem_digest == b.problem_digest
        && a.arity == b.arity && a.candidate_programs == b.candidate_programs
        && a.program_history_evaluations == b.program_history_evaluations
        && a.exact_candidates == b.exact_candidates && a.tree_shape_rank == b.tree_shape_rank
        && a.node_cost == b.node_cost && atoms_equal(
        a.program.binding(),
        b.program.binding(),
    )
}

/// A concrete solution whose proof was recomputed and matched.
#[derive(Debug, PartialEq, Eq)]
pub struct ValidatedConcreteSolutionCertificate {
    root_id: u64,
    proof_id: u64,
    problem_digest: u64,
    arity: usize,
    node_cost: usize,
    program: BoundChainProgram,
}

/// The identity of a concrete solution, as carried into abstraction.
#[derive(Debug, Clone, PartialEq, Eq)]
pub struct ConcreteSolutionLineage {
    pub root_id: u64,
    pub proof_id: u64,
    pub problem_digest: u64,
    pub arity: usize,
    pub canonical_expression: String,
}

/// The values of a lineage.
pub open spec fn lineage_view(l: ConcreteSolutionLineage) -> (u64, u64, u64, usize, Seq<char>) {
    (l.root_id, l.proof_id, l.problem_digest, l.arity, l.canonical_expression@)
}

impl ValidatedConcreteSolutionCertificate {
    #[verifier::type_invariant]
    spec fn well_formed(self) -> bool {
        &&& self.program@.len() == self.arity
        &&& self.arity >= 3
        &&& 2 * self.arity <= usize::MAX
        &&& self.node_cost == 2 * self.arity - 5
    }

    /// The certified root.
    pub closed spec fn root_id_view(&self) -> u64 {
        self.root_id
    }

    /// The certified proof identifier.
    pub closed spec fn proof_id_view(&self) -> u64 {
        self.proof_id
    }

    /// The certified problem digest.
    pub closed spec fn problem_digest_view(&self) -> u64 {
        self.problem_digest
    }

    /// The certified arity.
    pub closed spec fn arity_view(&self) -> usize {
        self.arity
    }

    /// The certified node cost.
    pub closed spec fn node_cost_view(&self) -> usize {
        self.node_cost
    }

    /// The certified program.
    pub closed spec fn program_view(&self) -> Seq<Seq<char>> {
        self.program@
    }

    pub fn root_id(&self) -> (r: u64)
        ensures
            r == self.root_id_view(),
    {
        self.root_id
    }

    pub fn proof_id(&self) -> (r: u64)
        ensures
            r == self.proof_id_view(),
    {
        self.proof_id
    }

    pub fn problem_digest(&self) -> (r: u64)
        ensures
            r == self.problem_digest_view(),
    {
        self.problem_digest
    }

    pub fn arity(&self) -> (r: usize)
        ensures
            r == self.arity_view(),
    {
        self.arity
    }

    pub fn node_cost(&self) -> (r: usize)
        ensures
            r == self.node_cost_view(),
    {
        self.node_cost
    }

    pub fn program(&self) -> (r: &BoundChainProgram)
        ensures
            r@ == self.program_view(),
    {
        &self.program
    }

    /// The lineage that abstraction carries forward.
    fn lineage(&self) -> (l: ConcreteSolutionLineage)
        ensures
            lineage_view(l) == cert_lineage_view(*self),
    {
        ConcreteSolutionLineage {
            root_id: self.root_id,
            proof_id: self.proof_id,
            problem_digest: self.problem_digest,
            arity: self.arity,
            canonical_expression: self.program.canonical_string(),
        }
    }
}

/// The lineage values of a certificate.
pub open spec fn cert_lineage_view(c: ValidatedConcreteSolutionCertificate) -> (
    u64,
    u64,
    u64,
    usize,
    Seq<char>,
) {
    (
        c.root_id_view(),
        c.proof_id_view(),
        c.problem_digest_view(),
        c.arity_view(),
        canonical_spec(c.program_view()),
    )
}

/// Synthesizes the concrete proof of a task by exhaustive search.
pub fn synthesize_concrete_chain(
    task: &ChainTask,
    budget: &mut ConcreteSynthesisBudget,
) -> (r: Result<ConcreteChainProof, AbstractionReuseError>)
    requires
        concrete_search_fits(*task),
    ensures
        match r {
            Ok(p) => concrete_failure(*task) is None && is_concrete_proof_of(*task, p),
            Err(e) => concrete_failure(*task) == Some(e),
        },
        concrete_budget_after(*task, *old(budget), *final(budget)),
{
    search_concrete_chain(task, budget)
}

/// Recomputes the concrete proof of a task and certifies the supplied proof
/// when it matches field for field.
pub fn validate_concrete_chain(
    task: &ChainTask,
    supplied: &ConcreteChainProof,
    budget: &mut ConcreteSynthesisBudget,
) -> (r: Result<ValidatedConcreteSolutionCertificate, AbstractionReuseError>)
    requires
        concrete_search_fits(*task),
    ensures
        match r {
            Ok(c) => {
                &&& concrete_failure(*task) is None
                &&& is_concrete_proof_of(*task, *supplied)
                &&& c.root_id_view() == supplied.root_id
                &&& c.proof_id_view() == supplied.proof_id
                &&& c.problem_digest_view() == supplied.problem_digest
                &&& c.arity_view() == supplied.arity
                &&& c.node_cost_view() == supplied.node_cost
                &&& c.program_view() == supplied.program@
            },
            Err(e) => concrete_failure(*task) == Some(e) || (concrete_failure(*task) is None
                && !is_concrete_proof_of(*task, *supplied) && e
                == AbstractionReuseError::ConcreteProofMismatch),
        },
        concrete_budget_after(*task, *old(budget), *final(budget)),
{
    let recomputed = match search_concrete_chain(task, budget) {
        Ok(p) => p,
        Err(e) => return Err(e),
    };
    if !same_concrete_proof(supplied, &recomputed) {
        return Err(AbstractionReuseError::ConcreteProofMismatch);
    }
    proof {
        lemma_positive_is_arrangement(*task);
        crate::combinatorics::lemma_factorial_ge_double(task_arity(*task));
    }
    Ok(
        ValidatedConcreteSolutionCertificate {
            root_id: recomputed.root_id,
            proof_id: recomputed.proof_id,
            problem_digest: recomputed.problem_digest,
            arity: recomputed.arity,
            node_cost: recomputed.node_cost,
            program: recomputed.program,
        },
    )
}

/// The production kinds of the parent grammar that this module tells apart:
/// the three-step consecutive chain it builds on, and every other kind.
#[derive(Debug, Clone, Copy, PartialEq, Eq, Structural)]
pub enum ComposedProductionKind {
    ConsecutiveChain3,
    Other,
}

/// What the parent grammar's recursive-composition validation certified.
#[derive(Debug, Clone, Copy, PartialEq, Eq, Structural)]
pub struct ParentCompositionCertificate {
    pub child_kind: ComposedProductionKind,
    pub cohort_id: u64,
    pub problem_digest: u64,
    pub proof_id: u64,
}

/// The parent grammar's recursive-composition proof, as far as this module reads it.
#[derive(Debug, Clone, Copy, PartialEq, Eq, Structural)]
pub struct ParentCompositionProof {
    pub child_kind: ComposedProductionKind,
    pub child_arity: usize,
    pub problem_digest: u64,
    pub proof_id: u64,
}

/// The parent grammar registry, as far as this module reads it.
#[derive(Debug, Clone, PartialEq, Eq)]
pub struct ParentGrammarRegistry {
    pub cohort_id: u64,
    pub admitted_count: usize,
    pub supports_consecutive_chain3: bool,
    pub canonical_signature: String,
}

/// The lineage of the admitted parent abstraction.
#[derive(Debug, Clone, PartialEq, Eq)]
pub struct OmegaG2AbstractionLineage {
    pub cohort_id: u64,
    pub problem_digest: u64,
    pub proof_id: u64,
    pub admitted_kind: ComposedProductionKind,
    pub registry_signature: String,
}

/// The values of a parent lineage.
pub open spec fn parent_lineage_view(l: OmegaG2AbstractionLineage) -> (
    u64,
    u64,
    u64,
    ComposedProductionKind,
    Seq<char>,
) {
    (l.cohort_id, l.problem_digest, l.proof_id, l.admitted_kind, l.registry_signature@)
}

impl OmegaG2AbstractionLineage {
    /// A copy of the lineage.
    pub fn duplicate(&self) -> (l: OmegaG2AbstractionLineage)
        ensures
            parent_lineage_view(l) == parent_lineage_view(*self),
    {
        OmegaG2AbstractionLineage {
            cohort_id: self.cohort_id,
            problem_digest: self.problem_digest,
            proof_id: self.proof_id,
            admitted_kind: self.admitted_kind,
            registry_signature: self.registry_signature.clone(),
        }
    }
}

/// Whether two parent lineages agree field for field.
fn same_parent_lineage(a: &OmegaG2AbstractionLineage, b: &OmegaG2AbstractionLineage) -> (r: bool)
    ensures
        r == (parent_lineage_view(*a) == parent_lineage_view(*b)),
{
    a.cohort_id == b.cohort_id && a.problem_digest == b.problem_digest && a.proof_id == b.proof_id
        && a.admitted_kind == b.admitted_kind && a.registry_signature == b.registry_signature
}

/// A parent abstraction that was independently revalidated.
#[derive(Debug, PartialEq, Eq)]
pub struct ValidatedOmegaG2AbstractionParent {
    lineage: OmegaG2AbstractionLineage,
}

impl ValidatedOmegaG2AbstractionParent {
    #[verifier::type_invariant]
    spec fn well_formed(self) -> bool {
        self.lineage.admitted_kind == ComposedProductionKind::ConsecutiveChain3
    }

    /// The revalidated lineage.
    pub closed spec fn lineage_view(&self) -> (u64, u64, u64, ComposedProductionKind, Seq<char>) {
        parent_lineage_view(self.lineage)
    }

    pub fn lineage(&self) -> (l: &OmegaG2AbstractionLineage)
        ensures
            parent_lineage_view(*l) == self.lineage_view(),
            l.admitted_kind == ComposedProductionKind::ConsecutiveChain3,
    {
        proof {
            use_type_invariant(self);
        }
        &self.lineage
    }
}

/// Why the parent is refused, if it is: its composition did not validate; it
/// is not the three-step chain; the registry is not this cohort's with that
/// one production; or the certificate does not match the proof.
pub open spec fn parent_failure(
    cohort_id: u64,
    validation: Result<ParentCompositionCertificate, String>,
    proof: ParentCompositionProof,
    registry: ParentGrammarRegistry,
) -> Option<AbstractionReuseError> {
    match validation {
        Err(m) => Some(AbstractionReuseError::ParentValidation(m)),
        Ok(c) => if c.child_kind != ComposedProductionKind::ConsecutiveChain3 || proof.child_kind
            != ComposedProductionKind::ConsecutiveChain3 || proof.child_arity != 3 {
            Some(AbstractionReuseError::WrongParentKind)
        } else if registry.cohort_id != cohort_id || registry.admitted_count != 1
            || !registry.supports_consecutive_chain3 {
            Some(AbstractionReuseError::ParentRegistryMismatch)
        } else if c.cohort_id != cohort_id || c.problem_digest != proof.problem_digest
            || c.proof_id != proof.proof_id {
            Some(AbstractionReuseError::ParentLineageMismatch)
        } else {
            None
        },
    }
}

/// Revalidates the parent abstraction from the outcome of its
/// recursive-composition validation, its proof and its registry.
pub fn revalidate_omega_g2_abstraction_parent(
    cohort_id: u64,
    validation: Result<ParentCompositionCertificate, String>,
    proof: &ParentCompositionProof,
    registry: &ParentGrammarRegistry,
) -> (r: Result<ValidatedOmegaG2AbstractionParent, AbstractionReuseError>)
    ensures
        match r {
            Ok(p) => parent_failure(cohort_id, validation, *proof, *registry) is None
                && p.lineage_view() == (
                cohort_id,
                proof.problem_digest,
                proof.proof_id,
                ComposedProductionKind::ConsecutiveChain3,
                registry.canonical_signature@,
            ),
            Err(e) => parent_failure(cohort_id, validation, *proof, *registry) == Some(e),
        },
{
    let certificate = match validation {
        Ok(c) => c,
        Err(m) => return Err(AbstractionReuseError::ParentValidation(m)),
    };
    if certificate.child_kind != ComposedProductionKind::ConsecutiveChain3 || proof.child_kind
        != ComposedProductionKind::ConsecutiveChain3 || proof.child_arity != 3 {
        return Err(AbstractionReuseError::WrongParentKind);
    }
    if registry.cohort_id != cohort_id || registry.admitted_count != 1
        || !registry.supports_consecutive_chain3 {
        return Err(AbstractionReuseError::ParentRegistryMismatch);
    }
    if certificate.cohort_id != cohort_id || certificate.problem_digest != proof.problem_digest
        || certificate.proof_id != proof.proof_id {
        return Err(AbstractionReuseError::ParentLineageMismatch);
    }
    Ok(
        ValidatedOmegaG2AbstractionParent {
            lineage: OmegaG2AbstractionLineage {
                cohort_id,
                problem_digest: proof.problem_digest,
                proof_id: proof.proof_id,
                admitted_kind: proof.child_kind,
                registry_signature: registry.canonical_signature.clone(),
            },
        },
    )
}

/// The four frozen schemas of the meta-grammar.
#[derive(Debug, Clone, Copy, PartialEq, Eq, PartialOrd, Ord, Hash, Structural)]
pub enum AbstractionSchemaKind {
    RecursiveAppendAdjacent,
    EndpointBridge,
    DisjointAdjacentPairs,
    FixedArityThree,
}

/// The schema at position `i` of the frozen order.
pub open spec fn kind_at(i: int) -> AbstractionSchemaKind {
    if i == 0 {
        AbstractionSchemaKind::RecursiveAppendAdjacent
    } else if i == 1 {
        AbstractionSchemaKind::EndpointBridge
    } else if i == 2 {
        AbstractionSchemaKind::DisjointAdjacentPairs
    } else {
        AbstractionSchemaKind::FixedArityThree
    }
}

/// The position of a schema in the frozen order.
pub open spec fn kind_rank(k: AbstractionSchemaKind) -> int {
    match k {
        AbstractionSchemaKind::RecursiveAppendAdjacent => 0,
        AbstractionSchemaKind::EndpointBridge => 1,
        AbstractionSchemaKind::DisjointAdjacentPairs => 2,
        AbstractionSchemaKind::FixedArityThree => 3,
    }
}

/// A schema's name.
pub open spec fn kind_name_spec(k: AbstractionSchemaKind) -> Seq<char> {
    match k {
        AbstractionSchemaKind::RecursiveAppendAdjacent => "recursive_append_adjacent"@,
        AbstractionSchemaKind::EndpointBridge => "endpoint_bridge"@,
        AbstractionSchemaKind::DisjointAdjacentPairs => "disjoint_adjacent_pairs"@,
        AbstractionSchemaKind::FixedArityThree => "fixed_arity_three"@,
    }
}

/// A schema's node cost.
pub open spec fn kind_cost_spec(k: AbstractionSchemaKind) -> int {
    match k {
        AbstractionSchemaKind::RecursiveAppendAdjacent => 5,
        AbstractionSchemaKind::EndpointBridge => 3,
        AbstractionSchemaKind::DisjointAdjacentPairs => 4,
        AbstractionSchemaKind::FixedArityThree => 1,
    }
}

impl AbstractionSchemaKind {
    /// The four schemas in their frozen order.
    pub fn all() -> (r: [Self; 4])
        ensures
            forall|i: int| 0 <= i < 4 ==> #[trigger] r@[i] == kind_at(i),
    {
        [
            AbstractionSchemaKind::RecursiveAppendAdjacent,
            AbstractionSchemaKind::EndpointBridge,
            AbstractionSchemaKind::DisjointAdjacentPairs,
            AbstractionSchemaKind::FixedArityThree,
        ]
    }

    /// The schema's name.
    pub fn name(self) -> (s: &'static str)
        ensures
            s@ == kind_name_spec(self),
    {
        match self {
            AbstractionSchemaKind::RecursiveAppendAdjacent => "recursive_append_adjacent",
            AbstractionSchemaKind::EndpointBridge => "endpoint_bridge",
            AbstractionSchemaKind::DisjointAdjacentPairs => "disjoint_adjacent_pairs",
            AbstractionSchemaKind::FixedArityThree => "fixed_arity_three",
        }
    }

    /// The schema's node cost.
    pub fn node_cost(self) -> (n: usize)
        ensures
            n == kind_cost_spec(self),
    {
        match self {
            AbstractionSchemaKind::RecursiveAppendAdjacent => 5,
            AbstractionSchemaKind::EndpointBridge => 3,
            AbstractionSchemaKind::DisjointAdjacentPairs => 4,
            AbstractionSchemaKind::FixedArityThree => 1,
        }
    }
}

/// The edges a schema predicts for a binding.
pub open spec fn schema_edges_spec(
    kind: AbstractionSchemaKind,
    b: Seq<Seq<char>>,
) -> Seq<(Seq<char>, Seq<char>)> {
    match kind {
        AbstractionSchemaKind::RecursiveAppendAdjacent => edges_spec(b),
        AbstractionSchemaKind::EndpointBridge => seq![(b[0], b[b.len() - 1])],
        AbstractionSchemaKind::DisjointAdjacentPairs => Seq::new(
            b.len() / 2,
            |i: int| (b[2 * i], b[2 * i + 1]),
        ),
        AbstractionSchemaKind::FixedArityThree => if b.len() == 3 {
            edges_spec(b)
        } else {
            Seq::empty()
        },
    }
}

fn schema_edges(kind: AbstractionSchemaKind, program: &BoundChainProgram) -> (r: Vec<(Atom, Atom)>)
    requires
        program@.len() >= 1,
    ensures
        pairs_view(r@) == schema_edges_spec(kind, program@),
{
    let binding = program.binding();
    match kind {
        AbstractionSchemaKind::RecursiveAppendAdjacent => program.edge_signature(),
        AbstractionSchemaKind::EndpointBridge => {
            let mut r: Vec<(Atom, Atom)> = Vec::new();
            r.push((binding[0].duplicate(), binding[binding.len() - 1].duplicate()));
            assert(pairs_view(r@) =~= schema_edges_spec(kind, program@));
            r
        },
        AbstractionSchemaKind::DisjointAdjacentPairs => {
            let mut r: Vec<(Atom, Atom)> = Vec::new();
            let half = binding.len() / 2;
            let mut i: usize = 0;
            while i < half
                invariant
                    half == binding@.len() / 2,
                    binding@.len() <= usize::MAX,
                    atoms_view(binding@) == program@,
                    i <= half,
                    r@.len() == i,
                    forall|k: int|
                        0 <= k < i ==> (#[trigger] r@[k]).0@ == program@[2 * k] && r@[k].1@
                            == program@[2 * k + 1],
                decreases half - i,
            {
                assert(2 * i + 1 < binding@.len());
                r.push((binding[2 * i].duplicate(), binding[2 * i + 1].duplicate()));
                i = i + 1;
            }
            assert(pairs_view(r@) =~= schema_edges_spec(kind, program@));
            r
        },
        AbstractionSchemaKind::FixedArityThree => {
            if binding.len() == 3 {
                program.edge_signature()
            } else {
                let r: Vec<(Atom, Atom)> = Vec::new();
                assert(pairs_view(r@) =~= schema_edges_spec(kind, program@));
                r
            }
        },
    }
}

/// Whether two pair sequences have the same texts in the same order.
fn pairs_equal(a: &[(Atom, Atom)], b: &[(Atom, Atom)]) -> (r: bool)
    ensures
        r == (pairs_view(a@) == pairs_view(b@)),
{
    if a.len() != b.len() {
        assert(pairs_view(a@).len() != pairs_view(b@).len());
        return false;
    }
    let mut i: usize = 0;
    while i < a.len()
        invariant
            a@.len() == b@.len(),
            i <= a@.len(),
            forall|j: int| 0 <= j < i ==> #[trigger] pairs_view(a@)[j] == pairs_view(b@)[j],
        decreases a@.len() - i,
    {
        if !a[i].0.same(&b[i].0) || !a[i].1.same(&b[i].1) {
            assert(pairs_view(a@)[i as int] != pairs_view(b@)[i as int]);
            return false;
        }
        i = i + 1;
    }
    assert(pairs_view(a@) =~= pairs_view(b@));
    true
}

/// How many certificates have arity `a`.
pub open spec fn arity_count(ex: Seq<ValidatedConcreteSolutionCertificate>, a: int) -> nat
    decreases ex.len(),
{
    if ex.len() == 0 {
        0
    } else {
        arity_count(ex.drop_last(), a) + if ex.last().arity_view() == a {
            1nat
        } else {
            0nat
        }
    }
}

/// How many certificates have an arity other than three, four and five.
pub open spec fn other_arity_count(ex: Seq<ValidatedConcreteSolutionCertificate>) -> nat
    decreases ex.len(),
{
    if ex.len() == 0 {
        0
    } else {
        other_arity_count(ex.drop_last()) + if 3 <= ex.last().arity_view() <= 5 {
            0nat
        } else {
            1nat
        }
    }
}

proof fn lemma_arity_counts_cover(ex: Seq<ValidatedConcreteSolutionCertificate>)
    ensures
        arity_count(ex, 3) + arity_count(ex, 4) + arity_count(ex, 5) + other_arity_count(ex)
            == ex.len(),
        other_arity_count(ex) == 0 ==> forall|i: int|
            0 <= i < ex.len() ==> 3 <= (#[trigger] ex[i]).arity_view() <= 5,
    decreases ex.len(),
{
    if ex.len() > 0 {
        lemma_arity_counts_cover(ex.drop_last());
        assert forall|i: int| 0 <= i < ex.len() - 1 implies ex.drop_last()[i] == ex[i] by {}
    }
}

/// Every root of the examples is different.
pub open spec fn roots_distinct(ex: Seq<ValidatedConcreteSolutionCertificate>) -> bool {
    forall|i: int, j: int|
        0 <= i < ex.len() && 0 <= j < ex.len() && i != j ==> (#[trigger] ex[i]).root_id_view()
            != (#[trigger] ex[j]).root_id_view()
}

/// Why an example set cannot support abstraction, if it cannot: it does not
/// hold twelve examples, two share a root, or it does not hold four examples
/// at each of the arities three, four and five.
pub open spec fn support_error(ex: Seq<ValidatedConcreteSolutionCertificate>) -> Option<
    AbstractionReuseError,
> {
    if ex.len() != 12 {
        Some(AbstractionReuseError::WrongExampleCount)
    } else if !roots_distinct(ex) {
        Some(AbstractionReuseError::DuplicateExampleRoot)
    } else if arity_count(ex, 3) != 4 || arity_count(ex, 4) != 4 || arity_count(ex, 5) != 4 {
        Some(AbstractionReuseError::WrongExampleSupport)
    } else {
        None
    }
}

fn validate_example_support(examples: &[ValidatedConcreteSolutionCertificate]) -> (r: Result<
    (),
    AbstractionReuseError,
>)
    ensures
        match r {
            Ok(_) => support_error(examples@) is None,
            Err(e) => support_error(examples@) == Some(e),
        },
{
    let n = examples.len();
    if n != 12 {
        return Err(AbstractionReuseError::WrongExampleCount);
    }
    let mut i: usize = 0;
    while i < n
        invariant
            n == examples@.len(),
            n == 12,
            i <= n,
            forall|p: int, q: int|
                0 <= p < q < n && p < i ==> examples@[p].root_id_view()
                    != examples@[q].root_id_view(),
        decreases n - i,
    {
        let mut j: usize = i + 1;
        while j < n
            invariant
                n == examples@.len(),
                n == 12,
                i < n,
                i + 1 <= j <= n,
                forall|p: int, q: int|
                    0 <= p < q < n && p < i ==> examples@[p].root_id_view()
                        != examples@[q].root_id_view(),
                forall|q: int|
                    i < q < j ==> examples@[i as int].root_id_view()
                        != examples@[q].root_id_view(),
            decreases n - j,
        {
            if examples[i].root_id() == examples[j].root_id() {
                assert(!roots_distinct(examples@)) by {
                    assert(examples@[i as int].root_id_view() == examples@[j as int].root_id_view());
                }
                return Err(AbstractionReuseError::DuplicateExampleRoot);
            }
            j = j + 1;
        }
        i = i + 1;
    }
    assert(roots_distinct(examples@)) by {
        assert forall|p: int, q: int|
            0 <= p < examples@.len() && 0 <= q < examples@.len() && p != q implies (
            #[trigger] examples@[p]).root_id_view() != (#[trigger] examples@[q]).root_id_view() by {
            if p < q {
            } else {
            }
        }
    }
    let mut c3: usize = 0;
    let mut c4: usize = 0;
    let mut c5: usize = 0;
    let mut k: usize = 0;
    while k < n
        invariant
            n == examples@.len(),
            k <= n,
            c3 == arity_count(examples@.subrange(0, k as int), 3),
            c4 == arity_count(examples@.subrange(0, k as int), 4),
            c5 == arity_count(examples@.subrange(0, k as int), 5),
            c3 <= k && c4 <= k && c5 <= k,
        decreases n - k,
    {
        assert(examples@.subrange(0, k as int + 1).drop_last() =~= examples@.subrange(0, k as int));
        let a = examples[k].arity();
        if a == 3 {
            c3 = c3 + 1;
        }
        if a == 4 {
            c4 = c4 + 1;
        }
        if a == 5 {
            c5 = c5 + 1;
        }
        k = k + 1;
    }
    assert(examples@.subrange(0, n as int) =~= examples@);
    if c3 != 4 || c4 != 4 || c5 != 4 {
        return Err(AbstractionReuseError::WrongExampleSupport);
    }
    Ok(())
}

/// The values of a sequence of lineages.
pub open spec fn lineages_view(s: Seq<ConcreteSolutionLineage>) -> Seq<
    (u64, u64, u64, usize, Seq<char>),
> {
    s.map_values(|l: ConcreteSolutionLineage| lineage_view(l))
}

/// Lineages are ordered by arity, then by root.
pub open spec fn lineage_key_le(
    a: (u64, u64, u64, usize, Seq<char>),
    b: (u64, u64, u64, usize, Seq<char>),
) -> bool {
    a.3 < b.3 || (a.3 == b.3 && a.0 <= b.0)
}

/// A sequence of lineage values in order of arity, then root.
pub open spec fn sorted_by_key(s: Seq<(u64, u64, u64, usize, Seq<char>)>) -> bool {
    forall|i: int, j: int| 0 <= i < j < s.len() ==> lineage_key_le(s[i], s[j])
}

/// Lineage `a` comes strictly before `b`: lower arity, or the same arity and a lower root.
pub open spec fn lineage_key_lt(
    a: (u64, u64, u64, usize, Seq<char>),
    b: (u64, u64, u64, usize, Seq<char>),
) -> bool {
    a.3 < b.3 || (a.3 == b.3 && a.0 < b.0)
}

/// The index of the first lineage with the smallest key among the first `k`.
pub open spec fn min_index_upto(s: Seq<(u64, u64, u64, usize, Seq<char>)>, k: nat) -> int
    decreases k,
{
    if k <= 1 {
        0
    } else {
        let m = min_index_upto(s, (k - 1) as nat);
        if lineage_key_lt(s[k - 1], s[m]) {
            k - 1
        } else {
            m
        }
    }
}

/// The lineages stably sorted by arity, then root: repeatedly the first
/// lineage with the smallest key.
pub open spec fn stable_sort_lineages(s: Seq<(u64, u64, u64, usize, Seq<char>)>) -> Seq<
    (u64, u64, u64, usize, Seq<char>),
>
    decreases s.len(),
{
    if s.len() == 0 {
        Seq::empty()
    } else {
        let m = min_index_upto(s, s.len());
        if 0 <= m < s.len() {
            seq![s[m]] + stable_sort_lineages(s.remove(m))
        } else {
            Seq::empty()
        }
    }
}

proof fn lemma_min_index_bounds(s: Seq<(u64, u64, u64, usize, Seq<char>)>, k: nat)
    requires
        1 <= k <= s.len(),
    ensures
        0 <= min_index_upto(s, k) < k,
    decreases k,
{
    if k > 1 {
        lemma_min_index_bounds(s, (k - 1) as nat);
    }
}

/// Sorts lineages by arity, then by root.
fn sort_lineages(v: Vec<ConcreteSolutionLineage>) -> (r: Vec<ConcreteSolutionLineage>)
    ensures
        lineages_view(r@) == stable_sort_lineages(lineages_view(v@)),
        lineages_view(r@).to_multiset() == lineages_view(v@).to_multiset(),
        sorted_by_key(lineages_view(r@)),
{
    broadcast use vstd::seq_lib::group_to_multiset_ensures;
    broadcast use vstd::multiset::group_multiset_axioms;

    let ghost total = lineages_view(v@).to_multiset();
    let mut remaining = v;
    let mut out: Vec<ConcreteSolutionLineage> = Vec::new();
    assert(lineages_view(out@).to_multiset() =~= vstd::multiset::Multiset::empty());
    assert(lineages_view(out@).to_multiset().add(lineages_view(remaining@).to_multiset()) =~= total);
    assert(lineages_view(out@) + stable_sort_lineages(lineages_view(remaining@)) =~= stable_sort_lineages(
        lineages_view(v@),
    ));
    while remaining.len() > 0
        invariant
            lineages_view(out@) + stable_sort_lineages(lineages_view(remaining@))
                == stable_sort_lineages(lineages_view(v@)),
            lineages_view(out@).to_multiset().add(lineages_view(remaining@).to_multiset())
                == total,
            sorted_by_key(lineages_view(out@)),
            forall|i: int, j: int|
                0 <= i < out@.len() && 0 <= j < remaining@.len() ==> lineage_key_le(
                    lineage_view(#[trigger] out@[i]),
                    lineage_view(#[trigger] remaining@[j]),
                ),
        decreases remaining@.len(),
    {
        let mut m: usize = 0;
        let mut k: usize = 1;
        while k < remaining.len()
            invariant
                m < remaining@.len(),
                1 <= k <= remaining@.len(),
                m == min_index_upto(lineages_view(remaining@), k as nat),
                forall|t: int|
                    0 <= t < k ==> lineage_key_le(
                        lineage_view(remaining@[m as int]),
                        lineage_view(#[trigger] remaining@[t]),
                    ),
            decreases remaining@.len() - k,
        {
            if remaining[k].arity < remaining[m].arity || (remaining[k].arity == remaining[m].arity
                && remaining[k].root_id < remaining[m].root_id) {
                m = k;
            }
            k = k + 1;
        }
        let ghost old_rem = remaining@;
        let ghost old_out = out@;
        let x = remaining.remove(m);
        let ghost vx = lineage_view(x);
        out.push(x);
        proof {
            let rv = lineages_view(old_rem);
            lemma_min_index_bounds(rv, rv.len());
            assert(stable_sort_lineages(rv) == seq![rv[m as int]] + stable_sort_lineages(
                rv.remove(m as int),
            ));
            assert(lineages_view(remaining@) =~= rv.remove(m as int));
            assert(lineages_view(out@) + stable_sort_lineages(lineages_view(remaining@))
                =~= lineages_view(old_out) + stable_sort_lineages(rv));
            assert(lineages_view(remaining@) =~= lineages_view(old_rem).remove(m as int));
            assert(lineages_view(out@) =~= lineages_view(old_out).push(vx));
            assert(lineages_view(old_rem)[m as int] == vx);
            assert(lineages_view(old_rem).contains(vx));
            lineages_view(old_rem).to_multiset_ensures();
            lineages_view(old_out).to_multiset_ensures();
            assert(lineages_view(old_rem).to_multiset().count(vx) > 0);
            assert(lineages_view(out@).to_multiset() =~= lineages_view(old_out).to_multiset().insert(
                vx,
            ));
            assert(lineages_view(remaining@).to_multiset() =~= lineages_view(
                old_rem,
            ).to_multiset().remove(vx));
            assert(lineages_view(out@).to_multiset().add(lineages_view(remaining@).to_multiset())
                =~= total);
            assert forall|i: int, j: int|
                0 <= i < out@.len() && 0 <= j < remaining@.len() implies lineage_key_le(
                lineage_view(#[trigger] out@[i]),
                lineage_view(#[trigger] remaining@[j]),
            ) by {
                let jj = if j < m {
                    j
                } else {
                    j + 1
                };
                assert(remaining@[j] == old_rem[jj]);
                if i < old_out.len() {
                    assert(out@[i] == old_out[i]);
                    assert(lineage_key_le(lineage_view(old_out[i]), lineage_view(old_rem[jj])));
                } else {
                    assert(lineage_key_le(vx, lineage_view(old_rem[jj])));
                }
            }
            assert(sorted_by_key(lineages_view(out@))) by {
                assert forall|i: int, j: int|
                    0 <= i < j < lineages_view(out@).len() implies lineage_key_le(
                    lineages_view(out@)[i],
                    lineages_view(out@)[j],
                ) by {
                    if j < old_out.len() {
                        assert(lineages_view(out@)[i] == lineages_view(old_out)[i]);
                        assert(lineages_view(out@)[j] == lineages_view(old_out)[j]);
                    } else {
                        assert(out@[i] == old_out[i]);
                        assert(lineage_key_le(lineage_view(old_out[i]), lineage_view(old_rem[m as int])));
                    }
                }
            }
        }
    }
    assert(lineages_view(remaining@).to_multiset() =~= vstd::multiset::Multiset::empty());
    assert(lineages_view(out@).to_multiset() =~= total);
    assert(lineages_view(remaining@) =~= Seq::<(u64, u64, u64, usize, Seq<char>)>::empty());
    assert(lineages_view(out@) =~= lineages_view(out@) + stable_sort_lineages(
        lineages_view(remaining@),
    ));
    out
}

/// Every certificate binds `arity >= 3` atoms at node cost `2 * arity - 5`.
pub open spec fn certs_well_formed(ex: Seq<ValidatedConcreteSolutionCertificate>) -> bool {
    forall|i: int|
        0 <= i < ex.len() ==> {
            &&& (#[trigger] ex[i]).program_view().len() == ex[i].arity_view()
            &&& ex[i].arity_view() >= 3
            &&& ex[i].node_cost_view() == 2 * ex[i].arity_view() - 5
        }
}

/// What every certificate keeps, gathered for a slice of them.
fn certs_invariant(examples: &[ValidatedConcreteSolutionCertificate])
    ensures
        certs_well_formed(examples@),
{
    let mut i: usize = 0;
    while i < examples.len()
        invariant
            i <= examples@.len(),
            forall|j: int|
                0 <= j < i ==> {
                    &&& (#[trigger] examples@[j]).program_view().len() == examples@[j].arity_view()
                    &&& examples@[j].arity_view() >= 3
                    &&& examples@[j].node_cost_view() == 2 * examples@[j].arity_view() - 5
                },
        decreases examples@.len() - i,
    {
        let c = &examples[i];
        proof {
            use_type_invariant(c);
        }
        i = i + 1;
    }
}

/// A schema predicts exactly the edges of a certified program.
pub open spec fn schema_fits(kind: AbstractionSchemaKind, c: ValidatedConcreteSolutionCertificate) -> bool {
    schema_edges_spec(kind, c.program_view()) == edges_spec(c.program_view())
}

/// How many certified programs a schema predicts exactly.
pub open spec fn schema_exact_count(
    kind: AbstractionSchemaKind,
    ex: Seq<ValidatedConcreteSolutionCertificate>,
) -> nat
    decreases ex.len(),
{
    if ex.len() == 0 {
        0
    } else {
        schema_exact_count(kind, ex.drop_last()) + if schema_fits(kind, ex.last()) {
            1nat
        } else {
            0nat
        }
    }
}

proof fn lemma_exact_count_le(kind: AbstractionSchemaKind, ex: Seq<ValidatedConcreteSolutionCertificate>)
    ensures
        schema_exact_count(kind, ex) <= ex.len(),
    decreases ex.len(),
{
    if ex.len() > 0 {
        lemma_exact_count_le(kind, ex.drop_last());
    }
}

/// How one schema fared on the examples.
#[derive(Debug, Clone, Copy, PartialEq, Eq, Structural)]
pub struct SchemaAnalysis {
    pub kind: AbstractionSchemaKind,
    pub exact_examples: usize,
    pub node_cost: usize,
}

/// The analysis of one schema.
pub open spec fn analysis_spec(
    kind: AbstractionSchemaKind,
    ex: Seq<ValidatedConcreteSolutionCertificate>,
) -> SchemaAnalysis {
    SchemaAnalysis {
        kind,
        exact_examples: schema_exact_count(kind, ex) as usize,
        node_cost: kind_cost_spec(kind) as usize,
    }
}

/// A schema predicts every example exactly.
pub open spec fn fits_all(kind: AbstractionSchemaKind, ex: Seq<ValidatedConcreteSolutionCertificate>) -> bool {
    schema_exact_count(kind, ex) == ex.len()
}

/// Schemas are ranked by node cost, then by their frozen order.
pub open spec fn schema_key_lt(a: AbstractionSchemaKind, b: AbstractionSchemaKind) -> bool {
    kind_cost_spec(a) < kind_cost_spec(b) || (kind_cost_spec(a) == kind_cost_spec(b) && kind_rank(a)
        < kind_rank(b))
}

/// The best-ranked schema among the first `i` that fits every example.
pub open spec fn best_schema_upto(ex: Seq<ValidatedConcreteSolutionCertificate>, i: nat) -> Option<
    AbstractionSchemaKind,
>
    decreases i,
{
    if i == 0 {
        None
    } else {
        let b = best_schema_upto(ex, (i - 1) as nat);
        let k = kind_at(i - 1);
        if fits_all(k, ex) && (b is None || schema_key_lt(k, b->0)) {
            Some(k)
        } else {
            b
        }
    }
}

/// How many of the first `i` schemas fit every example.
pub open spec fn fit_count_upto(ex: Seq<ValidatedConcreteSolutionCertificate>, i: nat) -> nat
    decreases i,
{
    if i == 0 {
        0
    } else {
        fit_count_upto(ex, (i - 1) as nat) + if fits_all(kind_at(i - 1), ex) {
            1nat
        } else {
            0nat
        }
    }
}

/// The total node cost of the examples.
pub open spec fn node_cost_sum(ex: Seq<ValidatedConcreteSolutionCertificate>) -> int
    decreases ex.len(),
{
    if ex.len() == 0 {
        0
    } else {
        node_cost_sum(ex.drop_last()) + ex.last().node_cost_view()
    }
}

/// Counters of the work abstraction search did.
#[derive(Debug, Clone, PartialEq, Eq)]
pub struct AbstractionSearchBudget {
    pub schema_candidates: usize,
    pub schema_example_evaluations: usize,
}

impl Default for AbstractionSearchBudget {
    fn default() -> (b: Self)
        ensures
            b.schema_candidates == 0,
            b.schema_example_evaluations == 0,
    {
        AbstractionSearchBudget { schema_candidates: 0, schema_example_evaluations: 0 }
    }
}

/// Runs every schema against every example.
fn analyze_schemas(
    examples: &[ValidatedConcreteSolutionCertificate],
    budget: &mut AbstractionSearchBudget,
) -> (analyses: Vec<SchemaAnalysis>)
    requires
        certs_well_formed(examples@),
    ensures
        analyses@.len() == 4,
        forall|i: int| 0 <= i < 4 ==> #[trigger] analyses@[i] == analysis_spec(kind_at(i), examples@),
        final(budget).schema_candidates == sat_add_spec(old(budget).schema_candidates as int, 4),
        final(budget).schema_example_evaluations == sat_add_spec(
            old(budget).schema_example_evaluations as int,
            4 * examples@.len() as int,
        ),
{
    let ghost ex = examples@;
    let ghost c0 = old(budget).schema_candidates as int;
    let ghost e0 = old(budget).schema_example_evaluations as int;
    let kinds = AbstractionSchemaKind::all();
    let mut analyses: Vec<SchemaAnalysis> = Vec::new();
    let mut ki: usize = 0;
    while ki < 4
        invariant
            ex == examples@,
            certs_well_formed(ex),
            forall|i: int| 0 <= i < 4 ==> #[trigger] kinds@[i] == kind_at(i),
            ki <= 4,
            analyses@.len() == ki,
            forall|i: int| 0 <= i < ki ==> #[trigger] analyses@[i] == analysis_spec(kind_at(i), ex),
            budget.schema_candidates == sat_add_spec(c0, ki as int),
            budget.schema_example_evaluations == sat_add_spec(e0, ki * ex.len()),
            0 <= c0 <= usize::MAX,
            0 <= e0 <= usize::MAX,
        decreases 4 - ki,
    {
        let kind = kinds[ki];
        proof {
            lemma_sat_add_assoc(c0, ki as int, 1);
        }
        budget.schema_candidates = budget.schema_candidates.saturating_add(1);
        let ghost e1 = budget.schema_example_evaluations as int;
        let mut exact_examples: usize = 0;
        let mut e: usize = 0;
        while e < examples.len()
            invariant
                ex == examples@,
                certs_well_formed(ex),
                e <= ex.len(),
                exact_examples == schema_exact_count(kind, ex.subrange(0, e as int)),
                exact_examples <= e,
                budget.schema_candidates == sat_add_spec(c0, ki + 1 as int),
                budget.schema_example_evaluations == sat_add_spec(e0, ki * ex.len() + e),
                0 <= e0 <= usize::MAX,
            decreases ex.len() - e,
        {
            proof {
                lemma_sat_add_assoc(e0, ki * ex.len() + e, 1);
                assert(ki * ex.len() >= 0) by (nonlinear_arith);
                assert(ex.subrange(0, e as int + 1).drop_last() =~= ex.subrange(0, e as int));
                assert(ex.subrange(0, e as int + 1).last() == ex[e as int]);
            }
            budget.schema_example_evaluations = budget.schema_example_evaluations.saturating_add(1);
            let program = examples[e].program();
            let predicted = schema_edges(kind, program);
            let actual = program.edge_signature();
            if pairs_equal(predicted.as_slice(), actual.as_slice()) {
                exact_examples = exact_examples + 1;
            }
            e = e + 1;
        }
        proof {
            assert(ex.subrange(0, ex.len() as int) =~= ex);
            assert(ki * ex.len() + ex.len() == (ki + 1) * ex.len()) by (nonlinear_arith);
        }
        analyses.push(SchemaAnalysis { kind, exact_examples, node_cost: kind.node_cost() });
        ki = ki + 1;
    }
    analyses
}

/// The best-ranked schema that fits every example, and how many fit.
fn choose_winner(analyses: &Vec<SchemaAnalysis>, count: usize, ex: Ghost<Seq<ValidatedConcreteSolutionCertificate>>) -> (r: (Option<AbstractionSchemaKind>, usize))
    requires
        analyses@.len() == 4,
        count == ex@.len(),
        forall|i: int| 0 <= i < 4 ==> #[trigger] analyses@[i] == analysis_spec(kind_at(i), ex@),
    ensures
        r.0 == best_schema_upto(ex@, 4),
        r.1 == fit_count_upto(ex@, 4),
{
    let mut best: Option<AbstractionSchemaKind> = None;
    let mut fitting: usize = 0;
    let mut i: usize = 0;
    while i < 4
        invariant
            analyses@.len() == 4,
            count == ex@.len(),
            forall|j: int| 0 <= j < 4 ==> #[trigger] analyses@[j] == analysis_spec(kind_at(j), ex@),
            i <= 4,
            best == best_schema_upto(ex@, i as nat),
            fitting == fit_count_upto(ex@, i as nat),
            fitting <= i,
        decreases 4 - i,
    {
        let a = analyses[i];
        proof {
            lemma_exact_count_le(kind_at(i as int), ex@);
            assert(a == analysis_spec(kind_at(i as int), ex@));
        }
        if a.exact_examples == count {
            fitting = fitting + 1;
            let replace = match best {
                None => true,
                Some(b) => a.node_cost < b.node_cost() || (a.node_cost == b.node_cost()
                    && kind_index(a.kind) < kind_index(b)),
            };
            if replace {
                best = Some(a.kind);
            }
        }
        i = i + 1;
    }
    (best, fitting)
}

/// The position of a schema in the frozen order.
fn kind_index(k: AbstractionSchemaKind) -> (r: usize)
    ensures
        r == kind_rank(k),
{
    match k {
        AbstractionSchemaKind::RecursiveAppendAdjacent => 0,
        AbstractionSchemaKind::EndpointBridge => 1,
        AbstractionSchemaKind::DisjointAdjacentPairs => 2,
        AbstractionSchemaKind::FixedArityThree => 3,
    }
}

proof fn lemma_count_all(kind: AbstractionSchemaKind, ex: Seq<ValidatedConcreteSolutionCertificate>)
    requires
        forall|i: int| 0 <= i < ex.len() ==> schema_fits(kind, #[trigger] ex[i]),
    ensures
        schema_exact_count(kind, ex) == ex.len(),
    decreases ex.len(),
{
    if ex.len() > 0 {
        assert forall|i: int| 0 <= i < ex.drop_last().len() implies schema_fits(
            kind,
            #[trigger] ex.drop_last()[i],
        ) by {
            assert(ex.drop_last()[i] == ex[i]);
        }
        lemma_count_all(kind, ex.drop_last());
        assert(schema_fits(kind, ex[ex.len() - 1]));
    }
}

proof fn lemma_count_misses(kind: AbstractionSchemaKind, ex: Seq<ValidatedConcreteSolutionCertificate>, j: int)
    requires
        0 <= j < ex.len(),
        !schema_fits(kind, ex[j]),
    ensures
        schema_exact_count(kind, ex) < ex.len(),
    decreases ex.len(),
{
    lemma_exact_count_le(kind, ex.drop_last());
    if j < ex.len() - 1 {
        assert(ex.drop_last()[j] == ex[j]);
        lemma_count_misses(kind, ex.drop_last(), j);
    }
}

proof fn lemma_arity_witness(ex: Seq<ValidatedConcreteSolutionCertificate>, a: int) -> (j: int)
    requires
        arity_count(ex, a) > 0,
    ensures
        0 <= j < ex.len(),
        ex[j].arity_view() == a,
    decreases ex.len(),
{
    if ex.last().arity_view() == a {
        ex.len() - 1
    } else {
        let j = lemma_arity_witness(ex.drop_last(), a);
        assert(ex.drop_last()[j] == ex[j]);
        j
    }
}

proof fn lemma_node_cost_by_arity(ex: Seq<ValidatedConcreteSolutionCertificate>)
    requires
        certs_well_formed(ex),
        forall|i: int| 0 <= i < ex.len() ==> 3 <= (#[trigger] ex[i]).arity_view() <= 5,
    ensures
        node_cost_sum(ex) == arity_count(ex, 3) + 3 * arity_count(ex, 4) + 5 * arity_count(ex, 5),
    decreases ex.len(),
{
    if ex.len() > 0 {
        assert forall|i: int| 0 <= i < ex.drop_last().len() implies 3 <= (
        #[trigger] ex.drop_last()[i]).arity_view() <= 5 by {
            assert(ex.drop_last()[i] == ex[i]);
        }
        assert(certs_well_formed(ex.drop_last())) by {
            assert forall|i: int| 0 <= i < ex.drop_last().len() implies {
                &&& (#[trigger] ex.drop_last()[i]).program_view().len() == ex.drop_last()[i].arity_view()
                &&& ex.drop_last()[i].arity_view() >= 3
                &&& ex.drop_last()[i].node_cost_view() == 2 * ex.drop_last()[i].arity_view() - 5
            } by {
                assert(ex.drop_last()[i] == ex[i]);
            }
        }
        lemma_node_cost_by_arity(ex.drop_last());
        assert(3 <= ex[ex.len() - 1].arity_view() <= 5);
    }
}

/// On a well-formed frozen support (four examples at each of the arities
/// three, four and five), the recursive-append schema is the only one that
/// fits every example, so it wins; the examples' node costs add up to 36.
pub proof fn law_frozen_support_selects_recursive_append(ex: Seq<ValidatedConcreteSolutionCertificate>)
    requires
        certs_well_formed(ex),
        support_error(ex) is None,
    ensures
        best_schema_upto(ex, 4) == Some(AbstractionSchemaKind::RecursiveAppendAdjacent),
        fit_count_upto(ex, 4) == 1,
        node_cost_sum(ex) == 36,
{
    assert forall|i: int| 0 <= i < ex.len() implies schema_fits(
        AbstractionSchemaKind::RecursiveAppendAdjacent,
        #[trigger] ex[i],
    ) by {}
    lemma_count_all(AbstractionSchemaKind::RecursiveAppendAdjacent, ex);
    let j4 = lemma_arity_witness(ex, 4);
    let b4 = ex[j4].program_view();
    assert(b4.len() == 4);
    assert(edges_spec(b4).len() == 3);
    assert(!schema_fits(AbstractionSchemaKind::EndpointBridge, ex[j4]));
    assert(!schema_fits(AbstractionSchemaKind::DisjointAdjacentPairs, ex[j4]));
    assert(!schema_fits(AbstractionSchemaKind::FixedArityThree, ex[j4]));
    lemma_count_misses(AbstractionSchemaKind::EndpointBridge, ex, j4);
    lemma_count_misses(AbstractionSchemaKind::DisjointAdjacentPairs, ex, j4);
    lemma_count_misses(AbstractionSchemaKind::FixedArityThree, ex, j4);
    assert(best_schema_upto(ex, 0) is None);
    assert(best_schema_upto(ex, 1) == Some(AbstractionSchemaKind::RecursiveAppendAdjacent));
    assert(best_schema_upto(ex, 2) == Some(AbstractionSchemaKind::RecursiveAppendAdjacent));
    assert(best_schema_upto(ex, 3) == Some(AbstractionSchemaKind::RecursiveAppendAdjacent));
    assert(fit_count_upto(ex, 0) == 0);
    assert(fit_count_upto(ex, 1) == 1);
    assert(fit_count_upto(ex, 2) == 1);
    assert(fit_count_upto(ex, 3) == 1);
    lemma_arity_counts_cover(ex);
    lemma_node_cost_by_arity(ex);
}

/// The digest of a sequence of lineages, continued from `h`.
pub open spec fn digest_lineages(h: u64, ls: Seq<(u64, u64, u64, usize, Seq<char>)>) -> u64
    decreases ls.len(),
{
    if ls.len() == 0 {
        h
    } else {
        let l = ls.last();
        mix64_spec(
            digest_lineages(h, ls.drop_last()) ^ l.0 ^ l.1 ^ l.2 ^ (l.3 as u64) ^ hash_text_spec(
                l.4,
            ),
        )
    }
}

/// The digest of an abstraction problem: the cohort, the parent, then each
/// example lineage in order.
pub open spec fn digest_abstraction_spec(
    cohort_id: u64,
    parent: (u64, u64, u64, ComposedProductionKind, Seq<char>),
    ls: Seq<(u64, u64, u64, usize, Seq<char>)>,
) -> u64 {
    digest_lineages(
        mix64_spec(cohort_id ^ parent.0 ^ parent.1 ^ parent.2 ^ hash_text_spec(parent.4)),
        ls,
    )
}

fn digest_abstraction(
    cohort_id: u64,
    parent: &OmegaG2AbstractionLineage,
    examples: &Vec<ConcreteSolutionLineage>,
) -> (r: u64)
    ensures
        r == digest_abstraction_spec(
            cohort_id,
            parent_lineage_view(*parent),
            lineages_view(examples@),
        ),
{
    let ghost ls = lineages_view(examples@);
    let ghost h0 = mix64_spec(
        cohort_id ^ parent.cohort_id ^ parent.problem_digest ^ parent.proof_id ^ hash_text_spec(
            parent.registry_signature@,
        ),
    );
    let mut hash = mix64(
        cohort_id ^ parent.cohort_id ^ parent.problem_digest ^ parent.proof_id ^ hash_text(
            parent.registry_signature.as_str(),
        ),
    );
    let mut i: usize = 0;
    while i < examples.len()
        invariant
            ls == lineages_view(examples@),
            i <= examples@.len(),
            hash == digest_lineages(h0, ls.subrange(0, i as int)),
        decreases examples@.len() - i,
    {
        assert(ls.subrange(0, i as int + 1).drop_last() =~= ls.subrange(0, i as int));
        let e = &examples[i];
        hash = mix64(
            hash ^ e.root_id ^ e.proof_id ^ e.problem_digest ^ (e.arity as u64) ^ hash_text(
                e.canonical_expression.as_str(),
            ),
        );
        i = i + 1;
    }
    assert(ls.subrange(0, ls.len() as int) =~= ls);
    hash
}

/// The proof that a schema abstracts the examples.
#[derive(Debug, Clone, PartialEq, Eq)]
pub struct AbstractionProof {
    pub proof_id: u64,
    pub cohort_id: u64,
    pub problem_digest: u64,
    pub parent_lineage: OmegaG2AbstractionLineage,
    pub examples: Vec<ConcreteSolutionLineage>,
    pub analyses: Vec<SchemaAnalysis>,
    pub winner: AbstractionSchemaKind,
    pub exact_schema_count: usize,
    pub concrete_node_cost: usize,
    pub schema_node_cost: usize,
    pub compression_advantage: usize,
}

/// The identifier of an abstraction proof.
pub open spec fn abstraction_proof_id_spec(digest: u64, winner: AbstractionSchemaKind, advantage: usize) -> u64 {
    mix64_spec(digest ^ hash_text_spec(kind_name_spec(winner)) ^ rotl_spec(advantage as u64, 23))
}

/// `p` is the abstraction proof for the examples under this parent.
pub open spec fn is_abstraction_proof_of(
    cohort_id: u64,
    parent: (u64, u64, u64, ComposedProductionKind, Seq<char>),
    ex: Seq<ValidatedConcreteSolutionCertificate>,
    p: AbstractionProof,
) -> bool {
    &&& p.cohort_id == cohort_id
    &&& parent_lineage_view(p.parent_lineage) == parent
    &&& lineages_view(p.examples@) == stable_sort_lineages(
        ex.map_values(|c: ValidatedConcreteSolutionCertificate| cert_lineage_view(c)),
    )
    &&& lineages_view(p.examples@).to_multiset() == ex.map_values(
        |c: ValidatedConcreteSolutionCertificate| cert_lineage_view(c),
    ).to_multiset()
    &&& sorted_by_key(lineages_view(p.examples@))
    &&& p.analyses@.len() == 4
    &&& forall|i: int| 0 <= i < 4 ==> #[trigger] p.analyses@[i] == analysis_spec(kind_at(i), ex)
    &&& best_schema_upto(ex, 4) == Some(p.winner)
    &&& p.exact_schema_count == fit_count_upto(ex, 4)
    &&& p.concrete_node_cost == node_cost_sum(ex)
    &&& p.schema_node_cost == kind_cost_spec(p.winner)
    &&& p.compression_advantage == if p.concrete_node_cost >= p.schema_node_cost {
        p.concrete_node_cost - p.schema_node_cost
    } else {
        0
    }
    &&& p.problem_digest == digest_abstraction_spec(cohort_id, parent, lineages_view(p.examples@))
    &&& p.proof_id == abstraction_proof_id_spec(p.problem_digest, p.winner, p.compression_advantage)
}

/// What abstraction search adds to its budget.
pub open spec fn abstraction_budget_after(
    ex: Seq<ValidatedConcreteSolutionCertificate>,
    before: AbstractionSearchBudget,
    after: AbstractionSearchBudget,
) -> bool {
    if support_error(ex) is Some {
        after == before
    } else {
        &&& after.schema_candidates == sat_add_spec(before.schema_candidates as int, 4)
        &&& after.schema_example_evaluations == sat_add_spec(
            before.schema_example_evaluations as int,
            4 * ex.len() as int,
        )
    }
}

/// The node cost of the examples, in order.
fn sum_node_costs(examples: &[ValidatedConcreteSolutionCertificate]) -> (r: usize)
    requires
        certs_well_formed(examples@),
        support_error(examples@) is None,
    ensures
        r == node_cost_sum(examples@),
{
    proof {
        law_frozen_support_selects_recursive_append(examples@);
        lemma_arity_counts_cover(examples@);
    }
    let ghost ex = examples@;
    let mut total: usize = 0;
    let mut i: usize = 0;
    while i < examples.len()
        invariant
            ex == examples@,
            i <= ex.len(),
            ex.len() == 12,
            certs_well_formed(ex),
            forall|k: int| 0 <= k < ex.len() ==> 3 <= (#[trigger] ex[k]).arity_view() <= 5,
            total == node_cost_sum(ex.subrange(0, i as int)),
            total <= 5 * i,
        decreases ex.len() - i,
    {
        assert(ex.subrange(0, i as int + 1).drop_last() =~= ex.subrange(0, i as int));
        assert(ex[i as int].arity_view() <= 5);
        total = total + examples[i].node_cost();
        i = i + 1;
    }
    assert(ex.subrange(0, ex.len() as int) =~= ex);
    total
}

/// Factors the validated examples through the four schemas and proves the
/// best-ranked one that fits every example.
#[verifier::rlimit(30)]
fn search_abstraction(
    cohort_id: u64,
    parent: &ValidatedOmegaG2AbstractionParent,
    examples: &[ValidatedConcreteSolutionCertificate],
    budget: &mut AbstractionSearchBudget,
) -> (r: Result<AbstractionProof, AbstractionReuseError>)
    ensures
        match r {
            Ok(p) => support_error(examples@) is None && is_abstraction_proof_of(
                cohort_id,
                parent.lineage_view(),
                examples@,
                p,
            ),
            Err(e) => support_error(examples@) == Some(e),
        },
        abstraction_budget_after(examples@, *old(budget), *final(budget)),
{
    match validate_example_support(examples) {
        Ok(_) => {},
        Err(e) => return Err(e),
    }
    certs_invariant(examples);
    proof {
        law_frozen_support_selects_recursive_append(examples@);
    }
    let mut lineages: Vec<ConcreteSolutionLineage> = Vec::new();
    let mut i: usize = 0;
    while i < examples.len()
        invariant
            i <= examples@.len(),
            lineages@.len() == i,
            forall|k: int|
                0 <= k < i ==> lineage_view(#[trigger] lineages@[k]) == cert_lineage_view(
                    examples@[k],
                ),
        decreases examples@.len() - i,
    {
        lineages.push(examples[i].lineage());
        i = i + 1;
    }
    proof {
        assert(lineages_view(lineages@) =~= examples@.map_values(
            |c: ValidatedConcreteSolutionCertificate| cert_lineage_view(c),
        ));
    }
    let lineages = sort_lineages(lineages);
    let concrete_node_cost = sum_node_costs(examples);
    let analyses = analyze_schemas(examples, budget);
    let (best, exact_schema_count) = choose_winner(&analyses, examples.len(), Ghost(examples@));
    let winner = match best {
        Some(k) => k,
        None => return Err(AbstractionReuseError::NoAbstraction),
    };
    let schema_node_cost = winner.node_cost();
    let compression_advantage = concrete_node_cost.saturating_sub(schema_node_cost);
    let parent_lineage = parent.lineage();
    let problem_digest = digest_abstraction(cohort_id, parent_lineage, &lineages);
    let proof_id = mix64(
        problem_digest ^ hash_text(winner.name()) ^ rotl(compression_advantage as u64, 23),
    );
    Ok(
        AbstractionProof {
            proof_id,
            cohort_id,
            problem_digest,
            parent_lineage: parent_lineage.duplicate(),
            examples: lineages,
            analyses,
            winner,
            exact_schema_count,
            concrete_node_cost,
            schema_node_cost,
            compression_advantage,
        },
    )
}

/// Whether two abstraction proofs agree field for field.
pub open spec fn abstraction_proof_eq(a: AbstractionProof, b: AbstractionProof) -> bool {
    &&& a.proof_id == b.proof_id
    &&& a.cohort_id == b.cohort_id
    &&& a.problem_digest == b.problem_digest
    &&& parent_lineage_view(a.parent_lineage) == parent_lineage_view(b.parent_lineage)
    &&& lineages_view(a.examples@) == lineages_view(b.examples@)
    &&& a.analyses@ == b.analyses@
    &&& a.winner == b.winner
    &&& a.exact_schema_count == b.exact_schema_count
    &&& a.concrete_node_cost == b.concrete_node_cost
    &&& a.schema_node_cost == b.schema_node_cost
    &&& a.compression_advantage == b.compression_advantage
}

fn same_lineages(a: &Vec<ConcreteSolutionLineage>, b: &Vec<ConcreteSolutionLineage>) -> (r: bool)
    ensures
        r == (lineages_view(a@) == lineages_view(b@)),
{
    if a.len() != b.len() {
        assert(lineages_view(a@).len() != lineages_view(b@).len());
        return false;
    }
    let mut i: usize = 0;
    while i < a.len()
        invariant
            a@.len() == b@.len(),
            i <= a@.len(),
            forall|j: int| 0 <= j < i ==> lineage_view(#[trigger] a@[j]) == lineage_view(b@[j]),
        decreases a@.len() - i,
    {
        let x = &a[i];
        let y = &b[i];
        if !(x.root_id == y.root_id && x.proof_id == y.proof_id && x.problem_digest
            == y.problem_digest && x.arity == y.arity && x.canonical_expression
            == y.canonical_expression) {
            assert(lineages_view(a@)[i as int] != lineages_view(b@)[i as int]);
            return false;
        }
        i = i + 1;
    }
    assert(lineages_view(a@) =~= lineages_view(b@));
    true
}

fn same_analyses(a: &Vec<SchemaAnalysis>, b: &Vec<SchemaAnalysis>) -> (r: bool)
    ensures
        r == (a@ == b@),
{
    if a.len() != b.len() {
        return false;
    }
    let mut i: usize = 0;
    while i < a.len()
        invariant
            a@.len() == b@.len(),
            i <= a@.len(),
            forall|j: int| 0 <= j < i ==> a@[j] == b@[j],
        decreases a@.len() - i,
    {
        if a[i] != b[i] {
            return false;
        }
        i = i + 1;
    }
    assert(a@ =~= b@);
    true
}

fn same_abstraction_proof(a: &AbstractionProof, b: &AbstractionProof) -> (r: bool)
    ensures
        r == abstraction_proof_eq(*a, *b),
{
    a.proof_id == b.proof_id && a.cohort_id == b.cohort_id && a.problem_digest == b.problem_digest
        && same_parent_lineage(&a.parent_lineage, &b.parent_lineage) && same_lineages(
        &a.examples,
        &b.examples,
    ) && same_analyses(&a.analyses, &b.analyses) && a.winner == b.winner
        && a.exact_schema_count == b.exact_schema_count && a.concrete_node_cost
        == b.concrete_node_cost && a.schema_node_cost == b.schema_node_cost
        && a.compression_advantage == b.compression_advantage
}

/// Why the frozen gates refuse an abstraction proof, if they do.
pub open spec fn gate_error(p: AbstractionProof) -> Option<AbstractionReuseError> {
    if p.winner != AbstractionSchemaKind::RecursiveAppendAdjacent {
        Some(AbstractionReuseError::AbstractionGate("wrong winner"))
    } else if p.exact_schema_count != 1 {
        Some(AbstractionReuseError::AbstractionGate("winner is not unique"))
    } else if p.examples@.len() != 12 || p.concrete_node_cost != 36 || p.schema_node_cost != 5
        || p.compression_advantage != 31 {
        Some(AbstractionReuseError::AbstractionGate("frozen support or compression mismatch"))
    } else {
        None
    }
}

fn enforce_abstraction_gates(proof: &AbstractionProof) -> (r: Result<(), AbstractionReuseError>)
    ensures
        match r {
            Ok(_) => gate_error(*proof) is None,
            Err(e) => gate_error(*proof) == Some(e),
        },
{
    if proof.winner != AbstractionSchemaKind::RecursiveAppendAdjacent {
        return Err(AbstractionReuseError::AbstractionGate("wrong winner"));
    }
    if proof.exact_schema_count != 1 {
        return Err(AbstractionReuseError::AbstractionGate("winner is not unique"));
    }
    if proof.examples.len() != 12 || proof.concrete_node_cost != 36 || proof.schema_node_cost != 5
        || proof.compression_advantage != 31 {
        return Err(AbstractionReuseError::AbstractionGate("frozen support or compression mismatch"));
    }
    Ok(())
}

/// An abstraction whose proof was recomputed, matched and passed the gates.
#[derive(Debug, PartialEq, Eq)]
pub struct ValidatedAbstractionCertificate {
    cohort_id: u64,
    proof_id: u64,
    problem_digest: u64,
    parent_lineage: OmegaG2AbstractionLineage,
    kind: AbstractionSchemaKind,
}

impl ValidatedAbstractionCertificate {
    /// The certified cohort.
    pub closed spec fn cohort_id_view(&self) -> u64 {
        self.cohort_id
    }

    /// The certified proof identifier.
    pub closed spec fn proof_id_view(&self) -> u64 {
        self.proof_id
    }

    /// The certified problem digest.
    pub closed spec fn problem_digest_view(&self) -> u64 {
        self.problem_digest
    }

    /// The certified parent lineage.
    pub closed spec fn parent_lineage_view(&self) -> (u64, u64, u64, ComposedProductionKind, Seq<char>) {
        parent_lineage_view(self.parent_lineage)
    }

    /// The certified schema.
    pub closed spec fn kind_view(&self) -> AbstractionSchemaKind {
        self.kind
    }

    pub fn cohort_id(&self) -> (r: u64)
        ensures
            r == self.cohort_id_view(),
    {
        self.cohort_id
    }

    pub fn proof_id(&self) -> (r: u64)
        ensures
            r == self.proof_id_view(),
    {
        self.proof_id
    }

    pub fn kind(&self) -> (r: AbstractionSchemaKind)
        ensures
            r == self.kind_view(),
    {
        self.kind
    }
}

/// Synthesizes the abstraction proof of the examples under the parent.
pub fn synthesize_abstraction(
    cohort_id: u64,
    parent: &ValidatedOmegaG2AbstractionParent,
    examples: &[ValidatedConcreteSolutionCertificate],
    budget: &mut AbstractionSearchBudget,
) -> (r: Result<AbstractionProof, AbstractionReuseError>)
    ensures
        match r {
            Ok(p) => support_error(examples@) is None && is_abstraction_proof_of(
                cohort_id,
                parent.lineage_view(),
                examples@,
                p,
            ),
            Err(e) => support_error(examples@) == Some(e),
        },
        abstraction_budget_after(examples@, *old(budget), *final(budget)),
{
    search_abstraction(cohort_id, parent, examples, budget)
}

/// Recomputes the abstraction proof and certifies the supplied proof when it
/// matches field for field and passes the frozen gates. On a valid support
/// the gates always pass: the recursive-append schema wins alone and
/// compresses the examples' 36 nodes to 5.
pub fn validate_abstraction(
    cohort_id: u64,
    parent: &ValidatedOmegaG2AbstractionParent,
    examples: &[ValidatedConcreteSolutionCertificate],
    supplied: &AbstractionProof,
    budget: &mut AbstractionSearchBudget,
) -> (r: Result<ValidatedAbstractionCertificate, AbstractionReuseError>)
    ensures
        match r {
            Ok(c) => {
                &&& support_error(examples@) is None
                &&& is_abstraction_proof_of(cohort_id, parent.lineage_view(), examples@, *supplied)
                &&& c.cohort_id_view() == cohort_id
                &&& c.proof_id_view() == supplied.proof_id
                &&& c.problem_digest_view() == supplied.problem_digest
                &&& c.parent_lineage_view() == parent.lineage_view()
                &&& c.kind_view() == supplied.winner
                &&& c.kind_view() == AbstractionSchemaKind::RecursiveAppendAdjacent
            },
            Err(e) => support_error(examples@) == Some(e) || (support_error(examples@) is None
                && !is_abstraction_proof_of(cohort_id, parent.lineage_view(), examples@, *supplied)
                && e == AbstractionReuseError::AbstractionProofMismatch),
        },
        abstraction_budget_after(examples@, *old(budget), *final(budget)),
{
    let recomputed = match search_abstraction(cohort_id, parent, examples, budget) {
        Ok(p) => p,
        Err(e) => return Err(e),
    };
    proof {
        if is_abstraction_proof_of(cohort_id, parent.lineage_view(), examples@, *supplied) {
            assert(supplied.analyses@ =~= recomputed.analyses@);
            assert(abstraction_proof_eq(*supplied, recomputed));
        }
    }
    if !same_abstraction_proof(supplied, &recomputed) {
        return Err(AbstractionReuseError::AbstractionProofMismatch);
    }
    certs_invariant(examples);
    proof {
        law_frozen_support_selects_recursive_append(examples@);
        let lv = lineages_view(recomputed.examples@);
        let ev = examples@.map_values(
            |c: ValidatedConcreteSolutionCertificate| cert_lineage_view(c),
        );
        lv.to_multiset_ensures();
        ev.to_multiset_ensures();
        assert(lv.len() == recomputed.examples@.len());
        assert(ev.len() == 12);
    }
    match enforce_abstraction_gates(&recomputed) {
        Ok(_) => {},
        Err(e) => return Err(e),
    }
    Ok(
        ValidatedAbstractionCertificate {
            cohort_id: recomputed.cohort_id,
            proof_id: recomputed.proof_id,
            problem_digest: recomputed.problem_digest,
            parent_lineage: recomputed.parent_lineage,
            kind: recomputed.winner,
        },
    )
}

/// The registry of admitted abstractions for one cohort and parent.
#[derive(Debug, PartialEq, Eq)]
pub struct AbstractionRegistry {
    cohort_id: u64,
    parent_lineage: OmegaG2AbstractionLineage,
    admitted: Vec<AbstractionSchemaKind>,
    proof_ids: Vec<u64>,
}

/// The model of a registry: cohort, parent lineage, admitted schemas and
/// admitted proof identifiers.
pub struct RegistryModel {
    pub cohort_id: u64,
    pub parent: (u64, u64, u64, ComposedProductionKind, Seq<char>),
    pub admitted: Set<AbstractionSchemaKind>,
    pub proof_ids: Set<u64>,
}

/// The `|name` parts of the admitted schemas among the first `i`, in frozen order.
pub open spec fn admitted_names(admitted: Set<AbstractionSchemaKind>, i: nat) -> Seq<char>
    decreases i,
{
    if i == 0 {
        Seq::empty()
    } else {
        admitted_names(admitted, (i - 1) as nat) + if admitted.contains(kind_at(i - 1)) {
            "|"@ + kind_name_spec(kind_at(i - 1))
        } else {
            Seq::empty()
        }
    }
}

/// `cohort:<id>|parent:<cohort>:<digest>:<proof>:<signature>` followed by
/// `|<name>` for each admitted schema in frozen order.
pub open spec fn registry_signature_spec(m: RegistryModel) -> Seq<char> {
    "cohort:"@ + crate::text::decimal_spec(m.cohort_id as nat) + "|parent:"@
        + crate::text::decimal_spec(m.parent.0 as nat) + ":"@ + crate::text::decimal_spec(
        m.parent.1 as nat,
    ) + ":"@ + crate::text::decimal_spec(m.parent.2 as nat) + ":"@ + m.parent.4 + admitted_names(
        m.admitted,
        4,
    )
}

/// What admitting a certificate does to a registry: the error that refuses
/// it, if any, and the state after.
pub open spec fn admit_step(m: RegistryModel, c: ValidatedAbstractionCertificate) -> (
    Option<AbstractionReuseError>,
    RegistryModel,
) {
    if c.cohort_id_view() != m.cohort_id {
        (Some(AbstractionReuseError::ForeignAbstractionCertificate), m)
    } else if c.parent_lineage_view() != m.parent {
        (Some(AbstractionReuseError::ParentRegistryMismatch), m)
    } else if c.kind_view() != AbstractionSchemaKind::RecursiveAppendAdjacent {
        (Some(AbstractionReuseError::WrongAbstractionKind), m)
    } else if m.proof_ids.contains(c.proof_id_view()) || m.admitted.contains(c.kind_view()) {
        (Some(AbstractionReuseError::DuplicateAbstractionAdmission), m)
    } else {
        (
            None,
            RegistryModel {
                admitted: m.admitted.insert(c.kind_view()),
                proof_ids: m.proof_ids.insert(c.proof_id_view()),
                ..m
            },
        )
    }
}

impl AbstractionRegistry {
    #[verifier::type_invariant]
    spec fn wf(&self) -> bool {
        &&& self.admitted@.no_duplicates()
        &&& self.proof_ids@.no_duplicates()
        &&& self.admitted@.len() == self.proof_ids@.len()
        &&& self.admitted@.len() <= 1
        &&& forall|i: int|
            0 <= i < self.admitted@.len() ==> self.admitted@[i]
                == AbstractionSchemaKind::RecursiveAppendAdjacent
        &&& self.parent_lineage.admitted_kind == ComposedProductionKind::ConsecutiveChain3
    }

    /// The registry's model.
    pub closed spec fn model(&self) -> RegistryModel {
        RegistryModel {
            cohort_id: self.cohort_id,
            parent: parent_lineage_view(self.parent_lineage),
            admitted: self.admitted@.to_set(),
            proof_ids: self.proof_ids@.to_set(),
        }
    }

    /// An empty registry for the cohort, bound to the parent.
    pub fn new(cohort_id: u64, parent: &ValidatedOmegaG2AbstractionParent) -> (r: Self)
        ensures
            r.model().cohort_id == cohort_id,
            r.model().parent == parent.lineage_view(),
            r.model().admitted == Set::<AbstractionSchemaKind>::empty(),
            r.model().proof_ids == Set::<u64>::empty(),
    {
        let lineage = parent.lineage();
        let r = AbstractionRegistry {
            cohort_id,
            parent_lineage: lineage.duplicate(),
            admitted: Vec::new(),
            proof_ids: Vec::new(),
        };
        assert(r.admitted@.to_set() =~= Set::<AbstractionSchemaKind>::empty());
        assert(r.proof_ids@.to_set() =~= Set::<u64>::empty());
        r
    }

    pub fn cohort_id(&self) -> (r: u64)
        ensures
            r == self.model().cohort_id,
    {
        self.cohort_id
    }

    /// How many schemas are admitted.
    pub fn admitted_count(&self) -> (r: usize)
        ensures
            r == self.model().admitted.len(),
    {
        proof {
            use_type_invariant(self);
            self.admitted@.unique_seq_to_set();
        }
        self.admitted.len()
    }

    /// Whether a schema is admitted.
    pub fn supports(&self, kind: AbstractionSchemaKind) -> (r: bool)
        ensures
            r == self.model().admitted.contains(kind),
    {
        let mut i: usize = 0;
        while i < self.admitted.len()
            invariant
                i <= self.admitted@.len(),
                forall|j: int| 0 <= j < i ==> self.admitted@[j] != kind,
            decreases self.admitted@.len() - i,
        {
            if self.admitted[i] == kind {
                assert(self.admitted@.to_set().contains(self.admitted@[i as int]));
                return true;
            }
            i = i + 1;
        }
        false
    }
}

proof fn lemma_singleton_to_set<A>(x: A)
    ensures
        seq![x].to_set() == Set::<A>::empty().insert(x),
{
    assert forall|y: A| seq![x].to_set().contains(y) <==> Set::<A>::empty().insert(x).contains(y) by {
        if y == x {
            assert(seq![x][0] == y);
        }
    }
    assert(seq![x].to_set() =~= Set::<A>::empty().insert(x));
}

fn vec_contains_u64(v: &Vec<u64>, x: u64) -> (r: bool)
    ensures
        r == v@.contains(x),
{
    let mut i: usize = 0;
    while i < v.len()
        invariant
            i <= v@.len(),
            forall|j: int| 0 <= j < i ==> v@[j] != x,
        decreases v@.len() - i,
    {
        if v[i] == x {
            return true;
        }
        i = i + 1;
    }
    false
}

impl AbstractionRegistry {
    /// `cohort:<id>|parent:<cohort>:<digest>:<proof>:<signature>`, then
    /// `|<name>` for each admitted schema.
    pub fn canonical_signature(&self) -> (s: String)
        ensures
            s@ == registry_signature_spec(self.model()),
    {
        let mut s = String::new();
        s.append("cohort:");
        s.append(crate::text::decimal(self.cohort_id).as_str());
        s.append("|parent:");
        s.append(crate::text::decimal(self.parent_lineage.cohort_id).as_str());
        s.append(":");
        s.append(crate::text::decimal(self.parent_lineage.problem_digest).as_str());
        s.append(":");
        s.append(crate::text::decimal(self.parent_lineage.proof_id).as_str());
        s.append(":");
        s.append(self.parent_lineage.registry_signature.as_str());
        let ghost head = s@;
        let kinds = AbstractionSchemaKind::all();
        let mut i: usize = 0;
        while i < 4
            invariant
                forall|j: int| 0 <= j < 4 ==> #[trigger] kinds@[j] == kind_at(j),
                i <= 4,
                s@ == head + admitted_names(self.model().admitted, i as nat),
            decreases 4 - i,
        {
            if self.supports(kinds[i]) {
                s.append("|");
                s.append(kinds[i].name());
            }
            i = i + 1;
        }
        s
    }

    /// Admits a validated abstraction certificate of this cohort and parent,
    /// once. A refused admission leaves the registry unchanged.
    pub fn admit_certificate(&mut self, certificate: &ValidatedAbstractionCertificate) -> (r: Result<
        (),
        AbstractionReuseError,
    >)
        ensures
            r matches Err(e) ==> admit_step(old(self).model(), *certificate).0 == Some(e),
            r is Ok ==> admit_step(old(self).model(), *certificate).0 is None,
            final(self).model() == admit_step(old(self).model(), *certificate).1,
    {
        if certificate.cohort_id != self.cohort_id {
            return Err(AbstractionReuseError::ForeignAbstractionCertificate);
        }
        if !same_parent_lineage(&certificate.parent_lineage, &self.parent_lineage) {
            return Err(AbstractionReuseError::ParentRegistryMismatch);
        }
        if certificate.kind != AbstractionSchemaKind::RecursiveAppendAdjacent {
            return Err(AbstractionReuseError::WrongAbstractionKind);
        }
        if vec_contains_u64(&self.proof_ids, certificate.proof_id) || self.supports(
            certificate.kind,
        ) {
            assert(self.proof_ids@.contains(certificate.proof_id) ==> self.proof_ids@.to_set().contains(certificate.proof_id));
            return Err(AbstractionReuseError::DuplicateAbstractionAdmission);
        }
        proof {
            use_type_invariant(&*self);
            if self.admitted@.len() > 0 {
                assert(self.admitted@[0] == AbstractionSchemaKind::RecursiveAppendAdjacent);
                assert(self.admitted@.to_set().contains(self.admitted@[0]));
            }
            if self.proof_ids@.len() > 0 {
                assert(self.proof_ids@.to_set().contains(self.proof_ids@[0]));
            }
            assert(self.admitted@.len() == 0);
            assert(self.proof_ids@.to_set() =~= Set::<u64>::empty());
            assert(self.admitted@.to_set() =~= Set::<AbstractionSchemaKind>::empty());
        }
        let mut admitted: Vec<AbstractionSchemaKind> = Vec::new();
        admitted.push(certificate.kind);
        let mut proof_ids: Vec<u64> = Vec::new();
        proof_ids.push(certificate.proof_id);
        let lineage = self.parent_lineage.duplicate();
        *self = AbstractionRegistry {
            cohort_id: self.cohort_id,
            parent_lineage: lineage,
            admitted,
            proof_ids,
        };
        proof {
            assert(self.admitted@ =~= seq![certificate.kind_view()]);
            assert(self.proof_ids@ =~= seq![certificate.proof_id_view()]);
            lemma_singleton_to_set(certificate.kind_view());
            lemma_singleton_to_set(certificate.proof_id_view());
            assert(self.admitted@.to_set() =~= Set::<AbstractionSchemaKind>::empty().insert(
                certificate.kind_view(),
            ));
            assert(self.proof_ids@.to_set() =~= Set::<u64>::empty().insert(
                certificate.proof_id_view(),
            ));
        }
        self.verify_invariants()
    }

    /// Raw schemas cannot be injected: every call is refused.
    pub fn reject_raw_schema_injection(&self, kind: AbstractionSchemaKind) -> (r: Result<
        (),
        AbstractionReuseError,
    >)
        ensures
            r == Err::<(), AbstractionReuseError>(AbstractionReuseError::RawSchemaInjection),
    {
        Err(AbstractionReuseError::RawSchemaInjection)
    }

    /// Checks that as many proofs as schemas are admitted, at most one, and
    /// that the parent is the three-step chain; this always holds.
    pub fn verify_invariants(&self) -> (r: Result<(), AbstractionReuseError>)
        ensures
            r is Ok,
            self.model().admitted.len() == self.model().proof_ids.len(),
            self.model().admitted.len() <= 1,
            self.model().parent.3 == ComposedProductionKind::ConsecutiveChain3,
    {
        proof {
            use_type_invariant(self);
            self.admitted@.unique_seq_to_set();
            self.proof_ids@.unique_seq_to_set();
        }
        if self.admitted.len() != self.proof_ids.len() || self.admitted.len() > 1 {
            return Err(
                AbstractionReuseError::InvariantViolation(
                    crate::text::string_of("abstraction proof/schema cardinality mismatch"),
                ),
            );
        }
        if self.parent_lineage.admitted_kind != ComposedProductionKind::ConsecutiveChain3 {
            return Err(
                AbstractionReuseError::InvariantViolation(
                    crate::text::string_of("abstraction registry lost its parent"),
                ),
            );
        }
        Ok(())
    }
}

/// Counters of the work reuse synthesis did.
#[derive(Debug, Clone, PartialEq, Eq)]
pub struct ReuseSynthesisBudget {
    pub tasks: usize,
    pub candidate_programs: usize,
    pub program_history_evaluations: usize,
}

impl Default for ReuseSynthesisBudget {
    fn default() -> (b: Self)
        ensures
            b.tasks == 0,
            b.candidate_programs == 0,
            b.program_history_evaluations == 0,
    {
        ReuseSynthesisBudget { tasks: 0, candidate_programs: 0, program_history_evaluations: 0 }
    }
}

/// The proof that the admitted abstraction, reused, solves a task.
#[derive(Debug, Clone, PartialEq, Eq)]
pub struct ReuseProof {
    pub proof_id: u64,
    pub root_id: u64,
    pub problem_digest: u64,
    pub registry_signature: String,
    pub arity: usize,
    pub candidate_programs: usize,
    pub program_history_evaluations: usize,
    pub exact_candidates: usize,
    pub program: BoundChainProgram,
}

/// Why reuse refuses a task, if it does: the recursive-append schema is not
/// the one admitted abstraction; the task is invalid; or a negative history
/// repeats the positive one, so no binding is exact.
pub open spec fn reuse_failure(task: ChainTask, m: RegistryModel) -> Option<AbstractionReuseError> {
    if !m.admitted.contains(AbstractionSchemaKind::RecursiveAppendAdjacent) || m.admitted.len()
        != 1 {
        Some(AbstractionReuseError::AbstractionNotAdmitted)
    } else {
        match task_error(task) {
            Some(e) => Some(e),
            None => if negative_repeats(task.discovery@) {
                Some(AbstractionReuseError::NoReuseSolution)
            } else {
                None
            },
        }
    }
}

/// The identifier of a reuse proof.
pub open spec fn reuse_proof_id_spec(digest: u64, signature: Seq<char>, canonical: Seq<char>) -> u64 {
    mix64_spec(digest ^ hash_text_spec(signature) ^ hash_text_spec(canonical))
}

/// `p` is the reuse proof for `task` under a registry in state `m`.
pub open spec fn is_reuse_proof_of(task: ChainTask, m: RegistryModel, p: ReuseProof) -> bool {
    let d = task.discovery@;
    let n = task_arity(task);
    &&& p.root_id == task.root_id
    &&& p.problem_digest == digest_task_spec(task)
    &&& p.registry_signature@ == registry_signature_spec(m)
    &&& p.arity == n
    &&& p.candidate_programs == factorial_spec(n)
    &&& p.program_history_evaluations == sat_mul_spec(factorial_spec(n) as int, d.len() as int)
    &&& p.exact_candidates == 1
    &&& p.program@ == positive_events(d)
    &&& p.proof_id == reuse_proof_id_spec(
        p.problem_digest,
        p.registry_signature@,
        canonical_spec(positive_events(d)),
    )
}

/// What a reuse search adds to its budget.
pub open spec fn reuse_budget_after(
    task: ChainTask,
    m: RegistryModel,
    before: ReuseSynthesisBudget,
    after: ReuseSynthesisBudget,
) -> bool {
    let n = task_arity(task);
    if !m.admitted.contains(AbstractionSchemaKind::RecursiveAppendAdjacent) || m.admitted.len() != 1
        || task_error(task) is Some {
        after == before
    } else {
        &&& after.tasks == sat_add_spec(before.tasks as int, 1)
        &&& after.candidate_programs == sat_add_spec(
            before.candidate_programs as int,
            factorial_spec(n) as int,
        )
        &&& after.program_history_evaluations == sat_add_spec(
            before.program_history_evaluations as int,
            (factorial_spec(n) * task.discovery@.len()) as int,
        )
    }
}

/// The inputs on which reuse search completes: a valid task whose
/// factorial count fits in a machine word.
pub open spec fn reuse_search_fits(task: ChainTask) -> bool {
    task_error(task) is None ==> factorial_spec(task_arity(task)) <= usize::MAX
}

/// Runs every enumerated binding against every history, keeping the exact
/// binding with the smallest canonical text.
fn enumerate_reuse(
    all: &Vec<Vec<Atom>>,
    d: &Vec<LabeledChainHistory>,
    budget: &mut ReuseSynthesisBudget,
) -> (r: (usize, Option<BoundChainProgram>))
    requires
        d@.len() >= 1,
        positive_count(d@) == 1,
        occ(bindings_view(all@), positive_events(d@)) == 1,
    ensures
        r.0 == if negative_repeats(d@) {
            0int
        } else {
            1
        },
        negative_repeats(d@) ==> r.1 is None,
        !negative_repeats(d@) ==> (r.1 matches Some(w) && w@ == positive_events(d@)),
        final(budget).tasks == old(budget).tasks,
        final(budget).candidate_programs == sat_add_spec(
            old(budget).candidate_programs as int,
            all@.len() as int,
        ),
        final(budget).program_history_evaluations == sat_add_spec(
            old(budget).program_history_evaluations as int,
            (all@.len() * d@.len()) as int,
        ),
{
    let ghost dv = d@;
    let ghost ps = bindings_view(all@);
    let ghost pos = positive_events(dv);
    let ghost neg = negative_repeats(dv);
    let ghost c0 = old(budget).candidate_programs as int;
    let ghost e0 = old(budget).program_history_evaluations as int;
    let ghost len = dv.len() as int;
    let mut exact_candidates: usize = 0;
    let mut winner: Option<BoundChainProgram> = None;
    proof {
        assert(ps.subrange(0, 0) =~= Seq::<Seq<Seq<char>>>::empty());
    }
    let mut j: usize = 0;
    while j < all.len()
        invariant
            dv == d@,
            len == dv.len(),
            len >= 1,
            positive_count(dv) == 1,
            neg == negative_repeats(dv),
            pos == positive_events(dv),
            ps == bindings_view(all@),
            occ(ps, pos) == 1,
            j <= all@.len(),
            budget.tasks == old(budget).tasks,
            budget.candidate_programs == sat_add_spec(c0, j as int),
            budget.program_history_evaluations == sat_add_spec(e0, j * len),
            0 <= c0 <= usize::MAX,
            0 <= e0 <= usize::MAX,
            exact_candidates == (if neg {
                0
            } else {
                occ(ps.subrange(0, j as int), pos)
            }),
            occ(ps.subrange(0, j as int), pos) <= 1,
            winner is None <==> exact_candidates == 0,
            winner matches Some(w) ==> w@ == pos,
        decreases all@.len() - j,
    {
        proof {
            lemma_sat_add_assoc(c0, j as int, 1);
        }
        budget.candidate_programs = budget.candidate_programs.saturating_add(1);
        let program = BoundChainProgram::from_atoms(all[j].as_slice());
        let ghost o = occ(ps.subrange(0, j as int), pos);
        proof {
            assert(program@ == ps[j as int]);
            lemma_exact_iff(dv, program@);
            crate::combinatorics::lemma_occ_concat(
                ps.subrange(0, j as int + 1),
                ps.subrange(j as int + 1, ps.len() as int),
                pos,
            );
            assert(ps =~= ps.subrange(0, j as int + 1) + ps.subrange(j as int + 1, ps.len() as int));
            assert(ps.subrange(0, j as int + 1).drop_last() =~= ps.subrange(0, j as int));
            lemma_sat_add_assoc(e0, j * len, len);
            assert(j * len + len == (j + 1) * len) by (nonlinear_arith);
            assert(j * len >= 0) by (nonlinear_arith)
                requires
                    len >= 0,
            ;
        }
        let exact = run_histories(&program, d, &mut budget.program_history_evaluations);
        if exact {
            exact_candidates = exact_candidates + 1;
            let canon = program.canonical_string();
            let replace = match &winner {
                None => true,
                Some(current) => {
                    let current_canon = current.canonical_string();
                    crate::text::str_lt(canon.as_str(), current_canon.as_str())
                },
            };
            if replace {
                winner = Some(program);
            }
        }
        j = j + 1;
    }
    proof {
        assert(ps.subrange(0, ps.len() as int) =~= ps);
    }
    (exact_candidates, winner)
}

/// Reuses the admitted abstraction on a task: every binding of the task's
/// vocabulary, run against every history.
fn search_reuse(
    task: &ChainTask,
    registry: &AbstractionRegistry,
    budget: &mut ReuseSynthesisBudget,
) -> (r: Result<ReuseProof, AbstractionReuseError>)
    requires
        reuse_search_fits(*task),
    ensures
        match r {
            Ok(p) => reuse_failure(*task, registry.model()) is None && is_reuse_proof_of(
                *task,
                registry.model(),
                p,
            ),
            Err(e) => reuse_failure(*task, registry.model()) == Some(e),
        },
        reuse_budget_after(*task, registry.model(), *old(budget), *final(budget)),
{
    if !registry.supports(AbstractionSchemaKind::RecursiveAppendAdjacent)
        || registry.admitted_count() != 1 {
        return Err(AbstractionReuseError::AbstractionNotAdmitted);
    }
    let vocabulary = match validate_task(task) {
        Ok(v) => v,
        Err(e) => return Err(e),
    };
    let d = &task.discovery;
    let ghost voc = atoms_view(vocabulary@);
    let arity = vocabulary.len();
    let expected_candidates = factorial(arity);
    let expected_evaluations = sat_mul(expected_candidates, d.len());
    budget.tasks = budget.tasks.saturating_add(1);
    let all = permutations(vocabulary.as_slice());
    proof {
        lemma_factorial_mono(0, arity as nat);
        lemma_perms_len(voc);
        lemma_positive_is_arrangement(*task);
        lemma_perms_unique(voc, positive_events(d@));
    }
    let (exact_candidates, winner) = enumerate_reuse(&all, d, budget);
    proof {
        lemma_budget_covers(
            old(budget).candidate_programs as int,
            old(budget).program_history_evaluations as int,
            expected_candidates as int,
            1,
            d@.len() as int,
        );
        assert(expected_candidates as int * 1 == expected_candidates as int);
    }
    if budget.candidate_programs < expected_candidates
        || budget.program_history_evaluations < expected_evaluations {
        return Err(AbstractionReuseError::BudgetInvariant);
    }
    let program = match winner {
        Some(w) => w,
        None => return Err(AbstractionReuseError::NoReuseSolution),
    };
    let problem_digest = digest_task(task);
    let registry_signature = registry.canonical_signature();
    let canon = program.canonical_string();
    let proof_id = mix64(
        problem_digest ^ hash_text(registry_signature.as_str()) ^ hash_text(canon.as_str()),
    );
    Ok(
        ReuseProof {
            proof_id,
            root_id: task.root_id,
            problem_digest,
            registry_signature,
            arity,
            candidate_programs: expected_candidates,
            program_history_evaluations: expected_evaluations,
            exact_candidates,
            program,
        },
    )
}

/// Whether two reuse proofs agree field for field.
pub open spec fn reuse_proof_eq(a: ReuseProof, b: ReuseProof) -> bool {
    &&& a.proof_id == b.proof_id
    &&& a.root_id == b.root_id
    &&& a.problem_digest == b.problem_digest
    &&& a.registry_signature@ == b.registry_signature@
    &&& a.arity == b.arity
    &&& a.candidate_programs == b.candidate_programs
    &&& a.program_history_evaluations == b.program_history_evaluations
    &&& a.exact_candidates == b.exact_candidates
    &&& a.program@ == b.program@
}

fn same_reuse_proof(a: &ReuseProof, b: &ReuseProof) -> (r: bool)
    ensures
        r == reuse_proof_eq(*a, *b),
{
    a.proof_id == b.proof_id && a.root_id == b.root_id && a.problem_digest == b.problem_digest
        && a.registry_signature == b.registry_signature && a.arity == b.arity
        && a.candidate_programs == b.candidate_programs && a.program_history_evaluations
        == b.program_history_evaluations && a.exact_candidates == b.exact_candidates
        && atoms_equal(a.program.binding(), b.program.binding())
}

/// A reuse of the admitted abstraction whose proof was recomputed and matched.
#[derive(Debug, PartialEq, Eq)]
pub struct ValidatedReuseCertificate {
    root_id: u64,
    proof_id: u64,
    problem_digest: u64,
    registry_signature: String,
    program: BoundChainProgram,
}

impl ValidatedReuseCertificate {
    /// The certified root.
    pub closed spec fn root_id_view(&self) -> u64 {
        self.root_id
    }

    /// The certified proof identifier.
    pub closed spec fn proof_id_view(&self) -> u64 {
        self.proof_id
    }

    /// The certified problem digest.
    pub closed spec fn problem_digest_view(&self) -> u64 {
        self.problem_digest
    }

    /// The signature of the registry the reuse is bound to.
    pub closed spec fn registry_signature_view(&self) -> Seq<char> {
        self.registry_signature@
    }

    /// The certified program.
    pub closed spec fn program_view(&self) -> Seq<Seq<char>> {
        self.program@
    }

    pub fn root_id(&self) -> (r: u64)
        ensures
            r == self.root_id_view(),
    {
        self.root_id
    }

    pub fn program(&self) -> (r: &BoundChainProgram)
        ensures
            r@ == self.program_view(),
    {
        &self.program
    }
}

/// Synthesizes the reuse proof of a task under the registry.
pub fn synthesize_abstraction_reuse(
    task: &ChainTask,
    registry: &AbstractionRegistry,
    budget: &mut ReuseSynthesisBudget,
) -> (r: Result<ReuseProof, AbstractionReuseError>)
    requires
        reuse_search_fits(*task),
    ensures
        match r {
            Ok(p) => reuse_failure(*task, registry.model()) is None && is_reuse_proof_of(
                *task,
                registry.model(),
                p,
            ),
            Err(e) => reuse_failure(*task, registry.model()) == Some(e),
        },
        reuse_budget_after(*task, registry.model(), *old(budget), *final(budget)),
{
    search_reuse(task, registry, budget)
}

/// Recomputes the reuse proof and certifies the supplied proof when it
/// matches field for field and its winner is unique.
pub fn validate_abstraction_reuse(
    task: &ChainTask,
    registry: &AbstractionRegistry,
    supplied: &ReuseProof,
    budget: &mut ReuseSynthesisBudget,
) -> (r: Result<ValidatedReuseCertificate, AbstractionReuseError>)
    requires
        reuse_search_fits(*task),
    ensures
        match r {
            Ok(c) => {
                &&& reuse_failure(*task, registry.model()) is None
                &&& is_reuse_proof_of(*task, registry.model(), *supplied)
                &&& c.root_id_view() == supplied.root_id
                &&& c.proof_id_view() == supplied.proof_id
                &&& c.problem_digest_view() == supplied.problem_digest
                &&& c.registry_signature_view() == supplied.registry_signature@
                &&& c.program_view() == supplied.program@
            },
            Err(e) => reuse_failure(*task, registry.model()) == Some(e) || (reuse_failure(
                *task,
                registry.model(),
            ) is None && !is_reuse_proof_of(*task, registry.model(), *supplied) && e
                == AbstractionReuseError::ReuseProofMismatch),
        },
        reuse_budget_after(*task, registry.model(), *old(budget), *final(budget)),
{
    let recomputed = match search_reuse(task, registry, budget) {
        Ok(p) => p,
        Err(e) => return Err(e),
    };
    if !same_reuse_proof(supplied, &recomputed) {
        return Err(AbstractionReuseError::ReuseProofMismatch);
    }
    if recomputed.exact_candidates != 1 {
        return Err(AbstractionReuseError::ReuseGate("reuse winner is not unique"));
    }
    Ok(
        ValidatedReuseCertificate {
            root_id: recomputed.root_id,
            proof_id: recomputed.proof_id,
            problem_digest: recomputed.problem_digest,
            registry_signature: recomputed.registry_signature,
            program: recomputed.program,
        },
    )
}

/// The local state language of one root: at most one program, admitted
/// through a reuse certificate bound to one registry.
#[derive(Debug, PartialEq, Eq)]
pub struct AbstractionStateLanguage {
    root_id: u64,
    registry_signature: String,
    program: Option<BoundChainProgram>,
    proof_ids: Vec<u64>,
}

/// The model of a state language.
pub struct StateLanguageModel {
    pub root_id: u64,
    pub registry_signature: Seq<char>,
    pub program: Option<Seq<Seq<char>>>,
    pub proof_ids: Set<u64>,
}

/// What admitting a reuse certificate does to a state language: the error
/// that refuses it, if any, and the state after.
pub open spec fn admit_local_step(m: StateLanguageModel, c: ValidatedReuseCertificate) -> (
    Option<AbstractionReuseError>,
    StateLanguageModel,
) {
    if c.root_id_view() != m.root_id {
        (Some(AbstractionReuseError::ForeignReuseCertificate), m)
    } else if c.registry_signature_view() != m.registry_signature {
        (Some(AbstractionReuseError::AbstractionRegistryMismatch), m)
    } else if m.proof_ids.contains(c.proof_id_view()) || m.program is Some {
        (Some(AbstractionReuseError::DuplicateReuseAdmission), m)
    } else {
        (
            None,
            StateLanguageModel {
                program: Some(c.program_view()),
                proof_ids: m.proof_ids.insert(c.proof_id_view()),
                ..m
            },
        )
    }
}

impl AbstractionStateLanguage {
    #[verifier::type_invariant]
    spec fn wf(&self) -> bool {
        &&& self.proof_ids@.len() == if self.program is Some {
            1int
        } else {
            0int
        }
    }

    /// The state language's model.
    pub closed spec fn model(&self) -> StateLanguageModel {
        StateLanguageModel {
            root_id: self.root_id,
            registry_signature: self.registry_signature@,
            program: match self.program {
                Some(p) => Some(p@),
                None => None,
            },
            proof_ids: self.proof_ids@.to_set(),
        }
    }

    /// An empty state language for the root, bound to the registry.
    pub fn new(root_id: u64, registry: &AbstractionRegistry) -> (r: Self)
        ensures
            r.model().root_id == root_id,
            r.model().registry_signature == registry_signature_spec(registry.model()),
            r.model().program is None,
            r.model().proof_ids == Set::<u64>::empty(),
    {
        let r = AbstractionStateLanguage {
            root_id,
            registry_signature: registry.canonical_signature(),
            program: None,
            proof_ids: Vec::new(),
        };
        assert(r.proof_ids@.to_set() =~= Set::<u64>::empty());
        r
    }

    /// Admits a reuse certificate of this root and registry, once. A refused
    /// admission leaves the state language unchanged.
    pub fn admit_local(&mut self, certificate: &ValidatedReuseCertificate) -> (r: Result<
        (),
        AbstractionReuseError,
    >)
        ensures
            r matches Err(e) ==> admit_local_step(old(self).model(), *certificate).0 == Some(e),
            r is Ok ==> admit_local_step(old(self).model(), *certificate).0 is None,
            final(self).model() == admit_local_step(old(self).model(), *certificate).1,
    {
        if certificate.root_id != self.root_id {
            return Err(AbstractionReuseError::ForeignReuseCertificate);
        }
        if certificate.registry_signature != self.registry_signature {
            return Err(AbstractionReuseError::AbstractionRegistryMismatch);
        }
        if vec_contains_u64(&self.proof_ids, certificate.proof_id) || self.program.is_some() {
            assert(self.proof_ids@.contains(certificate.proof_id) ==> self.proof_ids@.to_set().contains(certificate.proof_id));
            return Err(AbstractionReuseError::DuplicateReuseAdmission);
        }
        proof {
            use_type_invariant(&*self);
            assert(self.proof_ids@.to_set() =~= Set::<u64>::empty());
        }
        let mut proof_ids: Vec<u64> = Vec::new();
        proof_ids.push(certificate.proof_id);
        let signature = self.registry_signature.clone();
        *self = AbstractionStateLanguage {
            root_id: self.root_id,
            registry_signature: signature,
            program: Some(certificate.program.duplicate()),
            proof_ids,
        };
        proof {
            assert(self.proof_ids@ =~= seq![certificate.proof_id_view()]);
            lemma_singleton_to_set(certificate.proof_id_view());
        }
        self.verify_invariants()
    }

    /// The admitted program's verdict on a history, if a program is admitted.
    pub fn predict(&self, events: &[Atom]) -> (r: Option<bool>)
        ensures
            match self.model().program {
                Some(p) => r == Some(atoms_view(events@) == p),
                None => r is None,
            },
    {
        match &self.program {
            Some(program) => Some(program.execute(events)),
            None => None,
        }
    }

    /// How many refinements are admitted: zero or one.
    pub fn refinement_count(&self) -> (n: usize)
        ensures
            n == if self.model().program is Some {
                1int
            } else {
                0int
            },
    {
        if self.program.is_some() {
            1
        } else {
            0
        }
    }

    /// Checks that one proof is admitted per program, at most one; this always holds.
    pub fn verify_invariants(&self) -> (r: Result<(), AbstractionReuseError>)
        ensures
            r is Ok,
            self.model().proof_ids.len() == if self.model().program is Some {
                1int
            } else {
                0int
            },
    {
        proof {
            use_type_invariant(self);
            self.proof_ids@.unique_seq_to_set();
        }
        let expected: usize = if self.program.is_some() {
            1
        } else {
            0
        };
        if self.proof_ids.len() != expected || self.proof_ids.len() > 1 {
            return Err(
                AbstractionReuseError::InvariantViolation(
                    crate::text::string_of("reuse proof/program cardinality mismatch"),
                ),
            );
        }
        Ok(())
    }
}


/// The concrete proof of a task is unique: two proofs of the same task agree
/// on every field. So validation accepts exactly the proof that synthesis
/// returns for the task, and refuses any other.
pub proof fn law_concrete_proof_is_unique(task: ChainTask, p: ConcreteChainProof, q: ConcreteChainProof)
    requires
        is_concrete_proof_of(task, p),
        is_concrete_proof_of(task, q),
    ensures
        p.root_id == q.root_id,
        p.arity == q.arity,
        p.candidate_programs == q.candidate_programs,
        p.program_history_evaluations == q.program_history_evaluations,
        p.exact_candidates == q.exact_candidates,
        p.tree_shape_rank == q.tree_shape_rank,
        p.node_cost == q.node_cost,
        p.program@ == q.program@,
        p.problem_digest == q.problem_digest,
        p.proof_id == q.proof_id,
{
}

/// On a valid support the abstraction proof elects the recursive-append
/// schema as the only exact fit, and compresses the examples' 36 concrete
/// nodes to the schema's 5, an advantage of 31.
pub proof fn law_abstraction_winner_and_costs(
    cohort_id: u64,
    parent: (u64, u64, u64, ComposedProductionKind, Seq<char>),
    ex: Seq<ValidatedConcreteSolutionCertificate>,
    p: AbstractionProof,
)
    requires
        certs_well_formed(ex),
        support_error(ex) is None,
        is_abstraction_proof_of(cohort_id, parent, ex, p),
    ensures
        p.winner == AbstractionSchemaKind::RecursiveAppendAdjacent,
        p.exact_schema_count == 1,
        p.concrete_node_cost == 36,
        p.schema_node_cost == 5,
        p.compression_advantage == 31,
{
    law_frozen_support_selects_recursive_append(ex);
}

/// Reuse recovers the concrete program of a task: the reuse proof and the
/// concrete proof of the same task name the same root, arity, problem
/// digest and program, while reuse tries only the `n!` orderings and finds a
/// single exact candidate where concrete search tries every ordering under
/// every one of the Catalan-many tree shapes.
pub proof fn law_reuse_recovers_the_concrete_program(
    task: ChainTask,
    m: RegistryModel,
    concrete: ConcreteChainProof,
    reuse: ReuseProof,
)
    requires
        is_concrete_proof_of(task, concrete),
        is_reuse_proof_of(task, m, reuse),
    ensures
        reuse.root_id == concrete.root_id,
        reuse.arity == concrete.arity,
        reuse.problem_digest == concrete.problem_digest,
        reuse.program@ == concrete.program@,
        reuse.candidate_programs == factorial_spec(task_arity(task)),
        concrete.candidate_programs == sat_mul_spec(
            reuse.candidate_programs as int,
            catalan_spec((task_arity(task) - 3) as nat) as int,
        ),
        reuse.exact_candidates == 1,
        concrete.exact_candidates == catalan_spec((task_arity(task) - 3) as nat),
{
}

/// Admission is all or nothing: a refused certificate leaves the registry
/// as it was, an admitted one adds exactly its schema and proof identifier,
/// and the same certificate offered again is refused as a duplicate.
pub proof fn law_admission_is_all_or_nothing(m: RegistryModel, c: ValidatedAbstractionCertificate)
    ensures
        admit_step(m, c).0 is Some ==> admit_step(m, c).1 == m,
        admit_step(m, c).0 is None ==> admit_step(m, c).1 == (RegistryModel {
            admitted: m.admitted.insert(c.kind_view()),
            proof_ids: m.proof_ids.insert(c.proof_id_view()),
            ..m
        }),
        admit_step(m, c).0 is None ==> admit_step(admit_step(m, c).1, c).0 == Some(
            AbstractionReuseError::DuplicateAbstractionAdmission,
        ),
{
}


/// On a registry in a valid state (at most the recursive-append schema
/// admitted, with one proof identifier per admitted schema), a certificate is
/// admitted exactly when nothing is admitted yet and it carries the
/// registry's cohort and parent lineage and the recursive-append schema.
pub proof fn law_admission_needs_an_empty_registry(m: RegistryModel, c: ValidatedAbstractionCertificate)
    requires
        m.admitted.finite(),
        m.proof_ids.finite(),
        m.proof_ids.len() == m.admitted.len(),
        forall|k: AbstractionSchemaKind|
            m.admitted.contains(k) ==> k == AbstractionSchemaKind::RecursiveAppendAdjacent,
    ensures
        (admit_step(m, c).0 is None) == (m.admitted.len() == 0 && c.cohort_id_view() == m.cohort_id
            && c.parent_lineage_view() == m.parent && c.kind_view()
            == AbstractionSchemaKind::RecursiveAppendAdjacent),
{
    if m.admitted.len() == 0 {
        if m.proof_ids.contains(c.proof_id_view()) {
            vstd::set::axiom_set_contains_len(m.proof_ids, c.proof_id_view());
        }
        if m.admitted.contains(c.kind_view()) {
            vstd::set::axiom_set_contains_len(m.admitted, c.kind_view());
        }
    } else {
        vstd::set::axiom_set_choose_len(m.admitted);
        assert(m.admitted.contains(AbstractionSchemaKind::RecursiveAppendAdjacent));
    }
}

} // verus!
