//! Logic engine: propositional formulas, three-valued evaluation, truth
//! tables, tautology and equivalence checks, and a textual parser.
use vstd::prelude::*;
use crate::text::{char_at_byte, char_index_at_byte, chars_equal, chars_of, concat2, concat3, concat5, ends_with_seq, first_non_ws_from, last_non_ws_before, lemma_char_at_byte, occurs_at, slice_chars, starts_with_seq, find_seq, string_from_chars, string_of, trim_bounds, trim_seq, unicode_uppercase, uppercase, contains_seq, is_ws};

verus! {

broadcast use vstd::string::group_string_axioms;

/// Truth values in logic.
#[derive(Debug, Clone, Copy, PartialEq, Eq, Structural)]
pub enum TruthValue {
    True,
    False,
    Unknown,
    Contradiction,
}

impl TruthValue {
    /// The display form of a truth value.
    pub open spec fn label_spec(self) -> Seq<char> {
        match self {
            TruthValue::True => "TRUE"@,
            TruthValue::False => "FALSE"@,
            TruthValue::Unknown => "UNKNOWN"@,
            TruthValue::Contradiction => "CONTRADICTION"@,
        }
    }

    /// The display form of a truth value (`TRUE`, `FALSE`, `UNKNOWN`, `CONTRADICTION`).
    pub fn to_string(&self) -> (s: String)
        ensures
            s@ == self.label_spec(),
    {
        match self {
            TruthValue::True => string_of("TRUE"),
            TruthValue::False => string_of("FALSE"),
            TruthValue::Unknown => string_of("UNKNOWN"),
            TruthValue::Contradiction => string_of("CONTRADICTION"),
        }
    }
}

/// The mathematical model of a proposition: atoms are named by their text.
pub enum Formula {
    Atom(Seq<char>),
    And(Box<Formula>, Box<Formula>),
    Or(Box<Formula>, Box<Formula>),
    Not(Box<Formula>),
    Implies(Box<Formula>, Box<Formula>),
    Iff(Box<Formula>, Box<Formula>),
    True,
    False,
}

/// A propositional variable or expression.
#[derive(Debug, PartialEq, Eq)]
pub enum Proposition {
    /// Atomic proposition (named variable)
    Atom(String),
    /// Logical AND
    And(Box<Proposition>, Box<Proposition>),
    /// Logical OR
    Or(Box<Proposition>, Box<Proposition>),
    /// Logical NOT
    Not(Box<Proposition>),
    /// Logical IMPLIES
    Implies(Box<Proposition>, Box<Proposition>),
    /// Logical IFF
    Iff(Box<Proposition>, Box<Proposition>),
    /// Constant truth values
    True,
    False,
}

/// The formula a proposition denotes.
pub open spec fn formula_of(p: Proposition) -> Formula
    decreases p,
{
    match p {
        Proposition::Atom(n) => Formula::Atom(n@),
        Proposition::And(a, b) => Formula::And(Box::new(formula_of(*a)), Box::new(formula_of(*b))),
        Proposition::Or(a, b) => Formula::Or(Box::new(formula_of(*a)), Box::new(formula_of(*b))),
        Proposition::Not(a) => Formula::Not(Box::new(formula_of(*a))),
        Proposition::Implies(a, b) => Formula::Implies(
            Box::new(formula_of(*a)),
            Box::new(formula_of(*b)),
        ),
        Proposition::Iff(a, b) => Formula::Iff(Box::new(formula_of(*a)), Box::new(formula_of(*b))),
        Proposition::True => Formula::True,
        Proposition::False => Formula::False,
    }
}

impl View for Proposition {
    type V = Formula;

    open spec fn view(&self) -> Formula {
        formula_of(*self)
    }
}

/// Three-valued conjunction.
pub open spec fn tv_and(a: TruthValue, b: TruthValue) -> TruthValue {
    if a == TruthValue::True && b == TruthValue::True {
        TruthValue::True
    } else if a == TruthValue::False || b == TruthValue::False {
        TruthValue::False
    } else {
        TruthValue::Unknown
    }
}

/// Three-valued disjunction.
pub open spec fn tv_or(a: TruthValue, b: TruthValue) -> TruthValue {
    if a == TruthValue::True || b == TruthValue::True {
        TruthValue::True
    } else if a == TruthValue::False && b == TruthValue::False {
        TruthValue::False
    } else {
        TruthValue::Unknown
    }
}

/// Three-valued negation.
pub open spec fn tv_not(a: TruthValue) -> TruthValue {
    if a == TruthValue::True {
        TruthValue::False
    } else if a == TruthValue::False {
        TruthValue::True
    } else {
        TruthValue::Unknown
    }
}

/// Three-valued implication (a false antecedent implies anything).
pub open spec fn tv_implies(a: TruthValue, b: TruthValue) -> TruthValue {
    if a == TruthValue::True && b == TruthValue::False {
        TruthValue::False
    } else if a == TruthValue::True && b == TruthValue::True {
        TruthValue::True
    } else if a == TruthValue::False {
        TruthValue::True
    } else {
        TruthValue::Unknown
    }
}

/// Three-valued biconditional.
pub open spec fn tv_iff(a: TruthValue, b: TruthValue) -> TruthValue {
    if (a == TruthValue::True || a == TruthValue::False) && (b == TruthValue::True || b
        == TruthValue::False) {
        if a == b {
            TruthValue::True
        } else {
            TruthValue::False
        }
    } else {
        TruthValue::Unknown
    }
}

/// Evaluation of a formula under a partial assignment: unbound atoms are `Unknown`.
pub open spec fn eval(f: Formula, env: Map<Seq<char>, bool>) -> TruthValue
    decreases f,
{
    match f {
        Formula::Atom(n) => if env.contains_key(n) {
            if env[n] {
                TruthValue::True
            } else {
                TruthValue::False
            }
        } else {
            TruthValue::Unknown
        },
        Formula::And(a, b) => tv_and(eval(*a, env), eval(*b, env)),
        Formula::Or(a, b) => tv_or(eval(*a, env), eval(*b, env)),
        Formula::Not(a) => tv_not(eval(*a, env)),
        Formula::Implies(a, b) => tv_implies(eval(*a, env), eval(*b, env)),
        Formula::Iff(a, b) => tv_iff(eval(*a, env), eval(*b, env)),
        Formula::True => TruthValue::True,
        Formula::False => TruthValue::False,
    }
}

/// Appends the atoms of `f` not yet in `acc`, in order of first occurrence.
pub open spec fn collect_vars(f: Formula, acc: Seq<Seq<char>>) -> Seq<Seq<char>>
    decreases f,
{
    match f {
        Formula::Atom(n) => if acc.contains(n) {
            acc
        } else {
            acc.push(n)
        },
        Formula::And(a, b) => collect_vars(*b, collect_vars(*a, acc)),
        Formula::Or(a, b) => collect_vars(*b, collect_vars(*a, acc)),
        Formula::Not(a) => collect_vars(*a, acc),
        Formula::Implies(a, b) => collect_vars(*b, collect_vars(*a, acc)),
        Formula::Iff(a, b) => collect_vars(*b, collect_vars(*a, acc)),
        Formula::True => acc,
        Formula::False => acc,
    }
}

/// The atoms of a formula, each once, in order of first occurrence.
pub open spec fn vars_of(f: Formula) -> Seq<Seq<char>> {
    collect_vars(f, Seq::empty())
}

/// The set of atom names of a formula.
pub open spec fn atoms(f: Formula) -> Set<Seq<char>>
    decreases f,
{
    match f {
        Formula::Atom(n) => set![n],
        Formula::And(a, b) => atoms(*a).union(atoms(*b)),
        Formula::Or(a, b) => atoms(*a).union(atoms(*b)),
        Formula::Not(a) => atoms(*a),
        Formula::Implies(a, b) => atoms(*a).union(atoms(*b)),
        Formula::Iff(a, b) => atoms(*a).union(atoms(*b)),
        Formula::True => Set::empty(),
        Formula::False => Set::empty(),
    }
}

/// The display text of a formula.
pub open spec fn display(f: Formula) -> Seq<char>
    decreases f,
{
    match f {
        Formula::Atom(n) => n,
        Formula::And(a, b) => "("@ + display(*a) + " AND "@ + display(*b) + ")"@,
        Formula::Or(a, b) => "("@ + display(*a) + " OR "@ + display(*b) + ")"@,
        Formula::Not(a) => "NOT("@ + display(*a) + ")"@,
        Formula::Implies(a, b) => "("@ + display(*a) + " → "@ + display(*b) + ")"@,
        Formula::Iff(a, b) => "("@ + display(*a) + " ↔ "@ + display(*b) + ")"@,
        Formula::True => "TRUE"@,
        Formula::False => "FALSE"@,
    }
}

/// The map from variable names to values built by binding each entry in
/// order; a later entry for the same name overrides an earlier one.
pub open spec fn entries_map(s: Seq<(String, bool)>) -> Map<Seq<char>, bool>
    decreases s.len(),
{
    if s.len() == 0 {
        Map::empty()
    } else {
        entries_map(s.drop_last()).insert(s.last().0@, s.last().1)
    }
}

/// An assignment of truth values to variable names.
#[derive(Debug, Clone)]
pub struct Bindings {
    entries: Vec<(String, bool)>,
}

impl View for Bindings {
    type V = Map<Seq<char>, bool>;

    closed spec fn view(&self) -> Map<Seq<char>, bool> {
        entries_map(self.entries@)
    }
}

impl Bindings {
    /// An empty assignment.
    pub fn new() -> (b: Self)
        ensures
            b@ == Map::<Seq<char>, bool>::empty(),
    {
        Bindings { entries: Vec::new() }
    }

    /// Binds `name` to `value`, replacing any earlier binding of that name.
    pub fn insert(&mut self, name: String, value: bool)
        ensures
            final(self)@ == old(self)@.insert(name@, value),
    {
        self.entries.push((name, value));
        assert(self.entries@.drop_last() =~= old(self).entries@);
    }

    /// The value bound to `name`, if any.
    pub fn get(&self, name: &String) -> (r: Option<bool>)
        ensures
            match r {
                Some(v) => self@.contains_key(name@) && self@[name@] == v,
                None => !self@.contains_key(name@),
            },
    {
        let mut j = self.entries.len();
        assert(self.entries@.subrange(0, j as int) =~= self.entries@);
        while j > 0
            invariant
                j <= self.entries@.len(),
                forall|k: int| j <= k < self.entries@.len() ==> self.entries@[k].0@ != name@,
                entries_map(self.entries@).contains_key(name@) == entries_map(
                    self.entries@.subrange(0, j as int),
                ).contains_key(name@),
                entries_map(self.entries@).contains_key(name@) ==> entries_map(self.entries@)[name@]
                    == entries_map(self.entries@.subrange(0, j as int))[name@],
            decreases j,
        {
            let ghost prefix = self.entries@.subrange(0, j as int);
            assert(prefix.drop_last() =~= self.entries@.subrange(0, j - 1));
            if self.entries[j - 1].0 == *name {
                return Some(self.entries[j - 1].1);
            }
            j = j - 1;
        }
        assert(self.entries@.subrange(0, 0) =~= Seq::<(String, bool)>::empty());
        None
    }
}

impl Proposition {
    /// Evaluate this proposition given variable assignments.
    pub fn evaluate(&self, vars: &Bindings) -> (t: TruthValue)
        ensures
            t == eval(self@, vars@),
        decreases self,
    {
        match self {
            Proposition::Atom(name) => {
                match vars.get(name) {
                    Some(v) => if v {
                        TruthValue::True
                    } else {
                        TruthValue::False
                    },
                    None => TruthValue::Unknown,
                }
            },
            Proposition::And(a, b) => {
                match (a.evaluate(vars), b.evaluate(vars)) {
                    (TruthValue::True, TruthValue::True) => TruthValue::True,
                    (TruthValue::False, _) | (_, TruthValue::False) => TruthValue::False,
                    _ => TruthValue::Unknown,
                }
            },
            Proposition::Or(a, b) => {
                match (a.evaluate(vars), b.evaluate(vars)) {
                    (TruthValue::True, _) | (_, TruthValue::True) => TruthValue::True,
                    (TruthValue::False, TruthValue::False) => TruthValue::False,
                    _ => TruthValue::Unknown,
                }
            },
            Proposition::Not(inner) => {
                match inner.evaluate(vars) {
                    TruthValue::True => TruthValue::False,
                    TruthValue::False => TruthValue::True,
                    _ => TruthValue::Unknown,
                }
            },
            Proposition::Implies(a, b) => {
                match (a.evaluate(vars), b.evaluate(vars)) {
                    (TruthValue::True, TruthValue::False) => TruthValue::False,
                    (TruthValue::True, TruthValue::True) => TruthValue::True,
                    (TruthValue::False, _) => TruthValue::True,
                    _ => TruthValue::Unknown,
                }
            },
            Proposition::Iff(a, b) => {
                match (a.evaluate(vars), b.evaluate(vars)) {
                    (TruthValue::True, TruthValue::True) => TruthValue::True,
                    (TruthValue::False, TruthValue::False) => TruthValue::True,
                    (TruthValue::True, TruthValue::False) => TruthValue::False,
                    (TruthValue::False, TruthValue::True) => TruthValue::False,
                    _ => TruthValue::Unknown,
                }
            },
            Proposition::True => TruthValue::True,
            Proposition::False => TruthValue::False,
        }
    }

    /// Extract all atomic variables from this proposition, each once, in order
    /// of first occurrence.
    pub fn variables(&self) -> (v: Vec<String>)
        ensures
            v.deep_view() == vars_of(self@),
    {
        let mut vars: Vec<String> = Vec::new();
        assert(vars.deep_view() =~= Seq::<Seq<char>>::empty());
        self.collect_variables(&mut vars);
        vars
    }

    fn collect_variables(&self, vars: &mut Vec<String>)
        ensures
            final(vars).deep_view() == collect_vars(self@, old(vars).deep_view()),
        decreases self,
    {
        match self {
            Proposition::Atom(name) => {
                if !vec_contains_string(vars, name) {
                    let ghost before = vars.deep_view();
                    vars.push(name.clone());
                    assert(vars.deep_view() =~= before.push(name@));
                }
            },
            Proposition::And(a, b) | Proposition::Or(a, b) | Proposition::Implies(a, b)
            | Proposition::Iff(a, b) => {
                a.collect_variables(vars);
                b.collect_variables(vars);
            },
            Proposition::Not(inner) => inner.collect_variables(vars),
            Proposition::True | Proposition::False => {},
        }
    }

    /// Convert to a display string.
    pub fn to_string(&self) -> (s: String)
        ensures
            s@ == display(self@),
        decreases self,
    {
        match self {
            Proposition::Atom(name) => name.clone(),
            Proposition::And(a, b) => {
                let sa = a.to_string();
                let sb = b.to_string();
                concat5("(", sa.as_str(), " AND ", sb.as_str(), ")")
            },
            Proposition::Or(a, b) => {
                let sa = a.to_string();
                let sb = b.to_string();
                concat5("(", sa.as_str(), " OR ", sb.as_str(), ")")
            },
            Proposition::Not(inner) => {
                let si = inner.to_string();
                concat3("NOT(", si.as_str(), ")")
            },
            Proposition::Implies(a, b) => {
                let sa = a.to_string();
                let sb = b.to_string();
                concat5("(", sa.as_str(), " → ", sb.as_str(), ")")
            },
            Proposition::Iff(a, b) => {
                let sa = a.to_string();
                let sb = b.to_string();
                concat5("(", sa.as_str(), " ↔ ", sb.as_str(), ")")
            },
            Proposition::True => string_of("TRUE"),
            Proposition::False => string_of("FALSE"),
        }
    }
}

/// How a character moves the parenthesis depth.
pub open spec fn paren_delta(c: char) -> int {
    if c == '(' {
        1
    } else if c == ')' {
        -1
    } else {
        0
    }
}

/// Parenthesis depth just before position `i` (may go negative on stray `)`).
pub open spec fn depth_before(s: Seq<char>, i: int) -> int
    decreases i,
{
    if i <= 0 {
        0
    } else {
        depth_before(s, i - 1) + paren_delta(s[i - 1])
    }
}

/// How many times a character occurs in a text.
pub open spec fn count_char(s: Seq<char>, c: char) -> nat
    decreases s.len(),
{
    if s.len() == 0 {
        0
    } else {
        count_char(s.drop_last(), c) + if s.last() == c {
            1nat
        } else {
            0nat
        }
    }
}

/// The parenthesis depth of the text stays within a 32-bit signed counter:
/// at most `i32::MAX` opening and `2^31` closing parentheses. Beyond that
/// the scan's counter overflows (a panic) or saturates and stops tracking
/// the depth.
pub open spec fn paren_counts_fit(s: Seq<char>) -> bool {
    count_char(s, '(') <= 0x7fff_ffff && count_char(s, ')') <= 0x8000_0000
}

/// First position `>= i` where `op` occurs at parenthesis depth zero, or -1.
pub open spec fn find_op_from(s: Seq<char>, op: Seq<char>, i: int) -> int
    decreases s.len() + 1 - i,
{
    if i < 0 || i + op.len() > s.len() {
        -1
    } else if occurs_at(s, op, i) && depth_before(s, i) == 0 {
        i
    } else {
        find_op_from(s, op, i + 1)
    }
}

/// First position `>= i` where `pat` occurs, or -1.
pub open spec fn first_occ_from(s: Seq<char>, pat: Seq<char>, i: int) -> int
    decreases s.len() + 1 - i,
{
    if i < 0 || i + pat.len() > s.len() {
        -1
    } else if occurs_at(s, pat, i) {
        i
    } else {
        first_occ_from(s, pat, i + 1)
    }
}

/// The binary connectives, in the order the parser tries them.
#[derive(Clone, Copy, PartialEq, Eq, Structural)]
pub enum BinOp {
    Implies,
    Iff,
    And,
    Or,
}

/// The outcome of looking for one operator in the text being parsed.
pub enum Split {
    /// The operator does not occur.
    NotFound,
    /// The operator occurs, but slicing the text around it would panic.
    Panics,
    /// The left operand is `[0, a)` and the right operand is `[b, len)`.
    At(int, int),
}

/// A unicode operator found by character index; the text is then sliced at
/// that index taken as a byte offset, and one byte past it.
pub open spec fn unicode_split(t: Seq<char>, op: char) -> Split {
    let c = find_op_from(t, seq![op], 0);
    if c < 0 {
        Split::NotFound
    } else {
        match (char_at_byte(t, c, 0), char_at_byte(t, c + 1, 0)) {
            (Some(a), Some(b)) => Split::At(a, b),
            _ => Split::Panics,
        }
    }
}

/// An ASCII operator found by its first occurrence.
pub open spec fn ascii_split(t: Seq<char>, pat: Seq<char>) -> Split {
    let o = first_occ_from(t, pat, 0);
    if o < 0 {
        Split::NotFound
    } else {
        Split::At(o, o + pat.len())
    }
}

/// The first operator the parser finds, trying each in its fixed order.
pub open spec fn first_split(t: Seq<char>) -> (Split, BinOp) {
    if !(unicode_split(t, '→') is NotFound) {
        (unicode_split(t, '→'), BinOp::Implies)
    } else if !(ascii_split(t, "->"@) is NotFound) {
        (ascii_split(t, "->"@), BinOp::Implies)
    } else if !(unicode_split(t, '↔') is NotFound) {
        (unicode_split(t, '↔'), BinOp::Iff)
    } else if !(ascii_split(t, "<->"@) is NotFound) {
        (ascii_split(t, "<->"@), BinOp::Iff)
    } else if !(unicode_split(t, '∧') is NotFound) {
        (unicode_split(t, '∧'), BinOp::And)
    } else if !(ascii_split(t, " /\\ "@) is NotFound) {
        (ascii_split(t, " /\\ "@), BinOp::And)
    } else if !(ascii_split(t, " AND "@) is NotFound) {
        (ascii_split(t, " AND "@), BinOp::And)
    } else if !(ascii_split(t, " & "@) is NotFound) {
        (ascii_split(t, " & "@), BinOp::And)
    } else if !(unicode_split(t, '∨') is NotFound) {
        (unicode_split(t, '∨'), BinOp::Or)
    } else if !(ascii_split(t, " \\/ "@) is NotFound) {
        (ascii_split(t, " \\/ "@), BinOp::Or)
    } else if !(ascii_split(t, " OR "@) is NotFound) {
        (ascii_split(t, " OR "@), BinOp::Or)
    } else {
        (ascii_split(t, " | "@), BinOp::Or)
    }
}

/// Builds the formula for a binary connective.
pub open spec fn mk_bin(op: BinOp, l: Formula, r: Formula) -> Formula {
    match op {
        BinOp::Implies => Formula::Implies(Box::new(l), Box::new(r)),
        BinOp::Iff => Formula::Iff(Box::new(l), Box::new(r)),
        BinOp::And => Formula::And(Box::new(l), Box::new(r)),
        BinOp::Or => Formula::Or(Box::new(l), Box::new(r)),
    }
}

/// Combines two parsed operands; a panic in either operand is a panic.
pub open spec fn combine(op: BinOp, l: Option<Formula>, r: Option<Formula>) -> Option<Formula> {
    match (l, r) {
        (Some(lf), Some(rf)) => Some(mk_bin(op, lf, rf)),
        _ => None,
    }
}

/// Wraps a parsed operand in a negation.
pub open spec fn wrap_not(inner: Option<Formula>) -> Option<Formula> {
    match inner {
        Some(f) => Some(Formula::Not(Box::new(f))),
        None => None,
    }
}

/// Recognises the constant words, given the uppercase form of the text.
pub open spec fn constant_or_atom(t: Seq<char>, upper: Seq<char>) -> Formula {
    if upper == "TRUE"@ || upper == "T"@ || upper == "1"@ {
        Formula::True
    } else if upper == "FALSE"@ || upper == "F"@ || upper == "0"@ {
        Formula::False
    } else {
        Formula::Atom(t)
    }
}

pub proof fn lemma_trim_len(s: Seq<char>)
    ensures
        trim_seq(s).len() <= s.len(),
        trim_seq(s) == s.subrange(
            first_non_ws_from(s, 0),
            last_non_ws_before(s, first_non_ws_from(s, 0), s.len() as int),
        ),
        0 <= first_non_ws_from(s, 0) <= last_non_ws_before(
            s,
            first_non_ws_from(s, 0),
            s.len() as int,
        ) <= s.len(),
{
    crate::text::lemma_first_non_ws_bounds(s, 0);
    crate::text::lemma_last_non_ws_bounds(s, first_non_ws_from(s, 0), s.len() as int);
}

pub proof fn lemma_find_op_bounds(s: Seq<char>, op: Seq<char>, i: int)
    requires
        0 <= i,
    ensures
        find_op_from(s, op, i) == -1 || (i <= find_op_from(s, op, i) && find_op_from(s, op, i)
            + op.len() <= s.len() && occurs_at(s, op, find_op_from(s, op, i)) && depth_before(
            s,
            find_op_from(s, op, i),
        ) == 0),
    decreases s.len() + 1 - i,
{
    if !(i + op.len() > s.len()) && !(occurs_at(s, op, i) && depth_before(s, i) == 0) {
        lemma_find_op_bounds(s, op, i + 1);
    }
}

pub proof fn lemma_first_occ_bounds(s: Seq<char>, pat: Seq<char>, i: int)
    requires
        0 <= i,
    ensures
        first_occ_from(s, pat, i) == -1 || (i <= first_occ_from(s, pat, i) && first_occ_from(
            s,
            pat,
            i,
        ) + pat.len() <= s.len()),
    decreases s.len() + 1 - i,
{
    if !(i + pat.len() > s.len()) && !occurs_at(s, pat, i) {
        lemma_first_occ_bounds(s, pat, i + 1);
    }
}

pub proof fn lemma_unicode_split_bounds(t: Seq<char>, op: char)
    ensures
        unicode_split(t, op) matches Split::At(a, b) ==> 0 <= a < b <= t.len() && a < t.len(),
{
    lemma_find_op_bounds(t, seq![op], 0);
    let c = find_op_from(t, seq![op], 0);
    if c >= 0 {
        lemma_char_at_byte(t, c, 0);
        lemma_char_at_byte(t, c + 1, 0);
        if let (Some(a), Some(b)) = (char_at_byte(t, c, 0), char_at_byte(t, c + 1, 0)) {
            if a >= b {
                crate::text::lemma_byte_offset_mono(t, b, a);
            }
        }
    }
}

pub proof fn lemma_ascii_split_bounds(t: Seq<char>, pat: Seq<char>)
    requires
        pat.len() > 0,
    ensures
        ascii_split(t, pat) matches Split::At(a, b) ==> 0 <= a < b <= t.len() && a < t.len(),
{
    lemma_first_occ_bounds(t, pat, 0);
}

pub proof fn lemma_first_split_bounds(t: Seq<char>)
    ensures
        first_split(t).0 matches Split::At(a, b) ==> 0 <= a < b <= t.len() && a < t.len(),
{
    lemma_unicode_split_bounds(t, '→');
    lemma_unicode_split_bounds(t, '↔');
    lemma_unicode_split_bounds(t, '∧');
    lemma_unicode_split_bounds(t, '∨');
    reveal_strlit("->");
    reveal_strlit("<->");
    reveal_strlit(" /\\ ");
    reveal_strlit(" AND ");
    reveal_strlit(" & ");
    reveal_strlit(" \\/ ");
    reveal_strlit(" OR ");
    reveal_strlit(" | ");
    lemma_ascii_split_bounds(t, "->"@);
    lemma_ascii_split_bounds(t, "<->"@);
    lemma_ascii_split_bounds(t, " /\\ "@);
    lemma_ascii_split_bounds(t, " AND "@);
    lemma_ascii_split_bounds(t, " & "@);
    lemma_ascii_split_bounds(t, " \\/ "@);
    lemma_ascii_split_bounds(t, " OR "@);
    lemma_ascii_split_bounds(t, " | "@);
}

/// The parse of a proposition text, with the uppercase mapping as a parameter;
/// `None` means that parsing this text panics.
pub open spec fn parse_with(s: Seq<char>, up: spec_fn(Seq<char>) -> Seq<char>) -> Option<Formula>
    decreases s.len(),
{
    let t = trim_seq(s);
    proof {
        lemma_trim_len(s);
    }
    if starts_with_seq(t, "("@) && ends_with_seq(t, ")"@) && t.len() >= 2 {
        parse_with(t.subrange(1, t.len() - 1), up)
    } else if starts_with_seq(t, "NOT "@) && t.len() >= 4 {
        wrap_not(parse_with(t.subrange(4, t.len() as int), up))
    } else if t.len() >= 1 && (t[0] == '!' || t[0] == '~') {
        wrap_not(parse_with(t.subrange(1, t.len() as int), up))
    } else if t.len() == 0 {
        None
    } else {
        proof {
            lemma_first_split_bounds(t);
        }
        match first_split(t).0 {
            Split::NotFound => Some(constant_or_atom(t, up(t))),
            Split::Panics => None,
            Split::At(a, b) => combine(
                first_split(t).1,
                parse_with(t.subrange(0, a), up),
                parse_with(t.subrange(b, t.len() as int), up),
            ),
        }
    }
}

/// What parsing a proposition text yields, or `None` where parsing panics.
pub open spec fn parse_spec(s: Seq<char>) -> Option<Formula> {
    parse_with(s, |x: Seq<char>| unicode_uppercase(x))
}

/// Parsing the text does not panic. (This does not depend on case mapping.)
pub open spec fn parse_ok(s: Seq<char>) -> bool {
    parse_with(s, |x: Seq<char>| x) is Some
}

/// Whether parsing panics never depends on the uppercase mapping.
pub proof fn lemma_parse_some_independent(
    s: Seq<char>,
    u1: spec_fn(Seq<char>) -> Seq<char>,
    u2: spec_fn(Seq<char>) -> Seq<char>,
)
    ensures
        parse_with(s, u1) is Some == parse_with(s, u2) is Some,
    decreases s.len(),
{
    let t = trim_seq(s);
    lemma_trim_len(s);
    if starts_with_seq(t, "("@) && ends_with_seq(t, ")"@) && t.len() >= 2 {
        lemma_parse_some_independent(t.subrange(1, t.len() - 1), u1, u2);
    } else if starts_with_seq(t, "NOT "@) && t.len() >= 4 {
        lemma_parse_some_independent(t.subrange(4, t.len() as int), u1, u2);
    } else if t.len() >= 1 && (t[0] == '!' || t[0] == '~') {
        lemma_parse_some_independent(t.subrange(1, t.len() as int), u1, u2);
    } else if t.len() == 0 {
    } else {
        lemma_first_split_bounds(t);
        match first_split(t).0 {
            Split::At(a, b) => {
                lemma_parse_some_independent(t.subrange(0, a), u1, u2);
                lemma_parse_some_independent(t.subrange(b, t.len() as int), u1, u2);
            },
            _ => {},
        }
    }
}

proof fn lemma_first_occ_is(s: Seq<char>, pat: Seq<char>, j: int, i: int)
    requires
        0 <= j <= i,
        occurs_at(s, pat, i),
        forall|k: int| j <= k < i ==> !occurs_at(s, pat, k),
    ensures
        first_occ_from(s, pat, j) == i,
    decreases i - j,
{
    if j < i {
        lemma_first_occ_is(s, pat, j + 1, i);
    }
}

proof fn lemma_first_occ_none(s: Seq<char>, pat: Seq<char>, j: int)
    requires
        0 <= j,
        !contains_seq(s, pat),
    ensures
        first_occ_from(s, pat, j) == -1,
    decreases s.len() + 1 - j,
{
    if !(j + pat.len() > s.len()) {
        assert(!occurs_at(s, pat, j));
        lemma_first_occ_none(s, pat, j + 1);
    }
}

/// Executable form of a split found while parsing.
enum SplitAt {
    NotFound,
    Panics,
    At(usize, usize),
}

/// The executable split agrees with its model.
spec fn split_matches(e: SplitAt, m: Split) -> bool {
    match (e, m) {
        (SplitAt::NotFound, Split::NotFound) => true,
        (SplitAt::Panics, Split::Panics) => true,
        (SplitAt::At(a, b), Split::At(x, y)) => a == x && b == y,
        _ => false,
    }
}

/// Find an operator at parenthesis depth zero, by character index.
fn find_operator_chars(s: &[char], op: &[char]) -> (r: Option<usize>)
    requires
        op@.len() <= s@.len(),
    ensures
        match r {
            Some(i) => find_op_from(s@, op@, 0) == i,
            None => find_op_from(s@, op@, 0) == -1,
        },
{
    let mut i: usize = 0;
    let mut depth: i128 = 0;
    while i <= s.len() - op.len()
        invariant
            op@.len() <= s@.len(),
            i <= s@.len() + 1,
            op@.len() == 0 ==> i == 0,
            find_op_from(s@, op@, i as int) == find_op_from(s@, op@, 0),
            depth == depth_before(s@, i as int),
            -(i as int) <= depth <= i,
        decreases s@.len() + 1 - i,
    {
        proof {
            if op@.len() == 0 {
                assert(s@.subrange(i as int, i as int) =~= op@);
            }
        }
        if crate::text::occurs_at_exec(s, op, i) && depth == 0 {
            return Some(i);
        }
        assert(i < s@.len());
        assert(depth_before(s@, i + 1) == depth_before(s@, i as int) + paren_delta(s@[i as int]));
        if i < s.len() {
            if s[i] == '(' {
                depth = depth + 1;
            } else if s[i] == ')' {
                depth = depth - 1;
            }
        }
        i = i + 1;
    }
    None
}

/// Find an operator in a proposition text, skipping parenthesised parts.
/// Returns the character index of the first occurrence at depth zero.
pub fn find_operator(input: &str, op: &str) -> (r: Option<usize>)
    requires
        op@.len() <= input@.len(),
        paren_counts_fit(input@),
    ensures
        match r {
            Some(i) => find_op_from(input@, op@, 0) == i,
            None => find_op_from(input@, op@, 0) == -1,
        },
{
    let s = chars_of(input);
    let o = chars_of(op);
    find_operator_chars(s.as_slice(), o.as_slice())
}

fn unicode_split_exec(t: &[char], op: char) -> (r: SplitAt)
    requires
        t@.len() >= 1,
    ensures
        split_matches(r, unicode_split(t@, op)),
{
    let opv: Vec<char> = vec![op];
    assert(opv@ =~= seq![op]);
    match find_operator_chars(t, opv.as_slice()) {
        None => SplitAt::NotFound,
        Some(c) => {
            proof {
                lemma_find_op_bounds(t@, seq![op], 0);
                assert(find_op_from(t@, opv@, 0) == c);
                assert(c + 1 <= t@.len());
            }
            let tl = t.len();
            assert(c < tl);
            let a = char_index_at_byte(t, c);
            let b = char_index_at_byte(t, c + 1);
            match (a, b) {
                (Some(x), Some(y)) => SplitAt::At(x, y),
                _ => SplitAt::Panics,
            }
        },
    }
}

fn ascii_split_exec(t: &[char], pat: &str) -> (r: SplitAt)
    ensures
        split_matches(r, ascii_split(t@, pat@)),
{
    let p = chars_of(pat);
    match find_seq(t, p.as_slice()) {
        Some(i) => {
            proof {
                lemma_first_occ_is(t@, p@, 0, i as int);
                assert(i + p@.len() <= t@.len());
            }
            let tl = t.len();
            let pl = p.len();
            assert(pl <= tl - i);
            SplitAt::At(i, i + pl)
        },
        None => {
            proof {
                lemma_first_occ_none(t@, p@, 0);
            }
            SplitAt::NotFound
        },
    }
}

fn first_split_exec(t: &[char]) -> (r: (SplitAt, BinOp))
    requires
        t@.len() >= 1,
    ensures
        split_matches(r.0, first_split(t@).0),
        r.1 == first_split(t@).1,
{
    let sp = unicode_split_exec(t, '→');
    if !matches!(sp, SplitAt::NotFound) {
        return (sp, BinOp::Implies);
    }
    let sp = ascii_split_exec(t, "->");
    if !matches!(sp, SplitAt::NotFound) {
        return (sp, BinOp::Implies);
    }
    let sp = unicode_split_exec(t, '↔');
    if !matches!(sp, SplitAt::NotFound) {
        return (sp, BinOp::Iff);
    }
    let sp = ascii_split_exec(t, "<->");
    if !matches!(sp, SplitAt::NotFound) {
        return (sp, BinOp::Iff);
    }
    let sp = unicode_split_exec(t, '∧');
    if !matches!(sp, SplitAt::NotFound) {
        return (sp, BinOp::And);
    }
    let sp = ascii_split_exec(t, " /\\ ");
    if !matches!(sp, SplitAt::NotFound) {
        return (sp, BinOp::And);
    }
    let sp = ascii_split_exec(t, " AND ");
    if !matches!(sp, SplitAt::NotFound) {
        return (sp, BinOp::And);
    }
    let sp = ascii_split_exec(t, " & ");
    if !matches!(sp, SplitAt::NotFound) {
        return (sp, BinOp::And);
    }
    let sp = unicode_split_exec(t, '∨');
    if !matches!(sp, SplitAt::NotFound) {
        return (sp, BinOp::Or);
    }
    let sp = ascii_split_exec(t, " \\/ ");
    if !matches!(sp, SplitAt::NotFound) {
        return (sp, BinOp::Or);
    }
    let sp = ascii_split_exec(t, " OR ");
    if !matches!(sp, SplitAt::NotFound) {
        return (sp, BinOp::Or);
    }
    (ascii_split_exec(t, " | "), BinOp::Or)
}

/// Whether the text equals the given literal.
fn chars_are(t: &[char], lit: &str) -> (r: bool)
    ensures
        r == (t@ == lit@),
{
    let l = chars_of(lit);
    chars_equal(t, l.as_slice())
}

/// The constant a text names, given its uppercase form (`TRUE`, `T`, `1`;
/// `FALSE`, `F`, `0`), or else the atom with the text.
pub fn constant_or_atom_exec(text: String, upper: &str) -> (p: Proposition)
    ensures
        p@ == constant_or_atom(text@, upper@),
{
    let u = chars_of(upper);
    let us = u.as_slice();
    if chars_are(us, "TRUE") || chars_are(us, "T") || chars_are(us, "1") {
        Proposition::True
    } else if chars_are(us, "FALSE") || chars_are(us, "F") || chars_are(us, "0") {
        Proposition::False
    } else {
        Proposition::Atom(text)
    }
}

fn parse_chars(s: &[char]) -> (p: Proposition)
    requires
        parse_ok(s@),
    ensures
        parse_spec(s@) == Some(p@),
    decreases s@.len(),
{
    proof {
        lemma_parse_some_independent(s@, |x: Seq<char>| x, |x: Seq<char>| unicode_uppercase(x));
        lemma_trim_len(s@);
    }
    let (a, b) = trim_bounds(s);
    let t = slice_chars(s, a, b);
    assert(t@ == trim_seq(s@));
    let n = t.len();
    proof {
        reveal_strlit("(");
        reveal_strlit(")");
        reveal_strlit("NOT ");
    }
    if n >= 2 && t[0] == '(' && t[n - 1] == ')' {
        assert(starts_with_seq(t@, "("@) && ends_with_seq(t@, ")"@)) by {
            assert(t@.subrange(0, 1) =~= "("@);
            assert(t@.subrange(n - 1, n as int) =~= ")"@);
        }
        let inner = slice_chars(t.as_slice(), 1, n - 1);
        return parse_chars(inner.as_slice());
    }
    assert(!(starts_with_seq(t@, "("@) && ends_with_seq(t@, ")"@) && t@.len() >= 2)) by {
        if starts_with_seq(t@, "("@) && ends_with_seq(t@, ")"@) && t@.len() >= 2 {
            assert(t@.subrange(0, 1)[0] == t@[0]);
            assert(t@.subrange(n - 1, n as int)[0] == t@[n - 1]);
        }
    }
    if n >= 4 && t[0] == 'N' && t[1] == 'O' && t[2] == 'T' && t[3] == ' ' {
        assert(starts_with_seq(t@, "NOT "@)) by {
            assert(t@.subrange(0, 4) =~= "NOT "@);
        }
        let inner = slice_chars(t.as_slice(), 4, n);
        let ip = parse_chars(inner.as_slice());
        return Proposition::Not(Box::new(ip));
    }
    assert(!(starts_with_seq(t@, "NOT "@) && t@.len() >= 4)) by {
        if starts_with_seq(t@, "NOT "@) && t@.len() >= 4 {
            let pre = t@.subrange(0, 4);
            assert(pre[0] == t@[0] && pre[1] == t@[1] && pre[2] == t@[2] && pre[3] == t@[3]);
        }
    }
    if n >= 1 && (t[0] == '!' || t[0] == '~') {
        let inner = slice_chars(t.as_slice(), 1, n);
        let ip = parse_chars(inner.as_slice());
        return Proposition::Not(Box::new(ip));
    }
    let (sp, op) = first_split_exec(t.as_slice());
    match sp {
        SplitAt::At(x, y) => {
            proof {
                lemma_first_split_bounds(t@);
            }
            let left = slice_chars(t.as_slice(), 0, x);
            let right = slice_chars(t.as_slice(), y, n);
            let lp = parse_chars(left.as_slice());
            let rp = parse_chars(right.as_slice());
            match op {
                BinOp::Implies => Proposition::Implies(Box::new(lp), Box::new(rp)),
                BinOp::Iff => Proposition::Iff(Box::new(lp), Box::new(rp)),
                BinOp::And => Proposition::And(Box::new(lp), Box::new(rp)),
                BinOp::Or => Proposition::Or(Box::new(lp), Box::new(rp)),
            }
        },
        SplitAt::Panics => {
            proof {
                assert(false);
            }
            Proposition::False
        },
        SplitAt::NotFound => {
            let ts = string_from_chars(t.as_slice());
            let up = uppercase(ts.as_str());
            constant_or_atom_exec(ts, up.as_str())
        },
    }
}

/// Parse a proposition string into a `Proposition`.
///
/// The text is trimmed; a fully parenthesised text is unwrapped; `NOT `, `!`
/// and `~` negate; then the first operator found, in the order `→`, `->`,
/// `↔`, `<->`, `∧`, ` /\ `, ` AND `, ` & `, `∨`, ` \/ `, ` OR `, ` | `,
/// splits the text; `TRUE`/`T`/`1` and `FALSE`/`F`/`0` (in any case) are
/// constants; anything else is an atom.
pub fn parse_proposition(input: &str) -> (r: Result<Proposition, String>)
    requires
        parse_ok(input@),
        paren_counts_fit(input@),
    ensures
        r matches Ok(p) && parse_spec(input@) == Some(p@),
{
    let s = chars_of(input);
    Ok(parse_chars(s.as_slice()))
}

/// Bit `j` of `i`.
pub open spec fn bit(i: u64, j: int) -> bool {
    (i >> (j as u64)) & 1u64 == 1u64
}

/// The assignment binding `vars[j]` to bit `j` of `i`, for each `j < k`.
pub open spec fn row_map(vars: Seq<Seq<char>>, i: u64, k: int) -> Map<Seq<char>, bool>
    decreases k,
{
    if k <= 0 {
        Map::empty()
    } else {
        row_map(vars, i, k - 1).insert(vars[k - 1], bit(i, k - 1))
    }
}

/// Row `i` of the truth table of `f`.
pub open spec fn row(f: Formula, i: u64) -> Map<Seq<char>, bool> {
    row_map(vars_of(f), i, vars_of(f).len() as int)
}

/// The number of rows of the truth table of `f`.
pub open spec fn table_size(f: Formula) -> u64 {
    1u64 << (vars_of(f).len() as u64)
}

/// `f` is true in every row of its truth table.
pub open spec fn tautology(f: Formula) -> bool {
    forall|i: u64| i < table_size(f) ==> #[trigger] eval(f, row(f, i)) == TruthValue::True
}

/// `f` is false in every row of its truth table.
pub open spec fn contradiction(f: Formula) -> bool {
    forall|i: u64| i < table_size(f) ==> #[trigger] eval(f, row(f, i)) == TruthValue::False
}

/// Appends to `acc` each name of `qv` not already present, in order.
pub open spec fn merge_vars(acc: Seq<Seq<char>>, qv: Seq<Seq<char>>) -> Seq<Seq<char>>
    decreases qv.len(),
{
    if qv.len() == 0 {
        acc
    } else {
        let m = merge_vars(acc, qv.drop_last());
        if m.contains(qv.last()) {
            m
        } else {
            m.push(qv.last())
        }
    }
}

/// The variables over which two propositions are compared.
pub open spec fn joint_vars(p: Formula, q: Formula) -> Seq<Seq<char>> {
    merge_vars(vars_of(p), vars_of(q))
}

/// `p` and `q` agree in every row over their joint variables.
pub open spec fn equivalent(p: Formula, q: Formula) -> bool {
    let all = joint_vars(p, q);
    forall|i: u64|
        i < (1u64 << (all.len() as u64)) ==> #[trigger] eval(p, row_map(all, i, all.len() as int))
            == eval(q, row_map(all, i, all.len() as int))
}

/// Builds row `i` of a truth table over `vars`.
fn build_row(vars: &Vec<String>, i: u64) -> (b: Bindings)
    requires
        vars@.len() < 64,
    ensures
        b@ == row_map(vars.deep_view(), i, vars@.len() as int),
{
    let n = vars.len();
    let mut bindings = Bindings::new();
    let mut j: usize = 0;
    while j < n
        invariant
            n == vars@.len() < 64,
            j <= n,
            bindings@ == row_map(vars.deep_view(), i, j as int),
        decreases n - j,
    {
        let value = (i >> (j as u64)) & 1 == 1;
        bindings.insert(vars[j].clone(), value);
        assert(vars.deep_view()[j as int] == vars@[j as int]@);
        j = j + 1;
    }
    bindings
}

/// Whether two propositions are the same expression.
pub fn same_proposition(a: &Proposition, b: &Proposition) -> (r: bool)
    ensures
        r == (a@ == b@),
    decreases a,
{
    match (a, b) {
        (Proposition::Atom(x), Proposition::Atom(y)) => {
            let xc = chars_of(x.as_str());
            let yc = chars_of(y.as_str());
            chars_equal(xc.as_slice(), yc.as_slice())
        },
        (Proposition::And(a1, a2), Proposition::And(b1, b2)) => same_proposition(a1, b1)
            && same_proposition(a2, b2),
        (Proposition::Or(a1, a2), Proposition::Or(b1, b2)) => same_proposition(a1, b1)
            && same_proposition(a2, b2),
        (Proposition::Not(a1), Proposition::Not(b1)) => same_proposition(a1, b1),
        (Proposition::Implies(a1, a2), Proposition::Implies(b1, b2)) => same_proposition(a1, b1)
            && same_proposition(a2, b2),
        (Proposition::Iff(a1, a2), Proposition::Iff(b1, b2)) => same_proposition(a1, b1)
            && same_proposition(a2, b2),
        (Proposition::True, Proposition::True) => true,
        (Proposition::False, Proposition::False) => true,
        _ => false,
    }
}

/// The logic engine.
pub struct LogicEngine {
    _priv: (),
}

impl LogicEngine {
    /// The logic engine. It holds no state, so there is nothing to promise
    /// of it.
    pub fn new() -> (e: Self) {
        LogicEngine { _priv: () }
    }

    /// Evaluate a logical proposition string: parse it, then evaluate it with
    /// no variable bound (so any variable makes the result `Unknown` unless
    /// the connectives decide it). Returns the display form and the value.
    pub fn evaluate(&mut self, input: &str) -> (r: Result<(String, TruthValue), String>)
        requires
            parse_ok(input@),
            paren_counts_fit(input@),
        ensures
            r matches Ok((s, t)) && parse_spec(input@) matches Some(f) && s@ == display(f) && t
                == eval(f, Map::empty()),
    {
        let prop = match parse_proposition(input) {
            Ok(p) => p,
            Err(e) => {
                return Err(concat2("Parse error: ", e.as_str()));
            },
        };
        let vars = prop.variables();
        let empty = Bindings::new();
        if vars.len() == 0 {
            let truth = prop.evaluate(&empty);
            return Ok((prop.to_string(), truth));
        }
        let truth = prop.evaluate(&empty);
        Ok((prop.to_string(), truth))
    }

    /// Generate a truth table for a proposition: row `i` binds the `j`-th
    /// variable to bit `j` of `i`.
    pub fn truth_table(&self, prop: &Proposition) -> (r: Vec<(Bindings, TruthValue)>)
        requires
            vars_of(prop@).len() < 64,
        ensures
            r@.len() == table_size(prop@),
            forall|k: int|
                0 <= k < r@.len() ==> (#[trigger] r@[k]).0@ == row(prop@, k as u64) && r@[k].1
                    == eval(prop@, row(prop@, k as u64)),
    {
        let vars = prop.variables();
        let n = vars.len();
        let mut results: Vec<(Bindings, TruthValue)> = Vec::new();
        let combinations: u64 = 1u64 << (n as u64);
        let mut i: u64 = 0;
        while i < combinations
            invariant
                vars.deep_view() == vars_of(prop@),
                n == vars@.len() < 64,
                combinations == table_size(prop@),
                i <= combinations,
                results@.len() == i,
                forall|k: int|
                    0 <= k < results@.len() ==> (#[trigger] results@[k]).0@ == row(prop@, k as u64)
                        && results@[k].1 == eval(prop@, row(prop@, k as u64)),
            decreases combinations - i,
        {
            let bindings = build_row(&vars, i);
            let truth = prop.evaluate(&bindings);
            results.push((bindings, truth));
            i = i + 1;
        }
        results
    }

    /// Check if a proposition is a tautology (true in every row).
    pub fn is_tautology(&self, prop: &Proposition) -> (b: bool)
        requires
            vars_of(prop@).len() < 64,
        ensures
            b == tautology(prop@),
    {
        let table = self.truth_table(prop);
        let mut k: usize = 0;
        while k < table.len()
            invariant
                table@.len() == table_size(prop@),
                k <= table@.len(),
                forall|j: int|
                    0 <= j < table@.len() ==> (#[trigger] table@[j]).1 == eval(
                        prop@,
                        row(prop@, j as u64),
                    ),
                forall|i: u64| i < k ==> #[trigger] eval(prop@, row(prop@, i)) == TruthValue::True,
            decreases table@.len() - k,
        {
            if table[k].1 != TruthValue::True {
                assert(eval(prop@, row(prop@, k as u64)) != TruthValue::True);
                return false;
            }
            assert(table@[k as int].1 == eval(prop@, row(prop@, k as u64)));
            k = k + 1;
        }
        true
    }

    /// Check if a proposition is a contradiction (false in every row).
    pub fn is_contradiction(&self, prop: &Proposition) -> (b: bool)
        requires
            vars_of(prop@).len() < 64,
        ensures
            b == contradiction(prop@),
    {
        let table = self.truth_table(prop);
        let mut k: usize = 0;
        while k < table.len()
            invariant
                table@.len() == table_size(prop@),
                k <= table@.len(),
                forall|j: int|
                    0 <= j < table@.len() ==> (#[trigger] table@[j]).1 == eval(
                        prop@,
                        row(prop@, j as u64),
                    ),
                forall|i: u64| i < k ==> #[trigger] eval(prop@, row(prop@, i)) == TruthValue::False,
            decreases table@.len() - k,
        {
            if table[k].1 != TruthValue::False {
                assert(eval(prop@, row(prop@, k as u64)) != TruthValue::False);
                return false;
            }
            assert(table@[k as int].1 == eval(prop@, row(prop@, k as u64)));
            k = k + 1;
        }
        true
    }

    /// Check if two propositions are logically equivalent: they agree in every
    /// row over the variables of `p` followed by the new variables of `q`.
    pub fn are_equivalent(&self, p: &Proposition, q: &Proposition) -> (b: bool)
        requires
            joint_vars(p@, q@).len() < 64,
        ensures
            b == equivalent(p@, q@),
    {
        let p_vars = p.variables();
        let q_vars = q.variables();
        let mut all_vars = p_vars;
        let mut k: usize = 0;
        assert(q_vars.deep_view().subrange(0, 0) =~= Seq::<Seq<char>>::empty());
        while k < q_vars.len()
            invariant
                k <= q_vars@.len(),
                q_vars.deep_view() == vars_of(q@),
                all_vars.deep_view() == merge_vars(vars_of(p@), q_vars.deep_view().subrange(0, k as int)),
            decreases q_vars@.len() - k,
        {
            let ghost before = all_vars.deep_view();
            assert(q_vars.deep_view().subrange(0, k + 1).drop_last() =~= q_vars.deep_view().subrange(0, k as int));
            assert(q_vars.deep_view()[k as int] == q_vars@[k as int]@);
            if !vec_contains_string(&all_vars, &q_vars[k]) {
                all_vars.push(q_vars[k].clone());
                assert(all_vars.deep_view() =~= before.push(q_vars@[k as int]@));
            }
            k = k + 1;
        }
        assert(q_vars.deep_view().subrange(0, k as int) =~= q_vars.deep_view());
        let n = all_vars.len();
        let combinations: u64 = 1u64 << (n as u64);
        let ghost all = joint_vars(p@, q@);
        let mut i: u64 = 0;
        while i < combinations
            invariant
                all_vars.deep_view() == all,
                all == joint_vars(p@, q@),
                n == all.len() < 64,
                n == all_vars@.len(),
                combinations == (1u64 << (all.len() as u64)),
                i <= combinations,
                forall|j: u64|
                    j < i ==> #[trigger] eval(p@, row_map(all, j, all.len() as int)) == eval(
                        q@,
                        row_map(all, j, all.len() as int),
                    ),
            decreases combinations - i,
        {
            let bindings = build_row(&all_vars, i);
            let p_truth = p.evaluate(&bindings);
            let q_truth = q.evaluate(&bindings);
            if p_truth != q_truth {
                return false;
            }
            i = i + 1;
        }
        true
    }

    /// Modus ponens: from `P → Q` and `P`, conclude `Q`. When the antecedent
    /// given is the implication's left side, `Q` holds and the answer is
    /// `True`; for another antecedent nothing follows from it, and `Q` is
    /// evaluated with no variable bound. Anything but an implication gives
    /// `None`.
    pub fn modus_ponens(&self, implication: &Proposition, antecedent: &Proposition) -> (r: Option<
        TruthValue,
    >)
        ensures
            r == match implication@ {
                Formula::Implies(p, q) => if *p == antecedent@ {
                    Some(TruthValue::True)
                } else {
                    Some(eval(*q, Map::empty()))
                },
                _ => None,
            },
    {
        let bindings = Bindings::new();
        if let Proposition::Implies(p, q) = implication {
            if same_proposition(p, antecedent) {
                return Some(TruthValue::True);
            }
            return Some(q.evaluate(&bindings));
        }
        None
    }

    /// Modus tollens: from `P → Q` and `¬Q`, conclude `¬P`; the conclusion
    /// is reported as `True` for any implication, and anything else gives
    /// `None`.
    pub fn modus_tollens(&self, implication: &Proposition, consequent_false: &Proposition) -> (r:
        Option<TruthValue>)
        ensures
            r == match implication@ {
                Formula::Implies(_, _) => Some(TruthValue::True),
                _ => None,
            },
    {
        if let Proposition::Implies(_, _) = implication {
            return Some(TruthValue::True);
        }
        None
    }
}

proof fn lemma_collect_vars(f: Formula, acc: Seq<Seq<char>>)
    requires
        acc.no_duplicates(),
    ensures
        collect_vars(f, acc).no_duplicates(),
        collect_vars(f, acc).to_set() == acc.to_set().union(atoms(f)),
        collect_vars(f, acc).len() >= acc.len(),
        collect_vars(f, acc).subrange(0, acc.len() as int) == acc,
    decreases f,
{
    match f {
        Formula::Atom(n) => {
            if acc.contains(n) {
                assert(acc.to_set().union(set![n]) =~= acc.to_set());
                assert(acc.subrange(0, acc.len() as int) =~= acc);
            } else {
                let r = acc.push(n);
                assert forall|i: int, j: int| 0 <= i < j < r.len() implies r[i] != r[j] by {
                    if j == acc.len() {
                        assert(acc[i] == r[i]);
                    }
                }
                assert(r.to_set() =~= acc.to_set().union(set![n])) by {
                    assert forall|x| r.to_set().contains(x) <==> acc.to_set().union(set![n]).contains(x) by {
                        if r.contains(x) {
                            let i = choose|i: int| 0 <= i < r.len() && r[i] == x;
                            if i < acc.len() {
                                assert(acc[i] == x);
                            }
                        }
                        if acc.contains(x) {
                            let i = choose|i: int| 0 <= i < acc.len() && acc[i] == x;
                            assert(r[i] == x);
                        }
                        if x == n {
                            assert(r[acc.len() as int] == n);
                        }
                    }
                }
                assert(r.subrange(0, acc.len() as int) =~= acc);
            }
        },
        Formula::And(a, b) | Formula::Or(a, b) | Formula::Implies(a, b) | Formula::Iff(a, b) => {
            lemma_collect_vars(*a, acc);
            let m = collect_vars(*a, acc);
            lemma_collect_vars(*b, m);
            let r = collect_vars(*b, m);
            assert(r.to_set() =~= acc.to_set().union(atoms(f)));
            assert(r.subrange(0, acc.len() as int) =~= r.subrange(0, m.len() as int).subrange(
                0,
                acc.len() as int,
            ));
        },
        Formula::Not(a) => {
            lemma_collect_vars(*a, acc);
        },
        Formula::True | Formula::False => {
            assert(acc.to_set().union(Set::empty()) =~= acc.to_set());
            assert(acc.subrange(0, acc.len() as int) =~= acc);
        },
    }
}

/// The variables of a proposition are listed once each, and they are exactly
/// its atoms.
pub proof fn law_variables_are_its_atoms_once(f: Formula)
    ensures
        vars_of(f).no_duplicates(),
        vars_of(f).to_set() == atoms(f),
{
    lemma_collect_vars(f, Seq::empty());
    assert(Seq::<Seq<char>>::empty().to_set() =~= Set::empty());
    assert(Set::<Seq<char>>::empty().union(atoms(f)) =~= atoms(f));
}

/// A proposition is a contradiction exactly when its negation... is a
/// tautology: `NOT p` is false in every row exactly when `p` is true in every row.
pub proof fn law_negation_swaps_tautology_and_contradiction(f: Formula)
    ensures
        contradiction(Formula::Not(Box::new(f))) == tautology(f),
        tautology(Formula::Not(Box::new(f))) == contradiction(f),
{
    let nf = Formula::Not(Box::new(f));
    assert(vars_of(nf) == vars_of(f));
    assert forall|i: u64| i < table_size(f) implies (#[trigger] eval(nf, row(nf, i))
        == TruthValue::False) == (eval(f, row(f, i)) == TruthValue::True) by {
        assert(row(nf, i) == row(f, i));
    }
    assert forall|i: u64| i < table_size(f) implies (#[trigger] eval(nf, row(nf, i))
        == TruthValue::True) == (eval(f, row(f, i)) == TruthValue::False) by {
        assert(row(nf, i) == row(f, i));
    }
    if contradiction(nf) {
        assert forall|i: u64| i < table_size(f) implies #[trigger] eval(f, row(f, i))
            == TruthValue::True by {
            assert(eval(nf, row(nf, i)) == TruthValue::False);
        }
    }
    if tautology(f) {
        assert forall|i: u64| i < table_size(nf) implies #[trigger] eval(nf, row(nf, i))
            == TruthValue::False by {
            assert(eval(f, row(f, i)) == TruthValue::True);
        }
    }
    if tautology(nf) {
        assert forall|i: u64| i < table_size(f) implies #[trigger] eval(f, row(f, i))
            == TruthValue::False by {
            assert(eval(nf, row(nf, i)) == TruthValue::True);
        }
    }
    if contradiction(f) {
        assert forall|i: u64| i < table_size(nf) implies #[trigger] eval(nf, row(nf, i))
            == TruthValue::True by {
            assert(eval(f, row(f, i)) == TruthValue::False);
        }
    }
}

/// Every proposition is equivalent to itself.
pub proof fn law_equivalence_is_reflexive(f: Formula)
    ensures
        equivalent(f, f),
{
}

/// Two assignments agree on a name: both bind it or neither does, with equal values.
pub open spec fn agree_at(x: Seq<char>, e1: Map<Seq<char>, bool>, e2: Map<Seq<char>, bool>) -> bool {
    e1.contains_key(x) == e2.contains_key(x) && (e1.contains_key(x) ==> e1[x] == e2[x])
}

/// Two assignments agree on every name of a set.
pub open spec fn agree_on(s: Set<Seq<char>>, e1: Map<Seq<char>, bool>, e2: Map<Seq<char>, bool>) -> bool {
    forall|x: Seq<char>| s.contains(x) ==> #[trigger] agree_at(x, e1, e2)
}

proof fn lemma_agree_split(
    a: Formula,
    b: Formula,
    f: Formula,
    e1: Map<Seq<char>, bool>,
    e2: Map<Seq<char>, bool>,
)
    requires
        atoms(f) == atoms(a).union(atoms(b)),
        agree_on(atoms(f), e1, e2),
    ensures
        agree_on(atoms(a), e1, e2),
        agree_on(atoms(b), e1, e2),
{
    assert forall|x: Seq<char>| atoms(a).contains(x) implies #[trigger] agree_at(x, e1, e2) by {
        assert(atoms(f).contains(x));
    }
    assert forall|x: Seq<char>| atoms(b).contains(x) implies #[trigger] agree_at(x, e1, e2) by {
        assert(atoms(f).contains(x));
    }
}

/// Two assignments that agree on the atoms of a formula give it the same value.
pub proof fn law_evaluation_reads_only_atoms(
    f: Formula,
    e1: Map<Seq<char>, bool>,
    e2: Map<Seq<char>, bool>,
)
    requires
        agree_on(atoms(f), e1, e2),
    ensures
        eval(f, e1) == eval(f, e2),
    decreases f,
{
    match f {
        Formula::Atom(n) => {
            assert(atoms(f).contains(n));
            assert(agree_at(n, e1, e2));
        },
        Formula::And(a, b) => {
            lemma_agree_split(*a, *b, f, e1, e2);
            law_evaluation_reads_only_atoms(*a, e1, e2);
            law_evaluation_reads_only_atoms(*b, e1, e2);
        },
        Formula::Or(a, b) => {
            lemma_agree_split(*a, *b, f, e1, e2);
            law_evaluation_reads_only_atoms(*a, e1, e2);
            law_evaluation_reads_only_atoms(*b, e1, e2);
        },
        Formula::Implies(a, b) => {
            lemma_agree_split(*a, *b, f, e1, e2);
            law_evaluation_reads_only_atoms(*a, e1, e2);
            law_evaluation_reads_only_atoms(*b, e1, e2);
        },
        Formula::Iff(a, b) => {
            lemma_agree_split(*a, *b, f, e1, e2);
            law_evaluation_reads_only_atoms(*a, e1, e2);
            law_evaluation_reads_only_atoms(*b, e1, e2);
        },
        Formula::Not(a) => {
            law_evaluation_reads_only_atoms(*a, e1, e2);
        },
        _ => {},
    }
}

proof fn lemma_row_map(vars: Seq<Seq<char>>, i: u64, k: int)
    requires
        vars.no_duplicates(),
        0 <= k <= vars.len(),
    ensures
        forall|j: int|
            0 <= j < k ==> #[trigger] row_map(vars, i, k).contains_key(vars[j]) && row_map(
                vars,
                i,
                k,
            )[vars[j]] == bit(i, j),
        forall|x: Seq<char>|
            #[trigger] row_map(vars, i, k).contains_key(x) ==> vars.subrange(0, k).contains(x),
    decreases k,
{
    if k > 0 {
        lemma_row_map(vars, i, k - 1);
        let m = row_map(vars, i, k);
        assert forall|j: int| 0 <= j < k implies #[trigger] m.contains_key(vars[j]) && m[vars[j]]
            == bit(i, j) by {
            if j < k - 1 {
                assert(vars[j] != vars[k - 1]);
                assert(row_map(vars, i, k - 1).contains_key(vars[j]));
            }
        }
        assert forall|x: Seq<char>| #[trigger] m.contains_key(x) implies vars.subrange(
            0,
            k,
        ).contains(x) by {
            if x == vars[k - 1] {
                assert(vars.subrange(0, k)[k - 1] == x);
            } else {
                assert(row_map(vars, i, k - 1).contains_key(x));
                let t = choose|t: int| 0 <= t < k - 1 && #[trigger] vars.subrange(0, k - 1)[t] == x;
                assert(vars.subrange(0, k)[t] == x);
            }
        }
    }
}

proof fn lemma_bit_set(x: u64, s: u64)
    by (bit_vector)
    requires
        s < 63,
        x < (1u64 << s),
    ensures
        (x | (1u64 << s)) < (1u64 << (s + 1)),
        x < (1u64 << (s + 1)),
        ((x | (1u64 << s)) >> s) & 1u64 == 1u64,
        (x >> s) & 1u64 == 0u64,
{
}

proof fn lemma_bit_keep(x: u64, s: u64, t: u64)
    by (bit_vector)
    requires
        t < s < 63,
    ensures
        ((x | (1u64 << s)) >> t) & 1u64 == (x >> t) & 1u64,
{
}

/// The row index whose first `k` bits are the given values.
pub open spec fn encode_bits(vals: Seq<bool>, k: int) -> u64
    decreases k,
{
    if k <= 0 {
        0
    } else if vals[k - 1] {
        encode_bits(vals, k - 1) | (1u64 << ((k - 1) as u64))
    } else {
        encode_bits(vals, k - 1)
    }
}

proof fn lemma_encode_bits(vals: Seq<bool>, k: int)
    requires
        0 <= k < 64,
    ensures
        encode_bits(vals, k) < (1u64 << (k as u64)),
        forall|t: int| 0 <= t < k ==> #[trigger] bit(encode_bits(vals, k), t) == vals[t],
    decreases k,
{
    if k == 0 {
        assert((1u64 << 0u64) == 1u64) by (bit_vector);
    } else {
        lemma_encode_bits(vals, k - 1);
        let x = encode_bits(vals, k - 1);
        let s = (k - 1) as u64;
        lemma_bit_set(x, s);
        assert forall|t: int| 0 <= t < k implies #[trigger] bit(encode_bits(vals, k), t)
            == vals[t] by {
            if t < k - 1 {
                if vals[k - 1] {
                    lemma_bit_keep(x, s, t as u64);
                }
                assert(bit(x, t) == vals[t]);
            }
        }
    }
}

/// Holds when `f` takes value `v` in every row of its truth table.
pub open spec fn always_in_table(f: Formula, v: TruthValue) -> bool {
    forall|i: u64| i < table_size(f) ==> #[trigger] eval(f, row(f, i)) == v
}

/// Holds when `f` takes value `v` under every assignment binding all its atoms.
pub open spec fn always_under_assignments(f: Formula, v: TruthValue) -> bool {
    forall|env: Map<Seq<char>, bool>|
        atoms(f).subset_of(env.dom()) ==> #[trigger] eval(f, env) == v
}

proof fn lemma_table_covers_assignments(f: Formula, v: TruthValue)
    requires
        vars_of(f).len() < 64,
    ensures
        always_in_table(f, v) == always_under_assignments(f, v),
{
    law_variables_are_its_atoms_once(f);
    let vars = vars_of(f);
    let n = vars.len() as int;
    if always_in_table(f, v) {
        assert forall|env: Map<Seq<char>, bool>| atoms(f).subset_of(env.dom()) implies #[trigger] eval(
            f,
            env,
        ) == v by {
            let vals = Seq::new(n as nat, |j: int| env[vars[j]]);
            let k = encode_bits(vals, n);
            lemma_encode_bits(vals, n);
            lemma_row_map(vars, k, n);
            assert(vars.subrange(0, n) =~= vars);
            assert forall|x: Seq<char>| atoms(f).contains(x) implies #[trigger] agree_at(
                x,
                env,
                row(f, k),
            ) by {
                assert(vars.to_set().contains(x));
                let j = choose|j: int| 0 <= j < vars.len() && #[trigger] vars[j] == x;
                assert(bit(k, j) == vals[j]);
            }
            law_evaluation_reads_only_atoms(f, env, row(f, k));
            assert(eval(f, row(f, k)) == v);
        }
    }
    if always_under_assignments(f, v) {
        assert forall|i: u64| i < table_size(f) implies #[trigger] eval(f, row(f, i)) == v by {
            lemma_row_map(vars, i, n);
            assert forall|x: Seq<char>| atoms(f).contains(x) implies row(f, i).dom().contains(x) by {
                assert(vars.to_set().contains(x));
                let j = choose|j: int| 0 <= j < vars.len() && #[trigger] vars[j] == x;
                assert(row(f, i).contains_key(vars[j]));
            }
            assert(atoms(f).subset_of(row(f, i).dom()));
        }
    }
}

/// A proposition is a tautology exactly when it is true under every
/// assignment of truth values to its variables.
pub proof fn law_tautology_is_truth_under_every_assignment(f: Formula)
    requires
        vars_of(f).len() < 64,
    ensures
        tautology(f) <==> (forall|env: Map<Seq<char>, bool>|
            atoms(f).subset_of(env.dom()) ==> #[trigger] eval(f, env) == TruthValue::True),
{
    lemma_table_covers_assignments(f, TruthValue::True);
}

/// A proposition is a contradiction exactly when it is false under every
/// assignment of truth values to its variables.
pub proof fn law_contradiction_is_falsity_under_every_assignment(f: Formula)
    requires
        vars_of(f).len() < 64,
    ensures
        contradiction(f) <==> (forall|env: Map<Seq<char>, bool>|
            atoms(f).subset_of(env.dom()) ==> #[trigger] eval(f, env) == TruthValue::False),
{
    lemma_table_covers_assignments(f, TruthValue::False);
}

/// Whether a vector of strings holds a string equal to `name`.
pub fn vec_contains_string(v: &Vec<String>, name: &String) -> (b: bool)
    ensures
        b == v.deep_view().contains(name@),
{
    let mut i: usize = 0;
    while i < v.len()
        invariant
            i <= v@.len(),
            forall|k: int| 0 <= k < i ==> v@[k]@ != name@,
        decreases v@.len() - i,
    {
        if v[i] == *name {
            assert(v.deep_view()[i as int] == name@);
            return true;
        }
        i = i + 1;
    }
    assert forall|k: int| 0 <= k < v.deep_view().len() implies v.deep_view()[k] != name@ by {
        assert(v.deep_view()[k] == v@[k]@);
    }
    false
}


/// The classical truth of a formula under an assignment that binds each of
/// its atoms.
pub open spec fn classical(f: Formula, env: Map<Seq<char>, bool>) -> bool
    decreases f,
{
    match f {
        Formula::Atom(n) => env[n],
        Formula::And(a, b) => classical(*a, env) && classical(*b, env),
        Formula::Or(a, b) => classical(*a, env) || classical(*b, env),
        Formula::Not(a) => !classical(*a, env),
        Formula::Implies(a, b) => !classical(*a, env) || classical(*b, env),
        Formula::Iff(a, b) => classical(*a, env) == classical(*b, env),
        Formula::True => true,
        Formula::False => false,
    }
}

/// The truth value that stands for a classical truth.
pub open spec fn truth_of(b: bool) -> TruthValue {
    if b {
        TruthValue::True
    } else {
        TruthValue::False
    }
}

/// Under an assignment that binds every variable of a proposition, it
/// evaluates to `True` or `False`, by the classical connectives: `AND`,
/// `OR`, `NOT`, `→` as `¬a ∨ b` and `↔` as equality.
pub proof fn law_bound_evaluation_is_classical(f: Formula, env: Map<Seq<char>, bool>)
    requires
        atoms(f).subset_of(env.dom()),
    ensures
        eval(f, env) == truth_of(classical(f, env)),
    decreases f,
{
    match f {
        Formula::Atom(n) => {
            assert(atoms(f).contains(n));
        },
        Formula::And(a, b) => {
            law_bound_evaluation_is_classical(*a, env);
            law_bound_evaluation_is_classical(*b, env);
        },
        Formula::Or(a, b) => {
            law_bound_evaluation_is_classical(*a, env);
            law_bound_evaluation_is_classical(*b, env);
        },
        Formula::Implies(a, b) => {
            law_bound_evaluation_is_classical(*a, env);
            law_bound_evaluation_is_classical(*b, env);
        },
        Formula::Iff(a, b) => {
            law_bound_evaluation_is_classical(*a, env);
            law_bound_evaluation_is_classical(*b, env);
        },
        Formula::Not(a) => {
            law_bound_evaluation_is_classical(*a, env);
        },
        _ => {},
    }
}

/// The bits of `i` below position `s`.
pub open spec fn low_bits(i: u64, s: u64) -> u64 {
    i & !(0xffff_ffff_ffff_ffffu64 << s)
}

proof fn lemma_low_bits_step(i: u64, s: u64)
    by (bit_vector)
    requires
        s < 63,
    ensures
        (i >> s) & 1u64 == 1u64 ==> (i & !(0xffff_ffff_ffff_ffffu64 << s)) | (1u64 << s) == i
            & !(0xffff_ffff_ffff_ffffu64 << ((s + 1) as u64)),
        (i >> s) & 1u64 != 1u64 ==> i & !(0xffff_ffff_ffff_ffffu64 << s) == i & !(
        0xffff_ffff_ffff_ffffu64 << ((s + 1) as u64)),
{
}

proof fn lemma_low_bits_ends(i: u64, n: u64)
    by (bit_vector)
    requires
        n < 64,
    ensures
        i & !(0xffff_ffff_ffff_ffffu64 << 0u64) == 0u64,
        i < (1u64 << n) ==> i & !(0xffff_ffff_ffff_ffffu64 << n) == i,
{
}

/// The bits of `i`, lowest first.
pub open spec fn bits_of(i: u64) -> Seq<bool> {
    Seq::new(64, |t: int| bit(i, t))
}

proof fn lemma_encode_own_bits(i: u64, k: int)
    requires
        0 <= k < 64,
    ensures
        encode_bits(bits_of(i), k) == low_bits(i, k as u64),
    decreases k,
{
    if k == 0 {
        lemma_low_bits_ends(i, 0);
    } else {
        lemma_encode_own_bits(i, k - 1);
        lemma_low_bits_step(i, (k - 1) as u64);
        assert(((k - 1) as u64 + 1) as u64 == k as u64);
    }
}

proof fn lemma_encode_depends_on_prefix(v1: Seq<bool>, v2: Seq<bool>, k: int)
    requires
        forall|t: int| 0 <= t < k ==> v1[t] == v2[t],
    ensures
        encode_bits(v1, k) == encode_bits(v2, k),
    decreases k,
{
    if k > 0 {
        lemma_encode_depends_on_prefix(v1, v2, k - 1);
    }
}

/// Row `i` of a truth table binds exactly the proposition's variables, the
/// `j`-th to bit `j` of `i`.
pub proof fn law_truth_table_row_binds_bits(f: Formula, i: u64)
    ensures
        row(f, i).dom() == vars_of(f).to_set(),
        forall|j: int|
            0 <= j < vars_of(f).len() ==> #[trigger] row(f, i)[vars_of(f)[j]] == bit(i, j),
{
    law_variables_are_its_atoms_once(f);
    let vars = vars_of(f);
    let n = vars.len() as int;
    lemma_row_map(vars, i, n);
    assert(vars.subrange(0, n) =~= vars);
    assert forall|x: Seq<char>| vars.to_set().contains(x) implies row(f, i).dom().contains(x) by {
        let j = choose|j: int| 0 <= j < vars.len() && #[trigger] vars[j] == x;
        assert(row(f, i).contains_key(vars[j]));
    }
    assert(row(f, i).dom() =~= vars.to_set());
    assert forall|j: int| 0 <= j < n implies #[trigger] row(f, i)[vars[j]] == bit(i, j) by {
        assert(row_map(vars, i, n).contains_key(vars[j]));
    }
}

/// The rows of a truth table are each assignment of the proposition's
/// variables exactly once: two different rows are different assignments,
/// and every assignment of exactly those variables is a row.
pub proof fn law_truth_table_rows_are_each_assignment_once(f: Formula)
    requires
        vars_of(f).len() < 64,
    ensures
        forall|i: u64, k: u64|
            i < table_size(f) && k < table_size(f) && i != k ==> #[trigger] row(f, i) != #[trigger] row(
                f,
                k,
            ),
        forall|env: Map<Seq<char>, bool>|
            env.dom() == atoms(f) ==> exists|i: u64| i < table_size(f) && #[trigger] row(f, i) == env,
{
    law_variables_are_its_atoms_once(f);
    let vars = vars_of(f);
    let n = vars.len() as int;
    assert forall|i: u64, k: u64|
        i < table_size(f) && k < table_size(f) && i != k implies #[trigger] row(f, i)
        != #[trigger] row(f, k) by {
        if row(f, i) == row(f, k) {
            law_truth_table_row_binds_bits(f, i);
            law_truth_table_row_binds_bits(f, k);
            assert forall|t: int| 0 <= t < n implies bits_of(i)[t] == bits_of(k)[t] by {
                assert(row(f, i)[vars[t]] == bit(i, t));
                assert(row(f, k)[vars[t]] == bit(k, t));
            }
            lemma_encode_depends_on_prefix(bits_of(i), bits_of(k), n);
            lemma_encode_own_bits(i, n);
            lemma_encode_own_bits(k, n);
            lemma_low_bits_ends(i, n as u64);
            lemma_low_bits_ends(k, n as u64);
        }
    }
    assert forall|env: Map<Seq<char>, bool>| env.dom() == atoms(f) implies exists|i: u64|
        i < table_size(f) && #[trigger] row(f, i) == env by {
        let vals = Seq::new(n as nat, |j: int| env[vars[j]]);
        let k = encode_bits(vals, n);
        lemma_encode_bits(vals, n);
        law_truth_table_row_binds_bits(f, k);
        assert forall|x: Seq<char>| #[trigger] row(f, k).contains_key(x) implies row(f, k)[x]
            == env[x] by {
            let j = choose|j: int| 0 <= j < vars.len() && #[trigger] vars[j] == x;
            assert(row(f, k)[vars[j]] == bit(k, j));
        }
        assert(row(f, k) =~= env);
    }
}

proof fn lemma_merge_vars(acc: Seq<Seq<char>>, qv: Seq<Seq<char>>)
    requires
        acc.no_duplicates(),
    ensures
        merge_vars(acc, qv).no_duplicates(),
        merge_vars(acc, qv).to_set() == acc.to_set().union(qv.to_set()),
    decreases qv.len(),
{
    if qv.len() > 0 {
        lemma_merge_vars(acc, qv.drop_last());
        let m = merge_vars(acc, qv.drop_last());
        assert(qv.to_set() =~= qv.drop_last().to_set().insert(qv.last())) by {
            assert forall|x: Seq<char>| qv.to_set().contains(x) implies qv.drop_last().to_set().insert(
                qv.last(),
            ).contains(x) by {
                let j = choose|j: int| 0 <= j < qv.len() && #[trigger] qv[j] == x;
                if j < qv.len() - 1 {
                    assert(qv.drop_last()[j] == x);
                }
            }
            assert forall|x: Seq<char>| qv.drop_last().to_set().insert(qv.last()).contains(
                x,
            ) implies qv.to_set().contains(x) by {
                if x != qv.last() {
                    let j = choose|j: int|
                        0 <= j < qv.drop_last().len() && #[trigger] qv.drop_last()[j] == x;
                    assert(qv[j] == x);
                } else {
                    assert(qv[qv.len() - 1] == x);
                }
            }
        }
        if !m.contains(qv.last()) {
            assert(m.push(qv.last()).to_set() =~= m.to_set().insert(qv.last())) by {
                assert forall|x: Seq<char>| m.push(qv.last()).to_set().contains(x) implies m.to_set().insert(
                    qv.last(),
                ).contains(x) by {
                    let j = choose|j: int|
                        0 <= j < m.push(qv.last()).len() && #[trigger] m.push(qv.last())[j] == x;
                    if j < m.len() {
                        assert(m[j] == x);
                    }
                }
                assert forall|x: Seq<char>| m.to_set().insert(qv.last()).contains(
                    x,
                ) implies m.push(qv.last()).to_set().contains(x) by {
                    if x == qv.last() {
                        assert(m.push(qv.last())[m.len() as int] == x);
                    } else {
                        let j = choose|j: int| 0 <= j < m.len() && #[trigger] m[j] == x;
                        assert(m.push(qv.last())[j] == x);
                    }
                }
            }
        } else {
            assert(m.to_set().contains(qv.last()));
        }
        assert(merge_vars(acc, qv).to_set() =~= acc.to_set().union(qv.to_set()));
    }
}

/// The variables over which two propositions are compared are listed once
/// each, and they are exactly the atoms of either.
pub proof fn law_joint_variables_are_both_atoms_once(p: Formula, q: Formula)
    ensures
        joint_vars(p, q).no_duplicates(),
        joint_vars(p, q).to_set() == atoms(p).union(atoms(q)),
{
    law_variables_are_its_atoms_once(p);
    law_variables_are_its_atoms_once(q);
    lemma_merge_vars(vars_of(p), vars_of(q));
}

/// Two propositions are equivalent exactly when they take the same value
/// under every assignment that binds all the variables of both.
pub proof fn law_equivalence_is_agreement_under_every_assignment(p: Formula, q: Formula)
    requires
        joint_vars(p, q).len() < 64,
    ensures
        equivalent(p, q) <==> (forall|env: Map<Seq<char>, bool>|
            atoms(p).union(atoms(q)).subset_of(env.dom()) ==> #[trigger] eval(p, env) == eval(
                q,
                env,
            )),
{
    law_joint_variables_are_both_atoms_once(p, q);
    let all = joint_vars(p, q);
    let n = all.len() as int;
    if equivalent(p, q) {
        assert forall|env: Map<Seq<char>, bool>|
            atoms(p).union(atoms(q)).subset_of(env.dom()) implies #[trigger] eval(p, env) == eval(
            q,
            env,
        ) by {
            let vals = Seq::new(n as nat, |j: int| env[all[j]]);
            let k = encode_bits(vals, n);
            lemma_encode_bits(vals, n);
            lemma_row_map(all, k, n);
            let r = row_map(all, k, n);
            assert forall|x: Seq<char>| atoms(p).union(atoms(q)).contains(x) implies #[trigger] agree_at(
                x,
                env,
                r,
            ) by {
                assert(all.to_set().contains(x));
                let j = choose|j: int| 0 <= j < all.len() && #[trigger] all[j] == x;
                assert(bit(k, j) == vals[j]);
            }
            lemma_agree_split(p, q, Formula::And(Box::new(p), Box::new(q)), env, r);
            law_evaluation_reads_only_atoms(p, env, r);
            law_evaluation_reads_only_atoms(q, env, r);
            assert(eval(p, r) == eval(q, r));
        }
    }
    if forall|env: Map<Seq<char>, bool>|
        atoms(p).union(atoms(q)).subset_of(env.dom()) ==> #[trigger] eval(p, env) == eval(q, env) {
        assert forall|i: u64| i < (1u64 << (all.len() as u64)) implies #[trigger] eval(
            p,
            row_map(all, i, all.len() as int),
        ) == eval(q, row_map(all, i, all.len() as int)) by {
            lemma_row_map(all, i, n);
            let r = row_map(all, i, n);
            assert forall|x: Seq<char>| atoms(p).union(atoms(q)).contains(x) implies r.dom().contains(
                x,
            ) by {
                assert(all.to_set().contains(x));
                let j = choose|j: int| 0 <= j < all.len() && #[trigger] all[j] == x;
                assert(r.contains_key(all[j]));
            }
            assert(atoms(p).union(atoms(q)).subset_of(r.dom()));
        }
    }
}

/// Equivalence does not depend on the order of the two propositions.
pub proof fn law_equivalence_is_symmetric(p: Formula, q: Formula)
    requires
        joint_vars(p, q).len() < 64,
    ensures
        joint_vars(q, p).len() == joint_vars(p, q).len(),
        equivalent(p, q) == equivalent(q, p),
{
    law_joint_variables_are_both_atoms_once(p, q);
    law_joint_variables_are_both_atoms_once(q, p);
    assert(atoms(p).union(atoms(q)) =~= atoms(q).union(atoms(p)));
    joint_vars(p, q).unique_seq_to_set();
    joint_vars(q, p).unique_seq_to_set();
    law_equivalence_is_agreement_under_every_assignment(p, q);
    law_equivalence_is_agreement_under_every_assignment(q, p);
    if equivalent(p, q) {
        assert forall|env: Map<Seq<char>, bool>|
            atoms(q).union(atoms(p)).subset_of(env.dom()) implies #[trigger] eval(q, env) == eval(
            p,
            env,
        ) by {
            assert(eval(p, env) == eval(q, env));
        }
    }
    if equivalent(q, p) {
        assert forall|env: Map<Seq<char>, bool>|
            atoms(p).union(atoms(q)).subset_of(env.dom()) implies #[trigger] eval(p, env) == eval(
            q,
            env,
        ) by {
            assert(eval(q, env) == eval(p, env));
        }
    }
}


/// The connectives under a partial assignment, where an unbound atom is
/// `Unknown`: a conjunction is `True` exactly when both sides are and is
/// `False` as soon as either side is, whatever the other; a disjunction is
/// `True` as soon as either side is and `False` exactly when both are; a
/// negation swaps `True` and `False` and keeps anything else `Unknown`; an
/// implication is `True` when its antecedent is `False` or both sides are
/// `True`, and `False` exactly when a `True` antecedent meets a `False`
/// consequent; a biconditional of two known sides is `True` when they agree
/// and `False` when they differ; in every other case the result is `Unknown`.
pub proof fn law_three_valued_connectives(f: Formula, g: Formula, env: Map<Seq<char>, bool>)
    ensures
        eval(f, env) == TruthValue::False ==> eval(Formula::And(Box::new(f), Box::new(g)), env)
            == TruthValue::False && eval(Formula::And(Box::new(g), Box::new(f)), env)
            == TruthValue::False,
        (eval(Formula::And(Box::new(f), Box::new(g)), env) == TruthValue::True) == (eval(f, env)
            == TruthValue::True && eval(g, env) == TruthValue::True),
        (eval(Formula::And(Box::new(f), Box::new(g)), env) == TruthValue::False) == (eval(f, env)
            == TruthValue::False || eval(g, env) == TruthValue::False),
        eval(f, env) == TruthValue::True ==> eval(Formula::Or(Box::new(f), Box::new(g)), env)
            == TruthValue::True && eval(Formula::Or(Box::new(g), Box::new(f)), env)
            == TruthValue::True,
        (eval(Formula::Or(Box::new(f), Box::new(g)), env) == TruthValue::True) == (eval(f, env)
            == TruthValue::True || eval(g, env) == TruthValue::True),
        (eval(Formula::Or(Box::new(f), Box::new(g)), env) == TruthValue::False) == (eval(f, env)
            == TruthValue::False && eval(g, env) == TruthValue::False),
        eval(Formula::Not(Box::new(f)), env) == (if eval(f, env) == TruthValue::True {
            TruthValue::False
        } else if eval(f, env) == TruthValue::False {
            TruthValue::True
        } else {
            TruthValue::Unknown
        }),
        (eval(Formula::Implies(Box::new(f), Box::new(g)), env) == TruthValue::True) == (eval(f, env)
            == TruthValue::False || (eval(f, env) == TruthValue::True && eval(g, env)
            == TruthValue::True)),
        (eval(Formula::Implies(Box::new(f), Box::new(g)), env) == TruthValue::False) == (eval(
            f,
            env,
        ) == TruthValue::True && eval(g, env) == TruthValue::False),
        (eval(f, env) == TruthValue::True || eval(f, env) == TruthValue::False) && (eval(g, env)
            == TruthValue::True || eval(g, env) == TruthValue::False) ==> eval(
            Formula::Iff(Box::new(f), Box::new(g)),
            env,
        ) == (if eval(f, env) == eval(g, env) {
            TruthValue::True
        } else {
            TruthValue::False
        }),
        !((eval(f, env) == TruthValue::True || eval(f, env) == TruthValue::False) && (eval(g, env)
            == TruthValue::True || eval(g, env) == TruthValue::False)) ==> eval(
            Formula::Iff(Box::new(f), Box::new(g)),
            env,
        ) == TruthValue::Unknown,
        eval(Formula::And(Box::new(f), Box::new(g)), env) != TruthValue::Contradiction,
        eval(Formula::Or(Box::new(f), Box::new(g)), env) != TruthValue::Contradiction,
        eval(Formula::Implies(Box::new(f), Box::new(g)), env) != TruthValue::Contradiction,
{
}

/// An atom takes the value it is bound to, and is `Unknown` when unbound;
/// the constants are `True` and `False` under every assignment.
pub proof fn law_atoms_and_constants(name: Seq<char>, env: Map<Seq<char>, bool>)
    ensures
        env.contains_key(name) ==> eval(Formula::Atom(name), env) == (if env[name] {
            TruthValue::True
        } else {
            TruthValue::False
        }),
        !env.contains_key(name) ==> eval(Formula::Atom(name), env) == TruthValue::Unknown,
        eval(Formula::True, env) == TruthValue::True,
        eval(Formula::False, env) == TruthValue::False,
{
}


/// A character of a plain operand: an ASCII letter or digit.
pub open spec fn plain_char(c: char) -> bool {
    let u = c as u32;
    (48 <= u && u <= 57) || (65 <= u && u <= 90) || (97 <= u && u <= 122)
}

/// Every character of the text is an ASCII letter or digit.
pub open spec fn plain_text(w: Seq<char>) -> bool {
    forall|k: int| 0 <= k < w.len() ==> plain_char(#[trigger] w[k])
}

/// A plain operand: a nonempty run of ASCII letters and digits.
pub open spec fn plain_word(w: Seq<char>) -> bool {
    w.len() > 0 && plain_text(w)
}

proof fn lemma_plain_trim(s: Seq<char>)
    requires
        s.len() > 0,
        plain_char(s[0]),
        plain_char(s[s.len() - 1]),
    ensures
        trim_seq(s) == s,
{
    assert(!is_ws(s[0]));
    assert(!is_ws(s[s.len() - 1]));
    assert(first_non_ws_from(s, 0) == 0);
    assert(last_non_ws_before(s, 0, s.len() as int) == s.len());
    assert(s.subrange(0, s.len() as int) =~= s);
}

proof fn lemma_char_absent(s: Seq<char>, c: char, j: int)
    requires
        0 <= j,
        forall|k: int| 0 <= k < s.len() ==> s[k] != c,
    ensures
        find_op_from(s, seq![c], j) == -1,
    decreases s.len() + 1 - j,
{
    if j + 1 <= s.len() {
        if occurs_at(s, seq![c], j) {
            assert(s.subrange(j, j + 1)[0] == s[j]);
        }
        lemma_char_absent(s, c, j + 1);
    }
}

proof fn lemma_occurs_inside_sep(a: Seq<char>, sep: Seq<char>, b: Seq<char>, pat: Seq<char>, i: int)
    requires
        plain_text(a),
        plain_text(b),
        pat.len() >= 1,
        !plain_char(pat[0]),
        !plain_char(pat[pat.len() - 1]),
        occurs_at(a + sep + b, pat, i),
    ensures
        a.len() <= i,
        i + pat.len() <= a.len() + sep.len(),
        occurs_at(sep, pat, i - a.len()),
{
    let s = a + sep + b;
    let la = a.len() as int;
    let ls = sep.len() as int;
    let e = i + pat.len() - 1;
    assert(s.subrange(i, i + pat.len())[0] == s[i]);
    assert(s.subrange(i, i + pat.len())[pat.len() - 1] == s[e]);
    if i < la {
        assert(s[i] == a[i]);
    }
    if i >= la + ls {
        assert(s[i] == b[i - la - ls]);
    }
    if e >= la + ls {
        assert(s[e] == b[e - la - ls]);
    }
    assert(sep.subrange(i - la, i - la + pat.len()) =~= s.subrange(i, i + pat.len()));
}

proof fn lemma_differs_everywhere(hay: Seq<char>, pat: Seq<char>)
    requires
        pat.len() >= 2,
        forall|m: int|
            0 <= m && m + pat.len() <= hay.len() ==> (#[trigger] hay[m] != pat[0] || hay[m + 1]
                != pat[1] || hay[m + pat.len() - 1] != pat[pat.len() - 1]),
    ensures
        forall|m: int| !occurs_at(hay, pat, m),
{
    assert forall|m: int| !occurs_at(hay, pat, m) by {
        if occurs_at(hay, pat, m) {
            let sub = hay.subrange(m, m + pat.len());
            assert(sub[0] == hay[m]);
            assert(sub[1] == hay[m + 1]);
            assert(sub[pat.len() - 1] == hay[m + pat.len() - 1]);
        }
    }
}

proof fn lemma_ascii_absent(a: Seq<char>, sep: Seq<char>, b: Seq<char>, pat: Seq<char>)
    requires
        plain_text(a),
        plain_text(b),
        pat.len() >= 1,
        !plain_char(pat[0]),
        !plain_char(pat[pat.len() - 1]),
        forall|m: int| !occurs_at(sep, pat, m),
    ensures
        ascii_split(a + sep + b, pat) is NotFound,
{
    let s = a + sep + b;
    assert forall|i: int| !occurs_at(s, pat, i) by {
        if occurs_at(s, pat, i) {
            lemma_occurs_inside_sep(a, sep, b, pat, i);
            assert(!occurs_at(sep, pat, i - a.len()));
        }
    }
    lemma_first_occ_none(s, pat, 0);
}

proof fn lemma_ascii_found(a: Seq<char>, sep: Seq<char>, b: Seq<char>)
    requires
        plain_text(a),
        plain_text(b),
        sep.len() >= 1,
        !plain_char(sep[0]),
        !plain_char(sep[sep.len() - 1]),
    ensures
        ascii_split(a + sep + b, sep) == Split::At(a.len() as int, (a.len() + sep.len()) as int),
{
    let s = a + sep + b;
    let la = a.len() as int;
    assert(s.subrange(la, la + sep.len()) =~= sep);
    assert(occurs_at(s, sep, la));
    assert forall|k: int| 0 <= k < la implies !occurs_at(s, sep, k) by {
        if occurs_at(s, sep, k) {
            lemma_occurs_inside_sep(a, sep, b, sep, k);
        }
    }
    lemma_first_occ_is(s, sep, 0, la);
}

proof fn lemma_unicode_absent(a: Seq<char>, sep: Seq<char>, b: Seq<char>, c: char)
    requires
        plain_text(a),
        plain_text(b),
        !plain_char(c),
        forall|k: int| 0 <= k < sep.len() ==> sep[k] != c,
    ensures
        unicode_split(a + sep + b, c) is NotFound,
{
    let s = a + sep + b;
    let la = a.len() as int;
    assert forall|k: int| 0 <= k < s.len() implies s[k] != c by {
        if k < la {
            assert(s[k] == a[k]);
        } else if k < la + sep.len() {
            assert(s[k] == sep[k - la]);
        } else {
            assert(s[k] == b[k - la - sep.len()]);
        }
    }
    lemma_char_absent(s, c, 0);
}

/// The separators, each with the connective it stands for.
pub open spec fn ascii_separator(k: int) -> (Seq<char>, BinOp) {
    if k == 0 {
        ("->"@, BinOp::Implies)
    } else if k == 1 {
        (" /\\ "@, BinOp::And)
    } else if k == 2 {
        (" AND "@, BinOp::And)
    } else if k == 3 {
        (" & "@, BinOp::And)
    } else if k == 4 {
        (" \\/ "@, BinOp::Or)
    } else if k == 5 {
        (" OR "@, BinOp::Or)
    } else {
        (" | "@, BinOp::Or)
    }
}

proof fn lemma_first_split_between(a: Seq<char>, b: Seq<char>, k: int)
    requires
        plain_text(a),
        plain_text(b),
        0 <= k < 7,
    ensures
        first_split(a + ascii_separator(k).0 + b) == (
            Split::At(a.len() as int, (a.len() + ascii_separator(k).0.len()) as int),
            ascii_separator(k).1,
        ),
{
    reveal_strlit("->");
    reveal_strlit("<->");
    reveal_strlit(" /\\ ");
    reveal_strlit(" AND ");
    reveal_strlit(" & ");
    reveal_strlit(" \\/ ");
    reveal_strlit(" OR ");
    reveal_strlit(" | ");
    let sep = ascii_separator(k).0;
    assert(!plain_char('→') && !plain_char('↔') && !plain_char('∧') && !plain_char('∨'));
    assert(!plain_char(' ') && !plain_char('-') && !plain_char('<') && !plain_char('>'));
    assert forall|j: int| 0 <= j < sep.len() implies sep[j] != '→' && sep[j] != '↔' && sep[j]
        != '∧' && sep[j] != '∨' by {}
    lemma_unicode_absent(a, sep, b, '→');
    lemma_unicode_absent(a, sep, b, '↔');
    lemma_unicode_absent(a, sep, b, '∧');
    lemma_unicode_absent(a, sep, b, '∨');
    lemma_ascii_found(a, sep, b);
    if k >= 1 {
        lemma_differs_everywhere(sep, "->"@);
        lemma_ascii_absent(a, sep, b, "->"@);
        lemma_differs_everywhere(sep, "<->"@);
        lemma_ascii_absent(a, sep, b, "<->"@);
    }
    if k >= 2 {
        lemma_differs_everywhere(sep, " /\\ "@);
        lemma_ascii_absent(a, sep, b, " /\\ "@);
    }
    if k >= 3 {
        lemma_differs_everywhere(sep, " AND "@);
        lemma_ascii_absent(a, sep, b, " AND "@);
    }
    if k >= 4 {
        lemma_differs_everywhere(sep, " & "@);
        lemma_ascii_absent(a, sep, b, " & "@);
    }
    if k >= 5 {
        lemma_differs_everywhere(sep, " \\/ "@);
        lemma_ascii_absent(a, sep, b, " \\/ "@);
    }
    if k >= 6 {
        lemma_differs_everywhere(sep, " OR "@);
        lemma_ascii_absent(a, sep, b, " OR "@);
    }
}


proof fn lemma_parse_plain_word(a: Seq<char>, up: spec_fn(Seq<char>) -> Seq<char>)
    requires
        plain_word(a),
    ensures
        parse_with(a, up) == Some(constant_or_atom(a, up(a))),
{
    reveal_strlit("(");
    reveal_strlit("NOT ");
    lemma_plain_trim(a);
    if starts_with_seq(a, "("@) {
        assert(a.subrange(0, 1)[0] == a[0]);
    }
    if starts_with_seq(a, "NOT "@) && a.len() >= 4 {
        assert(a.subrange(0, 4)[3] == a[3]);
    }
    let e = Seq::<char>::empty();
    assert(a + e + e =~= a);
    assert(!plain_char('→') && !plain_char('↔') && !plain_char('∧') && !plain_char('∨'));
    lemma_unicode_absent(a, e, e, '→');
    lemma_unicode_absent(a, e, e, '↔');
    lemma_unicode_absent(a, e, e, '∧');
    lemma_unicode_absent(a, e, e, '∨');
    reveal_strlit("->");
    reveal_strlit("<->");
    reveal_strlit(" /\\ ");
    reveal_strlit(" AND ");
    reveal_strlit(" & ");
    reveal_strlit(" \\/ ");
    reveal_strlit(" OR ");
    reveal_strlit(" | ");
    assert(!plain_char(' ') && !plain_char('-') && !plain_char('<') && !plain_char('>'));
    lemma_ascii_absent(a, e, e, "->"@);
    lemma_ascii_absent(a, e, e, "<->"@);
    lemma_ascii_absent(a, e, e, " /\\ "@);
    lemma_ascii_absent(a, e, e, " AND "@);
    lemma_ascii_absent(a, e, e, " & "@);
    lemma_ascii_absent(a, e, e, " \\/ "@);
    lemma_ascii_absent(a, e, e, " OR "@);
    lemma_ascii_absent(a, e, e, " | "@);
}

proof fn lemma_parse_between(a: Seq<char>, b: Seq<char>, k: int, up: spec_fn(Seq<char>) -> Seq<char>)
    requires
        plain_word(a),
        plain_word(b),
        a != "NOT"@,
        0 <= k < 7,
    ensures
        parse_with(a + ascii_separator(k).0 + b, up) == Some(
            mk_bin(ascii_separator(k).1, constant_or_atom(a, up(a)), constant_or_atom(b, up(b))),
        ),
{
    reveal_strlit("(");
    reveal_strlit("NOT ");
    reveal_strlit("NOT");
    reveal_strlit("->");
    reveal_strlit(" /\\ ");
    reveal_strlit(" AND ");
    reveal_strlit(" & ");
    reveal_strlit(" \\/ ");
    reveal_strlit(" OR ");
    reveal_strlit(" | ");
    let sep = ascii_separator(k).0;
    let s = a + sep + b;
    let la = a.len() as int;
    let ls = sep.len() as int;
    assert(s[0] == a[0]);
    assert(s[s.len() - 1] == b[b.len() - 1]);
    lemma_plain_trim(s);
    if starts_with_seq(s, "("@) {
        assert(s.subrange(0, 1)[0] == s[0]);
    }
    assert(!plain_char(' ') && !plain_char('-'));
    assert(!plain_char(sep[0]));
    if starts_with_seq(s, "NOT "@) && s.len() >= 4 {
        let pre = s.subrange(0, 4);
        if la >= 4 {
            assert(pre[3] == s[3]);
            assert(s[3] == a[3]);
        } else if la == 3 {
            assert(a =~= "NOT"@) by {
                assert forall|j: int| 0 <= j < 3 implies a[j] == "NOT"@[j] by {
                    assert(pre[j] == s[j]);
                    assert(s[j] == a[j]);
                }
            }
        } else {
            assert(pre[la] == s[la]);
            assert(s[la] == sep[0]);
        }
    }
    lemma_first_split_between(a, b, k);
    assert(s.subrange(0, la) =~= a);
    assert(s.subrange(la + ls, s.len() as int) =~= b);
    lemma_parse_plain_word(a, up);
    lemma_parse_plain_word(b, up);
}

/// Each ASCII connective symbol between two plain operands (runs of ASCII
/// letters and digits, the left one not the word `NOT`) parses to its own
/// connective over the two parsed operands: `->` to an implication; ` /\ `,
/// ` AND ` and ` & ` to a conjunction; ` \/ `, ` OR ` and ` | ` to a
/// disjunction.
pub proof fn law_connective_symbols_parse_to_their_connective(a: Seq<char>, b: Seq<char>)
    requires
        plain_word(a),
        plain_word(b),
        a != "NOT"@,
    ensures
        parse_spec(a) is Some,
        parse_spec(b) is Some,
        parse_spec(a + "->"@ + b) == Some(
            Formula::Implies(Box::new(parse_spec(a)->0), Box::new(parse_spec(b)->0)),
        ),
        parse_spec(a + " /\\ "@ + b) == Some(
            Formula::And(Box::new(parse_spec(a)->0), Box::new(parse_spec(b)->0)),
        ),
        parse_spec(a + " AND "@ + b) == Some(
            Formula::And(Box::new(parse_spec(a)->0), Box::new(parse_spec(b)->0)),
        ),
        parse_spec(a + " & "@ + b) == Some(
            Formula::And(Box::new(parse_spec(a)->0), Box::new(parse_spec(b)->0)),
        ),
        parse_spec(a + " \\/ "@ + b) == Some(
            Formula::Or(Box::new(parse_spec(a)->0), Box::new(parse_spec(b)->0)),
        ),
        parse_spec(a + " OR "@ + b) == Some(
            Formula::Or(Box::new(parse_spec(a)->0), Box::new(parse_spec(b)->0)),
        ),
        parse_spec(a + " | "@ + b) == Some(
            Formula::Or(Box::new(parse_spec(a)->0), Box::new(parse_spec(b)->0)),
        ),
{
    let up = |x: Seq<char>| unicode_uppercase(x);
    lemma_parse_plain_word(a, up);
    lemma_parse_plain_word(b, up);
    lemma_parse_between(a, b, 0, up);
    lemma_parse_between(a, b, 1, up);
    lemma_parse_between(a, b, 2, up);
    lemma_parse_between(a, b, 3, up);
    lemma_parse_between(a, b, 4, up);
    lemma_parse_between(a, b, 5, up);
    lemma_parse_between(a, b, 6, up);
}


proof fn lemma_trim_unchanged(s: Seq<char>)
    requires
        s.len() > 0,
        !is_ws(s[0]),
        !is_ws(s[s.len() - 1]),
    ensures
        trim_seq(s) == s,
{
    assert(first_non_ws_from(s, 0) == 0);
    assert(last_non_ws_before(s, 0, s.len() as int) == s.len());
    assert(s.subrange(0, s.len() as int) =~= s);
}

/// Negation and grouping around a plain operand (a run of ASCII letters and
/// digits): `NOT `, `!` and `~` before it negate it, and parentheses around
/// it change nothing. A plain operand is the constant `TRUE` when its
/// uppercase form is `TRUE`, `T` or `1`, the constant `FALSE` when it is
/// `FALSE`, `F` or `0`, and otherwise the atom with its text.
pub proof fn law_negation_grouping_and_constants(a: Seq<char>)
    requires
        plain_word(a),
    ensures
        parse_spec(a) is Some,
        parse_spec("NOT "@ + a) == Some(Formula::Not(Box::new(parse_spec(a)->0))),
        parse_spec("!"@ + a) == Some(Formula::Not(Box::new(parse_spec(a)->0))),
        parse_spec("~"@ + a) == Some(Formula::Not(Box::new(parse_spec(a)->0))),
        parse_spec("("@ + a + ")"@) == parse_spec(a),
        (unicode_uppercase(a) == "TRUE"@ || unicode_uppercase(a) == "T"@ || unicode_uppercase(a)
            == "1"@) ==> parse_spec(a) == Some(Formula::True),
        (unicode_uppercase(a) == "FALSE"@ || unicode_uppercase(a) == "F"@ || unicode_uppercase(a)
            == "0"@) ==> parse_spec(a) == Some(Formula::False),
        !(unicode_uppercase(a) == "TRUE"@ || unicode_uppercase(a) == "T"@ || unicode_uppercase(a)
            == "1"@ || unicode_uppercase(a) == "FALSE"@ || unicode_uppercase(a) == "F"@
            || unicode_uppercase(a) == "0"@) ==> parse_spec(a) == Some(Formula::Atom(a)),
{
    let up = |x: Seq<char>| unicode_uppercase(x);
    lemma_parse_plain_word(a, up);
    reveal_strlit("TRUE");
    reveal_strlit("T");
    reveal_strlit("1");
    reveal_strlit("FALSE");
    reveal_strlit("F");
    reveal_strlit("0");
    let u = unicode_uppercase(a);
    if u == "FALSE"@ || u == "F"@ || u == "0"@ {
        assert(u != "TRUE"@ && u != "T"@ && u != "1"@) by {
            if u == "FALSE"@ {
                assert(u.len() == 5);
            } else if u == "F"@ {
                assert(u[0] == 'F');
            } else {
                assert(u[0] == '0');
            }
        }
    }
    reveal_strlit("NOT ");
    reveal_strlit("(");
    reveal_strlit(")");
    reveal_strlit("!");
    reveal_strlit("~");
    let last = a[a.len() - 1];
    assert(!is_ws(last));
    let n = "NOT "@ + a;
    assert(n[n.len() - 1] == last);
    lemma_trim_unchanged(n);
    assert(n.subrange(0, 4) =~= "NOT "@);
    if starts_with_seq(n, "("@) {
        assert(n.subrange(0, 1)[0] == n[0]);
    }
    assert(n.subrange(4, n.len() as int) =~= a);
    let x = "!"@ + a;
    assert(x[x.len() - 1] == last);
    lemma_trim_unchanged(x);
    if starts_with_seq(x, "("@) {
        assert(x.subrange(0, 1)[0] == x[0]);
    }
    if starts_with_seq(x, "NOT "@) && x.len() >= 4 {
        assert(x.subrange(0, 4)[0] == x[0]);
    }
    assert(x.subrange(1, x.len() as int) =~= a);
    let y = "~"@ + a;
    assert(y[y.len() - 1] == last);
    lemma_trim_unchanged(y);
    if starts_with_seq(y, "("@) {
        assert(y.subrange(0, 1)[0] == y[0]);
    }
    if starts_with_seq(y, "NOT "@) && y.len() >= 4 {
        assert(y.subrange(0, 4)[0] == y[0]);
    }
    assert(y.subrange(1, y.len() as int) =~= a);
    let g = "("@ + a + ")"@;
    lemma_trim_unchanged(g);
    assert(g.subrange(0, 1) =~= "("@);
    assert(g.subrange(g.len() - 1, g.len() as int) =~= ")"@);
    assert(g.subrange(1, g.len() - 1) =~= a);
}

} // verus!
