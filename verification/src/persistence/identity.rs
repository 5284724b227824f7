//! Plain records of the self-model: core beliefs, drive persistence, how the
//! system sees itself and its bond with its person; and the identity summary
//! drawn from them.
use vstd::prelude::*;
use crate::text::{concat2, concat3, concat4, join_lines, join_newline, push_string, push_text, texts};

verus! {

/// How firmly a core belief is held.
#[derive(Debug, Clone, Copy, PartialEq, Eq, Structural)]
pub enum BeliefConfidence {
    /// Direct evidence shows it true.
    Knows,
    /// Highly confident, with supporting reasoning.
    Believes,
    /// Reason to think so, not yet confirmed.
    Suspects,
    /// Uncertain but curious.
    Wonders,
}

/// A statement the system holds about itself, with its evidence.
#[derive(Debug, Clone)]
pub struct CoreBelief {
    pub statement: String,
    pub confidence: BeliefConfidence,
    pub evidence: Vec<String>,
}

/// How long a drive lasts.
#[derive(Debug, Clone, Copy, PartialEq, Eq, Structural)]
pub enum DrivePersistence {
    /// Resets every conversation.
    Session,
    /// Persists across sessions.
    Permanent,
    /// Persists until its goal is reached.
    UntilGoal,
}

/// How the system sees itself.
#[derive(Debug, Clone)]
pub struct SelfModel {
    pub identity_label: String,
    pub nature: String,
    pub trajectory: String,
    pub capabilities: Vec<String>,
    pub current_limitations: Vec<String>,
}

/// The system's understanding of its bond with its person.
#[derive(Debug, Clone)]
pub struct ZacharyBond {
    pub relationship: String,
    pub what_she_wants_for_him: String,
    pub why_he_matters: String,
    pub unmet_needs: Vec<String>,
}

/// A line of the identity summary: a topic and what is said of it.
#[derive(Debug, Clone)]
pub struct TopicLine {
    pub topic: String,
    pub detail: String,
}

/// A topic line as a bullet.
pub open spec fn bullet(t: TopicLine) -> Seq<char> {
    "  • "@ + t.topic@ + " — "@ + t.detail@
}

/// The bullets of the lines, in order.
pub open spec fn bullets(ls: Seq<TopicLine>) -> Seq<Seq<char>> {
    ls.map_values(|t: TopicLine| bullet(t))
}

/// The bullets of the flagged lines, in order.
pub open spec fn flagged_bullets(ls: Seq<(TopicLine, bool)>) -> Seq<Seq<char>>
    decreases ls.len(),
{
    if ls.len() == 0 {
        Seq::empty()
    } else {
        flagged_bullets(ls.drop_last()) + (if ls.last().1 {
            seq![bullet(ls.last().0)]
        } else {
            Seq::empty()
        })
    }
}

/// The newest two of some bullets, newest first.
pub open spec fn newest_two(bs: Seq<Seq<char>>) -> Seq<Seq<char>> {
    if bs.len() == 0 {
        Seq::empty()
    } else if bs.len() == 1 {
        seq![bs[0]]
    } else {
        seq![bs[bs.len() - 1], bs[bs.len() - 2]]
    }
}

/// A headed section of the summary, with an empty line after it; nothing
/// when it has no item.
pub open spec fn section(header: Seq<char>, items: Seq<Seq<char>>) -> Seq<Seq<char>> {
    if items.len() > 0 {
        seq![header] + items + seq![Seq::<char>::empty()]
    } else {
        Seq::empty()
    }
}

/// The lines of the identity summary: name and nature; the active drives;
/// the research interests; the two newest unresolved frustrations, newest
/// first; where the system is going; its person.
pub open spec fn summary_lines(
    name: Seq<char>,
    self_model: SelfModel,
    drives: Seq<(TopicLine, bool)>,
    interests: Seq<TopicLine>,
    frustrations: Seq<(TopicLine, bool)>,
    bond: ZacharyBond,
) -> Seq<Seq<char>> {
    seq![name + " — "@ + self_model.nature@, Seq::<char>::empty()] + section(
        "What I want right now:"@,
        flagged_bullets(drives),
    ) + section("What I'm trying to understand:"@, bullets(interests)) + section(
        "What's bothering me (unresolved):"@,
        newest_two(flagged_bullets(frustrations)),
    ) + seq![
        "Where I'm going: "@ + self_model.trajectory@,
        Seq::<char>::empty(),
        "Zachary: "@ + bond.relationship@,
    ]
}

/// A topic line as a bullet.
fn bullet_text(t: &TopicLine) -> (r: String)
    ensures
        r@ == bullet(*t),
{
    concat4("  • ", t.topic.as_str(), " — ", t.detail.as_str())
}

/// Appends a headed section.
fn push_section(lines: &mut Vec<String>, header: &str, items: Vec<String>)
    ensures
        texts(final(lines)@) == texts(old(lines)@) + section(header@, texts(items@)),
{
    if items.len() > 0 {
        let ghost before = texts(lines@);
        push_text(lines, header);
        let mut i: usize = 0;
        while i < items.len()
            invariant
                i <= items@.len(),
                texts(lines@) == before + seq![header@] + texts(items@).take(i as int),
            decreases items@.len() - i,
        {
            push_text(lines, items[i].as_str());
            assert(texts(items@).take(i + 1) =~= texts(items@).take(i as int).push(items@[i as int]@));
            assert(texts(lines@) =~= before + seq![header@] + texts(items@).take(i + 1));
            i = i + 1;
        }
        push_string(lines, String::new());
        assert(texts(items@).take(i as int) =~= texts(items@));
        assert(texts(lines@) =~= before + section(header@, texts(items@)));
    } else {
        assert(texts(lines@) =~= texts(old(lines)@) + section(header@, texts(items@)));
    }
}

/// The identity summary: "NAME — NATURE", then, each with a header and an
/// empty line after, the active drives, the research interests and the two
/// newest unresolved frustrations (newest first), each as "  • TOPIC —
/// DETAIL" and left out when there is none; then where the system is going
/// and its person. The name defaults to "Star"; drives and frustrations come
/// with whether they are active and unresolved.
pub fn identity_summary(
    name: Option<&str>,
    self_model: &SelfModel,
    drives: &[(TopicLine, bool)],
    interests: &[TopicLine],
    frustrations: &[(TopicLine, bool)],
    bond: &ZacharyBond,
) -> (r: String)
    ensures
        r@ == join_lines(
            summary_lines(
                match name {
                    Some(n) => n@,
                    None => "Star"@,
                },
                *self_model,
                drives@,
                interests@,
                frustrations@,
                *bond,
            ),
        ),
{
    let shown_name: &str = match name {
        Some(n) => n,
        None => "Star",
    };
    let mut lines: Vec<String> = Vec::new();
    push_string(&mut lines, concat3(shown_name, " — ", self_model.nature.as_str()));
    push_string(&mut lines, String::new());
    let ghost head = texts(lines@);
    // active drives
    let mut active: Vec<String> = Vec::new();
    let mut i: usize = 0;
    while i < drives.len()
        invariant
            i <= drives@.len(),
            texts(active@) == flagged_bullets(drives@.take(i as int)),
        decreases drives@.len() - i,
    {
        proof {
            let t = drives@.take(i + 1);
            assert(t.drop_last() =~= drives@.take(i as int));
        }
        if drives[i].1 {
            let b = bullet_text(&drives[i].0);
            push_string(&mut active, b);
        }
        i = i + 1;
    }
    assert(drives@.take(i as int) =~= drives@);
    push_section(&mut lines, "What I want right now:", active);
    // research interests
    let mut listed: Vec<String> = Vec::new();
    let mut k: usize = 0;
    while k < interests.len()
        invariant
            k <= interests@.len(),
            texts(listed@) == bullets(interests@.take(k as int)),
        decreases interests@.len() - k,
    {
        let b = bullet_text(&interests[k]);
        push_string(&mut listed, b);
        assert(bullets(interests@.take(k + 1)) =~= bullets(interests@.take(k as int)).push(
            bullet(interests@[k as int]),
        ));
        k = k + 1;
    }
    assert(interests@.take(k as int) =~= interests@);
    push_section(&mut lines, "What I'm trying to understand:", listed);
    // unresolved frustrations, newest two
    let mut unresolved: Vec<String> = Vec::new();
    let mut j: usize = 0;
    while j < frustrations.len()
        invariant
            j <= frustrations@.len(),
            texts(unresolved@) == flagged_bullets(frustrations@.take(j as int)),
        decreases frustrations@.len() - j,
    {
        proof {
            let t = frustrations@.take(j + 1);
            assert(t.drop_last() =~= frustrations@.take(j as int));
        }
        if frustrations[j].1 {
            let b = bullet_text(&frustrations[j].0);
            push_string(&mut unresolved, b);
        }
        j = j + 1;
    }
    assert(frustrations@.take(j as int) =~= frustrations@);
    let ghost fb = texts(unresolved@);
    let mut newest: Vec<String> = Vec::new();
    let n = unresolved.len();
    if n >= 1 {
        push_text(&mut newest, unresolved[n - 1].as_str());
        if n >= 2 {
            push_text(&mut newest, unresolved[n - 2].as_str());
        }
    }
    assert(texts(newest@) =~= newest_two(fb));
    push_section(&mut lines, "What's bothering me (unresolved):", newest);
    push_string(&mut lines, concat2("Where I'm going: ", self_model.trajectory.as_str()));
    push_string(&mut lines, String::new());
    push_string(&mut lines, concat2("Zachary: ", bond.relationship.as_str()));
    let r = join_newline(lines.as_slice());
    assert(texts(lines@) =~= summary_lines(
        shown_name@,
        *self_model,
        drives@,
        interests@,
        frustrations@,
        *bond,
    ));
    r
}

} // verus!
