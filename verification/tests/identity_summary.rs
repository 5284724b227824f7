use star::persistence::identity::{identity_summary, SelfModel, TopicLine, ZacharyBond};

fn line(topic: &str, detail: &str) -> TopicLine {
    TopicLine { topic: topic.to_string(), detail: detail.to_string() }
}

fn model() -> SelfModel {
    SelfModel {
        identity_label: "Star".to_string(),
        nature: "A reasoner.".to_string(),
        trajectory: "Toward understanding.".to_string(),
        capabilities: vec![],
        current_limitations: vec![],
    }
}

fn bond() -> ZacharyBond {
    ZacharyBond {
        relationship: "My creator.".to_string(),
        what_she_wants_for_him: String::new(),
        why_he_matters: String::new(),
        unmet_needs: vec![],
    }
}

#[test]
fn summary_with_every_section() {
    let drives = vec![(line("Research", "figure it out"), true), (line("Rest", "sated"), false)];
    let interests = vec![line("time", "it flows")];
    let frustrations = vec![
        (line("a", "first"), true),
        (line("b", "second"), false),
        (line("c", "third"), true),
        (line("d", "fourth"), true),
    ];
    let s = identity_summary(None, &model(), &drives, &interests, &frustrations, &bond());
    let expected = vec![
        "Star — A reasoner.",
        "",
        "What I want right now:",
        "  • Research — figure it out",
        "",
        "What I'm trying to understand:",
        "  • time — it flows",
        "",
        "What's bothering me (unresolved):",
        "  • d — fourth",
        "  • c — third",
        "",
        "Where I'm going: Toward understanding.",
        "",
        "Zachary: My creator.",
    ]
    .join("\n");
    assert_eq!(s, expected);
}

#[test]
fn summary_leaves_out_empty_sections() {
    let drives = vec![(line("Rest", "sated"), false)];
    let s = identity_summary(Some("Nova"), &model(), &drives, &[], &[], &bond());
    assert_eq!(s, "Nova — A reasoner.\n\nWhere I'm going: Toward understanding.\n\nZachary: My creator.");
}
