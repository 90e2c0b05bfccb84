use governance_bot::message::{format_proposal_message, try_format_proposal_message};
use governance_bot::types::Proposal;

fn proposal(title: Option<&str>, summary: &str, url: &str) -> Proposal {
    Proposal { url: url.to_string(), title: title.map(|t| t.to_string()), summary: summary.to_string() }
}

#[test]
fn no_proposal_gives_an_empty_message() {
    assert_eq!(format_proposal_message(7, None), "");
    assert_eq!(try_format_proposal_message(7, None), Some(String::new()));
}

#[test]
fn full_message_has_a_paragraph_for_each_part() {
    let text = format_proposal_message(52538, Some(proposal(Some("Upgrade"), "Details", "https://x.org")));
    assert_eq!(
        text,
        "https://dashboard.internetcomputer.org/proposal/52538\n\nUpgrade\n\nDetails\n\nhttps://x.org"
    );
}

#[test]
fn empty_summary_and_url_are_left_out() {
    let text = format_proposal_message(0, Some(proposal(Some("T"), "", "")));
    assert_eq!(text, "https://dashboard.internetcomputer.org/proposal/0\n\nT");
    let text = format_proposal_message(10, Some(proposal(None, "", "u")));
    assert_eq!(text, "https://dashboard.internetcomputer.org/proposal/10\n\nu");
}

#[test]
fn empty_title_still_gets_a_paragraph() {
    let text = format_proposal_message(3, Some(proposal(Some(""), "s", "")));
    assert_eq!(text, "https://dashboard.internetcomputer.org/proposal/3\n\n\n\ns");
}

#[test]
fn largest_id_is_written_in_decimal() {
    let text = format_proposal_message(u128::MAX, Some(proposal(None, "", "")));
    assert_eq!(
        text,
        "https://dashboard.internetcomputer.org/proposal/340282366920938463463374607431768211455"
    );
}

#[test]
fn long_message_is_cut_at_1000_bytes() {
    let summary = "a".repeat(2000);
    let full = format!("https://dashboard.internetcomputer.org/proposal/1\n\n{}", summary);
    let text = format_proposal_message(1, Some(proposal(None, &summary, "")));
    assert_eq!(text, format!("{}...", &full[..1000]));
    assert_eq!(text.len(), 1003);
}

#[test]
fn message_of_exactly_1000_bytes_is_kept() {
    let prefix = "https://dashboard.internetcomputer.org/proposal/1\n\n";
    let summary = "b".repeat(1000 - prefix.len());
    let text = format_proposal_message(1, Some(proposal(None, &summary, "")));
    assert_eq!(text.len(), 1000);
    assert!(!text.ends_with("..."));
    let summary = "b".repeat(1001 - prefix.len());
    let text = format_proposal_message(1, Some(proposal(None, &summary, "")));
    assert_eq!(text.len(), 1003);
    assert!(text.ends_with("b..."));
}

#[test]
fn cut_inside_a_character_has_no_message() {
    let prefix = "https://dashboard.internetcomputer.org/proposal/1\n\n";
    let summary = format!("{}é", "c".repeat(999 - prefix.len()));
    assert_eq!(try_format_proposal_message(1, Some(proposal(None, &summary, ""))), None);
}

#[test]
fn cut_before_a_multibyte_character_works() {
    let prefix = "https://dashboard.internetcomputer.org/proposal/1\n\n";
    let summary = format!("{}é", "c".repeat(1000 - prefix.len()));
    let text = try_format_proposal_message(1, Some(proposal(None, &summary, ""))).unwrap();
    assert!(text.ends_with("c..."));
    assert_eq!(text.len(), 1003);
    assert_eq!(format_proposal_message(1, Some(proposal(None, &summary, ""))), text);
}

#[test]
fn law_message_never_exceeds_1003_bytes() {
    for n in [0usize, 500, 948, 949, 950, 1500, 5000] {
        let summary = "é".repeat(n);
        if let Some(text) = try_format_proposal_message(42, Some(proposal(Some("t"), &summary, "u"))) {
            assert!(text.len() <= 1003);
        }
    }
}
