use consensus::order::sort;
use consensus::preview::ImpactNewClaim;
use consensus::types::{ClaimKind, DraftId};

fn claim(id: u64, body: &str) -> ImpactNewClaim {
    ImpactNewClaim {
        draft_id: DraftId(id),
        body: body.into(),
        author: "alice".into(),
        kind: ClaimKind::Fact,
        status: None,
    }
}

#[test]
fn sorting_keeps_tied_elements_in_their_order() {
    let sorted = sort(vec![claim(2, "b1"), claim(1, "a"), claim(2, "b2"), claim(0, "z"), claim(2, "b3")]);
    let bodies: Vec<&str> = sorted.iter().map(|c| c.body.as_str()).collect();
    assert_eq!(bodies, vec!["z", "a", "b1", "b2", "b3"]);
}

#[test]
fn sorting_strings_orders_by_code_point() {
    let sorted = consensus::order::sort_strings(vec!["b".into(), "B".into(), "a".into(), "ab".into()]);
    assert_eq!(sorted, vec!["B".to_string(), "a".into(), "ab".into(), "b".into()]);
}
