use consensus::entries_page::{default_limit, page_limit, MAX_LIMIT};

#[test]
fn limits_default_and_clamp() {
    assert_eq!(default_limit(), 100);
    assert_eq!(page_limit(5), 5);
    assert_eq!(page_limit(1000), 1000);
    assert_eq!(page_limit(5000), MAX_LIMIT);
}
