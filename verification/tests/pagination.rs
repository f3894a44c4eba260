use a2a_kit::pagination::{resolve_page_size, DEFAULT_PAGE_SIZE, MAX_PAGE_SIZE};

#[test]
fn test_absent_and_non_positive_use_the_default() {
    assert_eq!(resolve_page_size(None), DEFAULT_PAGE_SIZE);
    assert_eq!(resolve_page_size(Some(0)), DEFAULT_PAGE_SIZE);
    assert_eq!(resolve_page_size(Some(-1)), DEFAULT_PAGE_SIZE);
    assert_eq!(resolve_page_size(Some(i32::MIN)), DEFAULT_PAGE_SIZE);
}

#[test]
fn test_requested_size_is_honoured_up_to_the_maximum() {
    assert_eq!(resolve_page_size(Some(1)), 1);
    assert_eq!(resolve_page_size(Some(MAX_PAGE_SIZE as i32)), MAX_PAGE_SIZE);
}

#[test]
fn test_oversized_requests_are_clamped_not_rejected() {
    assert_eq!(
        resolve_page_size(Some(MAX_PAGE_SIZE as i32 + 1)),
        MAX_PAGE_SIZE
    );
    assert_eq!(resolve_page_size(Some(1000)), MAX_PAGE_SIZE);
    assert_eq!(resolve_page_size(Some(i32::MAX)), MAX_PAGE_SIZE);
}

#[test]
fn the_limits_are_what_clients_rely_on() {
    assert_eq!(DEFAULT_PAGE_SIZE, 50);
    assert_eq!(MAX_PAGE_SIZE, 100);
}
