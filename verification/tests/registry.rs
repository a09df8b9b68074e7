use aurenfox::glfwvulkan_agent::toolkit::Headless;
use aurenfox::glfwvulkan_agent::window::WindowEvent;
use aurenfox::glfwvulkan_agent::window_manager::AurenWindowManager;
use aurenfox::Error;

fn registry(room: usize) -> AurenWindowManager<Headless> {
    AurenWindowManager::new(Headless::new(room))
}

fn ids(registry: &AurenWindowManager<Headless>) -> Vec<usize> {
    registry.windows().iter().map(|w| w.id).collect()
}

#[test]
fn new_registry_is_empty() {
    let r = registry(4);
    assert_eq!(r.count(), 0);
    assert!(!r.check_for_id(0));
    assert_eq!(r.smallest_free_id(), 0);
    assert!(r.get_window_by_id(0).is_none());
    assert_eq!(r.title_at(0), None);
}

#[test]
fn ids_fill_the_first_gap() {
    let mut r = registry(8);
    assert_eq!(r.create_window("a", 10, 10, None), Ok(0));
    assert_eq!(r.create_window("b", 10, 10, None), Ok(1));
    assert_eq!(r.create_window("c", 10, 10, None), Ok(2));
    r.destroy_window(1);
    assert!(r.check_for_id(0));
    assert!(!r.check_for_id(1));
    assert!(r.check_for_id(2));
    assert_eq!(r.create_window("d", 10, 10, None), Ok(1));
    assert_eq!(r.count(), 4 - 1);
    assert_eq!(ids(&r), vec![0, 2, 1]);
    assert_eq!(r.create_window("e", 10, 10, None), Ok(3));
}

#[test]
fn first_gap_skips_requested_ids() {
    let mut r = registry(8);
    assert_eq!(r.create_window("a", 1, 1, Some(2)), Ok(2));
    assert_eq!(r.create_window("b", 1, 1, Some(0)), Ok(0));
    assert_eq!(r.create_window("c", 1, 1, Some(5)), Ok(5));
    assert_eq!(r.smallest_free_id(), 1);
    assert_eq!(r.create_window("d", 1, 1, None), Ok(1));
    assert_eq!(r.create_window("e", 1, 1, None), Ok(3));
    assert_eq!(r.create_window("f", 1, 1, None), Ok(4));
    assert_eq!(r.create_window("g", 1, 1, None), Ok(6));
    assert_eq!(ids(&r), vec![2, 0, 5, 1, 3, 4, 6]);
}

#[test]
fn churn_keeps_ids_small() {
    let mut r = registry(100);
    for round in 0..20 {
        assert_eq!(r.create_window("w", 1, 1, None), Ok(0), "round {}", round);
        assert_eq!(r.create_window("w", 1, 1, None), Ok(1));
        r.destroy_window(0);
        r.destroy_window(1);
    }
    assert_eq!(r.count(), 0);
}

#[test]
fn requested_id_is_given() {
    let mut r = registry(8);
    assert_eq!(r.create_window("a", 640, 480, Some(7)), Ok(7));
    let w = r.get_window_by_id(7).expect("window 7 is live");
    assert_eq!(w.id, 7);
    assert_eq!(w.title, "a");
    assert_eq!(w.width, 640);
    assert_eq!(w.height, 480);
    assert!(!w.closing);
    assert_eq!(r.title_at(0), Some("a"));
    assert_eq!(r.title_at(1), None);
}

#[test]
fn duplicate_identity_is_refused() {
    let mut r = registry(8);
    assert_eq!(r.create_window("a", 10, 10, Some(5)), Ok(5));
    assert_eq!(r.create_window("b", 10, 10, Some(5)), Err(Error::DuplicateIdentity));
    assert_eq!(r.count(), 1);
    assert!(r.check_for_id(5));
    assert_eq!(r.get_window_by_id(5).map(|w| w.title.clone()), Some("a".to_string()));
    assert_eq!(r.toolkit().room, 7, "the toolkit is not asked for a window that is refused");
}

#[test]
fn duplicate_identity_wins_over_a_toolkit_that_is_full() {
    let mut r = registry(1);
    assert_eq!(r.create_window("a", 10, 10, Some(3)), Ok(3));
    assert_eq!(r.create_window("b", 10, 10, Some(3)), Err(Error::DuplicateIdentity));
    assert_eq!(r.create_window("b", 10, 10, Some(4)), Err(Error::BackendCreationFailed));
}

#[test]
fn backend_failure_leaves_the_registry_alone() {
    let mut r = registry(1);
    assert_eq!(r.create_window("a", 10, 10, None), Ok(0));
    assert_eq!(r.create_window("b", 10, 10, None), Err(Error::BackendCreationFailed));
    assert_eq!(r.create_window("c", 10, 10, Some(9)), Err(Error::BackendCreationFailed));
    assert_eq!(r.count(), 1);
    assert_eq!(ids(&r), vec![0]);
    assert!(!r.check_for_id(1));
    assert!(!r.check_for_id(9));
}

#[test]
fn adopt_takes_the_toolkits_answer() {
    let mut r = registry(0);
    let native = aurenfox::glfwvulkan_agent::toolkit::HeadlessWindow { presented: 0, current: false };
    assert_eq!(r.adopt(Some(native), "a", 3, 4, None), Ok(0));
    assert_eq!(r.adopt(None, "b", 3, 4, None), Err(Error::BackendCreationFailed));
    let native = aurenfox::glfwvulkan_agent::toolkit::HeadlessWindow { presented: 0, current: false };
    assert_eq!(r.adopt(Some(native), "c", 3, 4, Some(0)), Err(Error::DuplicateIdentity));
    assert_eq!(r.adopt(None, "d", 3, 4, Some(0)), Err(Error::DuplicateIdentity));
    assert_eq!(r.count(), 1);
}

#[test]
fn resolve_id_follows_the_rule() {
    let mut r = registry(8);
    assert_eq!(r.resolve_id(None), Ok(0));
    assert_eq!(r.resolve_id(Some(12)), Ok(12));
    r.create_window("a", 1, 1, Some(0)).unwrap();
    r.create_window("b", 1, 1, Some(12)).unwrap();
    assert_eq!(r.resolve_id(None), Ok(1));
    assert_eq!(r.resolve_id(Some(12)), Err(Error::DuplicateIdentity));
    assert_eq!(r.resolve_id(Some(11)), Ok(11));
}

#[test]
fn destroy_of_an_unknown_id_does_nothing() {
    let mut r = registry(8);
    r.create_window("a", 1, 1, None).unwrap();
    r.create_window("b", 1, 1, None).unwrap();
    r.destroy_window(17);
    assert_eq!(r.count(), 2);
    assert_eq!(ids(&r), vec![0, 1]);
    r.destroy_window(0);
    r.destroy_window(0);
    assert_eq!(r.count(), 1);
    assert_eq!(ids(&r), vec![1]);
}

#[test]
fn destroy_keeps_the_order_of_the_others() {
    let mut r = registry(8);
    for _ in 0..5 {
        r.create_window("w", 1, 1, None).unwrap();
    }
    r.destroy_window(2);
    assert_eq!(ids(&r), vec![0, 1, 3, 4]);
    r.destroy_window(0);
    assert_eq!(ids(&r), vec![1, 3, 4]);
    r.destroy_window(4);
    assert_eq!(ids(&r), vec![1, 3]);
}

#[test]
fn resize_is_stored() {
    let mut r = registry(8);
    r.create_window("a", 800, 600, None).unwrap();
    r.create_window("b", 800, 600, None).unwrap();
    assert!(r.dispatch(1, WindowEvent::FramebufferSize(1024, 768)));
    let w = r.get_window_by_id(1).unwrap();
    assert_eq!((w.width, w.height), (1024, 768));
    let w = r.get_window_by_id(0).unwrap();
    assert_eq!((w.width, w.height), (800, 600));
    assert!(!r.dispatch(5, WindowEvent::FramebufferSize(1, 1)));
}

#[test]
fn a_negative_size_wraps_into_the_unsigned_range() {
    let mut r = registry(8);
    r.create_window("a", 800, 600, None).unwrap();
    r.dispatch(0, WindowEvent::FramebufferSize(-1, -2147483648));
    let w = r.get_window_by_id(0).unwrap();
    assert_eq!((w.width, w.height), (4294967295, 2147483648));
}

#[test]
fn other_events_change_nothing() {
    let mut r = registry(8);
    r.create_window("a", 800, 600, None).unwrap();
    assert!(r.dispatch(0, WindowEvent::Other));
    let w = r.get_window_by_id(0).unwrap();
    assert_eq!((w.width, w.height, w.closing), (800, 600, false));
}

#[test]
fn a_close_request_marks_and_the_reaping_removes() {
    let mut r = registry(8);
    r.create_window("a", 1, 1, None).unwrap();
    r.create_window("b", 1, 1, None).unwrap();
    r.create_window("c", 1, 1, None).unwrap();
    assert!(r.dispatch(1, WindowEvent::Close));
    assert_eq!(r.count(), 3);
    assert!(r.check_for_id(1));
    assert!(r.get_window_by_id(1).unwrap().should_close());
    r.reap_closed();
    assert_eq!(ids(&r), vec![0, 2]);
    r.reap_closed();
    assert_eq!(ids(&r), vec![0, 2]);
}

#[test]
fn a_closing_window_holds_its_id_until_it_is_reaped() {
    let mut r = registry(8);
    r.create_window("a", 1, 1, None).unwrap();
    r.create_window("b", 1, 1, None).unwrap();
    r.dispatch(0, WindowEvent::Close);
    assert_eq!(r.create_window("c", 1, 1, None), Ok(2));
    assert_eq!(r.create_window("d", 1, 1, Some(0)), Err(Error::DuplicateIdentity));
    r.reap_closed();
    assert_eq!(r.create_window("e", 1, 1, None), Ok(0));
}

#[test]
fn a_size_after_a_close_request_keeps_the_mark() {
    let mut r = registry(8);
    r.create_window("a", 1, 1, None).unwrap();
    r.dispatch(0, WindowEvent::Close);
    r.dispatch(0, WindowEvent::FramebufferSize(5, 6));
    let w = r.get_window_by_id(0).unwrap();
    assert_eq!((w.width, w.height, w.closing), (5, 6, true));
}

#[test]
fn update_without_events_changes_nothing() {
    let mut r = registry(8);
    r.create_window("a", 3, 4, None).unwrap();
    r.create_window("b", 5, 6, None).unwrap();
    r.update();
    assert_eq!(ids(&r), vec![0, 1]);
    let w = r.get_window_by_id(1).unwrap();
    assert_eq!((w.width, w.height, w.closing), (5, 6, false));
}

#[test]
fn presenting_reaches_every_window() {
    let mut r = registry(8);
    r.create_window("a", 3, 4, None).unwrap();
    r.create_window("b", 5, 6, None).unwrap();
    r.swap_buffers();
    r.swap_buffers();
    assert_eq!(r.windows()[0].window.presented, 2);
    assert_eq!(r.windows()[1].window.presented, 2);
    r.make_current(1);
    r.make_current(7);
    assert!(!r.windows()[0].window.current);
    assert!(r.windows()[1].window.current);
}
