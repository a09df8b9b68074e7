use aurenfox::glfwvulkan_agent::toolkit::Headless;
use aurenfox::glfwvulkan_agent::window::WindowEvent;
use aurenfox::{Error, GLFWVulkanAgent, RHI};

fn agent(room: usize) -> GLFWVulkanAgent<Headless> {
    GLFWVulkanAgent::new(Headless::new(room))
}

fn presented(agent: &GLFWVulkanAgent<Headless>, index: usize) -> u64 {
    agent.window_handler().windows()[index].window.presented
}

#[test]
fn a_new_agent_has_nothing() {
    let a = agent(4);
    assert_eq!(a.get_window_count(), 0);
    assert_eq!(a.primary_window(), None);
    assert!(!a.should_close());
    assert_eq!(a.get_window_title(0), None);
}

#[test]
fn the_agent_creates_and_destroys() {
    let mut a = agent(4);
    assert_eq!(a.create_window("one", 800, 600, Some(0)), Ok(0));
    assert_eq!(a.create_window("two", 1024, 768, Some(1)), Ok(1));
    assert_eq!(a.create_window("three", 1, 1, None), Ok(2));
    assert_eq!(a.create_window("again", 1, 1, Some(1)), Err(Error::DuplicateIdentity));
    assert_eq!(a.get_window_count(), 3);
    assert_eq!(a.get_window_title(1), Some("two"));
    a.destroy_window(1);
    a.destroy_window(1);
    a.destroy_window(40);
    assert_eq!(a.get_window_count(), 2);
    assert_eq!(a.get_window_title(1), Some("three"));
    assert_eq!(a.create_window("four", 1, 1, None), Ok(1));
    assert_eq!(a.create_window("five", 1, 1, None), Err(Error::BackendCreationFailed));
    assert_eq!(a.get_window_count(), 3);
    assert!(!a.should_close());
}

#[test]
fn a_frame_start_without_windows_raises_the_flag() {
    let mut a = agent(4);
    a.start_frame();
    assert!(a.should_close());
}

#[test]
fn the_flag_stays_up() {
    let mut a = agent(4);
    a.start_frame();
    assert!(a.should_close());
    assert_eq!(a.create_window("late", 1, 1, None), Ok(0));
    a.start_frame();
    assert!(a.should_close());
    a.end_frame();
    assert_eq!(presented(&a, 0), 0);
}

#[test]
fn a_frame_start_with_windows_and_no_primary_goes_on() {
    let mut a = agent(4);
    a.create_window("one", 1, 1, None).unwrap();
    a.start_frame();
    assert!(!a.should_close());
    a.end_frame();
    assert_eq!(presented(&a, 0), 1);
}

#[test]
fn a_missing_primary_window_raises_the_flag() {
    let mut a = agent(4);
    a.create_window("one", 1, 1, None).unwrap();
    a.create_window("two", 1, 1, None).unwrap();
    a.assign_master(0);
    assert_eq!(a.primary_window(), Some(0));
    a.start_frame();
    assert!(!a.should_close());
    a.destroy_window(1);
    a.start_frame();
    assert!(!a.should_close());
    a.destroy_window(0);
    a.create_window("three", 1, 1, Some(5)).unwrap();
    assert!(!a.should_close(), "the flag goes up at a frame start only");
    a.start_frame();
    assert!(a.should_close());
    assert_eq!(a.get_window_count(), 1);
}

#[test]
fn a_primary_window_that_never_was_raises_the_flag() {
    let mut a = agent(4);
    a.create_window("one", 1, 1, None).unwrap();
    a.assign_master(9);
    a.start_frame();
    assert!(a.should_close());
}

#[test]
fn a_closed_window_is_reaped_at_the_next_frame_start() {
    let mut a = agent(4);
    a.create_window("one", 1, 1, None).unwrap();
    a.create_window("two", 1, 1, None).unwrap();
    assert!(a.dispatch(1, WindowEvent::Close));
    assert_eq!(a.get_window_count(), 2);
    a.start_frame();
    assert_eq!(a.get_window_count(), 1);
    assert_eq!(a.get_window_title(0), Some("one"));
    assert!(!a.should_close());
}

#[test]
fn closing_the_primary_window_ends_the_application() {
    let mut a = agent(4);
    a.create_window("one", 1, 1, None).unwrap();
    a.create_window("two", 1, 1, None).unwrap();
    a.assign_master(0);
    a.dispatch(0, WindowEvent::Close);
    a.start_frame();
    assert!(a.should_close());
    assert_eq!(a.get_window_count(), 1);
}

#[test]
fn closing_the_last_window_ends_the_application() {
    let mut a = agent(4);
    a.create_window("one", 1, 1, None).unwrap();
    a.dispatch(0, WindowEvent::Close);
    a.cleanup_closed_windows();
    assert_eq!(a.get_window_count(), 0);
    assert!(!a.should_close());
    a.start_frame();
    assert!(a.should_close());
}

#[test]
fn end_frame_presents_every_window_once() {
    let mut a = agent(4);
    a.create_window("one", 1, 1, None).unwrap();
    a.create_window("two", 1, 1, None).unwrap();
    a.start_frame();
    a.end_frame();
    a.end_frame();
    a.swap_buffers();
    assert_eq!(presented(&a, 0), 3);
    assert_eq!(presented(&a, 1), 3);
    a.make_current(0);
    assert!(a.window_handler().windows()[0].window.current);
    assert!(!a.window_handler().windows()[1].window.current);
}

#[test]
fn assign_master_takes_the_last_word() {
    let mut a = agent(4);
    a.create_window("one", 1, 1, None).unwrap();
    a.assign_master(3);
    a.assign_master(0);
    assert_eq!(a.primary_window(), Some(0));
    a.start_frame();
    assert!(!a.should_close());
}
