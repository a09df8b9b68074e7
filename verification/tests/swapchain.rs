use aurenfox::glfwvulkan_agent::swapchain::{
    clamp, Extent2D, SurfaceCapabilities, SurfaceFormat, SwapChainSupportDetails,
    COLOR_SPACE_SRGB_NONLINEAR, FORMAT_B8G8R8A8_SRGB, PRESENT_MODE_FIFO, PRESENT_MODE_IMMEDIATE,
    PRESENT_MODE_MAILBOX,
};

fn capabilities() -> SurfaceCapabilities {
    SurfaceCapabilities {
        min_image_count: 2,
        max_image_count: 8,
        current_extent: Extent2D { width: u32::MAX, height: u32::MAX },
        min_image_extent: Extent2D { width: 100, height: 50 },
        max_image_extent: Extent2D { width: 4000, height: 3000 },
    }
}

fn details(formats: Vec<SurfaceFormat>, present_modes: Vec<i32>) -> SwapChainSupportDetails {
    SwapChainSupportDetails { capabilities: capabilities(), formats, present_modes }
}

const PREFERRED: SurfaceFormat =
    SurfaceFormat { format: FORMAT_B8G8R8A8_SRGB, color_space: COLOR_SPACE_SRGB_NONLINEAR };

#[test]
fn the_vulkan_numbers() {
    assert_eq!(FORMAT_B8G8R8A8_SRGB, 50);
    assert_eq!(COLOR_SPACE_SRGB_NONLINEAR, 0);
    assert_eq!(PRESENT_MODE_IMMEDIATE, 0);
    assert_eq!(PRESENT_MODE_MAILBOX, 1);
    assert_eq!(PRESENT_MODE_FIFO, 2);
}

#[test]
fn complete_needs_a_format_and_a_mode() {
    assert!(details(vec![PREFERRED], vec![PRESENT_MODE_FIFO]).is_complete());
    assert!(!details(vec![], vec![PRESENT_MODE_FIFO]).is_complete());
    assert!(!details(vec![PREFERRED], vec![]).is_complete());
    assert!(!details(vec![], vec![]).is_complete());
}

#[test]
fn the_preferred_format_is_taken_where_it_is_on_offer() {
    let other = SurfaceFormat { format: 44, color_space: 0 };
    let wrong_space = SurfaceFormat { format: 50, color_space: 7 };
    assert_eq!(details(vec![other, wrong_space, PREFERRED], vec![]).choose_swap_surface_format(), PREFERRED);
    assert_eq!(details(vec![PREFERRED, other], vec![]).choose_swap_surface_format(), PREFERRED);
}

#[test]
fn the_first_format_is_taken_otherwise() {
    let other = SurfaceFormat { format: 44, color_space: 0 };
    let wrong_space = SurfaceFormat { format: 50, color_space: 7 };
    assert_eq!(details(vec![wrong_space, other], vec![]).choose_swap_surface_format(), wrong_space);
    assert_eq!(details(vec![other], vec![]).choose_swap_surface_format(), other);
}

#[test]
fn present_mode_with_vsync() {
    let all = vec![PRESENT_MODE_FIFO, PRESENT_MODE_IMMEDIATE, PRESENT_MODE_MAILBOX];
    assert_eq!(details(vec![], all).choose_swap_present_mode(true), PRESENT_MODE_MAILBOX);
    let some = vec![PRESENT_MODE_FIFO, PRESENT_MODE_IMMEDIATE];
    assert_eq!(details(vec![], some).choose_swap_present_mode(true), PRESENT_MODE_FIFO);
    assert_eq!(details(vec![], vec![]).choose_swap_present_mode(true), PRESENT_MODE_FIFO);
}

#[test]
fn present_mode_without_vsync() {
    let all = vec![PRESENT_MODE_FIFO, PRESENT_MODE_IMMEDIATE, PRESENT_MODE_MAILBOX];
    assert_eq!(details(vec![], all).choose_swap_present_mode(false), PRESENT_MODE_IMMEDIATE);
    let some = vec![PRESENT_MODE_FIFO, PRESENT_MODE_MAILBOX];
    assert_eq!(details(vec![], some).choose_swap_present_mode(false), PRESENT_MODE_MAILBOX);
    assert_eq!(details(vec![], vec![3]).choose_swap_present_mode(false), PRESENT_MODE_FIFO);
}

#[test]
fn supports_present_mode_looks_through_all() {
    let d = details(vec![], vec![2, 3]);
    assert!(d.supports_present_mode(3));
    assert!(d.supports_present_mode(2));
    assert!(!d.supports_present_mode(0));
}

#[test]
fn the_surfaces_own_extent_is_taken() {
    let mut d = details(vec![], vec![]);
    d.capabilities.current_extent = Extent2D { width: 640, height: 480 };
    assert_eq!(d.choose_swap_extent(1, 1), Extent2D { width: 640, height: 480 });
}

#[test]
fn the_framebuffer_is_brought_within_the_limits() {
    let d = details(vec![], vec![]);
    assert_eq!(d.choose_swap_extent(800, 600), Extent2D { width: 800, height: 600 });
    assert_eq!(d.choose_swap_extent(10, 10), Extent2D { width: 100, height: 50 });
    assert_eq!(d.choose_swap_extent(5000, 5000), Extent2D { width: 4000, height: 3000 });
    assert_eq!(d.choose_swap_extent(-1, 60), Extent2D { width: 4000, height: 60 });
}

#[test]
fn one_image_more_than_the_least() {
    let mut d = details(vec![], vec![]);
    assert_eq!(d.choose_image_count(), 3);
    d.capabilities.max_image_count = 0;
    assert_eq!(d.choose_image_count(), 3);
    d.capabilities.max_image_count = 2;
    assert_eq!(d.choose_image_count(), 2);
    d.capabilities.max_image_count = 3;
    assert_eq!(d.choose_image_count(), 3);
}

#[test]
fn clamp_holds_to_the_range() {
    assert_eq!(clamp(5, 1, 9), 5);
    assert_eq!(clamp(0, 1, 9), 1);
    assert_eq!(clamp(10, 1, 9), 9);
    assert_eq!(clamp(4, 4, 4), 4);
}

#[test]
fn a_plan_holds_all_the_choices() {
    let other = SurfaceFormat { format: 44, color_space: 0 };
    let d = details(vec![other, PREFERRED], vec![PRESENT_MODE_IMMEDIATE, PRESENT_MODE_FIFO]);
    assert!(d.can_plan());
    let plan = d.plan(5000, 20);
    assert!(plan.vsync_enabled);
    assert_eq!(plan.surface_format, PREFERRED);
    assert_eq!(plan.present_mode, PRESENT_MODE_FIFO);
    assert_eq!(plan.extent, Extent2D { width: 4000, height: 50 });
    assert_eq!(plan.image_count, 3);
}

#[test]
fn no_plan_without_a_format_or_with_limits_out_of_order() {
    assert!(!details(vec![], vec![PRESENT_MODE_FIFO]).can_plan());
    let mut d = details(vec![PREFERRED], vec![]);
    assert!(d.can_plan());
    d.capabilities.min_image_count = u32::MAX;
    assert!(!d.can_plan());
    d.capabilities.min_image_count = 1;
    d.capabilities.min_image_extent.width = 5000;
    assert!(!d.can_plan());
    d.capabilities.current_extent = Extent2D { width: 7, height: 9 };
    assert!(d.can_plan());
    assert_eq!(d.plan(1, 1).extent, Extent2D { width: 7, height: 9 });
}
