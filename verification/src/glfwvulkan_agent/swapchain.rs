//! Which swapchain to ask for, given what a surface supports. Formats,
//! colour spaces and present modes are held by their Vulkan numbers.

use vstd::prelude::*;

verus! {

/// The pixel format B8G8R8A8_SRGB.
pub const FORMAT_B8G8R8A8_SRGB: i32 = 50;

/// The colour space SRGB_NONLINEAR.
pub const COLOR_SPACE_SRGB_NONLINEAR: i32 = 0;

/// The present mode IMMEDIATE: no waiting for the vertical blank.
pub const PRESENT_MODE_IMMEDIATE: i32 = 0;

/// The present mode MAILBOX: the newest image waits for the vertical blank.
pub const PRESENT_MODE_MAILBOX: i32 = 1;

/// The present mode FIFO, which every surface supports.
pub const PRESENT_MODE_FIFO: i32 = 2;

/// A pixel format together with a colour space.
#[derive(Clone, Copy, Debug, PartialEq, Eq, Structural)]
pub struct SurfaceFormat {
    pub format: i32,
    pub color_space: i32,
}

/// A width and a height, in pixels.
#[derive(Clone, Copy, Debug, PartialEq, Eq, Structural)]
pub struct Extent2D {
    pub width: u32,
    pub height: u32,
}

/// What a surface can do, as far as the choices below look at it.
#[derive(Clone, Copy, Debug, PartialEq, Eq, Structural)]
pub struct SurfaceCapabilities {
    pub min_image_count: u32,
    /// The most images a swapchain may have; 0 where there is no limit.
    pub max_image_count: u32,
    /// The surface's size; a width of `u32::MAX` where the swapchain decides.
    pub current_extent: Extent2D,
    pub min_image_extent: Extent2D,
    pub max_image_extent: Extent2D,
}

/// What a device supports on a surface.
pub struct SwapChainSupportDetails {
    pub capabilities: SurfaceCapabilities,
    pub formats: Vec<SurfaceFormat>,
    pub present_modes: Vec<i32>,
}

/// The surface format that is taken where it is on offer.
pub open spec fn preferred_format() -> SurfaceFormat {
    SurfaceFormat { format: FORMAT_B8G8R8A8_SRGB, color_space: COLOR_SPACE_SRGB_NONLINEAR }
}

/// The format to use: the preferred one if it is on offer, else the first.
pub open spec fn chosen_format(formats: Seq<SurfaceFormat>) -> SurfaceFormat
    recommends
        formats.len() > 0,
{
    if formats.contains(preferred_format()) {
        preferred_format()
    } else {
        formats[0]
    }
}

/// The present mode to use. Without vertical sync IMMEDIATE comes first;
/// then MAILBOX; FIFO is what is left.
pub open spec fn chosen_present_mode(vsync_enabled: bool, modes: Seq<i32>) -> i32 {
    if !vsync_enabled && modes.contains(PRESENT_MODE_IMMEDIATE) {
        PRESENT_MODE_IMMEDIATE
    } else if modes.contains(PRESENT_MODE_MAILBOX) {
        PRESENT_MODE_MAILBOX
    } else {
        PRESENT_MODE_FIFO
    }
}

/// `v`, brought into the range from `low` to `high`.
pub open spec fn clamped(v: u32, low: u32, high: u32) -> u32 {
    if v < low {
        low
    } else if v > high {
        high
    } else {
        v
    }
}

/// The swapchain's size: the surface's own where it has one, else the
/// framebuffer's, brought within what the surface allows.
pub open spec fn chosen_extent(capabilities: SurfaceCapabilities, width: i32, height: i32)
    -> Extent2D {
    if capabilities.current_extent.width != u32::MAX {
        capabilities.current_extent
    } else {
        Extent2D {
            width: clamped(
                width as u32,
                capabilities.min_image_extent.width,
                capabilities.max_image_extent.width,
            ),
            height: clamped(
                height as u32,
                capabilities.min_image_extent.height,
                capabilities.max_image_extent.height,
            ),
        }
    }
}

/// How many images to ask for: one more than the least, held to the most
/// where there is a most.
pub open spec fn chosen_image_count(capabilities: SurfaceCapabilities) -> int {
    if capabilities.max_image_count > 0 && capabilities.min_image_count + 1
        > capabilities.max_image_count {
        capabilities.max_image_count as int
    } else {
        capabilities.min_image_count + 1
    }
}

/// What to ask the driver for when a swapchain is created.
#[derive(Clone, Copy, Debug, PartialEq, Eq, Structural)]
pub struct SwapchainPlan {
    pub vsync_enabled: bool,
    pub surface_format: SurfaceFormat,
    pub present_mode: i32,
    pub extent: Extent2D,
    pub image_count: u32,
}

impl SwapChainSupportDetails {
    /// The surface is looked at as a whole: one can choose from it if there
    /// is a format to take, one more image than the least can be counted,
    /// and, where the swapchain decides on the size, the limits are in order.
    pub open spec fn plannable(&self) -> bool {
        &&& self.formats@.len() > 0
        &&& self.capabilities.min_image_count < u32::MAX
        &&& self.capabilities.current_extent.width == u32::MAX ==> {
            &&& self.capabilities.min_image_extent.width
                <= self.capabilities.max_image_extent.width
            &&& self.capabilities.min_image_extent.height
                <= self.capabilities.max_image_extent.height
        }
    }

    /// Whether `plan` can be asked.
    pub fn can_plan(&self) -> (ok: bool)
        ensures
            ok == self.plannable(),
    {
        let c = &self.capabilities;
        self.formats.len() > 0 && c.min_image_count < u32::MAX && (c.current_extent.width
            != u32::MAX || (c.min_image_extent.width <= c.max_image_extent.width
            && c.min_image_extent.height <= c.max_image_extent.height))
    }

    /// All the choices for a swapchain with vertical sync, for a framebuffer
    /// of `width` by `height`.
    pub fn plan(&self, width: i32, height: i32) -> (plan: SwapchainPlan)
        requires
            self.plannable(),
        ensures
            plan == (SwapchainPlan {
                vsync_enabled: true,
                surface_format: chosen_format(self.formats@),
                present_mode: chosen_present_mode(true, self.present_modes@),
                extent: chosen_extent(self.capabilities, width, height),
                image_count: chosen_image_count(self.capabilities) as u32,
            }),
    {
        let vsync_enabled = true;
        SwapchainPlan {
            vsync_enabled,
            surface_format: self.choose_swap_surface_format(),
            present_mode: self.choose_swap_present_mode(vsync_enabled),
            extent: self.choose_swap_extent(width, height),
            image_count: self.choose_image_count(),
        }
    }

    /// Whether a swapchain can be had at all: there is a format and a
    /// present mode to choose.
    pub fn is_complete(&self) -> (complete: bool)
        ensures
            complete == (self.formats@.len() > 0 && self.present_modes@.len() > 0),
    {
        !self.formats.is_empty() && !self.present_modes.is_empty()
    }

    /// Whether `mode` is among the present modes.
    pub fn supports_present_mode(&self, mode: i32) -> (found: bool)
        ensures
            found == self.present_modes@.contains(mode),
    {
        let mut i: usize = 0;
        while i < self.present_modes.len()
            invariant
                i <= self.present_modes.len(),
                forall|k: int| 0 <= k < i ==> self.present_modes@[k] != mode,
            decreases self.present_modes.len() - i,
        {
            if self.present_modes[i] == mode {
                return true;
            }
            i += 1;
        }
        false
    }

    /// The surface format to use.
    pub fn choose_swap_surface_format(&self) -> (format: SurfaceFormat)
        requires
            self.formats@.len() > 0,
        ensures
            format == chosen_format(self.formats@),
    {
        let mut i: usize = 0;
        while i < self.formats.len()
            invariant
                i <= self.formats.len(),
                forall|k: int| 0 <= k < i ==> self.formats@[k] != preferred_format(),
            decreases self.formats.len() - i,
        {
            let f = self.formats[i];
            if f.format == FORMAT_B8G8R8A8_SRGB && f.color_space == COLOR_SPACE_SRGB_NONLINEAR {
                assert(self.formats@[i as int] == preferred_format());
                return f;
            }
            i += 1;
        }
        self.formats[0]
    }

    /// The present mode to use.
    pub fn choose_swap_present_mode(&self, vsync_enabled: bool) -> (mode: i32)
        ensures
            mode == chosen_present_mode(vsync_enabled, self.present_modes@),
    {
        if !vsync_enabled {
            if self.supports_present_mode(PRESENT_MODE_IMMEDIATE) {
                return PRESENT_MODE_IMMEDIATE;
            }
        }
        if self.supports_present_mode(PRESENT_MODE_MAILBOX) {
            return PRESENT_MODE_MAILBOX;
        }
        PRESENT_MODE_FIFO
    }

    /// The swapchain's size for a framebuffer of `width` by `height`.
    pub fn choose_swap_extent(&self, width: i32, height: i32) -> (extent: Extent2D)
        requires
            self.capabilities.current_extent.width == u32::MAX ==> {
                &&& self.capabilities.min_image_extent.width
                    <= self.capabilities.max_image_extent.width
                &&& self.capabilities.min_image_extent.height
                    <= self.capabilities.max_image_extent.height
            },
        ensures
            extent == chosen_extent(self.capabilities, width, height),
    {
        if self.capabilities.current_extent.width != u32::MAX {
            return self.capabilities.current_extent;
        }
        Extent2D {
            width: clamp(
                width as u32,
                self.capabilities.min_image_extent.width,
                self.capabilities.max_image_extent.width,
            ),
            height: clamp(
                height as u32,
                self.capabilities.min_image_extent.height,
                self.capabilities.max_image_extent.height,
            ),
        }
    }

    /// How many images to ask for.
    pub fn choose_image_count(&self) -> (count: u32)
        requires
            self.capabilities.min_image_count < u32::MAX,
        ensures
            count == chosen_image_count(self.capabilities),
    {
        let mut image_count: u32 = self.capabilities.min_image_count + 1;
        if self.capabilities.max_image_count > 0 && image_count
            > self.capabilities.max_image_count {
            image_count = self.capabilities.max_image_count;
        }
        image_count
    }
}

/// `v`, brought into the range from `low` to `high`.
pub fn clamp(v: u32, low: u32, high: u32) -> (r: u32)
    requires
        low <= high,
    ensures
        r == clamped(v, low, high),
        low <= r <= high,
{
    if v < low {
        low
    } else if v > high {
        high
    } else {
        v
    }
}

} // verus!
