//! The GPU that is drawn with: the device that was picked, and its logical
//! device.

use vstd::prelude::*;

verus! {

/// `ash::vk::PhysicalDevice`, the handle of a GPU. Nothing is known of a
/// handle but that it can be passed on.
#[verifier::external_type_specification]
#[verifier::external_body]
pub struct ExPhysicalDevice(ash::vk::PhysicalDevice);

/// `ash::Device`, a logical device with its function table. Nothing is known
/// of it but that it can be passed on.
#[verifier::external_type_specification]
#[verifier::external_body]
pub struct ExDevice(ash::Device);

/// The device that the backend draws with, once one was picked.
pub struct AurenDeviceManager {
    physical_device: Option<ash::vk::PhysicalDevice>,
    logical_device: Option<ash::Device>,
}

impl AurenDeviceManager {
    /// The GPU that was picked, if any.
    pub closed spec fn physical(&self) -> Option<ash::vk::PhysicalDevice> {
        self.physical_device
    }

    /// The logical device that was made, if any.
    pub closed spec fn logical(&self) -> Option<ash::Device> {
        self.logical_device
    }

    /// A manager without a device.
    pub fn new_empty() -> (manager: Self)
        ensures
            manager.physical() is None,
            manager.logical() is None,
    {
        Self { physical_device: None, logical_device: None }
    }

    /// A manager of the GPU `physical_device` and the logical device that
    /// was made on it.
    pub fn with_device(physical_device: ash::vk::PhysicalDevice, logical_device: ash::Device) -> (manager:
        Self)
        ensures
            manager.physical() == Some(physical_device),
            manager.logical() == Some(logical_device),
    {
        Self { physical_device: Some(physical_device), logical_device: Some(logical_device) }
    }

    /// Whether a device was picked.
    pub fn has_device(&self) -> (has: bool)
        ensures
            has == (self.physical() is Some && self.logical() is Some),
    {
        self.physical_device.is_some() && self.logical_device.is_some()
    }

    /// Whether the device was lost. Loss is not tracked: the answer is no.
    pub fn check_for_device_loss(&self) -> (lost: bool)
        ensures
            !lost,
    {
        false
    }

    /// The GPU that was picked.
    pub fn get_physical_device(&self) -> (device: ash::vk::PhysicalDevice)
        requires
            self.physical() is Some,
        ensures
            self.physical() == Some(device),
    {
        self.physical_device.unwrap()
    }

    /// The logical device.
    pub fn get_logical_device(&self) -> (device: &ash::Device)
        requires
            self.logical() is Some,
        ensures
            self.logical() == Some(*device),
    {
        self.logical_device.as_ref().unwrap()
    }
}

} // verus!
