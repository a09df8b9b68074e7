use aurenfox::glfwvulkan_agent::device_manager::AurenDeviceManager;

#[test]
fn an_empty_manager_has_no_device() {
    let manager = AurenDeviceManager::new_empty();
    assert!(!manager.has_device());
    assert!(!manager.check_for_device_loss());
}
