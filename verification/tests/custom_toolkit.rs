use aurenfox::glfwvulkan_agent::window::WindowEvent;
use aurenfox::glfwvulkan_agent::window_manager::AurenWindowManager;
use aurenfox::glfwvulkan_agent::Toolkit;
use aurenfox::interfaces::BackendModel;
use aurenfox::{AurenFoxFramework, Error, GLFWVulkanAgent, RHI};

/// A toolkit that reports, poll by poll, what it was told to report.
struct Scripted {
    /// For each poll to come, the events by the serial number of the window.
    script: Vec<Vec<(usize, WindowEvent)>>,
    polls: usize,
    next_serial: usize,
    refuse: bool,
}

struct ScriptedWindow {
    serial: usize,
    inbox: Vec<WindowEvent>,
}

impl Scripted {
    fn new(script: Vec<Vec<(usize, WindowEvent)>>) -> Self {
        Scripted { script, polls: 0, next_serial: 0, refuse: false }
    }
}

impl Toolkit for Scripted {
    type Window = ScriptedWindow;

    fn create_window(&mut self, _title: &str, _width: u32, _height: u32) -> Option<ScriptedWindow> {
        if self.refuse {
            return None;
        }
        let serial = self.next_serial;
        self.next_serial += 1;
        Some(ScriptedWindow { serial, inbox: Vec::new() })
    }

    fn poll_events(&mut self) {
        self.polls += 1;
    }

    fn flush_messages(&mut self, window: &mut ScriptedWindow) -> Vec<WindowEvent> {
        let mut events: Vec<WindowEvent> = window.inbox.drain(..).collect();
        if let Some(batch) = self.script.get(self.polls - 1) {
            for (serial, event) in batch {
                if *serial == window.serial {
                    events.push(*event);
                }
            }
        }
        events
    }

    fn swap_buffers(&mut self, _window: &mut ScriptedWindow) {
    }

    fn make_current(&mut self, _window: &mut ScriptedWindow) {
    }
}

#[test]
fn update_hands_each_window_its_events() {
    let script = vec![
        vec![(1, WindowEvent::FramebufferSize(30, 40)), (0, WindowEvent::Other)],
        vec![(0, WindowEvent::Close), (1, WindowEvent::FramebufferSize(50, 60))],
    ];
    let mut r = AurenWindowManager::new(Scripted::new(script));
    r.create_window("a", 1, 2, None).unwrap();
    r.create_window("b", 3, 4, None).unwrap();
    r.update();
    let a = r.get_window_by_id(0).unwrap();
    assert_eq!((a.width, a.height, a.closing), (1, 2, false));
    let b = r.get_window_by_id(1).unwrap();
    assert_eq!((b.width, b.height, b.closing), (30, 40, false));
    r.update();
    let a = r.get_window_by_id(0).unwrap();
    assert_eq!((a.width, a.height, a.closing), (1, 2, true));
    let b = r.get_window_by_id(1).unwrap();
    assert_eq!((b.width, b.height, b.closing), (50, 60, false));
    assert_eq!(r.count(), 2);
    r.update();
    assert_eq!(r.toolkit().polls, 3);
    assert_eq!(r.count(), 2);
}

#[test]
fn a_toolkit_that_refuses_gives_backend_creation_failed() {
    let mut r = AurenWindowManager::new(Scripted::new(vec![]));
    assert_eq!(r.create_window("a", 1, 2, None), Ok(0));
    let mut toolkit = Scripted::new(vec![]);
    toolkit.refuse = true;
    let mut r = AurenWindowManager::new(toolkit);
    assert_eq!(r.create_window("a", 1, 2, None), Err(Error::BackendCreationFailed));
    assert_eq!(r.create_window("a", 1, 2, Some(3)), Err(Error::BackendCreationFailed));
    assert_eq!(r.count(), 0);
}

#[test]
fn a_window_closed_by_the_user_is_reaped_one_tick_later() {
    // The first poll reports that window 1 was closed, the third that window 0 was.
    let script = vec![vec![(1, WindowEvent::Close)], vec![], vec![(0, WindowEvent::Close)]];
    let mut app = AurenFoxFramework::new(GLFWVulkanAgent::new(Scripted::new(script)));
    app.create_window("main", 1, 1, None).unwrap();
    app.create_window("side", 1, 1, None).unwrap();
    app.assign_master(0);
    let mut counts = Vec::new();
    let report = app.run(Some(|app: &mut AurenFoxFramework<GLFWVulkanAgent<Scripted>>| {
        counts.push(app.backend.get_window_count());
    }));
    assert_eq!(counts, vec![2, 1, 1]);
    assert_eq!((report.frames, report.active), (4, 3));
    assert_eq!(app.backend.get_window_count(), 0);
    assert_eq!(app.backend.window_handler().toolkit().polls, 3, "no poll on the tick that was halted");
}

/// A backend of one's own: it counts what it is asked.
struct Counting {
    live: Vec<usize>,
    primary: Option<usize>,
    flag: bool,
    frames_started: usize,
    frames_ended: usize,
}

impl RHI for Counting {
    fn view(&self) -> BackendModel {
        unreachable!("the model is for contracts, not for running code")
    }

    fn create_window(&mut self, _title: &str, _width: u32, _height: u32, id: Option<usize>) -> Result<usize, Error> {
        let id = match id {
            Some(id) if self.live.contains(&id) => return Err(Error::DuplicateIdentity),
            Some(id) => id,
            None => (0..).find(|n| !self.live.contains(n)).unwrap(),
        };
        self.live.push(id);
        Ok(id)
    }

    fn destroy_window(&mut self, id: usize) {
        self.live.retain(|&w| w != id);
    }

    fn start_frame(&mut self) {
        self.frames_started += 1;
        let primary_lost = self.primary.map_or(false, |p| !self.live.contains(&p));
        if self.live.is_empty() || primary_lost {
            self.flag = true;
        }
    }

    fn end_frame(&mut self) {
        self.frames_ended += 1;
    }

    fn should_close(&self) -> bool {
        self.flag
    }

    fn assign_master(&mut self, id: usize) {
        self.primary = Some(id);
    }
}

#[test]
fn the_driver_runs_any_backend() {
    let backend = Counting { live: vec![], primary: None, flag: false, frames_started: 0, frames_ended: 0 };
    let mut app = AurenFoxFramework::new(backend);
    assert_eq!(app.create_window("a", 1, 1, None), Ok(0));
    assert_eq!(app.create_window("b", 1, 1, None), Ok(1));
    app.assign_master(1);
    let mut calls = 0;
    let report = app.run(Some(|app: &mut AurenFoxFramework<Counting>| {
        calls += 1;
        if calls == 5 {
            app.queue_destroy(1);
        }
    }));
    assert_eq!(calls, 5);
    assert_eq!((report.frames, report.active), (6, 5));
    assert_eq!(app.backend.frames_started, 6);
    assert_eq!(app.backend.frames_ended, 5, "no frame end on the tick that was halted");
    assert_eq!(app.backend.live, vec![0]);
}
