use kgui::config::create_config;
use kgui::error::LaunchError;
use kgui::instance::{InstanceHandle, InstanceState, RunningInfo};

#[test]
fn new_handle_is_created_and_live() {
    let handle = InstanceHandle::new(create_config());
    assert_eq!(handle.state(), InstanceState::Created);
    assert!(handle.is_live());
    assert_eq!(handle.config(), &create_config());
}

#[test]
fn handle_has_no_info_before_the_start() {
    assert_eq!(InstanceHandle::new(create_config()).running_info(), None);
}

#[test]
fn started_handle_runs() {
    let mut handle = InstanceHandle::new(create_config());
    assert_eq!(handle.start(), Ok(()));
    assert_eq!(handle.state(), InstanceState::Running);
    assert!(handle.is_live());
    assert_eq!(
        handle.running_info(),
        Some(RunningInfo { instance_name: String::from("default"), running: true, error_msg: None })
    );
}

#[test]
fn handle_starts_once_only() {
    let mut handle = InstanceHandle::new(create_config());
    assert_eq!(handle.start(), Ok(()));
    assert_eq!(handle.start(), Err(LaunchError::StartError));
    assert_eq!(handle.state(), InstanceState::Running);
}

#[test]
fn terminated_handle_cannot_start_again() {
    let mut handle = InstanceHandle::new(create_config());
    handle.start().unwrap();
    handle.terminate(None);
    assert_eq!(handle.start(), Err(LaunchError::StartError));
    assert_eq!(handle.state(), InstanceState::Stopped);
}

#[test]
fn clean_termination_stops_the_instance() {
    let mut handle = InstanceHandle::new(create_config());
    handle.start().unwrap();
    handle.terminate(None);
    assert_eq!(handle.state(), InstanceState::Stopped);
    assert!(!handle.is_live());
    assert_eq!(
        handle.running_info(),
        Some(RunningInfo { instance_name: String::from("default"), running: false, error_msg: None })
    );
}

#[test]
fn termination_with_an_error_is_recorded() {
    let mut handle = InstanceHandle::new(create_config());
    handle.start().unwrap();
    handle.terminate(Some(String::from("tun device lost")));
    assert_eq!(handle.state(), InstanceState::Errored(String::from("tun device lost")));
    assert!(!handle.is_live());
    assert_eq!(
        handle.running_info(),
        Some(RunningInfo {
            instance_name: String::from("default"),
            running: false,
            error_msg: Some(String::from("tun device lost")),
        })
    );
}

#[test]
fn only_a_running_instance_terminates() {
    let mut handle = InstanceHandle::new(create_config());
    handle.terminate(Some(String::from("early")));
    assert_eq!(handle.state(), InstanceState::Created);

    handle.start().unwrap();
    handle.terminate(None);
    handle.terminate(Some(String::from("late")));
    assert_eq!(handle.state(), InstanceState::Stopped);
}

#[test]
fn handle_clone_is_equal() {
    let mut handle = InstanceHandle::new(create_config());
    handle.start().unwrap();
    handle.terminate(Some(String::from("x")));
    assert_eq!(handle.clone(), handle);
}

#[test]
fn info_carries_the_configured_instance_name() {
    let mut config = create_config();
    config.instance_name = String::from("office");
    let mut handle = InstanceHandle::new(config);
    handle.start().unwrap();
    assert_eq!(handle.running_info().unwrap().instance_name, "office");
}
