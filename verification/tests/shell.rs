use window_shell::dispatch::Command;
use window_shell::dispatch::Dispatcher;
use window_shell::dispatch::Reply;
use window_shell::dispatch::EXIT_SUCCESS;
use window_shell::window::get_open_windows;

#[test]
fn open_windows_list_is_empty() {
    let windows = get_open_windows();
    assert!(windows.is_empty());
}

#[test]
fn open_windows_list_is_empty_on_every_invocation() {
    for _ in 0..5 {
        assert_eq!(get_open_windows().len(), 0);
    }
}

#[test]
fn new_dispatcher_accepts_commands() {
    let dispatcher = Dispatcher::new();
    assert!(dispatcher.accepting);
}

#[test]
fn get_open_windows_command_answers_empty_list() {
    let mut dispatcher = Dispatcher::new();
    let reply = dispatcher.dispatch(Command::GetOpenWindows);
    match reply {
        Some(Reply::Windows(windows)) => assert!(windows.is_empty()),
        _ => panic!("expected a window list"),
    }
    assert!(dispatcher.accepting);
}

#[test]
fn exit_app_command_asks_for_successful_exit() {
    let mut dispatcher = Dispatcher::new();
    let reply = dispatcher.dispatch(Command::ExitApp);
    match reply {
        Some(Reply::Exit(code)) => assert_eq!(code, EXIT_SUCCESS),
        _ => panic!("expected an exit request"),
    }
}

#[test]
fn no_command_is_processed_after_exit_app() {
    let mut dispatcher = Dispatcher::new();
    let reply = dispatcher.dispatch(Command::ExitApp);
    assert!(matches!(reply, Some(Reply::Exit(0))));
    assert!(!dispatcher.accepting);
    assert!(dispatcher.dispatch(Command::GetOpenWindows).is_none());
    assert!(dispatcher.dispatch(Command::ExitApp).is_none());
    assert!(!dispatcher.accepting);
}
