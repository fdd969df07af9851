use plugin_host::contract::ENTRY_SYMBOL;
use plugin_host::host::{InvocationError, LoadError};
use plugin_host::report::{exit_status, message, Ending};

#[test]
fn entry_symbol_is_get_plugin() {
    assert_eq!(ENTRY_SYMBOL, "get_plugin");
}

#[test]
fn clean_end_is_status_zero() {
    assert_eq!(exit_status(Ending::Clean), 0);
}

#[test]
fn each_failure_has_its_status() {
    assert_eq!(exit_status(Ending::NotLoaded(LoadError::NotFound)), 2);
    assert_eq!(exit_status(Ending::NotLoaded(LoadError::IncompatibleAbi)), 3);
    assert_eq!(exit_status(Ending::NotLoaded(LoadError::OsLoaderFailure)), 4);
    assert_eq!(
        exit_status(Ending::NoHandler(InvocationError::PluginConstructionFailed)),
        5
    );
}

#[test]
fn clean_end_has_no_message() {
    assert_eq!(message(Ending::Clean, "plugins/libplugin1.so"), "");
}

#[test]
fn messages_name_path_and_symbol() {
    let path = "plugins/libplugin1.so";
    assert_eq!(
        message(Ending::NotLoaded(LoadError::NotFound), path),
        "plugin plugins/libplugin1.so: no readable file at that path"
    );
    assert_eq!(
        message(Ending::NotLoaded(LoadError::IncompatibleAbi), path),
        "plugin plugins/libplugin1.so: the library does not export get_plugin"
    );
    assert_eq!(
        message(Ending::NotLoaded(LoadError::OsLoaderFailure), path),
        "plugin plugins/libplugin1.so: the system loader refused the file"
    );
    assert_eq!(
        message(Ending::NoHandler(InvocationError::PluginConstructionFailed), path),
        "plugin plugins/libplugin1.so: get_plugin returned no handler"
    );
}

#[test]
fn message_takes_any_path() {
    assert_eq!(
        message(Ending::NotLoaded(LoadError::NotFound), ""),
        "plugin : no readable file at that path"
    );
    assert_eq!(
        message(Ending::NotLoaded(LoadError::NotFound), "d\u{e9}p\u{f4}t/lib a.so"),
        "plugin d\u{e9}p\u{f4}t/lib a.so: no readable file at that path"
    );
}
