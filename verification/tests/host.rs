use plugin_host::host::{classify, Host, InvocationError, LoadError, Probe};

#[test]
fn classify_knows_each_outcome() {
    assert_eq!(classify(Probe::Resolved), Ok(()));
    assert_eq!(classify(Probe::Unresolved), Err(LoadError::IncompatibleAbi));
    assert_eq!(
        classify(Probe::Unopened { file_readable: false }),
        Err(LoadError::NotFound)
    );
    assert_eq!(
        classify(Probe::Unopened { file_readable: true }),
        Err(LoadError::OsLoaderFailure)
    );
}

#[test]
fn conforming_plugin_gives_a_handler() {
    let mut host = Host::new();
    let library = host.load(Probe::Resolved).unwrap();
    assert!(host.is_mapped(&library));
    assert!(host.awaits_entry(&library));
    let handler = host.obtain_handler(&library, true).unwrap();
    assert!(host.is_live(&handler));
    assert!(host.is_mapped(&library));
    assert!(!host.awaits_entry(&library));
}

#[test]
fn missing_file_is_not_found() {
    let mut host = Host::new();
    let result = host.load(Probe::Unopened { file_readable: false });
    assert_eq!(result, Err(LoadError::NotFound));
    assert_eq!(host.loaded(), 0);
    let next = host.load(Probe::Resolved).unwrap();
    let mut fresh = Host::new();
    assert_eq!(next, fresh.load(Probe::Resolved).unwrap());
}

#[test]
fn missing_export_is_incompatible() {
    let mut host = Host::new();
    let result = host.load(Probe::Unresolved);
    assert_eq!(result, Err(LoadError::IncompatibleAbi));
    assert_eq!(host.loaded(), 0);
    let next = host.load(Probe::Resolved).unwrap();
    let mut fresh = Host::new();
    assert_eq!(next, fresh.load(Probe::Resolved).unwrap());
}

#[test]
fn refused_file_is_a_loader_failure() {
    let mut host = Host::new();
    let result = host.load(Probe::Unopened { file_readable: true });
    assert_eq!(result, Err(LoadError::OsLoaderFailure));
    assert_eq!(host.loaded(), 0);
}

#[test]
fn null_handle_is_a_construction_failure() {
    let mut host = Host::new();
    let library = host.load(Probe::Resolved).unwrap();
    assert!(host.awaits_entry(&library));
    let result = host.obtain_handler(&library, false);
    assert_eq!(result, Err(InvocationError::PluginConstructionFailed));
    assert!(!host.awaits_entry(&library));
    assert!(host.is_mapped(&library));
}

#[test]
fn entry_is_awaited_once() {
    let mut host = Host::new();
    let library = host.load(Probe::Resolved).unwrap();
    assert!(host.awaits_entry(&library));
    let handler = host.obtain_handler(&library, true).unwrap();
    assert!(!host.awaits_entry(&library));
    assert!(host.release_handler(handler));
    assert!(!host.awaits_entry(&library));
    let _ = host.load(Probe::Resolved).unwrap();
    assert!(!host.awaits_entry(&library));
}

#[test]
fn released_handler_is_gone_and_library_stays() {
    let mut host = Host::new();
    let library = host.load(Probe::Resolved).unwrap();
    assert!(host.awaits_entry(&library));
    let handler = host.obtain_handler(&library, true).unwrap();
    assert!(host.release_handler(handler));
    assert!(host.is_mapped(&library));
    assert!(host.unload(library));
}

#[test]
fn unload_ends_the_handler_too() {
    let mut host = Host::new();
    let library = host.load(Probe::Resolved).unwrap();
    assert!(host.awaits_entry(&library));
    let handler = host.obtain_handler(&library, true).unwrap();
    assert!(host.is_live(&handler));
    assert!(host.unload(library));
    assert!(!host.is_live(&handler));
    assert!(!host.release_handler(handler));
}

#[test]
fn unload_before_entry_forbids_the_call() {
    let mut host = Host::new();
    let first = host.load(Probe::Resolved).unwrap();
    let second = host.load(Probe::Resolved).unwrap();
    assert!(host.unload(first));
    assert!(host.awaits_entry(&second));
    assert!(host.is_mapped(&second));
}

#[test]
fn libraries_do_not_touch_each_other() {
    let mut host = Host::new();
    let first = host.load(Probe::Resolved).unwrap();
    let second = host.load(Probe::Resolved).unwrap();
    assert_ne!(first, second);
    assert!(host.awaits_entry(&first));
    let handler = host.obtain_handler(&first, true).unwrap();
    assert!(host.awaits_entry(&second));
    assert!(host.unload(second));
    assert!(host.is_live(&handler));
    assert!(host.is_mapped(&first));
}

#[test]
fn failed_load_between_two_good_ones_takes_no_slot() {
    let mut host = Host::new();
    let first = host.load(Probe::Resolved).unwrap();
    assert!(host.load(Probe::Unresolved).is_err());
    assert!(host.load(Probe::Unopened { file_readable: false }).is_err());
    let second = host.load(Probe::Resolved).unwrap();
    let mut other = Host::new();
    let _ = other.load(Probe::Resolved).unwrap();
    let expected = other.load(Probe::Resolved).unwrap();
    assert_eq!(second, expected);
    assert!(host.is_mapped(&first));
}

#[test]
fn loaded_counts_what_is_mapped() {
    let mut host = Host::new();
    assert_eq!(host.loaded(), 0);
    let first = host.load(Probe::Resolved).unwrap();
    assert_eq!(host.loaded(), 1);
    let second = host.load(Probe::Resolved).unwrap();
    let third = host.load(Probe::Resolved).unwrap();
    assert_eq!(host.loaded(), 3);
    assert!(host.awaits_entry(&second));
    let handler = host.obtain_handler(&second, true).unwrap();
    assert_eq!(host.loaded(), 3);
    assert!(host.release_handler(handler));
    assert_eq!(host.loaded(), 3);
    assert!(host.unload(second));
    assert_eq!(host.loaded(), 2);
    assert!(host.unload(first));
    assert!(host.unload(third));
    assert_eq!(host.loaded(), 0);
}
