use self_recorder_decoder::input::{verify_input, InputError};
use self_recorder_decoder::settings::{MemInfo, Monitoring};

#[test]
fn all_probes_good_is_ok() {
    assert_eq!(verify_input(true, true, true, true, true), Ok(()));
}

#[test]
fn missing_source_directory_reported_first() {
    assert_eq!(
        verify_input(false, false, false, false, false),
        Err(InputError::SourceNotADirectory)
    );
}

#[test]
fn missing_data_file() {
    assert_eq!(
        verify_input(true, false, false, false, false),
        Err(InputError::DataFileNotFound)
    );
}

#[test]
fn missing_config_file() {
    assert_eq!(
        verify_input(true, true, false, false, false),
        Err(InputError::ConfigFileNotFound)
    );
}

#[test]
fn missing_storage_file() {
    assert_eq!(
        verify_input(true, true, true, false, false),
        Err(InputError::StorageFileNotFound)
    );
}

#[test]
fn missing_destination_directory_reported_last() {
    assert_eq!(
        verify_input(true, true, true, true, false),
        Err(InputError::DestinationNotFound)
    );
}

#[test]
fn monitoring_is_set() {
    let clear = Monitoring {
        Ovarpress: false,
        Ovarheat: false,
        CPUOvarheat: false,
        OverPower: false,
    };
    assert!(!clear.is_set());
    let one = Monitoring { OverPower: true, ..clear };
    assert!(one.is_set());
    let other = Monitoring { Ovarheat: true, ..clear };
    assert!(other.is_set());
}

#[test]
fn mem_info_fields() {
    let info = MemInfo { FlashPageSize: 2048, FlashPages: 1024, FlashUsedPages: 17 };
    assert_eq!(info.FlashPageSize, 2048);
    assert_eq!(info.FlashPages, 1024);
    assert_eq!(info.FlashUsedPages, 17);
}
