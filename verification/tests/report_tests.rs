use self_recorder_decoder::page::Page;
use self_recorder_decoder::report::{
    artifact_rel_path, chain_folder, column_header, corrupted_file_name, corrupted_marker,
    page_artifact, page_file_name, page_identity_line, report_prelude, ArtifactPlan, PageClass,
};
use self_recorder_decoder::settings::PressureMeassureUnits;

fn page(consistent: bool, this_block_id: u32, prev_block_id: u32) -> Page {
    Page {
        this_block_id,
        prev_block_id,
        timestamp: 1000,
        base_interval_ms: 50,
        interleave_p: 1,
        interleave_t: 1,
        data_crc32: 0xDEAD_BEEF,
        consistent,
        fp_len: 2,
        ft_len: 2,
    }
}

#[test]
fn classify_consistent_page_reportable() {
    assert_eq!(page(true, 3, 2).classify(), PageClass::Reportable);
    // a consistent page is reportable whatever its ids
    assert_eq!(page(true, 0, 0).classify(), PageClass::Reportable);
}

#[test]
fn classify_inconsistent_real_ids_corrupted() {
    assert_eq!(page(false, 3, 2).classify(), PageClass::Corrupted);
    assert_eq!(page(false, 0, 0).classify(), PageClass::Corrupted);
}

#[test]
fn classify_sentinel_ids_no_data() {
    assert_eq!(page(false, u32::MAX, u32::MAX).classify(), PageClass::NoData);
    assert_eq!(page(false, u32::MAX, 7).classify(), PageClass::NoData);
    assert_eq!(page(false, 7, u32::MAX).classify(), PageClass::NoData);
}

/// An inconsistent page with sentinel ids produces no artifact at all; one
/// with real ids produces exactly one placeholder carrying the fixed marker.
#[test]
fn sentinel_page_yields_no_artifact() {
    assert!(page_artifact(&page(false, u32::MAX, u32::MAX), 4).is_none());
}

#[test]
fn corrupted_page_yields_marker_artifact() {
    let artifact = page_artifact(&page(false, 9, 8), 4).unwrap();
    match artifact {
        ArtifactPlan::Corrupted { file_name, payload } => {
            assert_eq!(file_name, "4-corrupted-0xDEADBEEF.csv");
            assert_eq!(payload, "data corrupted");
        }
        ArtifactPlan::Report { .. } => panic!("expected a corruption placeholder"),
    }
}

#[test]
fn reportable_page_yields_full_schedule() {
    let artifact = page_artifact(&page(true, 9, 8), 0).unwrap();
    match artifact {
        ArtifactPlan::Report { file_name, samples } => {
            assert_eq!(file_name, "000009+start.csv");
            assert_eq!(samples.len(), 2);
            assert_eq!(samples[0].tick, 0);
            assert_eq!(samples[1].tick, 1);
            assert_eq!(samples[1].wall_time_ms, 1050);
        }
        ArtifactPlan::Corrupted { .. } => panic!("expected a report"),
    }
}

/// Running the decoding twice on the same input produces identical output.
#[test]
fn decoding_twice_is_identical() {
    let p = page(true, 9, 8);
    let first = page_artifact(&p, 0).unwrap();
    let second = page_artifact(&p, 0).unwrap();
    match (first, second) {
        (
            ArtifactPlan::Report { file_name: n1, samples: s1 },
            ArtifactPlan::Report { file_name: n2, samples: s2 },
        ) => {
            assert_eq!(n1, n2);
            assert_eq!(s1, s2);
        }
        _ => panic!("expected two reports"),
    }
}

#[test]
fn chain_folder_names() {
    assert_eq!(chain_folder(1), "chain-1");
    assert_eq!(chain_folder(42), "chain-42");
    assert_eq!(chain_folder(0), "chain-0");
}

#[test]
fn page_file_names_zero_padded_and_sorted() {
    assert_eq!(page_file_name(7, true), "000007+start.csv");
    assert_eq!(page_file_name(7, false), "000007.csv");
    assert_eq!(page_file_name(0, false), "000000.csv");
    assert_eq!(page_file_name(123456, false), "123456.csv");
    // wider ids keep all their digits
    assert_eq!(page_file_name(1234567, false), "1234567.csv");
    assert_eq!(page_file_name(u32::MAX, false), "4294967295.csv");
    // the start mark sorts ahead of any digit
    assert!("000007+start.csv" < "000007.csv");
}

#[test]
fn corrupted_file_names_hex_crc() {
    assert_eq!(corrupted_file_name(5, 0x00AB_CDEF), "5-corrupted-0x00ABCDEF.csv");
    assert_eq!(corrupted_file_name(0, 0), "0-corrupted-0x00000000.csv");
    assert_eq!(corrupted_file_name(12, u32::MAX), "12-corrupted-0xFFFFFFFF.csv");
}

#[test]
fn artifact_paths_grouped_by_chain() {
    assert_eq!(artifact_rel_path(2, "000009+start.csv"), "chain-2/000009+start.csv");
    assert_eq!(artifact_rel_path(10, "4-corrupted-0xDEADBEEF.csv"), "chain-10/4-corrupted-0xDEADBEEF.csv");
}

#[test]
fn corrupted_marker_payload() {
    assert_eq!(corrupted_marker(), "data corrupted");
}

#[test]
fn identity_lines() {
    assert_eq!(page_identity_line(0, 0), "Стартовая страница;0\n");
    assert_eq!(page_identity_line(12, 11), "Страница 12;предыдущая 11\n");
    // a zero id alone does not make a start page
    assert_eq!(page_identity_line(0, 3), "Страница 0;предыдущая 3\n");
}

#[test]
fn prelude_lines() {
    let p = page(true, 12, 11);
    let text = report_prelude(&p, "0:00:01");
    assert_eq!(
        text,
        "Страница 12;предыдущая 11\nВремя начала страницы;0:00:01\nБазовый интервал;50;мс.\n"
    );
}

#[test]
fn column_header_rows() {
    assert_eq!(
        column_header(PressureMeassureUnits::Bar, false),
        "Время;Давление, Bar;Температура, *С;\n"
    );
    assert_eq!(
        column_header(PressureMeassureUnits::Pa, true),
        "Время;Давление, Pa;Температура, *С;Частота давления, Гц;Частота температуры, Гц\n"
    );
}

#[test]
fn unit_labels() {
    assert_eq!(PressureMeassureUnits::Pa.label(), "Pa");
    assert_eq!(PressureMeassureUnits::Bar.label(), "Bar");
    assert_eq!(PressureMeassureUnits::At.label(), "At");
    assert_eq!(PressureMeassureUnits::mmH20.label(), "mmH20");
    assert_eq!(PressureMeassureUnits::mHg.label(), "mHg");
    assert_eq!(PressureMeassureUnits::Atm.label(), "Atm");
    assert_eq!(PressureMeassureUnits::PSI.label(), "PSI");
}
