use gripdl::errors::DownloadError;
use gripdl::machine::DownloadCommand;
use gripdl::manager::{get_download_info, persist_observed_command, start_download};
use gripdl::record::{extract_filename, new_record, DownloadInfo};
use gripdl::registry::Registry;
use gripdl::status::{decode_status, DownloadStatus};
use gripdl::store::{record_of_row, row_of_record, DownloadPersistence};

fn record_named(url: &str) -> DownloadInfo {
    new_record(String::from(url), String::from("/downloads"), None, None, None, 42)
}

#[test]
fn minted_ids_are_36_characters() {
    let rec = record_named("http://host/a.bin");
    assert_eq!(rec.id.chars().count(), 36);
    let other = record_named("http://host/a.bin");
    assert_ne!(rec.id, other.id);
}

#[test]
fn file_name_comes_from_the_url() {
    let rec = record_named("http://host/path/file.zip?sig=1");
    assert_eq!(rec.file_name, "file.zip");
    assert_eq!(rec.file_path, "/downloads/file.zip");
    assert_eq!(rec.downloaded_size, 0);
    assert_eq!(rec.total_size, None);
    assert!(matches!(rec.status, DownloadStatus::Pending));
    assert_eq!(rec.created_at, 42);
    assert_eq!(rec.updated_at, 42);
}

#[test]
fn empty_name_falls_back_to_the_id() {
    let rec = record_named("http://host/dir/");
    let expected = format!("download_{}", &rec.id[..8]);
    assert_eq!(rec.file_name, expected);
}

#[test]
fn filename_extraction_cases() {
    assert_eq!(extract_filename("http://x/y"), Some(String::from("y")));
    assert_eq!(extract_filename("http://host/path/file.zip?sig=1"), Some(String::from("file.zip")));
    assert_eq!(extract_filename("http://host/"), None);
    assert_eq!(extract_filename("http://host/?q=1"), None);
    assert_eq!(extract_filename("http://host"), Some(String::from("host")));
    assert_eq!(extract_filename(""), None);
}

#[test]
fn status_tags_round_trip() {
    let cases = [
        (DownloadStatus::Pending, DownloadStatus::Pending),
        (DownloadStatus::Downloading, DownloadStatus::Downloading),
        (DownloadStatus::Paused, DownloadStatus::Paused),
        (DownloadStatus::Completed, DownloadStatus::Completed),
        (
            DownloadStatus::Failed(String::from("connection reset")),
            DownloadStatus::Failed(String::from("Unknown error")),
        ),
        (DownloadStatus::Cancelled, DownloadStatus::Cancelled),
    ];
    for (status, expected) in cases {
        let tag = String::from(status.tag());
        assert_eq!(decode_status(&tag), expected);
    }
    assert_eq!(decode_status(&String::from("nonsense")), DownloadStatus::Pending);
}

#[test]
fn rows_round_trip_up_to_the_failure_reason() {
    let mut rec = record_named("http://host/file.bin");
    rec.mark_downloading(Some(100), 43);
    rec.mark_failed(String::from("connection reset"), 44);
    let row = row_of_record(&rec);
    assert_eq!(row.status_tag, "failed");
    let back = record_of_row(row);
    assert_eq!(back.id, rec.id);
    assert_eq!(back.url, rec.url);
    assert_eq!(back.file_path, rec.file_path);
    assert_eq!(back.file_name, rec.file_name);
    assert_eq!(back.total_size, rec.total_size);
    assert_eq!(back.downloaded_size, rec.downloaded_size);
    assert_eq!(back.cookies, rec.cookies);
    assert_eq!(back.referrer, rec.referrer);
    assert_eq!(back.user_agent, rec.user_agent);
    assert_eq!(back.created_at, rec.created_at);
    assert_eq!(back.updated_at, rec.updated_at);
    assert_eq!(back.status, DownloadStatus::Failed(String::from("Unknown error")));
}

#[test]
fn rows_of_healthy_statuses_round_trip_exactly() {
    let mut rec = record_named("http://host/file.bin");
    rec.mark_downloading(Some(10), 43);
    let ok = rec.try_complete(10, 44);
    assert!(ok);
    let back = record_of_row(row_of_record(&rec));
    assert_eq!(back, rec);
}

#[test]
fn save_then_load_contains_the_record() {
    let mut store = DownloadPersistence::new();
    let rec = record_named("http://host/a.bin");
    store.save_download(rec.clone());
    let all = store.load_downloads();
    assert!(all.contains(&rec));
    assert_eq!(all.len(), 1);
}

#[test]
fn save_is_an_upsert_by_id() {
    let mut store = DownloadPersistence::new();
    let mut rec = record_named("http://host/a.bin");
    store.save_download(rec.clone());
    rec.mark_downloading(Some(100), 43);
    store.save_download(rec.clone());
    let all = store.load_downloads();
    assert_eq!(all.len(), 1);
    assert_eq!(all[0], rec);
}

#[test]
fn delete_removes_only_its_id() {
    let mut store = DownloadPersistence::new();
    let a = record_named("http://host/a.bin");
    let b = record_named("http://host/b.bin");
    store.save_download(a.clone());
    store.save_download(b.clone());
    assert_eq!(store.load_downloads().len(), 2);
    store.delete_download(&a.id);
    let all = store.load_downloads();
    assert_eq!(all.len(), 1);
    assert_eq!(all[0], b);
    store.delete_download(&a.id);
    assert_eq!(store.load_downloads().len(), 1);
}

#[test]
fn get_finds_by_id() {
    let mut store = DownloadPersistence::new();
    let a = record_named("http://host/a.bin");
    let b = record_named("http://host/b.bin");
    store.save_download(a.clone());
    store.save_download(b.clone());
    assert_eq!(store.get(&a.id), Some(&a));
    assert_eq!(store.get(&b.id), Some(&b));
    assert_eq!(store.get(&String::from("no-such-id")), None);
}

#[test]
fn registry_tracks_live_downloads() {
    let mut reg = Registry::new();
    assert!(!reg.contains(&String::from("x")));
    reg.insert(String::from("x"), 7);
    assert!(reg.contains(&String::from("x")));
    assert_eq!(reg.lookup(&String::from("x")), Some(7));
    reg.insert(String::from("y"), 8);
    assert_eq!(reg.lookup(&String::from("y")), Some(8));
    reg.remove(&String::from("x"));
    assert!(!reg.contains(&String::from("x")));
    assert_eq!(reg.lookup(&String::from("x")), None);
    assert_eq!(reg.lookup(&String::from("y")), Some(8));
}

#[test]
fn start_download_registers_and_persists() {
    let mut store = DownloadPersistence::new();
    let mut reg = Registry::new();
    let rec = start_download(
        &mut store,
        &mut reg,
        String::from("http://host/big.iso"),
        String::from("/downloads"),
        Some(String::from("k=v")),
        Some(String::from("http://ref/")),
        None,
        99,
        1,
    )
    .expect("fresh id");
    assert!(matches!(rec.status, DownloadStatus::Pending));
    assert_eq!(rec.cookies, Some(String::from("k=v")));
    assert!(reg.contains(&rec.id));
    assert_eq!(reg.lookup(&rec.id), Some(1));
    assert_eq!(store.get(&rec.id), Some(&rec));
}

#[test]
fn observed_commands_move_the_stored_status() {
    let mut store = DownloadPersistence::new();
    let mut reg = Registry::new();
    let rec = start_download(
        &mut store,
        &mut reg,
        String::from("http://host/big.iso"),
        String::from("/downloads"),
        None,
        None,
        None,
        99,
        5,
    )
    .expect("fresh id");
    // The control plane only looks up the live handle; the store is not
    // touched until the supervisor observes the command.
    assert_eq!(reg.lookup(&rec.id), Some(5));
    assert_eq!(store.get(&rec.id), Some(&rec));

    let mut live = store.get(&rec.id).unwrap().clone();
    live.mark_downloading(Some(1000), 100);
    store.save_download(live);

    let saved = persist_observed_command(&mut store, &rec.id, DownloadCommand::Pause, 101);
    assert!(matches!(saved.unwrap().status, DownloadStatus::Paused));
    assert!(matches!(store.get(&rec.id).unwrap().status, DownloadStatus::Paused));

    let saved = persist_observed_command(&mut store, &rec.id, DownloadCommand::Cancel, 102);
    assert!(matches!(saved.unwrap().status, DownloadStatus::Cancelled));
    assert!(matches!(store.get(&rec.id).unwrap().status, DownloadStatus::Cancelled));

    let saved = persist_observed_command(&mut store, &rec.id, DownloadCommand::Pause, 103);
    assert!(matches!(saved.unwrap().status, DownloadStatus::Cancelled));
    assert!(matches!(store.get(&rec.id).unwrap().status, DownloadStatus::Cancelled));
}

#[test]
fn command_for_an_unknown_id_is_a_no_op() {
    let mut store = DownloadPersistence::new();
    let reg = Registry::new();
    let rec = record_named("http://host/a.bin");
    assert_eq!(reg.lookup(&rec.id), None);
    let saved = persist_observed_command(&mut store, &rec.id, DownloadCommand::Pause, 101);
    assert_eq!(saved, None);
    assert_eq!(store.load_downloads().len(), 0);
}

#[test]
fn strict_lookup_reports_not_found() {
    let mut store = DownloadPersistence::new();
    let rec = record_named("http://host/a.bin");
    store.save_download(rec.clone());
    assert_eq!(get_download_info(&store, &rec.id), Ok(&rec));
    assert_eq!(
        get_download_info(&store, &String::from("missing")),
        Err(DownloadError::NotFound)
    );
    assert_eq!(DownloadError::NotFound.message(), "Download not found");
}
