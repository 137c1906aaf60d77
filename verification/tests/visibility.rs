use storage_write::committed::Writer as CommittedWriter;
use storage_write::default_stream::Writer as DefaultWriter;
use storage_write::service::StorageService;
use storage_write::types::BatchCommitWriteStreamsRequest;
use storage_write::types::CommitError;

#[test]
fn default_rows_visible_immediately_after_acknowledgement() {
    let mut service = StorageService::new();
    let table = "projects/p/datasets/d/tables/t".to_string();
    let mut writer = DefaultWriter::new(4, table.clone());
    let mut stream = writer.create_write_stream(&mut service, 0).unwrap();

    let acks = stream
        .append_rows(&mut service, vec![vec![b"a".to_vec(), b"b".to_vec()]])
        .unwrap();
    assert_eq!(acks.len(), 1);
    assert_eq!(acks[0].row_errors.len(), 0);

    // No finalize, no commit: the acknowledged rows are already visible.
    assert_eq!(
        service.visible_rows(&table),
        vec![b"a".to_vec(), b"b".to_vec()]
    );
}

#[test]
fn committed_rows_visible_immediately_after_acknowledgement() {
    let mut service = StorageService::new();
    let table = "projects/p/datasets/d/tables/t".to_string();
    let mut writer = CommittedWriter::new(4, table.clone());
    let mut stream = writer.create_write_stream(&mut service, 0).unwrap();

    stream
        .append_rows(&mut service, vec![vec![b"x".to_vec()], vec![b"y".to_vec()]])
        .unwrap();
    assert_eq!(
        service.visible_rows(&table),
        vec![b"x".to_vec(), b"y".to_vec()]
    );

    // Finalize closes the stream cleanly and reports every visible row.
    let row_count = stream.finalize(&mut service).unwrap();
    assert_eq!(row_count, 2);
}

#[test]
fn commit_with_a_name_listed_twice_commits_it_once() {
    let mut service = StorageService::new();
    let table = "projects/p/datasets/d/tables/t".to_string();
    let mut writer = storage_write::pending::Writer::new(4, table.clone());
    let mut stream = writer.create_write_stream(&mut service, 0).unwrap();
    stream
        .append_rows(&mut service, vec![vec![b"r".to_vec()]])
        .unwrap();
    stream.finalize(&mut service).unwrap();

    let response = service.batch_commit(&BatchCommitWriteStreamsRequest {
        parent: table.clone(),
        write_streams: vec![
            stream.as_ref().name().clone(),
            stream.as_ref().name().clone(),
        ],
    });
    assert_eq!(
        response.stream_errors,
        vec![None, Some(CommitError::AlreadyCommitted)]
    );
    assert_eq!(service.visible_rows(&table), vec![b"r".to_vec()]);
}

#[test]
fn commit_reports_an_error_only_for_the_invalid_entry() {
    let mut service = StorageService::new();
    let table = "projects/p/datasets/d/tables/t".to_string();
    let mut writer = storage_write::pending::Writer::new(4, table.clone());

    let mut valid = writer.create_write_stream(&mut service, 0).unwrap();
    let mut stale = writer.create_write_stream(&mut service, 1).unwrap();

    valid
        .append_rows(&mut service, vec![vec![b"v".to_vec()]])
        .unwrap();
    stale
        .append_rows(&mut service, vec![vec![b"s".to_vec()]])
        .unwrap();
    valid.finalize(&mut service).unwrap();
    stale.finalize(&mut service).unwrap();

    // Commit the second stream on its own, so it is already committed.
    let first = service.batch_commit(&BatchCommitWriteStreamsRequest {
        parent: table.clone(),
        write_streams: vec![stale.as_ref().name().clone()],
    });
    assert_eq!(first.stream_errors, vec![None]);

    // One valid and one already-finalized-then-already-committed name: the
    // response lists an error only for the invalid entry, index-aligned.
    let second = service.batch_commit(&BatchCommitWriteStreamsRequest {
        parent: table.clone(),
        write_streams: vec![
            valid.as_ref().name().clone(),
            stale.as_ref().name().clone(),
        ],
    });
    assert_eq!(
        second.stream_errors,
        vec![None, Some(CommitError::AlreadyCommitted)]
    );

    // Both streams' rows are visible exactly once.
    assert_eq!(
        service.visible_rows(&table),
        vec![b"v".to_vec(), b"s".to_vec()]
    );
}
