use storage_write::conn_pool::ConnectionError;
use storage_write::conn_pool::ConnectionManager;
use storage_write::pending::Writer as PendingWriter;
use storage_write::service::StorageService;
use storage_write::types::AppendRowsRequest;
use storage_write::types::BatchCommitWriteStreamsRequest;
use storage_write::types::CommitError;
use storage_write::types::FinalizeWriteStreamRequest;
use storage_write::types::Status;

#[test]
fn empty_pool_is_refused() {
    let pool = ConnectionManager::new(0);
    assert_eq!(pool.unwrap_err(), ConnectionError::EmptyPool);
}

#[test]
fn pool_hands_out_slots_round_robin() {
    let mut pool = ConnectionManager::new(3).unwrap();
    assert_eq!(pool.num(), 3);
    let picked: Vec<usize> = (0..7).map(|_| pool.conn()).collect();
    assert_eq!(picked, vec![0, 1, 2, 0, 1, 2, 0]);
}

#[test]
fn append_to_unknown_stream_is_refused() {
    let mut service = StorageService::new();
    let result = service.append_rows(AppendRowsRequest {
        write_stream: "streams/404".to_string(),
        offset: 0,
        rows: vec![b"row".to_vec()],
    });
    assert_eq!(result.unwrap_err(), Status::StreamNotFound);
}

#[test]
fn finalize_on_unknown_stream_is_refused() {
    let mut service = StorageService::new();
    let result = service.finalize(FinalizeWriteStreamRequest {
        name: "streams/404".to_string(),
    });
    assert_eq!(result.unwrap_err(), Status::StreamNotFound);
}

#[test]
fn finalize_on_default_stream_is_refused() {
    let mut service = StorageService::new();
    let table = "projects/p/datasets/d/tables/t".to_string();
    let mut writer = storage_write::default_stream::Writer::new(4, table);
    let stream = writer.create_write_stream(&mut service, 0).unwrap();
    let result = service.finalize(FinalizeWriteStreamRequest {
        name: stream.as_ref().name().clone(),
    });
    assert_eq!(result.unwrap_err(), Status::FinalizeNotSupported);
}

#[test]
fn commit_reports_unknown_not_finalized_and_not_pending() {
    let mut service = StorageService::new();
    let table = "projects/p/datasets/d/tables/t".to_string();

    let mut pending_writer = PendingWriter::new(4, table.clone());
    let unfinalized = pending_writer.create_write_stream(&mut service, 0).unwrap();

    let mut committed_writer = storage_write::committed::Writer::new(4, table.clone());
    let wrong_type = committed_writer.create_write_stream(&mut service, 0).unwrap();

    let response = service.batch_commit(&BatchCommitWriteStreamsRequest {
        parent: table,
        write_streams: vec![
            "streams/404".to_string(),
            unfinalized.as_ref().name().clone(),
            wrong_type.as_ref().name().clone(),
        ],
    });
    assert_eq!(
        response.stream_errors,
        vec![
            Some(CommitError::StreamNotFound),
            Some(CommitError::NotFinalized),
            Some(CommitError::NotPending),
        ]
    );
}

#[test]
fn acknowledgements_follow_submission_order() {
    let mut service = StorageService::new();
    let table = "projects/p/datasets/d/tables/t".to_string();
    let mut writer = PendingWriter::new(4, table);
    let mut stream = writer.create_write_stream(&mut service, 0).unwrap();

    let batches: Vec<Vec<Vec<u8>>> = (0..4)
        .map(|j: usize| vec![format!("row_{j}").into_bytes()])
        .collect();
    let acks = stream.append_rows(&mut service, batches).unwrap();
    let offsets: Vec<u64> = acks.iter().map(|a| a.offset).collect();
    assert_eq!(offsets, vec![0, 1, 2, 3]);
}

#[test]
fn writer_commits_exactly_the_streams_it_opened() {
    let mut service = StorageService::new();
    let table = "projects/p/datasets/d/tables/t".to_string();
    let mut writer = PendingWriter::new(4, table.clone());
    let mut first = writer.create_write_stream(&mut service, 0).unwrap();
    let mut second = writer.create_write_stream(&mut service, 1).unwrap();

    let request = writer.commit_request();
    assert_eq!(request.parent, table);
    assert_eq!(
        request.write_streams,
        vec![
            first.as_ref().name().clone(),
            second.as_ref().name().clone(),
        ]
    );

    first.finalize(&mut service).unwrap();
    second.finalize(&mut service).unwrap();
    let response = writer.commit(&mut service);
    assert_eq!(response.stream_errors, vec![None, None]);
}
