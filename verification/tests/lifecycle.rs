use storage_write::pending::Writer as PendingWriter;
use storage_write::service::StorageService;
use storage_write::types::Status;

fn batch(i: usize, j: usize) -> Vec<Vec<u8>> {
    let row = format!("pending_{i}_{j}").into_bytes();
    vec![row.clone(), row.clone(), row]
}

#[test]
fn test_storage_write() {
    let mut service = StorageService::new();
    let tables = ["write_test", "write_test_1"];

    // Create Writers
    let mut writers = vec![];
    for i in 0..2 {
        let table = format!(
            "projects/{}/datasets/gcrbq_storage/tables/{}",
            "local",
            tables[i % tables.len()]
        );
        let writer = PendingWriter::new(4, table);
        writers.push(writer);
    }

    // Create Streams
    let mut streams = vec![];
    for (i, writer) in writers.iter_mut().enumerate() {
        let stream = writer.create_write_stream(&mut service, i).unwrap();
        streams.push(stream);
    }

    // Append Rows
    for (i, stream) in streams.iter_mut().enumerate() {
        let mut rows = vec![];
        for j in 0..5 {
            rows.push(batch(i, j));
        }
        let result = stream.append_rows(&mut service, rows).unwrap();
        assert_eq!(result.len(), 5);
        for (j, res) in result.iter().enumerate() {
            assert_eq!(res.row_errors.len(), 0);
            assert_eq!(res.offset, j as u64);
        }
        let row_count = stream.finalize(&mut service).unwrap();
        assert_eq!(row_count, 15);
    }

    for writer in writers.iter_mut() {
        let result = writer.commit(&mut service);
        let errors = result
            .stream_errors
            .iter()
            .filter(|e| e.is_some())
            .count();
        assert_eq!(errors, 0);
    }
}

#[test]
fn test_storage_write_single_stream() {
    let mut service = StorageService::new();

    // Create one pending stream shared by two row sources.
    let table = "projects/local/datasets/gcrbq_storage/tables/write_test".to_string();
    let mut writer = PendingWriter::new(4, table);
    let mut stream = writer.create_write_stream(&mut service, 0).unwrap();

    // Fan in row batches from two interleaved sources.
    let mut acks = vec![];
    for j in 0..5 {
        for i in 0..2 {
            let mut result = stream
                .append_rows(&mut service, vec![batch(i, j)])
                .unwrap();
            assert_eq!(result.len(), 1);
            acks.append(&mut result);
        }
    }

    // No acknowledgement was lost or duplicated: one per batch, in
    // submission order.
    assert_eq!(acks.len(), 10);
    for (k, ack) in acks.iter().enumerate() {
        assert_eq!(ack.offset, k as u64);
        assert_eq!(ack.row_errors.len(), 0);
    }

    // One finalize after both sources are done: every row is counted.
    let row_count = stream.finalize(&mut service).unwrap();
    assert_eq!(row_count, 30);

    let result = writer.commit(&mut service);
    let errors = result
        .stream_errors
        .iter()
        .filter(|e| e.is_some())
        .count();
    assert_eq!(errors, 0);
}

#[test]
fn finalize_twice_fails_with_protocol_error() {
    let mut service = StorageService::new();
    let mut writer = PendingWriter::new(4, "projects/p/datasets/d/tables/t".to_string());
    let mut stream = writer.create_write_stream(&mut service, 0).unwrap();

    stream
        .append_rows(&mut service, vec![vec![b"row".to_vec()]])
        .unwrap();
    let row_count = stream.finalize(&mut service).unwrap();
    assert_eq!(row_count, 1);

    let second = stream.finalize(&mut service);
    assert_eq!(second, Err(Status::AlreadyFinalized));
}

#[test]
fn finalize_with_no_appends_reports_zero_rows() {
    let mut service = StorageService::new();
    let mut writer = PendingWriter::new(4, "projects/p/datasets/d/tables/t".to_string());
    let mut stream = writer.create_write_stream(&mut service, 0).unwrap();

    // Finalizing straight after creation is valid: the stream is empty.
    let row_count = stream.finalize(&mut service).unwrap();
    assert_eq!(row_count, 0);

    let result = writer.commit(&mut service);
    assert_eq!(result.stream_errors, vec![None]);
}

#[test]
fn append_after_finalize_fails_with_protocol_error() {
    let mut service = StorageService::new();
    let mut writer = PendingWriter::new(4, "projects/p/datasets/d/tables/t".to_string());
    let mut stream = writer.create_write_stream(&mut service, 0).unwrap();

    stream.finalize(&mut service).unwrap();
    let result = stream.append_rows(&mut service, vec![vec![b"row".to_vec()]]);
    assert_eq!(result.unwrap_err(), Status::AppendAfterFinalize);
}

#[test]
fn pending_rows_invisible_until_finalize_and_commit() {
    let mut service = StorageService::new();
    let table = "projects/p/datasets/d/tables/t".to_string();
    let mut writer = PendingWriter::new(4, table.clone());
    let mut stream = writer.create_write_stream(&mut service, 0).unwrap();

    stream
        .append_rows(
            &mut service,
            vec![vec![b"a".to_vec(), b"b".to_vec()], vec![b"c".to_vec()]],
        )
        .unwrap();
    assert_eq!(service.visible_rows(&table).len(), 0);

    stream.finalize(&mut service).unwrap();
    assert_eq!(service.visible_rows(&table).len(), 0);

    let result = writer.commit(&mut service);
    assert_eq!(result.stream_errors, vec![None]);
    assert_eq!(
        service.visible_rows(&table),
        vec![b"a".to_vec(), b"b".to_vec(), b"c".to_vec()]
    );
}
