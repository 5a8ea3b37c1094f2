use blobstream::progress::DownloadProgress;
use blobstream::tail::{
    open_next, reader_dropped, tailing_reader, BlobFile, TailStep, TailingReader, READ_CHUNK_MAX,
};

/// Reads from `file` for as long as the reader finds something to read.
fn drain(reader: &mut TailingReader, progress: &DownloadProgress, file: &[u8], out: &mut Vec<u8>) -> TailStep {
    loop {
        match reader.step(progress) {
            TailStep::Read { offset, len } => {
                let from = offset as usize;
                let to = (from + len).min(file.len());
                let mut buf = vec![0u8; len];
                buf[..to - from].copy_from_slice(&file[from..to]);
                match reader.read(buf, to - from) {
                    Some(data) => out.extend_from_slice(&data),
                    None => return TailStep::Wait,
                }
            }
            step => return step,
        }
    }
}

#[test]
fn tailing_reader_streams_while_writer_appends() {
    let mut reader = tailing_reader();
    let mut progress = DownloadProgress::default();
    let mut out = Vec::new();
    let mut file: Vec<u8> = Vec::new();
    assert!(matches!(drain(&mut reader, &progress, &file, &mut out), TailStep::Wait));

    file.extend_from_slice(b"hello ");
    progress.publish(6);
    assert!(matches!(drain(&mut reader, &progress, &file, &mut out), TailStep::Wait));
    assert_eq!(out, b"hello ");

    file.extend_from_slice(b"world");
    progress.publish(11);
    progress.finish(Ok(11));
    assert!(matches!(drain(&mut reader, &progress, &file, &mut out), TailStep::Eof));
    assert_eq!(out, b"hello world");
}

#[test]
fn tailing_reader_surfaces_download_failure() {
    let mut reader = tailing_reader();
    let mut progress = DownloadProgress::default();
    let mut out = Vec::new();
    progress.publish(3);
    assert!(matches!(drain(&mut reader, &progress, b"par", &mut out), TailStep::Wait));
    progress.finish(Err("boom".to_string()));
    match drain(&mut reader, &progress, b"par", &mut out) {
        TailStep::Fail(text) => assert_eq!(text, "blob download failed: boom"),
        step => panic!("reader must fail when the download fails: {step:?}"),
    }
}

#[test]
fn tailing_reader_reads_across_rename() {
    // The temp file is gone before the reader ever opens it.
    let first = open_next(None);
    assert_eq!(first, Some(BlobFile::Temp));
    assert_eq!(open_next(first), Some(BlobFile::Final));
    assert_eq!(open_next(Some(BlobFile::Final)), None);

    let mut reader = tailing_reader();
    let mut progress = DownloadProgress::default();
    progress.publish(13);
    progress.finish(Ok(13));
    let mut out = Vec::new();
    assert!(matches!(drain(&mut reader, &progress, b"full contents", &mut out), TailStep::Eof));
    assert_eq!(out, b"full contents");
}

#[test]
fn the_final_size_counts_over_the_last_published_prefix() {
    let reader = TailingReader { pos: 4 };
    let mut progress = DownloadProgress::default();
    progress.publish(4);
    assert!(matches!(reader.step(&progress), TailStep::Wait));
    progress.finish(Ok(9));
    assert!(matches!(reader.step(&progress), TailStep::Read { offset: 4, len: 5 }));
}

#[test]
fn a_failure_is_told_even_while_there_is_more_to_read() {
    let reader = TailingReader { pos: 0 };
    let progress = DownloadProgress {
        written: 10,
        expected: Some(20),
        terminal: Some(Err("boom".to_string())),
    };
    assert!(matches!(reader.step(&progress), TailStep::Fail(_)));
}

#[test]
fn reads_are_capped() {
    let reader = TailingReader { pos: 1 };
    let mut progress = DownloadProgress::default();
    progress.publish(READ_CHUNK_MAX * 3);
    match reader.step(&progress) {
        TailStep::Read { offset, len } => {
            assert_eq!(offset, 1);
            assert_eq!(len as u64, READ_CHUNK_MAX);
        }
        step => panic!("{step:?}"),
    }
}

#[test]
fn a_reader_past_the_prefix_waits() {
    let reader = TailingReader { pos: 8 };
    let mut progress = DownloadProgress::default();
    progress.publish(5);
    assert!(matches!(reader.step(&progress), TailStep::Wait));
}

#[test]
fn an_empty_blob_ends_at_once() {
    let reader = tailing_reader();
    assert!(matches!(reader.step(&DownloadProgress::stored(0)), TailStep::Eof));
}

#[test]
fn short_and_empty_reads() {
    let mut reader = TailingReader { pos: 2 };
    assert!(reader.read(vec![1, 2, 3], 0).is_none());
    assert_eq!(reader.pos, 2);
    let data = reader.read(vec![1, 2, 3], 2).unwrap();
    assert_eq!(&data[..], &[1, 2]);
    assert_eq!(reader.pos, 4);
}

#[test]
fn dropped_downloads() {
    assert_eq!(reader_dropped(), "blob download task dropped");
}

#[test]
fn a_stored_blob_is_finished_progress() {
    let p = DownloadProgress::stored(9);
    assert_eq!((p.written, p.expected), (9, Some(9)));
    assert_eq!(p.terminal, Some(Ok(9)));
}
