use datafall::address::parse_download_url;
use datafall::download_item::{
    chunk_outcome, file_outcome, filename_for, metadata_outcome, replace_spaces, CommandReaction,
    DownloadItem, DownloadItemCommandOutput, DownloadItemInput, DownloadTask, ProgressChange,
    SubtitleClass,
};
use datafall::hash::get_hash;
use datafall::metadata::ResourceMetadata;

fn item(url: &str) -> DownloadItem {
    let (item, task) = DownloadItem::init_model(parse_download_url(url).unwrap()).unwrap();
    assert_eq!(task, DownloadTask::FetchMetadata);
    item
}

#[test]
fn init_model_names_file_after_url() {
    let item = item("https://example.com/files/a.iso");
    assert_eq!(item.filename, "a.iso");
    assert_eq!(item.status, "Getting resource metadata...");
    assert_eq!(item.chunks_downloaded, 0);
    assert!(!item.download_finished);
}

#[test]
fn init_model_without_file_name_uses_time() {
    let item = item("https://example.com/");
    assert!(!item.filename.is_empty());
    assert!(!item.filename.contains(' '));
    assert!(item.filename.ends_with("-UTC"));
}

#[test]
fn filename_fallback_replaces_spaces() {
    let url = parse_download_url("https://example.com/dir/").unwrap();
    assert_eq!(filename_for(&url, "2024-05-01 10:00:00 UTC"), "2024-05-01-10:00:00-UTC");
    let url = parse_download_url("https://example.com/dir/x").unwrap();
    assert_eq!(filename_for(&url, "2024-05-01 10:00:00 UTC"), "x");
    assert_eq!(replace_spaces(" a  b "), "-a--b-");
}

#[test]
fn metadata_with_size_and_ranges_starts_split_download() {
    let mut item = item("https://example.com/a.bin");
    let reaction = item.update_cmd(DownloadItemCommandOutput::ResourceMetadata(ResourceMetadata {
        size: Some(4096),
        accept_ranges: true,
    }));
    assert_eq!(
        reaction,
        CommandReaction {
            progress: ProgressChange::MetadataReceived,
            input: Some(DownloadItemInput::SplitDownload { file_size: 4096, num_of_chunks: 16 }),
            subtitle_class: None,
            refresh_view: false,
        }
    );
    assert_eq!(item.filename, "a.bin");
    assert_eq!(item.status, "Getting resource metadata...");
    assert_eq!(item.chunks_downloaded, 0);
    assert!(!item.download_finished);
}

#[test]
fn metadata_without_ranges_starts_plain_download() {
    for meta in [
        ResourceMetadata { size: Some(4096), accept_ranges: false },
        ResourceMetadata { size: None, accept_ranges: true },
    ] {
        let mut item = item("https://example.com/a.bin");
        let reaction = item.update_cmd(DownloadItemCommandOutput::ResourceMetadata(meta));
        assert_eq!(reaction.input, Some(DownloadItemInput::PlainDownload));
        assert!(reaction.refresh_view);
        assert_eq!(reaction.progress, ProgressChange::MetadataReceived);
    }
}

#[test]
fn merge_is_requested_after_last_chunk() {
    let mut item = item("https://example.com/a.bin");
    for k in 1..=16u64 {
        let reaction = item.update_cmd(DownloadItemCommandOutput::ChunkDownloaded("h".to_string(), 16));
        assert_eq!(item.chunks_downloaded, k);
        assert_eq!(reaction.progress, ProgressChange::ChunkShare(16));
        if k == 16 {
            assert_eq!(reaction.input, Some(DownloadItemInput::MergeChunks("h".to_string(), 16)));
        } else {
            assert_eq!(reaction.input, None);
        }
    }
}

#[test]
fn finished_and_error_messages() {
    let mut item = item("https://example.com/a.bin");
    let reaction = item.update_cmd(DownloadItemCommandOutput::Error("boom".to_string()));
    assert_eq!(item.status, "boom");
    assert_eq!(reaction.subtitle_class, Some(SubtitleClass::Error));
    assert_eq!(reaction.progress, ProgressChange::Unchanged);
    assert!(!item.download_finished);
    let reaction = item.update_cmd(DownloadItemCommandOutput::DownloadFinished);
    assert_eq!(item.status, "Downloading finished!");
    assert!(item.download_finished);
    assert_eq!(reaction.subtitle_class, Some(SubtitleClass::Success));
    assert_eq!(reaction.progress, ProgressChange::Complete);
}

#[test]
fn split_download_spawns_one_task_per_chunk() {
    let mut item = item("https://example.com/a.bin");
    let tasks = item.update(DownloadItemInput::SplitDownload { file_size: 1000, num_of_chunks: 16 });
    assert_eq!(item.status, "Downloading the resource fragments...");
    let hash = get_hash(1000, &item.url);
    assert_eq!(tasks.len(), 16);
    for (i, task) in tasks.iter().enumerate() {
        assert_eq!(
            *task,
            DownloadTask::DownloadChunk {
                chunk_num: i as u64,
                num_of_chunks: 16,
                chunk_size: 62,
                file_hash: hash.clone(),
                file_size: 1000,
            }
        );
    }
}

#[test]
fn plain_merge_and_open_tasks() {
    let mut item = item("https://example.com/a.bin");
    assert_eq!(
        item.update(DownloadItemInput::PlainDownload),
        vec![DownloadTask::PlainDownload { filename: "a.bin".to_string() }]
    );
    assert_eq!(item.status, "Downloading the resource...");
    assert_eq!(
        item.update(DownloadItemInput::MergeChunks("k".to_string(), 16)),
        vec![DownloadTask::MergeChunks {
            filename: "a.bin".to_string(),
            file_hash: "k".to_string(),
            num_of_chunks: 16
        }]
    );
    assert_eq!(item.status, "Merging the file fragments...");
    assert_eq!(item.update(DownloadItemInput::OpenFile), vec![DownloadTask::OpenDownloadDir]);
    assert_eq!(item.status, "Merging the file fragments...");
}

#[test]
fn background_outcomes() {
    assert_eq!(
        chunk_outcome(Ok(()), "k".to_string(), 16),
        DownloadItemCommandOutput::ChunkDownloaded("k".to_string(), 16)
    );
    assert_eq!(
        chunk_outcome(Err("e".to_string()), "k".to_string(), 16),
        DownloadItemCommandOutput::Error("e".to_string())
    );
    assert_eq!(file_outcome(Ok(())), DownloadItemCommandOutput::DownloadFinished);
    assert_eq!(file_outcome(Err("e".to_string())), DownloadItemCommandOutput::Error("e".to_string()));
    let meta = ResourceMetadata { size: Some(1), accept_ranges: false };
    assert_eq!(metadata_outcome(Ok(meta)), DownloadItemCommandOutput::ResourceMetadata(meta));
    assert_eq!(
        metadata_outcome(Err("e".to_string())),
        DownloadItemCommandOutput::Error("e".to_string())
    );
}
