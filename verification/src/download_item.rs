//! One download in the queue: the decisions it takes on each message it
//! receives, as a state machine whose actions the caller performs.
use vstd::prelude::*;
use vstd::string::*;
use crate::address::{ParsedUrl, url_file_name, url_file_name_spec};
use crate::clock::{current_time_text, ends_with_utc, is_clock_text};
use crate::chunk::{SPLIT_CHUNK_COUNT, chunk_size, chunk_size_spec};
use crate::hash::{base64_url_safe, get_hash, hash_input};
use crate::metadata::ResourceMetadata;
use crate::text::push_char;

verus! {

/// `text` with every space turned into a dash.
pub open spec fn dashes_for_spaces(text: Seq<char>) -> Seq<char> {
    text.map_values(|c: char| if c == ' ' { '-' } else { c })
}

/// Turns every space of `text` into a dash, as `text.replace(" ", "-")` does.
pub fn replace_spaces(text: &str) -> (res: String)
    ensures
        res@ == dashes_for_spaces(text@),
{
    let len = text.unicode_len();
    let mut res = String::new();
    let mut i: usize = 0;
    while i < len
        invariant
            i <= len,
            len == text@.len(),
            res@ == dashes_for_spaces(text@.subrange(0, i as int)),
        decreases len - i,
    {
        let c = text.get_char(i);
        if c == ' ' {
            push_char(&mut res, '-');
        } else {
            push_char(&mut res, c);
        }
        assert(dashes_for_spaces(text@.subrange(0, i + 1)) =~= dashes_for_spaces(
            text@.subrange(0, i as int),
        ).push(if c == ' ' { '-' } else { c }));
        i = i + 1;
    }
    assert(text@.subrange(0, len as int) =~= text@);
    res
}

/// The name of the file that a download of `url` is saved to, given the text
/// of the current time: the last segment of the URL's path, or else the time
/// with its spaces turned into dashes.
pub fn filename_for(url: &ParsedUrl, now: &str) -> (name: String)
    ensures
        name@ == match url_file_name_spec(url.path_text()) {
            Some(segment) => segment,
            None => dashes_for_spaces(now@),
        },
{
    match url_file_name(url) {
        Some(segment) => segment,
        None => replace_spaces(now),
    }
}

/// Whether `name` is a time text with dashes for spaces: it holds no space
/// and ends with `-UTC`.
pub open spec fn is_time_file_name(name: Seq<char>) -> bool {
    &&& !name.contains(' ')
    &&& name.len() >= 4
    &&& name.subrange(name.len() - 4, name.len() as int) == "-UTC"@
}

proof fn lemma_dashes_of_utc_text(now: Seq<char>)
    requires
        ends_with_utc(now),
    ensures
        is_time_file_name(dashes_for_spaces(now)),
{
    let name = dashes_for_spaces(now);
    reveal_strlit(" UTC");
    reveal_strlit("-UTC");
    assert(name.subrange(name.len() - 4, name.len() as int) =~= "-UTC"@) by {
        assert(now.subrange(now.len() - 4, now.len() as int) =~= " UTC"@);
        assert forall|k: int| 0 <= k < 4 implies name[name.len() - 4 + k] == "-UTC"@[k] by {
            assert(now[now.len() - 4 + k] == " UTC"@[k]);
        }
    }
    if name.contains(' ') {
        let k = choose|k: int| 0 <= k < name.len() && name[k] == ' ';
        assert(name[k] == (if now[k] == ' ' { '-' } else { now[k] }));
    }
}

/// The name of the file that a download of `url` is saved to: the last
/// segment of the URL's path, or else the current time with its spaces turned
/// into dashes. `None` when the URL names no file and the clock cannot be
/// read as a date.
fn get_filename(url: &ParsedUrl) -> (name: Option<String>)
    ensures
        match url_file_name_spec(url.path_text()) {
            Some(segment) => name matches Some(n) && n@ == segment,
            None => name matches Some(n) ==> is_time_file_name(n@) && exists|now: Seq<char>|
                #[trigger] is_clock_text(now) && n@ == dashes_for_spaces(now),
        },
{
    if let Some(segment) = url_file_name(url) {
        return Some(segment);
    }
    match current_time_text() {
        Some(now) => {
            let name = filename_for(url, now.as_str());
            proof {
                lemma_dashes_of_utc_text(now@);
                assert(is_clock_text(now@));
            }
            Some(name)
        },
        None => None,
    }
}

/// The messages a download item receives from its parent or from itself.
#[derive(Debug, Clone, PartialEq, Eq)]
pub enum DownloadItemInput {
    /// Download the resource in `num_of_chunks` ranges.
    SplitDownload { file_size: u64, num_of_chunks: u64 },
    /// Download the resource in one request.
    PlainDownload,
    /// Merge the chunks of the download keyed by the text into the file.
    MergeChunks(String, u64),
    /// Show the downloaded file.
    OpenFile,
}

/// The results of the background work of a download item.
#[derive(Debug, Clone, PartialEq, Eq)]
pub enum DownloadItemCommandOutput {
    /// The metadata of the resource arrived.
    ResourceMetadata(ResourceMetadata),
    /// One chunk of the download keyed by the text, out of the given number,
    /// was written.
    ChunkDownloaded(String, u64),
    /// The file is complete.
    DownloadFinished,
    /// The background work failed with this message.
    Error(String),
}

/// What the fetch of the metadata reports to its item.
pub fn metadata_outcome(result: Result<ResourceMetadata, String>) -> (message:
    DownloadItemCommandOutput)
    ensures
        message == match result {
            Ok(meta) => DownloadItemCommandOutput::ResourceMetadata(meta),
            Err(error) => DownloadItemCommandOutput::Error(error),
        },
{
    match result {
        Ok(meta) => DownloadItemCommandOutput::ResourceMetadata(meta),
        Err(error) => DownloadItemCommandOutput::Error(error),
    }
}

/// What the download of one chunk reports to its item: that the chunk of
/// the download keyed by `file_hash` is written, or the error.
pub fn chunk_outcome(result: Result<(), String>, file_hash: String, num_of_chunks: u64) -> (message:
    DownloadItemCommandOutput)
    ensures
        message == match result {
            Ok(_) => DownloadItemCommandOutput::ChunkDownloaded(file_hash, num_of_chunks),
            Err(error) => DownloadItemCommandOutput::Error(error),
        },
{
    match result {
        Ok(_) => DownloadItemCommandOutput::ChunkDownloaded(file_hash, num_of_chunks),
        Err(error) => DownloadItemCommandOutput::Error(error),
    }
}

/// What a plain download or a merge reports to its item: that the file is
/// complete, or the error.
pub fn file_outcome(result: Result<(), String>) -> (message: DownloadItemCommandOutput)
    ensures
        message == match result {
            Ok(_) => DownloadItemCommandOutput::DownloadFinished,
            Err(error) => DownloadItemCommandOutput::Error(error),
        },
{
    match result {
        Ok(_) => DownloadItemCommandOutput::DownloadFinished,
        Err(error) => DownloadItemCommandOutput::Error(error),
    }
}

/// How the progress bar of an item moves.
#[derive(Debug, Clone, Copy, PartialEq, Eq)]
pub enum ProgressChange {
    /// It stays where it is.
    Unchanged,
    /// It moves by a tenth, for the metadata.
    MetadataReceived,
    /// It moves by eight tenths divided by the number of chunks, for one chunk.
    ChunkShare(u64),
    /// It is full.
    Complete,
}

/// A style class added to the subtitle of an item.
#[derive(Debug, Clone, Copy, PartialEq, Eq)]
pub enum SubtitleClass {
    Success,
    Error,
}

/// Work that a download item hands to the caller.
#[derive(Debug, Clone, PartialEq, Eq)]
pub enum DownloadTask {
    /// Ask for the metadata of the resource.
    FetchMetadata,
    /// Download one chunk into the cache, unless its file is already there.
    DownloadChunk {
        chunk_num: u64,
        num_of_chunks: u64,
        chunk_size: u64,
        file_hash: String,
        file_size: u64,
    },
    /// Download the whole resource into the named file.
    PlainDownload { filename: String },
    /// Concatenate the cached chunks into the named file.
    MergeChunks { filename: String, file_hash: String, num_of_chunks: u64 },
    /// Open the download directory.
    OpenDownloadDir,
}

/// What a download item does with the result of its background work.
#[derive(Debug, Clone, PartialEq, Eq)]
pub struct CommandReaction {
    /// How its progress bar moves.
    pub progress: ProgressChange,
    /// The message it sends to itself, if any.
    pub input: Option<DownloadItemInput>,
    /// The style class added to its subtitle, if any.
    pub subtitle_class: Option<SubtitleClass>,
    /// Whether its view is redrawn.
    pub refresh_view: bool,
}

/// The state of one download.
#[derive(Debug, PartialEq, Eq)]
pub struct DownloadItem {
    /// The name of the file that is written.
    pub filename: String,
    /// The line that tells the user what is going on.
    pub status: String,
    /// The resource.
    pub url: ParsedUrl,
    /// How many chunks have been written so far.
    pub chunks_downloaded: u64,
    /// Whether the file is complete.
    pub download_finished: bool,
}

/// The status shown while the metadata is fetched.
pub open spec fn metadata_status() -> Seq<char> {
    "Getting resource metadata..."@
}

/// The status shown once the file is complete.
pub open spec fn finished_status() -> Seq<char> {
    "Downloading finished!"@
}

/// The status shown while the chunks are downloaded.
pub open spec fn fragments_status() -> Seq<char> {
    "Downloading the resource fragments..."@
}

/// The status shown while the whole resource is downloaded.
pub open spec fn plain_status() -> Seq<char> {
    "Downloading the resource..."@
}

/// The status shown while the chunks are merged.
pub open spec fn merging_status() -> Seq<char> {
    "Merging the file fragments..."@
}

/// Whether a resource with this metadata is downloaded in chunks: its size
/// must be known and it must accept byte ranges.
pub open spec fn split_eligible(meta: ResourceMetadata) -> bool {
    meta.size is Some && meta.accept_ranges
}

/// A resource is downloaded in chunks only when its size is known and it
/// accepts byte ranges: one that refuses ranges, or whose size is unknown,
/// is downloaded whole, whatever its size.
pub proof fn lemma_split_needs_size_and_ranges(meta: ResourceMetadata)
    ensures
        split_eligible(meta) <==> (meta.size is Some && meta.accept_ranges),
        !meta.accept_ranges ==> !split_eligible(meta),
        meta.size is None ==> !split_eligible(meta),
{
}

/// One written chunk, out of `num_of_chunks`, seen by an item that had
/// counted `count` before: the new count, and whether the merge is asked for
/// (when the count reaches the number of chunks).
pub open spec fn chunk_written(count: nat, num_of_chunks: nat) -> (nat, bool) {
    (count + 1, count + 1 == num_of_chunks)
}

/// Whether the merge is asked for on each of `k` further written chunks,
/// starting from a count of `count`.
pub open spec fn merge_requests(count: nat, num_of_chunks: nat, k: nat) -> Seq<bool>
    decreases k,
{
    if k == 0 {
        Seq::empty()
    } else {
        seq![chunk_written(count, num_of_chunks).1] + merge_requests(
            chunk_written(count, num_of_chunks).0,
            num_of_chunks,
            (k - 1) as nat,
        )
    }
}

proof fn lemma_merge_requests_from(count: nat, num_of_chunks: nat, k: nat)
    ensures
        merge_requests(count, num_of_chunks, k) == Seq::new(
            k,
            |j: int| count + j + 1 == num_of_chunks,
        ),
    decreases k,
{
    if k > 0 {
        lemma_merge_requests_from(count + 1, num_of_chunks, (k - 1) as nat);
        assert(merge_requests(count, num_of_chunks, k) =~= Seq::new(
            k,
            |j: int| count + j + 1 == num_of_chunks,
        ));
    } else {
        assert(merge_requests(count, num_of_chunks, k) =~= Seq::new(
            k,
            |j: int| count + j + 1 == num_of_chunks,
        ));
    }
}

/// An item that starts with no chunk counted and is told of its
/// `num_of_chunks` written chunks asks for the merge exactly once: on the
/// last of them, and not before.
pub proof fn lemma_merge_requested_once_after_last_chunk(num_of_chunks: nat)
    requires
        num_of_chunks >= 1,
    ensures
        merge_requests(0, num_of_chunks, num_of_chunks) == Seq::new(
            num_of_chunks,
            |j: int| j == num_of_chunks - 1,
        ),
{
    lemma_merge_requests_from(0, num_of_chunks, num_of_chunks);
    assert(merge_requests(0, num_of_chunks, num_of_chunks) =~= Seq::new(
        num_of_chunks,
        |j: int| j == num_of_chunks - 1,
    ));
}

impl DownloadItem {
    /// A new item for `url`, with the task that starts it: fetching the
    /// metadata of the resource. The file is named after the last segment of
    /// the URL's path, or else after the current time. `None` only when the
    /// URL names no file and the clock cannot be read as a date.
    pub fn init_model(url: ParsedUrl) -> (res: Option<(DownloadItem, DownloadTask)>)
        ensures
            url_file_name_spec(url.path_text()) is Some ==> res is Some,
            res matches Some(r) ==> {
                &&& match url_file_name_spec(url.path_text()) {
                    Some(segment) => r.0.filename@ == segment,
                    None => is_time_file_name(r.0.filename@) && exists|now: Seq<char>|
                        #[trigger] is_clock_text(now) && r.0.filename@ == dashes_for_spaces(now),
                }
                &&& r.0.status@ == metadata_status()
                &&& r.0.url == url
                &&& r.0.chunks_downloaded == 0
                &&& !r.0.download_finished
                &&& r.1 == DownloadTask::FetchMetadata
            },
    {
        let filename = match get_filename(&url) {
            Some(name) => name,
            None => return None,
        };
        let item = DownloadItem {
            filename,
            status: String::from_str("Getting resource metadata..."),
            url,
            chunks_downloaded: 0,
            download_finished: false,
        };
        Some((item, DownloadTask::FetchMetadata))
    }

    /// Reacts to the result of background work.
    ///
    /// - The metadata moves the progress by a tenth and starts a download in
    ///   sixteen chunks when the size is known and ranges are accepted (the
    ///   view is then left as it is), a plain download otherwise.
    /// - A written chunk is counted and moves the progress by its share; the
    ///   merge is asked for when the count reaches the number of chunks.
    /// - The end of the download marks the item finished, with a full
    ///   progress bar and a success style.
    /// - An error becomes the status, with an error style.
    pub fn update_cmd(&mut self, message: DownloadItemCommandOutput) -> (reaction: CommandReaction)
        requires
            message is ChunkDownloaded ==> old(self).chunks_downloaded < u64::MAX,
        ensures
            final(self).filename == old(self).filename,
            final(self).url == old(self).url,
            match message {
                DownloadItemCommandOutput::ResourceMetadata(meta) => {
                    &&& *final(self) == *old(self)
                    &&& reaction.progress == ProgressChange::MetadataReceived
                    &&& reaction.subtitle_class is None
                    &&& if split_eligible(meta) {
                        &&& reaction.input == Some(
                            DownloadItemInput::SplitDownload {
                                file_size: meta.size->0,
                                num_of_chunks: SPLIT_CHUNK_COUNT,
                            },
                        )
                        &&& !reaction.refresh_view
                    } else {
                        &&& reaction.input == Some(DownloadItemInput::PlainDownload)
                        &&& reaction.refresh_view
                    }
                },
                DownloadItemCommandOutput::ChunkDownloaded(file_hash, num_of_chunks) => {
                    &&& final(self).chunks_downloaded == chunk_written(
                        old(self).chunks_downloaded as nat,
                        num_of_chunks as nat,
                    ).0
                    &&& final(self).status == old(self).status
                    &&& final(self).download_finished == old(self).download_finished
                    &&& reaction.progress == ProgressChange::ChunkShare(num_of_chunks)
                    &&& reaction.subtitle_class is None
                    &&& reaction.refresh_view
                    &&& if chunk_written(old(self).chunks_downloaded as nat, num_of_chunks as nat).1 {
                        reaction.input matches Some(DownloadItemInput::MergeChunks(hash, n))
                            && hash@ == file_hash@ && n == num_of_chunks
                    } else {
                        reaction.input is None
                    }
                },
                DownloadItemCommandOutput::DownloadFinished => {
                    &&& final(self).status@ == finished_status()
                    &&& final(self).download_finished
                    &&& final(self).chunks_downloaded == old(self).chunks_downloaded
                    &&& reaction.progress == ProgressChange::Complete
                    &&& reaction.subtitle_class == Some(SubtitleClass::Success)
                    &&& reaction.input is None
                    &&& reaction.refresh_view
                },
                DownloadItemCommandOutput::Error(error) => {
                    &&& final(self).status@ == error@
                    &&& final(self).download_finished == old(self).download_finished
                    &&& final(self).chunks_downloaded == old(self).chunks_downloaded
                    &&& reaction.progress == ProgressChange::Unchanged
                    &&& reaction.subtitle_class == Some(SubtitleClass::Error)
                    &&& reaction.input is None
                    &&& reaction.refresh_view
                },
            },
    {
        match message {
            DownloadItemCommandOutput::ResourceMetadata(meta) => {
                if let Some(size) = meta.size {
                    if meta.accept_ranges {
                        return CommandReaction {
                            progress: ProgressChange::MetadataReceived,
                            input: Some(
                                DownloadItemInput::SplitDownload {
                                    file_size: size,
                                    num_of_chunks: SPLIT_CHUNK_COUNT,
                                },
                            ),
                            subtitle_class: None,
                            refresh_view: false,
                        };
                    }
                }
                CommandReaction {
                    progress: ProgressChange::MetadataReceived,
                    input: Some(DownloadItemInput::PlainDownload),
                    subtitle_class: None,
                    refresh_view: true,
                }
            },
            DownloadItemCommandOutput::ChunkDownloaded(file_hash, num_of_chunks) => {
                self.chunks_downloaded = self.chunks_downloaded + 1;
                let input = if self.chunks_downloaded == num_of_chunks {
                    Some(DownloadItemInput::MergeChunks(file_hash, num_of_chunks))
                } else {
                    None
                };
                CommandReaction {
                    progress: ProgressChange::ChunkShare(num_of_chunks),
                    input,
                    subtitle_class: None,
                    refresh_view: true,
                }
            },
            DownloadItemCommandOutput::DownloadFinished => {
                self.status = String::from_str("Downloading finished!");
                self.download_finished = true;
                CommandReaction {
                    progress: ProgressChange::Complete,
                    input: None,
                    subtitle_class: Some(SubtitleClass::Success),
                    refresh_view: true,
                }
            },
            DownloadItemCommandOutput::Error(error) => {
                self.status = error;
                CommandReaction {
                    progress: ProgressChange::Unchanged,
                    input: None,
                    subtitle_class: Some(SubtitleClass::Error),
                    refresh_view: true,
                }
            },
        }
    }

    /// Reacts to a message from the parent or from itself, and returns the
    /// work to do. Only the status changes (and not on opening the file); the
    /// name, the URL, the chunk count and the finished flag stay as they were.
    ///
    /// - A split download starts one chunk download per chunk, all keyed by
    ///   the cache key of the URL and size.
    /// - A plain download downloads the resource into the item's file.
    /// - A merge concatenates the chunks into the item's file.
    /// - Opening the file opens the download directory.
    pub fn update(&mut self, message: DownloadItemInput) -> (tasks: Vec<DownloadTask>)
        requires
            message matches DownloadItemInput::SplitDownload { num_of_chunks, .. } ==> num_of_chunks
                > 0,
        ensures
            *final(self) == (DownloadItem { status: final(self).status, ..*old(self) }),
            match message {
                DownloadItemInput::SplitDownload { file_size, num_of_chunks } => {
                    &&& final(self).status@ == fragments_status()
                    &&& tasks@.len() == num_of_chunks
                    &&& forall|i: int|
                        0 <= i < num_of_chunks ==> (#[trigger] tasks@[i] matches DownloadTask::DownloadChunk {
                            chunk_num,
                            num_of_chunks: n,
                            chunk_size,
                            file_hash,
                            file_size: size,
                        } && chunk_num == i && n == num_of_chunks && chunk_size == chunk_size_spec(
                            file_size,
                            num_of_chunks,
                        ) && file_hash@ == base64_url_safe(
                            hash_input(file_size, old(self).url.text()),
                        ) && size == file_size)
                },
                DownloadItemInput::PlainDownload => {
                    &&& final(self).status@ == plain_status()
                    &&& tasks@.len() == 1
                    &&& tasks@[0] matches DownloadTask::PlainDownload { filename } && filename@
                        == old(self).filename@
                },
                DownloadItemInput::MergeChunks(file_hash, num_of_chunks) => {
                    &&& final(self).status@ == merging_status()
                    &&& tasks@.len() == 1
                    &&& tasks@[0] matches DownloadTask::MergeChunks {
                        filename,
                        file_hash: hash,
                        num_of_chunks: n,
                    } && filename@ == old(self).filename@ && hash@ == file_hash@ && n
                        == num_of_chunks
                },
                DownloadItemInput::OpenFile => {
                    &&& final(self).status == old(self).status
                    &&& tasks@ == seq![DownloadTask::OpenDownloadDir]
                },
            },
    {
        let mut tasks: Vec<DownloadTask> = Vec::new();
        match message {
            DownloadItemInput::SplitDownload { file_size, num_of_chunks } => {
                self.status = String::from_str("Downloading the resource fragments...");
                let file_hash = get_hash(file_size, &self.url);
                let size = chunk_size(file_size, num_of_chunks);
                let mut chunk_num: u64 = 0;
                while chunk_num < num_of_chunks
                    invariant
                        chunk_num <= num_of_chunks,
                        tasks@.len() == chunk_num,
                        size == chunk_size_spec(file_size, num_of_chunks),
                        file_hash@ == base64_url_safe(hash_input(file_size, self.url.text())),
                        forall|i: int|
                            0 <= i < chunk_num ==> (#[trigger] tasks@[i] matches DownloadTask::DownloadChunk {
                                chunk_num: c,
                                num_of_chunks: n,
                                chunk_size,
                                file_hash: h,
                                file_size: s,
                            } && c == i && n == num_of_chunks && chunk_size == size && h@
                                == file_hash@ && s == file_size),
                    decreases num_of_chunks - chunk_num,
                {
                    tasks.push(
                        DownloadTask::DownloadChunk {
                            chunk_num,
                            num_of_chunks,
                            chunk_size: size,
                            file_hash: file_hash.clone(),
                            file_size,
                        },
                    );
                    chunk_num = chunk_num + 1;
                }
            },
            DownloadItemInput::PlainDownload => {
                self.status = String::from_str("Downloading the resource...");
                tasks.push(DownloadTask::PlainDownload { filename: self.filename.clone() });
            },
            DownloadItemInput::MergeChunks(file_hash, num_of_chunks) => {
                self.status = String::from_str("Merging the file fragments...");
                tasks.push(
                    DownloadTask::MergeChunks {
                        filename: self.filename.clone(),
                        file_hash,
                        num_of_chunks,
                    },
                );
            },
            DownloadItemInput::OpenFile => {
                tasks.push(DownloadTask::OpenDownloadDir);
            },
        }
        tasks
    }
}

} // verus!
