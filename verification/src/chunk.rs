//! Splitting a resource into chunks that are downloaded on their own and then
//! merged.
use vstd::prelude::*;
use vstd::string::*;
use crate::decimal::{decimal_digits, lemma_decimal_digits_injective, u64_to_decimal};

verus! {

/// The number of chunks a resource is split into.
pub const SPLIT_CHUNK_COUNT: u64 = 16;

/// The name of the directory, under the user's cache directory, that holds
/// the chunks of all downloads.
pub open spec fn cache_dir_name() -> Seq<char> {
    "datafall"@
}

/// The name of the directory, under the user's cache directory, that holds
/// the chunks of all downloads: `datafall`.
pub fn cache_dir() -> (name: String)
    ensures
        name@ == cache_dir_name(),
{
    String::from_str("datafall")
}

/// The product `chunk_size * chunk_num`: where chunk `chunk_num` starts.
pub open spec fn chunk_start(chunk_num: int, chunk_size: int) -> int {
    chunk_size * chunk_num
}

/// Where chunk `chunk_num` ends, before the last chunk's correction.
pub open spec fn chunk_plain_end(chunk_num: int, chunk_size: int) -> int {
    chunk_size * (chunk_num + 1) - 1
}

/// The bytes that the last chunk adds to its end: what the rounding down of
/// the chunk size leaves over, reckoned over sixteen chunks.
pub open spec fn last_chunk_extra(chunk_size: int, file_size: int) -> int {
    file_size - chunk_size * 16 + 1
}

/// The inputs on which the range of a chunk can be computed: the chunk
/// exists, and no step of the computation leaves the `u64` range.
pub open spec fn chunk_range_defined(
    chunk_num: u64,
    num_of_chunks: u64,
    chunk_size: u64,
    file_size: u64,
) -> bool {
    &&& chunk_num < num_of_chunks
    &&& chunk_start(chunk_num as int, chunk_size as int) <= u64::MAX
    &&& chunk_size * (chunk_num + 1) <= u64::MAX
    &&& chunk_size * (chunk_num + 1) >= 1
    &&& chunk_num == num_of_chunks - 1 ==> {
        &&& chunk_size * 16 <= u64::MAX
        &&& chunk_size * 16 <= file_size
        &&& last_chunk_extra(chunk_size as int, file_size as int) <= u64::MAX
        &&& chunk_plain_end(chunk_num as int, chunk_size as int) + last_chunk_extra(
            chunk_size as int,
            file_size as int,
        ) <= u64::MAX
    }
}

/// The inclusive byte range `(start, end)` of chunk `chunk_num`: chunks are
/// `chunk_size` bytes long, and the last one also takes what the rounding
/// down of the chunk size left over.
pub open spec fn chunk_range_spec(
    chunk_num: u64,
    num_of_chunks: u64,
    chunk_size: u64,
    file_size: u64,
) -> (int, int) {
    let start = chunk_start(chunk_num as int, chunk_size as int);
    let end = chunk_plain_end(chunk_num as int, chunk_size as int);
    if chunk_num == num_of_chunks - 1 {
        (start, end + last_chunk_extra(chunk_size as int, file_size as int))
    } else {
        (start, end)
    }
}

/// The inclusive byte range of chunk `chunk_num` of `num_of_chunks` chunks of
/// `chunk_size` bytes of a file of `file_size` bytes.
pub fn chunk_range(chunk_num: u64, num_of_chunks: u64, chunk_size: u64, file_size: u64) -> (range: (
    u64,
    u64,
))
    requires
        chunk_range_defined(chunk_num, num_of_chunks, chunk_size, file_size),
    ensures
        (range.0 as int, range.1 as int) == chunk_range_spec(
            chunk_num,
            num_of_chunks,
            chunk_size,
            file_size,
        ),
{
    let start = chunk_size * chunk_num;
    let mut end = (chunk_size * (chunk_num + 1)) - 1;
    if chunk_num == num_of_chunks - 1 {
        end += file_size - chunk_size * 16 + 1;
    }
    (start, end)
}

/// Whether `chunk_range` can be called on these inputs.
pub fn chunk_range_is_defined(chunk_num: u64, num_of_chunks: u64, chunk_size: u64, file_size: u64) -> (ok:
    bool)
    ensures
        ok == chunk_range_defined(chunk_num, num_of_chunks, chunk_size, file_size),
{
    if chunk_num >= num_of_chunks {
        return false;
    }
    let next = chunk_num + 1;
    let start = chunk_size.checked_mul(chunk_num);
    let next_start = chunk_size.checked_mul(next);
    if start.is_none() || next_start.is_none() {
        assert(chunk_size * chunk_num <= chunk_size * next) by (nonlinear_arith)
            requires
                next == chunk_num + 1,
        ;
        return false;
    }
    let end_plus_one = next_start.unwrap();
    if end_plus_one == 0 {
        return false;
    }
    if chunk_num == num_of_chunks - 1 {
        let full = chunk_size.checked_mul(16);
        match full {
            None => return false,
            Some(full) => {
                if full > file_size {
                    return false;
                }
                let rest = file_size - full;
                if rest == u64::MAX {
                    return false;
                }
                let extra = rest + 1;
                if (end_plus_one - 1) > u64::MAX - extra {
                    return false;
                }
            },
        }
    }
    true
}

/// The name of the file that holds chunk `chunk_num`.
pub open spec fn chunk_file_name_spec(chunk_num: u64) -> Seq<char> {
    "part"@ + decimal_digits(chunk_num as nat) + ".fragment"@
}

/// The name of the file that holds chunk `chunk_num`: `part{chunk_num}.fragment`.
pub fn chunk_file_name(chunk_num: u64) -> (name: String)
    ensures
        name@ == chunk_file_name_spec(chunk_num),
{
    let mut name = String::from_str("part");
    let digits = u64_to_decimal(chunk_num);
    name.append(digits.as_str());
    name.append(".fragment");
    name
}

/// The path of the file of chunk `chunk_num` of the download keyed by
/// `file_hash`, relative to the user's cache directory, as its components:
/// `datafall`, the key, then the chunk's file name.
pub fn chunk_path_components(file_hash: &str, chunk_num: u64) -> (components: Vec<String>)
    ensures
        components@.len() == 3,
        components@[0]@ == cache_dir_name(),
        components@[1]@ == file_hash@,
        components@[2]@ == chunk_file_name_spec(chunk_num),
{
    let mut components: Vec<String> = Vec::new();
    components.push(cache_dir());
    components.push(String::from_str(file_hash));
    components.push(chunk_file_name(chunk_num));
    components
}

/// Distinct chunks are kept in distinct files.
pub proof fn lemma_chunk_file_names_distinct(a: u64, b: u64)
    requires
        a != b,
    ensures
        chunk_file_name_spec(a) != chunk_file_name_spec(b),
{
    if chunk_file_name_spec(a) == chunk_file_name_spec(b) {
        let da = decimal_digits(a as nat);
        let db = decimal_digits(b as nat);
        let sa = chunk_file_name_spec(a);
        let sb = chunk_file_name_spec(b);
        reveal_strlit("part");
        reveal_strlit(".fragment");
        assert(sa.len() == 4 + da.len() + 9);
        assert(sb.len() == 4 + db.len() + 9);
        assert(da =~= sa.subrange(4, 4 + da.len() as int));
        assert(db =~= sb.subrange(4, 4 + db.len() as int));
        lemma_decimal_digits_injective(a, b);
    }
}

/// The size of each chunk when `file_size` bytes are split into
/// `num_of_chunks` chunks (rounded down; the last chunk takes the rest).
pub open spec fn chunk_size_spec(file_size: u64, num_of_chunks: u64) -> u64 {
    (file_size / num_of_chunks) as u64
}

/// The size of each chunk when `file_size` bytes are split into
/// `num_of_chunks` chunks.
pub fn chunk_size(file_size: u64, num_of_chunks: u64) -> (size: u64)
    requires
        num_of_chunks > 0,
    ensures
        size == chunk_size_spec(file_size, num_of_chunks),
{
    file_size / num_of_chunks
}

/// Split into sixteen chunks, a resource of at least sixteen bytes is covered
/// by its chunks without gap or overlap: every chunk's range can be computed
/// and is not empty, the first starts at byte 0, each starts right after the
/// one before it ends, and the last ends at `file_size`, one past the last
/// byte of the resource (ranges are inclusive, so the last range asks for one
/// byte more than there is).
pub proof fn lemma_split_chunks_tile_the_file(file_size: u64)
    requires
        file_size >= 16,
    ensures
        forall|i: u64|
            i < 16 ==> #[trigger] chunk_range_defined(i, 16, chunk_size_spec(file_size, 16), file_size),
        forall|i: u64|
            i < 16 ==> #[trigger] chunk_range_spec(i, 16, chunk_size_spec(file_size, 16), file_size).0
                <= chunk_range_spec(i, 16, chunk_size_spec(file_size, 16), file_size).1,
        chunk_range_spec(0, 16, chunk_size_spec(file_size, 16), file_size).0 == 0,
        forall|i: u64|
            i < 15 ==> #[trigger] chunk_range_spec(i, 16, chunk_size_spec(file_size, 16), file_size).1
                + 1 == chunk_range_spec((i + 1) as u64, 16, chunk_size_spec(file_size, 16), file_size).0,
        chunk_range_spec(15, 16, chunk_size_spec(file_size, 16), file_size).1 == file_size,
{
    let cs = chunk_size_spec(file_size, 16);
    assert(cs * 16 <= file_size && file_size < cs * 16 + 16 && cs >= 1) by (nonlinear_arith)
        requires
            cs == file_size / 16,
            file_size >= 16,
    ;
    assert forall|i: u64| i < 16 implies #[trigger] chunk_range_defined(i, 16, cs, file_size) by {
        assert(cs * i <= cs * (i + 1) && cs * (i + 1) == cs * i + cs && cs * (i + 1) <= cs * 16)
            by (nonlinear_arith)
            requires
                i < 16,
                cs >= 1,
        ;
    }
    assert forall|i: u64| i < 16 implies #[trigger] chunk_range_spec(i, 16, cs, file_size).0
        <= chunk_range_spec(i, 16, cs, file_size).1 by {
        assert(cs * i <= cs * (i + 1) && cs * (i + 1) == cs * i + cs && cs * (i + 1) <= cs * 16)
            by (nonlinear_arith)
            requires
                i < 16,
                cs >= 1,
        ;
    }
    assert forall|i: u64| i < 15 implies #[trigger] chunk_range_spec(i, 16, cs, file_size).1 + 1
        == chunk_range_spec((i + 1) as u64, 16, cs, file_size).0 by {
        assert(cs * (i + 1) >= 1) by (nonlinear_arith)
            requires
                cs >= 1,
        ;
    }
    assert(chunk_range_spec(0, 16, cs, file_size).0 == 0) by (nonlinear_arith);
}

/// Chunk `k` of `n` starts `chunk_size * k` bytes into the file; every
/// chunk but the last is exactly `chunk_size` bytes long and is followed
/// directly by the next one; and the last of sixteen chunks ends at
/// `file_size`.
pub proof fn lemma_chunk_ranges_are_blocks(
    chunk_num: u64,
    num_of_chunks: u64,
    chunk_size: u64,
    file_size: u64,
)
    requires
        chunk_num < num_of_chunks,
    ensures
        chunk_range_spec(chunk_num, num_of_chunks, chunk_size, file_size).0 == chunk_size * chunk_num,
        chunk_num + 1 < num_of_chunks ==> chunk_range_spec(
            chunk_num,
            num_of_chunks,
            chunk_size,
            file_size,
        ).1 - chunk_range_spec(chunk_num, num_of_chunks, chunk_size, file_size).0 + 1 == chunk_size,
        chunk_num + 1 < num_of_chunks ==> chunk_range_spec(
            chunk_num,
            num_of_chunks,
            chunk_size,
            file_size,
        ).1 + 1 == chunk_range_spec(
            (chunk_num + 1) as u64,
            num_of_chunks,
            chunk_size,
            file_size,
        ).0,
        chunk_num + 1 == num_of_chunks && num_of_chunks == 16 ==> chunk_range_spec(
            chunk_num,
            num_of_chunks,
            chunk_size,
            file_size,
        ).1 == file_size,
{
    assert(chunk_size * (chunk_num + 1) == chunk_size * chunk_num + chunk_size) by (nonlinear_arith);
    if chunk_num + 1 == num_of_chunks && num_of_chunks == 16 {
        assert(chunk_size * (chunk_num + 1) == chunk_size * 16) by (nonlinear_arith)
            requires
                chunk_num == 15,
        ;
    }
}

} // verus!
