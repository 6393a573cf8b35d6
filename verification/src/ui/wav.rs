//! The recent tail of the recording the overlay draws: where to read it in
//! a growing mono 16-bit little-endian WAV file, and its samples.

use vstd::prelude::*;

verus! {

/// Bytes of the WAV header before the samples.
pub const WAV_HEADER_BYTES: u64 = 44;

/// Samples the overlay reads from the end of the recording.
pub const RECENT_SAMPLE_COUNT: u64 = 2816;

/// Where the last `sample_count` samples of a file of `size` bytes start,
/// and how many bytes to read: never inside the header, and at an even
/// offset so that every sample is read whole. `None` when the file holds
/// no samples yet.
pub open spec fn spec_recent_window(size: int, sample_count: int) -> Option<(int, int)> {
    if size <= WAV_HEADER_BYTES {
        None
    } else {
        let byte_count = if sample_count * 2 <= size - WAV_HEADER_BYTES {
            sample_count * 2
        } else {
            size - WAV_HEADER_BYTES
        };
        let start = if size - byte_count >= WAV_HEADER_BYTES { size - byte_count } else { WAV_HEADER_BYTES as int };
        Some((if start % 2 == 0 { start } else { start + 1 }, byte_count))
    }
}

pub fn recent_window(size: u64, sample_count: u64) -> (window: Option<(u64, u64)>)
    requires
        sample_count <= u64::MAX / 2,
        size < u64::MAX,
    ensures
        match window {
            Some((offset, byte_count)) => spec_recent_window(size as int, sample_count as int) == Some(
                (offset as int, byte_count as int),
            ),
            None => spec_recent_window(size as int, sample_count as int) is None,
        },
{
    if size <= WAV_HEADER_BYTES {
        return None;
    }
    let available = size - WAV_HEADER_BYTES;
    let byte_count = if sample_count * 2 <= available { sample_count * 2 } else { available };
    let start = if size - byte_count >= WAV_HEADER_BYTES { size - byte_count } else { WAV_HEADER_BYTES };
    let offset = if start % 2 == 0 { start } else { start + 1 };
    Some((offset, byte_count))
}

/// The signed 16-bit sample of two little-endian bytes.
pub open spec fn le_sample(low: u8, high: u8) -> int {
    let v = low + 256 * high;
    if v >= 32768 { v - 65536 } else { v }
}

/// The samples of `bytes`, two bytes each; an odd last byte is dropped.
pub fn pcm_samples(bytes: &[u8]) -> (samples: Vec<i16>)
    ensures
        samples@.len() == bytes@.len() / 2,
        forall|k: int| 0 <= k < samples@.len() ==> #[trigger] samples@[k] as int == le_sample(
            bytes@[2 * k],
            bytes@[2 * k + 1],
        ),
{
    let mut samples: Vec<i16> = Vec::new();
    let len = bytes.len();
    let count = len / 2;
    let mut k: usize = 0;
    while k < count
        invariant
            count == bytes@.len() / 2,
            len == bytes@.len(),
            2 * count <= len,
            k <= count,
            samples@.len() == k,
            forall|j: int| 0 <= j < k ==> #[trigger] samples@[j] as int == le_sample(bytes@[2 * j], bytes@[2 * j + 1]),
        decreases count - k,
    {
        let low = bytes[2 * k] as i32;
        let high = bytes[2 * k + 1] as i32;
        let v = low + 256 * high;
        let sample = if v >= 32768 { (v - 65536) as i16 } else { v as i16 };
        samples.push(sample);
        k += 1;
    }
    samples
}

} // verus!
