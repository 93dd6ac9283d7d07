//! Download staging: the ordered image records and the 1-based, gap-free
//! local file naming they are staged under.

use vstd::prelude::*;
use vstd::string::StringExecFns;

use crate::digits::{dec_digits, u64_to_string};

verus! {

/// One image to stage: its position in the extracted list, its source
/// URL, and the local path its bytes go to. The position determines the
/// name, so insertion order is semantically meaningful.
#[derive(Debug, Clone, PartialEq)]
pub struct ImageRecord {
    pub index: usize,
    pub source_url: String,
    pub local_path: String,
}

/// The staged file name of the image at 0-based position `i`: names are
/// 1-based and contiguous.
pub open spec fn image_file_name(i: nat) -> Seq<char> {
    "image"@ + dec_digits(i + 1) + ".jpg"@
}

/// The full local path of the image at position `i` under `dir`.
pub open spec fn staged_path(dir: Seq<char>, i: nat) -> Seq<char> {
    dir + "/"@ + image_file_name(i)
}

/// Pair each extracted URL, in order, with the local path its bytes are
/// to be written to.
pub fn download_plan(urls: &Vec<String>, dir: &str) -> (records: Vec<ImageRecord>)
    ensures
        records.len() == urls.len(),
        forall|i: int|
            0 <= i < urls.len() ==> {
                &&& (#[trigger] records@[i]).index == i
                &&& records@[i].source_url@ == urls@[i]@
                &&& records@[i].local_path@ == staged_path(dir@, i as nat)
            },
{
    let mut records: Vec<ImageRecord> = Vec::new();
    let n = urls.len();
    for i in 0..n
        invariant
            n == urls.len(),
            records.len() == i,
            forall|k: int|
                0 <= k < i ==> {
                    &&& (#[trigger] records@[k]).index == k
                    &&& records@[k].source_url@ == urls@[k]@
                    &&& records@[k].local_path@ == staged_path(dir@, k as nat)
                },
    {
        let number = u64_to_string((i as u64) + 1);
        let mut path = dir.to_owned();
        path.append("/");
        path.append("image");
        path.append(number.as_str());
        path.append(".jpg");
        records.push(
            ImageRecord { index: i, source_url: urls[i].clone(), local_path: path },
        );
    }
    records
}

} // verus!
