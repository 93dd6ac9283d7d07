//! Storage-folder allocation and upload naming: parse the remote listing,
//! find the highest folder number, allocate the next one, and name the
//! uploaded objects and the reported final path.
//!
//! Scan-based allocation is a read-then-act sequence with no reservation
//! step, so concurrent scans collide; the counter type is the coordinated
//! allocator that repairs this.

use vstd::prelude::*;
use vstd::string::StrSliceExecFns;
use vstd::string::StringExecFns;

use crate::digits::{dec_digits, parse_dec, parse_u64, u64_to_string};
use crate::text::{occurs_at, trim_trailing, trim_trailing_char};

verus! {

/// The part of `s` after its last path separator, or all of it.
pub open spec fn last_segment(s: Seq<char>) -> Seq<char>
    decreases s.len(),
{
    if s.len() == 0 {
        s
    } else if s.last() == '/' {
        Seq::empty()
    } else {
        last_segment(s.drop_last()).push(s.last())
    }
}

/// With no separator at or after `idx` and one (or the start) just before
/// it, the last segment is exactly the suffix from `idx`.
proof fn lemma_last_segment_suffix(s: Seq<char>, idx: int)
    requires
        0 <= idx <= s.len(),
        forall|k: int| idx <= k < s.len() ==> s[k] != '/',
        idx == 0 || s[idx - 1] == '/',
    ensures
        last_segment(s) == s.subrange(idx, s.len() as int),
    decreases s.len(),
{
    if s.len() == 0 {
        assert(s.subrange(0, 0) =~= s);
    } else if idx == s.len() {
        assert(s.last() == '/');
        assert(s.subrange(idx, s.len() as int) =~= Seq::<char>::empty());
    } else {
        assert(s.last() != '/');
        lemma_last_segment_suffix(s.drop_last(), idx);
        assert(last_segment(s) == s.drop_last().subrange(idx, s.len() - 1).push(s.last()));
        assert(s.drop_last().subrange(idx, s.len() - 1).push(s.last()) =~= s.subrange(
            idx,
            s.len() as int,
        ));
    }
}

/// Executable last path segment.
pub fn last_segment_exec<'a>(s: &'a str) -> (r: &'a str)
    ensures
        r@ == last_segment(s@),
{
    let n: usize = s.unicode_len();
    let mut idx: usize = n;
    while idx > 0 && s.get_char(idx - 1) != '/'
        invariant
            n == s@.len(),
            idx <= n,
            forall|k: int| idx <= k < n ==> s@[k] != '/',
        decreases idx,
    {
        idx = idx - 1;
    }
    proof {
        lemma_last_segment_suffix(s@, idx as int);
    }
    s.substring_char(idx, n)
}

/// The folder number a remote listing group name carries: its last path
/// segment, after trailing separators are dropped, read as a decimal.
pub open spec fn folder_number_of(prefix: Seq<char>) -> Option<u64> {
    parse_dec(last_segment(trim_trailing(prefix, '/')))
}

/// Parse a remote group name such as `images/5/` as its folder number.
pub fn parse_folder_number(prefix: &str) -> (r: Option<u64>)
    ensures
        r == folder_number_of(prefix@),
{
    let trimmed = trim_trailing_char(prefix, '/');
    let segment = last_segment_exec(trimmed);
    parse_u64(segment)
}

/// The highest folder number a listing mentions, with zero when it names
/// none.
pub open spec fn latest_folder(prefixes: Seq<Seq<char>>) -> u64
    decreases prefixes.len(),
{
    if prefixes.len() == 0 {
        0
    } else {
        let rest = latest_folder(prefixes.drop_last());
        match folder_number_of(prefixes.last()) {
            Some(m) => if m > rest {
                m
            } else {
                rest
            },
            None => rest,
        }
    }
}

/// Determine the highest existing folder number from the remote listing's
/// group names; group names that parse as no number are passed over.
pub fn get_latest_folder_number(prefixes: &Vec<String>) -> (r: u64)
    ensures
        r == latest_folder(prefixes.deep_view()),
{
    let mut best: u64 = 0;
    let n = prefixes.len();
    proof {
        assert(prefixes.deep_view().take(0) =~= Seq::<Seq<char>>::empty());
    }
    for i in 0..n
        invariant
            n == prefixes.len(),
            prefixes.deep_view().len() == n,
            forall|k: int| 0 <= k < n ==> #[trigger] prefixes.deep_view()[k] == prefixes@[k]@,
            best == latest_folder(prefixes.deep_view().take(i as int)),
    {
        proof {
            assert(prefixes.deep_view().take(i + 1).drop_last() =~= prefixes.deep_view().take(
                i as int,
            ));
            assert(prefixes.deep_view().take(i + 1).last() == prefixes@[i as int]@);
        }
        match parse_folder_number(prefixes[i].as_str()) {
            Some(m) => {
                if m > best {
                    best = m;
                }
            },
            None => {},
        }
    }
    proof {
        assert(prefixes.deep_view().take(n as int) =~= prefixes.deep_view());
    }
    best
}

/// The folder number scan-based allocation hands a job that saw this
/// listing: one past the highest existing number.
pub open spec fn scan_allocation(prefixes: Seq<Seq<char>>) -> int {
    latest_folder(prefixes) + 1
}

/// Allocate by scanning: list, take the maximum, add one. There is no
/// reservation step, so two jobs that scan the same listing are handed
/// the same number.
pub fn scan_allocate(prefixes: &Vec<String>) -> (r: u64)
    requires
        latest_folder(prefixes.deep_view()) < u64::MAX,
    ensures
        r == scan_allocation(prefixes.deep_view()),
{
    get_latest_folder_number(prefixes) + 1
}

/// Scan-based allocation is a pure function of the listing it read: two
/// jobs whose scans saw the same listing are handed the same folder
/// number, never distinct ones. This is the collision the coordinated
/// counter exists to rule out.
pub proof fn lemma_scan_allocations_collide(prefixes: Seq<Seq<char>>, n1: int, n2: int)
    requires
        n1 == scan_allocation(prefixes),
        n2 == scan_allocation(prefixes),
    ensures
        n1 == n2,
{
}

/// A coordinated folder allocator: a counter whose increment is atomic
/// with the read, so each allocation is unique.
#[derive(Debug, Clone, Copy, PartialEq, Eq, Structural)]
pub struct FolderCounter {
    pub next: u64,
}

/// One allocation step: the job is handed `n` and the counter moves past
/// it.
pub open spec fn allocation_step(pre: FolderCounter, post: FolderCounter, n: u64) -> bool {
    n == pre.next && post.next == pre.next + 1
}

impl FolderCounter {
    /// Bootstrap the counter from a scan of the existing listing.
    pub fn from_listing(prefixes: &Vec<String>) -> (c: FolderCounter)
        requires
            latest_folder(prefixes.deep_view()) < u64::MAX,
        ensures
            c.next == scan_allocation(prefixes.deep_view()),
    {
        FolderCounter { next: scan_allocate(prefixes) }
    }

    /// Hand out the next folder number and move the counter past it.
    pub fn allocate(&mut self) -> (n: u64)
        requires
            old(self).next < u64::MAX,
        ensures
            allocation_step(*old(self), *final(self), n),
    {
        let n = self.next;
        self.next = self.next + 1;
        n
    }
}

/// Two allocations drawn in sequence from one coordinated counter are
/// distinct: the second is one past the first.
pub proof fn lemma_counter_allocations_distinct(
    s0: FolderCounter,
    s1: FolderCounter,
    s2: FolderCounter,
    n1: u64,
    n2: u64,
)
    requires
        allocation_step(s0, s1, n1),
        allocation_step(s1, s2, n2),
    ensures
        n2 == n1 + 1,
        n1 != n2,
{
}

/// The remote object key of the file at 0-based upload position
/// `counter` in folder `folder`.
pub open spec fn upload_key_seq(folder: u64, counter: nat) -> Seq<char> {
    "images/"@ + dec_digits(folder as nat) + "/image"@ + dec_digits(counter) + ".jpg"@
}

/// Build the remote object key for one uploaded file.
pub fn upload_key(folder: u64, counter: u64) -> (k: String)
    ensures
        k@ == upload_key_seq(folder, counter as nat),
{
    let mut k = String::new();
    k.append("images/");
    let f = u64_to_string(folder);
    k.append(f.as_str());
    k.append("/image");
    let c = u64_to_string(counter);
    k.append(c.as_str());
    k.append(".jpg");
    k
}

/// Pair each staged local path, in the given order, with the remote key
/// it is uploaded to; the per-file counter starts at zero.
pub fn upload_plan(folder: u64, files: &Vec<String>) -> (pairs: Vec<(String, String)>)
    requires
        files.len() <= u64::MAX,
    ensures
        pairs.len() == files.len(),
        forall|i: int|
            0 <= i < files.len() ==> {
                &&& (#[trigger] pairs@[i]).0@ == files@[i]@
                &&& pairs@[i].1@ == upload_key_seq(folder, i as nat)
            },
{
    let mut pairs: Vec<(String, String)> = Vec::new();
    let n = files.len();
    for i in 0..n
        invariant
            n == files.len(),
            n <= u64::MAX,
            pairs.len() == i,
            forall|k: int|
                0 <= k < i ==> {
                    &&& (#[trigger] pairs@[k]).0@ == files@[k]@
                    &&& pairs@[k].1@ == upload_key_seq(folder, k as nat)
                },
    {
        let key = upload_key(folder, i as u64);
        pairs.push((files[i].clone(), key));
    }
    pairs
}

/// What one finished upload batch reports: its folder, how many files it
/// wrote, and the path of the last object written.
#[derive(Debug, Clone, PartialEq)]
pub struct UploadManifest {
    pub folder_number: u64,
    pub file_count: usize,
    pub final_image_path: String,
}

/// The reported final path: the `s3://` address of the last uploaded
/// object of the batch.
pub open spec fn final_path_seq(bucket: Seq<char>, folder: u64, count: nat) -> Seq<char>
    recommends
        count >= 1,
{
    "s3://"@ + bucket + "/"@ + upload_key_seq(folder, (count - 1) as nat)
}

/// Build the notification path for a batch that wrote `count` files;
/// only the last object's path is reported.
pub fn final_image_path(bucket: &str, folder: u64, count: usize) -> (p: String)
    requires
        1 <= count <= u64::MAX,
    ensures
        p@ == final_path_seq(bucket@, folder, count as nat),
{
    let mut p = String::new();
    p.append("s3://");
    p.append(bucket);
    p.append("/");
    let key = upload_key(folder, (count - 1) as u64);
    p.append(key.as_str());
    p
}

/// The image position a staged file name encodes: the decimal between
/// the fixed `image` prefix and `.jpg` suffix, if the name has that
/// shape.
pub open spec fn image_index_of_name(name: Seq<char>) -> Option<u64> {
    if name.len() >= "image"@.len() + ".jpg"@.len() && name.subrange(0, "image"@.len() as int)
        == "image"@ && name.subrange(name.len() - ".jpg"@.len(), name.len() as int) == ".jpg"@ {
        parse_dec(name.subrange("image"@.len() as int, name.len() - ".jpg"@.len()))
    } else {
        None
    }
}

/// Read the image position out of a staged file name.
pub fn parse_image_index(name: &str) -> (r: Option<u64>)
    ensures
        r == image_index_of_name(name@),
{
    proof {
        reveal_strlit("image");
        reveal_strlit(".jpg");
    }
    let n: usize = name.unicode_len();
    if n < 9 {
        return None;
    }
    if !occurs_at(name, "image", 0) {
        return None;
    }
    if !occurs_at(name, ".jpg", n - 4) {
        return None;
    }
    let middle = name.substring_char(5, n - 4);
    parse_u64(middle)
}

/// The numeric suffix of a staged file name known to carry one.
pub open spec fn staged_key(name: Seq<char>) -> u64 {
    image_index_of_name(name).unwrap()
}

/// Every name encodes an image position.
pub open spec fn all_staged(names: Seq<Seq<char>>) -> bool {
    forall|i: int| 0 <= i < names.len() ==> (#[trigger] image_index_of_name(names[i])) is Some
}

/// The names are ordered by the image positions they encode.
pub open spec fn sorted_by_image_index(names: Seq<Seq<char>>) -> bool {
    forall|a: int, b: int|
        0 <= a < b < names.len() ==> staged_key(names[a]) <= staged_key(names[b])
}

/// The numeric suffix of one staged name.
fn staged_key_exec(name: &str) -> (k: u64)
    requires
        image_index_of_name(name@) is Some,
    ensures
        k == staged_key(name@),
{
    match parse_image_index(name) {
        Some(k) => k,
        None => {
            proof {
                assert(false);
            }
            0
        },
    }
}

/// The position the name at `i` belongs at among the sorted first `i`
/// names: the first spot whose predecessor's key is no greater.
fn insertion_point(v: &Vec<String>, i: usize, key: u64) -> (p: usize)
    requires
        i < v.len(),
        forall|k: int| 0 <= k < v.len() ==> image_index_of_name(#[trigger] v@[k]@) is Some,
    ensures
        p <= i,
        forall|k: int| p <= k < i ==> staged_key(#[trigger] v@[k]@) > key,
        p > 0 ==> staged_key(v@[p - 1]@) <= key,
{
    let mut p: usize = i;
    while p > 0
        invariant
            p <= i < v.len(),
            forall|k: int| 0 <= k < v.len() ==> image_index_of_name(#[trigger] v@[k]@) is Some,
            forall|k: int| p <= k < i ==> staged_key(#[trigger] v@[k]@) > key,
        decreases p,
    {
        let prev = staged_key_exec(v[p - 1].as_str());
        if prev <= key {
            return p;
        }
        p = p - 1;
    }
    0
}

/// Order staged file names by the image position in the name, so that an
/// upload reproduces the intended image order whatever order the
/// filesystem listed the files in.
pub fn sort_staged_files(names: &Vec<String>) -> (r: Vec<String>)
    requires
        forall|k: int| 0 <= k < names.len() ==> image_index_of_name(#[trigger] names@[k]@) is Some,
    ensures
        r@.len() == names@.len(),
        sorted_by_image_index(r.deep_view()),
        r@.to_multiset() == names@.to_multiset(),
{
    let n = names.len();
    let mut v: Vec<String> = Vec::new();
    for i in 0..n
        invariant
            n == names.len(),
            v@ == names@.take(i as int),
    {
        v.push(names[i].clone());
        proof {
            assert(v@ =~= names@.take(i + 1));
        }
    }
    proof {
        assert(names@.take(n as int) =~= names@);
    }
    let mut i: usize = 0;
    while i < n
        invariant
            n == v.len(),
            i <= n,
            v@.to_multiset() == names@.to_multiset(),
            forall|k: int| 0 <= k < n ==> image_index_of_name(#[trigger] v@[k]@) is Some,
            forall|a: int, b: int|
                0 <= a < b < i ==> staged_key(v@[a]@) <= staged_key(v@[b]@),
        decreases n - i,
    {
        let key = staged_key_exec(v[i].as_str());
        let p = insertion_point(&v, i, key);
        let ghost pre = v@;
        let x = v.remove(i);
        let ghost mid = v@;
        v.insert(p, x);
        proof {
            broadcast use vstd::seq_lib::group_to_multiset_ensures;

            assert(mid.to_multiset() =~= pre.to_multiset().remove(x));
            assert(v@.to_multiset() =~= mid.to_multiset().insert(x));
            assert(pre.contains(x)) by {
                assert(pre[i as int] == x);
            }
            assert(pre.to_multiset().count(x) > 0);
            assert(v@.to_multiset() =~= pre.to_multiset());

            assert forall|k: int| 0 <= k < n implies image_index_of_name(
                #[trigger] v@[k]@,
            ) is Some by {
                if k < p {
                    assert(v@[k] == pre[k]);
                } else if k == p {
                    assert(v@[k] == pre[i as int]);
                } else if k <= i {
                    assert(v@[k] == pre[k - 1]);
                } else {
                    assert(v@[k] == pre[k]);
                }
            }
            assert forall|a: int, b: int|
                0 <= a < b < i + 1 implies staged_key(v@[a]@) <= staged_key(v@[b]@) by {
                let ka = if a < p {
                    pre[a]
                } else if a == p {
                    x
                } else {
                    pre[a - 1]
                };
                let kb = if b < p {
                    pre[b]
                } else if b == p {
                    x
                } else {
                    pre[b - 1]
                };
                assert(v@[a] == ka);
                assert(v@[b] == kb);
                if b < p {
                    assert(staged_key(pre[a]@) <= staged_key(pre[b]@));
                } else if b == p {
                    assert(p > 0 && a < p);
                    assert(staged_key(pre[p - 1]@) <= key);
                    if a < p - 1 {
                        assert(staged_key(pre[a]@) <= staged_key(pre[p - 1]@));
                    }
                } else if a == p {
                    assert(p <= b - 1 < i);
                    assert(staged_key(pre[b - 1]@) > key);
                } else if a < p {
                    assert(a < p <= b - 1 < i);
                    assert(staged_key(pre[a]@) <= staged_key(pre[b - 1]@));
                } else {
                    assert(p < a < b <= i);
                    assert(staged_key(pre[a - 1]@) <= staged_key(pre[b - 1]@));
                }
            }
        }
        i = i + 1;
    }
    proof {
        assert forall|a: int, b: int|
            0 <= a < b < v.deep_view().len() implies staged_key(v.deep_view()[a]) <= staged_key(
            v.deep_view()[b],
        ) by {
            assert(v.deep_view()[a] == v@[a]@);
            assert(v.deep_view()[b] == v@[b]@);
        }
    }
    v
}

/// Summarize a finished batch for the notification step.
pub fn build_manifest(bucket: &str, folder: u64, count: usize) -> (m: UploadManifest)
    requires
        1 <= count <= u64::MAX,
    ensures
        m.folder_number == folder,
        m.file_count == count,
        m.final_image_path@ == final_path_seq(bucket@, folder, count as nat),
{
    UploadManifest {
        folder_number: folder,
        file_count: count,
        final_image_path: final_image_path(bucket, folder, count),
    }
}

} // verus!
