//! The per-job pipeline around the resolver, extractor and downloader:
//! the listing URL template, the request-scoped working directory, and
//! the compute stages between the network edges.

use vstd::prelude::*;
use vstd::string::StringExecFns;

use crate::download::{download_plan, staged_path, ImageRecord};
use crate::errors::JobError;
use crate::json::{extract_image_urls_from_json, extract_json_data, extracted_json, spec_image_urls};
use crate::resolver::{resolve, resolved, AuctionReference};

verus! {

/// The fixed prefix of the canonical listing URL: base, locale and the
/// auction path segment.
pub open spec fn listing_prefix() -> Seq<char> {
    "https://page.auctions.yahoo.co.jp/jp/auction/"@
}

/// The fixed parent of every request-scoped working directory.
pub open spec fn files_root() -> Seq<char> {
    "./files/"@
}

/// Construct the canonical listing URL of an auction identifier.
pub fn listing_url(auction_id: &str) -> (u: String)
    ensures
        u@ == listing_prefix() + auction_id@,
{
    let mut u = String::new();
    u.append("https://page.auctions.yahoo.co.jp/jp/auction/");
    u.append(auction_id);
    u
}

/// Construct the working directory a request's artifacts live under,
/// keyed by its identifier so distinct requests never contend.
pub fn working_directory(request_id: &str) -> (d: String)
    ensures
        d@ == files_root() + request_id@,
{
    let mut d = String::new();
    d.append("./files/");
    d.append(request_id);
    d
}

/// Everything a job needs before its first network fetch.
#[derive(Debug, Clone, PartialEq)]
pub struct JobPlan {
    pub reference: AuctionReference,
    pub listing_url: String,
    pub working_directory: String,
}

/// Resolve an input URL and lay out the job: the canonical reference,
/// the listing URL to fetch, and the request-scoped working directory.
pub fn plan_job(url: &str, request_id: &str) -> (r: Result<JobPlan, JobError>)
    ensures
        match r {
            Ok(plan) => {
                &&& resolved(url@) == Ok::<Seq<char>, JobError>(plan.reference.canonical_id@)
                &&& plan.reference.raw_url@ == url@
                &&& plan.listing_url@ == listing_prefix() + plan.reference.canonical_id@
                &&& plan.working_directory@ == files_root() + request_id@
            },
            Err(e) => resolved(url@) == Err::<Seq<char>, JobError>(e),
        },
{
    let reference = match resolve(url) {
        Ok(ar) => ar,
        Err(e) => {
            return Err(e);
        },
    };
    let listing = listing_url(reference.canonical_id.as_str());
    let dir = working_directory(request_id);
    Ok(JobPlan { reference, listing_url: listing, working_directory: dir })
}

/// Extract the embedded blob from a fetched listing page and stage its
/// image URLs: one record per URL, named 1-based and gap-free under the
/// working directory. A page whose blob lacks the expected nested path
/// yields an empty plan, not an error.
pub fn extract_job_images(html: &str, dir: &str) -> (r: Result<Vec<ImageRecord>, JobError>)
    ensures
        match r {
            Ok(records) => {
                &&& extracted_json(html@) is Ok
                &&& records.len() == spec_image_urls(extracted_json(html@).unwrap()).len()
                &&& forall|i: int|
                    0 <= i < records.len() ==> {
                        &&& (#[trigger] records@[i]).index == i
                        &&& records@[i].source_url@ == spec_image_urls(
                            extracted_json(html@).unwrap(),
                        )[i]
                        &&& records@[i].local_path@ == staged_path(dir@, i as nat)
                    }
            },
            Err(e) => extracted_json(html@) == Err::<crate::json::JsonValue, JobError>(e),
        },
{
    let blob = match extract_json_data(html) {
        Ok(v) => v,
        Err(e) => {
            return Err(e);
        },
    };
    let urls = extract_image_urls_from_json(&blob);
    proof {
        assert(urls.deep_view().len() == urls.len());
        assert forall|i: int| 0 <= i < urls.len() implies urls@[i]@ == spec_image_urls(
            extracted_json(html@).unwrap(),
        )[i] by {
            assert(urls.deep_view()[i] == urls@[i]@);
        }
    }
    Ok(download_plan(&urls, dir))
}

/// The acknowledgement text a successful job answers with.
pub open spec fn success_ack() -> Seq<char> {
    "Received URL successfully"@
}

/// The fixed descriptive text of each error class.
pub open spec fn message_prefix(e: JobError) -> Seq<char> {
    match e {
        JobError::UnsupportedSource => "unsupported source URL"@,
        JobError::IdentifierNotFound => "Auction ID not found in the URL"@,
        JobError::FetchError(_) => "failed to fetch the listing page: "@,
        JobError::ExtractionError => "Script element not found"@,
        JobError::ParseError => "embedded structured data is not valid JSON"@,
        JobError::DownloadError(_) => "failed to download an image: "@,
        JobError::UploadError(_) => "failed to upload a file: "@,
        JobError::NotificationError(_) => "failed to notify the gateway: "@,
        JobError::CleanupError(_) => "failed to remove a local file: "@,
    }
}

/// The full description of an error: its fixed text, with the carried
/// detail appended where the class has one.
pub open spec fn message_seq(e: JobError) -> Seq<char> {
    match e {
        JobError::FetchError(d) => message_prefix(e) + d@,
        JobError::DownloadError(d) => message_prefix(e) + d@,
        JobError::UploadError(d) => message_prefix(e) + d@,
        JobError::NotificationError(d) => message_prefix(e) + d@,
        JobError::CleanupError(d) => message_prefix(e) + d@,
        _ => message_prefix(e),
    }
}

impl JobError {
    /// The single descriptive failure text the job's caller sees.
    pub fn message(&self) -> (m: String)
        ensures
            m@ == message_seq(*self),
    {
        let mut m = String::new();
        match self {
            JobError::UnsupportedSource => {
                m.append("unsupported source URL");
            },
            JobError::IdentifierNotFound => {
                m.append("Auction ID not found in the URL");
            },
            JobError::FetchError(d) => {
                m.append("failed to fetch the listing page: ");
                m.append(d.as_str());
            },
            JobError::ExtractionError => {
                m.append("Script element not found");
            },
            JobError::ParseError => {
                m.append("embedded structured data is not valid JSON");
            },
            JobError::DownloadError(d) => {
                m.append("failed to download an image: ");
                m.append(d.as_str());
            },
            JobError::UploadError(d) => {
                m.append("failed to upload a file: ");
                m.append(d.as_str());
            },
            JobError::NotificationError(d) => {
                m.append("failed to notify the gateway: ");
                m.append(d.as_str());
            },
            JobError::CleanupError(d) => {
                m.append("failed to remove a local file: ");
                m.append(d.as_str());
            },
        }
        m
    }
}

/// The reply to the job's caller: a success flag and either the fixed
/// acknowledgement or the one consolidated failure description.
pub fn job_response(outcome: &Result<(), JobError>) -> (r: (bool, String))
    ensures
        match outcome {
            Ok(_) => r.0 && r.1@ == success_ack(),
            Err(e) => !r.0 && r.1@ == message_seq(*e),
        },
{
    match outcome {
        Ok(_) => {
            let mut ack = String::new();
            ack.append("Received URL successfully");
            (true, ack)
        },
        Err(e) => (false, e.message()),
    }
}

} // verus!
