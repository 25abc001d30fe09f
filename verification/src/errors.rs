//! Error taxonomy of the search and download pipelines.  Every error that
//! reaches the UI is rendered to a string; the rendering is verified
//! against a spec of the exact text.

use vstd::prelude::*;

verus! {

use vstd::string::StringExecFns;

use crate::models::Platform;
use crate::text::spec_decimal;
use crate::text::u64_to_string;

/// An error of one platform's search.  Each variant carries what its
/// rendered message needs.
#[derive(Clone, Debug)]
pub enum SearchError {
    /// Credentials required by the platform are absent.
    AuthenticationRequired { platform: Platform },
    /// The platform is switched off in the settings.
    Disabled { platform: Platform },
    /// Resolving a user handle yielded no account.
    UserNotFound { platform: Platform, query: String, instance: String },
    /// The transport failed before an HTTP status was received.
    NetworkError { detail: String },
    /// The platform answered with a non-success HTTP status.
    HttpError { status: u16, body: String },
    /// The platform's response could not be decoded.
    DecodeError { detail: String },
    /// An HTTP call exceeded its time limit.
    Timeout { query: String },
}

/// The rendered message of a search error.
pub open spec fn spec_search_error_message(e: SearchError) -> Seq<char> {
    match e {
        SearchError::AuthenticationRequired { platform } => if platform == Platform::Bluesky {
            "Bluesky handle or app password missing. Update Settings with valid credentials."@
        } else {
            "Authentication required. Please enable OAuth in Settings and sign in."@
        },
        SearchError::Disabled { platform } => if platform == Platform::Bluesky {
            "Bluesky is disabled. Enable it in Settings and provide credentials."@
        } else {
            "Platform is disabled. Enable it in Settings."@
        },
        SearchError::UserNotFound { platform, query, instance } => if platform
            == Platform::Pixelfed {
            "User '"@ + query@
                + "' not found. If this is a remote user, their instance may not be federated with "@
                + instance@ + ". Try searching for them directly on their home instance."@
        } else {
            "User '"@ + query@ + "' not found on "@ + instance@
                + ". Try searching directly on their home instance."@
        },
        SearchError::NetworkError { detail } => "Network error: "@ + detail@,
        SearchError::HttpError { status, body } => "Request failed: HTTP "@ + spec_decimal(
            status as int,
        ) + ". Response: "@ + body@,
        SearchError::DecodeError { detail } => "Failed to decode response: "@ + detail@,
        SearchError::Timeout { query } => "Request timed out while fetching '"@ + query@
            + "'. This query may have too many posts. Try searching for a less popular hashtag or a specific user instead."@,
    }
}

impl SearchError {
    /// Render the error for display.
    pub fn message(&self) -> (r: String)
        ensures
            r@ == spec_search_error_message(*self),
    {
        let mut out = String::new();
        match self {
            SearchError::AuthenticationRequired { platform } => {
                if *platform == Platform::Bluesky {
                    out.append(
                        "Bluesky handle or app password missing. Update Settings with valid credentials.",
                    );
                } else {
                    out.append(
                        "Authentication required. Please enable OAuth in Settings and sign in.",
                    );
                }
            },
            SearchError::Disabled { platform } => {
                if *platform == Platform::Bluesky {
                    out.append(
                        "Bluesky is disabled. Enable it in Settings and provide credentials.",
                    );
                } else {
                    out.append("Platform is disabled. Enable it in Settings.");
                }
            },
            SearchError::UserNotFound { platform, query, instance } => {
                if *platform == Platform::Pixelfed {
                    out.append("User '");
                    out.append(query.as_str());
                    out.append(
                        "' not found. If this is a remote user, their instance may not be federated with ",
                    );
                    out.append(instance.as_str());
                    out.append(". Try searching for them directly on their home instance.");
                } else {
                    out.append("User '");
                    out.append(query.as_str());
                    out.append("' not found on ");
                    out.append(instance.as_str());
                    out.append(". Try searching directly on their home instance.");
                }
            },
            SearchError::NetworkError { detail } => {
                out.append("Network error: ");
                out.append(detail.as_str());
            },
            SearchError::HttpError { status, body } => {
                out.append("Request failed: HTTP ");
                let digits = u64_to_string(*status as u64);
                out.append(digits.as_str());
                out.append(". Response: ");
                out.append(body.as_str());
            },
            SearchError::DecodeError { detail } => {
                out.append("Failed to decode response: ");
                out.append(detail.as_str());
            },
            SearchError::Timeout { query } => {
                out.append("Request timed out while fetching '");
                out.append(query.as_str());
                out.append(
                    "'. This query may have too many posts. Try searching for a less popular hashtag or a specific user instead.",
                );
            },
        }
        proof {
            assert(out@ =~= spec_search_error_message(*self));
        }
        out
    }
}

/// A batch-level error of the download pipeline.  Individual file
/// failures are degraded, never escalated to one of these.
#[derive(Clone, Debug)]
pub enum DownloadError {
    /// The flattened result set was empty.
    NoResults,
    /// Results were present but held no media URL at all.
    NoMedia,
    /// The download root directory could not be created.
    DirectoryCreateFailed { detail: String },
}

/// The rendered message of a download error.
pub open spec fn spec_download_error_message(e: DownloadError) -> Seq<char> {
    match e {
        DownloadError::NoResults => "No results to download"@,
        DownloadError::NoMedia => "No media attachments to download"@,
        DownloadError::DirectoryCreateFailed { detail } =>
            "Failed to create download directory: "@ + detail@,
    }
}

impl DownloadError {
    /// Render the error for display.
    pub fn message(&self) -> (r: String)
        ensures
            r@ == spec_download_error_message(*self),
    {
        let mut out = String::new();
        match self {
            DownloadError::NoResults => {
                out.append("No results to download");
            },
            DownloadError::NoMedia => {
                out.append("No media attachments to download");
            },
            DownloadError::DirectoryCreateFailed { detail } => {
                out.append("Failed to create download directory: ");
                out.append(detail.as_str());
            },
        }
        proof {
            assert(out@ =~= spec_download_error_message(*self));
        }
        out
    }
}

} // verus!
