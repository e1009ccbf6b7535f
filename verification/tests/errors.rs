use rsieve::errors::Error;

#[test]
fn every_error_has_its_line() {
    assert_eq!(Error::BadInput.message(), "Invalid source specified.");
    assert_eq!(Error::BadHost.message(), "Only GitHub is supported.");
    assert_eq!(Error::BadOwner.message(), "No owner detected in source.");
    assert_eq!(Error::BadRepo.message(), "No repo detected in source.");
    assert_eq!(Error::ClientTimeout.message(), "Timeout during request");
    assert_eq!(
        Error::ClientWithStatus(404).message(),
        "Got status code: 404 Not Found."
    );
    assert_eq!(Error::ClientOther.message(), "Unknown client error.");
    assert_eq!(
        Error::Io("NotFound".into()).message(),
        "IO error: NotFound"
    );
    assert_eq!(
        Error::StripPrefixError.message(),
        "Strip prefix error writing files."
    );
    assert_eq!(
        Error::DestinationNotEmpty("src".into()).message(),
        "Destination src is not empty."
    );
    assert_eq!(
        Error::NoMatchingFiles.message(),
        "No matching files found for filter."
    );
    assert_eq!(
        Error::CloneError("fatal: not found".into()).message(),
        "Error cloning repo.\nfatal: not found"
    );
    assert_eq!(
        Error::GitError("NotFound".into(), "no such reference".into()).message(),
        "Git error: NotFound - no such reference"
    );
}

#[test]
fn a_status_is_shown_with_its_reason() {
    assert_eq!(
        Error::ClientWithStatus(400).message(),
        "Got status code: 400 Bad Request."
    );
    assert_eq!(
        Error::ClientWithStatus(403).message(),
        "Got status code: 403 Forbidden."
    );
    assert_eq!(
        Error::ClientWithStatus(429).message(),
        "Got status code: 429 Too Many Requests."
    );
    assert_eq!(
        Error::ClientWithStatus(499).message(),
        "Got status code: 499 <unknown status code>."
    );
}

#[test]
fn a_number_that_is_no_status_is_shown_alone() {
    assert_eq!(Error::ClientWithStatus(0).message(), "Got status code: 0.");
    assert_eq!(Error::ClientWithStatus(99).message(), "Got status code: 99.");
    assert_eq!(
        Error::ClientWithStatus(1000).message(),
        "Got status code: 1000."
    );
    assert_eq!(
        Error::ClientWithStatus(65535).message(),
        "Got status code: 65535."
    );
}

#[test]
fn a_failed_download_is_classified() {
    assert_eq!(Error::client_failure(true, None), Error::ClientTimeout);
    assert_eq!(Error::client_failure(true, Some(408)), Error::ClientTimeout);
    assert_eq!(
        Error::client_failure(false, Some(503)),
        Error::ClientWithStatus(503)
    );
    assert_eq!(Error::client_failure(false, None), Error::ClientOther);
}

#[test]
fn every_status_is_shown_as_the_client_shows_it() {
    for status in 0..=u16::MAX {
        let shown = match reqwest::StatusCode::from_u16(status) {
            Ok(code) => format!("{}", code),
            Err(_) => format!("{}", status),
        };
        assert_eq!(
            Error::ClientWithStatus(status).message(),
            format!("Got status code: {}.", shown)
        );
    }
}
