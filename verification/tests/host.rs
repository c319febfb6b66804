use filehost::service::{
    classify_page_probe, classify_probe, DlOutcome, FileHost, PageOutcome, ProbeResult,
};

fn is_alnum(b: u8) -> bool {
    b.is_ascii_alphanumeric()
}

#[test]
fn upload_ids_are_pairwise_distinct() {
    let mut host = FileHost::new();
    let mut ids: Vec<Vec<u8>> = Vec::new();
    for i in 0..50 {
        let data = vec![i as u8; 3];
        let receipt = host.upload(data, None);
        ids.push(receipt.id);
    }
    for i in 0..ids.len() {
        assert_eq!(ids[i].len(), 4);
        assert!(ids[i].iter().all(|&b| is_alnum(b)));
        for j in (i + 1)..ids.len() {
            assert_ne!(ids[i], ids[j]);
        }
    }
}

#[test]
fn upload_then_fetch_round_trip() {
    let mut host = FileHost::new();
    let payload = b"%PDF-1.4 pretend report content".to_vec();
    let filename = b"report.pdf".to_vec();
    let receipt = host.upload(payload.clone(), Some(&filename));
    assert_eq!(receipt.ext, b"pdf".to_vec());
    let mut expected_name = receipt.id.clone();
    expected_name.push(b'.');
    expected_name.extend_from_slice(b"pdf");
    assert_eq!(receipt.name, expected_name);
    let fetched = host.fetch(&receipt.name);
    assert_eq!(fetched, Some(&payload));
}

#[test]
fn fetch_twice_returns_identical_bytes() {
    let mut host = FileHost::new();
    let payload = b"same bytes every time".to_vec();
    let receipt = host.upload(payload.clone(), Some(&b"notes.txt".to_vec()));
    let first = host.fetch(&receipt.name).cloned();
    let second = host.fetch(&receipt.name).cloned();
    assert_eq!(first, Some(payload));
    assert_eq!(first, second);
}

#[test]
fn fetch_of_unknown_name_is_none() {
    let mut host = FileHost::new();
    let receipt = host.upload(b"data".to_vec(), None);
    assert!(host.fetch(&receipt.name).is_some());
    assert!(host.fetch(b"zzzz.bin").is_none());
}

#[test]
fn absent_is_not_found_never_fault() {
    match classify_probe(ProbeResult::Absent) {
        DlOutcome::NotFound(body) => {
            assert_eq!(body, b"{\"error\":\"file was not found\"}".to_vec());
        }
        _ => panic!("a missing file must be answered with the not-found outcome"),
    }
}

#[test]
fn present_is_served() {
    assert!(matches!(classify_probe(ProbeResult::Present), DlOutcome::Serve));
}

#[test]
fn probe_failure_is_a_fault_with_the_message() {
    match classify_probe(ProbeResult::Failed(b"permission denied".to_vec())) {
        DlOutcome::Fault(body) => {
            assert_eq!(body, b"{\"error\":\"permission denied\"}".to_vec());
        }
        _ => panic!("a probe failure must be answered with the fault outcome"),
    }
}

#[test]
fn page_probe_outcomes_stay_distinguishable() {
    assert!(matches!(classify_page_probe(ProbeResult::Present), PageOutcome::Render));
    match classify_page_probe(ProbeResult::Absent) {
        PageOutcome::NotFound(body) => {
            assert_eq!(body, b"{\"error\":\"could not find file to dl\"}".to_vec());
        }
        _ => panic!("a missing file must be answered with the not-found outcome"),
    }
    match classify_page_probe(ProbeResult::Failed(b"disk on fire".to_vec())) {
        PageOutcome::Fault(body) => {
            assert_eq!(body, b"{\"error\":\"disk on fire\"}".to_vec());
        }
        _ => panic!("a probe failure must be answered with the fault outcome"),
    }
}

#[test]
fn upload_photo_scenario() {
    let mut host = FileHost::new();
    let receipt = host.upload(b"hello".to_vec(), Some(&b"photo.png".to_vec()));
    assert_eq!(receipt.id.len(), 4);
    assert!(receipt.id.iter().all(|&b| is_alnum(b)));
    assert_eq!(receipt.ext, b"png".to_vec());

    let mut expected_body = b"{\"id\":\"".to_vec();
    expected_body.extend_from_slice(&receipt.id);
    expected_body.extend_from_slice(b"\",\"ext\":\"png\"}");
    assert_eq!(receipt.response_body(), expected_body);

    let fetched = host.fetch(&receipt.name);
    assert_eq!(fetched, Some(&b"hello".to_vec()));

    assert!(host.fetch(b"doesnotexist.png").is_none());
    match classify_probe(ProbeResult::Absent) {
        DlOutcome::NotFound(body) => {
            assert_eq!(body, b"{\"error\":\"file was not found\"}".to_vec());
        }
        _ => panic!("missing file must map to not-found"),
    }
}
