use concon::address::CandidateAddress;
use concon::error::RaceError;
use concon::race::{plan_race, run_race, WorkerReport};
use concon::request::build_request;
use concon::response::{fetch_outcome, ResponseAccumulator};

#[test]
fn request_bytes_are_exact() {
    let host = b"example.test".to_vec();
    let request = build_request(&host);
    assert_eq!(
        request,
        b"GET / HTTP/1.1\r\nHost: example.test\r\nConnection: close\r\n\r\n".to_vec()
    );
}

#[test]
fn candidate_address_lengths() {
    assert!(CandidateAddress::new(vec![192, 0, 2, 1], 80).is_some());
    assert!(CandidateAddress::new(vec![0u8; 16], 80).is_some());
    assert!(CandidateAddress::new(vec![1u8, 2, 3], 80).is_none());
    assert!(CandidateAddress::new(Vec::new(), 80).is_none());
    let a = CandidateAddress::new(vec![192, 0, 2, 1], 80).unwrap();
    assert_eq!(a.ip, vec![192, 0, 2, 1]);
    assert_eq!(a.port, 80);
}

/// A scripted transport for one host: which candidates accept a connection,
/// and the response chunks the accepting endpoint serves once it has seen
/// the fixed request.
struct FakeHost {
    candidates: Vec<CandidateAddress>,
    reachable: Vec<bool>,
    response_chunks: Vec<Vec<u8>>,
    chunk_size: usize,
}

/// Runs the race-and-fetch sequence for one scripted host, with reports
/// arriving in candidate order, and returns the winning candidate's index
/// with the payload.
fn process_fake_host(host: &FakeHost, host_name: &[u8]) -> Result<(usize, Vec<u8>), RaceError> {
    let workers = plan_race(&host.candidates)?;
    assert_eq!(workers, host.candidates.len());
    let reports: Vec<WorkerReport> = (0..workers)
        .map(|w| WorkerReport { worker: w, connected: host.reachable[w] })
        .collect();
    let winner = run_race(&reports)?;
    // The winning connection is handed to the response handler, which
    // writes the fixed request; the fake endpoint only answers to it.
    let request = build_request(&host_name.to_vec());
    assert!(request.starts_with(b"GET / HTTP/1.1\r\n"));
    assert!(request.ends_with(b"\r\n\r\n"));
    let mut acc = ResponseAccumulator::new();
    for chunk in &host.response_chunks {
        if acc.done {
            break;
        }
        acc.on_read(chunk, host.chunk_size);
    }
    let payload = fetch_outcome(true, acc)?;
    Ok((winner, payload))
}

#[test]
fn two_addresses_first_refused_second_wins() {
    // "example.test" resolves to A (connection refused) and B (reachable):
    // the race resolves to B, and the payload is what B's transport served
    // in answer to the fixed request.
    let served = b"HTTP/1.1 200 OK\r\n\r\nhello from b".to_vec();
    let host = FakeHost {
        candidates: vec![
            CandidateAddress::new(vec![192, 0, 2, 1], 80).unwrap(),
            CandidateAddress::new(vec![192, 0, 2, 2], 80).unwrap(),
        ],
        reachable: vec![false, true],
        response_chunks: vec![served[0..16].to_vec(), served[16..].to_vec()],
        chunk_size: 16,
    };
    let (winner, payload) = process_fake_host(&host, b"example.test").unwrap();
    assert_eq!(winner, 1);
    assert_eq!(host.candidates[winner].ip, vec![192, 0, 2, 2]);
    assert_eq!(payload, served);
}

#[test]
fn zero_addresses_is_resolution_error() {
    // A host that resolves to no address fails before any worker exists.
    let host = FakeHost {
        candidates: Vec::new(),
        reachable: Vec::new(),
        response_chunks: Vec::new(),
        chunk_size: 16,
    };
    assert_eq!(process_fake_host(&host, b"nowhere.test"), Err(RaceError::Resolution));
}

#[test]
fn all_unreachable_then_next_host_proceeds() {
    // Three resolved addresses, all unreachable: that host reports overall
    // failure, and processing goes on to the next host instead of stopping.
    let failing = FakeHost {
        candidates: vec![
            CandidateAddress::new(vec![192, 0, 2, 1], 80).unwrap(),
            CandidateAddress::new(vec![192, 0, 2, 2], 80).unwrap(),
            CandidateAddress::new(vec![192, 0, 2, 3], 80).unwrap(),
        ],
        reachable: vec![false, false, false],
        response_chunks: Vec::new(),
        chunk_size: 16,
    };
    let healthy = FakeHost {
        candidates: vec![CandidateAddress::new(vec![192, 0, 2, 9], 80).unwrap()],
        reachable: vec![true],
        response_chunks: vec![b"ok".to_vec()],
        chunk_size: 16,
    };
    let mut outcomes = Vec::new();
    for (host, name) in [(&failing, b"down.test".as_slice()), (&healthy, b"up.test".as_slice())] {
        outcomes.push(process_fake_host(host, name));
    }
    assert_eq!(outcomes[0], Err(RaceError::AllCandidatesFailed));
    assert_eq!(outcomes[1], Ok((0usize, b"ok".to_vec())));
}
