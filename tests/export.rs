use cbor::archive::{Archive, Counts, ExportError};
use cbor::export::{Action, Event, Exporter, Phase};

fn counts() -> Counts {
    Counts {
        primary_constraints: 10,
        secondary_constraints: 12,
        primary_variables: 8,
        secondary_variables: 9,
    }
}

fn started() -> Exporter {
    let (ex, action) = Exporter::start("circuit.r1cs".to_string(), "pp.cbor".to_string());
    match action {
        Action::Read { path } => assert_eq!(path, "circuit.r1cs"),
        _ => panic!("the first action must read the circuit"),
    }
    ex
}

fn loaded(bytes: Vec<u8>) -> Event {
    Event::Loaded(Ok(Archive { bytes, counts: counts() }))
}

#[test]
fn start_reads_input_and_derives_temp_path() {
    let ex = started();
    assert_eq!(ex.input(), "circuit.r1cs");
    assert_eq!(ex.output(), "pp.cbor");
    assert_eq!(ex.temp(), "pp.cbor.partial");
    assert_eq!(ex.phase(), Phase::Reading);
}

#[test]
fn successful_export_writes_temp_then_renames() {
    let mut ex = started();
    match ex.advance(loaded(vec![0xa1, 0x01, 0x02])) {
        Action::WriteTemp { path, bytes } => {
            assert_eq!(path, "pp.cbor.partial");
            assert_eq!(bytes, vec![0xa1, 0x01, 0x02]);
        }
        _ => panic!("expected the archive to be written to the temporary path"),
    }
    assert_eq!(ex.phase(), Phase::Writing);
    match ex.advance(Event::Completed(true)) {
        Action::Rename { from, to } => {
            assert_eq!(from, "pp.cbor.partial");
            assert_eq!(to, "pp.cbor");
        }
        _ => panic!("expected a rename onto the output"),
    }
    assert_eq!(ex.phase(), Phase::Committing);
    match ex.advance(Event::Completed(true)) {
        Action::Finish { outcome } => assert_eq!(outcome, Ok(counts())),
        _ => panic!("expected the export to finish"),
    }
    assert_eq!(ex.phase(), Phase::Finished);
    assert!(!ex.temp_left());
}

#[test]
fn load_failure_finishes_without_file_actions() {
    let mut ex = started();
    match ex.advance(Event::Loaded(Err(ExportError::Load))) {
        Action::Finish { outcome } => assert_eq!(outcome, Err(ExportError::Load)),
        _ => panic!("a failed load must end the export"),
    }
    for ev in [Event::Completed(true), Event::Completed(false), loaded(vec![1])] {
        match ex.advance(ev) {
            Action::Finish { outcome } => assert_eq!(outcome, Err(ExportError::Load)),
            _ => panic!("a finished export requests no further action"),
        }
    }
}

#[test]
fn existing_temp_file_is_left_alone() {
    let mut ex = started();
    ex.advance(loaded(vec![7, 7]));
    match ex.advance(Event::Untouched) {
        Action::Finish { outcome } => assert_eq!(outcome, Err(ExportError::Write)),
        _ => panic!("a temporary file the export did not create must not be removed"),
    }
    assert!(!ex.temp_left());
}

#[test]
fn failed_cleanup_is_reported() {
    let mut ex = started();
    ex.advance(loaded(vec![7, 7]));
    ex.advance(Event::Completed(false));
    match ex.advance(Event::Completed(false)) {
        Action::Finish { outcome } => assert_eq!(outcome, Err(ExportError::Write)),
        _ => panic!("expected the export to finish"),
    }
    assert!(ex.temp_left());
}

#[test]
fn write_failure_removes_temp_and_leaves_output() {
    let mut ex = started();
    ex.advance(loaded(vec![7, 7]));
    match ex.advance(Event::Completed(false)) {
        Action::Remove { path } => assert_eq!(path, "pp.cbor.partial"),
        _ => panic!("a failed write must remove the temporary file"),
    }
    assert_eq!(ex.phase(), Phase::Cleaning);
    match ex.advance(Event::Completed(true)) {
        Action::Finish { outcome } => assert_eq!(outcome, Err(ExportError::Write)),
        _ => panic!("expected the export to finish"),
    }
    assert!(!ex.temp_left());
}

#[test]
fn commit_failure_removes_temp() {
    let mut ex = started();
    ex.advance(loaded(vec![7]));
    ex.advance(Event::Completed(true));
    match ex.advance(Event::Completed(false)) {
        Action::Remove { path } => assert_eq!(path, "pp.cbor.partial"),
        _ => panic!("a failed rename must remove the temporary file"),
    }
    match ex.advance(Event::Completed(true)) {
        Action::Finish { outcome } => assert_eq!(outcome, Err(ExportError::Commit)),
        _ => panic!("expected the export to finish"),
    }
}

#[test]
fn events_out_of_order_end_the_export() {
    let mut ex = started();
    match ex.advance(Event::Completed(true)) {
        Action::Finish { outcome } => assert_eq!(outcome, Err(ExportError::OutOfOrder)),
        _ => panic!("expected the export to finish"),
    }

    let mut ex = started();
    ex.advance(loaded(vec![1]));
    match ex.advance(loaded(vec![2])) {
        Action::Remove { path } => assert_eq!(path, "pp.cbor.partial"),
        _ => panic!("expected the temporary file to be removed"),
    }
    match ex.advance(Event::Completed(true)) {
        Action::Finish { outcome } => assert_eq!(outcome, Err(ExportError::OutOfOrder)),
        _ => panic!("expected the export to finish"),
    }
}

#[test]
fn same_archive_gives_same_actions() {
    let run = |bytes: Vec<u8>| {
        let mut ex = started();
        let mut written = Vec::new();
        if let Action::WriteTemp { bytes, .. } = ex.advance(loaded(bytes)) {
            written = bytes;
        }
        ex.advance(Event::Completed(true));
        let outcome = match ex.advance(Event::Completed(true)) {
            Action::Finish { outcome } => outcome,
            _ => panic!("expected the export to finish"),
        };
        (written, outcome)
    };
    assert_eq!(run(vec![9, 8, 7]), run(vec![9, 8, 7]));
}

#[test]
fn counts_report_order() {
    assert_eq!(counts().report_order(), vec![10, 12, 8, 9]);
}
