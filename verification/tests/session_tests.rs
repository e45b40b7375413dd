use sidetracker::session::{
    first_step, step_after_read, step_after_write, ChainStep, LocalFileSessionStore, SESSION_FILE,
};

#[test]
fn test_local_file_session_store_path() {
    assert_eq!(LocalFileSessionStore::new("/tmp/s.json").path(), "/tmp/s.json");
    assert_eq!(LocalFileSessionStore::default().path(), "session.json");
    assert_eq!(SESSION_FILE, "session.json");
}

/// Walks a chain whose stores hold a session where `present` says so, and
/// returns the stores that were asked and the one that answered.
fn read_chain(present: &[bool]) -> (Vec<usize>, Option<usize>) {
    let mut asked = Vec::new();
    let mut step = first_step(present.len());
    while let ChainStep::Visit(i) = step {
        asked.push(i);
        if present[i] {
            return (asked, Some(i));
        }
        step = step_after_read(present.len(), i, present[i]);
    }
    (asked, None)
}

#[test]
fn test_chain_reads_first_present() {
    assert_eq!(read_chain(&[]), (vec![], None));
    assert_eq!(read_chain(&[true, false]), (vec![0], Some(0)));
    assert_eq!(read_chain(&[false, true]), (vec![0, 1], Some(1)));
    assert_eq!(read_chain(&[true, true]), (vec![0], Some(0)));
    assert_eq!(read_chain(&[false, false]), (vec![0, 1], None));
    assert_eq!(read_chain(&[false, false, true, true]), (vec![0, 1, 2], Some(2)));
}

#[test]
fn test_chain_read_stops_when_found() {
    assert_eq!(step_after_read(3, 0, true), ChainStep::Done);
    assert_eq!(step_after_read(3, 0, false), ChainStep::Visit(1));
    assert_eq!(step_after_read(3, 2, false), ChainStep::Done);
    assert_eq!(step_after_read(0, 0, false), ChainStep::Done);
    assert_eq!(step_after_read(3, usize::MAX, false), ChainStep::Done);
    assert_eq!(step_after_write(3, usize::MAX), ChainStep::Done);
}

#[test]
fn test_chain_writes_to_all() {
    let mut visited = Vec::new();
    let mut step = first_step(3);
    while let ChainStep::Visit(i) = step {
        visited.push(i);
        step = step_after_write(3, i);
    }
    assert_eq!(visited, vec![0, 1, 2]);
    assert_eq!(first_step(0), ChainStep::Done);
}
