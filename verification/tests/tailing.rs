use dende_rs::files::{evict_path, initialize_file, read_new_lines, read_start, TailState};
use dende_rs::Matcher;

fn literal(pat: &str) -> Matcher {
    Matcher::from_spec(&Some(String::from(pat)), &None).unwrap()
}

#[test]
fn initialize_skip_records_length() {
    let mut st = TailState::new();
    let m = literal("ERROR");
    let data: Vec<u8> = Vec::new();
    let evs = initialize_file(7, &mut st, &m, false, 120, &data);
    assert_eq!(evs.len(), 0);
    assert_eq!(st.offsets.get(&7), Some(&120));
    assert_eq!(st.line_nums.get(&7), Some(&0));
}

#[test]
fn initialize_read_existing_scans_from_zero() {
    // three pre-existing lines, the second one matching: exactly one event,
    // with the line number of its position
    let mut st = TailState::new();
    let m = literal("ERROR");
    let data = b"INFO start\nERROR disk full\nINFO done\n".to_vec();
    let evs = initialize_file(3, &mut st, &m, true, data.len() as u64, &data);
    assert_eq!(evs.len(), 1);
    assert_eq!(evs[0].path, 3);
    assert_eq!(evs[0].line, 2);
    assert_eq!(evs[0].text, "ERROR disk full");
    assert_eq!(st.offsets.get(&3), Some(&(data.len() as u64)));
    assert_eq!(st.line_nums.get(&3), Some(&3));
}

#[test]
fn fresh_file_matches_at_line_one() {
    // a job with read_existing = false: a line appended to one file gives no
    // notification, a matching line arriving in a fresh file is line 1
    let mut st = TailState::new();
    let m = literal("ERROR");
    let existing = b"old one\nold two\n";
    initialize_file(1, &mut st, &m, false, existing.len() as u64, &Vec::new());

    // append "INFO ok" to the known file: read continues from the offset
    let appended = b"INFO ok\n".to_vec();
    let new_len = (existing.len() + appended.len()) as u64;
    let start = read_start(&st, 1, false, new_len);
    assert_eq!(start, existing.len() as u64);
    let evs = read_new_lines(1, &mut st, &m, new_len, start, &appended);
    assert_eq!(evs.len(), 0);
    assert_eq!(st.line_nums.get(&1), Some(&1));

    // a new file appears with a matching line: read from scratch, line 1
    let created = b"ERROR disk full\n".to_vec();
    let start2 = read_start(&st, 2, true, created.len() as u64);
    assert_eq!(start2, 0);
    let evs2 = read_new_lines(2, &mut st, &m, created.len() as u64, start2, &created);
    assert_eq!(evs2.len(), 1);
    assert_eq!(evs2[0].path, 2);
    assert_eq!(evs2[0].line, 1);
    assert_eq!(evs2[0].text, "ERROR disk full");
}

#[test]
fn reading_twice_without_change_is_idempotent() {
    let mut st = TailState::new();
    let m = literal("b");
    let data = b"abc\nxbx\n".to_vec();
    let len = data.len() as u64;
    let evs = initialize_file(5, &mut st, &m, true, len, &data);
    assert_eq!(evs.len(), 2);
    let off = *st.offsets.get(&5).unwrap();
    let lines = *st.line_nums.get(&5).unwrap();

    // no intervening change: the next read starts at the end and sees nothing
    let start = read_start(&st, 5, false, len);
    assert_eq!(start, len);
    let evs2 = read_new_lines(5, &mut st, &m, len, start, &Vec::new());
    assert_eq!(evs2.len(), 0);
    assert_eq!(*st.offsets.get(&5).unwrap(), off);
    assert_eq!(*st.line_nums.get(&5).unwrap(), lines);
}

#[test]
fn truncation_restarts_from_zero() {
    let mut st = TailState::new();
    let m = literal("ERROR");
    initialize_file(9, &mut st, &m, false, 500, &Vec::new());
    assert_eq!(*st.offsets.get(&9).unwrap(), 500);

    // the file shrank: rotation or truncation in place
    let start = read_start(&st, 9, false, 20);
    assert_eq!(start, 0);
    let data = b"ERROR rotated\n".to_vec();
    let evs = read_new_lines(9, &mut st, &m, 20, start, &data);
    assert_eq!(evs.len(), 1);
    assert_eq!(evs[0].line, 1);
}

#[test]
fn partial_trailing_line_is_not_consumed() {
    let mut st = TailState::new();
    let m = literal("ERROR");
    let data = b"ERROR one\nERROR tw".to_vec();
    let evs = initialize_file(4, &mut st, &m, true, data.len() as u64, &data);
    // only the complete first line is processed; the partial line waits
    assert_eq!(evs.len(), 1);
    assert_eq!(evs[0].line, 1);
    assert_eq!(st.line_nums.get(&4), Some(&1));
    // the stored offset still absorbs the observed file length
    assert_eq!(st.offsets.get(&4), Some(&(data.len() as u64)));
}

#[test]
fn undecodable_line_aborts_the_scan() {
    let mut st = TailState::new();
    let m = literal("ERROR");
    let mut data = b"ERROR one\n".to_vec();
    data.extend_from_slice(&[0xff, 0xfe, b'\n']);
    data.extend_from_slice(b"ERROR three\n");
    let evs = initialize_file(6, &mut st, &m, true, data.len() as u64, &data);
    // the first line is seen; the scan stops at the undecodable line
    assert_eq!(evs.len(), 1);
    assert_eq!(st.line_nums.get(&6), Some(&1));
}

#[test]
fn multibyte_text_is_decoded() {
    let mut st = TailState::new();
    let m = literal("héllo");
    let data = "xx héllo wörld\n".as_bytes().to_vec();
    let evs = initialize_file(8, &mut st, &m, true, data.len() as u64, &data);
    assert_eq!(evs.len(), 1);
    assert_eq!(evs[0].text, "xx héllo wörld");
}

#[test]
fn removal_evicts_bookkeeping() {
    let mut st = TailState::new();
    let m = literal("x");
    initialize_file(11, &mut st, &m, false, 10, &Vec::new());
    evict_path(&mut st, 11);
    assert!(st.offsets.get(&11).is_none());
    assert!(st.line_nums.get(&11).is_none());
}
