//! File tailing engine: per-path byte offsets and line counters, incremental
//! scanning of newline-delimited content, rotation detection.
use vstd::prelude::*;

verus! {

use std::collections::HashMap;
use vstd::utf8::{valid_utf8, decode_utf8};
use crate::{Matcher, spec_matches};

broadcast use vstd::std_specs::hash::group_hash_axioms;

/// Per-file tailing state: byte offsets and line counters, keyed by an opaque
/// numeric path identifier chosen by the caller.
pub struct TailState {
    pub offsets: HashMap<u64, u64>,
    pub line_nums: HashMap<u64, u64>,
}

impl TailState {
    /// Fresh state with no paths recorded.
    pub fn new() -> (s: Self)
        ensures
            s.offsets@ == Map::<u64, u64>::empty(),
            s.line_nums@ == Map::<u64, u64>::empty(),
    {
        TailState { offsets: HashMap::new(), line_nums: HashMap::new() }
    }
}

/// One detected match: the source path's identifier, the 1-based line number,
/// and the decoded line text.
pub struct MatchEvent {
    pub path: u64,
    pub line: u64,
    pub text: String,
}

/// The value stored for `path`, or 0 when the path is unknown.
pub open spec fn stored_or_zero(m: Map<u64, u64>, path: u64) -> u64 {
    if m.contains_key(path) {
        m[path]
    } else {
        0
    }
}

/// Index of the first newline byte in `data`, or -1 when there is none.
pub open spec fn first_nl(data: Seq<u8>) -> int
    decreases data.len(),
{
    if data.len() == 0 {
        -1
    } else if data[0] == 10 {
        0
    } else {
        let r = first_nl(data.drop_first());
        if r < 0 {
            -1
        } else {
            r + 1
        }
    }
}

pub proof fn lemma_first_nl(data: Seq<u8>)
    ensures
        -1 <= first_nl(data) < data.len(),
        first_nl(data) >= 0 ==> data[first_nl(data)] == 10,
        first_nl(data) >= 0 ==> forall|j: int| 0 <= j < first_nl(data) ==> data[j] != 10,
        first_nl(data) < 0 ==> forall|j: int| 0 <= j < data.len() ==> data[j] != 10,
    decreases data.len(),
{
    if data.len() == 0 {
    } else if data[0] == 10 {
    } else {
        let d = data.drop_first();
        lemma_first_nl(d);
        if first_nl(data) >= 0 {
            assert forall|j: int| 0 <= j < first_nl(data) implies data[j] != 10 by {
                if j > 0 {
                    assert(d[j - 1] == data[j]);
                    assert(d[j - 1] != 10);
                }
            }
        } else {
            assert forall|j: int| 0 <= j < data.len() implies data[j] != 10 by {
                if j > 0 {
                    assert(d[j - 1] == data[j]);
                    assert(d[j - 1] != 10);
                }
            }
        }
    }
}

/// The result of scanning a byte chunk for complete lines: bytes consumed,
/// complete lines read, and the matching lines as (line number, text) pairs.
/// Scanning stops at the first complete line that is not valid UTF-8, and at
/// an unterminated trailing partial line.
pub open spec fn spec_scan(data: Seq<u8>, next_line: int, m: Matcher) -> (int, int, Seq<
    (int, Seq<char>),
>)
    decreases data.len(),
    via spec_scan_dec
{
    let i = first_nl(data);
    if i < 0 {
        (0, 0, Seq::empty())
    } else {
        let line = data.subrange(0, i);
        if !valid_utf8(line) {
            (0, 0, Seq::empty())
        } else {
            let text = decode_utf8(line);
            let rest = spec_scan(data.skip(i + 1), next_line + 1, m);
            let evs = if spec_matches(m, text) {
                seq![(next_line, text)] + rest.2
            } else {
                rest.2
            };
            (i + 1 + rest.0, 1 + rest.1, evs)
        }
    }
}

#[via_fn]
proof fn spec_scan_dec(data: Seq<u8>, next_line: int, m: Matcher) {
    lemma_first_nl(data);
}

pub proof fn lemma_scan_bounds(data: Seq<u8>, next_line: int, m: Matcher)
    ensures
        0 <= spec_scan(data, next_line, m).0 <= data.len(),
        0 <= spec_scan(data, next_line, m).1 <= data.len(),
        spec_scan(data, next_line, m).2.len() <= spec_scan(data, next_line, m).1,
    decreases data.len(),
{
    let i = first_nl(data);
    lemma_first_nl(data);
    if i >= 0 && valid_utf8(data.subrange(0, i)) {
        lemma_scan_bounds(data.skip(i + 1), next_line + 1, m);
    }
}

/// The offset stored after a scan: the observed file length, or the position
/// after the last consumed line if the scan read past it.
pub open spec fn spec_new_offset(file_len: u64, start: u64, consumed: int) -> int {
    if file_len >= start + consumed {
        file_len as int
    } else {
        start + consumed
    }
}

/// The effective start offset of a read: 0 when reading from scratch, else
/// the stored offset, forced back to 0 when the file shrank below it.
pub open spec fn spec_read_start(
    offsets: Map<u64, u64>,
    path: u64,
    from_scratch: bool,
    file_len: u64,
) -> u64 {
    let stored = if from_scratch {
        0u64
    } else {
        stored_or_zero(offsets, path)
    };
    if file_len < stored {
        0u64
    } else {
        stored
    }
}

/// Where a read of `path` must start, given the currently observed file
/// length. A length below the stored offset means rotation or truncation,
/// and the read restarts from 0.
pub fn read_start(state: &TailState, path: u64, from_scratch: bool, file_len: u64) -> (start: u64)
    ensures
        start == spec_read_start(state.offsets@, path, from_scratch, file_len),
{
    let stored: u64 = if from_scratch {
        0
    } else {
        match state.offsets.get(&path) {
            Some(v) => *v,
            None => 0,
        }
    };
    if file_len < stored {
        0
    } else {
        stored
    }
}

/// Index of the first newline byte at or after `from`, if any.
fn find_nl(data: &Vec<u8>, from: usize) -> (r: Option<usize>)
    requires
        from <= data@.len(),
    ensures
        match r {
            Some(j) => from <= j < data@.len() && first_nl(data@.skip(from as int)) == j - from,
            None => first_nl(data@.skip(from as int)) == -1,
        },
{
    let n = data.len();
    let mut j = from;
    while j < n
        invariant
            from <= j <= n,
            n == data@.len(),
            forall|t: int| from <= t < j ==> data@[t] != 10,
        decreases n - j,
    {
        if *data.get(j).unwrap() == 10u8 {
            proof {
                lemma_first_nl_at(data@.skip(from as int), j - from);
            }
            return Some(j);
        }
        j += 1;
    }
    proof {
        lemma_first_nl_none(data@.skip(from as int));
    }
    None
}

proof fn lemma_first_nl_at(data: Seq<u8>, k: int)
    requires
        0 <= k < data.len(),
        data[k] == 10,
        forall|t: int| 0 <= t < k ==> data[t] != 10,
    ensures
        first_nl(data) == k,
    decreases k,
{
    if k > 0 {
        assert(forall|t: int|
            0 <= t < data.drop_first().len() ==> data.drop_first()[t] == data[t + 1]);
        lemma_first_nl_at(data.drop_first(), k - 1);
    }
}

proof fn lemma_first_nl_none(data: Seq<u8>)
    requires
        forall|t: int| 0 <= t < data.len() ==> data[t] != 10,
    ensures
        first_nl(data) == -1,
    decreases data.len(),
{
    if data.len() > 0 {
        assert(forall|t: int|
            0 <= t < data.drop_first().len() ==> data.drop_first()[t] == data[t + 1]);
        lemma_first_nl_none(data.drop_first());
    }
}

/// Copy of `data[a..b]`.
fn subvec(data: &Vec<u8>, a: usize, b: usize) -> (r: Vec<u8>)
    requires
        a <= b <= data@.len(),
    ensures
        r@ == data@.subrange(a as int, b as int),
{
    let mut r: Vec<u8> = Vec::new();
    let mut i = a;
    while i < b
        invariant
            a <= i <= b <= data@.len(),
            r@ == data@.subrange(a as int, i as int),
        decreases b - i,
    {
        r.push(*data.get(i).unwrap());
        proof {
            assert(data@.subrange(a as int, i + 1) =~= data@.subrange(a as int, i as int).push(
                data@[i as int],
            ));
        }
        i += 1;
    }
    r
}

/// Relies on String::from_utf8: it succeeds exactly on valid UTF-8 input and
/// decodes the bytes to the characters they encode.
#[verifier::external_body]
fn decode_line(bytes: Vec<u8>) -> (r: Option<String>)
    ensures
        r is Some <==> valid_utf8(bytes@),
        r matches Some(s) ==> s@ == decode_utf8(bytes@),
{
    String::from_utf8(bytes).ok()
}

/// Scan the bytes of `path` read from offset `start`, with `file_len` the
/// file length observed before the read. Each complete newline-terminated
/// line raises the line counter and advances the byte cursor by its length
/// plus one delimiter byte; matching lines produce events. The scan stops
/// early at a line that does not decode, keeping the state advanced so far;
/// the stored offset absorbs at least the observed file length.
pub fn read_new_lines(
    path: u64,
    state: &mut TailState,
    matcher: &Matcher,
    file_len: u64,
    start: u64,
    data: &Vec<u8>,
) -> (events: Vec<MatchEvent>)
    requires
        start + data@.len() <= u64::MAX,
        stored_or_zero(old(state).line_nums@, path) + data@.len() <= u64::MAX,
    ensures
        ({
            let l0 = stored_or_zero(old(state).line_nums@, path) as int;
            let sc = spec_scan(data@, l0 + 1, *matcher);
            &&& final(state).offsets@ == old(state).offsets@.insert(
                path,
                spec_new_offset(file_len, start, sc.0) as u64,
            )
            &&& final(state).line_nums@ == old(state).line_nums@.insert(path, (l0 + sc.1) as u64)
            &&& events@.len() == sc.2.len()
            &&& forall|k: int|
                0 <= k < sc.2.len() ==> events@[k].path == path && events@[k].line as int
                    == sc.2[k].0 && events@[k].text@ == sc.2[k].1
        }),
{
    let line0: u64 = match state.line_nums.get(&path) {
        Some(v) => *v,
        None => 0,
    };
    let ghost full = spec_scan(data@, line0 + 1, *matcher);
    let n = data.len();
    let mut pos: usize = 0;
    let mut line_no: u64 = line0;
    let mut events: Vec<MatchEvent> = Vec::new();
    proof {
        lemma_scan_bounds(data@, line0 + 1, *matcher);
        assert(data@.skip(0) =~= data@);
    }
    loop
        invariant
            n == data@.len(),
            pos <= n,
            line0 <= line_no,
            line_no - line0 <= pos,
            start + n <= u64::MAX,
            line0 + n <= u64::MAX,
            state.offsets@ == old(state).offsets@,
            state.line_nums@ == old(state).line_nums@,
            line0 == stored_or_zero(old(state).line_nums@, path),
            full == spec_scan(data@, line0 + 1, *matcher),
            ({
                let rest = spec_scan(data@.skip(pos as int), line_no + 1, *matcher);
                &&& full.0 == pos + rest.0
                &&& full.1 == (line_no - line0) + rest.1
                &&& events@.len() + rest.2.len() == full.2.len()
                &&& forall|k: int| 0 <= k < rest.2.len() ==> full.2[events@.len() + k] == rest.2[k]
            }),
            forall|k: int|
                0 <= k < events@.len() ==> events@[k].path == path && events@[k].line as int
                    == full.2[k].0 && events@[k].text@ == full.2[k].1,
        ensures
            pos <= n,
            line0 <= line_no,
            state.offsets@ == old(state).offsets@,
            state.line_nums@ == old(state).line_nums@,
            full.0 == pos,
            full.1 == line_no - line0,
            events@.len() == full.2.len(),
            forall|k: int|
                0 <= k < events@.len() ==> events@[k].path == path && events@[k].line as int
                    == full.2[k].0 && events@[k].text@ == full.2[k].1,
        decreases n - pos,
    {
        let ghost rest = spec_scan(data@.skip(pos as int), line_no + 1, *matcher);
        match find_nl(data, pos) {
            None => {
                break ;
            },
            Some(j) => {
                let line_bytes = subvec(data, pos, j);
                proof {
                    assert(data@.skip(pos as int).subrange(0, j - pos) =~= data@.subrange(
                        pos as int,
                        j as int,
                    ));
                }
                match decode_line(line_bytes) {
                    None => {
                        break ;
                    },
                    Some(text) => {
                        let ghost i = j - pos;
                        let ghost rest2 = spec_scan(data@.skip(j + 1), line_no + 2, *matcher);
                        proof {
                            assert(data@.skip(pos as int).skip(i + 1) =~= data@.skip(j + 1));
                            assert(first_nl(data@.skip(pos as int)) == i);
                            assert(valid_utf8(data@.skip(pos as int).subrange(0, i)));
                            assert(text@ == decode_utf8(data@.skip(pos as int).subrange(0, i)));
                            assert(rest.0 == i + 1 + rest2.0);
                            assert(rest.1 == 1 + rest2.1);
                            if spec_matches(*matcher, text@) {
                                assert(rest.2 == seq![(line_no + 1int, text@)] + rest2.2);
                                assert(rest.2[0] == (line_no + 1int, text@));
                                assert(forall|k: int|
                                    0 <= k < rest2.2.len() ==> rest.2[1 + k] == rest2.2[k]);
                            } else {
                                assert(rest.2 == rest2.2);
                            }
                        }
                        line_no = line_no + 1;
                        if matcher.matches(text.as_str()) {
                            events.push(MatchEvent { path, line: line_no, text });
                            proof {
                                assert(full.2[events@.len() - 1] == rest.2[0]);
                            }
                        }
                        pos = j + 1;
                    },
                }
            },
        }
    }
    let end: u64 = start + (pos as u64);
    let new_off: u64 = if file_len >= end {
        file_len
    } else {
        end
    };
    state.offsets.insert(path, new_off);
    state.line_nums.insert(path, line_no);
    events
}

/// Bring one discovered file under watch: with `read_existing` the whole
/// current content is scanned from offset 0 (emitting matches for existing
/// lines); otherwise the current length is recorded as the start offset and
/// existing content is silently skipped.
pub fn initialize_file(
    path: u64,
    state: &mut TailState,
    matcher: &Matcher,
    read_existing: bool,
    file_len: u64,
    data: &Vec<u8>,
) -> (events: Vec<MatchEvent>)
    requires
        read_existing ==> data@.len() <= u64::MAX,
        read_existing ==> stored_or_zero(old(state).line_nums@, path) + data@.len() <= u64::MAX,
    ensures
        read_existing ==> ({
            let l0 = stored_or_zero(old(state).line_nums@, path) as int;
            let sc = spec_scan(data@, l0 + 1, *matcher);
            &&& final(state).offsets@ == old(state).offsets@.insert(
                path,
                spec_new_offset(file_len, 0, sc.0) as u64,
            )
            &&& final(state).line_nums@ == old(state).line_nums@.insert(path, (l0 + sc.1) as u64)
            &&& events@.len() == sc.2.len()
            &&& forall|k: int|
                0 <= k < sc.2.len() ==> events@[k].path == path && events@[k].line as int
                    == sc.2[k].0 && events@[k].text@ == sc.2[k].1
        }),
        !read_existing ==> final(state).offsets@ == old(state).offsets@.insert(path, file_len)
            && final(state).line_nums@ == old(state).line_nums@.insert(path, 0u64)
            && events@.len() == 0,
{
    if read_existing {
        read_new_lines(path, state, matcher, file_len, 0, data)
    } else {
        state.offsets.insert(path, file_len);
        state.line_nums.insert(path, 0);
        Vec::new()
    }
}

/// Forget the stored offset and line counter of a removed path.
pub fn evict_path(state: &mut TailState, path: u64)
    ensures
        final(state).offsets@ == old(state).offsets@.remove(path),
        final(state).line_nums@ == old(state).line_nums@.remove(path),
{
    state.offsets.remove(&path);
    state.line_nums.remove(&path);
}

/// Reading a file again with no intervening change is idempotent: the read
/// resumes at the end of the file, so it sees no bytes, emits no match, and
/// leaves both the offset and the line counter exactly as they were.
pub proof fn lemma_read_idempotent(
    offsets: Map<u64, u64>,
    lines: Map<u64, u64>,
    path: u64,
    file_len: u64,
    m: Matcher,
)
    requires
        offsets.contains_key(path),
        offsets[path] == file_len,
        lines.contains_key(path),
    ensures
        spec_read_start(offsets, path, false, file_len) == file_len,
        ({
            let sc = spec_scan(Seq::<u8>::empty(), lines[path] + 1, m);
            &&& sc.2.len() == 0
            &&& offsets.insert(path, spec_new_offset(file_len, file_len, sc.0) as u64) == offsets
            &&& lines.insert(path, (lines[path] + sc.1) as u64) == lines
        }),
{
    let sc = spec_scan(Seq::<u8>::empty(), lines[path] + 1, m);
    assert(first_nl(Seq::<u8>::empty()) == -1);
    assert(sc == (0int, 0int, Seq::<(int, Seq<char>)>::empty()));
    assert(offsets.insert(path, spec_new_offset(file_len, file_len, sc.0) as u64) =~= offsets);
    assert(lines.insert(path, (lines[path] + sc.1) as u64) =~= lines);
}

/// Detections of one scan keep the file's line order: every event carries
/// at least the number of the first scanned line, and the line numbers
/// increase strictly from one event to the next.
pub proof fn lemma_scan_events_ordered(data: Seq<u8>, next_line: int, m: Matcher)
    ensures
        ({
            let evs = spec_scan(data, next_line, m).2;
            &&& forall|a: int| 0 <= a < evs.len() ==> next_line <= #[trigger] evs[a].0
            &&& forall|a: int, b: int|
                0 <= a < b < evs.len() ==> #[trigger] evs[a].0 < #[trigger] evs[b].0
        }),
    decreases data.len(),
{
    let i = first_nl(data);
    lemma_first_nl(data);
    if i >= 0 && valid_utf8(data.subrange(0, i)) {
        lemma_scan_events_ordered(data.skip(i + 1), next_line + 1, m);
        let text = decode_utf8(data.subrange(0, i));
        let rest = spec_scan(data.skip(i + 1), next_line + 1, m).2;
        let evs = spec_scan(data, next_line, m).2;
        if spec_matches(m, text) {
            assert(evs == seq![(next_line, text)] + rest);
            assert(evs[0].0 == next_line);
            assert forall|a: int| 0 <= a < evs.len() implies next_line <= #[trigger] evs[a].0 by {
                if a > 0 {
                    assert(evs[a] == rest[a - 1]);
                    assert(next_line + 1 <= rest[a - 1].0);
                }
            }
            assert forall|a: int, b: int| 0 <= a < b < evs.len() implies #[trigger] evs[a].0
                < #[trigger] evs[b].0 by {
                assert(evs[b] == rest[b - 1]);
                assert(next_line + 1 <= rest[b - 1].0);
                if a > 0 {
                    assert(evs[a] == rest[a - 1]);
                    assert(rest[a - 1].0 < rest[b - 1].0);
                }
            }
        } else {
            assert(evs == rest);
            assert forall|a: int| 0 <= a < evs.len() implies next_line <= #[trigger] evs[a].0 by {
                assert(next_line + 1 <= rest[a].0);
            }
            assert forall|a: int, b: int| 0 <= a < b < evs.len() implies #[trigger] evs[a].0
                < #[trigger] evs[b].0 by {
                assert(rest[a].0 < rest[b].0);
            }
        }
    }
}

/// The tail state's offset invariant: a read that reaches the end of the
/// file stores exactly the observed length as the offset, so the offset
/// never exceeds the last observed length; and on a stable file, where the
/// stored offset is within the current length, the offset never moves
/// backwards.
pub proof fn lemma_offset_invariant(
    offsets: Map<u64, u64>,
    path: u64,
    file_len: u64,
    data: Seq<u8>,
    next_line: int,
    m: Matcher,
)
    requires
        stored_or_zero(offsets, path) <= file_len,
        stored_or_zero(offsets, path) + data.len() == file_len,
    ensures
        ({
            let start = spec_read_start(offsets, path, false, file_len);
            let sc = spec_scan(data, next_line, m);
            &&& start == stored_or_zero(offsets, path)
            &&& spec_new_offset(file_len, start, sc.0) == file_len
            &&& stored_or_zero(offsets, path) <= spec_new_offset(file_len, start, sc.0)
        }),
{
    lemma_scan_bounds(data, next_line, m);
}

/// A length regression between two observations means rotation or
/// truncation: the next read starts from scratch at offset 0.
pub proof fn lemma_rotation_resets(offsets: Map<u64, u64>, path: u64, file_len: u64)
    requires
        offsets.contains_key(path),
        file_len < offsets[path],
    ensures
        spec_read_start(offsets, path, false, file_len) == 0,
{
}

} // verus!
