use tokimo_package_hls::matroska::{extract_keyframes, Extraction, Window, READAHEAD};

fn id_bytes(id: u64) -> Vec<u8> {
    let all = id.to_be_bytes();
    let skip = all.iter().position(|&b| b != 0).unwrap();
    all[skip..].to_vec()
}

fn element(id: u64, body: &[u8]) -> Vec<u8> {
    let mut out = id_bytes(id);
    // Sizes are written in eight bytes.
    out.push(0x01);
    out.extend_from_slice(&(body.len() as u64).to_be_bytes()[1..]);
    out.extend_from_slice(body);
    out
}

fn uint(id: u64, value: u64) -> Vec<u8> {
    element(id, &value.to_be_bytes())
}

const EBML: u64 = 0x1A45_DFA3;
const SEGMENT: u64 = 0x1853_8067;
const SEEKHEAD: u64 = 0x114D_9B74;
const SEEK: u64 = 0x4DBB;
const SEEK_ID: u64 = 0x53AB;
const SEEK_POSITION: u64 = 0x53AC;
const INFO: u64 = 0x1549_A966;
const SCALE: u64 = 0x002A_D7B1;
const CUES: u64 = 0x1C53_BB6B;
const CUE_POINT: u64 = 0xBB;
const CUE_TIME: u64 = 0xB3;
const VOID: u64 = 0xEC;

fn seek(id: u64, position: u64) -> Vec<u8> {
    let body = [element(SEEK_ID, &id_bytes(id)), uint(SEEK_POSITION, position)].concat();
    element(SEEK, &body)
}

fn cues(times: &[u64]) -> Vec<u8> {
    let points: Vec<Vec<u8>> = times
        .iter()
        .map(|&t| element(CUE_POINT, &[element(VOID, &[1, 2, 3]), uint(CUE_TIME, t)].concat()))
        .collect();
    element(CUES, &points.concat())
}

fn file_of(children: &[u8]) -> Vec<u8> {
    [element(EBML, &[0x42, 0x86, 0x81, 1]), element(SEGMENT, children)].concat()
}

/// Reads the file as it is asked for, and counts the reads.
fn run(file: &[u8]) -> (Result<Vec<u128>, String>, usize) {
    let mut windows: Vec<Window> = Vec::new();
    loop {
        match extract_keyframes(&windows) {
            Extraction::Done(r) => return (r, windows.len()),
            Extraction::Need { offset, size } => {
                assert_eq!(size, READAHEAD);
                assert!(windows.iter().all(|w| w.offset != offset));
                let from = (offset as usize).min(file.len());
                let to = (from + size).min(file.len());
                windows.push(Window { offset, result: Ok(file[from..to].to_vec()) });
            }
        }
    }
}

fn error_of(file: &[u8]) -> String {
    run(file).0.unwrap_err()
}

#[test]
fn index_among_the_children_is_read() {
    let info = element(INFO, &uint(SCALE, 500_000));
    let file = file_of(&[info, element(VOID, &[0; 10]), cues(&[4000, 0, 2000])].concat());
    let (r, reads) = run(&file);
    assert_eq!(r.unwrap(), vec![0, 1_000_000_000, 2_000_000_000]);
    assert_eq!(reads, 1);
}

#[test]
fn index_is_found_through_the_list_of_positions() {
    let gap = vec![0u8; 200_000];
    let head_len = element(SEEKHEAD, &[seek(INFO, 0), seek(CUES, 0)].concat()).len();
    let info = element(INFO, &[uint(0x4489, 7), uint(SCALE, 1_000_000)].concat());
    let void = element(VOID, &gap);
    let info_at = head_len as u64;
    let cues_at = info_at + info.len() as u64 + void.len() as u64;
    let head = element(SEEKHEAD, &[seek(INFO, info_at), seek(CUES, cues_at)].concat());
    let file = file_of(&[head, info, void, cues(&[0, 6200, 11_900])].concat());
    let (r, reads) = run(&file);
    assert_eq!(r.unwrap(), vec![0, 6_200_000_000, 11_900_000_000]);
    assert_eq!(reads, 2);
}

#[test]
fn scale_is_a_millisecond_where_none_is_stated() {
    let file = file_of(&cues(&[1500]));
    assert_eq!(run(&file).0.unwrap(), vec![1_500_000_000]);
    let file = file_of(&[element(INFO, &uint(0x4489, 7)), cues(&[3])].concat());
    assert_eq!(run(&file).0.unwrap(), vec![3_000_000]);
}

#[test]
fn more_windows_change_nothing() {
    let file = file_of(&cues(&[5, 3]));
    let whole = Window { offset: 0, result: Ok(file.clone()) };
    let wrong = Window { offset: 0, result: Ok(vec![0; 100]) };
    let failed = Window { offset: 3, result: Err("late".to_string()) };
    match extract_keyframes(&[whole, wrong, failed]) {
        Extraction::Done(Ok(times)) => assert_eq!(times, vec![3_000_000, 5_000_000]),
        other => panic!("{other:?}"),
    }
}

#[test]
fn sizes_of_every_width_are_read() {
    // A segment of unknown size, and an index whose size takes one byte.
    let point = [0xBB, 0x83, 0xB3, 0x81, 9];
    let mut file = element(EBML, &[]);
    file.extend_from_slice(&id_bytes(SEGMENT));
    file.extend_from_slice(&[0x01, 0xFF, 0xFF, 0xFF, 0xFF, 0xFF, 0xFF, 0xFF]);
    file.extend_from_slice(&id_bytes(CUES));
    file.push(0x80 | point.len() as u8);
    file.extend_from_slice(&point);
    assert_eq!(run(&file).0.unwrap(), vec![9_000_000]);
    // The same with a size of two bytes.
    let mut file = element(EBML, &[]);
    file.extend_from_slice(&id_bytes(SEGMENT));
    file.push(0xFF);
    file.extend_from_slice(&id_bytes(CUES));
    file.extend_from_slice(&[0x40, point.len() as u8]);
    file.extend_from_slice(&point);
    assert_eq!(run(&file).0.unwrap(), vec![9_000_000]);
}

#[test]
fn errors_say_what_is_missing() {
    assert_eq!(error_of(&[]), "EOF");
    assert_eq!(error_of(&[0x00]), "invalid EBML ID first byte");
    assert_eq!(error_of(&[0x42, 0x86, 0x81]), "not a Matroska file (missing EBML header)");
    assert_eq!(error_of(&[0x1A, 0x45, 0xDF, 0xA3, 0x00]), "invalid EBML size byte");
    assert_eq!(error_of(&[0x1A, 0x45, 0xDF]), "EOF");
    assert_eq!(error_of(&[element(EBML, &[]), element(VOID, &[])].concat()), "expected Segment element");
    assert_eq!(error_of(&file_of(&element(VOID, &[0; 4]))), "no Cues element found in SeekHead");
    assert_eq!(error_of(&file_of(&cues(&[]))), "Cues element contains no CuePoint entries");
    let wide = element(CUES, &element(CUE_POINT, &element(CUE_TIME, &[0; 9])));
    assert_eq!(error_of(&file_of(&wide)), "uint element too wide");
    let large = element(SEEKHEAD, &element(SEEK, &element(SEEK_ID, &[1; 65])));
    assert_eq!(error_of(&file_of(&large)), "binary element too large");
    let mut cut = file_of(&[]);
    let at = cut.len();
    cut.extend_from_slice(&element(SEEKHEAD, &element(SEEK, &element(SEEK_ID, &[1; 10]))));
    cut.truncate(cut.len() - 4);
    assert!(at > 0);
    assert_eq!(error_of(&cut), "EOF in read_exact_buf");
}

#[test]
fn positions_that_lead_elsewhere_are_reported() {
    let head = element(SEEKHEAD, &seek(CUES, 0));
    let file = file_of(&head);
    let start = file.len() - head.len();
    assert_eq!(
        error_of(&file),
        format!("expected Cues element at offset {start}, got id=0x114D9B74")
    );
    let far = file_of(&element(SEEKHEAD, &seek(CUES, 1 << 40)));
    assert_eq!(error_of(&far), "EOF");
}

#[test]
fn failed_reads_are_reported() {
    let failed = Window { offset: 0, result: Err("no route to host".to_string()) };
    match extract_keyframes(&[failed]) {
        Extraction::Done(Err(m)) => assert_eq!(m, "no route to host"),
        other => panic!("{other:?}"),
    }
    match extract_keyframes(&[]) {
        Extraction::Need { offset, size } => assert_eq!((offset, size), (0, READAHEAD)),
        other => panic!("{other:?}"),
    }
}
