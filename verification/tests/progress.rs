use rangemap::RangeSet;
use stream_owl::store::disk::progress::{
    progress_path, ranges_from_file_bytes, section_bytes, FlushNeeded, Progress, SECTION_LEN,
};
use stream_owl::store::disk::{is_progress_file, DiskState};

fn file_of(sections: &[(u64, u64)]) -> Vec<u8> {
    let mut file = Vec::new();
    for (start, end) in sections {
        file.extend_from_slice(&section_bytes(*start, *end));
    }
    file
}

#[test]
fn section_record_layout() {
    let record = section_bytes(1, 258);
    assert_eq!(record.len(), SECTION_LEN);
    assert_eq!(record, vec![1, 0, 0, 0, 0, 0, 0, 0, 2, 1, 0, 0, 0, 0, 0, 0]);
}

#[test]
fn progress_file_reads_back_sections() {
    let file = file_of(&[(3, 10), (20, 30), (8, 12), (40, 40)]);
    let mut expected = RangeSet::new();
    expected.insert(3..12);
    expected.insert(20..30);
    assert_eq!(ranges_from_file_bytes(&file), expected);
}

#[test]
fn partial_record_is_ignored() {
    let mut file = file_of(&[(0, 100)]);
    file.extend_from_slice(&section_bytes(200, 300)[..11]);
    let mut expected = RangeSet::new();
    expected.insert(0..100);
    assert_eq!(ranges_from_file_bytes(&file), expected);
    assert_eq!(ranges_from_file_bytes(&[]), RangeSet::new());
}

#[test]
fn progress_path_appends_extension() {
    assert_eq!(progress_path(b"/tmp/episode.mp3"), b"/tmp/episode.mp3.progress".to_vec());
    assert!(is_progress_file(b"episode.progress"));
    assert!(!is_progress_file(b".progress"));
    assert!(!is_progress_file(b"episode.progress.mp3"));
    assert!(!is_progress_file(b"progress"));
    assert!(!is_progress_file(b"episode.progres"));
}

#[test]
fn progress_updates_and_records() {
    let mut progress = Progress::new(&file_of(&[(500, 600)]), 0);
    assert_eq!(progress.update(0, 0), (None, FlushNeeded::No));
    assert_eq!(progress.update(100, 10), (Some(0..100), FlushNeeded::No));
    assert_eq!(progress.update(150, 600_000_000), (Some(0..150), FlushNeeded::Yes));
    assert_eq!(progress.next_record_start(), 0);

    let section = progress.section_to_record().unwrap();
    assert_eq!(section, 0..150);
    progress.section_recorded(section);
    assert_eq!(progress.next_record_start(), 150);
    assert_eq!(progress.section_to_record(), None);

    let r = progress.end_section(170, 500, 0);
    assert_eq!(r, (Some(150..170), FlushNeeded::No));
    assert_eq!(progress.next_record_start(), 500);
    assert_eq!(progress.section_to_record(), Some(500..600));

    let mut expected = RangeSet::new();
    expected.insert(0..170);
    expected.insert(500..600);
    assert_eq!(progress.ranges(), &expected);
}

#[test]
fn disk_state_tracks_writer_and_reader() {
    let mut disk = DiskState::new(&[]);
    assert_eq!(disk.writer_pos(), 0);
    let (section, flush) = disk.wrote(40, 0);
    assert_eq!(section, Some(0..40));
    assert_eq!(flush, FlushNeeded::No);
    assert_eq!(disk.writer_pos(), 40);
    let (section, _) = disk.writer_sought(100, 0);
    assert_eq!(section, Some(0..40));
    assert_eq!(disk.writer_pos(), 100);
    disk.wrote(10, 1_000_000_000);
    assert!(disk.gapless_from_till(100, 110));
    assert!(!disk.gapless_from_till(30, 110));
    disk.reader_sought(33);
    assert_eq!(disk.last_read_pos(), 33);
    assert_eq!(disk.n_supported_ranges(), usize::MAX);
}
