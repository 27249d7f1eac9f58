use fat16::{
    read_sector_entries, BiosParameterBlock, DirScan, ClusterNumber, DirEntry, Directory, DirectoryKind,
    DirectorySectors, Fat16, FatError, File, NodeBudget, Open, RawDirEntry, ReadStep, Seek,
    DIRECTORY, SECTOR_SIZE,
};

// Geometry of the test image: 2 sectors per cluster, 1 reserved sector,
// 2 FATs of 1 sector, 16 root entries (1 sector). The FAT starts at
// sector 1, the root directory at sector 3, cluster 2 at sector 4.
const SPC: usize = 2;
const IMAGE_SECTORS: usize = 40;

fn superblock(bytes_per_sector: u16, spc: u8) -> Vec<u8> {
    let mut s = vec![0u8; SECTOR_SIZE];
    s[0x0b..0x0d].copy_from_slice(&bytes_per_sector.to_le_bytes());
    s[0x0d] = spc;
    s[0x0e..0x10].copy_from_slice(&1u16.to_le_bytes());
    s[0x10] = 2;
    s[0x11..0x13].copy_from_slice(&16u16.to_le_bytes());
    s[0x13..0x15].copy_from_slice(&(IMAGE_SECTORS as u16).to_le_bytes());
    s[0x15] = 0xf8;
    s[0x16..0x18].copy_from_slice(&1u16.to_le_bytes());
    s
}

fn new_image() -> Vec<u8> {
    let mut img = vec![0u8; SECTOR_SIZE * IMAGE_SECTORS];
    img[..SECTOR_SIZE].copy_from_slice(&superblock(512, SPC as u8));
    img
}

fn sector(img: &[u8], n: u64) -> &[u8] {
    let n = n as usize;
    &img[n * SECTOR_SIZE..(n + 1) * SECTOR_SIZE]
}

fn set_link(img: &mut [u8], cluster: usize, link: u16) {
    let at = SECTOR_SIZE + cluster * 2;
    img[at..at + 2].copy_from_slice(&link.to_le_bytes());
}

fn cluster_start(cluster: usize) -> usize {
    (4 + (cluster - 2) * SPC) * SECTOR_SIZE
}

fn record(name: &[u8; 8], ext: &[u8; 3], attributes: u8, cluster: u32, size: u32) -> [u8; 32] {
    let mut r = [0u8; 32];
    r[0..8].copy_from_slice(name);
    r[8..11].copy_from_slice(ext);
    r[11] = attributes;
    r[20..22].copy_from_slice(&((cluster >> 16) as u16).to_le_bytes());
    r[26..28].copy_from_slice(&(cluster as u16).to_le_bytes());
    r[28..32].copy_from_slice(&size.to_le_bytes());
    r
}

fn put_record(img: &mut [u8], sector: usize, index: usize, r: &[u8; 32]) {
    let at = sector * SECTOR_SIZE + index * 32;
    img[at..at + 32].copy_from_slice(r);
}

fn mount(img: &[u8]) -> Fat16 {
    Fat16::open(sector(img, 0)).unwrap()
}

fn walk_chain(fs: &Fat16, img: &[u8], start: ClusterNumber) -> Result<Vec<ClusterNumber>, FatError> {
    let mut chain = vec![start];
    let mut cluster = start;
    loop {
        let (fat_sector, _) = fs.fat_entry_location(cluster)?;
        match fs.next_cluster(cluster, sector(img, fat_sector))? {
            None => return Ok(chain),
            Some(next) => {
                chain.push(next);
                cluster = next;
            }
        }
    }
}

fn list_records(dir: &Directory, img: &[u8]) -> Result<Vec<RawDirEntry>, FatError> {
    let sectors: Vec<u64> = match dir.directory_sectors() {
        DirectorySectors::Fixed { first, count } => (first..first + count).collect(),
        DirectorySectors::Chain { start } => dir.fs.sector_chain(&walk_chain(&dir.fs, img, start)?)?,
    };
    let mut scan = DirScan::new();
    for s in sectors {
        if scan.ended {
            break;
        }
        scan.feed(sector(img, s));
    }
    Ok(scan.records)
}

fn names(entries: &[DirEntry]) -> Vec<String> {
    entries.iter().map(|e| String::from_utf8(e.name().to_vec()).unwrap()).collect()
}

fn read(file: &mut File, img: &[u8], want: usize) -> Result<Vec<u8>, FatError> {
    let mut out = Vec::new();
    while out.len() < want {
        match file.next_step()? {
            ReadStep::End => break,
            ReadStep::Link { fat_sector } => file.follow_link(sector(img, fat_sector))?,
            ReadStep::Data { sector: s } => {
                let left = want - out.len();
                file.copy_from(sector(img, s), &mut out, left);
            }
        }
    }
    Ok(out)
}

fn open_file(img: &[u8], cluster: u32, size: u32) -> File {
    let fs = mount(img);
    let raw = RawDirEntry::decode(&record(b"DATA    ", b"BIN", 0x20, cluster, size), 0);
    let mut budget = NodeBudget::new(1);
    let entry = DirEntry::new(fs, None, raw, &mut budget).unwrap();
    match entry.open().unwrap() {
        Open::File(f) => f,
        Open::Dir(_) => panic!("expected a file"),
    }
}

#[test]
fn superblock_geometry() {
    let img = new_image();
    let fs = mount(&img);
    let bpb = fs.bpb;
    assert_eq!(bpb.bytes_per_sector, 512);
    assert_eq!(bpb.first_fat_sector(), 1);
    assert_eq!(bpb.fat_sector_count(), 1);
    assert_eq!(bpb.all_fats_sector_count(), 2);
    assert_eq!(bpb.first_root_dir_sector(), 3);
    assert_eq!(bpb.root_dir_sector_count(), 1);
    assert_eq!(bpb.sectors_per_cluster(), 2);
    assert_eq!(bpb.first_cluster_sector(ClusterNumber(2)), 4);
    assert_eq!(bpb.first_cluster_sector(ClusterNumber(5)), 10);
    assert_eq!(bpb.cluster_sectors(ClusterNumber(3)), vec![6, 7]);
}

#[test]
fn root_dir_follows_reserved_and_fats() {
    let mut s = superblock(512, 4);
    s[0x0e..0x10].copy_from_slice(&32u16.to_le_bytes());
    s[0x10] = 3;
    s[0x16..0x18].copy_from_slice(&200u16.to_le_bytes());
    s[0x11..0x13].copy_from_slice(&512u16.to_le_bytes());
    let bpb = BiosParameterBlock::read(&s).unwrap();
    assert_eq!(bpb.first_root_dir_sector(), 32 + 3 * 200);
    assert_eq!(bpb.root_dir_sector_count(), 32);
    assert_eq!(bpb.first_cluster_sector(ClusterNumber(2)), 32 + 600 + 32);
}

#[test]
fn unsupported_sector_size_is_refused() {
    assert_eq!(BiosParameterBlock::read(&superblock(1024, 1)).unwrap_err(), FatError::UnsupportedFilesystem);
    assert_eq!(Fat16::open(&superblock(512, 0)).unwrap_err(), FatError::UnsupportedFilesystem);
}

#[test]
fn chain_links_end_bad_and_range() {
    let mut img = new_image();
    set_link(&mut img, 2, 3);
    set_link(&mut img, 3, 0xffff);
    set_link(&mut img, 4, 0xfff7);
    set_link(&mut img, 5, 0xfff8);
    set_link(&mut img, 6, 0);
    let fs = mount(&img);
    let fat = sector(&img, 1);
    assert_eq!(fs.next_cluster(ClusterNumber(2), fat), Ok(Some(ClusterNumber(3))));
    assert_eq!(fs.next_cluster(ClusterNumber(3), fat), Ok(None));
    assert_eq!(fs.next_cluster(ClusterNumber(5), fat), Ok(None));
    assert_eq!(fs.next_cluster(ClusterNumber(4), fat), Err(FatError::CorruptFilesystem));
    assert_eq!(fs.next_cluster(ClusterNumber(6), fat), Err(FatError::CorruptFilesystem));
    assert_eq!(fs.max_cluster(), 256);
    assert_eq!(fs.next_cluster(ClusterNumber(256), fat), Err(FatError::CorruptFilesystem));
    assert_eq!(fs.fat_entry_location(ClusterNumber(256)), Err(FatError::CorruptFilesystem));
    assert_eq!(fs.fat_entry_location(ClusterNumber(255)), Ok((1, 510)));
}

#[test]
fn sector_chain_follows_clusters_in_order() {
    let mut img = new_image();
    set_link(&mut img, 5, 2);
    set_link(&mut img, 2, 9);
    set_link(&mut img, 9, 0xfff8);
    let fs = mount(&img);
    let chain = walk_chain(&fs, &img, ClusterNumber(5)).unwrap();
    assert_eq!(chain, vec![ClusterNumber(5), ClusterNumber(2), ClusterNumber(9)]);
    assert_eq!(fs.sector_chain(&chain), Ok(vec![10, 11, 4, 5, 18, 19]));
    assert_eq!(fs.sector_chain(&Vec::new()), Ok(Vec::<u64>::new()));
    assert_eq!(fs.sector_chain(&vec![ClusterNumber(2), ClusterNumber(1)]), Err(FatError::CorruptFilesystem));
}

#[test]
fn root_entries_skip_deleted_and_stop_at_end() {
    let mut img = new_image();
    put_record(&mut img, 3, 0, &record(b"README  ", b"TXT", 0x20, 2, 10));
    let mut deleted = record(b"XOLD    ", b"TXT", 0x20, 3, 10);
    deleted[0] = 0xe5;
    put_record(&mut img, 3, 1, &deleted);
    put_record(&mut img, 3, 2, &record(b"BIN     ", b"   ", DIRECTORY, 4, 0));
    put_record(&mut img, 3, 3, &record(b"Kernel  ", b"ELF", 0x01, 5, 100));
    put_record(&mut img, 3, 4, &[0u8; 32]);
    put_record(&mut img, 3, 5, &record(b"GHOST   ", b"TXT", 0x20, 6, 10));
    let fs = mount(&img);
    let root = fs.root();
    let records = list_records(&root, &img).unwrap();
    let mut budget = NodeBudget::new(100);
    let entries = root.entries(&records, &mut budget).unwrap();
    assert_eq!(names(&entries), vec!["readme.txt", "bin", "kernel.elf"]);
    assert_eq!(budget.remaining(), 97);
    assert!(!entries[0].is_dir());
    assert!(entries[1].is_dir());
    assert_eq!(entries[0].dirent().size, 10);
}

#[test]
fn end_record_stops_scan_of_following_sectors() {
    let mut data = vec![0u8; SECTOR_SIZE];
    data[0..32].copy_from_slice(&record(b"A       ", b"   ", 0x20, 2, 1));
    let mut out = Vec::new();
    assert!(!read_sector_entries(&data, &mut out));
    assert_eq!(out.len(), 1);
    let mut full = vec![0u8; SECTOR_SIZE];
    for i in 0..16 {
        full[i * 32..i * 32 + 32].copy_from_slice(&record(b"F       ", b"   ", 0x20, 2, 1));
    }
    full[5 * 32] = 0xe5;
    assert!(read_sector_entries(&full, &mut out));
    assert_eq!(out.len(), 16);
}

#[test]
fn subdirectory_spans_two_clusters() {
    let mut img = new_image();
    put_record(&mut img, 3, 0, &record(b"DOCS    ", b"   ", DIRECTORY, 2, 0));
    set_link(&mut img, 2, 7);
    set_link(&mut img, 7, 0xffff);
    // cluster 2 holds sectors 4 and 5, cluster 7 sectors 14 and 15
    for i in 0..16 {
        put_record(&mut img, 4, i, &record(b"P       ", b"DAT", 0x20, 3, 1));
    }
    put_record(&mut img, 5, 0, &record(b"Q       ", b"   ", 0x20, 3, 1));
    for i in 1..16 {
        let mut d = record(b"D       ", b"   ", 0x20, 3, 1);
        d[0] = 0xe5;
        put_record(&mut img, 5, i, &d);
    }
    put_record(&mut img, 14, 0, &record(b"LAST    ", b"MD ", 0x20, 3, 1));
    let fs = mount(&img);
    let root = fs.root();
    let mut budget = NodeBudget::new(100);
    let docs = root.entry(b"docs", &root.entries(&list_records(&root, &img).unwrap(), &mut budget).unwrap()).unwrap();
    let dir = match docs.open().unwrap() {
        Open::Dir(d) => d,
        Open::File(_) => panic!("expected a directory"),
    };
    assert_eq!(dir.directory_sectors(), DirectorySectors::Chain { start: ClusterNumber(2) });
    let entries = dir.entries(&list_records(&dir, &img).unwrap(), &mut budget).unwrap();
    let got = names(&entries);
    assert_eq!(got.len(), 18);
    assert_eq!(got[0], "p.dat");
    assert_eq!(got[16], "q");
    assert_eq!(got[17], "last.md");
    assert_eq!(entries[0].shared.parents, vec![ClusterNumber(2)]);
}

#[test]
fn entry_lookup_and_not_found() {
    let mut img = new_image();
    put_record(&mut img, 3, 0, &record(b"ONE     ", b"TXT", 0x20, 2, 1));
    put_record(&mut img, 3, 1, &record(b"TWO     ", b"TXT", 0x20, 3, 2));
    let fs = mount(&img);
    let root = fs.root();
    let mut budget = NodeBudget::new(10);
    let entries = root.entries(&list_records(&root, &img).unwrap(), &mut budget).unwrap();
    let two = root.entry(b"two.txt", &entries).unwrap();
    assert_eq!(two.dirent().first_cluster(), ClusterNumber(3));
    assert_eq!(root.entry(b"three.txt", &entries).unwrap_err(), FatError::NotFound);
    assert_eq!(root.entry(b"TWO.TXT", &entries).unwrap_err(), FatError::NotFound);
}

#[test]
fn budget_exhaustion_is_an_error() {
    let mut img = new_image();
    put_record(&mut img, 3, 0, &record(b"ONE     ", b"TXT", 0x20, 2, 1));
    put_record(&mut img, 3, 1, &record(b"TWO     ", b"TXT", 0x20, 3, 2));
    let fs = mount(&img);
    let root = fs.root();
    let records = list_records(&root, &img).unwrap();
    let mut budget = NodeBudget::new(1);
    assert_eq!(root.entries(&records, &mut budget).unwrap_err(), FatError::MemoryExhausted);
    assert_eq!(budget.remaining(), 0);
    let raw = records[0];
    assert!(DirEntry::new(fs, None, raw, &mut budget).is_err());
}

#[test]
fn filename_forms() {
    let r = RawDirEntry::decode(&record(b"MAKEFILE", b"   ", 0x20, 2, 0), 0);
    assert_eq!(r.filename().as_slice(), b"makefile");
    let r = RawDirEntry::decode(&record(b"A       ", b"C  ", 0x20, 2, 0), 0);
    assert_eq!(r.filename().as_slice(), b"a.c");
    let r = RawDirEntry::decode(&record(b"LONGNAME", b"EXT", 0x20, 2, 0), 0);
    assert_eq!(r.filename().as_slice(), b"longname.ext");
    let r = RawDirEntry::decode(&record(b"Mi_x-9  ", b"Zz ", 0x20, 2, 0), 0);
    assert_eq!(r.filename().as_slice(), b"mi_x-9.zz");
}

#[test]
fn record_fields_decode() {
    let mut bytes = vec![0xaa; 8];
    bytes.extend_from_slice(&record(b"NAME    ", b"EXT", 0x33, 0x0001_0002, 0x1234_5678));
    let r = RawDirEntry::decode(&bytes, 8);
    assert_eq!(r.first_cluster(), ClusterNumber(0x0001_0002));
    assert_eq!(r.size, 0x1234_5678);
    assert_eq!(r.attributes, 0x33);
    assert_eq!(r.attributes().bits, 0x33);
    assert!(r.attributes().contains(DIRECTORY));
    let r = RawDirEntry::decode(&record(b"NAME    ", b"EXT", 0xc0, 2, 0), 0);
    assert_eq!(r.attributes().bits, 0);
}

#[test]
fn open_directory_and_file() {
    let img = new_image();
    let fs = mount(&img);
    let mut budget = NodeBudget::new(2);
    let d = DirEntry::new(fs, None, RawDirEntry::decode(&record(b"SUB     ", b"   ", DIRECTORY, 9, 0), 0), &mut budget).unwrap();
    match d.open().unwrap() {
        Open::Dir(dir) => assert!(matches!(dir.kind, DirectoryKind::Sub(_))),
        Open::File(_) => panic!("expected a directory"),
    }
    let f = DirEntry::new(fs, None, RawDirEntry::decode(&record(b"F       ", b"TXT", 0x20, 0x0003_0007, 77), 0), &mut budget).unwrap();
    match f.open().unwrap() {
        Open::File(file) => {
            assert_eq!(file.seek, Seek { cluster: Some(ClusterNumber(0x0003_0007)), sector: 0, offset: 0 });
            assert_eq!(file.remaining, 77);
        }
        Open::Dir(_) => panic!("expected a file"),
    }
}

fn fill_cluster(img: &mut [u8], cluster: usize, seed: u8) -> Vec<u8> {
    let start = cluster_start(cluster);
    let bytes: Vec<u8> = (0..SPC * SECTOR_SIZE).map(|i| (i as u8).wrapping_mul(7).wrapping_add(seed)).collect();
    img[start..start + bytes.len()].copy_from_slice(&bytes);
    bytes
}

#[test]
fn read_across_sectors_and_clusters() {
    let mut img = new_image();
    set_link(&mut img, 3, 6);
    set_link(&mut img, 6, 0xfff8);
    let mut content = fill_cluster(&mut img, 3, 1);
    content.extend(fill_cluster(&mut img, 6, 2));
    let size = 1500u32;
    let mut file = open_file(&img, 3, size);
    let got = read(&mut file, &img, 5000).unwrap();
    assert_eq!(got.len(), 1500);
    assert_eq!(got[..], content[..1500]);
    assert_eq!(read(&mut file, &img, 10).unwrap(), Vec::<u8>::new());
}

#[test]
fn read_shorter_than_file_then_continue() {
    let mut img = new_image();
    set_link(&mut img, 3, 6);
    set_link(&mut img, 6, 0xfff8);
    let mut content = fill_cluster(&mut img, 3, 1);
    content.extend(fill_cluster(&mut img, 6, 2));
    let mut file = open_file(&img, 3, 2048);
    let first = read(&mut file, &img, 700).unwrap();
    assert_eq!(first[..], content[..700]);
    let second = read(&mut file, &img, 1000).unwrap();
    assert_eq!(second[..], content[700..1700]);
    let third = read(&mut file, &img, 1000).unwrap();
    assert_eq!(third[..], content[1700..2048]);
}

#[test]
fn end_of_chain_mid_read_returns_bytes_so_far() {
    let mut img = new_image();
    set_link(&mut img, 4, 0xffff);
    let content = fill_cluster(&mut img, 4, 9);
    // the entry claims more bytes than its single cluster holds
    let mut file = open_file(&img, 4, 5000);
    let got = read(&mut file, &img, 3000).unwrap();
    assert_eq!(got.len(), 1024);
    assert_eq!(got, content);
    assert_eq!(file.seek.cluster, None);
}

#[test]
fn bad_link_mid_read_is_corruption() {
    let mut img = new_image();
    set_link(&mut img, 4, 0xfff7);
    fill_cluster(&mut img, 4, 9);
    let mut file = open_file(&img, 4, 5000);
    assert_eq!(read(&mut file, &img, 3000).unwrap_err(), FatError::CorruptFilesystem);
    let mut file = open_file(&img, 300, 10);
    assert_eq!(file.next_step(), Ok(ReadStep::Data { sector: 4 + 298 * 2 }));
    file.seek.sector = 1;
    file.seek.offset = 512;
    assert_eq!(file.next_step(), Err(FatError::CorruptFilesystem));
    assert_eq!(file.seek, Seek { cluster: Some(ClusterNumber(300)), sector: 1, offset: 512 });
    let mut file = open_file(&img, 0, 10);
    assert_eq!(file.next_step(), Err(FatError::CorruptFilesystem));
}

#[test]
fn empty_file_reads_nothing() {
    let img = new_image();
    let mut file = open_file(&img, 0, 0);
    assert_eq!(file.next_step(), Ok(ReadStep::End));
    assert_eq!(read(&mut file, &img, 10).unwrap(), Vec::<u8>::new());
}

#[test]
fn open_error_maps_to_fat_error() {
    assert_eq!(fat16::OpenError::Io.to_fat_error(), FatError::Io);
    assert_eq!(fat16::OpenError::MemoryExhausted.to_fat_error(), FatError::MemoryExhausted);
    assert_eq!(fat16::MemoryExhausted.to_fat_error(), FatError::MemoryExhausted);
}

#[test]
fn zero_clears_prefix_only() {
    let mut buf = [7u8; 10];
    fat16::zero(&mut buf, 4);
    assert_eq!(buf, [0, 0, 0, 0, 7, 7, 7, 7, 7, 7]);
    fat16::zero(&mut buf, 0);
    assert_eq!(buf[4], 7);
}

#[test]
fn released_nodes_can_be_taken_again() {
    let img = new_image();
    let fs = mount(&img);
    let raw = RawDirEntry::decode(&record(b"A       ", b"   ", 0x20, 2, 1), 0);
    let mut budget = NodeBudget::new(1);
    let first = DirEntry::new(fs, None, raw, &mut budget).unwrap();
    assert!(DirEntry::new(fs, None, raw, &mut budget).is_err());
    drop(first);
    budget.release();
    assert_eq!(budget.remaining(), 1);
    assert!(DirEntry::new(fs, None, raw, &mut budget).is_ok());
    assert_eq!(budget.remaining(), 0);
}

#[test]
fn cursor_stays_in_cluster_range() {
    let mut img = new_image();
    set_link(&mut img, 4, 0xfff7);
    let content = fill_cluster(&mut img, 4, 3);
    let mut file = open_file(&img, 4, 1000);
    let got = read(&mut file, &img, 1000).unwrap();
    assert_eq!(got, content[..1000].to_vec());
    assert_eq!(file.seek, Seek { cluster: Some(ClusterNumber(4)), sector: 1, offset: 488 });
    let mut file = open_file(&img, 4, 5000);
    assert_eq!(read(&mut file, &img, 5000).unwrap_err(), FatError::CorruptFilesystem);
    assert_eq!(file.seek, Seek { cluster: Some(ClusterNumber(4)), sector: 1, offset: 512 });
}

#[test]
fn scan_stops_across_sectors() {
    let mut first = vec![0u8; SECTOR_SIZE];
    for i in 0..16 {
        first[i * 32..i * 32 + 32].copy_from_slice(&record(b"X       ", b"   ", 0x20, 2, 1));
    }
    first[3 * 32] = 0xe5;
    let mut second = vec![0u8; SECTOR_SIZE];
    second[0..32].copy_from_slice(&record(b"Y       ", b"   ", 0x20, 2, 1));
    second[64..96].copy_from_slice(&record(b"Z       ", b"   ", 0x20, 2, 1));
    let mut scan = DirScan::new();
    scan.feed(&first);
    assert!(!scan.ended);
    assert_eq!(scan.records.len(), 15);
    scan.feed(&second);
    assert!(scan.ended);
    assert_eq!(scan.records.len(), 16);
    assert_eq!(scan.records[15].filename().as_slice(), b"y");
}
